use ssi_agent::json::Json;
use ssi_agent::json_schema_validation::{
    format_errors, validation_error_text, CredentialType, CredentialTypeVersion, JsonSchemaError,
};
use ssi_agent::server_config::error::ServerConfigError;
use ssi_agent::server_config::model::{credential_signing_alg_values_supported, SigningAlgorithm};
use ssi_agent::template::types::{InputMode, TxCodeConstraints};
use ssi_agent::utils::generate_tx_code::generate_tx_code;

fn context(entries: &[&str]) -> Json {
    Json::Object(vec![(
        "@context".to_string(),
        Json::Array(entries.iter().map(|e| Json::Str(e.to_string())).collect()),
    )])
}

#[test]
pub fn generate_numeric_transaction_code() {
    let sample = TxCodeConstraints { input_mode: Some(InputMode::Numeric), length: Some(6), description: None };
    let code_sample = generate_tx_code(&sample);
    println!("This is a sample code: {code_sample}");
    assert_eq!(code_sample.len(), 6);
    assert!(code_sample.chars().all(|c| c.is_ascii_digit()));
}

#[test]
pub fn generate_alphabetic_transaction_code() {
    let sample = TxCodeConstraints { input_mode: Some(InputMode::Text), length: Some(8), description: None };
    let code_sample_abc = generate_tx_code(&sample);
    println!("This is a sample code: {code_sample_abc}");
    assert_eq!(code_sample_abc.len(), 8);
    assert!(code_sample_abc.chars().all(|c| c.is_ascii_alphabetic()));
}

#[test]
fn transaction_code_defaults_to_six_digits() {
    let code = generate_tx_code(&TxCodeConstraints::default());
    assert_eq!(code.len(), 6);
    assert!(code.chars().all(|c| c.is_ascii_digit()));
}

#[test]
fn open_badge_version_is_told_from_the_second_context() {
    let data = context(&["https://www.w3.org/ns/credentials/v2", "https://purl.imsglobal.org/spec/ob/v3p0/context-3.0.3.json"]);
    assert_eq!(CredentialType::OpenBadgeCredential.get_version(&data), Ok(CredentialTypeVersion::OpenBadgeCredentialV3));
    let bad = context(&["https://www.w3.org/ns/credentials/v2", "https://example.com/context.json"]);
    assert_eq!(
        CredentialType::OpenBadgeCredential.get_version(&bad).unwrap_err().message(),
        "Get Credential Type Error: `Invalid Credential Format: Unexpected second context element in OpenBadge Credential`"
    );
    let short = context(&["https://www.w3.org/ns/credentials/v2"]);
    assert_eq!(
        CredentialType::OpenBadgeCredential.get_version(&short),
        Err(JsonSchemaError::GetCredentialTypeError(
            "Invalid Credential Format: Second context element missing from OpenBadge Credential".to_string()
        ))
    );
}

#[test]
fn verifiable_credential_version_is_told_from_the_first_context() {
    let v1 = context(&["https://www.w3.org/2018/credentials/v1"]);
    assert_eq!(CredentialType::VerifiableCredential.get_version(&v1), Ok(CredentialTypeVersion::VerifiableCredentialV1_1));
    let v2 = context(&["https://www.w3.org/ns/credentials/v2"]);
    assert_eq!(CredentialType::VerifiableCredential.get_version(&v2), Ok(CredentialTypeVersion::VerifiableCredentialV2));
    let none = context(&[]);
    assert!(CredentialType::VerifiableCredential.get_version(&none).is_err());
    let edc = context(&["https://www.w3.org/2018/credentials/v1", "https://elm.edc.nl/credentials/v3.3/context.json"]);
    assert_eq!(CredentialType::EuropeanDigitalCredential.get_version(&edc), Ok(CredentialTypeVersion::EuropeanDigitalCredentialV3_3));
    assert_eq!(CredentialType::Unknown.get_version(&edc), Ok(CredentialTypeVersion::Unknown));
}

#[test]
fn context_must_be_a_list_of_strings() {
    let missing = Json::Object(vec![]);
    match CredentialType::Unknown.get_version(&missing) {
        Err(JsonSchemaError::InvalidJsonData(m)) => assert!(m.contains("null")),
        other => panic!("unexpected {other:?}"),
    }
    let numbers = Json::Object(vec![("@context".to_string(), Json::Array(vec![Json::Number("1".to_string())]))]);
    assert!(matches!(CredentialType::VerifiableCredential.get_version(&numbers), Err(JsonSchemaError::InvalidJsonData(_))));
}

#[test]
fn validation_errors_are_numbered() {
    let errors = vec!["first".to_string(), "second".to_string()];
    assert_eq!(format_errors(&errors), "  [1] first\n  [2] second");
    let e = CredentialTypeVersion::OpenBadgeCredentialV3.validation_outcome(errors.clone()).unwrap_err();
    assert_eq!(e.message(), "Credential validation failed for type `OpenBadgeCredentialV3`:\n  [1] first\n  [2] second");
    assert!(CredentialTypeVersion::Unknown.validation_outcome(errors).is_ok());
    assert!(CredentialTypeVersion::VerifiableCredentialV2.validation_outcome(vec![]).is_ok());
    let ten: Vec<String> = (0..10).map(|i| i.to_string()).collect();
    assert!(format_errors(&ten).ends_with("  [10] 9"));
}

#[test]
fn validator_keys() {
    assert_eq!(CredentialTypeVersion::OpenBadgeCredentialV3.validator_key(), Ok("OpenBadgeCredentialV3.json"));
    assert_eq!(
        CredentialTypeVersion::Unknown.validator_key().unwrap_err().message(),
        "Get Credential Type Error: `Unknown Credential Type version, no corresponding validator found`"
    );
}

#[test]
fn signing_algorithm_names() {
    let names = credential_signing_alg_values_supported(&vec![SigningAlgorithm::ES256, SigningAlgorithm::EdDSA]);
    assert_eq!(names, vec!["ES256".to_string(), "EdDSA".to_string()]);
    assert_eq!(
        ServerConfigError::UnsupportedCredentialFormatIdentifierError("x".to_string()).message(),
        "Unsupported credential format identifier: `x`"
    );
}

#[test]
fn validation_error_text_lists_message_field_and_schema_path() {
    assert_eq!(
        validation_error_text("\"x\" is not of type \"integer\"", "/credentialSubject/age", "/properties/age/type"),
        "Error: \"x\" is not of type \"integer\"\nField: /credentialSubject/age\nSchema Path: /properties/age/type\n"
    );
}

#[test]
fn missing_validator_names_the_version() {
    assert_eq!(
        CredentialTypeVersion::OpenBadgeCredentialV3.missing_validator().message(),
        "Get Credential Type Error: `No validator found for OpenBadge Credential v3`"
    );
}
