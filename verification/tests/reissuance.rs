use ssi_agent::json::Json;
use ssi_agent::reissuance::aggregate::Reissuance;
use ssi_agent::reissuance::command::ReissuanceCommand;
use ssi_agent::reissuance::error::ReissuanceError;
use ssi_agent::reissuance::event::ReissuanceEvent;
use ssi_agent::reissuance::policy::{NoOpReissuancePolicy, ReissuancePolicy, ReissuancePolicyError, ReissuancePolicyRequest};
use ssi_agent::reissuance::process::{
    ConfigurationFacts, CreateReissuanceRequest, CredentialExpiry, CredentialRefreshService, ReissuanceAction,
    ReissuanceInput,
};
use ssi_agent::reissuance::service::{
    offer_grant, CreateReissuanceResponse, CredentialFormatKind, OfferGrant, ReissuanceService, ReissuanceServiceError,
};
use ssi_agent::reissuance::views::AllReissuancesView;
use ssi_agent::template::types::{Authorization, InputMode, TxCodeConstraints};

fn create_reissuance_command() -> ReissuanceCommand {
    ReissuanceCommand::CreateReissuance {
        reissuance_id: "reissuance-id".to_string(),
        original_credential_id: "original-credential-id".to_string(),
        new_credential_id: "new-credential-id".to_string(),
        offer_id: "offer-id".to_string(),
        credential_configuration_id: "credential-configuration-id".to_string(),
        reason: Some("data_changed".to_string()),
        trigger_type: Some("manual".to_string()),
        triggered_by: Some("unitrust".to_string()),
        status_action: None,
    }
}

#[test]
fn create_reissuance_records_relation() {
    let mut reissuance = Reissuance::default();
    let events = reissuance.handle(create_reissuance_command()).expect("reissuance creation should succeed");
    assert_eq!(events.len(), 1);
    let ReissuanceEvent::ReissuanceCreated {
        reissuance_id,
        original_credential_id,
        new_credential_id,
        offer_id,
        credential_configuration_id,
        reason,
        trigger_type,
        triggered_by,
        status_action,
        created_at,
    } = events.first().expect("reissuance creation should emit an event").clone();
    assert_eq!(reissuance_id, "reissuance-id");
    assert_eq!(original_credential_id, "original-credential-id");
    assert_eq!(new_credential_id, "new-credential-id");
    assert_eq!(offer_id, "offer-id");
    assert_eq!(credential_configuration_id, "credential-configuration-id");
    assert_eq!(reason.as_deref(), Some("data_changed"));
    assert_eq!(trigger_type.as_deref(), Some("manual"));
    assert_eq!(triggered_by.as_deref(), Some("unitrust"));
    assert_eq!(status_action, None);

    reissuance.apply(ReissuanceEvent::ReissuanceCreated {
        reissuance_id,
        original_credential_id,
        new_credential_id,
        offer_id,
        credential_configuration_id,
        reason,
        trigger_type,
        triggered_by,
        status_action,
        created_at,
    });
    assert_eq!(reissuance.reissuance_id, "reissuance-id");
    assert_eq!(reissuance.original_credential_id, "original-credential-id");
    assert_eq!(reissuance.new_credential_id, "new-credential-id");
    assert_eq!(reissuance.offer_id, "offer-id");
    assert_eq!(reissuance.credential_configuration_id, "credential-configuration-id");
    assert_eq!(reissuance.reason.as_deref(), Some("data_changed"));
    assert_eq!(reissuance.trigger_type.as_deref(), Some("manual"));
    assert_eq!(reissuance.triggered_by.as_deref(), Some("unitrust"));
    assert_eq!(reissuance.status_action, None);
    assert!(reissuance.created_at.is_some());

    let error = reissuance
        .handle(create_reissuance_command())
        .expect_err("existing reissuance relation should not be recreated");
    assert_eq!(error, ReissuanceError::AlreadyExists);
    assert_eq!(error.message(), "Reissuance relation already exists");
}

#[test]
fn create_reissuance_preserves_optional_status_action_metadata() {
    let mut command = create_reissuance_command();
    let ReissuanceCommand::CreateReissuance { status_action, .. } = &mut command;
    *status_action = Some("replaced".to_string());
    let events = Reissuance::default().handle(command).expect("reissuance creation should succeed");
    let ReissuanceEvent::ReissuanceCreated { status_action, .. } =
        events.first().expect("reissuance creation should emit an event").clone();
    assert_eq!(status_action.as_deref(), Some("replaced"));
}

#[test]
fn decide_uses_the_given_time() {
    let events = Reissuance::default().decide(create_reissuance_command(), "2010-01-01T00:00:00Z".to_string()).unwrap();
    let ReissuanceEvent::ReissuanceCreated { created_at, .. } = events[0].clone();
    assert_eq!(created_at, "2010-01-01T00:00:00Z");
    assert_eq!(events[0].event_type(), "ReissuanceCreated");
}

#[test]
fn noop_reissuance_policy_allows_requests() {
    let policy = NoOpReissuancePolicy;
    let request = ReissuancePolicyRequest {
        original_credential_id: "original-credential-id".to_string(),
        credential_configuration_id: "credential-configuration-id".to_string(),
        triggered_by: Some("unitrust".to_string()),
        trigger_type: Some("manual".to_string()),
    };
    assert_eq!(policy.authorize(&request), Ok(()));
}

struct Deny;

impl ReissuancePolicy for Deny {
    fn authorize(&self, _request: &ReissuancePolicyRequest) -> Result<(), ReissuancePolicyError> {
        Err(ReissuancePolicyError::NotAllowed)
    }
}

fn request() -> ReissuancePolicyRequest {
    ReissuancePolicyRequest {
        original_credential_id: "o".to_string(),
        credential_configuration_id: "c".to_string(),
        triggered_by: None,
        trigger_type: None,
    }
}

#[test]
fn service_reports_policy_refusal() {
    let service = ReissuanceService::new(Deny);
    let e = service.authorize(&request()).unwrap_err();
    assert_eq!(e, ReissuanceServiceError::Policy(ReissuancePolicyError::NotAllowed));
    assert_eq!(e.message(), "Reissuance is not allowed");
    assert!(ReissuanceService::default().authorize(&request()).is_ok());
}

/// A store of credentials, configurations, offers and relations that answers what a
/// reissuance asks for.
struct Store {
    credentials: Vec<(String, Json, Option<CredentialRefreshService>)>,
    created: Vec<(String, String, CredentialExpiry)>,
    configurations: Vec<(String, &'static str, Option<String>)>,
    offers: Vec<(String, Vec<String>, OfferGrant)>,
    refresh_capabilities: Vec<(String, String)>,
    relations: Vec<Reissuance>,
    looked_up_refresh_type: Option<String>,
}

fn payload(last_name: &str) -> Json {
    Json::Object(vec![
        ("first_name".to_string(), Json::Str("Ferris".to_string())),
        ("last_name".to_string(), Json::Str(last_name.to_string())),
        ("dob".to_string(), Json::Str("2010-01-01".to_string())),
    ])
}

fn subject_payload(last_name: &str) -> Json {
    Json::Object(vec![("credentialSubject".to_string(), payload(last_name))])
}

fn test_store() -> Store {
    Store {
        credentials: vec![],
        created: vec![],
        configurations: vec![
            ("001".to_string(), "jwt_vc_json", None),
            ("SD-JWT VC".to_string(), "dc+sd-jwt", None),
            ("VCDM SD-JWT VC".to_string(), "vc+sd-jwt", None),
        ],
        offers: vec![],
        refresh_capabilities: vec![],
        relations: vec![],
        looked_up_refresh_type: None,
    }
}

fn add_refreshable_sd_jwt_credential_configuration(store: &mut Store) {
    store.configurations.retain(|c| c.0 != "SD-JWT VC");
    store.configurations.push(("SD-JWT VC".to_string(), "dc+sd-jwt", Some("VerifiableCredentialRefreshService2021".to_string())));
}

fn create_original_credential(store: &mut Store, credential_id: &str, credential_configuration_id: &str) {
    let raw = if credential_configuration_id == "SD-JWT VC" { payload("Rustacean") } else { subject_payload("Rustacean") };
    store.credentials.push((credential_id.to_string(), raw, None));
}

fn reissuance_request(credential_configuration_id: &str, credential: Json) -> CreateReissuanceRequest {
    CreateReissuanceRequest {
        reissuance_id: "reissuance-id".to_string(),
        original_credential_id: "original-credential-id".to_string(),
        new_credential_id: "new-credential-id".to_string(),
        offer_id: "offer-id".to_string(),
        credential_configuration_id: credential_configuration_id.to_string(),
        credential,
        expires_at: CredentialExpiry::Never,
        reason: Some("data_changed".to_string()),
        trigger_type: Some("manual".to_string()),
        triggered_by: Some("unitrust".to_string()),
        status_action: None,
    }
}

fn format_kind(format: &str) -> CredentialFormatKind {
    match format {
        "dc+sd-jwt" => CredentialFormatKind::DcSdJwt,
        "vc+sd-jwt" => CredentialFormatKind::VcSdJwt,
        other => CredentialFormatKind::Other(Json::Object(vec![("format".to_string(), Json::Str(other.to_string()))])),
    }
}

/// Performs what the reissuance asks for against `store` until it finishes.
fn run<P: ReissuancePolicy>(
    service: &ReissuanceService<P>,
    store: &mut Store,
    request: CreateReissuanceRequest,
) -> Result<CreateReissuanceResponse, ReissuanceServiceError> {
    let (mut process, mut action) =
        service.create(request, "https://my-domain.example.org/credential-refresh".to_string());
    loop {
        let input = match action {
            ReissuanceAction::QueryCredential { credential_id } => ReissuanceInput::OriginalCredential(Ok(store
                .credentials
                .iter()
                .find(|c| c.0 == credential_id)
                .map(|c| c.0.clone()))),
            ReissuanceAction::QueryCredentialConfiguration { credential_configuration_id } => {
                let found = store.configurations.iter().find(|c| c.0 == credential_configuration_id);
                store.looked_up_refresh_type = found.and_then(|c| c.2.clone());
                ReissuanceInput::Configuration(Ok(found.map(|c| ConfigurationFacts {
                    format: format_kind(c.1),
                    authorization: Authorization { pre_authorized: true, tx_code_constraints: None },
                    refresh_service_type: c.2.clone(),
                })))
            }
            ReissuanceAction::Authorize(_) => panic!("the service asks the policy itself"),
            ReissuanceAction::CreateRefreshCapability { credential_id } => match &store.looked_up_refresh_type {
                Some(_) => {
                    let reference = format!("refresh-reference-{credential_id}");
                    store.refresh_capabilities.push((credential_id, reference.clone()));
                    ReissuanceInput::RefreshCapability(Ok(Some(reference)))
                }
                None => ReissuanceInput::RefreshCapability(Ok(None)),
            },
            ReissuanceAction::CreateCredential {
                credential_id,
                credential_configuration_id,
                raw,
                refresh_service,
                expires_at,
            } => {
                store.created.push((credential_id.clone(), credential_configuration_id, expires_at));
                store.credentials.push((credential_id, raw, refresh_service));
                ReissuanceInput::Command(Ok(()))
            }
            ReissuanceAction::QueryOffer { offer_id } => {
                ReissuanceInput::Offer(Ok(store.offers.iter().any(|o| o.0 == offer_id)))
            }
            ReissuanceAction::CreateOffer { offer_id, grant, .. } => {
                store.offers.push((offer_id, vec![], grant));
                ReissuanceInput::Command(Ok(()))
            }
            ReissuanceAction::AddCredentials { offer_id, credential_ids, .. } => {
                let offer = store.offers.iter_mut().find(|o| o.0 == offer_id).unwrap();
                offer.1.extend(credential_ids);
                ReissuanceInput::Command(Ok(()))
            }
            ReissuanceAction::CreateReissuance(command) => {
                let mut relation = Reissuance::default();
                match relation.handle(command) {
                    Ok(events) => {
                        for e in events {
                            relation.apply(e);
                        }
                        store.relations.push(relation);
                        ReissuanceInput::Command(Ok(()))
                    }
                    Err(e) => ReissuanceInput::Command(Err(e.message())),
                }
            }
            ReissuanceAction::Finish(result) => return result,
        };
        let next = service.advance(process, input);
        process = next.0;
        action = next.1;
    }
}

fn member<'a>(j: &'a Json, key: &str) -> &'a Json {
    match j {
        Json::Object(ms) => &ms.iter().find(|m| m.0 == key).unwrap().1,
        _ => panic!("not an object"),
    }
}

fn credential<'a>(store: &'a Store, id: &str) -> &'a (String, Json, Option<CredentialRefreshService>) {
    store.credentials.iter().find(|c| c.0 == id).unwrap()
}

#[test]
fn create_reissuance_rejects_missing_original_credential() {
    let mut store = test_store();
    let service = ReissuanceService::default();
    let error = run(&service, &mut store, reissuance_request("SD-JWT VC", payload("Reissued"))).unwrap_err();
    assert!(matches!(
        &error,
        ReissuanceServiceError::OriginalCredentialNotFound(credential_id) if credential_id == "original-credential-id"
    ));
    assert_eq!(error.message(), "Original credential `original-credential-id` was not found");
}

#[test]
fn create_reissuance_rejects_non_object_payload() {
    let mut store = test_store();
    create_original_credential(&mut store, "original-credential-id", "SD-JWT VC");
    let service = ReissuanceService::default();
    let error =
        run(&service, &mut store, reissuance_request("SD-JWT VC", Json::Str("not-an-object".to_string()))).unwrap_err();
    assert!(matches!(error, ReissuanceServiceError::InvalidCredentialPayload));
    assert_eq!(store.credentials.len(), 1);
}

#[test]
fn create_reissuance_rejects_non_sd_jwt_configuration() {
    let mut store = test_store();
    create_original_credential(&mut store, "original-credential-id", "001");
    let service = ReissuanceService::default();
    let error = run(&service, &mut store, reissuance_request("001", subject_payload("Reissued"))).unwrap_err();
    assert!(matches!(error, ReissuanceServiceError::UnsupportedCredentialFormat(_)));
    assert_eq!(error.message(), "Credential format is not supported for reissuance: {\"format\":\"jwt_vc_json\"}");
}

#[test]
fn create_reissuance_rejects_unknown_configuration() {
    let mut store = test_store();
    create_original_credential(&mut store, "original-credential-id", "SD-JWT VC");
    let service = ReissuanceService::default();
    let error = run(&service, &mut store, reissuance_request("missing", payload("Reissued"))).unwrap_err();
    assert_eq!(error.message(), "Credential configuration `missing` was not found");
}

#[test]
fn create_reissuance_stops_when_the_policy_refuses() {
    let mut store = test_store();
    create_original_credential(&mut store, "original-credential-id", "SD-JWT VC");
    let service = ReissuanceService::new(Deny);
    let error = run(&service, &mut store, reissuance_request("SD-JWT VC", payload("Reissued"))).unwrap_err();
    assert_eq!(error, ReissuanceServiceError::Policy(ReissuancePolicyError::NotAllowed));
    assert_eq!(store.credentials.len(), 1);
    assert!(store.offers.is_empty());
}

#[test]
fn create_reissuance_prepares_new_credential_offer_and_relation() {
    let mut store = test_store();
    create_original_credential(&mut store, "original-credential-id", "SD-JWT VC");
    let service = ReissuanceService::default();
    let response = run(&service, &mut store, reissuance_request("SD-JWT VC", payload("Reissued"))).unwrap();

    assert_eq!(response.reissuance_id, "reissuance-id");
    assert_eq!(response.original_credential_id, "original-credential-id");
    assert_eq!(response.new_credential_id, "new-credential-id");
    assert_eq!(response.offer_id, "offer-id");
    assert_eq!(response.credential_configuration_id, "SD-JWT VC");

    assert_eq!(member(&credential(&store, "original-credential-id").1, "last_name"), &Json::Str("Rustacean".to_string()));
    assert_eq!(member(&credential(&store, "new-credential-id").1, "last_name"), &Json::Str("Reissued".to_string()));
    assert_eq!(credential(&store, "new-credential-id").2, None);
    let offer = store.offers.iter().find(|o| o.0 == "offer-id").unwrap();
    assert_eq!(offer.1, vec!["new-credential-id".to_string()]);
    assert_eq!(offer.2, OfferGrant::PreAuthorizedCode);
    let reissuance = &store.relations[0];
    assert_eq!(reissuance.original_credential_id, "original-credential-id");
    assert_eq!(reissuance.new_credential_id, "new-credential-id");
    assert_eq!(reissuance.offer_id, "offer-id");
    assert_eq!(reissuance.credential_configuration_id, "SD-JWT VC");
    assert_eq!(reissuance.reason.as_deref(), Some("data_changed"));
    assert_eq!(reissuance.trigger_type.as_deref(), Some("manual"));
    assert_eq!(reissuance.triggered_by.as_deref(), Some("unitrust"));
    assert_eq!(reissuance.status_action, None);
}

#[test]
fn create_reissuance_creates_refresh_capability_for_refreshable_configuration() {
    let mut store = test_store();
    add_refreshable_sd_jwt_credential_configuration(&mut store);
    create_original_credential(&mut store, "original-credential-id", "SD-JWT VC");
    let service = ReissuanceService::default();
    run(&service, &mut store, reissuance_request("SD-JWT VC", payload("Reissued"))).unwrap();

    let refresh_capability = store
        .refresh_capabilities
        .iter()
        .find(|c| c.0 == "new-credential-id")
        .expect("new credential should have a refresh capability");
    assert_eq!(
        credential(&store, "new-credential-id").2,
        Some(CredentialRefreshService {
            type_: "VerifiableCredentialRefreshService2021".to_string(),
            url: "https://my-domain.example.org/credential-refresh".to_string(),
            refresh_token: refresh_capability.1.clone(),
        })
    );
}

#[test]
fn create_reissuance_prepares_vc_sd_jwt_credential_offer_and_relation() {
    let mut store = test_store();
    create_original_credential(&mut store, "original-credential-id", "VCDM SD-JWT VC");
    let service = ReissuanceService::default();
    let response = run(&service, &mut store, reissuance_request("VCDM SD-JWT VC", subject_payload("Reissued"))).unwrap();

    assert_eq!(response.reissuance_id, "reissuance-id");
    assert_eq!(response.original_credential_id, "original-credential-id");
    assert_eq!(response.new_credential_id, "new-credential-id");
    assert_eq!(response.offer_id, "offer-id");
    assert_eq!(response.credential_configuration_id, "VCDM SD-JWT VC");
    assert_eq!(
        member(member(&credential(&store, "original-credential-id").1, "credentialSubject"), "last_name"),
        &Json::Str("Rustacean".to_string())
    );
    assert_eq!(
        member(member(&credential(&store, "new-credential-id").1, "credentialSubject"), "last_name"),
        &Json::Str("Reissued".to_string())
    );
    assert_eq!(store.offers[0].1, vec!["new-credential-id".to_string()]);
    let reissuance = &store.relations[0];
    assert_eq!(reissuance.original_credential_id, "original-credential-id");
    assert_eq!(reissuance.new_credential_id, "new-credential-id");
    assert_eq!(reissuance.offer_id, "offer-id");
    assert_eq!(reissuance.credential_configuration_id, "VCDM SD-JWT VC");
}

#[test]
fn create_reissuance_reuses_an_existing_offer_and_reports_store_failures() {
    let mut store = test_store();
    create_original_credential(&mut store, "original-credential-id", "SD-JWT VC");
    store.offers.push(("offer-id".to_string(), vec!["earlier".to_string()], OfferGrant::AuthorizationCode));
    let service = ReissuanceService::default();
    run(&service, &mut store, reissuance_request("SD-JWT VC", payload("Reissued"))).unwrap();
    assert_eq!(store.offers.len(), 1);
    assert_eq!(store.offers[0].1, vec!["earlier".to_string(), "new-credential-id".to_string()]);

    let (process, _) = service.create(reissuance_request("SD-JWT VC", payload("Reissued")), String::new());
    let (_, action) = service.advance(process, ReissuanceInput::OriginalCredential(Err("store offline".to_string())));
    match action {
        ReissuanceAction::Finish(Err(e)) => assert_eq!(e.message(), "Failed to query state: store offline"),
        other => panic!("unexpected {other:?}"),
    }
}

#[test]
fn offer_grant_follows_holder_authorization() {
    let constraints = TxCodeConstraints { input_mode: Some(InputMode::Numeric), length: Some(4), description: None };
    let pre = Authorization { pre_authorized: true, tx_code_constraints: Some(constraints.clone()) };
    assert_eq!(offer_grant(pre), (OfferGrant::PreAuthorizedCode, Some(constraints.clone())));
    let code = Authorization { pre_authorized: false, tx_code_constraints: Some(constraints) };
    assert_eq!(offer_grant(code), (OfferGrant::AuthorizationCode, None));
}

#[test]
fn all_reissuances_view_lists_relations() {
    let mut all = AllReissuancesView::new();
    let events = Reissuance::default().decide(create_reissuance_command(), "2010-01-01T00:00:00Z".to_string()).unwrap();
    all.update("reissuance-id".to_string(), events[0].clone());
    assert_eq!(all.len(), 1);
    assert_eq!(all.get("reissuance-id").unwrap().created_at.as_deref(), Some("2010-01-01T00:00:00Z"));
}

#[test]
fn create_reissuance_creates_the_credential_with_the_requested_expiry() {
    let mut store = test_store();
    create_original_credential(&mut store, "original-credential-id", "SD-JWT VC");
    let service = ReissuanceService::default();
    let mut request = reissuance_request("SD-JWT VC", payload("Reissued"));
    request.expires_at = CredentialExpiry::At("2030-01-01T00:00:00Z".to_string());
    run(&service, &mut store, request).unwrap();
    assert_eq!(
        store.created,
        vec![(
            "new-credential-id".to_string(),
            "SD-JWT VC".to_string(),
            CredentialExpiry::At("2030-01-01T00:00:00Z".to_string())
        )]
    );
}
