use vstd::prelude::*;
use crate::json::Json;
use crate::server_config::model::{AuthorizationServerMetadata, CredentialIssuerMetadata, SigningAlgorithm};
use crate::template::types::Authorization;

verus! {

/// A request to change the configuration of the server.
#[derive(Debug, PartialEq)]
pub enum ServerConfigCommand {
    InitializeServerMetadata {
        authorization_server_metadata: AuthorizationServerMetadata,
        credential_issuer_metadata: CredentialIssuerMetadata,
        cryptographic_binding_methods_supported: Vec<String>,
        signing_algorithms_supported: Vec<SigningAlgorithm>,
    },
    UpdateIssuerUrl { url: String },
    UpdateIssuerDisplay { display: Option<Vec<Json>> },
    UpdateCryptographicBindingMethods { cryptographic_binding_methods_supported: Vec<String> },
    UpdateSigningAlgorithms { signing_algorithms_supported: Vec<SigningAlgorithm> },
    CreateCredentialConfiguration {
        template_id: String,
        credential_configuration_id: String,
        credential_format_with_parameters: Json,
        display: Vec<Json>,
        claims: Option<Json>,
        authorization: Authorization,
    },
    UpdateCredentialConfigurationId { template_id: String, credential_configuration_id: String },
    UpdateCredentialConfigurationDisplay { template_id: String, display: Json },
    UpdateCredentialConfigurationAuthorization { template_id: String, authorization: Authorization },
    RemoveCredentialConfiguration { template_id: String },
}

/// The name under which a command is authorized.
pub open spec fn server_config_operation_text(c: ServerConfigCommand) -> Seq<char> {
    match c {
        ServerConfigCommand::InitializeServerMetadata { .. } => "issuance.configurations.metadata.initialize"@,
        ServerConfigCommand::UpdateIssuerUrl { .. } => "issuance.configurations.issuer_url.update"@,
        ServerConfigCommand::UpdateIssuerDisplay { .. } => "issuance.configurations.issuer_display.update"@,
        ServerConfigCommand::UpdateCryptographicBindingMethods { .. } => "issuance.configurations.cryptographic_binding_methods.update"@,
        ServerConfigCommand::UpdateSigningAlgorithms { .. } => "issuance.configurations.signing_algorithms.update"@,
        ServerConfigCommand::RemoveCredentialConfiguration { .. } => "issuance.configurations.credentials.remove"@,
        _ => "issuance.configurations.credentials.update"@,
    }
}

impl ServerConfigCommand {
    /// The name under which the command is authorized; every change of a credential
    /// configuration but its removal counts as an update.
    pub fn operation_name(&self) -> (r: &'static str)
        ensures
            r@ == server_config_operation_text(*self),
    {
        match self {
            ServerConfigCommand::InitializeServerMetadata { .. } => "issuance.configurations.metadata.initialize",
            ServerConfigCommand::UpdateIssuerUrl { .. } => "issuance.configurations.issuer_url.update",
            ServerConfigCommand::UpdateIssuerDisplay { .. } => "issuance.configurations.issuer_display.update",
            ServerConfigCommand::UpdateCryptographicBindingMethods { .. } => "issuance.configurations.cryptographic_binding_methods.update",
            ServerConfigCommand::UpdateSigningAlgorithms { .. } => "issuance.configurations.signing_algorithms.update",
            ServerConfigCommand::RemoveCredentialConfiguration { .. } => "issuance.configurations.credentials.remove",
            _ => "issuance.configurations.credentials.update",
        }
    }
}

} // verus!
