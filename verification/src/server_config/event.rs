use vstd::prelude::*;
use crate::server_config::model::{
    AuthorizationServerMetadata, ConfigurationEntry, CredentialIssuerMetadata, SigningAlgorithm,
};

verus! {

/// What happened to the configuration of the server.
#[derive(Debug, PartialEq)]
pub enum ServerConfigEvent {
    ServerMetadataInitialized {
        authorization_server_metadata: AuthorizationServerMetadata,
        credential_issuer_metadata: CredentialIssuerMetadata,
        cryptographic_binding_methods_supported: Vec<String>,
        signing_algorithms_supported: Vec<SigningAlgorithm>,
    },
    IssuerUrlUpdated {
        authorization_server_metadata: AuthorizationServerMetadata,
        credential_issuer_metadata: CredentialIssuerMetadata,
    },
    IssuerDisplayUpdated { credential_issuer_metadata: CredentialIssuerMetadata },
    CryptographicBindingMethodsUpdated {
        cryptographic_binding_methods_supported: Vec<String>,
        credential_issuer_metadata: CredentialIssuerMetadata,
        credential_configurations: Vec<ConfigurationEntry>,
    },
    SigningAlgorithmsUpdated {
        signing_algorithms_supported: Vec<SigningAlgorithm>,
        credential_issuer_metadata: CredentialIssuerMetadata,
        credential_configurations: Vec<ConfigurationEntry>,
    },
    CredentialConfigurationCreated {
        credential_configuration_id: String,
        credential_issuer_metadata: CredentialIssuerMetadata,
        credential_configurations: Vec<ConfigurationEntry>,
    },
    CredentialConfigurationIdUpdated {
        credential_issuer_metadata: CredentialIssuerMetadata,
        credential_configurations: Vec<ConfigurationEntry>,
    },
    CredentialConfigurationDisplayUpdated {
        credential_issuer_metadata: CredentialIssuerMetadata,
        credential_configurations: Vec<ConfigurationEntry>,
    },
    CredentialConfigurationAuthorizationUpdated {
        credential_issuer_metadata: CredentialIssuerMetadata,
        credential_configurations: Vec<ConfigurationEntry>,
    },
    CredentialConfigurationRemoved {
        credential_issuer_metadata: CredentialIssuerMetadata,
        credential_configurations: Vec<ConfigurationEntry>,
    },
}

/// The name under which an event is stored: its variant's name.
pub open spec fn server_config_event_type_text(e: ServerConfigEvent) -> Seq<char> {
    match e {
        ServerConfigEvent::ServerMetadataInitialized { .. } => "ServerMetadataInitialized"@,
        ServerConfigEvent::IssuerUrlUpdated { .. } => "IssuerUrlUpdated"@,
        ServerConfigEvent::IssuerDisplayUpdated { .. } => "IssuerDisplayUpdated"@,
        ServerConfigEvent::CryptographicBindingMethodsUpdated { .. } => "CryptographicBindingMethodsUpdated"@,
        ServerConfigEvent::SigningAlgorithmsUpdated { .. } => "SigningAlgorithmsUpdated"@,
        ServerConfigEvent::CredentialConfigurationCreated { .. } => "CredentialConfigurationCreated"@,
        ServerConfigEvent::CredentialConfigurationIdUpdated { .. } => "CredentialConfigurationIdUpdated"@,
        ServerConfigEvent::CredentialConfigurationDisplayUpdated { .. } => "CredentialConfigurationDisplayUpdated"@,
        ServerConfigEvent::CredentialConfigurationAuthorizationUpdated { .. } => "CredentialConfigurationAuthorizationUpdated"@,
        ServerConfigEvent::CredentialConfigurationRemoved { .. } => "CredentialConfigurationRemoved"@,
    }
}

impl ServerConfigEvent {
    /// The name under which the event is stored.
    pub fn event_type(&self) -> (r: String)
        ensures
            r@ == server_config_event_type_text(*self),
    {
        let name = match self {
            ServerConfigEvent::ServerMetadataInitialized { .. } => "ServerMetadataInitialized",
            ServerConfigEvent::IssuerUrlUpdated { .. } => "IssuerUrlUpdated",
            ServerConfigEvent::IssuerDisplayUpdated { .. } => "IssuerDisplayUpdated",
            ServerConfigEvent::CryptographicBindingMethodsUpdated { .. } => "CryptographicBindingMethodsUpdated",
            ServerConfigEvent::SigningAlgorithmsUpdated { .. } => "SigningAlgorithmsUpdated",
            ServerConfigEvent::CredentialConfigurationCreated { .. } => "CredentialConfigurationCreated",
            ServerConfigEvent::CredentialConfigurationIdUpdated { .. } => "CredentialConfigurationIdUpdated",
            ServerConfigEvent::CredentialConfigurationDisplayUpdated { .. } => "CredentialConfigurationDisplayUpdated",
            ServerConfigEvent::CredentialConfigurationAuthorizationUpdated { .. } => "CredentialConfigurationAuthorizationUpdated",
            ServerConfigEvent::CredentialConfigurationRemoved { .. } => "CredentialConfigurationRemoved",
        };
        String::from_str(name)
    }

    /// The schema version of the event payload.
    pub fn event_version(&self) -> (r: String)
        ensures
            r@ == "1"@,
    {
        String::from_str("1")
    }
}

} // verus!
