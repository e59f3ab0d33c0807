use vstd::prelude::*;

verus! {

/// Why a server configuration command was refused.
#[derive(Debug, Clone, PartialEq, Eq)]
pub enum ServerConfigError {
    UpdateProvisionedCredentialConfigurationError,
    RemoveProvisionedCredentialConfigurationError,
    UnsupportedCredentialFormatIdentifierError(String),
}

/// The message that an error displays.
pub open spec fn server_config_error_message(e: ServerConfigError) -> Seq<char> {
    match e {
        ServerConfigError::UpdateProvisionedCredentialConfigurationError => "Cannot update provisioned credential configuration during runtime"@,
        ServerConfigError::RemoveProvisionedCredentialConfigurationError => "Cannot remove provisioned credential configuration during runtime"@,
        ServerConfigError::UnsupportedCredentialFormatIdentifierError(s) => "Unsupported credential format identifier: `"@ + s@ + "`"@,
    }
}

impl ServerConfigError {
    /// The message that the error displays.
    pub fn message(&self) -> (r: String)
        ensures
            r@ == server_config_error_message(*self),
    {
        match self {
            ServerConfigError::UpdateProvisionedCredentialConfigurationError => String::from_str(
                "Cannot update provisioned credential configuration during runtime",
            ),
            ServerConfigError::RemoveProvisionedCredentialConfigurationError => String::from_str(
                "Cannot remove provisioned credential configuration during runtime",
            ),
            ServerConfigError::UnsupportedCredentialFormatIdentifierError(s) => String::from_str(
                "Unsupported credential format identifier: `",
            ).concat(s.as_str()).concat("`"),
        }
    }
}

} // verus!
