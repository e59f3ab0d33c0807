use vstd::prelude::*;
use crate::json::{json_text, to_text, Json};
use crate::reissuance::policy::{NoOpReissuancePolicy, ReissuancePolicy, ReissuancePolicyError, ReissuancePolicyRequest};
use crate::reissuance::process::{
    expects, reissuance_next, CreateReissuanceRequest, ReissuanceAction, ReissuanceInput, ReissuanceProcess,
    ReissuanceStage,
};
use crate::template::types::{Authorization, TxCodeConstraints};

verus! {

/// The format of a credential configuration, as far as reissuance tells formats apart;
/// another format carries its JSON form.
#[derive(Debug, PartialEq)]
pub enum CredentialFormatKind {
    DcSdJwt,
    VcSdJwt,
    Other(Json),
}

/// Why a reissuance could not be prepared.
#[derive(Debug, PartialEq)]
pub enum ReissuanceServiceError {
    OriginalCredentialNotFound(String),
    CredentialConfigurationNotFound(String),
    InvalidCredentialPayload,
    UnsupportedCredentialFormat(Json),
    Policy(ReissuancePolicyError),
    Query(String),
    Command(String),
    RefreshCapability(String),
}

/// The message that an error displays.
pub open spec fn service_error_message(e: ReissuanceServiceError) -> Seq<char> {
    match e {
        ReissuanceServiceError::OriginalCredentialNotFound(s) => "Original credential `"@ + s@ + "` was not found"@,
        ReissuanceServiceError::CredentialConfigurationNotFound(s) => "Credential configuration `"@ + s@
            + "` was not found"@,
        ReissuanceServiceError::InvalidCredentialPayload => "Credential payload must be a JSON object"@,
        ReissuanceServiceError::UnsupportedCredentialFormat(j) => "Credential format is not supported for reissuance: "@
            + json_text(j@),
        ReissuanceServiceError::Policy(_) => "Reissuance is not allowed"@,
        ReissuanceServiceError::Query(s) => "Failed to query state: "@ + s@,
        ReissuanceServiceError::Command(s) => "Failed to execute command: "@ + s@,
        ReissuanceServiceError::RefreshCapability(s) => s@,
    }
}

impl ReissuanceServiceError {
    /// The message that the error displays.
    pub fn message(&self) -> (r: String)
        ensures
            r@ == service_error_message(*self),
    {
        match self {
            ReissuanceServiceError::OriginalCredentialNotFound(s) => String::from_str("Original credential `").concat(
                s.as_str(),
            ).concat("` was not found"),
            ReissuanceServiceError::CredentialConfigurationNotFound(s) => String::from_str(
                "Credential configuration `",
            ).concat(s.as_str()).concat("` was not found"),
            ReissuanceServiceError::InvalidCredentialPayload => String::from_str("Credential payload must be a JSON object"),
            ReissuanceServiceError::UnsupportedCredentialFormat(j) => String::from_str(
                "Credential format is not supported for reissuance: ",
            ).concat(to_text(j).as_str()),
            ReissuanceServiceError::Policy(e) => e.message(),
            ReissuanceServiceError::Query(s) => String::from_str("Failed to query state: ").concat(s.as_str()),
            ReissuanceServiceError::Command(s) => String::from_str("Failed to execute command: ").concat(s.as_str()),
            ReissuanceServiceError::RefreshCapability(s) => s.clone(),
        }
    }
}

/// What a prepared reissuance answers.
#[derive(Debug, Clone, PartialEq, Eq)]
pub struct CreateReissuanceResponse {
    pub reissuance_id: String,
    pub original_credential_id: String,
    pub new_credential_id: String,
    pub offer_id: String,
    pub credential_configuration_id: String,
}

/// How the holder redeems the offer of a reissued credential.
#[derive(Debug, Clone, Copy, PartialEq, Eq, Structural)]
pub enum OfferGrant {
    PreAuthorizedCode,
    AuthorizationCode,
}

/// How the offer of a reissued credential is granted, as a function of the holder authorization.
pub open spec fn offer_grant_spec(authorization: Authorization) -> (OfferGrant, Option<TxCodeConstraints>) {
    if authorization.pre_authorized {
        (OfferGrant::PreAuthorizedCode, authorization.tx_code_constraints)
    } else {
        (OfferGrant::AuthorizationCode, None)
    }
}

/// How the offer of a reissued credential is granted: by pre-authorized code with the
/// holder authorization's transaction code constraints, or else by authorization code
/// without any.
pub fn offer_grant(authorization: Authorization) -> (r: (OfferGrant, Option<TxCodeConstraints>))
    ensures
        r == offer_grant_spec(authorization),
{
    if authorization.pre_authorized {
        (OfferGrant::PreAuthorizedCode, authorization.tx_code_constraints)
    } else {
        (OfferGrant::AuthorizationCode, None)
    }
}

/// What a policy's answer means for a reissuance: a refusal is reported as such.
pub open spec fn policy_outcome(answer: Result<(), ReissuancePolicyError>) -> Result<(), ReissuanceServiceError> {
    match answer {
        Ok(()) => Ok(()),
        Err(e) => Err(ReissuanceServiceError::Policy(e)),
    }
}

/// Processes reissuance requests, asking a policy before each.
pub struct ReissuanceService<P> {
    policy: P,
}

impl<P: ReissuancePolicy> ReissuanceService<P> {
    /// The policy the service asks.
    pub closed spec fn policy_spec(self) -> P {
        self.policy
    }

    /// A service that asks `policy`.
    pub fn new(policy: P) -> (r: Self)
        ensures
            r.policy_spec() == policy,
    {
        ReissuanceService { policy }
    }

    /// Starts reissuing a credential as `request` asks; `refresh_url` is the URL of the
    /// credential refresh endpoint. The caller performs each action and hands its answer to
    /// `advance`, until the action is `Finish`.
    pub fn create(&self, request: CreateReissuanceRequest, refresh_url: String) -> (r: (
        ReissuanceProcess,
        ReissuanceAction,
    ))
        ensures
            r.0 == (ReissuanceProcess { request, refresh_url, stage: ReissuanceStage::LookingUpOriginal }),
            r.1 == (ReissuanceAction::QueryCredential { credential_id: request.original_credential_id }),
    {
        ReissuanceProcess::start(request, refresh_url)
    }

    /// Hands the answer `input` to reissuance `process`. Where the reissuance then needs the
    /// policy's consent, the policy is asked at once about the request the process built and
    /// its own answer is handed on, so the action returned is never `Authorize`.
    pub fn advance(&self, process: ReissuanceProcess, input: ReissuanceInput) -> (r: (
        ReissuanceProcess,
        ReissuanceAction,
    ))
        requires
            expects(process, input),
        ensures
            !(r.1 is Authorize),
            (exists|q: ReissuanceProcess, asked: ReissuancePolicyRequest, answer: Result<(), ReissuancePolicyError>|
                #![trigger reissuance_next(process, input, q, ReissuanceAction::Authorize(asked)), reissuance_next(q, ReissuanceInput::PolicyAnswer(answer), r.0, r.1)]
                reissuance_next(process, input, q, ReissuanceAction::Authorize(asked))
                    && call_ensures(P::authorize, (&self.policy_spec(), &asked), answer) && reissuance_next(
                    q,
                    ReissuanceInput::PolicyAnswer(answer),
                    r.0,
                    r.1,
                )) || reissuance_next(process, input, r.0, r.1),
    {
        let (q, a) = process.step(input);
        match a {
            ReissuanceAction::Authorize(asked) => {
                let answer = self.policy.authorize(&asked);
                let ghost q0 = q;
                let r = q.step(ReissuanceInput::PolicyAnswer(answer));
                assert(reissuance_next(q0, ReissuanceInput::PolicyAnswer(answer), r.0, r.1));
                r
            },
            other => (q, other),
        }
    }

    /// Asks the policy whether `request` may be reissued: the answer is the policy's, with a
    /// refusal reported as such.
    pub fn authorize(&self, request: &ReissuancePolicyRequest) -> (r: Result<(), ReissuanceServiceError>)
        ensures
            exists|answer: Result<(), ReissuancePolicyError>|
                #[trigger] call_ensures(P::authorize, (&self.policy_spec(), request), answer) && r == policy_outcome(answer),
    {
        match self.policy.authorize(request) {
            Ok(()) => Ok(()),
            Err(e) => Err(ReissuanceServiceError::Policy(e)),
        }
    }
}

impl Default for ReissuanceService<NoOpReissuancePolicy> {
    fn default() -> (r: Self)
        ensures
            r.policy_spec() == NoOpReissuancePolicy,
    {
        ReissuanceService::new(NoOpReissuancePolicy)
    }
}

} // verus!
