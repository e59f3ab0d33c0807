use vstd::prelude::*;
use crate::json::{copy_json, Json};
use crate::reissuance::command::ReissuanceCommand;
use crate::reissuance::policy::{ReissuancePolicyError, ReissuancePolicyRequest};
use crate::reissuance::service::{
    offer_grant, offer_grant_spec, CreateReissuanceResponse, CredentialFormatKind, OfferGrant, ReissuanceServiceError,
};
use crate::template::types::{Authorization, TxCodeConstraints};
use crate::text::copy_opt_string;

verus! {

/// When a credential expires: never, or at an instant written in RFC 3339.
#[derive(Debug, Clone, PartialEq, Eq)]
pub enum CredentialExpiry {
    Never,
    At(String),
}

fn copy_expiry(e: &CredentialExpiry) -> (r: CredentialExpiry)
    ensures
        r == *e,
{
    match e {
        CredentialExpiry::Never => CredentialExpiry::Never,
        CredentialExpiry::At(t) => CredentialExpiry::At(t.clone()),
    }
}

/// A request to reissue a credential under a new identifier.
#[derive(Debug, PartialEq)]
pub struct CreateReissuanceRequest {
    pub reissuance_id: String,
    pub original_credential_id: String,
    pub new_credential_id: String,
    pub offer_id: String,
    pub credential_configuration_id: String,
    /// The payload of the new credential.
    pub credential: Json,
    /// When the new credential expires.
    pub expires_at: CredentialExpiry,
    pub reason: Option<String>,
    pub trigger_type: Option<String>,
    pub triggered_by: Option<String>,
    pub status_action: Option<String>,
}

/// What a reissuance reads of the credential configuration it issues under.
#[derive(Debug, PartialEq)]
pub struct ConfigurationFacts {
    pub format: CredentialFormatKind,
    pub authorization: Authorization,
    /// The type of the configuration's refresh service, where it has one.
    pub refresh_service_type: Option<String>,
}

/// The refresh service written into a reissued credential.
#[derive(Debug, Clone, PartialEq, Eq)]
pub struct CredentialRefreshService {
    pub type_: String,
    pub url: String,
    pub refresh_token: String,
}

/// How far a reissuance has come: each stage waits for the answer to one request.
#[derive(Debug, PartialEq)]
pub enum ReissuanceStage {
    LookingUpOriginal,
    LookingUpConfiguration { original: String },
    Authorizing { original: String, authorization: Authorization, refresh_service_type: Option<String> },
    CreatingRefreshCapability { original: String, authorization: Authorization, refresh_service_type: Option<String> },
    CreatingCredential { original: String, authorization: Authorization },
    LookingUpOffer { original: String, authorization: Authorization },
    CreatingOffer { original: String },
    AddingCredentials { original: String },
    CreatingReissuance,
    Finished,
}

/// A reissuance under way: the request, the URL of the credential refresh endpoint, and
/// the stage reached.
#[derive(Debug, PartialEq)]
pub struct ReissuanceProcess {
    pub request: CreateReissuanceRequest,
    pub refresh_url: String,
    pub stage: ReissuanceStage,
}

/// The answer to the request that a stage waits for. Lookups answer `Err` with the store's
/// message when they fail; the original credential answers with its identifier.
#[derive(Debug, PartialEq)]
pub enum ReissuanceInput {
    OriginalCredential(Result<Option<String>, String>),
    Configuration(Result<Option<ConfigurationFacts>, String>),
    PolicyAnswer(Result<(), ReissuancePolicyError>),
    /// The reference of the refresh capability created for the new credential, if any.
    RefreshCapability(Result<Option<String>, String>),
    /// Whether the offer exists already.
    Offer(Result<bool, String>),
    Command(Result<(), String>),
}

/// What a reissuance asks for next, or how it ended.
#[derive(Debug, PartialEq)]
pub enum ReissuanceAction {
    QueryCredential { credential_id: String },
    QueryCredentialConfiguration { credential_configuration_id: String },
    Authorize(ReissuancePolicyRequest),
    CreateRefreshCapability { credential_id: String },
    /// Creates the unsigned credential under the configuration `credential_configuration_id`.
    CreateCredential {
        credential_id: String,
        credential_configuration_id: String,
        raw: Json,
        refresh_service: Option<CredentialRefreshService>,
        expires_at: CredentialExpiry,
    },
    QueryOffer { offer_id: String },
    CreateOffer {
        offer_id: String,
        credential_configuration_ids: Vec<String>,
        grant: OfferGrant,
        tx_code_constraints: Option<TxCodeConstraints>,
    },
    AddCredentials { offer_id: String, credential_ids: Vec<String>, credential_configuration_ids: Vec<String> },
    CreateReissuance(ReissuanceCommand),
    Finish(Result<CreateReissuanceResponse, ReissuanceServiceError>),
}

/// Whether the stage of `p` waits for an answer of the kind of `i`.
pub open spec fn expects(p: ReissuanceProcess, i: ReissuanceInput) -> bool {
    match p.stage {
        ReissuanceStage::LookingUpOriginal => i is OriginalCredential,
        ReissuanceStage::LookingUpConfiguration { .. } => i is Configuration,
        ReissuanceStage::Authorizing { .. } => i is PolicyAnswer,
        ReissuanceStage::CreatingRefreshCapability { .. } => i is RefreshCapability,
        ReissuanceStage::CreatingCredential { .. } => i is Command,
        ReissuanceStage::LookingUpOffer { .. } => i is Offer,
        ReissuanceStage::CreatingOffer { .. } => i is Command,
        ReissuanceStage::AddingCredentials { .. } => i is Command,
        ReissuanceStage::CreatingReissuance => i is Command,
        ReissuanceStage::Finished => false,
    }
}

/// `q` keeps the request and refresh URL of `p` and is at `stage`.
pub open spec fn moves_to(p: ReissuanceProcess, q: ReissuanceProcess, stage: ReissuanceStage) -> bool {
    q.request == p.request && q.refresh_url == p.refresh_url && q.stage == stage
}

/// The reissuance ends, failing with `e`.
pub open spec fn fails_with(
    p: ReissuanceProcess,
    q: ReissuanceProcess,
    a: ReissuanceAction,
    e: ReissuanceServiceError,
) -> bool {
    moves_to(p, q, ReissuanceStage::Finished) && a == ReissuanceAction::Finish(Err(e))
}

/// What the policy is asked about a request.
pub open spec fn policy_request(r: CreateReissuanceRequest) -> ReissuancePolicyRequest {
    ReissuancePolicyRequest {
        original_credential_id: r.original_credential_id,
        credential_configuration_id: r.credential_configuration_id,
        triggered_by: r.triggered_by,
        trigger_type: r.trigger_type,
    }
}

/// The refresh service of the new credential: present when the configuration has a refresh
/// service and a refresh capability was created, pointing at `url`.
pub open spec fn refresh_service_for(
    refresh_service_type: Option<String>,
    reference: Option<String>,
    url: String,
) -> Option<CredentialRefreshService> {
    match (refresh_service_type, reference) {
        (Some(t), Some(r)) => Some(CredentialRefreshService { type_: t, url, refresh_token: r }),
        _ => None,
    }
}

/// `a` adds the new credential to the request's offer.
pub open spec fn adds_credentials(r: CreateReissuanceRequest, a: ReissuanceAction) -> bool {
    &&& a matches ReissuanceAction::AddCredentials { offer_id, credential_ids, credential_configuration_ids }
    &&& offer_id == r.offer_id
    &&& credential_ids@ == seq![r.new_credential_id]
    &&& credential_configuration_ids@ == seq![r.credential_configuration_id]
}

/// The command that records the reissuance relation; `original` is the identifier the
/// original credential answered with.
pub open spec fn relation_command(r: CreateReissuanceRequest, original: String) -> ReissuanceCommand {
    ReissuanceCommand::CreateReissuance {
        reissuance_id: r.reissuance_id,
        original_credential_id: original,
        new_credential_id: r.new_credential_id,
        offer_id: r.offer_id,
        credential_configuration_id: r.credential_configuration_id,
        reason: r.reason,
        trigger_type: r.trigger_type,
        triggered_by: r.triggered_by,
        status_action: r.status_action,
    }
}

/// What a reissuance answers once everything was done.
pub open spec fn response_for(r: CreateReissuanceRequest) -> CreateReissuanceResponse {
    CreateReissuanceResponse {
        reissuance_id: r.reissuance_id,
        original_credential_id: r.original_credential_id,
        new_credential_id: r.new_credential_id,
        offer_id: r.offer_id,
        credential_configuration_id: r.credential_configuration_id,
    }
}

/// One step of a reissuance: process `p` given answer `i` becomes `q` and asks for `a`.
/// The original credential is looked up, then the credential configuration, which must be
/// of an SD-JWT format while the payload must be a JSON object; the policy is asked; a
/// refresh capability is created; then the new credential; the offer is created when it does
/// not exist yet; the new credential is added to it; the relation is recorded. A failed
/// lookup, refusal or command ends the reissuance with the matching error.
pub open spec fn reissuance_next(
    p: ReissuanceProcess,
    i: ReissuanceInput,
    q: ReissuanceProcess,
    a: ReissuanceAction,
) -> bool {
    let r = p.request;
    match p.stage {
        ReissuanceStage::LookingUpOriginal => match i {
            ReissuanceInput::OriginalCredential(Err(m)) => fails_with(p, q, a, ReissuanceServiceError::Query(m)),
            ReissuanceInput::OriginalCredential(Ok(None)) => fails_with(
                p,
                q,
                a,
                ReissuanceServiceError::OriginalCredentialNotFound(r.original_credential_id),
            ),
            ReissuanceInput::OriginalCredential(Ok(Some(found))) => moves_to(
                p,
                q,
                ReissuanceStage::LookingUpConfiguration { original: found },
            ) && a == (ReissuanceAction::QueryCredentialConfiguration {
                credential_configuration_id: r.credential_configuration_id,
            }),
            _ => false,
        },
        ReissuanceStage::LookingUpConfiguration { original } => match i {
            ReissuanceInput::Configuration(Err(m)) => fails_with(p, q, a, ReissuanceServiceError::Query(m)),
            ReissuanceInput::Configuration(Ok(None)) => fails_with(
                p,
                q,
                a,
                ReissuanceServiceError::CredentialConfigurationNotFound(r.credential_configuration_id),
            ),
            ReissuanceInput::Configuration(Ok(Some(facts))) => match facts.format {
                CredentialFormatKind::Other(j) => fails_with(
                    p,
                    q,
                    a,
                    ReissuanceServiceError::UnsupportedCredentialFormat(j),
                ),
                _ => if !(r.credential@ is Object) {
                    fails_with(p, q, a, ReissuanceServiceError::InvalidCredentialPayload)
                } else {
                    moves_to(
                        p,
                        q,
                        ReissuanceStage::Authorizing {
                            original,
                            authorization: facts.authorization,
                            refresh_service_type: facts.refresh_service_type,
                        },
                    ) && a == ReissuanceAction::Authorize(policy_request(r))
                },
            },
            _ => false,
        },
        ReissuanceStage::Authorizing { original, authorization, refresh_service_type } => match i {
            ReissuanceInput::PolicyAnswer(Err(e)) => fails_with(p, q, a, ReissuanceServiceError::Policy(e)),
            ReissuanceInput::PolicyAnswer(Ok(())) => moves_to(
                p,
                q,
                ReissuanceStage::CreatingRefreshCapability { original, authorization, refresh_service_type },
            ) && a == (ReissuanceAction::CreateRefreshCapability { credential_id: r.new_credential_id }),
            _ => false,
        },
        ReissuanceStage::CreatingRefreshCapability { original, authorization, refresh_service_type } => match i {
            ReissuanceInput::RefreshCapability(Err(m)) => fails_with(
                p,
                q,
                a,
                ReissuanceServiceError::RefreshCapability(m),
            ),
            ReissuanceInput::RefreshCapability(Ok(reference)) => {
                &&& moves_to(p, q, ReissuanceStage::CreatingCredential { original, authorization })
                &&& a matches ReissuanceAction::CreateCredential {
                    credential_id,
                    credential_configuration_id,
                    raw,
                    refresh_service,
                    expires_at,
                }
                &&& credential_id == r.new_credential_id
                &&& credential_configuration_id == r.credential_configuration_id
                &&& expires_at == r.expires_at
                &&& raw@ == r.credential@
                &&& refresh_service == refresh_service_for(refresh_service_type, reference, p.refresh_url)
            },
            _ => false,
        },
        ReissuanceStage::CreatingCredential { original, authorization } => match i {
            ReissuanceInput::Command(Err(m)) => fails_with(p, q, a, ReissuanceServiceError::Command(m)),
            ReissuanceInput::Command(Ok(())) => moves_to(
                p,
                q,
                ReissuanceStage::LookingUpOffer { original, authorization },
            ) && a == (ReissuanceAction::QueryOffer { offer_id: r.offer_id }),
            _ => false,
        },
        ReissuanceStage::LookingUpOffer { original, authorization } => match i {
            ReissuanceInput::Offer(Err(m)) => fails_with(p, q, a, ReissuanceServiceError::Query(m)),
            ReissuanceInput::Offer(Ok(true)) => moves_to(p, q, ReissuanceStage::AddingCredentials { original })
                && adds_credentials(r, a),
            ReissuanceInput::Offer(Ok(false)) => {
                &&& moves_to(p, q, ReissuanceStage::CreatingOffer { original })
                &&& a matches ReissuanceAction::CreateOffer {
                    offer_id,
                    credential_configuration_ids,
                    grant,
                    tx_code_constraints,
                }
                &&& offer_id == r.offer_id
                &&& credential_configuration_ids@ == seq![r.credential_configuration_id]
                &&& (grant, tx_code_constraints) == offer_grant_spec(authorization)
            },
            _ => false,
        },
        ReissuanceStage::CreatingOffer { original } => match i {
            ReissuanceInput::Command(Err(m)) => fails_with(p, q, a, ReissuanceServiceError::Command(m)),
            ReissuanceInput::Command(Ok(())) => moves_to(p, q, ReissuanceStage::AddingCredentials { original })
                && adds_credentials(r, a),
            _ => false,
        },
        ReissuanceStage::AddingCredentials { original } => match i {
            ReissuanceInput::Command(Err(m)) => fails_with(p, q, a, ReissuanceServiceError::Command(m)),
            ReissuanceInput::Command(Ok(())) => moves_to(p, q, ReissuanceStage::CreatingReissuance) && a
                == ReissuanceAction::CreateReissuance(relation_command(r, original)),
            _ => false,
        },
        ReissuanceStage::CreatingReissuance => match i {
            ReissuanceInput::Command(Err(m)) => fails_with(p, q, a, ReissuanceServiceError::Command(m)),
            ReissuanceInput::Command(Ok(())) => moves_to(p, q, ReissuanceStage::Finished) && a
                == ReissuanceAction::Finish(Ok(response_for(r))),
            _ => false,
        },
        ReissuanceStage::Finished => false,
    }
}

/// What a reissuance asks of the stores follows its request: the offer it creates is the
/// request's offer and lists exactly the request's credential configuration; the
/// credentials it adds to the offer are exactly the new credential, under that
/// configuration; the credential it creates is the new one, under that configuration and
/// with the requested expiry; and a successful end answers with the request's identifiers.
pub proof fn lemma_actions_follow_request(
    p: ReissuanceProcess,
    i: ReissuanceInput,
    q: ReissuanceProcess,
    a: ReissuanceAction,
)
    requires
        reissuance_next(p, i, q, a),
    ensures
        a matches ReissuanceAction::CreateOffer { offer_id, credential_configuration_ids, .. } ==> {
            &&& offer_id == p.request.offer_id
            &&& credential_configuration_ids@.len() == 1
            &&& credential_configuration_ids@[0] == p.request.credential_configuration_id
        },
        a matches ReissuanceAction::AddCredentials { offer_id, credential_ids, credential_configuration_ids } ==> {
            &&& offer_id == p.request.offer_id
            &&& credential_ids@.len() == 1
            &&& credential_ids@[0] == p.request.new_credential_id
            &&& credential_configuration_ids@.len() == 1
            &&& credential_configuration_ids@[0] == p.request.credential_configuration_id
        },
        a matches ReissuanceAction::CreateCredential { credential_id, credential_configuration_id, raw, expires_at, .. } ==> {
            &&& credential_id == p.request.new_credential_id
            &&& credential_configuration_id == p.request.credential_configuration_id
            &&& raw@ == p.request.credential@
            &&& expires_at == p.request.expires_at
        },
        a matches ReissuanceAction::Finish(Ok(response)) ==> {
            &&& response.reissuance_id == p.request.reissuance_id
            &&& response.original_credential_id == p.request.original_credential_id
            &&& response.new_credential_id == p.request.new_credential_id
            &&& response.offer_id == p.request.offer_id
            &&& response.credential_configuration_id == p.request.credential_configuration_id
        },
        q.request == p.request,
{
}

/// How many answers a stage may still wait for at most.
pub open spec fn stages_left(s: ReissuanceStage) -> nat {
    match s {
        ReissuanceStage::LookingUpOriginal => 9,
        ReissuanceStage::LookingUpConfiguration { .. } => 8,
        ReissuanceStage::Authorizing { .. } => 7,
        ReissuanceStage::CreatingRefreshCapability { .. } => 6,
        ReissuanceStage::CreatingCredential { .. } => 5,
        ReissuanceStage::LookingUpOffer { .. } => 4,
        ReissuanceStage::CreatingOffer { .. } => 3,
        ReissuanceStage::AddingCredentials { .. } => 2,
        ReissuanceStage::CreatingReissuance => 1,
        ReissuanceStage::Finished => 0,
    }
}

fn new_list(s: String) -> (r: Vec<String>)
    ensures
        r@ == seq![s],
{
    let mut v: Vec<String> = Vec::new();
    v.push(s);
    v
}

fn fail(request: CreateReissuanceRequest, refresh_url: String, e: ReissuanceServiceError) -> (r: (
    ReissuanceProcess,
    ReissuanceAction,
))
    ensures
        r.0 == (ReissuanceProcess { request, refresh_url, stage: ReissuanceStage::Finished }),
        r.1 == ReissuanceAction::Finish(Err(e)),
{
    (ReissuanceProcess { request, refresh_url, stage: ReissuanceStage::Finished }, ReissuanceAction::Finish(Err(e)))
}

fn add_credentials_action(r: &CreateReissuanceRequest) -> (a: ReissuanceAction)
    ensures
        adds_credentials(*r, a),
{
    ReissuanceAction::AddCredentials {
        offer_id: r.offer_id.clone(),
        credential_ids: new_list(r.new_credential_id.clone()),
        credential_configuration_ids: new_list(r.credential_configuration_id.clone()),
    }
}

impl ReissuanceProcess {
    /// A reissuance of `request` that has not started; `refresh_url` is the URL of the
    /// credential refresh endpoint. It first asks for the original credential.
    pub fn start(request: CreateReissuanceRequest, refresh_url: String) -> (r: (ReissuanceProcess, ReissuanceAction))
        ensures
            r.0 == (ReissuanceProcess { request, refresh_url, stage: ReissuanceStage::LookingUpOriginal }),
            r.1 == (ReissuanceAction::QueryCredential { credential_id: request.original_credential_id }),
    {
        let credential_id = request.original_credential_id.clone();
        (
            ReissuanceProcess { request, refresh_url, stage: ReissuanceStage::LookingUpOriginal },
            ReissuanceAction::QueryCredential { credential_id },
        )
    }

    /// Hands the answer `input` to the reissuance, which moves on and asks for what comes next.
    pub fn step(self, input: ReissuanceInput) -> (r: (ReissuanceProcess, ReissuanceAction))
        requires
            expects(self, input),
        ensures
            reissuance_next(self, input, r.0, r.1),
            stages_left(r.0.stage) < stages_left(self.stage),
    {
        let ReissuanceProcess { request, refresh_url, stage } = self;
        match (stage, input) {
            (ReissuanceStage::LookingUpOriginal, ReissuanceInput::OriginalCredential(Err(m)))
            | (ReissuanceStage::LookingUpConfiguration { .. }, ReissuanceInput::Configuration(Err(m)))
            | (ReissuanceStage::LookingUpOffer { .. }, ReissuanceInput::Offer(Err(m))) => fail(
                request,
                refresh_url,
                ReissuanceServiceError::Query(m),
            ),
            (ReissuanceStage::LookingUpOriginal, ReissuanceInput::OriginalCredential(Ok(None))) => {
                let id = request.original_credential_id.clone();
                fail(request, refresh_url, ReissuanceServiceError::OriginalCredentialNotFound(id))
            },
            (ReissuanceStage::LookingUpOriginal, ReissuanceInput::OriginalCredential(Ok(Some(found)))) => {
                let credential_configuration_id = request.credential_configuration_id.clone();
                (
                    ReissuanceProcess {
                        request,
                        refresh_url,
                        stage: ReissuanceStage::LookingUpConfiguration { original: found },
                    },
                    ReissuanceAction::QueryCredentialConfiguration { credential_configuration_id },
                )
            },
            (ReissuanceStage::LookingUpConfiguration { .. }, ReissuanceInput::Configuration(Ok(None))) => {
                let id = request.credential_configuration_id.clone();
                fail(request, refresh_url, ReissuanceServiceError::CredentialConfigurationNotFound(id))
            },
            (
                ReissuanceStage::LookingUpConfiguration { original },
                ReissuanceInput::Configuration(Ok(Some(facts))),
            ) => {
                let ConfigurationFacts { format, authorization, refresh_service_type } = facts;
                if let CredentialFormatKind::Other(j) = format {
                    return fail(request, refresh_url, ReissuanceServiceError::UnsupportedCredentialFormat(j));
                }
                let is_object = match &request.credential {
                    Json::Object(_) => true,
                    _ => false,
                };
                if !is_object {
                    return fail(request, refresh_url, ReissuanceServiceError::InvalidCredentialPayload);
                }
                let asked = ReissuancePolicyRequest {
                    original_credential_id: request.original_credential_id.clone(),
                    credential_configuration_id: request.credential_configuration_id.clone(),
                    triggered_by: copy_opt_string(&request.triggered_by),
                    trigger_type: copy_opt_string(&request.trigger_type),
                };
                (
                    ReissuanceProcess {
                        request,
                        refresh_url,
                        stage: ReissuanceStage::Authorizing { original, authorization, refresh_service_type },
                    },
                    ReissuanceAction::Authorize(asked),
                )
            },
            (ReissuanceStage::Authorizing { .. }, ReissuanceInput::PolicyAnswer(Err(e))) => fail(
                request,
                refresh_url,
                ReissuanceServiceError::Policy(e),
            ),
            (
                ReissuanceStage::Authorizing { original, authorization, refresh_service_type },
                ReissuanceInput::PolicyAnswer(Ok(())),
            ) => {
                let credential_id = request.new_credential_id.clone();
                (
                    ReissuanceProcess {
                        request,
                        refresh_url,
                        stage: ReissuanceStage::CreatingRefreshCapability { original, authorization, refresh_service_type },
                    },
                    ReissuanceAction::CreateRefreshCapability { credential_id },
                )
            },
            (ReissuanceStage::CreatingRefreshCapability { .. }, ReissuanceInput::RefreshCapability(Err(m))) => fail(
                request,
                refresh_url,
                ReissuanceServiceError::RefreshCapability(m),
            ),
            (
                ReissuanceStage::CreatingRefreshCapability { original, authorization, refresh_service_type },
                ReissuanceInput::RefreshCapability(Ok(reference)),
            ) => {
                let refresh_service = match (refresh_service_type, reference) {
                    (Some(t), Some(token)) => Some(
                        CredentialRefreshService { type_: t, url: refresh_url.clone(), refresh_token: token },
                    ),
                    _ => None,
                };
                let credential_id = request.new_credential_id.clone();
                let credential_configuration_id = request.credential_configuration_id.clone();
                let raw = copy_json(&request.credential);
                let expires_at = copy_expiry(&request.expires_at);
                (
                    ReissuanceProcess {
                        request,
                        refresh_url,
                        stage: ReissuanceStage::CreatingCredential { original, authorization },
                    },
                    ReissuanceAction::CreateCredential {
                        credential_id,
                        credential_configuration_id,
                        raw,
                        refresh_service,
                        expires_at,
                    },
                )
            },
            (ReissuanceStage::CreatingCredential { .. }, ReissuanceInput::Command(Err(m)))
            | (ReissuanceStage::CreatingOffer { .. }, ReissuanceInput::Command(Err(m)))
            | (ReissuanceStage::AddingCredentials { .. }, ReissuanceInput::Command(Err(m)))
            | (ReissuanceStage::CreatingReissuance, ReissuanceInput::Command(Err(m))) => fail(
                request,
                refresh_url,
                ReissuanceServiceError::Command(m),
            ),
            (ReissuanceStage::CreatingCredential { original, authorization }, ReissuanceInput::Command(Ok(()))) => {
                let offer_id = request.offer_id.clone();
                (
                    ReissuanceProcess {
                        request,
                        refresh_url,
                        stage: ReissuanceStage::LookingUpOffer { original, authorization },
                    },
                    ReissuanceAction::QueryOffer { offer_id },
                )
            },
            (ReissuanceStage::LookingUpOffer { original, .. }, ReissuanceInput::Offer(Ok(true)))
            | (ReissuanceStage::CreatingOffer { original }, ReissuanceInput::Command(Ok(()))) => {
                let a = add_credentials_action(&request);
                (ReissuanceProcess { request, refresh_url, stage: ReissuanceStage::AddingCredentials { original } }, a)
            },
            (ReissuanceStage::LookingUpOffer { original, authorization }, ReissuanceInput::Offer(Ok(false))) => {
                let (grant, tx_code_constraints) = offer_grant(authorization);
                let a = ReissuanceAction::CreateOffer {
                    offer_id: request.offer_id.clone(),
                    credential_configuration_ids: new_list(request.credential_configuration_id.clone()),
                    grant,
                    tx_code_constraints,
                };
                (ReissuanceProcess { request, refresh_url, stage: ReissuanceStage::CreatingOffer { original } }, a)
            },
            (ReissuanceStage::AddingCredentials { original }, ReissuanceInput::Command(Ok(()))) => {
                let command = ReissuanceCommand::CreateReissuance {
                    reissuance_id: request.reissuance_id.clone(),
                    original_credential_id: original,
                    new_credential_id: request.new_credential_id.clone(),
                    offer_id: request.offer_id.clone(),
                    credential_configuration_id: request.credential_configuration_id.clone(),
                    reason: copy_opt_string(&request.reason),
                    trigger_type: copy_opt_string(&request.trigger_type),
                    triggered_by: copy_opt_string(&request.triggered_by),
                    status_action: copy_opt_string(&request.status_action),
                };
                (
                    ReissuanceProcess { request, refresh_url, stage: ReissuanceStage::CreatingReissuance },
                    ReissuanceAction::CreateReissuance(command),
                )
            },
            (ReissuanceStage::CreatingReissuance, ReissuanceInput::Command(Ok(()))) => {
                let response = CreateReissuanceResponse {
                    reissuance_id: request.reissuance_id.clone(),
                    original_credential_id: request.original_credential_id.clone(),
                    new_credential_id: request.new_credential_id.clone(),
                    offer_id: request.offer_id.clone(),
                    credential_configuration_id: request.credential_configuration_id.clone(),
                };
                (
                    ReissuanceProcess { request, refresh_url, stage: ReissuanceStage::Finished },
                    ReissuanceAction::Finish(Ok(response)),
                )
            },
            _ => {
                // `expects` rules out every other pairing of stage and answer.
                assert(false);
                fail(request, refresh_url, ReissuanceServiceError::InvalidCredentialPayload)
            },
        }
    }
}

} // verus!
