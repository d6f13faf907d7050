//! The handoff protocol, seen from the service: who may ask, what is listed,
//! what a confirmation does, and which status answers each case.

use vstd::prelude::*;

use crate::config::DaemonConfig;
use crate::storage::{
    artifact_path, finalize_verdict, finalized, lists_ready_artifacts, removal_result,
    FinalizeArtifactError, FinalizeVerdict, StorageManager,
};
use crate::task::{artifact_views, ArtifactInfo};

verus! {

/// Why a request of the handoff protocol is refused.
#[derive(Debug)]
pub enum ApiError {
    /// The credential is missing or wrong.
    Unauthorized,
    /// No artifact waits under this hash.
    NotFound,
    /// The artifact was archived before.
    AlreadyArchived,
    /// The store or the file system failed; the text says how.
    Internal(String),
}

/// The status that answers a request that went well.
pub const STATUS_OK: u16 = 200;

/// The status that answers a missing or wrong credential.
pub const STATUS_UNAUTHORIZED: u16 = 401;

/// The status that answers an unknown hash.
pub const STATUS_NOT_FOUND: u16 = 404;

/// The status that answers a confirmation of what is archived already.
pub const STATUS_CONFLICT: u16 = 409;

/// The status that answers a failure of the store or the file system.
pub const STATUS_INTERNAL_SERVER_ERROR: u16 = 500;

/// The status that answers a refused request.
pub open spec fn error_status(error: ApiError) -> u16 {
    match error {
        ApiError::Unauthorized => STATUS_UNAUTHORIZED,
        ApiError::NotFound => STATUS_NOT_FOUND,
        ApiError::AlreadyArchived => STATUS_CONFLICT,
        ApiError::Internal(_) => STATUS_INTERNAL_SERVER_ERROR,
    }
}

/// The text of an [`ApiError`].
pub open spec fn api_error_text(error: ApiError) -> Seq<char> {
    match error {
        ApiError::Unauthorized => "Unauthorized"@,
        ApiError::NotFound => "Artifact not found"@,
        ApiError::AlreadyArchived => "Artifact already archived"@,
        ApiError::Internal(cause) => "Internal error: "@ + cause@,
    }
}

impl ApiError {
    /// The status that answers the refused request.
    pub fn status(&self) -> (status: u16)
        ensures
            status == error_status(*self),
    {
        match self {
            ApiError::Unauthorized => STATUS_UNAUTHORIZED,
            ApiError::NotFound => STATUS_NOT_FOUND,
            ApiError::AlreadyArchived => STATUS_CONFLICT,
            ApiError::Internal(_) => STATUS_INTERNAL_SERVER_ERROR,
        }
    }

    /// The error as a line of text.
    pub fn message(&self) -> (text: String)
        ensures
            text@ == api_error_text(*self),
    {
        match self {
            ApiError::Unauthorized => String::from_str("Unauthorized"),
            ApiError::NotFound => String::from_str("Artifact not found"),
            ApiError::AlreadyArchived => String::from_str("Artifact already archived"),
            ApiError::Internal(cause) => {
                let mut text = String::from_str("Internal error: ");
                text.append(cause.as_str());
                text
            },
        }
    }

    /// The answer to the refused request: its status and its body.
    pub fn into_response(self) -> (response: (u16, String))
        ensures
            response.0 == error_status(self),
            response.1@ == api_error_text(self),
    {
        let status = self.status();
        let body = self.message();
        (status, body)
    }
}

/// What the handlers of the service share: the credential.
#[derive(Debug, Clone)]
pub struct ApiState {
    pub api_key: String,
}

/// The value of the authorization header that carries `api_key`.
pub open spec fn bearer(api_key: Seq<char>) -> Seq<char> {
    "Bearer "@ + api_key
}

/// Whether a request with this authorization header, if it has one, carries
/// the credential.
pub open spec fn authorized(api_key: Seq<char>, authorization: Option<&str>) -> bool {
    authorization matches Some(header) && header@ == bearer(api_key)
}

/// Whether `result` refuses a request for want of the credential.
pub open spec fn is_unauthorized<T>(result: Result<T, ApiError>) -> bool {
    result matches Err(ApiError::Unauthorized)
}

/// Checks the credential of a request, given the value of its authorization
/// header if it has one that can be read as text.
pub fn auth(state: &ApiState, authorization: Option<&str>) -> (result: Result<(), ApiError>)
    ensures
        authorized(state.api_key@, authorization) ==> result.is_ok(),
        !authorized(state.api_key@, authorization) ==> is_unauthorized(result),
{
    match authorization {
        Some(header) => {
            let mut expected = String::from_str("Bearer ");
            expected.append(state.api_key.as_str());
            if expected == header.to_owned() {
                Ok(())
            } else {
                Err(ApiError::Unauthorized)
            }
        },
        None => Err(ApiError::Unauthorized),
    }
}

/// Answers the request for the list of artifacts: to a caller with the
/// credential, the tasks that wait at the relay with the place of each.
pub fn list_artifacts(state: &ApiState, authorization: Option<&str>, store: &StorageManager) -> (result:
    Result<Vec<ArtifactInfo>, ApiError>)
    requires
        store.wf(),
    ensures
        authorized(state.api_key@, authorization) ==> result.is_ok() && lists_ready_artifacts(
            store@.tasks,
            store@.storage_path,
            artifact_views(result.unwrap()@),
        ),
        !authorized(state.api_key@, authorization) ==> is_unauthorized(result),
{
    match auth(state, authorization) {
        Ok(()) => Ok(store.list_ready_artifacts()),
        Err(error) => Err(error),
    }
}

/// Whether `result` suits a confirmation on which the table gave `verdict`:
/// the directory to reclaim below `root` for an archived task, else the
/// matching refusal.
pub open spec fn confirms(
    result: Result<String, ApiError>,
    verdict: FinalizeVerdict,
    root: Seq<char>,
    hash: Seq<char>,
) -> bool {
    match verdict {
        FinalizeVerdict::Archived => result matches Ok(path) && path@ == artifact_path(root, hash),
        FinalizeVerdict::NotFound => result matches Err(ApiError::NotFound),
        FinalizeVerdict::AlreadyArchived => result matches Err(ApiError::AlreadyArchived),
    }
}

/// Answers the confirmation that the artifact `hash` was received.
///
/// Without the credential nothing happens. With it, a task that waits at the
/// relay is archived, and the result is the directory to reclaim; an unknown
/// hash and an archived task are refused, and the table stays as it was.
pub fn confirm_artifact(
    state: &ApiState,
    authorization: Option<&str>,
    store: &mut StorageManager,
    hash: &str,
) -> (result: Result<String, ApiError>)
    requires
        old(store).wf(),
    ensures
        final(store).wf(),
        final(store)@.watermark == old(store)@.watermark,
        final(store)@.storage_path == old(store)@.storage_path,
        authorized(state.api_key@, authorization) ==> {
            &&& final(store)@.tasks == finalized(old(store)@.tasks, hash@)
            &&& confirms(
                result,
                finalize_verdict(old(store)@.tasks, hash@),
                old(store)@.storage_path,
                hash@,
            )
        },
        !authorized(state.api_key@, authorization) ==> {
            &&& final(store)@.tasks == old(store)@.tasks
            &&& is_unauthorized(result)
        },
{
    match auth(state, authorization) {
        Ok(()) => {},
        Err(error) => {
            return Err(error);
        },
    }
    match store.finalize_artifact(hash) {
        Ok(path) => Ok(path),
        Err(error) => Err(refusal(error)),
    }
}

/// The refusal that answers a confirmation which could not be carried out.
pub open spec fn refusal_for(error: FinalizeArtifactError) -> ApiError {
    match error {
        FinalizeArtifactError::NotFound => ApiError::NotFound,
        FinalizeArtifactError::AlreadyArchived => ApiError::AlreadyArchived,
        FinalizeArtifactError::Storage(cause) => ApiError::Internal(cause),
    }
}

/// The refusal that answers a confirmation which could not be carried out:
/// an unknown hash and an archived task are named as such, a failure of the
/// store or of the file system is an internal error with the same cause.
pub fn refusal(error: FinalizeArtifactError) -> (answer: ApiError)
    ensures
        answer == refusal_for(error),
{
    match error {
        FinalizeArtifactError::NotFound => ApiError::NotFound,
        FinalizeArtifactError::AlreadyArchived => ApiError::AlreadyArchived,
        FinalizeArtifactError::Storage(cause) => ApiError::Internal(cause),
    }
}

/// The answer to a confirmation after the directory was to be reclaimed:
/// success if it was, else a failure that carries the cause.
pub fn reclaimed(removal: Result<(), String>) -> (result: Result<u16, ApiError>)
    ensures
        match removal {
            Ok(()) => result == Ok::<u16, ApiError>(STATUS_OK),
            Err(cause) => result matches Err(ApiError::Internal(text)) && text == cause,
        },
{
    match removal_result(removal) {
        Ok(()) => Ok(STATUS_OK),
        Err(error) => Err(refusal(error)),
    }
}

/// The status that answers a request.
pub fn response_status<T>(result: &Result<T, ApiError>) -> (status: u16)
    ensures
        status == match *result {
            Ok(_) => STATUS_OK,
            Err(error) => error_status(error),
        },
{
    match result {
        Ok(_) => STATUS_OK,
        Err(error) => error.status(),
    }
}

/// The handoff service: where it listens and what its handlers share.
#[derive(Debug, Clone)]
pub struct ApiServer {
    api_state: ApiState,
    addr: String,
}

impl ApiServer {
    /// The service that the configuration asks for.
    pub fn from_config(config: &DaemonConfig) -> (server: ApiServer)
        ensures
            server.state().api_key@ == config.api_key@,
            server.address() == config.api_addr@,
    {
        ApiServer {
            api_state: ApiState { api_key: config.api_key.clone() },
            addr: config.api_addr.clone(),
        }
    }

    /// What the handlers share.
    pub closed spec fn state(&self) -> ApiState {
        self.api_state
    }

    /// The address on which the service listens.
    pub closed spec fn address(&self) -> Seq<char> {
        self.addr@
    }

    /// What the handlers share.
    pub fn api_state(&self) -> (state: &ApiState)
        ensures
            *state == self.state(),
    {
        &self.api_state
    }

    /// The address on which the service listens.
    pub fn addr(&self) -> (addr: &str)
        ensures
            addr@ == self.address(),
    {
        self.addr.as_str()
    }
}

/// A confirmation is answered with 200 exactly when a task waited at the
/// relay, with 404 for an unknown hash and with 409 for an archived task;
/// and a second confirmation of the same hash is always refused.
pub proof fn lemma_confirm_statuses(
    result: Result<String, ApiError>,
    verdict: FinalizeVerdict,
    root: Seq<char>,
    hash: Seq<char>,
)
    requires
        confirms(result, verdict, root, hash),
    ensures
        verdict == FinalizeVerdict::Archived <==> result.is_ok(),
        verdict == FinalizeVerdict::NotFound <==> (result matches Err(error) && error_status(error)
            == STATUS_NOT_FOUND),
        verdict == FinalizeVerdict::AlreadyArchived <==> (result matches Err(error)
            && error_status(error) == STATUS_CONFLICT),
{
}

} // verus!
