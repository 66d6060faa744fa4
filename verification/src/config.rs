//! The capability interfaces of the pipeline: what the backend answers, and
//! how a review outcome is reported.  A dry-run implementation lives here;
//! the live one, wired to HTTP clients, is supplied by the caller.

use vstd::prelude::*;

use crate::diagnostics::CheckResult;
use crate::job_utils::{Build, BuildExtended, CheckStatus};
use crate::moderation::{ReviewRequest, ReviewRequestResponse};
use crate::storefront::StorefrontInfo;

verus! {

/// A backend or repository call that failed after its retries.
#[derive(Debug)]
pub struct BackendError {
    pub message: String,
}

/// Services for the validation step.
pub trait ValidateConfig {
    fn get_is_free_software(&self, app_id: &str, license: Option<&str>) -> Result<
        bool,
        BackendError,
    >;

    fn get_build(&self) -> Result<BuildExtended, BackendError>;
}

/// Services for the full, backend-integrated review run.
pub trait Config: ValidateConfig {
    fn get_build_id(&self) -> Result<i64, BackendError>;

    fn get_job_id(&self) -> Result<i64, BackendError>;

    fn get_is_republish(&self) -> Result<bool, BackendError>;

    fn validation_observe_only(&self) -> bool;

    fn get_storefront_info(&self, app_id: &str) -> Result<StorefrontInfo, BackendError>;

    fn set_check_status(&self, new_status: &CheckStatus, result: &CheckResult) -> Result<
        (),
        BackendError,
    >;

    fn post_review_request(&self, request: &ReviewRequest) -> Result<
        ReviewRequestResponse,
        BackendError,
    >;

    fn post_email_notification(&self, result: &CheckResult) -> Result<(), BackendError>;
}

/// The status reported when validation found blocking failures: under the
/// observe-only flag the run is downgraded to passed-with-warnings while
/// still surfacing every diagnostic; otherwise it fails.
pub fn failure_status(observe_only: bool, reason: &str) -> (r: CheckStatus)
    ensures
        observe_only ==> (r matches CheckStatus::PassedWithWarnings(s) && s@ == reason@),
        !observe_only ==> (r matches CheckStatus::Failed(s) && s@ == reason@),
{
    if observe_only {
        CheckStatus::PassedWithWarnings(reason.to_owned())
    } else {
        CheckStatus::Failed(reason.to_owned())
    }
}

/// The status selected by the moderation backend's answer: held for review
/// when it asks for one, still pending otherwise.
pub fn moderation_status(requires_review: bool, reason: &str) -> (r: CheckStatus)
    ensures
        requires_review ==> (r matches CheckStatus::ReviewRequired(s) && s@ == reason@),
        !requires_review ==> r is Pending,
{
    if requires_review {
        CheckStatus::ReviewRequired(reason.to_owned())
    } else {
        CheckStatus::Pending
    }
}

/// Whether a notification email is owed: only when the run produced any
/// diagnostics at all (warnings included), and only when the build knows
/// which app to notify about.
pub fn should_send_notification(result: &CheckResult, app_id: &Option<String>) -> (r: bool)
    ensures
        r == (result.diagnostics@.len() > 0 && app_id is Some),
{
    result.diagnostics.len() > 0 && app_id.is_some()
}

/// The live configuration record, as read from the config file.
pub struct RegularConfig {
    pub backend_url: String,
    pub flat_manager_url: String,
    pub flat_manager_token: String,
    pub validation_observe_only: bool,
}

/// The dry-run validation configuration: no backend is consulted, no app is
/// taken for free software, and no build facts exist.
pub struct ValidateArgs {}

impl ValidateConfig for ValidateArgs {
    fn get_is_free_software(&self, app_id: &str, license: Option<&str>) -> Result<
        bool,
        BackendError,
    > {
        Ok(false)
    }

    fn get_build(&self) -> Result<BuildExtended, BackendError> {
        Ok(
            BuildExtended {
                build: Build { app_id: None, repo: String::new(), build_log_url: None },
                build_refs: Vec::new(),
            },
        )
    }
}

} // verus!
