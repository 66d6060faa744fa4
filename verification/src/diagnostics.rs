//! Typed outcomes of the review checks.  Every check appends diagnostics to
//! one [`CheckResult`] per review run; error-severity diagnostics block the
//! moderation step and fail the review, warnings are only surfaced.

use vstd::prelude::*;

verus! {

/// The ordered collection of diagnostics of one review run.
#[derive(Debug)]
pub struct CheckResult {
    pub diagnostics: Vec<ValidationDiagnostic>,
}

/// One check outcome, optionally tied to a ref, with its severity.
#[derive(Debug)]
pub struct ValidationDiagnostic {
    pub refstring: Option<String>,
    pub is_warning: bool,
    pub info: DiagnosticInfo,
}

/// One executable with an unexpected target architecture.
#[derive(Debug)]
pub struct WrongArchExecutable {
    pub path: String,
    pub detected_arch: String,
    pub detected_arch_code: u16,
}

/// The kinds of check outcome.
#[derive(Debug)]
pub enum DiagnosticInfo {
    /// The appstream file is missing, unreadable or not structured as
    /// expected.
    FailedToLoadAppstream { path: String, error: String },
    /// The external bundle linter rejected the build; its output is carried
    /// verbatim.
    FlatpakBuilderLint { stdout: String, stderr: String },
    /// The app is free software, but no valid URL for the build's CI log
    /// was given.
    MissingBuildLogUrl,
    /// The app declares no icon at all.
    MissingIcon,
    /// The app has no local icon, only a remote one.
    NoLocalIcon,
    /// A screenshot is not mirrored to the mirror the pipeline serves.
    ScreenshotNotMirrored { url: String },
    /// A screenshot claims to be mirrored but the mirrored file is absent.
    MirroredScreenshotNotFound { url: String },
    /// The screenshots branch for this architecture is absent entirely.
    MissingScreenshotBranch { arch: String },
    /// Executables compiled for an architecture the ref does not target,
    /// one diagnostic per ref listing every offending path.
    WrongArchExecutables { executables: Vec<WrongArchExecutable> },
}

impl ValidationDiagnostic {
    /// An error-severity diagnostic.
    pub fn new(info: DiagnosticInfo, refstring: Option<String>) -> (r: Self)
        ensures
            r.info == info,
            r.refstring == refstring,
            !r.is_warning,
    {
        Self { refstring, is_warning: false, info }
    }

    /// A warning-severity diagnostic.
    pub fn new_warning(info: DiagnosticInfo, refstring: Option<String>) -> (r: Self)
        ensures
            r.info == info,
            r.refstring == refstring,
            r.is_warning,
    {
        Self { refstring, is_warning: true, info }
    }

    /// An error-severity load failure for the appstream file at `path`.
    pub fn new_failed_to_load_appstream(path: &str, error: &str, refstring: &str) -> (r: Self)
        ensures
            (r.info matches DiagnosticInfo::FailedToLoadAppstream { path: p, error: e } && p@
                == path@ && e@ == error@),
            (r.refstring matches Some(s) && s@ == refstring@),
            !r.is_warning,
    {
        Self::new(
            DiagnosticInfo::FailedToLoadAppstream {
                path: path.to_owned(),
                error: error.to_owned(),
            },
            Some(refstring.to_owned()),
        )
    }
}

/// Whether any diagnostic of the run has error severity.
pub open spec fn spec_has_blocking_failure(r: CheckResult) -> bool {
    exists|i: int| 0 <= i < r.diagnostics@.len() && !(#[trigger] r.diagnostics@[i]).is_warning
}

impl CheckResult {
    /// A run that found nothing yet.
    pub fn new() -> (r: Self)
        ensures
            r.diagnostics@.len() == 0,
    {
        CheckResult { diagnostics: Vec::new() }
    }

    /// Whether any diagnostic blocks the review: errors block, warnings do
    /// not.
    pub fn has_blocking_failure(&self) -> (r: bool)
        ensures
            r == spec_has_blocking_failure(*self),
    {
        let n = self.diagnostics.len();
        let mut i: usize = 0;
        while i < n
            invariant
                n == self.diagnostics@.len(),
                i <= n,
                forall|j: int| 0 <= j < i ==> (#[trigger] self.diagnostics@[j]).is_warning,
            decreases n - i,
        {
            if !self.diagnostics[i].is_warning {
                return true;
            }
            i += 1;
        }
        false
    }
}

} // verus!
