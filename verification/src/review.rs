//! The review workflow: run the validations, decide the outcome, collect
//! the moderation excerpts and report the final status.  Blocking failures
//! stop the moderation step; warnings never do; the notification email is
//! best-effort and never changes the reported status or the returned
//! result.

use vstd::prelude::*;

use crate::compress::{gunzip_text, gunzip_to_string};
use crate::config::{failure_status, moderation_status, BackendError, Config, ValidateConfig};
use crate::diagnostics::{spec_has_blocking_failure, CheckResult, ValidationDiagnostic};
use crate::job_utils::CheckStatus;
use crate::moderation::{
    review_build, review_item_from_component, should_moderate_ref, spec_moderated_ref,
    spec_review_item_matches, ReviewItem,
};
use crate::utils::{slash1, spec_is_primary_ref};
use crate::validation::{
    spec_catalog_path, spec_load_failure_at, validate_build, FileRead, RefInput,
};
use crate::xml::{parse_xml, parsed_xml, spec_first_with_tag, XmlNode};

verus! {

/// Runs the validation half of the pipeline: fetches the build facts and
/// validates every primary ref, collecting all diagnostics into one result.
/// Returns the result together with the build facts it was validated
/// against.
pub fn do_validation<C: ValidateConfig>(config: &C, refs: &Vec<RefInput>) -> (r: Result<
    (CheckResult, crate::job_utils::BuildExtended),
    BackendError,
>)
    requires
        forall|i: int|
            0 <= i < refs@.len() && spec_is_primary_ref((#[trigger] refs@[i]).refstring@)
                ==> crate::utils::slash0(refs@[i].refstring@) < refs@[i].refstring@.len()
                && slash1(refs@[i].refstring@) < refs@[i].refstring@.len(),
    ensures
        r matches Ok(p) ==> crate::validation::spec_build_prefix(
            p.0.diagnostics@,
            refs@,
            refs@.len() as int,
            p.1,
        ),
{
    let build = match config.get_build() {
        Ok(b) => b,
        Err(e) => {
            return Err(e);
        },
    };
    let mut result = CheckResult::new();
    match validate_build(config, &build, refs, &mut result) {
        Ok(_) => {},
        Err(e) => {
            return Err(e);
        },
    }
    proof {
        assert(result.diagnostics@.skip(0) =~= result.diagnostics@);
    }
    Ok((result, build))
}

/// The final status of a review run, from what the checks and the
/// moderation backend said: blocking failures fail the run (downgraded
/// under observe-only); otherwise the backend's answer selects between a
/// moderator hold and a still-pending run.
pub fn review_outcome(has_failure: bool, observe_only: bool, requires_review: bool) -> (r:
    CheckStatus)
    ensures
        has_failure && !observe_only ==> (r matches CheckStatus::Failed(m) && m@
            == "One or more validations failed."@),
        has_failure && observe_only ==> (r matches CheckStatus::PassedWithWarnings(m) && m@
            == "One or more validations failed."@),
        !has_failure && requires_review ==> (r matches CheckStatus::ReviewRequired(m) && m@
            == "Some of the changes in this build require review by a moderator."@),
        !has_failure && !requires_review ==> r is Pending,
{
    if has_failure {
        failure_status(observe_only, "One or more validations failed.")
    } else {
        moderation_status(
            requires_review,
            "Some of the changes in this build require review by a moderator.",
        )
    }
}

/// The component a catalog file's moderation excerpt is read from: the
/// first component of the document, when the file holds a gzip-compressed,
/// well-formed document with one.
pub open spec fn spec_excerpt_source(catalog: FileRead) -> Option<XmlNode> {
    match catalog {
        FileRead::Content { bytes } => match gunzip_text(bytes@) {
            Some(text) => match parsed_xml(text) {
                Some(root) => {
                    let ci = spec_first_with_tag(root.children, "component"@);
                    if ci == -1 {
                        None
                    } else {
                        Some(root.children[ci])
                    }
                },
                None => None,
            },
            None => None,
        },
        _ => None,
    }
}

/// Whether `items` are, in order, the excerpts of the moderated refs among
/// the first `upto` refs whose catalogs load, and `appended` the blocking
/// load failures of the moderated refs whose catalogs do not.
pub open spec fn spec_collect_prefix(
    items: Seq<ReviewItem>,
    appended: Seq<ValidationDiagnostic>,
    refs: Seq<RefInput>,
    upto: int,
) -> bool
    decreases upto,
{
    if upto <= 0 {
        items.len() == 0 && appended.len() == 0
    } else if !spec_moderated_ref(refs[upto - 1].refstring@) {
        spec_collect_prefix(items, appended, refs, upto - 1)
    } else {
        match spec_excerpt_source(refs[upto - 1].catalog) {
            Some(comp) => items.len() > 0 && spec_review_item_matches(items.last(), comp)
                && spec_collect_prefix(items.drop_last(), appended, refs, upto - 1),
            None => appended.len() > 0 && spec_load_failure_at(
                appended.last(),
                spec_catalog_path(refs[upto - 1].refstring@),
                refs[upto - 1].refstring@,
            ) && spec_collect_prefix(items, appended.drop_last(), refs, upto - 1),
        }
    }
}

/// Collects the moderation excerpt of every moderated ref, in ref order; a
/// catalog that cannot be loaded while collecting is a blocking failure
/// discovered late and appended to the run's diagnostics.
pub fn collect_review_items(result: &mut CheckResult, refs: &Vec<RefInput>) -> (items: Vec<
    ReviewItem,
>)
    requires
        forall|i: int|
            0 <= i < refs@.len() && spec_is_primary_ref((#[trigger] refs@[i]).refstring@)
                ==> slash1(refs@[i].refstring@) < refs@[i].refstring@.len(),
    ensures
        final(result).diagnostics@.len() >= old(result).diagnostics@.len(),
        final(result).diagnostics@.take(old(result).diagnostics@.len() as int) == old(
            result,
        ).diagnostics@,
        forall|j: int|
            old(result).diagnostics@.len() <= j < final(result).diagnostics@.len() ==> !(
            #[trigger] final(result).diagnostics@[j]).is_warning,
        spec_collect_prefix(
            items@,
            final(result).diagnostics@.skip(old(result).diagnostics@.len() as int),
            refs@,
            refs@.len() as int,
        ),
{
    let ghost base = old(result).diagnostics@.len() as int;
    proof {
        assert(result.diagnostics@.take(base) =~= old(result).diagnostics@);
        assert(result.diagnostics@.skip(base) =~= Seq::<ValidationDiagnostic>::empty());
    }
    let mut items: Vec<ReviewItem> = Vec::new();
    let n = refs.len();
    let mut i: usize = 0;
    while i < n
        invariant
            n == refs@.len(),
            i <= n,
            forall|j: int|
                0 <= j < refs@.len() && spec_is_primary_ref((#[trigger] refs@[j]).refstring@)
                    ==> slash1(refs@[j].refstring@) < refs@[j].refstring@.len(),
            0 <= base <= result.diagnostics@.len(),
            result.diagnostics@.take(base) == old(result).diagnostics@,
            forall|j: int|
                base <= j < result.diagnostics@.len() ==> !(#[trigger] result.diagnostics@[j]).is_warning,
            spec_collect_prefix(items@, result.diagnostics@.skip(base), refs@, i as int),
        decreases n - i,
    {
        let input = &refs[i];
        let refstring = input.refstring.as_str();
        if should_moderate_ref(refstring) {
            proof {
                reveal_strlit("app/");
                crate::strutil::lemma_find_from(input.refstring@, '/', 0);
                assert(input.refstring@.subrange(0, 4) =~= "app/"@);
                assert(input.refstring@[0] == input.refstring@.subrange(0, 4)[0]);
                assert(input.refstring@[1] == input.refstring@.subrange(0, 4)[1]);
                assert(input.refstring@[2] == input.refstring@.subrange(0, 4)[2]);
                assert(input.refstring@[3] == input.refstring@.subrange(0, 4)[3]);
                assert(crate::utils::slash0(input.refstring@) == 3);
            }
            match collect_one_item(input) {
                Ok(item) => {
                    let ghost before_items = items@;
                    items.push(item);
                    proof {
                        assert(items@.drop_last() =~= before_items);
                        assert(items@.last() == item);
                        assert(spec_collect_prefix(
                            items@,
                            result.diagnostics@.skip(base),
                            refs@,
                            i as int + 1,
                        ));
                    }
                },
                Err(d) => {
                    let ghost before = result.diagnostics@;
                    result.diagnostics.push(d);
                    proof {
                        assert(result.diagnostics@.take(base) =~= before.take(base));
                        assert(result.diagnostics@.skip(base) =~= before.skip(base).push(d));
                        assert(result.diagnostics@.skip(base).drop_last() =~= before.skip(base));
                        assert(spec_collect_prefix(
                            items@,
                            result.diagnostics@.skip(base),
                            refs@,
                            i as int + 1,
                        ));
                    }
                },
            }
        } else {
            proof {
                assert(spec_collect_prefix(
                    items@,
                    result.diagnostics@.skip(base),
                    refs@,
                    i as int + 1,
                ));
            }
        }
        i += 1;
    }
    items
}

/// The excerpt of one moderated ref, or the blocking load failure to
/// report when its catalog does not load as a document with a component.
fn collect_one_item(input: &RefInput) -> (r: Result<ReviewItem, ValidationDiagnostic>)
    requires
        crate::utils::slash0(input.refstring@) < input.refstring@.len(),
    ensures
        match spec_excerpt_source(input.catalog) {
            Some(comp) => r matches Ok(item) && spec_review_item_matches(item, comp),
            None => r matches Err(d) && spec_load_failure_at(
                d,
                spec_catalog_path(input.refstring@),
                input.refstring@,
            ),
        },
{
    let refstring = input.refstring.as_str();
    let app_id = crate::utils::app_id_from_ref(refstring);
    let path = crate::utils::get_appstream_path(app_id.as_str());
    let fail = |msg: &str| -> (d: ValidationDiagnostic)
        ensures
            spec_load_failure_at(d, spec_catalog_path(input.refstring@), input.refstring@),
        {
            ValidationDiagnostic::new_failed_to_load_appstream(path.as_str(), msg, refstring)
        };
    let bytes = match &input.catalog {
        FileRead::Missing => {
            return Err(fail("File does not exist"));
        },
        FileRead::Unreadable { error } => {
            return Err(fail(error.as_str()));
        },
        FileRead::Content { bytes } => bytes,
    };
    let text = match gunzip_to_string(bytes.as_slice()) {
        Some(t) => t,
        None => {
            return Err(fail("failed to decompress appstream file"));
        },
    };
    let root = match parse_xml(text.as_str()) {
        Ok(x) => x,
        Err(_) => {
            return Err(fail("failed to parse appstream file"));
        },
    };
    let ci = match root.first_child_with_tag("component") {
        Some(i) => i,
        None => {
            return Err(fail("Expected exactly one <component>, found none"));
        },
    };
    Ok(review_item_from_component(&root.children[ci]))
}

/// Runs the full review workflow on a validated build and returns the
/// status it reported.  A blocking failure is reported at once and stops
/// the moderation step; otherwise the moderation excerpts are collected (a
/// collection failure blocks too) and submitted, and the backend's answer
/// selects the final status.  In every branch the notification email is
/// attempted after the status is reported, best-effort: its failure
/// changes neither the reported status nor the returned result.
pub fn do_review<C: Config>(config: &C, result: &mut CheckResult, refs: &Vec<RefInput>) -> (r:
    Result<CheckStatus, BackendError>)
    requires
        forall|i: int|
            0 <= i < refs@.len() && spec_is_primary_ref((#[trigger] refs@[i]).refstring@)
                ==> slash1(refs@[i].refstring@) < refs@[i].refstring@.len(),
    ensures
        final(result).diagnostics@.len() >= old(result).diagnostics@.len(),
        final(result).diagnostics@.take(old(result).diagnostics@.len() as int) == old(
            result,
        ).diagnostics@,
        forall|j: int|
            old(result).diagnostics@.len() <= j < final(result).diagnostics@.len() ==> !(
            #[trigger] final(result).diagnostics@[j]).is_warning,
        spec_has_blocking_failure(*old(result)) ==> *final(result) == *old(result),
        r matches Ok(st) ==> {
            if spec_has_blocking_failure(*final(result)) {
                ||| (st matches CheckStatus::Failed(m) && m@ == "One or more validations failed."@)
                ||| (st matches CheckStatus::PassedWithWarnings(m) && m@
                    == "One or more validations failed."@)
            } else {
                ||| st is Pending
                ||| (st matches CheckStatus::ReviewRequired(m) && m@
                    == "Some of the changes in this build require review by a moderator."@)
            }
        },
{
    if result.has_blocking_failure() {
        let status = review_outcome(true, config.validation_observe_only(), false);
        match config.set_check_status(&status, result) {
            Ok(_) => {},
            Err(e) => {
                return Err(e);
            },
        }
        // best-effort: a notification failure must not mask the status
        let _ = config.post_email_notification(result);
        return Ok(status);
    }
    let items = collect_review_items(result, refs);
    if result.has_blocking_failure() {
        let status = review_outcome(true, config.validation_observe_only(), false);
        match config.set_check_status(&status, result) {
            Ok(_) => {},
            Err(e) => {
                return Err(e);
            },
        }
        // best-effort: a notification failure must not mask the status
        let _ = config.post_email_notification(result);
        return Ok(status);
    }
    let request = match review_build(config, items) {
        Ok(q) => q,
        Err(e) => {
            return Err(e);
        },
    };
    let response = match config.post_review_request(&request) {
        Ok(x) => x,
        Err(e) => {
            return Err(e);
        },
    };
    let status = review_outcome(false, config.validation_observe_only(), response.requires_review);
    match config.set_check_status(&status, result) {
        Ok(_) => {},
        Err(e) => {
            return Err(e);
        },
    }
    // best-effort: a notification failure must not mask the status
    let _ = config.post_email_notification(result);
    Ok(status)
}

} // verus!
