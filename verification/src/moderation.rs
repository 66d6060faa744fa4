//! The moderation step: which refs are reviewed, the catalog excerpt
//! collected for each app, and the request sent to the moderation backend.

use vstd::prelude::*;

use crate::config::{BackendError, Config};
use crate::strutil::str_eq;
use crate::utils::{
    arch_from_ref, is_primary_ref, slash0, slash1, spec_arch_from_ref, spec_is_primary_ref,
};
use crate::xml::{spec_first_with_tag, XmlElement, XmlNode};

verus! {

/// The catalog excerpt of one app as the moderation backend sees it.
pub struct ReviewItem {
    pub name: Option<String>,
    pub summary: Option<String>,
    pub developer_name: Option<String>,
    pub project_license: Option<String>,
    pub project_group: Option<String>,
    pub compulsory_for_desktop: Option<String>,
}

/// The request sent to the moderation backend.
pub struct ReviewRequest {
    pub build_id: i64,
    pub job_id: i64,
    pub items: Vec<ReviewItem>,
}

/// The moderation backend's answer.
pub struct ReviewRequestResponse {
    pub requires_review: bool,
}

/// A ref whose app is moderated: the primary ref of the one reviewed
/// architecture.
pub open spec fn spec_moderated_ref(refv: Seq<char>) -> bool {
    spec_is_primary_ref(refv) && spec_arch_from_ref(refv) == "x86_64"@
}

/// Text of the first child of `n` with the given tag, if any.
pub open spec fn spec_child_text(n: XmlNode, tag: Seq<char>) -> Option<Seq<char>> {
    let i = spec_first_with_tag(n.children, tag);
    if i == -1 {
        None
    } else {
        Some(n.children[i].text)
    }
}

/// Text of the first child of `e` with the given tag, if any.
pub fn child_text(e: &XmlElement, tag: &str) -> (r: Option<String>)
    ensures
        match spec_child_text(e@, tag@) {
            Some(t) => r matches Some(s) && s@ == t,
            None => r is None,
        },
{
    proof {
        crate::xml::lemma_xml_view_fields(*e);
    }
    match e.first_child_with_tag(tag) {
        Some(i) => {
            proof {
                crate::xml::lemma_xml_view_fields(e.children@[i as int]);
            }
            Some(e.children[i].text.clone())
        },
        None => None,
    }
}

/// Whether `item` is exactly the moderation excerpt of the component: each
/// of the six reviewed fields is the text of the component's first child
/// with that tag, and absent when the component declares none.
pub open spec fn spec_review_item_matches(item: ReviewItem, c: XmlNode) -> bool {
    &&& (match spec_child_text(c, "name"@) {
        Some(t) => item.name matches Some(s) && s@ == t,
        None => item.name is None,
    })
    &&& (match spec_child_text(c, "summary"@) {
        Some(t) => item.summary matches Some(s) && s@ == t,
        None => item.summary is None,
    })
    &&& (match spec_child_text(c, "developer_name"@) {
        Some(t) => item.developer_name matches Some(s) && s@ == t,
        None => item.developer_name is None,
    })
    &&& (match spec_child_text(c, "project_license"@) {
        Some(t) => item.project_license matches Some(s) && s@ == t,
        None => item.project_license is None,
    })
    &&& (match spec_child_text(c, "project_group"@) {
        Some(t) => item.project_group matches Some(s) && s@ == t,
        None => item.project_group is None,
    })
    &&& (match spec_child_text(c, "compulsory_for_desktop"@) {
        Some(t) => item.compulsory_for_desktop matches Some(s) && s@ == t,
        None => item.compulsory_for_desktop is None,
    })
}

/// The moderation excerpt of a catalog component: the text of each of the
/// six reviewed fields, when the component declares it.
pub fn review_item_from_component(component: &XmlElement) -> (r: ReviewItem)
    ensures
        spec_review_item_matches(r, component@),
{
    ReviewItem {
        name: child_text(component, "name"),
        summary: child_text(component, "summary"),
        developer_name: child_text(component, "developer_name"),
        project_license: child_text(component, "project_license"),
        project_group: child_text(component, "project_group"),
        compulsory_for_desktop: child_text(component, "compulsory_for_desktop"),
    }
}

/// Only the primary ref of the one reviewed architecture is moderated;
/// other architectures of the same app are intentionally not reviewed
/// twice.
pub fn should_moderate_ref(refstring: &str) -> (r: bool)
    requires
        spec_is_primary_ref(refstring@) ==> slash1(refstring@) < refstring@.len(),
    ensures
        r == spec_moderated_ref(refstring@),
{
    if !is_primary_ref(refstring) {
        return false;
    }
    proof {
        reveal_strlit("app/");
        crate::strutil::lemma_find_from(refstring@, '/', 0);
        assert(refstring@.subrange(0, 4) =~= "app/"@);
        assert(refstring@[0] == refstring@.subrange(0, 4)[0]);
        assert(refstring@[1] == refstring@.subrange(0, 4)[1]);
        assert(refstring@[2] == refstring@.subrange(0, 4)[2]);
        assert(refstring@[3] == refstring@.subrange(0, 4)[3]);
        assert(slash0(refstring@) == 3);
    }
    let arch = arch_from_ref(refstring);
    str_eq(arch.as_str(), "x86_64")
}

/// Builds the review request for the collected excerpts from the service's
/// build and job identifiers.
pub fn review_build<C: Config>(config: &C, items: Vec<ReviewItem>) -> (r: Result<
    ReviewRequest,
    BackendError,
>)
    ensures
        r matches Ok(q) ==> q.items == items,
{
    let build_id = match config.get_build_id() {
        Ok(x) => x,
        Err(e) => {
            return Err(e);
        },
    };
    let job_id = match config.get_job_id() {
        Ok(x) => x,
        Err(e) => {
            return Err(e);
        },
    };
    Ok(ReviewRequest { build_id, job_id, items })
}

} // verus!
