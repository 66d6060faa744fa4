//! Build facts delivered by the build-tracking service, and the statuses a
//! review run can report back to it.

use vstd::prelude::*;

verus! {

/// A build together with its per-ref records.
pub struct BuildExtended {
    pub build: Build,
    pub build_refs: Vec<BuildRef>,
}

pub struct Build {
    pub app_id: Option<String>,
    pub repo: String,
    pub build_log_url: Option<String>,
}

pub struct BuildRef {
    pub ref_name: String,
    pub build_log_url: Option<String>,
}

/// Outcome of a review run as reported to the build-tracking service.
#[derive(Clone, Debug, PartialEq)]
pub enum CheckStatus {
    ReviewRequired(String),
    Failed(String),
    PassedWithWarnings(String),
    Pending,
}

/// Payload of a check-status report: the new status and the serialized
/// diagnostics.
pub struct ReviewRequestArgs {
    pub new_status: CheckStatus,
    pub new_results: String,
}

/// The first per-ref record for `refstring`, if any.
pub open spec fn spec_find_build_ref(refs: Seq<BuildRef>, refstring: Seq<char>) -> Option<BuildRef>
    decreases refs.len(),
{
    if refs.len() == 0 {
        None
    } else if refs[0].ref_name@ == refstring {
        Some(refs[0])
    } else {
        spec_find_build_ref(refs.drop_first(), refstring)
    }
}

/// The build log URL recorded for `refstring` itself: the URL of the first
/// per-ref record with that name, and nothing when the record carries none.
pub open spec fn spec_ref_log_url(b: BuildExtended, refstring: Seq<char>) -> Option<Seq<char>> {
    match spec_find_build_ref(b.build_refs@, refstring) {
        Some(r) => match r.build_log_url {
            Some(u) => Some(u@),
            None => None,
        },
        None => None,
    }
}

impl BuildExtended {
    /// The build log URL recorded for `refstring`, when there is one.
    pub fn ref_log_url(&self, refstring: &str) -> (r: Option<&String>)
        ensures
            match spec_ref_log_url(*self, refstring@) {
                Some(u) => r matches Some(s) && s@ == u,
                None => r is None,
            },
    {
        let n = self.build_refs.len();
        proof {
            assert(self.build_refs@.skip(0) =~= self.build_refs@);
        }
        let mut i: usize = 0;
        while i < n
            invariant
                n == self.build_refs@.len(),
                i <= n,
                spec_find_build_ref(self.build_refs@, refstring@) == spec_find_build_ref(
                    self.build_refs@.skip(i as int),
                    refstring@,
                ),
            decreases n - i,
        {
            proof {
                assert(self.build_refs@.skip(i as int)[0] == self.build_refs@[i as int]);
                assert(self.build_refs@.skip(i as int).drop_first() =~= self.build_refs@.skip(
                    i as int + 1,
                ));
            }
            if crate::strutil::str_eq(self.build_refs[i].ref_name.as_str(), refstring) {
                return match &self.build_refs[i].build_log_url {
                    Some(u) => Some(u),
                    None => None,
                };
            }
            i += 1;
        }
        proof {
            assert(self.build_refs@.skip(n as int).len() == 0);
        }
        None
    }
}

} // verus!
