//! Ref-string handling: a ref names `kind/app-id/arch/branch`, and several
//! parts of the pipeline are keyed by the app id or the architecture segment
//! of a ref.  Also the bounded retry schedule used for backend calls.

use vstd::prelude::*;

use crate::strutil::{find_char_from, find_from, lemma_find_from, str_eq, str_has_prefix};

verus! {

/// Position of the first `/` of `s`.
pub open spec fn slash0(s: Seq<char>) -> int {
    find_from(s, '/', 0)
}

/// Position of the second `/` of `s` (or `s.len()` when there is none).
pub open spec fn slash1(s: Seq<char>) -> int {
    find_from(s, '/', slash0(s) + 1)
}

/// Position of the third `/` of `s` (or `s.len()` when there is none).
pub open spec fn slash2(s: Seq<char>) -> int {
    find_from(s, '/', slash1(s) + 1)
}

/// The id segment of a ref: what stands between the first and the second `/`.
pub open spec fn spec_ref_id(s: Seq<char>) -> Seq<char> {
    s.subrange(slash0(s) + 1, slash1(s))
}

/// The architecture segment of a ref: what stands between the second and the
/// third `/`.
pub open spec fn spec_arch_from_ref(s: Seq<char>) -> Seq<char> {
    s.subrange(slash1(s) + 1, slash2(s))
}

/// Index of the last `.` of `s` strictly before `i`, or `-1` when there is
/// none.
pub open spec fn rfind_before(s: Seq<char>, c: char, i: int) -> int
    decreases i,
{
    if i <= 0 || i > s.len() {
        -1
    } else if s[i - 1] == c {
        i - 1
    } else {
        rfind_before(s, c, i - 1)
    }
}

pub proof fn lemma_rfind_before(s: Seq<char>, c: char, i: int)
    requires
        0 <= i <= s.len(),
    ensures
        -1 <= rfind_before(s, c, i) < i,
        rfind_before(s, c, i) >= 0 ==> s[rfind_before(s, c, i)] == c,
        forall|j: int| rfind_before(s, c, i) < j < i ==> s[j] != c,
    decreases i,
{
    if i > 0 && s[i - 1] != c {
        lemma_rfind_before(s, c, i - 1);
    }
}

/// The suffix components stripped when deriving an app id from a ref id.
pub open spec fn is_app_suffix(p: Seq<char>) -> bool {
    p == "Sources"@ || p == "Debug"@ || p == "Locale"@
}

/// The canonical app id carried by a ref id: the ref id itself, or the ref
/// id with its last `.`-separated component removed when that component is
/// one of the known suffixes.
pub open spec fn spec_app_id_of_ref_id(id: Seq<char>) -> Seq<char> {
    let d = rfind_before(id, '.', id.len() as int);
    let last = id.subrange(d + 1, id.len() as int);
    if is_app_suffix(last) {
        if d >= 0 {
            id.subrange(0, d)
        } else {
            Seq::empty()
        }
    } else {
        id
    }
}

pub open spec fn spec_app_id_from_ref(s: Seq<char>) -> Seq<char> {
    spec_app_id_of_ref_id(spec_ref_id(s))
}

/// App ids that are never treated as primary refs.
pub open spec fn in_appid_skiplist(id: Seq<char>) -> bool {
    ||| id == "net.pcsx2.PCSX2"@
    ||| id == "net.wz2100.wz2100"@
    ||| id == "org.freedesktop.Platform.ClInfo"@
    ||| id == "org.freedesktop.Platform.GlxInfo"@
    ||| id == "org.freedesktop.Platform.VaInfo"@
    ||| id == "org.freedesktop.Platform.VulkanInfo"@
    ||| id == "org.mozilla.Thunderbird"@
    ||| id == "org.mozilla.firefox"@
}

/// A primary ref is an `app/` ref whose id segment is not on the skip list.
pub open spec fn spec_is_primary_ref(s: Seq<char>) -> bool {
    "app/"@.is_prefix_of(s) && !in_appid_skiplist(spec_ref_id(s))
}

/// The architecture segment of a ref string.
pub fn arch_from_ref(refstring: &str) -> (r: String)
    requires
        slash0(refstring@) < refstring@.len(),
        slash1(refstring@) < refstring@.len(),
    ensures
        r@ == spec_arch_from_ref(refstring@),
{
    let n = refstring.unicode_len();
    let a = find_char_from(refstring, '/', 0);
    proof {
        lemma_find_from(refstring@, '/', 0);
    }
    let b = find_char_from(refstring, '/', a + 1);
    proof {
        lemma_find_from(refstring@, '/', a as int + 1);
    }
    let c = find_char_from(refstring, '/', b + 1);
    proof {
        lemma_find_from(refstring@, '/', b as int + 1);
    }
    refstring.substring_char(b + 1, c).to_owned()
}

fn ref_id_bounds(refstring: &str) -> (r: (usize, usize))
    requires
        slash0(refstring@) < refstring@.len(),
    ensures
        r.0 == slash0(refstring@),
        r.1 == slash1(refstring@),
        r.0 < r.1 <= refstring@.len(),
{
    let a = find_char_from(refstring, '/', 0);
    proof {
        lemma_find_from(refstring@, '/', 0);
    }
    let b = find_char_from(refstring, '/', a + 1);
    proof {
        lemma_find_from(refstring@, '/', a as int + 1);
    }
    (a, b)
}

fn is_suffix_str(p: &str) -> (r: bool)
    ensures
        r == is_app_suffix(p@),
{
    str_eq(p, "Sources") || str_eq(p, "Debug") || str_eq(p, "Locale")
}

/// The canonical app id named by a ref: the ref's id segment with a known
/// `Sources`/`Debug`/`Locale` suffix component stripped.
pub fn app_id_from_ref(refstring: &str) -> (r: String)
    requires
        slash0(refstring@) < refstring@.len(),
    ensures
        r@ == spec_app_id_from_ref(refstring@),
{
    let (a, b) = ref_id_bounds(refstring);
    let id = refstring.substring_char(a + 1, b);
    let ghost idv = spec_ref_id(refstring@);
    let n = id.unicode_len();

    // find the last '.' of the id segment
    let mut i: usize = n;
    while i > 0 && id.get_char(i - 1) != '.'
        invariant
            n == idv.len(),
            id@ == idv,
            i <= n,
            rfind_before(idv, '.', n as int) == rfind_before(idv, '.', i as int),
        decreases i,
    {
        i -= 1;
    }
    let has_dot = i > 0;
    let dot = if i > 0 {
        i - 1
    } else {
        0
    };
    let ghost d = rfind_before(idv, '.', n as int);
    proof {
        lemma_rfind_before(idv, '.', n as int);
        if has_dot {
            assert(d == dot as int);
        } else {
            assert(d == -1);
        }
    }
    let last = if has_dot {
        id.substring_char(dot + 1, n)
    } else {
        id
    };
    proof {
        assert(last@ =~= idv.subrange(d + 1, idv.len() as int));
    }
    if is_suffix_str(last) {
        if has_dot {
            let r = id.substring_char(0, dot).to_owned();
            proof {
                assert(r@ =~= spec_app_id_from_ref(refstring@));
            }
            r
        } else {
            let r = String::new();
            proof {
                assert(r@ =~= spec_app_id_from_ref(refstring@));
            }
            r
        }
    } else {
        id.to_owned()
    }
}

fn in_skiplist_str(id: &str) -> (r: bool)
    ensures
        r == in_appid_skiplist(id@),
{
    str_eq(id, "net.pcsx2.PCSX2") || str_eq(id, "net.wz2100.wz2100") || str_eq(
        id,
        "org.freedesktop.Platform.ClInfo",
    ) || str_eq(id, "org.freedesktop.Platform.GlxInfo") || str_eq(
        id,
        "org.freedesktop.Platform.VaInfo",
    ) || str_eq(id, "org.freedesktop.Platform.VulkanInfo") || str_eq(
        id,
        "org.mozilla.Thunderbird",
    ) || str_eq(id, "org.mozilla.firefox")
}

/// Whether the ref is a primary ref: an app (as opposed to a
/// Sources/Debug/Locale ref, a runtime, or the branch screenshots are kept
/// in) whose id is not on the skip list.
pub fn is_primary_ref(refstring: &str) -> (r: bool)
    ensures
        r == spec_is_primary_ref(refstring@),
{
    if !str_has_prefix(refstring, "app/") {
        return false;
    }
    proof {
        reveal_strlit("app/");
        lemma_find_from(refstring@, '/', 0);
        assert(refstring@.subrange(0, 4) =~= "app/"@);
        assert(refstring@[0] == refstring@.subrange(0, 4)[0]);
        assert(refstring@[1] == refstring@.subrange(0, 4)[1]);
        assert(refstring@[2] == refstring@.subrange(0, 4)[2]);
        assert(refstring@[3] == refstring@.subrange(0, 4)[3]);
        assert(slash0(refstring@) == 3);
    }
    let (a, b) = ref_id_bounds(refstring);
    let id = refstring.substring_char(a + 1, b);
    proof {
        assert(id@ =~= spec_ref_id(refstring@));
    }
    !in_skiplist_str(id)
}

/// Repository path of the gzip-compressed appstream catalog file of an app.
pub fn get_appstream_path(app_id: &str) -> (r: String)
    ensures
        r@ == "files/share/app-info/xmls/"@ + app_id@ + ".xml.gz"@,
{
    let s = "files/share/app-info/xmls/".to_owned();
    s.concat(app_id).concat(".xml.gz")
}

/// Two raised to a small power; the backend retry delays double.
pub open spec fn pow2(n: nat) -> nat
    decreases n,
{
    if n == 0 {
        1
    } else {
        2 * pow2((n - 1) as nat)
    }
}

/// How many retries a failed backend call is given after its first attempt.
pub const RETRY_COUNT: u32 = 5;

/// The retry schedule for backend calls: after attempt `attempt` failed, the
/// caller waits `wait_secs()` seconds and tries again, up to `RETRY_COUNT`
/// retries, with the waiting time doubling each round.
pub struct RetryPlan {
    pub attempt: u32,
}

impl RetryPlan {
    pub fn initial() -> (r: Self)
        ensures
            r.attempt == 0,
    {
        RetryPlan { attempt: 0 }
    }

    /// The schedule after one more failure, or `None` when the attempts are
    /// exhausted and the last error must be surfaced.
    pub fn next(&self) -> (r: Option<Self>)
        ensures
            self.attempt < RETRY_COUNT ==> (r matches Some(p) && p.attempt == self.attempt + 1),
            self.attempt >= RETRY_COUNT ==> r is None,
    {
        if self.attempt < RETRY_COUNT {
            Some(RetryPlan { attempt: self.attempt + 1 })
        } else {
            None
        }
    }

    /// Seconds to wait before the next attempt: starts at one second and
    /// doubles with every failure.
    pub fn wait_secs(&self) -> (r: u64)
        requires
            self.attempt <= RETRY_COUNT,
        ensures
            r == pow2(self.attempt as nat),
    {
        let mut w: u64 = 1;
        let mut i: u32 = 0;
        while i < self.attempt
            invariant
                i <= self.attempt <= RETRY_COUNT,
                w == pow2(i as nat),
        decreases self.attempt - i,
        {
            proof {
                lemma_pow2_mono((i + 1) as nat, 6);
                reveal_with_fuel(pow2, 7);
                assert(pow2(6) == 64);
            }
            w = w * 2;
            i += 1;
        }
        w
    }
}

proof fn lemma_pow2_pos(n: nat)
    ensures
        pow2(n) >= 1,
    decreases n,
{
    if n > 0 {
        lemma_pow2_pos((n - 1) as nat);
    }
}

proof fn lemma_pow2_mono(n: nat, m: nat)
    requires
        n <= m,
    ensures
        pow2(n) <= pow2(m),
    decreases m,
{
    if n < m {
        lemma_pow2_mono(n, (m - 1) as nat);
        lemma_pow2_pos((m - 1) as nat);
    }
}

} // verus!
