//! The validation battery run on every primary ref of a build: the external
//! linter's verdict, the structure and identity of the metadata files, the
//! icon and screenshot policies, the build-log policy, and the binary
//! architecture scan.  Every check runs independently: one check's failure
//! never short-circuits a sibling check.
//!
//! The caller walks the repository and hands each ref's raw material in a
//! [`RefInput`]; the decisions are made and verified here.

use vstd::prelude::*;
use vstd::utf8::decode_utf8;
use vstd::utf8::encode_utf8;
use vstd::utf8::valid_utf8;

use crate::compress::{gunzip_text, gunzip_to_string};
use crate::config::{BackendError, ValidateConfig};
use crate::diagnostics::{CheckResult, DiagnosticInfo, ValidationDiagnostic};
use crate::job_utils::{spec_ref_log_url, BuildExtended};
use crate::review_files::ScannedFile;
use crate::strutil::{str_eq, str_has_prefix};
use crate::utils::{
    app_id_from_ref, get_appstream_path, is_primary_ref, slash0, slash1, spec_app_id_from_ref,
    spec_is_primary_ref,
};
use crate::xml::{
    lemma_first_with_tag, lemma_xml_view_fields, parse_xml, parsed_xml, spec_attr_lookup,
    spec_count_tag, spec_first_with_tag, XmlElement, XmlNode,
};

verus! {

/// One file of the ref as the caller found it.
pub enum FileRead {
    /// The file is absent.
    Missing,
    /// The file exists but could not be read.
    Unreadable { error: String },
    /// The file's bytes.
    Content { bytes: Vec<u8> },
}

/// What the external validator said: whether it exited successfully, and
/// its captured output, verbatim.
pub struct LinterOutput {
    pub success: bool,
    pub stdout: String,
    pub stderr: String,
}

/// One of the exported metadata file locations of an app, with what the
/// external validator said about it when it was present.
pub struct MetainfoCheck {
    pub path: String,
    pub read: FileRead,
    pub linter: Option<LinterOutput>,
}

/// Everything the caller gathered about one ref.
pub struct RefInput {
    pub refstring: String,
    /// The gzip-compressed catalog file at the app's canonical path.
    pub catalog: FileRead,
    /// The exported metadata file locations, in their canonical order.
    pub metainfo: Vec<MetainfoCheck>,
    /// Whether the fixed-size local icon path exists.
    pub has_local_icon: bool,
    /// The bundle linter's verdict for the ref.
    pub linter: LinterOutput,
    /// The files of the screenshots branch for this ref's architecture, or
    /// `None` when the branch is absent.
    pub screenshots_branch: Option<Vec<String>>,
    /// The regular files sniffed as executables or shared libraries.
    pub executables: Vec<ScannedFile>,
}

/// Whether the `url` crate accepts the string as a URL: a function of the
/// string alone.
pub uninterp spec fn url_parses(s: Seq<char>) -> bool;

/// Relies on `url::Url::parse`: syntactic URL validity, deterministically
/// in the string.
#[verifier::external_body]
pub fn is_valid_url(s: &str) -> (r: bool)
    ensures
        r == url_parses(s@),
{
    url::Url::parse(s).is_ok()
}

/// Relies on `String::from_utf8`: decodes bytes as UTF-8 text, failing
/// exactly on invalid UTF-8.
#[verifier::external_body]
fn bytes_to_string(b: &[u8]) -> (r: Option<String>)
    ensures
        r matches Some(s) ==> encode_utf8(s@) == b@ && valid_utf8(b@),
        r is None ==> !valid_utf8(b@),
{
    match std::string::String::from_utf8(b.to_vec()) {
        Ok(s) => Some(s),
        Err(_) => None,
    }
}

/// The external linter's verdict as diagnostics: nothing on success, and
/// one error carrying the captured output verbatim on failure.
pub open spec fn spec_lint_diags(ds: Seq<ValidationDiagnostic>, l: LinterOutput, refv: Seq<char>) -> bool {
    if l.success {
        ds.len() == 0
    } else {
        &&& ds.len() == 1
        &&& !ds[0].is_warning
        &&& (ds[0].refstring matches Some(s) && s@ == refv)
        &&& (ds[0].info matches DiagnosticInfo::FlatpakBuilderLint { stdout, stderr } && stdout@
            == l.stdout@ && stderr@ == l.stderr@)
    }
}

/// Turns the external linter's verdict into diagnostics.
pub fn lint_diagnostics(l: &LinterOutput, refstring: &str) -> (r: Vec<ValidationDiagnostic>)
    ensures
        spec_lint_diags(r@, *l, refstring@),
{
    let mut ds: Vec<ValidationDiagnostic> = Vec::new();
    if !l.success {
        ds.push(
            ValidationDiagnostic::new(
                DiagnosticInfo::FlatpakBuilderLint {
                    stdout: l.stdout.clone(),
                    stderr: l.stderr.clone(),
                },
                Some(refstring.to_owned()),
            ),
        );
    }
    ds
}

/// The component carries exactly one id element, whose text is the app id
/// named by the ref, optionally with the fixed desktop-entry suffix.
pub open spec fn spec_component_id_ok(c: XmlNode, refv: Seq<char>) -> bool {
    &&& spec_count_tag(c.children, "id"@) == 1
    &&& {
        let i = spec_first_with_tag(c.children, "id"@);
        let expected = spec_app_id_from_ref(refv);
        c.children[i].text == expected || c.children[i].text == expected + ".desktop"@
    }
}

/// Checks the component's identity; zero, duplicate or mismatched ids are
/// rejected with a message.
pub fn check_appstream_component_id(component: &XmlElement, refstring: &str) -> (r: Result<
    (),
    String,
>)
    requires
        slash0(refstring@) < refstring@.len(),
    ensures
        (r is Ok) == spec_component_id_ok(component@, refstring@),
{
    proof {
        lemma_xml_view_fields(*component);
    }
    let count = component.count_children_with_tag("id");
    if count == 0 {
        proof {
            lemma_count_vs_first(component@.children, "id"@);
        }
        return Err("Appstream component does not have an ID".to_owned());
    }
    if count > 1 {
        return Err("Appstream component has multiple IDs".to_owned());
    }
    let i = match component.first_child_with_tag("id") {
        Some(i) => i,
        None => {
            proof {
                lemma_count_vs_first(component@.children, "id"@);
            }
            return Err("Appstream component does not have an ID".to_owned());
        },
    };
    proof {
        lemma_xml_view_fields(component.children@[i as int]);
    }
    let id_text = &component.children[i].text;
    let expected = app_id_from_ref(refstring);
    let with_suffix = expected.clone().concat(".desktop");
    if str_eq(id_text.as_str(), expected.as_str()) || str_eq(
        id_text.as_str(),
        with_suffix.as_str(),
    ) {
        Ok(())
    } else {
        let m = "Appstream component ID (".to_owned().concat(id_text.as_str()).concat(
            ") does not match expected ID (",
        ).concat(expected.as_str()).concat(")");
        Err(m)
    }
}

/// A tag occurs among the children iff a first child with it exists.
proof fn lemma_count_vs_first(cs: Seq<XmlNode>, tag: Seq<char>)
    ensures
        (spec_count_tag(cs, tag) == 0) == (spec_first_with_tag(cs, tag) == -1),
    decreases cs.len(),
{
    if cs.len() > 0 && cs[0].tag != tag {
        lemma_count_vs_first(cs.drop_first(), tag);
        lemma_first_with_tag(cs.drop_first(), tag);
    }
}

/// The component declares an icon element of its own.
pub open spec fn spec_has_icon_child(c: XmlNode) -> bool {
    spec_first_with_tag(c.children, "icon"@) >= 0
}

/// Icon policy diagnostics: nothing when the local icon exists; a warning
/// when only a document-declared icon exists; an error when the app has no
/// icon at all.
pub open spec fn spec_icon_diags(
    ds: Seq<ValidationDiagnostic>,
    c: XmlNode,
    has_local_icon: bool,
    refv: Seq<char>,
) -> bool {
    if has_local_icon {
        ds.len() == 0
    } else {
        &&& ds.len() == 1
        &&& (ds[0].refstring matches Some(s) && s@ == refv)
        &&& (if spec_has_icon_child(c) {
            ds[0].is_warning && ds[0].info is NoLocalIcon
        } else {
            !ds[0].is_warning && ds[0].info is MissingIcon
        })
    }
}

/// Applies the icon policy.
pub fn icon_diagnostics(component: &XmlElement, has_local_icon: bool, refstring: &str) -> (r: Vec<
    ValidationDiagnostic,
>)
    ensures
        spec_icon_diags(r@, component@, has_local_icon, refstring@),
{
    let mut ds: Vec<ValidationDiagnostic> = Vec::new();
    if !has_local_icon {
        match component.first_child_with_tag("icon") {
            Some(_) => {
                ds.push(
                    ValidationDiagnostic::new_warning(
                        DiagnosticInfo::NoLocalIcon,
                        Some(refstring.to_owned()),
                    ),
                );
            },
            None => {
                ds.push(
                    ValidationDiagnostic::new(
                        DiagnosticInfo::MissingIcon,
                        Some(refstring.to_owned()),
                    ),
                );
            },
        }
    }
    ds
}

/// The URL prefix under which screenshots are mirrored.
pub open spec fn spec_mirror_prefix() -> Seq<char> {
    "https://dl.flathub.org/media/"@
}

/// The screenshots-branch view: the branch's files, or `None` when the
/// branch is absent.
pub open spec fn spec_branch_view(b: Option<Vec<String>>) -> Option<Seq<Seq<char>>> {
    match b {
        Some(v) => Some(v.deep_view()),
        None => None,
    }
}

pub open spec fn spec_branch_has(files: Seq<Seq<char>>, p: Seq<char>) -> bool {
    exists|i: int| 0 <= i < files.len() && files[i] == p
}

/// A screenshot's designated source image: tagged `image` with explicit
/// `source` type or no type at all.
pub open spec fn spec_is_source_image(n: XmlNode) -> bool {
    n.tag == "image"@ && (spec_attr_lookup(n.attrs, "type"@) is None || spec_attr_lookup(
        n.attrs,
        "type"@,
    ) == Some("source"@))
}

/// A thumbnail image of a screenshot.
pub open spec fn spec_is_thumbnail_image(n: XmlNode) -> bool {
    n.tag == "image"@ && spec_attr_lookup(n.attrs, "type"@) == Some("thumbnail"@)
}

fn is_source_image(e: &XmlElement) -> (r: bool)
    ensures
        r == spec_is_source_image(e@),
{
    proof {
        lemma_xml_view_fields(*e);
    }
    if !str_eq(e.tag.as_str(), "image") {
        return false;
    }
    match e.get_attr("type") {
        None => true,
        Some(t) => str_eq(t.as_str(), "source"),
    }
}

fn is_thumbnail_image(e: &XmlElement) -> (r: bool)
    ensures
        r == spec_is_thumbnail_image(e@),
{
    proof {
        lemma_xml_view_fields(*e);
    }
    if !str_eq(e.tag.as_str(), "image") {
        return false;
    }
    match e.get_attr("type") {
        None => false,
        Some(t) => str_eq(t.as_str(), "thumbnail"),
    }
}

/// A thumbnail URL is rejected when it does not point at the mirror, the
/// screenshots branch is absent, or the mirrored file is not in the branch.
pub open spec fn spec_thumb_bad(url: Seq<char>, branch: Option<Seq<Seq<char>>>) -> bool {
    if !spec_mirror_prefix().is_prefix_of(url) {
        true
    } else {
        match branch {
            None => true,
            Some(files) => !spec_branch_has(files, url.skip(spec_mirror_prefix().len() as int)),
        }
    }
}

/// The exact diagnostic owed to a rejected thumbnail URL.
pub open spec fn spec_thumb_diag(
    d: ValidationDiagnostic,
    url: Seq<char>,
    branch: Option<Seq<Seq<char>>>,
    archv: Seq<char>,
    refv: Seq<char>,
) -> bool {
    &&& !d.is_warning
    &&& (d.refstring matches Some(s) && s@ == refv)
    &&& (if !spec_mirror_prefix().is_prefix_of(url) {
        d.info matches DiagnosticInfo::ScreenshotNotMirrored { url: u } && u@ == url
    } else {
        match branch {
            None => d.info matches DiagnosticInfo::MissingScreenshotBranch { arch } && arch@
                == archv,
            Some(_) => d.info matches DiagnosticInfo::MirroredScreenshotNotFound { url: u } && u@
                == url,
        }
    })
}

fn branch_contains(files: &Vec<String>, p: &str) -> (r: bool)
    ensures
        r == spec_branch_has(files.deep_view(), p@),
{
    let n = files.len();
    let mut i: usize = 0;
    while i < n
        invariant
            n == files@.len(),
            i <= n,
            forall|j: int| 0 <= j < i ==> files.deep_view()[j] != p@,
        decreases n - i,
    {
        if str_eq(files[i].as_str(), p) {
            proof {
                assert(files.deep_view()[i as int] == p@);
            }
            return true;
        }
        proof {
            assert(files.deep_view()[i as int] == files@[i as int]@);
        }
        i += 1;
    }
    false
}

/// Judges one thumbnail URL against the mirror and the screenshots branch.
pub fn thumbnail_diagnostic(url: &str, branch: &Option<Vec<String>>, arch: &str, refstring: &str) -> (r:
    Option<ValidationDiagnostic>)
    ensures
        if spec_thumb_bad(url@, spec_branch_view(*branch)) {
            r matches Some(d) && spec_thumb_diag(
                d,
                url@,
                spec_branch_view(*branch),
                arch@,
                refstring@,
            )
        } else {
            r is None
        },
{
    let prefix = "https://dl.flathub.org/media/";
    if !str_has_prefix(url, prefix) {
        return Some(
            ValidationDiagnostic::new(
                DiagnosticInfo::ScreenshotNotMirrored { url: url.to_owned() },
                Some(refstring.to_owned()),
            ),
        );
    }
    match branch {
        None => Some(
            ValidationDiagnostic::new(
                DiagnosticInfo::MissingScreenshotBranch { arch: arch.to_owned() },
                Some(refstring.to_owned()),
            ),
        ),
        Some(files) => {
            let plen = prefix.unicode_len();
            let ulen = url.unicode_len();
            let rem = url.substring_char(plen, ulen);
            proof {
                assert(rem@ =~= url@.skip(spec_mirror_prefix().len() as int));
            }
            if branch_contains(files, rem) {
                None
            } else {
                Some(
                    ValidationDiagnostic::new(
                        DiagnosticInfo::MirroredScreenshotNotFound { url: url.to_owned() },
                        Some(refstring.to_owned()),
                    ),
                )
            }
        },
    }
}

/// Index of the first thumbnail image among the children, or `-1`.
pub open spec fn spec_first_thumb(cs: Seq<XmlNode>) -> int
    decreases cs.len(),
{
    if cs.len() == 0 {
        -1
    } else if spec_is_thumbnail_image(cs[0]) {
        0
    } else {
        let r = spec_first_thumb(cs.drop_first());
        if r == -1 {
            -1
        } else {
            r + 1
        }
    }
}

proof fn lemma_first_thumb(cs: Seq<XmlNode>)
    ensures
        -1 <= spec_first_thumb(cs) < cs.len(),
        spec_first_thumb(cs) >= 0 ==> spec_is_thumbnail_image(cs[spec_first_thumb(cs)]),
        forall|j: int| 0 <= j < spec_first_thumb(cs) ==> !spec_is_thumbnail_image(cs[j]),
        spec_first_thumb(cs) == -1 ==> forall|j: int|
            0 <= j < cs.len() ==> !spec_is_thumbnail_image(cs[j]),
    decreases cs.len(),
{
    if cs.len() > 0 && !spec_is_thumbnail_image(cs[0]) {
        lemma_first_thumb(cs.drop_first());
        assert forall|j: int| 0 < j < cs.len() implies cs[j] == cs.drop_first()[j - 1] by {}
        if spec_first_thumb(cs) >= 0 {
            assert(cs[spec_first_thumb(cs)] == cs.drop_first()[spec_first_thumb(cs.drop_first())]);
        }
    }
}

/// Index of the first source image among the children, or `-1`.
pub open spec fn spec_first_source(cs: Seq<XmlNode>) -> int
    decreases cs.len(),
{
    if cs.len() == 0 {
        -1
    } else if spec_is_source_image(cs[0]) {
        0
    } else {
        let r = spec_first_source(cs.drop_first());
        if r == -1 {
            -1
        } else {
            r + 1
        }
    }
}

proof fn lemma_first_source(cs: Seq<XmlNode>)
    ensures
        -1 <= spec_first_source(cs) < cs.len(),
        spec_first_source(cs) >= 0 ==> spec_is_source_image(cs[spec_first_source(cs)]),
        forall|j: int| 0 <= j < spec_first_source(cs) ==> !spec_is_source_image(cs[j]),
        spec_first_source(cs) == -1 ==> forall|j: int|
            0 <= j < cs.len() ==> !spec_is_source_image(cs[j]),
    decreases cs.len(),
{
    if cs.len() > 0 && !spec_is_source_image(cs[0]) {
        lemma_first_source(cs.drop_first());
        assert forall|j: int| 0 < j < cs.len() implies cs[j] == cs.drop_first()[j - 1] by {}
        if spec_first_source(cs) >= 0 {
            assert(cs[spec_first_source(cs)] == cs.drop_first()[spec_first_source(
                cs.drop_first(),
            )]);
        }
    }
}

/// The thumbnails among the children that the mirror check rejects, in
/// order.
pub open spec fn spec_bad_thumbs(cs: Seq<XmlNode>, branch: Option<Seq<Seq<char>>>) -> Seq<XmlNode>
    decreases cs.len(),
{
    if cs.len() == 0 {
        Seq::empty()
    } else {
        (if spec_is_thumbnail_image(cs[0]) && spec_thumb_bad(cs[0].text, branch) {
            seq![cs[0]]
        } else {
            Seq::empty()
        }) + spec_bad_thumbs(cs.drop_first(), branch)
    }
}

/// The diagnostics owed to one screenshot: without any thumbnail its
/// source URL is recorded as unmirrored; otherwise each rejected thumbnail
/// URL is reported, in order.
pub open spec fn spec_shot_diags(
    ds: Seq<ValidationDiagnostic>,
    shot: XmlNode,
    branch: Option<Seq<Seq<char>>>,
    archv: Seq<char>,
    refv: Seq<char>,
) -> bool {
    if spec_first_thumb(shot.children) == -1 {
        let si = spec_first_source(shot.children);
        if si == -1 {
            ds.len() == 0
        } else {
            &&& ds.len() == 1
            &&& !ds[0].is_warning
            &&& (ds[0].refstring matches Some(s) && s@ == refv)
            &&& (ds[0].info matches DiagnosticInfo::ScreenshotNotMirrored { url } && url@
                == shot.children[si].text)
        }
    } else {
        let bad = spec_bad_thumbs(shot.children, branch);
        &&& ds.len() == bad.len()
        &&& forall|j: int|
            0 <= j < ds.len() ==> spec_thumb_diag(#[trigger] ds[j], bad[j].text, branch, archv, refv)
    }
}


fn find_first_thumbnail(shot: &XmlElement) -> (r: Option<usize>)
    ensures
        match r {
            Some(i) => spec_first_thumb(shot@.children) == i as int,
            None => spec_first_thumb(shot@.children) == -1,
        },
{
    proof {
        lemma_xml_view_fields(*shot);
    }
    let n = shot.children.len();
    let mut i: usize = 0;
    while i < n
        invariant
            n == shot.children@.len(),
            n == shot@.children.len(),
            i <= n,
            forall|j: int| 0 <= j < n ==> #[trigger] shot@.children[j] == shot.children@[j]@,
            forall|j: int| 0 <= j < i ==> !spec_is_thumbnail_image(shot@.children[j]),
        decreases n - i,
    {
        if is_thumbnail_image(&shot.children[i]) {
            proof {
                assert(spec_is_thumbnail_image(shot@.children[i as int]));
                lemma_first_thumb(shot@.children);
                if spec_first_thumb(shot@.children) != i as int {
                    assert(false);
                }
            }
            return Some(i);
        }
        i += 1;
    }
    proof {
        lemma_first_thumb(shot@.children);
        if spec_first_thumb(shot@.children) >= 0 {
            assert(false);
        }
    }
    None
}

fn find_first_source(shot: &XmlElement) -> (r: Option<usize>)
    ensures
        match r {
            Some(i) => spec_first_source(shot@.children) == i as int && i < shot.children@.len(),
            None => spec_first_source(shot@.children) == -1,
        },
{
    proof {
        lemma_xml_view_fields(*shot);
    }
    let n = shot.children.len();
    let mut i: usize = 0;
    while i < n
        invariant
            n == shot.children@.len(),
            n == shot@.children.len(),
            i <= n,
            forall|j: int| 0 <= j < n ==> #[trigger] shot@.children[j] == shot.children@[j]@,
            forall|j: int| 0 <= j < i ==> !spec_is_source_image(shot@.children[j]),
        decreases n - i,
    {
        if is_source_image(&shot.children[i]) {
            proof {
                assert(spec_is_source_image(shot@.children[i as int]));
                lemma_first_source(shot@.children);
                if spec_first_source(shot@.children) != i as int {
                    assert(false);
                }
            }
            return Some(i);
        }
        i += 1;
    }
    proof {
        lemma_first_source(shot@.children);
        if spec_first_source(shot@.children) >= 0 {
            assert(false);
        }
    }
    None
}

/// Checks the mirroring of one screenshot.
pub fn screenshot_diagnostics(
    shot: &XmlElement,
    branch: &Option<Vec<String>>,
    arch: &str,
    refstring: &str,
) -> (r: Vec<ValidationDiagnostic>)
    ensures
        spec_shot_diags(r@, shot@, spec_branch_view(*branch), arch@, refstring@),
{
    proof {
        lemma_xml_view_fields(*shot);
    }
    let ghost branchv = spec_branch_view(*branch);
    let n = shot.children.len();
    if find_first_thumbnail(shot).is_none() {
        // no thumbnail at all: record the source URL as unmirrored
        let mut ds: Vec<ValidationDiagnostic> = Vec::new();
        match find_first_source(shot) {
            Some(si) => {
                proof {
                    lemma_xml_view_fields(shot.children@[si as int]);
                }
                ds.push(
                    ValidationDiagnostic::new(
                        DiagnosticInfo::ScreenshotNotMirrored {
                            url: shot.children[si].text.clone(),
                        },
                        Some(refstring.to_owned()),
                    ),
                );
            },
            None => {},
        }
        return ds;
    }
    // thumbnails exist: judge each one
    proof {
        assert(shot@.children.skip(0) =~= shot@.children);
    }
    let mut ds: Vec<ValidationDiagnostic> = Vec::new();
    let ghost mut bad: Seq<XmlNode> = Seq::empty();
    let mut k: usize = 0;
    while k < n
        invariant
            n == shot.children@.len(),
            n == shot@.children.len(),
            k <= n,
            branchv == spec_branch_view(*branch),
            arch@ == arch@,
            forall|j: int| 0 <= j < n ==> #[trigger] shot@.children[j] == shot.children@[j]@,
            ds@.len() == bad.len(),
            spec_bad_thumbs(shot@.children, branchv) == bad + spec_bad_thumbs(
                shot@.children.skip(k as int),
                branchv,
            ),
            forall|j: int|
                0 <= j < ds@.len() ==> spec_thumb_diag(
                    #[trigger] ds@[j],
                    bad[j].text,
                    branchv,
                    arch@,
                    refstring@,
                ),
        decreases n - k,
    {
        proof {
            assert(shot@.children.skip(k as int)[0] == shot@.children[k as int]);
            assert(shot@.children.skip(k as int).drop_first() =~= shot@.children.skip(k as int + 1));
            lemma_xml_view_fields(shot.children@[k as int]);
        }
        let c = &shot.children[k];
        if is_thumbnail_image(c) {
            match thumbnail_diagnostic(c.text.as_str(), branch, arch, refstring) {
                Some(d) => {
                    ds.push(d);
                    proof {
                        bad = bad.push(shot@.children[k as int]);
                        assert(bad + spec_bad_thumbs(shot@.children.skip(k as int + 1), branchv)
                            =~= bad.drop_last() + spec_bad_thumbs(
                            shot@.children.skip(k as int),
                            branchv,
                        ));
                    }
                },
                None => {
                    proof {
                        assert(bad + spec_bad_thumbs(shot@.children.skip(k as int + 1), branchv)
                            =~= bad + spec_bad_thumbs(shot@.children.skip(k as int), branchv));
                    }
                },
            }
        } else {
            proof {
                assert(bad + spec_bad_thumbs(shot@.children.skip(k as int + 1), branchv) =~= bad
                    + spec_bad_thumbs(shot@.children.skip(k as int), branchv));
            }
        }
        k += 1;
    }
    proof {
        assert(shot@.children.skip(n as int).len() == 0);
        assert(spec_bad_thumbs(shot@.children, branchv) =~= bad);
        lemma_first_thumb(shot@.children);
    }
    ds
}

/// Whether `ds` holds, in order, exactly the screenshot diagnostics of the
/// first `upto` children of the screenshots container.
pub open spec fn spec_shots_diags_prefix(
    ds: Seq<ValidationDiagnostic>,
    cs: Seq<XmlNode>,
    upto: int,
    branch: Option<Seq<Seq<char>>>,
    archv: Seq<char>,
    refv: Seq<char>,
) -> bool
    decreases upto,
{
    if upto <= 0 {
        ds.len() == 0
    } else if cs[upto - 1].tag != "screenshot"@ {
        spec_shots_diags_prefix(ds, cs, upto - 1, branch, archv, refv)
    } else {
        exists|k: int|
            0 <= k <= ds.len() && spec_shots_diags_prefix(
                ds.take(k),
                cs,
                upto - 1,
                branch,
                archv,
                refv,
            ) && spec_shot_diags(ds.skip(k), cs[upto - 1], branch, archv, refv)
    }
}

/// Checks the mirroring of every screenshot declared by the component (in
/// its first `screenshots` container).
pub fn screenshots_diagnostics(
    component: &XmlElement,
    branch: &Option<Vec<String>>,
    arch: &str,
    refstring: &str,
) -> (r: Vec<ValidationDiagnostic>)
    ensures
        ({
            let ci = spec_first_with_tag(component@.children, "screenshots"@);
            if ci == -1 {
                r@.len() == 0
            } else {
                spec_shots_diags_prefix(
                    r@,
                    component@.children[ci].children,
                    component@.children[ci].children.len() as int,
                    spec_branch_view(*branch),
                    arch@,
                    refstring@,
                )
            }
        }),
{
    proof {
        lemma_xml_view_fields(*component);
    }
    let ghost branchv = spec_branch_view(*branch);
    let container_idx = match component.first_child_with_tag("screenshots") {
        Some(i) => i,
        None => {
            return Vec::new();
        },
    };
    let container = &component.children[container_idx];
    proof {
        lemma_xml_view_fields(*container);
    }
    let ghost csv = component@.children[container_idx as int].children;
    let n = container.children.len();
    let mut ds: Vec<ValidationDiagnostic> = Vec::new();
    let mut i: usize = 0;
    while i < n
        invariant
            n == container.children@.len(),
            n == csv.len(),
            i <= n,
            branchv == spec_branch_view(*branch),
            forall|j: int| 0 <= j < n ==> #[trigger] csv[j] == container.children@[j]@,
            spec_shots_diags_prefix(ds@, csv, i as int, branchv, arch@, refstring@),
        decreases n - i,
    {
        proof {
            lemma_xml_view_fields(container.children@[i as int]);
        }
        let c = &container.children[i];
        if str_eq(c.tag.as_str(), "screenshot") {
            let mut group = screenshot_diagnostics(c, branch, arch, refstring);
            let ghost before = ds@;
            let ghost groupv = group@;
            ds.append(&mut group);
            proof {
                let k = before.len() as int;
                assert(ds@.take(k) =~= before);
                assert(ds@.skip(k) =~= groupv);
                assert(spec_shots_diags_prefix(ds@, csv, i as int + 1, branchv, arch@, refstring@));
            }
        }
        i += 1;
    }
    ds
}

/// The repository path of the catalog file the diagnostics name.
pub open spec fn spec_catalog_path(refv: Seq<char>) -> Seq<char> {
    "files/share/app-info/xmls/"@ + spec_app_id_from_ref(refv) + ".xml.gz"@
}

/// An error-severity load failure naming `path`.
pub open spec fn spec_load_failure_at(
    d: ValidationDiagnostic,
    pathv: Seq<char>,
    refv: Seq<char>,
) -> bool {
    &&& !d.is_warning
    &&& (d.refstring matches Some(s) && s@ == refv)
    &&& (d.info matches DiagnosticInfo::FailedToLoadAppstream { path, error: _ } && path@ == pathv)
}

/// An error-severity load failure naming `path`, with its message.
pub open spec fn spec_load_failure_msg(
    d: ValidationDiagnostic,
    pathv: Seq<char>,
    errv: Seq<char>,
    refv: Seq<char>,
) -> bool {
    &&& spec_load_failure_at(d, pathv, refv)
    &&& (d.info matches DiagnosticInfo::FailedToLoadAppstream { path: _, error } && error@ == errv)
}

/// Component-identity diagnostics: nothing when the identity is right, one
/// load-failure naming the file otherwise.
pub open spec fn spec_id_diags(
    ds: Seq<ValidationDiagnostic>,
    comp: XmlNode,
    pathv: Seq<char>,
    refv: Seq<char>,
) -> bool {
    if spec_component_id_ok(comp, refv) {
        ds.len() == 0
    } else {
        ds.len() == 1 && spec_load_failure_at(ds[0], pathv, refv)
    }
}

/// Screenshot diagnostics of the component: those of every screenshot of
/// its first `screenshots` container, in order.
pub open spec fn spec_shots_seg(
    ds: Seq<ValidationDiagnostic>,
    comp: XmlNode,
    branch: Option<Seq<Seq<char>>>,
    refv: Seq<char>,
) -> bool {
    let ci = spec_first_with_tag(comp.children, "screenshots"@);
    if ci == -1 {
        ds.len() == 0
    } else {
        spec_shots_diags_prefix(
            ds,
            comp.children[ci].children,
            comp.children[ci].children.len() as int,
            branch,
            crate::utils::spec_arch_from_ref(refv),
            refv,
        )
    }
}

/// The build log URL that applies to the ref: its own recorded URL first,
/// the build-wide URL as the fallback.
pub open spec fn spec_selected_log_url(build: BuildExtended, refv: Seq<char>) -> Option<Seq<char>> {
    match spec_ref_log_url(build, refv) {
        Some(u) => Some(u),
        None => match build.build.build_log_url {
            Some(u) => Some(u@),
            None => None,
        },
    }
}

/// The ref lacks a syntactically valid build log URL.
pub open spec fn spec_log_bad(build: BuildExtended, refv: Seq<char>) -> bool {
    match spec_selected_log_url(build, refv) {
        None => true,
        Some(u) => !url_parses(u),
    }
}

/// Build-log policy: a free-software app must carry a syntactically valid
/// build log URL; the policy does not apply to other apps.
pub open spec fn spec_log_diags(
    ds: Seq<ValidationDiagnostic>,
    build: BuildExtended,
    refv: Seq<char>,
    is_free: bool,
) -> bool {
    if is_free && spec_log_bad(build, refv) {
        &&& ds.len() == 1
        &&& !ds[0].is_warning
        &&& (ds[0].refstring matches Some(s) && s@ == refv)
        &&& ds[0].info is MissingBuildLogUrl
    } else {
        ds.len() == 0
    }
}

/// The checks run on the single catalog component, in order: identity,
/// icon policy, screenshot mirroring, build-log policy.  `is_free` is what
/// the backend answered.
pub open spec fn spec_component_checks(
    ds: Seq<ValidationDiagnostic>,
    comp: XmlNode,
    has_local_icon: bool,
    branch: Option<Seq<Seq<char>>>,
    build: BuildExtended,
    refv: Seq<char>,
    is_free: bool,
) -> bool {
    let k1: int = if spec_component_id_ok(comp, refv) {
        0
    } else {
        1
    };
    let k2: int = k1 + (if has_local_icon {
        0int
    } else {
        1int
    });
    let klog: int = if is_free && spec_log_bad(build, refv) {
        1
    } else {
        0
    };
    let k3: int = ds.len() - klog;
    &&& k2 <= k3
    &&& spec_id_diags(ds.take(k1), comp, spec_catalog_path(refv), refv)
    &&& spec_icon_diags(ds.subrange(k1, k2), comp, has_local_icon, refv)
    &&& spec_shots_seg(ds.subrange(k2, k3), comp, branch, refv)
    &&& spec_log_diags(ds.skip(k3), build, refv, is_free)
}

/// The diagnostics of the catalog-file validation: a single load failure
/// when the file cannot be loaded or is not structured as the one-component
/// catalog, and the component checks otherwise.  `is_free` is what the
/// backend answered when it was asked.
pub open spec fn spec_catalog_diags(
    ds: Seq<ValidationDiagnostic>,
    catalog: FileRead,
    has_local_icon: bool,
    branch: Option<Seq<Seq<char>>>,
    build: BuildExtended,
    refv: Seq<char>,
    is_free: bool,
) -> bool {
    let pathv = spec_catalog_path(refv);
    match catalog {
        FileRead::Missing => ds.len() == 1 && spec_load_failure_msg(
            ds[0],
            pathv,
            "File does not exist"@,
            refv,
        ),
        FileRead::Unreadable { error } => ds.len() == 1 && spec_load_failure_msg(
            ds[0],
            pathv,
            error@,
            refv,
        ),
        FileRead::Content { bytes } => match gunzip_text(bytes@) {
            None => ds.len() == 1 && spec_load_failure_msg(
                ds[0],
                pathv,
                "failed to decompress appstream file"@,
                refv,
            ),
            Some(text) => match parsed_xml(text) {
                None => ds.len() == 1 && spec_load_failure_msg(
                    ds[0],
                    pathv,
                    "failed to parse appstream file"@,
                    refv,
                ),
                Some(root) => {
                    if root.tag != "components"@ {
                        ds.len() == 1 && spec_load_failure_msg(
                            ds[0],
                            pathv,
                            "Expected <components>, not <"@ + root.tag + ">"@,
                            refv,
                        )
                    } else if spec_count_tag(root.children, "component"@) == 0 {
                        ds.len() == 1 && spec_load_failure_msg(
                            ds[0],
                            pathv,
                            "Expected exactly one <component>, found none"@,
                            refv,
                        )
                    } else if spec_count_tag(root.children, "component"@) != 1 {
                        ds.len() == 1 && spec_load_failure_msg(
                            ds[0],
                            pathv,
                            "Expected exactly one <component>, found multiple"@,
                            refv,
                        )
                    } else {
                        spec_component_checks(
                            ds,
                            root.children[spec_first_with_tag(root.children, "component"@)],
                            has_local_icon,
                            branch,
                            build,
                            refv,
                            is_free,
                        )
                    }
                },
            },
        },
    }
}

/// Whether the catalog file loads as the expected one-component document:
/// only then does the validation go on to the component checks (and only
/// then is the backend consulted for the build-log policy).
pub open spec fn spec_catalog_loads(catalog: FileRead) -> bool {
    match catalog {
        FileRead::Content { bytes } => match gunzip_text(bytes@) {
            Some(text) => match parsed_xml(text) {
                Some(root) => root.tag == "components"@ && spec_count_tag(
                    root.children,
                    "component"@,
                ) == 1,
                None => false,
            },
            None => false,
        },
        _ => false,
    }
}

fn single_load_failure(path: &str, error: &str, refstring: &str) -> (r: Vec<ValidationDiagnostic>)
    ensures
        r@.len() == 1,
        spec_load_failure_msg(r@[0], path@, error@, refstring@),
{
    let mut ds: Vec<ValidationDiagnostic> = Vec::new();
    ds.push(ValidationDiagnostic::new_failed_to_load_appstream(path, error, refstring));
    ds
}

/// Validates the catalog file that software centers read: loads and parses
/// it, requires exactly one component, and runs the identity, icon,
/// screenshot and build-log checks on it.  Checks run independently; all
/// their diagnostics are returned together.
pub fn validate_appstream_catalog_file<C: ValidateConfig>(
    config: &C,
    build: &BuildExtended,
    catalog: &FileRead,
    has_local_icon: bool,
    screenshots_branch: &Option<Vec<String>>,
    refstring: &str,
) -> (r: Result<Vec<ValidationDiagnostic>, BackendError>)
    requires
        slash0(refstring@) < refstring@.len(),
        slash1(refstring@) < refstring@.len(),
    ensures
        r matches Ok(ds) ==> {
            ||| spec_catalog_diags(
                ds@,
                *catalog,
                has_local_icon,
                spec_branch_view(*screenshots_branch),
                *build,
                refstring@,
                true,
            )
            ||| spec_catalog_diags(
                ds@,
                *catalog,
                has_local_icon,
                spec_branch_view(*screenshots_branch),
                *build,
                refstring@,
                false,
            )
        },
        !spec_catalog_loads(*catalog) ==> r is Ok,
{
    let app_id = app_id_from_ref(refstring);
    let appstream_path = get_appstream_path(app_id.as_str());
    let ghost pathv = spec_catalog_path(refstring@);
    proof {
        assert(appstream_path@ == pathv);
    }
    let ghost branchv = spec_branch_view(*screenshots_branch);
    let bytes = match catalog {
        FileRead::Missing => {
            let v = single_load_failure(appstream_path.as_str(), "File does not exist", refstring);
            proof {
                assert(spec_catalog_diags(v@, *catalog, has_local_icon, branchv, *build, refstring@, true));
            }
            return Ok(v);
        },
        FileRead::Unreadable { error } => {
            let v = single_load_failure(appstream_path.as_str(), error.as_str(), refstring);
            proof {
                assert(spec_catalog_diags(v@, *catalog, has_local_icon, branchv, *build, refstring@, true));
            }
            return Ok(v);
        },
        FileRead::Content { bytes } => bytes,
    };
    let text = match gunzip_to_string(bytes.as_slice()) {
        Some(t) => t,
        None => {
            let v = single_load_failure(appstream_path.as_str(), "failed to decompress appstream file", refstring);
            proof {
                assert(spec_catalog_diags(v@, *catalog, has_local_icon, branchv, *build, refstring@, true));
            }
            return Ok(v);
        },
    };
    let root = match parse_xml(text.as_str()) {
        Ok(x) => x,
        Err(_) => {
            let v = single_load_failure(appstream_path.as_str(), "failed to parse appstream file", refstring);
            proof {
                assert(spec_catalog_diags(v@, *catalog, has_local_icon, branchv, *build, refstring@, true));
            }
            return Ok(v);
        },
    };
    proof {
        lemma_xml_view_fields(root);
    }
    if !str_eq(root.tag.as_str(), "components") {
        let m = "Expected <components>, not <".to_owned().concat(root.tag.as_str()).concat(">");
        let v = single_load_failure(appstream_path.as_str(), m.as_str(), refstring);
        proof {
            assert(spec_catalog_diags(v@, *catalog, has_local_icon, branchv, *build, refstring@, true));
        }
        return Ok(v);
    }
    let count = root.count_children_with_tag("component");
    if count == 0 {
        let v = single_load_failure(appstream_path.as_str(), "Expected exactly one <component>, found none", refstring);
        proof {
            assert(spec_catalog_diags(v@, *catalog, has_local_icon, branchv, *build, refstring@, true));
        }
        return Ok(v);
    }
    if count > 1 {
        let v = single_load_failure(appstream_path.as_str(), "Expected exactly one <component>, found multiple", refstring);
        proof {
            assert(spec_catalog_diags(v@, *catalog, has_local_icon, branchv, *build, refstring@, true));
        }
        return Ok(v);
    }
    let ci = match root.first_child_with_tag("component") {
        Some(i) => i,
        None => {
            proof {
                lemma_count_vs_first(root@.children, "component"@);
            }
            let v = single_load_failure(
                appstream_path.as_str(),
                "Expected exactly one <component>, found none",
                refstring,
            );
            proof {
                assert(spec_catalog_diags(v@, *catalog, has_local_icon, branchv, *build, refstring@, true));
            }
            return Ok(v);
        },
    };
    let component = &root.children[ci];
    proof {
        assert(component@ == root@.children[ci as int]);
    }

    let mut ds: Vec<ValidationDiagnostic> = Vec::new();
    match check_appstream_component_id(component, refstring) {
        Ok(_) => {},
        Err(m) => {
            ds.push(
                ValidationDiagnostic::new_failed_to_load_appstream(
                    appstream_path.as_str(),
                    m.as_str(),
                    refstring,
                ),
            );
        },
    }
    let ghost k1 = ds@.len() as int;

    let mut icon_ds = icon_diagnostics(component, has_local_icon, refstring);
    let ghost icon_v = icon_ds@;
    ds.append(&mut icon_ds);
    let ghost k2 = ds@.len() as int;

    let arch = crate::utils::arch_from_ref(refstring);
    let mut shot_ds = screenshots_diagnostics(
        component,
        screenshots_branch,
        arch.as_str(),
        refstring,
    );
    let ghost shots_v = shot_ds@;
    ds.append(&mut shot_ds);
    let ghost k3 = ds@.len() as int;

    let license = crate::moderation::child_text(component, "project_license");
    let license_ref = match &license {
        Some(s) => Some(s.as_str()),
        None => None,
    };
    let is_free = match config.get_is_free_software(app_id.as_str(), license_ref) {
        Ok(b) => b,
        Err(e) => {
            proof {
                assert(spec_catalog_loads(*catalog));
            }
            return Err(e);
        },
    };
    if is_free {
        let url = match build.ref_log_url(refstring) {
            Some(u) => Some(u),
            None => match &build.build.build_log_url {
                Some(u) => Some(u),
                None => None,
            },
        };
        let bad = match url {
            None => true,
            Some(u) => !is_valid_url(u.as_str()),
        };
        if bad {
            ds.push(
                ValidationDiagnostic::new(
                    DiagnosticInfo::MissingBuildLogUrl,
                    Some(refstring.to_owned()),
                ),
            );
        }
    }
    proof {
        let dv = ds@;
        assert(dv.take(k1) =~= dv.take(k1));
        assert(spec_id_diags(dv.take(k1), component@, pathv, refstring@)) by {
            if k1 == 0 {
                assert(dv.take(k1).len() == 0);
            } else {
                assert(dv.take(k1)[0] == dv[0]);
            }
        }
        assert(dv.subrange(k1, k2) =~= icon_v);
        assert(dv.subrange(k2, k3) =~= shots_v);
        assert(spec_log_diags(dv.skip(k3), *build, refstring@, is_free)) by {
            if dv.len() > k3 {
                assert(dv.skip(k3)[0] == dv[k3]);
                assert(dv.skip(k3).len() == 1);
            } else {
                assert(dv.skip(k3).len() == 0);
            }
        }
        assert(spec_component_checks(
            dv,
            component@,
            has_local_icon,
            branchv,
            *build,
            refstring@,
            is_free,
        ));
        assert(spec_catalog_diags(
            dv,
            *catalog,
            has_local_icon,
            branchv,
            *build,
            refstring@,
            is_free,
        ));
    }
    Ok(ds)
}

/// The number of diagnostics one exported metadata file location yields.
pub open spec fn spec_metainfo_len(m: MetainfoCheck, refv: Seq<char>) -> int {
    match m.read {
        FileRead::Missing => 0,
        FileRead::Unreadable { .. } => 1,
        FileRead::Content { bytes } => {
            if !valid_utf8(bytes@) {
                1
            } else {
                match parsed_xml(decode_utf8(bytes@)) {
                    None => 1,
                    Some(root) => (if m.linter matches Some(l) && !l.success {
                        1int
                    } else {
                        0int
                    }) + (if spec_component_id_ok(root, refv) {
                        0int
                    } else {
                        1int
                    }),
                }
            }
        },
    }
}

/// The diagnostics of one exported metadata file location: absence is
/// fine; an unreadable or unparseable file is a load failure; a present
/// file gets the external validator's verdict and the identity check.
pub open spec fn spec_metainfo_diags(
    ds: Seq<ValidationDiagnostic>,
    m: MetainfoCheck,
    refv: Seq<char>,
) -> bool {
    match m.read {
        FileRead::Missing => ds.len() == 0,
        FileRead::Unreadable { error } => ds.len() == 1 && spec_load_failure_msg(
            ds[0],
            m.path@,
            error@,
            refv,
        ),
        FileRead::Content { bytes } => {
            if !valid_utf8(bytes@) {
                ds.len() == 1 && spec_load_failure_msg(
                    ds[0],
                    m.path@,
                    "file is not valid UTF-8"@,
                    refv,
                )
            } else {
                match parsed_xml(decode_utf8(bytes@)) {
                    None => ds.len() == 1 && spec_load_failure_msg(
                        ds[0],
                        m.path@,
                        "failed to parse appstream file"@,
                        refv,
                    ),
                    Some(root) => {
                        let klint: int = if m.linter matches Some(l) && !l.success {
                            1
                        } else {
                            0
                        };
                        &&& ds.len() >= klint
                        &&& (match m.linter {
                            Some(l) => spec_lint_diags(ds.take(klint), l, refv),
                            None => klint == 0,
                        })
                        &&& spec_id_diags(ds.skip(klint), root, m.path@, refv)
                    },
                }
            }
        },
    }
}

/// One exported metadata file location, checked.
pub fn validate_metainfo_file(m: &MetainfoCheck, refstring: &str) -> (r: Vec<ValidationDiagnostic>)
    requires
        slash0(refstring@) < refstring@.len(),
    ensures
        spec_metainfo_diags(r@, *m, refstring@),
        r@.len() == spec_metainfo_len(*m, refstring@),
{
    let bytes = match &m.read {
        FileRead::Missing => {
            return Vec::new();
        },
        FileRead::Unreadable { error } => {
            return single_load_failure(m.path.as_str(), error.as_str(), refstring);
        },
        FileRead::Content { bytes } => bytes,
    };
    let text = match bytes_to_string(bytes.as_slice()) {
        Some(t) => t,
        None => {
            return single_load_failure(m.path.as_str(), "file is not valid UTF-8", refstring);
        },
    };
    proof {
        vstd::utf8::encode_utf8_decode_utf8(text@);
        assert(text@ == decode_utf8(bytes@));
    }
    let root = match parse_xml(text.as_str()) {
        Ok(x) => x,
        Err(_) => {
            return single_load_failure(m.path.as_str(), "failed to parse appstream file", refstring);
        },
    };
    let mut ds: Vec<ValidationDiagnostic> = Vec::new();
    match &m.linter {
        Some(l) => {
            let mut lds = lint_diagnostics(l, refstring);
            ds.append(&mut lds);
        },
        None => {},
    }
    let ghost klint = ds@.len() as int;
    match check_appstream_component_id(&root, refstring) {
        Ok(_) => {},
        Err(msg) => {
            ds.push(
                ValidationDiagnostic::new_failed_to_load_appstream(
                    m.path.as_str(),
                    msg.as_str(),
                    refstring,
                ),
            );
        },
    }
    proof {
        assert(ds@.take(klint) =~= ds@.subrange(0, klint));
        if ds@.len() > klint {
            assert(ds@.skip(klint)[0] == ds@[klint]);
        }
        assert(ds@.skip(klint).len() == ds@.len() - klint);
    }
    ds
}

/// Whether `ds` holds, in order, the diagnostics of the first `upto`
/// metadata file locations.
pub open spec fn spec_metainfo_prefix(
    ds: Seq<ValidationDiagnostic>,
    ms: Seq<MetainfoCheck>,
    upto: int,
    refv: Seq<char>,
) -> bool
    decreases upto,
{
    if upto <= 0 {
        ds.len() == 0
    } else {
        let k = spec_metainfo_len(ms[upto - 1], refv);
        &&& ds.len() >= k
        &&& spec_metainfo_prefix(ds.take(ds.len() - k), ms, upto - 1, refv)
        &&& spec_metainfo_diags(ds.skip(ds.len() - k), ms[upto - 1], refv)
    }
}

/// Scanner diagnostics as a segment: nothing, or the one warning listing
/// every wrong-architecture executable.
pub open spec fn spec_files_seg(
    ds: Seq<ValidationDiagnostic>,
    files: Seq<ScannedFile>,
    refv: Seq<char>,
) -> bool {
    let arch = crate::utils::spec_arch_from_ref(refv);
    if crate::review_files::spec_offenders(files, arch).len() == 0 {
        ds.len() == 0
    } else {
        &&& ds.len() == 1
        &&& ds[0].is_warning
        &&& (ds[0].refstring matches Some(s) && s@ == refv)
        &&& (ds[0].info matches DiagnosticInfo::WrongArchExecutables { executables }
            && crate::review_files::spec_entries_describe(executables@, files, arch))
    }
}

/// The diagnostics of one primary ref, in check order: the bundle linter's
/// verdict, the exported metadata locations, the catalog file (for either
/// answer of the free-software question), and the architecture scan.
pub open spec fn spec_primary_ref_diags(
    ds: Seq<ValidationDiagnostic>,
    input: RefInput,
    build: BuildExtended,
) -> bool {
    let refv = input.refstring@;
    let k0: int = if input.linter.success {
        0
    } else {
        1
    };
    let km = spec_metainfo_total_len(input.metainfo@, refv);
    let kf: int = if crate::review_files::spec_offenders(
        input.executables@,
        crate::utils::spec_arch_from_ref(refv),
    ).len() == 0 {
        0
    } else {
        1
    };
    &&& ds.len() >= k0 + km + kf
    &&& spec_lint_diags(ds.take(k0), input.linter, refv)
    &&& spec_metainfo_prefix(
        ds.subrange(k0, k0 + km),
        input.metainfo@,
        input.metainfo@.len() as int,
        refv,
    )
    &&& ({
        ||| spec_catalog_diags(
            ds.subrange(k0 + km, ds.len() - kf),
            input.catalog,
            input.has_local_icon,
            spec_branch_view(input.screenshots_branch),
            build,
            refv,
            true,
        )
        ||| spec_catalog_diags(
            ds.subrange(k0 + km, ds.len() - kf),
            input.catalog,
            input.has_local_icon,
            spec_branch_view(input.screenshots_branch),
            build,
            refv,
            false,
        )
    })
    &&& spec_files_seg(ds.skip(ds.len() - kf), input.executables@, refv)
}

/// Total number of diagnostics of the metadata file locations.
pub open spec fn spec_metainfo_total_len(ms: Seq<MetainfoCheck>, refv: Seq<char>) -> int
    decreases ms.len(),
{
    if ms.len() == 0 {
        0
    } else {
        spec_metainfo_len(ms[0], refv) + spec_metainfo_total_len(ms.drop_first(), refv)
    }
}

proof fn lemma_metainfo_total_nonneg(ms: Seq<MetainfoCheck>, refv: Seq<char>)
    ensures
        spec_metainfo_total_len(ms, refv) >= 0,
        forall|m: MetainfoCheck| spec_metainfo_len(m, refv) >= 0,
    decreases ms.len(),
{
    if ms.len() > 0 {
        lemma_metainfo_total_nonneg(ms.drop_first(), refv);
    }
}

/// Runs every validation of one primary ref, accumulating diagnostics and
/// never letting one check cut a sibling short.
pub fn validate_primary_ref<C: ValidateConfig>(config: &C, build: &BuildExtended, input: &RefInput) -> (r:
    Result<Vec<ValidationDiagnostic>, BackendError>)
    requires
        slash0(input.refstring@) < input.refstring@.len(),
        slash1(input.refstring@) < input.refstring@.len(),
    ensures
        r matches Ok(ds) ==> spec_primary_ref_diags(ds@, *input, *build),
        !spec_catalog_loads(input.catalog) ==> r is Ok,
{
    let refstring = input.refstring.as_str();
    let ghost refv = input.refstring@;
    let mut ds = lint_diagnostics(&input.linter, refstring);
    let ghost k0 = ds@.len() as int;

    let n = input.metainfo.len();
    proof {
        lemma_metainfo_total_nonneg(input.metainfo@, refv);
        assert(input.metainfo@.take(0) =~= Seq::<MetainfoCheck>::empty());
    }
    let mut i: usize = 0;
    while i < n
        invariant
            n == input.metainfo@.len(),
            i <= n,
            refv == input.refstring@,
            refstring@ == refv,
            slash0(refv) < refv.len(),
            0 <= k0 <= ds@.len(),
            ds@.take(k0) == ds@.take(k0),
            spec_lint_diags(ds@.take(k0), input.linter, refv),
            spec_metainfo_prefix(ds@.skip(k0), input.metainfo@, i as int, refv),
        decreases n - i,
    {
        proof {
            lemma_metainfo_total_nonneg(input.metainfo@, refv);
        }
        let mut g = validate_metainfo_file(&input.metainfo[i], refstring);
        let ghost before = ds@;
        let ghost gv = g@;
        ds.append(&mut g);
        proof {
            let k = spec_metainfo_len(input.metainfo@[i as int], refv);
            assert(gv.len() == k);
            assert(ds@.skip(k0).len() - k == before.skip(k0).len());
            assert(ds@.skip(k0).take(ds@.skip(k0).len() - k) =~= before.skip(k0));
            assert(ds@.skip(k0).skip(ds@.skip(k0).len() - k) =~= gv);
            assert(ds@.take(k0) =~= before.take(k0));
        }
        i += 1;
    }
    let ghost km = spec_metainfo_total_len(input.metainfo@, refv);
    proof {
        lemma_metainfo_prefix_len(ds@.skip(k0), input.metainfo@, n as int, refv);
        lemma_metainfo_totals_agree(input.metainfo@, n as int, refv);
        assert(input.metainfo@.take(n as int) =~= input.metainfo@);
        assert(ds@.len() == k0 + km);
    }

    let mut cds = match validate_appstream_catalog_file(
        config,
        build,
        &input.catalog,
        input.has_local_icon,
        &input.screenshots_branch,
        refstring,
    ) {
        Ok(x) => x,
        Err(e) => {
            return Err(e);
        },
    };
    let ghost before_c = ds@;
    let ghost cv = cds@;
    ds.append(&mut cds);
    let ghost k3 = ds@.len() as int;

    let mut fds: Vec<ValidationDiagnostic> = Vec::new();
    match crate::review_files::review_files(&input.executables, refstring) {
        Some(d) => {
            fds.push(d);
        },
        None => {},
    }
    let ghost fv = fds@;
    ds.append(&mut fds);

    proof {
        let dv = ds@;
        let kf = dv.len() - k3;
        assert(dv.take(k0) =~= before_c.take(k0));
        assert(dv.subrange(k0, k0 + km) =~= before_c.skip(k0));
        assert(dv.subrange(k0 + km, k3) =~= cv);
        assert(dv.skip(k3) =~= fv);
        assert(spec_files_seg(dv.skip(k3), input.executables@, refv));
        assert(spec_primary_ref_diags(dv, *input, *build));
    }
    Ok(ds)
}

proof fn lemma_metainfo_prefix_len(
    ds: Seq<ValidationDiagnostic>,
    ms: Seq<MetainfoCheck>,
    upto: int,
    refv: Seq<char>,
)
    requires
        spec_metainfo_prefix(ds, ms, upto, refv),
        0 <= upto <= ms.len(),
    ensures
        ds.len() == spec_metainfo_total_upto(ms, upto, refv),
    decreases upto,
{
    if upto > 0 {
        let k = spec_metainfo_len(ms[upto - 1], refv);
        lemma_metainfo_prefix_len(ds.take(ds.len() - k), ms, upto - 1, refv);
    }
}

/// Total number of diagnostics of the first `upto` metadata file locations.
pub open spec fn spec_metainfo_total_upto(ms: Seq<MetainfoCheck>, upto: int, refv: Seq<char>) -> int
    decreases upto,
{
    if upto <= 0 {
        0
    } else {
        spec_metainfo_total_upto(ms, upto - 1, refv) + spec_metainfo_len(ms[upto - 1], refv)
    }
}

proof fn lemma_metainfo_totals_agree(ms: Seq<MetainfoCheck>, upto: int, refv: Seq<char>)
    requires
        0 <= upto <= ms.len(),
    ensures
        spec_metainfo_total_upto(ms, upto, refv) == spec_metainfo_total_len(ms.take(upto), refv),
    decreases upto,
{
    if upto > 0 {
        lemma_metainfo_totals_agree(ms, upto - 1, refv);
        assert(ms.take(upto).drop_last() =~= ms.take(upto - 1));
        lemma_total_len_drop_last(ms.take(upto), refv);
    }
}

/// Whether `ds` holds, in order, the diagnostics of the primary refs among
/// the first `upto` refs of the build.
pub open spec fn spec_build_prefix(
    ds: Seq<ValidationDiagnostic>,
    refs: Seq<RefInput>,
    upto: int,
    build: BuildExtended,
) -> bool
    decreases upto,
{
    if upto <= 0 {
        ds.len() == 0
    } else if !spec_is_primary_ref(refs[upto - 1].refstring@) {
        spec_build_prefix(ds, refs, upto - 1, build)
    } else {
        exists|k: int|
            0 <= k <= ds.len() && spec_build_prefix(ds.take(k), refs, upto - 1, build)
                && spec_primary_ref_diags(ds.skip(k), refs[upto - 1], build)
    }
}

/// Runs all the validations on a build: every primary ref is validated and
/// its diagnostics appended to the run's result; non-primary refs are
/// skipped.
pub fn validate_build<C: ValidateConfig>(
    config: &C,
    build: &BuildExtended,
    refs: &Vec<RefInput>,
    result: &mut CheckResult,
) -> (r: Result<(), BackendError>)
    requires
        forall|i: int|
            0 <= i < refs@.len() && spec_is_primary_ref((#[trigger] refs@[i]).refstring@)
                ==> slash0(refs@[i].refstring@) < refs@[i].refstring@.len() && slash1(
                refs@[i].refstring@,
            ) < refs@[i].refstring@.len(),
    ensures
        final(result).diagnostics@.len() >= old(result).diagnostics@.len(),
        final(result).diagnostics@.take(old(result).diagnostics@.len() as int) == old(
            result,
        ).diagnostics@,
        r matches Ok(_) ==> spec_build_prefix(
            final(result).diagnostics@.skip(old(result).diagnostics@.len() as int),
            refs@,
            refs@.len() as int,
            *build,
        ),
        (forall|i: int|
            0 <= i < refs@.len() && spec_is_primary_ref((#[trigger] refs@[i]).refstring@)
                ==> !spec_catalog_loads(refs@[i].catalog)) ==> r is Ok,
{
    let ghost base = old(result).diagnostics@.len() as int;
    proof {
        assert(result.diagnostics@.take(base) =~= old(result).diagnostics@);
        assert(result.diagnostics@.skip(base) =~= Seq::<ValidationDiagnostic>::empty());
    }
    let n = refs.len();
    let mut i: usize = 0;
    while i < n
        invariant
            n == refs@.len(),
            i <= n,
            forall|j: int|
                0 <= j < refs@.len() && spec_is_primary_ref((#[trigger] refs@[j]).refstring@)
                    ==> slash0(refs@[j].refstring@) < refs@[j].refstring@.len() && slash1(
                    refs@[j].refstring@,
                ) < refs@[j].refstring@.len(),
            0 <= base <= result.diagnostics@.len(),
            result.diagnostics@.take(base) == old(result).diagnostics@,
            spec_build_prefix(result.diagnostics@.skip(base), refs@, i as int, *build),
        decreases n - i,
    {
        if is_primary_ref(refs[i].refstring.as_str()) {
            let mut ds = match validate_primary_ref(config, build, &refs[i]) {
                Ok(x) => x,
                Err(e) => {
                    proof {
                        if forall|j: int|
                            0 <= j < refs@.len() && spec_is_primary_ref(
                                (#[trigger] refs@[j]).refstring@,
                            ) ==> !spec_catalog_loads(refs@[j].catalog) {
                            assert(spec_is_primary_ref(refs@[i as int].refstring@));
                            assert(!spec_catalog_loads(refs@[i as int].catalog));
                            assert(false);
                        }
                    }
                    return Err(e);
                },
            };
            let ghost before = result.diagnostics@;
            let ghost dv = ds@;
            result.diagnostics.append(&mut ds);
            proof {
                assert(result.diagnostics@.take(base) =~= before.take(base));
                let k = before.skip(base).len() as int;
                assert(result.diagnostics@.skip(base).take(k) =~= before.skip(base));
                assert(result.diagnostics@.skip(base).skip(k) =~= dv);
            }
        }
        i += 1;
    }
    Ok(())
}

proof fn lemma_total_len_drop_last(ms: Seq<MetainfoCheck>, refv: Seq<char>)
    requires
        ms.len() > 0,
    ensures
        spec_metainfo_total_len(ms, refv) == spec_metainfo_total_len(ms.drop_last(), refv)
            + spec_metainfo_len(ms.last(), refv),
    decreases ms.len(),
{
    if ms.len() > 1 {
        lemma_total_len_drop_last(ms.drop_first(), refv);
        assert(ms.drop_first().drop_last() =~= ms.drop_last().drop_first());
        assert(ms.drop_first().last() == ms.last());
        assert(ms.drop_last()[0] == ms[0]);
        assert(ms.drop_last().len() > 0);
        assert(spec_metainfo_total_len(ms.drop_last(), refv) == spec_metainfo_len(ms[0], refv)
            + spec_metainfo_total_len(ms.drop_last().drop_first(), refv));
        assert(spec_metainfo_total_len(ms, refv) == spec_metainfo_len(ms[0], refv)
            + spec_metainfo_total_len(ms.drop_first(), refv));
        assert(spec_metainfo_total_len(ms.drop_first(), refv) == spec_metainfo_total_len(
            ms.drop_first().drop_last(),
            refv,
        ) + spec_metainfo_len(ms.drop_first().last(), refv));
        assert(spec_metainfo_total_len(ms.drop_first().drop_last(), refv)
            == spec_metainfo_total_len(ms.drop_last().drop_first(), refv));
    } else {
        assert(ms.drop_last().len() == 0);
        assert(spec_metainfo_total_len(ms.drop_last(), refv) == 0);
        assert(ms.drop_first().len() == 0);
        assert(spec_metainfo_total_len(ms.drop_first(), refv) == 0);
        assert(ms.last() == ms[0]);
        assert(spec_metainfo_total_len(ms, refv) == spec_metainfo_len(ms[0], refv)
            + spec_metainfo_total_len(ms.drop_first(), refv));
    }
}

} // verus!
