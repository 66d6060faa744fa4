//! Publish-time rewriting: which subset tags and which token type a commit's
//! metadata dictionary must carry for a given set of storefront facts.

use vstd::prelude::*;

use crate::compress::{gunzip_text, gunzip_to_string, gzip_bytes, gzip_data};
use crate::editor::{
    apply_pairs, entries_of, key_purged, keys_distinct, keys_purged, lemma_apply_appends,
    lemma_apply_creates, lemma_keep_all, lemma_keep_concat, lemma_keep_none,
    lemma_keep_not_purged, lemma_new_entry, lemma_pairs_ok_concat,
    lemma_purge_component_idempotent,
    lemma_purge_node_idempotent, pair_views, purge_component, replace_child, spec_apply_pairs,
    spec_entry_key, spec_entry_purged, spec_is_entry_for, spec_keep_entries, spec_new_custom,
    spec_new_entry, spec_purge_changed, spec_purge_component, spec_purge_node,
};
use crate::job_utils::{spec_ref_log_url, BuildExtended};
use crate::storefront::{
    spec_is_floss, spec_is_paid, spec_is_verified, PricingInfo, StorefrontInfo, VerificationInfo,
};
use crate::strutil::{ci_eq, ci_has_prefix, dec_str, lower_code, str_eq, usize_to_string};
use crate::xml::{
    lemma_first_with_tag, lemma_xml_view_fields, parse_xml, parsed_xml, render_xml, rendered_xml,
    spec_first_with_tag, XmlNode,
};

verus! {

/// The subset tags owed to a commit: `verified` iff the app is verified,
/// `floss` iff it is free software, and `verified_floss` iff both.
pub open spec fn spec_subsets(info: StorefrontInfo) -> Seq<Seq<char>> {
    let v = spec_is_verified(info);
    let f = spec_is_floss(info);
    (if v {
        seq!["verified"@]
    } else {
        Seq::empty()
    }) + (if f {
        seq!["floss"@]
    } else {
        Seq::empty()
    }) + (if v && f {
        seq!["verified_floss"@]
    } else {
        Seq::empty()
    })
}

/// Lists all the subsets that a commit should be tagged with, based on the
/// given storefront facts.
pub fn list_subsets(info: &StorefrontInfo) -> (r: Vec<String>)
    ensures
        r.deep_view() == spec_subsets(*info),
{
    let verified = match &info.verification {
        Some(v) => v.verified,
        None => false,
    };
    let floss = match info.is_free_software {
        Some(x) => x,
        None => false,
    };
    let mut subsets: Vec<String> = Vec::new();
    if verified {
        subsets.push("verified".to_owned());
    }
    if floss {
        subsets.push("floss".to_owned());
    }
    if verified && floss {
        subsets.push("verified_floss".to_owned());
    }
    proof {
        assert(subsets.deep_view() =~= spec_subsets(*info));
    }
    subsets
}

/// The edits owed to a commit's metadata dictionary: a field is set to the
/// given value when `Some`, and removed from the dictionary when `None`.
pub struct MetadataEdits {
    pub subsets: Option<Vec<String>>,
    pub token_type: Option<i32>,
}

/// Computes the edits to a commit's metadata dictionary for the given
/// storefront facts: the subsets field is set to the owed subset tags and
/// removed entirely when no tag is owed; the token type is set to `1` iff
/// the app asks for payment and removed otherwise.
pub fn rewrite_metadata(info: &StorefrontInfo) -> (e: MetadataEdits)
    ensures
        spec_subsets(*info).len() == 0 ==> e.subsets is None,
        spec_subsets(*info).len() > 0 ==> (e.subsets matches Some(v) && v.deep_view()
            == spec_subsets(*info)),
        e.token_type == if spec_is_paid(*info) {
            Some(1i32)
        } else {
            None::<i32>
        },
{
    let subsets = list_subsets(info);

    let is_paid = match &info.pricing {
        Some(p) => {
            let donation = match p.recommended_donation {
                Some(x) => x > 0,
                None => false,
            };
            let payment = match p.minimum_payment {
                Some(y) => y > 0,
                None => false,
            };
            donation || payment
        },
        None => false,
    };

    MetadataEdits {
        subsets: if subsets.len() == 0 {
            None
        } else {
            Some(subsets)
        },
        token_type: if is_paid {
            Some(1)
        } else {
            None
        },
    }
}

/// The fact pair for an optional text value: present iff the value is.
pub open spec fn opt_pair(key: Seq<char>, v: Option<String>) -> Seq<(Seq<char>, Seq<char>)> {
    match v {
        Some(s) => seq![(key, s@)],
        None => Seq::empty(),
    }
}

/// The fact pair for an optional amount, rendered in decimal.
pub open spec fn opt_amount_pair(key: Seq<char>, v: Option<u32>) -> Seq<(Seq<char>, Seq<char>)> {
    match v {
        Some(x) => seq![(key, dec_str(x as int))],
        None => Seq::empty(),
    }
}

pub open spec fn bool_str(b: bool) -> Seq<char> {
    if b {
        "true"@
    } else {
        "false"@
    }
}

/// The verification facts written into the document, in order.
pub open spec fn spec_verification_pairs(v: VerificationInfo) -> Seq<(Seq<char>, Seq<char>)> {
    seq![("flathub::verification::verified"@, bool_str(v.verified))] + opt_pair(
        "flathub::verification::timestamp"@,
        v.timestamp,
    ) + opt_pair("flathub::verification::method"@, v.method) + opt_pair(
        "flathub::verification::login_name"@,
        v.login_name,
    ) + opt_pair("flathub::verification::login_provider"@, v.login_provider) + opt_pair(
        "flathub::verification::website"@,
        v.website,
    ) + seq![
        (
            "flathub::verification::login_is_organization"@,
            bool_str(v.login_is_organization is Some),
        ),
    ]
}

/// The pricing facts written into the document, in order.
pub open spec fn spec_pricing_pairs(p: PricingInfo) -> Seq<(Seq<char>, Seq<char>)> {
    opt_amount_pair("flathub::pricing::recommended_donation"@, p.recommended_donation)
        + opt_amount_pair("flathub::pricing::minimum_payment"@, p.minimum_payment)
}

/// The build-log facts written into the document, in order: the build-wide
/// log URL and the URL recorded for this very ref.
pub open spec fn spec_build_pairs(b: BuildExtended, refstring: Seq<char>) -> Seq<
    (Seq<char>, Seq<char>),
> {
    opt_pair("flathub::build::build_log_url"@, b.build.build_log_url) + (
    match spec_ref_log_url(b, refstring) {
        Some(u) => seq![("flathub::build::build_ref_log_url"@, u)],
        None => Seq::empty(),
    })
}

/// Every fact written into the document for this ref, in order.
pub open spec fn spec_fact_pairs(
    info: StorefrontInfo,
    build: Option<BuildExtended>,
    refstring: Seq<char>,
) -> Seq<(Seq<char>, Seq<char>)> {
    (match info.verification {
        Some(v) => spec_verification_pairs(v),
        None => Seq::empty(),
    }) + (match info.pricing {
        Some(p) => spec_pricing_pairs(p),
        None => Seq::empty(),
    }) + (match build {
        Some(b) => spec_build_pairs(b, refstring),
        None => Seq::empty(),
    })
}

fn verification_pairs(v: &VerificationInfo) -> (r: Vec<(String, String)>)
    ensures
        pair_views(r@) == spec_verification_pairs(*v),
{
    let mut pairs: Vec<(String, String)> = Vec::new();
    pairs.push(
        (
            "flathub::verification::verified".to_owned(),
            (if v.verified {
                "true"
            } else {
                "false"
            }).to_owned(),
        ),
    );
    if let Some(t) = &v.timestamp {
        pairs.push(("flathub::verification::timestamp".to_owned(), t.clone()));
    }
    if let Some(t) = &v.method {
        pairs.push(("flathub::verification::method".to_owned(), t.clone()));
    }
    if let Some(t) = &v.login_name {
        pairs.push(("flathub::verification::login_name".to_owned(), t.clone()));
    }
    if let Some(t) = &v.login_provider {
        pairs.push(("flathub::verification::login_provider".to_owned(), t.clone()));
    }
    if let Some(t) = &v.website {
        pairs.push(("flathub::verification::website".to_owned(), t.clone()));
    }
    pairs.push(
        (
            "flathub::verification::login_is_organization".to_owned(),
            (if v.login_is_organization.is_some() {
                "true"
            } else {
                "false"
            }).to_owned(),
        ),
    );
    proof {
        assert(pair_views(pairs@) =~= spec_verification_pairs(*v));
    }
    pairs
}

fn pricing_pairs(p: &PricingInfo) -> (r: Vec<(String, String)>)
    ensures
        pair_views(r@) == spec_pricing_pairs(*p),
{
    let mut pairs: Vec<(String, String)> = Vec::new();
    if let Some(x) = p.recommended_donation {
        pairs.push(
            ("flathub::pricing::recommended_donation".to_owned(), usize_to_string(x as usize)),
        );
    }
    if let Some(y) = p.minimum_payment {
        pairs.push(("flathub::pricing::minimum_payment".to_owned(), usize_to_string(y as usize)));
    }
    proof {
        assert(pair_views(pairs@) =~= spec_pricing_pairs(*p));
    }
    pairs
}

fn build_pairs(b: &BuildExtended, refstring: &str) -> (r: Vec<(String, String)>)
    ensures
        pair_views(r@) == spec_build_pairs(*b, refstring@),
{
    let mut pairs: Vec<(String, String)> = Vec::new();
    if let Some(u) = &b.build.build_log_url {
        pairs.push(("flathub::build::build_log_url".to_owned(), u.clone()));
    }
    if let Some(u) = b.ref_log_url(refstring) {
        pairs.push(("flathub::build::build_ref_log_url".to_owned(), u.clone()));
    }
    proof {
        assert(pair_views(pairs@) =~= spec_build_pairs(*b, refstring@));
    }
    pairs
}

/// The facts to write into the document for this ref, in order.
pub fn fact_pairs(info: &StorefrontInfo, refstring: &str, build: &Option<BuildExtended>) -> (r:
    Vec<(String, String)>)
    ensures
        pair_views(r@) == spec_fact_pairs(*info, *build, refstring@),
{
    let mut pairs: Vec<(String, String)> = Vec::new();
    if let Some(v) = &info.verification {
        let mut g = verification_pairs(v);
        pairs.append(&mut g);
    }
    if let Some(p) = &info.pricing {
        let mut g = pricing_pairs(p);
        pairs.append(&mut g);
    }
    if let Some(b) = build {
        let mut g = build_pairs(b, refstring);
        pairs.append(&mut g);
    }
    proof {
        assert(pair_views(pairs@) =~= spec_fact_pairs(*info, *build, refstring@));
    }
    pairs
}

/// Why a document rewrite was refused.
#[derive(Debug)]
pub enum RewriteError {
    /// The document is not well-formed XML.
    Parse,
    /// The document root must hold exactly one component element.
    ComponentCount { found: usize },
    /// The edited tree could not be serialized.
    Render,
}

impl RewriteError {
    pub fn message(&self) -> (r: String)
        ensures
            *self is Parse ==> r@ == "failed to parse appstream document"@,
            (*self matches RewriteError::ComponentCount { found } ==> r@
                == "Expected exactly 1 <component> tag, found "@ + dec_str(found as int)),
            *self is Render ==> r@ == "failed to serialize appstream document"@,
    {
        match self {
            RewriteError::Parse => "failed to parse appstream document".to_owned(),
            RewriteError::ComponentCount { found } => {
                let s = "Expected exactly 1 <component> tag, found ".to_owned();
                s.concat(usize_to_string(*found).as_str())
            },
            RewriteError::Render => "failed to serialize appstream document".to_owned(),
        }
    }
}

/// Whether the edit changes the document at all: the purge dropped a stale
/// fact, or there is at least one fact to write.
pub open spec fn spec_doc_changed(
    comp: XmlNode,
    info: StorefrontInfo,
    build: Option<BuildExtended>,
    refstring: Seq<char>,
) -> bool {
    spec_purge_changed(comp.children, build is Some) || spec_fact_pairs(
        info,
        build,
        refstring,
    ).len() > 0
}

/// The component after the rewrite: stale facts purged, current facts
/// upserted.
pub open spec fn spec_rewritten_component(
    comp: XmlNode,
    info: StorefrontInfo,
    build: Option<BuildExtended>,
    refstring: Seq<char>,
) -> XmlNode {
    spec_apply_pairs(
        spec_purge_component(comp, build is Some),
        spec_fact_pairs(info, build, refstring),
    )
}

/// The document root after the rewrite of its single component.
pub open spec fn spec_rewritten_root(
    root: XmlNode,
    info: StorefrontInfo,
    build: Option<BuildExtended>,
    refstring: Seq<char>,
) -> XmlNode {
    XmlNode {
        children: seq![spec_rewritten_component(root.children[0], info, build, refstring)],
        ..root
    }
}

/// What the rewrite returns for a given document: the rejected documents,
/// the unchanged case (the input text itself, byte for byte) and the edited
/// case (the rendering of the rewritten tree).
pub open spec fn spec_rewrite_xml(
    info: StorefrontInfo,
    refstring: Seq<char>,
    build: Option<BuildExtended>,
    original: Seq<char>,
) -> Result<Seq<char>, RewriteError> {
    match parsed_xml(original) {
        None => Err(RewriteError::Parse),
        Some(root) => {
            if root.children.len() != 1 {
                Err(RewriteError::ComponentCount { found: root.children.len() as usize })
            } else {
                let comp = root.children[0];
                if !spec_doc_changed(comp, info, build, refstring) {
                    Ok(original)
                } else {
                    match rendered_xml(spec_rewritten_root(root, info, build, refstring)) {
                        Some(out) => Ok(out),
                        None => Err(RewriteError::Render),
                    }
                }
            }
        },
    }
}

/// Rewrites one appstream document: purges the stale owned facts, writes
/// the current facts, and returns the input unchanged when the edit would
/// not alter the document.
pub fn rewrite_appstream_xml(
    info: &StorefrontInfo,
    refstring: &str,
    build: &Option<BuildExtended>,
    original_appstream: &str,
) -> (r: Result<String, RewriteError>)
    ensures
        match spec_rewrite_xml(*info, refstring@, *build, original_appstream@) {
            Ok(s) => r matches Ok(x) && x@ == s,
            Err(e) => r matches Err(x) && x == e,
        },
{
    let root = match parse_xml(original_appstream) {
        Ok(x) => x,
        Err(_) => {
            return Err(RewriteError::Parse);
        },
    };
    proof {
        lemma_xml_view_fields(root);
    }
    let count = root.children.len();
    if count != 1 {
        return Err(RewriteError::ComponentCount { found: count });
    }
    let bp = build.is_some();
    let (purged, pchanged) = purge_component(&root.children[0], bp);
    let pairs = fact_pairs(info, refstring, build);
    let changed = pchanged || pairs.len() > 0;
    if !changed {
        return Ok(original_appstream.to_owned());
    }
    let newcomp = apply_pairs(purged, &pairs);
    let root2 = replace_child(&root, 0, newcomp);
    proof {
        assert(root2@.children =~= seq![
            spec_rewritten_component(root@.children[0], *info, *build, refstring@),
        ]);
        assert(root2@ =~~= spec_rewritten_root(root@, *info, *build, refstring@));
    }
    match render_xml(&root2) {
        Ok(s) => Ok(s),
        Err(_) => Err(RewriteError::Render),
    }
}

/// Why a compressed catalog file could not be rewritten.
#[derive(Debug)]
pub enum GzRewriteError {
    /// The file is not a valid gzip stream holding UTF-8 text.
    Decode,
    /// The document inside was rejected.
    Rewrite(RewriteError),
    /// The edited document could not be recompressed.
    Encode,
}

/// Rewrites a gzip-compressed appstream catalog file.  Returns `None` when
/// the edit leaves the document text unchanged (the caller then keeps the
/// stored file), and the recompressed bytes otherwise.
pub fn rewrite_appstream_gz(
    info: &StorefrontInfo,
    refstring: &str,
    build: &Option<BuildExtended>,
    gz_data: &[u8],
) -> (r: Result<Option<Vec<u8>>, GzRewriteError>)
    ensures
        match gunzip_text(gz_data@) {
            None => r matches Err(e) && e is Decode,
            Some(text) => match spec_rewrite_xml(*info, refstring@, *build, text) {
                Err(e2) => r matches Err(x) && x matches GzRewriteError::Rewrite(k) && k == e2,
                Ok(s) => {
                    if s == text {
                        r matches Ok(o) && o is None
                    } else {
                        ||| (r matches Ok(o) && o matches Some(v) && v@ == gzip_bytes(
                            vstd::utf8::encode_utf8(s),
                        ))
                        ||| (r matches Err(x) && x is Encode)
                    }
                },
            },
        },
{
    let s = match gunzip_to_string(gz_data) {
        Some(s) => s,
        None => {
            return Err(GzRewriteError::Decode);
        },
    };
    let new_appstream = match rewrite_appstream_xml(info, refstring, build, s.as_str()) {
        Ok(x) => x,
        Err(e) => {
            return Err(GzRewriteError::Rewrite(e));
        },
    };
    if new_appstream == s {
        return Ok(None);
    }
    match gzip_data(new_appstream.as_str().as_bytes()) {
        Some(v) => Ok(Some(v)),
        None => Err(GzRewriteError::Encode),
    }
}

/// The purge predicate holds of every key this pipeline writes (so a
/// second purge removes exactly what a first application wrote).
proof fn lemma_key_purged(k: Seq<char>, bp: bool)
    requires
        ({
            ||| k == "flathub::verification::verified"@
        ||| k == "flathub::verification::timestamp"@
        ||| k == "flathub::verification::method"@
        ||| k == "flathub::verification::login_name"@
        ||| k == "flathub::verification::login_provider"@
        ||| k == "flathub::verification::website"@
        ||| k == "flathub::verification::login_is_organization"@
        ||| k == "flathub::pricing::recommended_donation"@
            ||| k == "flathub::pricing::minimum_payment"@
        }),
    ensures
        crate::editor::key_purged(k, bp),
{
    reveal_strlit("flathub::");
    reveal_strlit("flathub::manifest");
    reveal_strlit("flathub::build::");
    reveal_strlit("flathub::verification::verified");
    reveal_strlit("flathub::verification::timestamp");
    reveal_strlit("flathub::verification::method");
    reveal_strlit("flathub::verification::login_name");
    reveal_strlit("flathub::verification::login_provider");
    reveal_strlit("flathub::verification::website");
    reveal_strlit("flathub::verification::login_is_organization");
    reveal_strlit("flathub::pricing::recommended_donation");
    reveal_strlit("flathub::pricing::minimum_payment");
    assert(ci_has_prefix(k, "flathub::"@));
    assert(!ci_eq(k, "flathub::manifest"@));
    assert(lower_code(k[9]) != lower_code("flathub::build::"@[9]));
    assert(!ci_has_prefix(k, "flathub::build::"@));
}

/// The purge predicate holds of the build-log keys exactly when fresh
/// build facts are available.
proof fn lemma_build_key_purged(k: Seq<char>)
    requires
        ({
            ||| k == "flathub::build::build_log_url"@
            ||| k == "flathub::build::build_ref_log_url"@
        }),
    ensures
        crate::editor::key_purged(k, true),
{
    reveal_strlit("flathub::");
    reveal_strlit("flathub::manifest");
    reveal_strlit("flathub::build::");
    reveal_strlit("flathub::build::build_log_url");
    reveal_strlit("flathub::build::build_ref_log_url");
    assert(ci_has_prefix(k, "flathub::"@));
    assert(!ci_eq(k, "flathub::manifest"@));
}


/// The keys this pipeline writes are pairwise distinct, so an upsert by
/// exact key never hits an entry another fact pair wrote.
proof fn lemma_fact_keys_distinct()
    ensures
        "flathub::verification::verified"@ != "flathub::verification::timestamp"@,
        "flathub::verification::verified"@ != "flathub::verification::method"@,
        "flathub::verification::verified"@ != "flathub::verification::login_name"@,
        "flathub::verification::verified"@ != "flathub::verification::login_provider"@,
        "flathub::verification::verified"@ != "flathub::verification::website"@,
        "flathub::verification::verified"@ != "flathub::verification::login_is_organization"@,
        "flathub::verification::verified"@ != "flathub::pricing::recommended_donation"@,
        "flathub::verification::verified"@ != "flathub::pricing::minimum_payment"@,
        "flathub::verification::verified"@ != "flathub::build::build_log_url"@,
        "flathub::verification::verified"@ != "flathub::build::build_ref_log_url"@,
        "flathub::verification::timestamp"@ != "flathub::verification::method"@,
        "flathub::verification::timestamp"@ != "flathub::verification::login_name"@,
        "flathub::verification::timestamp"@ != "flathub::verification::login_provider"@,
        "flathub::verification::timestamp"@ != "flathub::verification::website"@,
        "flathub::verification::timestamp"@ != "flathub::verification::login_is_organization"@,
        "flathub::verification::timestamp"@ != "flathub::pricing::recommended_donation"@,
        "flathub::verification::timestamp"@ != "flathub::pricing::minimum_payment"@,
        "flathub::verification::timestamp"@ != "flathub::build::build_log_url"@,
        "flathub::verification::timestamp"@ != "flathub::build::build_ref_log_url"@,
        "flathub::verification::method"@ != "flathub::verification::login_name"@,
        "flathub::verification::method"@ != "flathub::verification::login_provider"@,
        "flathub::verification::method"@ != "flathub::verification::website"@,
        "flathub::verification::method"@ != "flathub::verification::login_is_organization"@,
        "flathub::verification::method"@ != "flathub::pricing::recommended_donation"@,
        "flathub::verification::method"@ != "flathub::pricing::minimum_payment"@,
        "flathub::verification::method"@ != "flathub::build::build_log_url"@,
        "flathub::verification::method"@ != "flathub::build::build_ref_log_url"@,
        "flathub::verification::login_name"@ != "flathub::verification::login_provider"@,
        "flathub::verification::login_name"@ != "flathub::verification::website"@,
        "flathub::verification::login_name"@ != "flathub::verification::login_is_organization"@,
        "flathub::verification::login_name"@ != "flathub::pricing::recommended_donation"@,
        "flathub::verification::login_name"@ != "flathub::pricing::minimum_payment"@,
        "flathub::verification::login_name"@ != "flathub::build::build_log_url"@,
        "flathub::verification::login_name"@ != "flathub::build::build_ref_log_url"@,
        "flathub::verification::login_provider"@ != "flathub::verification::website"@,
        "flathub::verification::login_provider"@ != "flathub::verification::login_is_organization"@,
        "flathub::verification::login_provider"@ != "flathub::pricing::recommended_donation"@,
        "flathub::verification::login_provider"@ != "flathub::pricing::minimum_payment"@,
        "flathub::verification::login_provider"@ != "flathub::build::build_log_url"@,
        "flathub::verification::login_provider"@ != "flathub::build::build_ref_log_url"@,
        "flathub::verification::website"@ != "flathub::verification::login_is_organization"@,
        "flathub::verification::website"@ != "flathub::pricing::recommended_donation"@,
        "flathub::verification::website"@ != "flathub::pricing::minimum_payment"@,
        "flathub::verification::website"@ != "flathub::build::build_log_url"@,
        "flathub::verification::website"@ != "flathub::build::build_ref_log_url"@,
        "flathub::verification::login_is_organization"@ != "flathub::pricing::recommended_donation"@,
        "flathub::verification::login_is_organization"@ != "flathub::pricing::minimum_payment"@,
        "flathub::verification::login_is_organization"@ != "flathub::build::build_log_url"@,
        "flathub::verification::login_is_organization"@ != "flathub::build::build_ref_log_url"@,
        "flathub::pricing::recommended_donation"@ != "flathub::pricing::minimum_payment"@,
        "flathub::pricing::recommended_donation"@ != "flathub::build::build_log_url"@,
        "flathub::pricing::recommended_donation"@ != "flathub::build::build_ref_log_url"@,
        "flathub::pricing::minimum_payment"@ != "flathub::build::build_log_url"@,
        "flathub::pricing::minimum_payment"@ != "flathub::build::build_ref_log_url"@,
        "flathub::build::build_log_url"@ != "flathub::build::build_ref_log_url"@,
{
    reveal_strlit("flathub::verification::verified");
    reveal_strlit("flathub::verification::timestamp");
    reveal_strlit("flathub::verification::method");
    reveal_strlit("flathub::verification::login_name");
    reveal_strlit("flathub::verification::login_provider");
    reveal_strlit("flathub::verification::website");
    reveal_strlit("flathub::verification::login_is_organization");
    reveal_strlit("flathub::pricing::recommended_donation");
    reveal_strlit("flathub::pricing::minimum_payment");
    reveal_strlit("flathub::build::build_log_url");
    reveal_strlit("flathub::build::build_ref_log_url");
    assert("flathub::verification::verified"@.len() == 31);
    assert("flathub::verification::timestamp"@.len() == 32);
    assert("flathub::verification::method"@.len() == 29);
    assert("flathub::verification::login_name"@.len() == 33);
    assert("flathub::verification::login_provider"@.len() == 37);
    assert("flathub::verification::website"@.len() == 30);
    assert("flathub::verification::login_is_organization"@.len() == 44);
    assert("flathub::pricing::recommended_donation"@.len() == 38);
    assert("flathub::pricing::minimum_payment"@.len() == 33);
    assert("flathub::build::build_log_url"@.len() == 29);
    assert("flathub::build::build_ref_log_url"@.len() == 33);
    assert("flathub::verification::method"@[9] != "flathub::build::build_log_url"@[9]);
    assert("flathub::verification::login_name"@[9] != "flathub::pricing::minimum_payment"@[9]);
    assert("flathub::verification::login_name"@[9] != "flathub::build::build_ref_log_url"@[9]);
    assert("flathub::pricing::minimum_payment"@[9] != "flathub::build::build_ref_log_url"@[9]);
}

/// Every key this pipeline writes is pairwise distinct from the others and
/// satisfies the purge predicate of the run it is written on.
/// One of the verification keys.
pub open spec fn is_verification_key(k: Seq<char>) -> bool {
    ||| k == "flathub::verification::verified"@
    ||| k == "flathub::verification::timestamp"@
    ||| k == "flathub::verification::method"@
    ||| k == "flathub::verification::login_name"@
    ||| k == "flathub::verification::login_provider"@
    ||| k == "flathub::verification::website"@
    ||| k == "flathub::verification::login_is_organization"@
}

/// One of the pricing keys.
pub open spec fn is_pricing_key(k: Seq<char>) -> bool {
    ||| k == "flathub::pricing::recommended_donation"@
    ||| k == "flathub::pricing::minimum_payment"@
}

/// One of the build-log keys.
pub open spec fn is_build_key(k: Seq<char>) -> bool {
    ||| k == "flathub::build::build_log_url"@
    ||| k == "flathub::build::build_ref_log_url"@
}

proof fn lemma_verification_pairs_ok(v: VerificationInfo, bp: bool)
    ensures
        keys_distinct(spec_verification_pairs(v)),
        keys_purged(spec_verification_pairs(v), bp),
        forall|i: int|
            0 <= i < spec_verification_pairs(v).len() ==> is_verification_key(
                (#[trigger] spec_verification_pairs(v)[i]).0,
            ),
{
    let ps = spec_verification_pairs(v);
    lemma_fact_keys_distinct();
    lemma_key_purged("flathub::verification::verified"@, bp);
    lemma_key_purged("flathub::verification::timestamp"@, bp);
    lemma_key_purged("flathub::verification::method"@, bp);
    lemma_key_purged("flathub::verification::login_name"@, bp);
    lemma_key_purged("flathub::verification::login_provider"@, bp);
    lemma_key_purged("flathub::verification::website"@, bp);
    lemma_key_purged("flathub::verification::login_is_organization"@, bp);
    assert forall|i: int| 0 <= i < ps.len() implies is_verification_key(
        (#[trigger] ps[i]).0,
    ) by {}
    assert forall|i: int| 0 <= i < ps.len() implies key_purged((#[trigger] ps[i]).0, bp) by {}
    assert forall|i: int, j: int|
        #![trigger ps[i], ps[j]]
        0 <= i < j < ps.len() implies ps[i].0 != ps[j].0 by {}
}

proof fn lemma_pricing_pairs_ok(p: PricingInfo, bp: bool)
    ensures
        keys_distinct(spec_pricing_pairs(p)),
        keys_purged(spec_pricing_pairs(p), bp),
        forall|i: int|
            0 <= i < spec_pricing_pairs(p).len() ==> is_pricing_key(
                (#[trigger] spec_pricing_pairs(p)[i]).0,
            ),
{
    let ps = spec_pricing_pairs(p);
    lemma_fact_keys_distinct();
    lemma_key_purged("flathub::pricing::recommended_donation"@, bp);
    lemma_key_purged("flathub::pricing::minimum_payment"@, bp);
    assert forall|i: int| 0 <= i < ps.len() implies is_pricing_key((#[trigger] ps[i]).0) by {}
    assert forall|i: int| 0 <= i < ps.len() implies key_purged((#[trigger] ps[i]).0, bp) by {}
    assert forall|i: int, j: int|
        #![trigger ps[i], ps[j]]
        0 <= i < j < ps.len() implies ps[i].0 != ps[j].0 by {}
}

proof fn lemma_build_pairs_ok(b: BuildExtended, refstring: Seq<char>)
    ensures
        keys_distinct(spec_build_pairs(b, refstring)),
        keys_purged(spec_build_pairs(b, refstring), true),
        forall|i: int|
            0 <= i < spec_build_pairs(b, refstring).len() ==> is_build_key(
                (#[trigger] spec_build_pairs(b, refstring)[i]).0,
            ),
{
    let ps = spec_build_pairs(b, refstring);
    lemma_fact_keys_distinct();
    lemma_build_key_purged("flathub::build::build_log_url"@);
    lemma_build_key_purged("flathub::build::build_ref_log_url"@);
    assert forall|i: int| 0 <= i < ps.len() implies is_build_key((#[trigger] ps[i]).0) by {}
    assert forall|i: int| 0 <= i < ps.len() implies key_purged((#[trigger] ps[i]).0, true) by {}
    assert forall|i: int, j: int|
        #![trigger ps[i], ps[j]]
        0 <= i < j < ps.len() implies ps[i].0 != ps[j].0 by {}
}

/// Every key this pipeline writes is pairwise distinct from the others and
/// satisfies the purge predicate of the run it is written on.
pub proof fn lemma_fact_pairs_ok(
    info: StorefrontInfo,
    build: Option<BuildExtended>,
    refstring: Seq<char>,
)
    ensures
        keys_distinct(spec_fact_pairs(info, build, refstring)),
        keys_purged(spec_fact_pairs(info, build, refstring), build is Some),
{
    let bp = build is Some;
    lemma_fact_keys_distinct();
    let va = match info.verification {
        Some(v) => spec_verification_pairs(v),
        None => Seq::empty(),
    };
    let pa = match info.pricing {
        Some(p) => spec_pricing_pairs(p),
        None => Seq::empty(),
    };
    let ba = match build {
        Some(b) => spec_build_pairs(b, refstring),
        None => Seq::empty(),
    };
    if info.verification is Some {
        lemma_verification_pairs_ok(info.verification->Some_0, bp);
    }
    if info.pricing is Some {
        lemma_pricing_pairs_ok(info.pricing->Some_0, bp);
    }
    if build is Some {
        lemma_build_pairs_ok(build->Some_0, refstring);
    }
    assert forall|i: int| 0 <= i < va.len() implies is_verification_key(
        (#[trigger] va[i]).0,
    ) by {}
    assert forall|i: int| 0 <= i < pa.len() implies is_pricing_key((#[trigger] pa[i]).0) by {}
    assert forall|i: int| 0 <= i < ba.len() implies is_build_key((#[trigger] ba[i]).0) by {}
    assert forall|i: int, j: int|
        #![trigger va[i], pa[j]]
        0 <= i < va.len() && 0 <= j < pa.len() implies va[i].0 != pa[j].0 by {
        assert(is_verification_key(va[i].0) && is_pricing_key(pa[j].0));
    }
    lemma_pairs_ok_concat(va, pa, bp);
    let vp = va + pa;
    assert forall|i: int, j: int|
        #![trigger vp[i], ba[j]]
        0 <= i < vp.len() && 0 <= j < ba.len() implies vp[i].0 != ba[j].0 by {
        if i < va.len() {
            assert(vp[i] == va[i]);
            assert(is_verification_key(vp[i].0));
        } else {
            assert(vp[i] == pa[i - va.len()]);
            assert(is_pricing_key(vp[i].0));
        }
        assert(is_build_key(ba[j].0));
    }
    lemma_pairs_ok_concat(vp, ba, bp);
    assert(spec_fact_pairs(info, build, refstring) == vp + ba);
}

/// Idempotence of fact injection: purging the stale facts and injecting
/// the current facts a second time, with the same facts, leaves the
/// component exactly as one application left it.  Since serialization is a
/// function of the tree, the rendered bytes of the twice-edited document
/// equal those of the once-edited document.
pub proof fn lemma_fact_injection_idempotent(
    comp: XmlNode,
    info: StorefrontInfo,
    build: Option<BuildExtended>,
    refstring: Seq<char>,
)
    ensures
        spec_rewritten_component(
            spec_rewritten_component(comp, info, build, refstring),
            info,
            build,
            refstring,
        ) == spec_rewritten_component(comp, info, build, refstring),
{
    let bp = build is Some;
    let ps = spec_fact_pairs(info, build, refstring);
    let pc = spec_purge_component(comp, bp);
    let r1 = spec_apply_pairs(pc, ps);
    lemma_fact_pairs_ok(info, build, refstring);
    if ps.len() == 0 {
        lemma_purge_component_idempotent(comp, bp);
    } else {
        lemma_first_with_tag(pc.children, "custom"@);
        let ci = spec_first_with_tag(pc.children, "custom"@);
        let e = entries_of(ps);
        assert forall|m: int| 0 <= m < e.len() implies spec_entry_purged(#[trigger] e[m], bp) by {
            assert(e[m] == spec_new_entry(ps[m].0, ps[m].1));
            lemma_new_entry(ps[m].0, ps[m].1, bp);
        }
        lemma_keep_all(e, bp);
        if ci >= 0 {
            let cur = pc.children[ci];
            assert(cur == spec_purge_node(comp.children[ci], bp));
            assert(comp.children[ci].tag == "custom"@);
            assert(cur.children == spec_keep_entries(comp.children[ci].children, bp));
            lemma_keep_not_purged(comp.children[ci].children, bp);
            assert forall|m: int, j: int|
                0 <= m < ps.len() && 0 <= j < cur.children.len() implies !spec_is_entry_for(
                #[trigger] cur.children[j],
                (#[trigger] ps[m]).0,
            ) by {
                if spec_is_entry_for(cur.children[j], ps[m].0) {
                    assert(spec_entry_key(cur.children[j]) == Some(ps[m].0));
                    assert(key_purged(ps[m].0, bp));
                    assert(spec_entry_purged(cur.children[j], bp));
                    assert(false);
                }
            }
            lemma_apply_appends(pc, ps, ci);
            let cur1 = XmlNode { children: cur.children + e, ..cur };
            assert(r1 == (XmlNode { children: pc.children.update(ci, cur1), ..pc }));
            let p2 = spec_purge_component(r1, bp);
            assert forall|x: int|
                0 <= x < r1.children.len() implies spec_purge_node(r1.children[x], bp)
                == pc.children[x] by {
                if x == ci {
                    lemma_keep_concat(cur.children, e, bp);
                    lemma_keep_none(cur.children, bp);
                    assert(spec_keep_entries(cur1.children, bp) =~= cur.children);
                    assert(r1.children[x] == cur1);
                    assert(spec_purge_node(cur1, bp) =~~= cur);
                } else {
                    assert(r1.children[x] == pc.children[x]);
                    assert(pc.children[x] == spec_purge_node(comp.children[x], bp));
                    lemma_purge_node_idempotent(comp.children[x], bp);
                }
            }
            assert(p2.children =~= pc.children);
            assert(p2 =~~= pc);
        } else {
            lemma_apply_creates(pc, ps);
            let cstar = XmlNode { children: e, ..spec_new_custom() };
            assert(r1 == (XmlNode { children: pc.children.push(cstar), ..pc }));
            let p2 = spec_purge_component(r1, bp);
            let ln = pc.children.len() as int;
            let bstar = XmlNode { children: Seq::<XmlNode>::empty(), ..spec_new_custom() };
            assert(r1.children[ln] == cstar);
            assert(spec_purge_node(cstar, bp) =~~= bstar);
            assert forall|x: int|
                0 <= x < ln implies spec_purge_node(r1.children[x], bp) == pc.children[x] by {
                assert(r1.children[x] == pc.children[x]);
                assert(pc.children[x] == spec_purge_node(comp.children[x], bp));
                lemma_purge_node_idempotent(comp.children[x], bp);
            }
            assert(p2.children =~= pc.children.push(bstar));
            lemma_first_with_tag(p2.children, "custom"@);
            let f2 = spec_first_with_tag(p2.children, "custom"@);
            assert(p2.children[ln].tag == "custom"@);
            if f2 == -1 {
                assert(false);
            }
            if f2 < ln {
                assert(p2.children[f2] == pc.children[f2]);
                assert(pc.children[f2].tag == "custom"@);
                assert(false);
            }
            assert(f2 == ln);
            assert(p2.children[ln].children.len() == 0);
            lemma_apply_appends(p2, ps, ln);
            assert(bstar.children + e =~= e);
            assert((XmlNode { children: bstar.children + e, ..bstar }) =~~= cstar);
            assert(p2.children.update(ln, cstar) =~= pc.children.push(cstar));
            assert(spec_apply_pairs(p2, ps) =~~= r1);
        }
    }
}

/// No-op detection: when the document holds no stale owned fact and the
/// facts of this run put nothing into it, the rewrite returns the input
/// document byte for byte.  The caller then finds the rewritten text equal
/// to the stored one and leaves the commit and its ref untouched.
pub proof fn lemma_no_change_keeps_document(
    info: StorefrontInfo,
    build: Option<BuildExtended>,
    refstring: Seq<char>,
    original: Seq<char>,
)
    requires
        parsed_xml(original) matches Some(root) && root.children.len() == 1
            && !spec_doc_changed(root.children[0], info, build, refstring),
    ensures
        spec_rewrite_xml(info, refstring, build, original) == Ok::<Seq<char>, RewriteError>(
            original,
        ),
{
}

/// Terminal state of the publish step for one ref.
#[derive(Debug, PartialEq)]
pub enum CommitOutcome {
    /// The rewritten commit equals the original; the ref is left alone.
    Unchanged,
    /// The ref must be pointed at the new commit.
    Rewritten,
}

/// Content addressing makes identical content give identical checksums, so
/// the ref pointer is updated exactly when the new commit's checksum
/// differs from the original one.
pub fn commit_outcome(original_checksum: &str, new_checksum: &str) -> (r: CommitOutcome)
    ensures
        (r is Unchanged) == (original_checksum@ == new_checksum@),
{
    if str_eq(original_checksum, new_checksum) {
        CommitOutcome::Unchanged
    } else {
        CommitOutcome::Rewritten
    }
}

} // verus!
