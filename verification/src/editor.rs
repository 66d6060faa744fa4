//! Semantic edits to the metadata document: purging the stale facts this
//! pipeline owns (the `flathub::` namespace) and upserting the current
//! facts into the component's `custom` block.
//!
//! The `flathub::` prefix and the preserved exceptions are matched
//! case-insensitively, while an upsert matches an existing entry by the
//! exact key; this asymmetry is deliberate and preserved.

use vstd::prelude::*;

use crate::strutil::{ci_eq, ci_has_prefix, lower_code, str_ci_eq, str_ci_has_prefix, str_eq};
use crate::xml::{
    lemma_first_with_tag, lemma_xml_view_fields, spec_attr_lookup, spec_first_with_tag,
    XmlElement, XmlNode,
};

verus! {

/// Views of a list of string pairs.
pub open spec fn pair_views(v: Seq<(String, String)>) -> Seq<(Seq<char>, Seq<char>)> {
    Seq::new(v.len(), |i: int| (v[i].0@, v[i].1@))
}

/// The key attribute of a fact entry, if it has one.
pub open spec fn spec_entry_key(e: XmlNode) -> Option<Seq<char>> {
    spec_attr_lookup(e.attrs, "key"@)
}

/// Whether a purge with (`bp`: fresh build facts are available this run)
/// drops an entry stored under `k`: the key lies in the owned `flathub::`
/// namespace, is not the always-preserved manifest reference, and is not a
/// build-log key on a run without fresh build facts.
pub open spec fn key_purged(k: Seq<char>, bp: bool) -> bool {
    ci_has_prefix(k, "flathub::"@) && !ci_eq(k, "flathub::manifest"@) && !(ci_has_prefix(
        k,
        "flathub::build::"@,
    ) && !bp)
}

/// Whether a purge with `bp` drops the entry.
pub open spec fn spec_entry_purged(e: XmlNode, bp: bool) -> bool {
    match spec_entry_key(e) {
        Some(k) => key_purged(k, bp),
        None => false,
    }
}

/// The entries of a `custom` block that a purge keeps, in order.
pub open spec fn spec_keep_entries(cs: Seq<XmlNode>, bp: bool) -> Seq<XmlNode>
    decreases cs.len(),
{
    if cs.len() == 0 {
        Seq::empty()
    } else {
        (if spec_entry_purged(cs[0], bp) {
            Seq::empty()
        } else {
            seq![cs[0]]
        }) + spec_keep_entries(cs.drop_first(), bp)
    }
}

/// Whether any entry of the list is dropped.
pub open spec fn spec_any_purged(cs: Seq<XmlNode>, bp: bool) -> bool
    decreases cs.len(),
{
    cs.len() > 0 && (spec_entry_purged(cs[0], bp) || spec_any_purged(cs.drop_first(), bp))
}

/// A purge leaves every element alone except `custom` blocks, whose
/// children are filtered.
pub open spec fn spec_purge_node(n: XmlNode, bp: bool) -> XmlNode {
    if n.tag == "custom"@ {
        XmlNode { children: spec_keep_entries(n.children, bp), ..n }
    } else {
        n
    }
}

/// The component after the purge: every `custom` block filtered.
pub open spec fn spec_purge_component(comp: XmlNode, bp: bool) -> XmlNode {
    XmlNode {
        children: Seq::new(comp.children.len(), |i: int| spec_purge_node(comp.children[i], bp)),
        ..comp
    }
}

/// Whether the purge dropped anything anywhere (over the component's
/// children).
pub open spec fn spec_purge_changed(cs: Seq<XmlNode>, bp: bool) -> bool
    decreases cs.len(),
{
    cs.len() > 0 && ((cs[0].tag == "custom"@ && spec_any_purged(cs[0].children, bp))
        || spec_purge_changed(cs.drop_first(), bp))
}

/// A fresh fact entry: `<value key="...">text</value>` with the tail the
/// editor gives appended elements.
pub open spec fn spec_new_entry(key: Seq<char>, value: Seq<char>) -> XmlNode {
    XmlNode {
        tag: "value"@,
        attrs: seq![("key"@, key)],
        text: value,
        tail: "\n  "@,
        children: Seq::empty(),
    }
}

/// A fresh, empty `custom` block as the editor appends it.
pub open spec fn spec_new_custom() -> XmlNode {
    XmlNode {
        tag: "custom"@,
        attrs: Seq::empty(),
        text: Seq::empty(),
        tail: "\n  "@,
        children: Seq::empty(),
    }
}

/// Whether the node is the fact entry stored under exactly `key`.
pub open spec fn spec_is_entry_for(e: XmlNode, key: Seq<char>) -> bool {
    e.tag == "value"@ && spec_entry_key(e) == Some(key)
}

/// Index of the first fact entry stored under exactly `key`, or `-1`.
pub open spec fn spec_first_entry(cs: Seq<XmlNode>, key: Seq<char>) -> int
    decreases cs.len(),
{
    if cs.len() == 0 {
        -1
    } else if spec_is_entry_for(cs[0], key) {
        0
    } else {
        let r = spec_first_entry(cs.drop_first(), key);
        if r == -1 {
            -1
        } else {
            r + 1
        }
    }
}

pub proof fn lemma_first_entry(cs: Seq<XmlNode>, key: Seq<char>)
    ensures
        -1 <= spec_first_entry(cs, key) < cs.len(),
        spec_first_entry(cs, key) >= 0 ==> spec_is_entry_for(cs[spec_first_entry(cs, key)], key),
        forall|j: int| 0 <= j < spec_first_entry(cs, key) ==> !spec_is_entry_for(cs[j], key),
        spec_first_entry(cs, key) == -1 ==> forall|j: int|
            0 <= j < cs.len() ==> !spec_is_entry_for(cs[j], key),
    decreases cs.len(),
{
    if cs.len() > 0 && !spec_is_entry_for(cs[0], key) {
        lemma_first_entry(cs.drop_first(), key);
        assert forall|j: int| 0 < j < cs.len() implies cs[j] == cs.drop_first()[j - 1] by {}
        if spec_first_entry(cs, key) >= 0 {
            assert(cs[spec_first_entry(cs, key)] == cs.drop_first()[spec_first_entry(
                cs.drop_first(),
                key,
            )]);
        }
    }
}

/// Upserting into one `custom` block: the first entry with exactly `key`
/// gets its text replaced; without one, a fresh entry is appended.
pub open spec fn spec_upsert_in_custom(c: XmlNode, key: Seq<char>, value: Seq<char>) -> XmlNode {
    let j = spec_first_entry(c.children, key);
    if j == -1 {
        XmlNode { children: c.children.push(spec_new_entry(key, value)), ..c }
    } else {
        XmlNode { children: c.children.update(j, XmlNode { text: value, ..c.children[j] }), ..c }
    }
}

/// Setting one fact on the component: the first `custom` block gets the
/// upsert; without one, a fresh `custom` block holding the one entry is
/// appended.
pub open spec fn spec_set_value(comp: XmlNode, key: Seq<char>, value: Seq<char>) -> XmlNode {
    let i = spec_first_with_tag(comp.children, "custom"@);
    if i == -1 {
        XmlNode {
            children: comp.children.push(
                XmlNode { children: seq![spec_new_entry(key, value)], ..spec_new_custom() },
            ),
            ..comp
        }
    } else {
        XmlNode {
            children: comp.children.update(i, spec_upsert_in_custom(comp.children[i], key, value)),
            ..comp
        }
    }
}

/// Setting a list of facts, first to last.
pub open spec fn spec_apply_pairs(comp: XmlNode, pairs: Seq<(Seq<char>, Seq<char>)>) -> XmlNode
    decreases pairs.len(),
{
    if pairs.len() == 0 {
        comp
    } else {
        spec_apply_pairs(spec_set_value(comp, pairs[0].0, pairs[0].1), pairs.drop_first())
    }
}

/// Whether a purge with `bp` drops this element.
pub fn entry_purged(e: &XmlElement, bp: bool) -> (r: bool)
    ensures
        r == spec_entry_purged(e@, bp),
{
    match e.get_attr("key") {
        Some(k) => {
            str_ci_has_prefix(k.as_str(), "flathub::") && !str_ci_eq(k.as_str(), "flathub::manifest")
                && !(str_ci_has_prefix(k.as_str(), "flathub::build::") && !bp)
        },
        None => false,
    }
}

fn clone_attrs(attrs: &Vec<(String, String)>) -> (r: Vec<(String, String)>)
    ensures
        pair_views(r@) == pair_views(attrs@),
        r@.len() == attrs@.len(),
{
    let mut out: Vec<(String, String)> = Vec::new();
    let n = attrs.len();
    let mut i: usize = 0;
    while i < n
        invariant
            n == attrs@.len(),
            i <= n,
            out@.len() == i,
            forall|j: int| 0 <= j < i ==> out@[j].0@ == attrs@[j].0@ && out@[j].1@ == attrs@[j].1@,
        decreases n - i,
    {
        let pair = (attrs[i].0.clone(), attrs[i].1.clone());
        out.push(pair);
        i += 1;
    }
    proof {
        assert(pair_views(out@) =~= pair_views(attrs@));
    }
    out
}

/// Purges the owned stale facts from every `custom` block of the component.
/// Returns the purged component and whether anything was dropped.
pub fn purge_component(comp: &XmlElement, bp: bool) -> (r: (XmlElement, bool))
    ensures
        r.0@ == spec_purge_component(comp@, bp),
        r.1 == spec_purge_changed(comp@.children, bp),
{
    proof {
        lemma_xml_view_fields(*comp);
        assert(comp@.children.skip(0) =~= comp@.children);
    }
    let n = comp.children.len();
    let mut children: Vec<XmlElement> = Vec::new();
    let mut changed = false;
    let mut i: usize = 0;
    while i < n
        invariant
            n == comp.children@.len(),
            n == comp@.children.len(),
            forall|j: int| 0 <= j < n ==> #[trigger] comp@.children[j] == comp.children@[j]@,
            i <= n,
            children@.len() == i,
            forall|j: int|
                0 <= j < i ==> #[trigger] children@[j]@ == spec_purge_node(comp@.children[j], bp),
            spec_purge_changed(comp@.children, bp) == (changed || spec_purge_changed(
                comp@.children.skip(i as int),
                bp,
            )),
        decreases n - i,
    {
        proof {
            assert(comp@.children.skip(i as int)[0] == comp@.children[i as int]);
            assert(comp@.children.skip(i as int).drop_first() =~= comp@.children.skip(i as int + 1));
            lemma_xml_view_fields(comp.children@[i as int]);
        }
        let c = &comp.children[i];
        if str_eq(c.tag.as_str(), "custom") {
            let (kept, any) = keep_entries(c, bp);
            let newc = XmlElement {
                tag: c.tag.clone(),
                attrs: clone_attrs(&c.attrs),
                text: c.text.clone(),
                tail: c.tail.clone(),
                children: kept,
            };
            proof {
                lemma_xml_view_fields(newc);
                assert(newc@.attrs =~= c@.attrs);
                assert(newc@ =~~= spec_purge_node(comp@.children[i as int], bp));
            }
            children.push(newc);
            if any {
                changed = true;
            }
        } else {
            let d = c.duplicate();
            children.push(d);
        }
        i += 1;
    }
    proof {
        assert(comp@.children.skip(n as int).len() == 0);
    }
    let r = XmlElement {
        tag: comp.tag.clone(),
        attrs: clone_attrs(&comp.attrs),
        text: comp.text.clone(),
        tail: comp.tail.clone(),
        children,
    };
    proof {
        lemma_xml_view_fields(r);
        assert(r@.attrs =~= comp@.attrs);
        assert(r@.children =~= spec_purge_component(comp@, bp).children);
        assert(r@ =~~= spec_purge_component(comp@, bp));
    }
    (r, changed)
}

/// The children of one `custom` block that the purge keeps, and whether any
/// child was dropped.
fn keep_entries(c: &XmlElement, bp: bool) -> (r: (Vec<XmlElement>, bool))
    ensures
        crate::xml::xml_views(r.0) == spec_keep_entries(c@.children, bp),
        r.1 == spec_any_purged(c@.children, bp),
{
    proof {
        lemma_xml_view_fields(*c);
        assert(c@.children.skip(0) =~= c@.children);
    }
    let n = c.children.len();
    let mut out: Vec<XmlElement> = Vec::new();
    let mut any = false;
    let ghost mut kept: Seq<XmlNode> = Seq::empty();
    let mut i: usize = 0;
    while i < n
        invariant
            n == c.children@.len(),
            n == c@.children.len(),
            forall|j: int| 0 <= j < n ==> #[trigger] c@.children[j] == c.children@[j]@,
            i <= n,
            out@.len() == kept.len(),
            forall|j: int| 0 <= j < kept.len() ==> #[trigger] out@[j]@ == kept[j],
            spec_keep_entries(c@.children, bp) == kept + spec_keep_entries(
                c@.children.skip(i as int),
                bp,
            ),
            spec_any_purged(c@.children, bp) == (any || spec_any_purged(
                c@.children.skip(i as int),
                bp,
            )),
        decreases n - i,
    {
        proof {
            assert(c@.children.skip(i as int)[0] == c@.children[i as int]);
            assert(c@.children.skip(i as int).drop_first() =~= c@.children.skip(i as int + 1));
        }
        let e = &c.children[i];
        if entry_purged(e, bp) {
            any = true;
            proof {
                assert(kept + spec_keep_entries(c@.children.skip(i as int), bp) =~= kept
                    + spec_keep_entries(c@.children.skip(i as int + 1), bp));
            }
        } else {
            let d = e.duplicate();
            out.push(d);
            proof {
                kept = kept.push(c@.children[i as int]);
                assert(kept + spec_keep_entries(c@.children.skip(i as int + 1), bp)
                    =~= kept.drop_last() + spec_keep_entries(c@.children.skip(i as int), bp));
            }
        }
        i += 1;
    }
    proof {
        assert(c@.children.skip(n as int).len() == 0);
        assert(spec_keep_entries(c@.children, bp) =~= kept);
        assert(crate::xml::xml_views(out).len() == kept.len());
        assert forall|j: int| 0 <= j < kept.len() implies crate::xml::xml_views(out)[j]
            == kept[j] by {
            assert(out@[j]@ == kept[j]);
        }
        assert(crate::xml::xml_views(out) =~= kept);
    }
    (out, any)
}

/// Whether the element is the fact entry stored under exactly `key`.
fn is_entry_for(e: &XmlElement, key: &str) -> (r: bool)
    ensures
        r == spec_is_entry_for(e@, key@),
{
    proof {
        lemma_xml_view_fields(*e);
    }
    if !str_eq(e.tag.as_str(), "value") {
        return false;
    }
    match e.get_attr("key") {
        Some(v) => str_eq(v.as_str(), key),
        None => false,
    }
}

/// A fresh fact entry element.
fn new_entry(key: &str, value: &str) -> (r: XmlElement)
    ensures
        r@ == spec_new_entry(key@, value@),
{
    let mut attrs: Vec<(String, String)> = Vec::new();
    attrs.push(("key".to_owned(), key.to_owned()));
    let r = XmlElement {
        tag: "value".to_owned(),
        attrs,
        text: value.to_owned(),
        tail: "\n  ".to_owned(),
        children: Vec::new(),
    };
    proof {
        lemma_xml_view_fields(r);
        assert(r@.attrs =~= seq![("key"@, key@)]);
        assert(r@.children =~= Seq::<XmlNode>::empty());
        assert(r@ =~~= spec_new_entry(key@, value@));
    }
    r
}

/// A copy of `comp` whose child at `j` is `newc` instead.
pub(crate) fn replace_child(comp: &XmlElement, j: usize, newc: XmlElement) -> (r: XmlElement)
    requires
        j < comp.children@.len(),
    ensures
        r@ == (XmlNode { children: comp@.children.update(j as int, newc@), ..comp@ }),
{
    proof {
        lemma_xml_view_fields(*comp);
    }
    let n = comp.children.len();
    let mut children: Vec<XmlElement> = Vec::new();
    let mut k: usize = 0;
    while k < j
        invariant
            j < n == comp.children@.len(),
            n == comp@.children.len(),
            forall|t: int| 0 <= t < n ==> #[trigger] comp@.children[t] == comp.children@[t]@,
            k <= j,
            children@.len() == k,
            forall|t: int| 0 <= t < k ==> #[trigger] children@[t]@ == comp@.children[t],
        decreases j - k,
    {
        let d = comp.children[k].duplicate();
        children.push(d);
        k += 1;
    }
    let ghost newv = newc@;
    children.push(newc);
    let mut m: usize = j + 1;
    while m < n
        invariant
            j < n == comp.children@.len(),
            n == comp@.children.len(),
            forall|t: int| 0 <= t < n ==> #[trigger] comp@.children[t] == comp.children@[t]@,
            j < m <= n,
            children@.len() == m,
            forall|t: int| 0 <= t < j ==> #[trigger] children@[t]@ == comp@.children[t],
            children@[j as int]@ == newv,
            forall|t: int| j < t < m ==> #[trigger] children@[t]@ == comp@.children[t],
        decreases n - m,
    {
        let d = comp.children[m].duplicate();
        children.push(d);
        m += 1;
    }
    let r = XmlElement {
        tag: comp.tag.clone(),
        attrs: clone_attrs(&comp.attrs),
        text: comp.text.clone(),
        tail: comp.tail.clone(),
        children,
    };
    proof {
        lemma_xml_view_fields(r);
        assert(r@.attrs =~= comp@.attrs);
        assert(r@.children =~= comp@.children.update(j as int, newv));
        assert(r@ =~~= (XmlNode { children: comp@.children.update(j as int, newv), ..comp@ }));
    }
    r
}

/// A copy of `comp` with `newc` appended to its children.
fn append_child(comp: &XmlElement, newc: XmlElement) -> (r: XmlElement)
    ensures
        r@ == (XmlNode { children: comp@.children.push(newc@), ..comp@ }),
{
    proof {
        lemma_xml_view_fields(*comp);
    }
    let n = comp.children.len();
    let mut children: Vec<XmlElement> = Vec::new();
    let mut k: usize = 0;
    while k < n
        invariant
            n == comp.children@.len(),
            n == comp@.children.len(),
            forall|t: int| 0 <= t < n ==> #[trigger] comp@.children[t] == comp.children@[t]@,
            k <= n,
            children@.len() == k,
            forall|t: int| 0 <= t < k ==> #[trigger] children@[t]@ == comp@.children[t],
        decreases n - k,
    {
        let d = comp.children[k].duplicate();
        children.push(d);
        k += 1;
    }
    let ghost newv = newc@;
    children.push(newc);
    let r = XmlElement {
        tag: comp.tag.clone(),
        attrs: clone_attrs(&comp.attrs),
        text: comp.text.clone(),
        tail: comp.tail.clone(),
        children,
    };
    proof {
        lemma_xml_view_fields(r);
        assert(r@.attrs =~= comp@.attrs);
        assert(r@.children =~= comp@.children.push(newv));
        assert(r@ =~~= (XmlNode { children: comp@.children.push(newv), ..comp@ }));
    }
    r
}

/// Index of the first fact entry of `c` stored under exactly `key`.
fn find_entry(c: &XmlElement, key: &str) -> (r: Option<usize>)
    ensures
        match r {
            Some(i) => spec_first_entry(c@.children, key@) == i as int && i < c.children@.len(),
            None => spec_first_entry(c@.children, key@) == -1,
        },
{
    proof {
        lemma_xml_view_fields(*c);
    }
    let n = c.children.len();
    let mut i: usize = 0;
    while i < n
        invariant
            n == c.children@.len(),
            n == c@.children.len(),
            i <= n,
            forall|j: int| 0 <= j < n ==> #[trigger] c@.children[j] == c.children@[j]@,
            forall|j: int| 0 <= j < i ==> !spec_is_entry_for(c@.children[j], key@),
        decreases n - i,
    {
        if is_entry_for(&c.children[i], key) {
            proof {
                assert(spec_is_entry_for(c@.children[i as int], key@));
                lemma_first_entry(c@.children, key@);
                if spec_first_entry(c@.children, key@) != i as int {
                    assert(false);
                }
            }
            return Some(i);
        }
        i += 1;
    }
    proof {
        lemma_first_entry(c@.children, key@);
        if spec_first_entry(c@.children, key@) >= 0 {
            assert(false);
        }
    }
    None
}

/// Upserts one fact into a `custom` block.
fn upsert_in_custom(c: &XmlElement, key: &str, value: &str) -> (r: XmlElement)
    ensures
        r@ == spec_upsert_in_custom(c@, key@, value@),
{
    match find_entry(c, key) {
        Some(j) => {
            let mut d = c.children[j].duplicate();
            let ghost dv = d@;
            d.text = value.to_owned();
            proof {
                lemma_xml_view_fields(d);
                assert(d@ =~~= (XmlNode { text: value@, ..c@.children[j as int] }));
            }
            replace_child(c, j, d)
        },
        None => append_child(c, new_entry(key, value)),
    }
}

/// Sets one fact on the component: upserted into the first `custom` block,
/// which is created when the component has none.
pub fn set_value(comp: &XmlElement, key: &str, value: &str) -> (r: XmlElement)
    ensures
        r@ == spec_set_value(comp@, key@, value@),
{
    match comp.first_child_with_tag("custom") {
        Some(i) => {
            let upserted = upsert_in_custom(&comp.children[i], key, value);
            proof {
                lemma_xml_view_fields(*comp);
            }
            replace_child(comp, i, upserted)
        },
        None => {
            let mut entries: Vec<XmlElement> = Vec::new();
            entries.push(new_entry(key, value));
            let custom = XmlElement {
                tag: "custom".to_owned(),
                attrs: Vec::new(),
                text: String::new(),
                tail: "\n  ".to_owned(),
                children: entries,
            };
            proof {
                lemma_xml_view_fields(custom);
                assert(custom@.attrs =~= Seq::<(Seq<char>, Seq<char>)>::empty());
                assert(custom@.children =~= seq![spec_new_entry(key@, value@)]);
                assert(custom@ =~~= (XmlNode {
                    children: seq![spec_new_entry(key@, value@)],
                    ..spec_new_custom()
                }));
            }
            append_child(comp, custom)
        },
    }
}

/// Sets a list of facts on the component, first to last.
pub fn apply_pairs(comp: XmlElement, pairs: &Vec<(String, String)>) -> (r: XmlElement)
    ensures
        r@ == spec_apply_pairs(comp@, pair_views(pairs@)),
{
    let ghost pv = pair_views(pairs@);
    proof {
        assert(pv.skip(0) =~= pv);
    }
    let n = pairs.len();
    let mut cur = comp;
    let mut i: usize = 0;
    while i < n
        invariant
            n == pairs@.len(),
            pv == pair_views(pairs@),
            pv.len() == n,
            i <= n,
            spec_apply_pairs(comp@, pv) == spec_apply_pairs(cur@, pv.skip(i as int)),
        decreases n - i,
    {
        proof {
            assert(pv.skip(i as int)[0] == pv[i as int]);
            assert(pv.skip(i as int).drop_first() =~= pv.skip(i as int + 1));
        }
        cur = set_value(&cur, pairs[i].0.as_str(), pairs[i].1.as_str());
        i += 1;
    }
    proof {
        assert(pv.skip(n as int).len() == 0);
    }
    cur
}

/// A `flathub::manifest` entry (matched case-insensitively) survives every
/// purge, with or without fresh build facts.
pub proof fn lemma_manifest_key_preserved(e: XmlNode, bp: bool)
    requires
        spec_entry_key(e) matches Some(k) && ci_eq(k, "flathub::manifest"@),
    ensures
        !spec_entry_purged(e, bp),
{
}

/// An entry under the `flathub::build::` prefix (matched
/// case-insensitively) is dropped by the purge exactly when fresh build
/// facts are available this run.
pub proof fn lemma_build_key_purged_iff_fresh_build(e: XmlNode, bp: bool)
    requires
        spec_entry_key(e) matches Some(k) && ci_has_prefix(k, "flathub::build::"@),
    ensures
        spec_entry_purged(e, bp) == bp,
{
    let k = spec_entry_key(e)->Some_0;
    reveal_strlit("flathub::");
    reveal_strlit("flathub::build::");
    reveal_strlit("flathub::manifest");
    assert forall|i: int| 0 <= i < 9 implies lower_code(k[i]) == lower_code(
        "flathub::"@[i],
    ) by {
        assert(lower_code(k[i]) == lower_code("flathub::build::"@[i]));
    }
    assert(ci_has_prefix(k, "flathub::"@));
    if ci_eq(k, "flathub::manifest"@) {
        assert(lower_code(k[9]) == lower_code("flathub::manifest"@[9]));
        assert(lower_code(k[9]) == lower_code("flathub::build::"@[9]));
        assert(false);
    }
}

/// No entry that the purge keeps satisfies the purge predicate.
pub proof fn lemma_keep_not_purged(cs: Seq<XmlNode>, bp: bool)
    ensures
        forall|j: int|
            0 <= j < spec_keep_entries(cs, bp).len() ==> !spec_entry_purged(
                #[trigger] spec_keep_entries(cs, bp)[j],
                bp,
            ),
    decreases cs.len(),
{
    if cs.len() > 0 {
        lemma_keep_not_purged(cs.drop_first(), bp);
        let k = spec_keep_entries(cs, bp);
        let krest = spec_keep_entries(cs.drop_first(), bp);
        assert forall|j: int| 0 <= j < k.len() implies !spec_entry_purged(k[j], bp) by {
            if spec_entry_purged(cs[0], bp) {
                assert(k =~= krest);
            } else {
                assert(k =~= seq![cs[0]] + krest);
                if j > 0 {
                    assert(k[j] == krest[j - 1]);
                }
            }
        }
    }
}

/// A list without purged entries is kept whole.
pub proof fn lemma_keep_none(cs: Seq<XmlNode>, bp: bool)
    requires
        forall|j: int| 0 <= j < cs.len() ==> !spec_entry_purged(#[trigger] cs[j], bp),
    ensures
        spec_keep_entries(cs, bp) == cs,
    decreases cs.len(),
{
    if cs.len() > 0 {
        assert forall|j: int|
            0 <= j < cs.drop_first().len() implies !spec_entry_purged(
            #[trigger] cs.drop_first()[j],
            bp,
        ) by {
            assert(cs.drop_first()[j] == cs[j + 1]);
        }
        lemma_keep_none(cs.drop_first(), bp);
        assert(spec_keep_entries(cs, bp) =~= cs);
    } else {
        assert(spec_keep_entries(cs, bp) =~= cs);
    }
}

/// A list of purged entries is dropped whole.
pub proof fn lemma_keep_all(cs: Seq<XmlNode>, bp: bool)
    requires
        forall|j: int| 0 <= j < cs.len() ==> spec_entry_purged(#[trigger] cs[j], bp),
    ensures
        spec_keep_entries(cs, bp) == Seq::<XmlNode>::empty(),
    decreases cs.len(),
{
    if cs.len() > 0 {
        assert forall|j: int|
            0 <= j < cs.drop_first().len() implies spec_entry_purged(
            #[trigger] cs.drop_first()[j],
            bp,
        ) by {
            assert(cs.drop_first()[j] == cs[j + 1]);
        }
        lemma_keep_all(cs.drop_first(), bp);
        assert(spec_keep_entries(cs, bp) =~= Seq::<XmlNode>::empty());
    } else {
        assert(spec_keep_entries(cs, bp) =~= Seq::<XmlNode>::empty());
    }
}

/// The purge distributes over concatenation.
pub proof fn lemma_keep_concat(a: Seq<XmlNode>, b: Seq<XmlNode>, bp: bool)
    ensures
        spec_keep_entries(a + b, bp) == spec_keep_entries(a, bp) + spec_keep_entries(b, bp),
    decreases a.len(),
{
    if a.len() == 0 {
        assert(a + b =~= b);
        assert(spec_keep_entries(a, bp) + spec_keep_entries(b, bp) =~= spec_keep_entries(b, bp));
    } else {
        assert((a + b)[0] == a[0]);
        assert((a + b).drop_first() =~= a.drop_first() + b);
        lemma_keep_concat(a.drop_first(), b, bp);
        assert(spec_keep_entries(a + b, bp) =~= spec_keep_entries(a, bp) + spec_keep_entries(
            b,
            bp,
        ));
    }
}

/// Purging twice keeps what purging once keeps.
pub proof fn lemma_keep_idempotent(cs: Seq<XmlNode>, bp: bool)
    ensures
        spec_keep_entries(spec_keep_entries(cs, bp), bp) == spec_keep_entries(cs, bp),
{
    lemma_keep_not_purged(cs, bp);
    lemma_keep_none(spec_keep_entries(cs, bp), bp);
}

/// Purging one element twice equals purging it once.
pub proof fn lemma_purge_node_idempotent(n: XmlNode, bp: bool)
    ensures
        spec_purge_node(spec_purge_node(n, bp), bp) == spec_purge_node(n, bp),
{
    if n.tag == "custom"@ {
        lemma_keep_idempotent(n.children, bp);
        assert(spec_purge_node(spec_purge_node(n, bp), bp) =~~= spec_purge_node(n, bp));
    }
}

/// Purging the component twice equals purging it once.
pub proof fn lemma_purge_component_idempotent(comp: XmlNode, bp: bool)
    ensures
        spec_purge_component(spec_purge_component(comp, bp), bp) == spec_purge_component(comp, bp),
{
    let p = spec_purge_component(comp, bp);
    assert forall|i: int| 0 <= i < p.children.len() implies spec_purge_node(p.children[i], bp)
        == p.children[i] by {
        assert(p.children[i] == spec_purge_node(comp.children[i], bp));
        lemma_purge_node_idempotent(comp.children[i], bp);
    }
    assert(spec_purge_component(p, bp).children =~= p.children);
    assert(spec_purge_component(p, bp) =~~= p);
}

/// The keys of the pairs are pairwise distinct.
pub open spec fn keys_distinct(ps: Seq<(Seq<char>, Seq<char>)>) -> bool {
    forall|i: int, j: int|
        #![trigger ps[i], ps[j]]
        0 <= i < j < ps.len() ==> ps[i].0 != ps[j].0
}

/// Every key of the pairs satisfies the purge predicate.
pub open spec fn keys_purged(ps: Seq<(Seq<char>, Seq<char>)>, bp: bool) -> bool {
    forall|i: int| 0 <= i < ps.len() ==> key_purged(#[trigger] ps[i].0, bp)
}

/// Distinctness and purgeability of keys carry over concatenation when the
/// two parts share no key.
pub proof fn lemma_pairs_ok_concat(
    a: Seq<(Seq<char>, Seq<char>)>,
    b: Seq<(Seq<char>, Seq<char>)>,
    bp: bool,
)
    requires
        keys_distinct(a),
        keys_distinct(b),
        keys_purged(a, bp),
        keys_purged(b, bp),
        forall|i: int, j: int|
            #![trigger a[i], b[j]]
            0 <= i < a.len() && 0 <= j < b.len() ==> a[i].0 != b[j].0,
    ensures
        keys_distinct(a + b),
        keys_purged(a + b, bp),
{
    assert forall|i: int| 0 <= i < (a + b).len() implies key_purged(
        (#[trigger] (a + b)[i]).0,
        bp,
    ) by {
        if i < a.len() {
            assert((a + b)[i] == a[i]);
        } else {
            assert((a + b)[i] == b[i - a.len()]);
        }
    }
    assert forall|i: int, j: int|
        #![trigger (a + b)[i], (a + b)[j]]
        0 <= i < j < (a + b).len() implies (a + b)[i].0 != (a + b)[j].0 by {
        if i < a.len() {
            assert((a + b)[i] == a[i]);
        } else {
            assert((a + b)[i] == b[i - a.len()]);
        }
        if j < a.len() {
            assert((a + b)[j] == a[j]);
        } else {
            assert((a + b)[j] == b[j - a.len()]);
        }
    }
}

/// The fresh entries for a list of fact pairs, in order.
pub open spec fn entries_of(ps: Seq<(Seq<char>, Seq<char>)>) -> Seq<XmlNode> {
    Seq::new(ps.len(), |i: int| spec_new_entry(ps[i].0, ps[i].1))
}

/// What a fresh entry is stored under.
pub proof fn lemma_new_entry(k: Seq<char>, v: Seq<char>, bp: bool)
    ensures
        spec_entry_key(spec_new_entry(k, v)) == Some(k),
        forall|k2: Seq<char>| spec_is_entry_for(spec_new_entry(k, v), k2) <==> k2 == k,
        spec_entry_purged(spec_new_entry(k, v), bp) == key_purged(k, bp),
{
    assert(spec_attr_lookup(seq![("key"@, k)], "key"@) == Some(k));
}

/// Applying fact pairs to a component whose first `custom` block holds no
/// entry under any of the pairs' keys appends one fresh entry per pair, in
/// order, to that block.
pub proof fn lemma_apply_appends(comp: XmlNode, ps: Seq<(Seq<char>, Seq<char>)>, ci: int)
    requires
        ci == spec_first_with_tag(comp.children, "custom"@),
        0 <= ci,
        keys_distinct(ps),
        forall|m: int, j: int|
            0 <= m < ps.len() && 0 <= j < comp.children[ci].children.len()
                ==> !spec_is_entry_for(
                #[trigger] comp.children[ci].children[j],
                (#[trigger] ps[m]).0,
            ),
    ensures
        spec_apply_pairs(comp, ps) == (XmlNode {
            children: comp.children.update(
                ci,
                XmlNode {
                    children: comp.children[ci].children + entries_of(ps),
                    ..comp.children[ci]
                },
            ),
            ..comp
        }),
    decreases ps.len(),
{
    lemma_first_with_tag(comp.children, "custom"@);
    if ps.len() == 0 {
        assert(comp.children[ci].children + entries_of(ps) =~= comp.children[ci].children);
        assert((XmlNode {
            children: comp.children[ci].children + entries_of(ps),
            ..comp.children[ci]
        }) =~~= comp.children[ci]);
        assert(comp.children.update(ci, comp.children[ci]) =~= comp.children);
        assert((XmlNode {
            children: comp.children.update(
                ci,
                XmlNode {
                    children: comp.children[ci].children + entries_of(ps),
                    ..comp.children[ci]
                },
            ),
            ..comp
        }) =~~= comp);
    } else {
        let p0 = ps[0];
        let rest = ps.drop_first();
        let cur = comp.children[ci];
        // the upsert of the first pair appends: no entry carries its key
        lemma_first_entry(cur.children, p0.0);
        if spec_first_entry(cur.children, p0.0) >= 0 {
            assert(spec_is_entry_for(cur.children[spec_first_entry(cur.children, p0.0)], p0.0));
            assert(false);
        }
        let e0 = spec_new_entry(p0.0, p0.1);
        let cur2 = XmlNode { children: cur.children.push(e0), ..cur };
        let comp2 = XmlNode { children: comp.children.update(ci, cur2), ..comp };
        assert(spec_set_value(comp, p0.0, p0.1) == comp2);
        // the first custom block is still the one at ci
        lemma_first_with_tag(comp2.children, "custom"@);
        let f2 = spec_first_with_tag(comp2.children, "custom"@);
        assert(comp2.children[ci].tag == "custom"@);
        if f2 == -1 {
            assert(false);
        }
        if f2 < ci {
            assert(comp2.children[f2] == comp.children[f2]);
            assert(false);
        }
        if f2 > ci {
            assert(comp2.children[ci].tag != "custom"@);
            assert(false);
        }
        // the remaining pairs still match no entry of the block
        assert forall|m: int, j: int|
            0 <= m < rest.len() && 0 <= j < comp2.children[ci].children.len()
                implies !spec_is_entry_for(
            #[trigger] comp2.children[ci].children[j],
            (#[trigger] rest[m]).0,
        ) by {
            assert(rest[m] == ps[m + 1]);
            if j < cur.children.len() {
                assert(comp2.children[ci].children[j] == cur.children[j]);
            } else {
                assert(comp2.children[ci].children[j] == e0);
                lemma_new_entry(p0.0, p0.1, true);
                assert(ps[0].0 != ps[m + 1].0);
            }
        }
        assert forall|i: int, j: int|
            #![trigger rest[i], rest[j]]
            0 <= i < j < rest.len() implies rest[i].0 != rest[j].0 by {
            assert(rest[i] == ps[i + 1]);
            assert(rest[j] == ps[j + 1]);
        }
        lemma_apply_appends(comp2, rest, ci);
        // collapse the two updates and the appended entries
        assert(cur2.children + entries_of(rest) =~= cur.children + entries_of(ps));
        assert((XmlNode { children: cur2.children + entries_of(rest), ..cur2 }) =~~= (XmlNode {
            children: cur.children + entries_of(ps),
            ..cur
        }));
        assert(comp2.children.update(
            ci,
            XmlNode { children: cur2.children + entries_of(rest), ..cur2 },
        ) =~= comp.children.update(ci, XmlNode { children: cur.children + entries_of(ps), ..cur }));
        assert(spec_apply_pairs(comp, ps) =~~= (XmlNode {
            children: comp.children.update(
                ci,
                XmlNode { children: cur.children + entries_of(ps), ..cur },
            ),
            ..comp
        }));
    }
}

/// Applying fact pairs to a component without a `custom` block appends one
/// fresh block holding one fresh entry per pair, in order.
pub proof fn lemma_apply_creates(comp: XmlNode, ps: Seq<(Seq<char>, Seq<char>)>)
    requires
        spec_first_with_tag(comp.children, "custom"@) == -1,
        ps.len() > 0,
        keys_distinct(ps),
    ensures
        spec_apply_pairs(comp, ps) == (XmlNode {
            children: comp.children.push(
                XmlNode { children: entries_of(ps), ..spec_new_custom() },
            ),
            ..comp
        }),
{
    lemma_first_with_tag(comp.children, "custom"@);
    let p0 = ps[0];
    let rest = ps.drop_first();
    let e0 = spec_new_entry(p0.0, p0.1);
    let c0 = XmlNode { children: seq![e0], ..spec_new_custom() };
    let comp2 = XmlNode { children: comp.children.push(c0), ..comp };
    assert(spec_set_value(comp, p0.0, p0.1) == comp2);
    let ln = comp.children.len() as int;
    lemma_first_with_tag(comp2.children, "custom"@);
    let f2 = spec_first_with_tag(comp2.children, "custom"@);
    assert(comp2.children[ln].tag == "custom"@);
    if f2 == -1 {
        assert(false);
    }
    if f2 < ln {
        assert(comp2.children[f2] == comp.children[f2]);
        assert(false);
    }
    assert(f2 == ln);
    assert forall|m: int, j: int|
        0 <= m < rest.len() && 0 <= j < comp2.children[ln].children.len()
            implies !spec_is_entry_for(
        #[trigger] comp2.children[ln].children[j],
        (#[trigger] rest[m]).0,
    ) by {
        assert(rest[m] == ps[m + 1]);
        assert(comp2.children[ln].children[j] == e0);
        lemma_new_entry(p0.0, p0.1, true);
        assert(ps[0].0 != ps[m + 1].0);
    }
    assert forall|i: int, j: int|
        #![trigger rest[i], rest[j]]
        0 <= i < j < rest.len() implies rest[i].0 != rest[j].0 by {
        assert(rest[i] == ps[i + 1]);
        assert(rest[j] == ps[j + 1]);
    }
    lemma_apply_appends(comp2, rest, ln);
    assert(c0.children + entries_of(rest) =~= entries_of(ps));
    assert((XmlNode { children: c0.children + entries_of(rest), ..c0 }) =~~= (XmlNode {
        children: entries_of(ps),
        ..spec_new_custom()
    }));
    assert(comp2.children.update(ln, XmlNode { children: entries_of(ps), ..spec_new_custom() })
        =~= comp.children.push(XmlNode { children: entries_of(ps), ..spec_new_custom() }));
    assert(spec_apply_pairs(comp, ps) =~~= (XmlNode {
        children: comp.children.push(XmlNode { children: entries_of(ps), ..spec_new_custom() }),
        ..comp
    }));
}

} // verus!
