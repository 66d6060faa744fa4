//! The metadata document model: an XML element tree holding tag, attributes,
//! text, tail and child elements as plain values, together with its
//! mathematical view.  Parsing and serialization are done by the
//! `elementtree` crate behind trusted wrappers; every edit to a document is
//! performed on this model and verified.

use vstd::prelude::*;

use crate::strutil::str_eq;

verus! {

broadcast use vstd::std_specs::vec::group_vec_axioms;

/// One XML element.  `text` is the character data directly after the start
/// tag; `tail` is the character data directly after the end tag (the
/// convention the `elementtree` crate uses).
pub struct XmlElement {
    pub tag: String,
    pub attrs: Vec<(String, String)>,
    pub text: String,
    pub tail: String,
    pub children: Vec<XmlElement>,
}

/// The mathematical value of an [`XmlElement`].
#[verifier::ext_equal]
pub ghost struct XmlNode {
    pub tag: Seq<char>,
    pub attrs: Seq<(Seq<char>, Seq<char>)>,
    pub text: Seq<char>,
    pub tail: Seq<char>,
    pub children: Seq<XmlNode>,
}

pub open spec fn xml_view(e: XmlElement) -> XmlNode
    decreases e,
{
    XmlNode {
        tag: e.tag@,
        attrs: Seq::new(e.attrs@.len(), |i: int| (e.attrs@[i].0@, e.attrs@[i].1@)),
        text: e.text@,
        tail: e.tail@,
        children: xml_views(e.children),
    }
}

/// The node every out-of-range index of [`xml_views`] maps to; never
/// reached by a well-formed index.
pub open spec fn empty_xml_node() -> XmlNode {
    XmlNode {
        tag: Seq::empty(),
        attrs: Seq::empty(),
        text: Seq::empty(),
        tail: Seq::empty(),
        children: Seq::empty(),
    }
}

pub open spec fn xml_views(v: Vec<XmlElement>) -> Seq<XmlNode>
    decreases v,
{
    Seq::new(
        v@.len(),
        |i: int|
            if 0 <= i < v@.len() {
                xml_view(v[i])
            } else {
                empty_xml_node()
            },
    )
}

impl View for XmlElement {
    type V = XmlNode;

    open spec fn view(&self) -> XmlNode {
        xml_view(*self)
    }
}

/// First value among `attrs` stored under `name`, if any.
pub open spec fn spec_attr_lookup(attrs: Seq<(Seq<char>, Seq<char>)>, name: Seq<char>) -> Option<
    Seq<char>,
>
    decreases attrs.len(),
{
    if attrs.len() == 0 {
        None
    } else if attrs[0].0 == name {
        Some(attrs[0].1)
    } else {
        spec_attr_lookup(attrs.drop_first(), name)
    }
}

/// Index of the first of `cs` with tag `tag`, or `-1` when there is none.
pub open spec fn spec_first_with_tag(cs: Seq<XmlNode>, tag: Seq<char>) -> int
    decreases cs.len(),
{
    if cs.len() == 0 {
        -1
    } else if cs[0].tag == tag {
        0
    } else {
        let r = spec_first_with_tag(cs.drop_first(), tag);
        if r == -1 {
            -1
        } else {
            r + 1
        }
    }
}

pub proof fn lemma_first_with_tag(cs: Seq<XmlNode>, tag: Seq<char>)
    ensures
        -1 <= spec_first_with_tag(cs, tag) < cs.len(),
        spec_first_with_tag(cs, tag) >= 0 ==> cs[spec_first_with_tag(cs, tag)].tag == tag,
        forall|j: int|
            0 <= j < spec_first_with_tag(cs, tag) ==> cs[j].tag != tag,
        spec_first_with_tag(cs, tag) == -1 ==> forall|j: int| 0 <= j < cs.len() ==> cs[j].tag != tag,
    decreases cs.len(),
{
    if cs.len() > 0 && cs[0].tag != tag {
        lemma_first_with_tag(cs.drop_first(), tag);
        assert forall|j: int| 0 < j < cs.len() implies cs[j] == cs.drop_first()[j - 1] by {}
        if spec_first_with_tag(cs, tag) >= 0 {
            assert(cs[spec_first_with_tag(cs, tag)] == cs.drop_first()[spec_first_with_tag(
                cs.drop_first(),
                tag,
            )]);
        }
    }
}

/// How many of `cs` carry tag `tag`.
pub open spec fn spec_count_tag(cs: Seq<XmlNode>, tag: Seq<char>) -> nat
    decreases cs.len(),
{
    if cs.len() == 0 {
        0
    } else {
        (if cs[0].tag == tag {
            1nat
        } else {
            0nat
        }) + spec_count_tag(cs.drop_first(), tag)
    }
}

/// How the view of an element reads off its fields.
pub proof fn lemma_xml_view_fields(e: XmlElement)
    ensures
        e@.tag == e.tag@,
        e@.text == e.text@,
        e@.tail == e.tail@,
        e@.attrs.len() == e.attrs@.len(),
        forall|i: int|
            0 <= i < e.attrs@.len() ==> e@.attrs[i] == (e.attrs@[i].0@, e.attrs@[i].1@),
        e@.children.len() == e.children@.len(),
        forall|i: int| 0 <= i < e.children@.len() ==> e@.children[i] == e.children@[i]@,
{
}

impl XmlElement {
    /// A structurally equal copy of the element.
    pub fn duplicate(&self) -> (r: XmlElement)
        ensures
            r@ == self@,
        decreases *self,
    {
        let mut attrs: Vec<(String, String)> = Vec::new();
        let mut i: usize = 0;
        let n = self.attrs.len();
        while i < n
            invariant
                n == self.attrs@.len(),
                i <= n,
                attrs@.len() == i,
                forall|j: int|
                    0 <= j < i ==> attrs@[j].0@ == self.attrs@[j].0@ && attrs@[j].1@
                        == self.attrs@[j].1@,
            decreases n - i,
        {
            let pair = (self.attrs[i].0.clone(), self.attrs[i].1.clone());
            attrs.push(pair);
            i += 1;
        }
        let mut children: Vec<XmlElement> = Vec::new();
        let m = self.children.len();
        let mut k: usize = 0;
        while k < m
            invariant
                m == self.children@.len(),
                k <= m,
                children@.len() == k,
                forall|j: int| 0 <= j < k ==> #[trigger] children@[j]@ == self.children@[j]@,
            decreases m - k,
        {
            let c = self.children[k].duplicate();
            children.push(c);
            k += 1;
        }
        let r = XmlElement {
            tag: self.tag.clone(),
            attrs,
            text: self.text.clone(),
            tail: self.tail.clone(),
            children,
        };
        proof {
            lemma_xml_view_fields(r);
            lemma_xml_view_fields(*self);
            assert(r@.attrs =~= self@.attrs);
            assert(r@.children =~= self@.children);
            assert(r@ =~~= self@);
        }
        r
    }

    /// First value of the attribute `name`, if the element has it.
    pub fn get_attr(&self, name: &str) -> (r: Option<&String>)
        ensures
            match spec_attr_lookup(self@.attrs, name@) {
                Some(v) => r matches Some(s) && s@ == v,
                None => r is None,
            },
    {
        let n = self.attrs.len();
        proof {
            assert(self@.attrs.skip(0) =~= self@.attrs);
        }
        let mut i: usize = 0;
        while i < n
            invariant
                n == self.attrs@.len(),
                n == self@.attrs.len(),
                i <= n,
                forall|j: int|
                    0 <= j < n ==> self@.attrs[j] == (self.attrs@[j].0@, self.attrs@[j].1@),
                spec_attr_lookup(self@.attrs, name@) == spec_attr_lookup(
                    self@.attrs.skip(i as int),
                    name@,
                ),
            decreases n - i,
        {
            proof {
                assert(self@.attrs.skip(i as int)[0] == self@.attrs[i as int]);
                assert(self@.attrs.skip(i as int).drop_first() =~= self@.attrs.skip(i as int + 1));
            }
            if str_eq(self.attrs[i].0.as_str(), name) {
                return Some(&self.attrs[i].1);
            }
            i += 1;
        }
        proof {
            assert(self@.attrs.skip(n as int).len() == 0);
        }
        None
    }

    /// Index of the first child with tag `tag`.
    pub fn first_child_with_tag(&self, tag: &str) -> (r: Option<usize>)
        ensures
            match r {
                Some(i) => spec_first_with_tag(self@.children, tag@) == i as int && i
                    < self.children@.len(),
                None => spec_first_with_tag(self@.children, tag@) == -1,
            },
    {
        let n = self.children.len();
        proof {
            lemma_xml_view_fields(*self);
        }
        let mut i: usize = 0;
        while i < n
            invariant
                n == self.children@.len(),
                n == self@.children.len(),
                i <= n,
                forall|j: int| 0 <= j < n ==> #[trigger] self@.children[j] == self.children@[j]@,
                forall|j: int| 0 <= j < i ==> self@.children[j].tag != tag@,
            decreases n - i,
        {
            proof {
                lemma_xml_view_fields(self.children@[i as int]);
            }
            if str_eq(self.children[i].tag.as_str(), tag) {
                proof {
                    lemma_first_with_tag(self@.children, tag@);
                    let f = spec_first_with_tag(self@.children, tag@);
                    assert(self@.children[i as int].tag == tag@);
                    if f != i as int {
                        assert(false);
                    }
                }
                return Some(i);
            }
            i += 1;
        }
        proof {
            lemma_first_with_tag(self@.children, tag@);
            let f = spec_first_with_tag(self@.children, tag@);
            if f >= 0 {
                assert(self@.children[f].tag == tag@);
                assert(false);
            }
        }
        None
    }

    /// How many children carry tag `tag`.
    pub fn count_children_with_tag(&self, tag: &str) -> (r: usize)
        ensures
            r == spec_count_tag(self@.children, tag@),
    {
        let n = self.children.len();
        proof {
            assert(self@.children.skip(0) =~= self@.children);
            lemma_count_tag_bound(self@.children, tag@);
        }
        let mut i: usize = 0;
        let mut count: usize = 0;
        while i < n
            invariant
                n == self.children@.len(),
                n == self@.children.len(),
                i <= n,
                count <= i,
                forall|j: int| 0 <= j < n ==> #[trigger] self@.children[j] == self.children@[j]@,
                spec_count_tag(self@.children, tag@) == count + spec_count_tag(
                    self@.children.skip(i as int),
                    tag@,
                ),
            decreases n - i,
        {
            proof {
                assert(self@.children.skip(i as int)[0] == self@.children[i as int]);
                assert(self@.children.skip(i as int).drop_first() =~= self@.children.skip(
                    i as int + 1,
                ));
            }
            if str_eq(self.children[i].tag.as_str(), tag) {
                count += 1;
            }
            i += 1;
        }
        proof {
            assert(self@.children.skip(n as int).len() == 0);
        }
        count
    }
}

pub proof fn lemma_count_tag_bound(cs: Seq<XmlNode>, tag: Seq<char>)
    ensures
        spec_count_tag(cs, tag) <= cs.len(),
    decreases cs.len(),
{
    if cs.len() > 0 {
        lemma_count_tag_bound(cs.drop_first(), tag);
    }
}

/// Errors of the trusted XML boundary.
pub enum XmlError {
    /// The bytes are not a well-formed XML document.
    Parse,
    /// The tree could not be serialized.
    Render,
}

/// What `elementtree` parses a document to, as this crate's model; `None`
/// when the document is rejected.  Parsing is a function of the input text
/// alone.
pub uninterp spec fn parsed_xml(s: Seq<char>) -> Option<XmlNode>;

/// What `elementtree` serializes a tree to (an XML document with a prolog);
/// `None` when the tree is rejected.  Serialization is a function of the
/// tree alone.
pub uninterp spec fn rendered_xml(t: XmlNode) -> Option<Seq<char>>;

#[verifier::external_type_specification]
#[verifier::external_body]
pub struct ExElement(elementtree::Element);

/// Relies on `elementtree::Element` accessors: rebuilds the parsed element
/// tree, its attributes (in the stored order) and its text and tail content
/// as plain values.
#[verifier::external_body]
fn elem_to_xml(e: &elementtree::Element) -> XmlElement {
    XmlElement {
        tag: e.tag().name().to_string(),
        attrs: e.attrs().map(|(k, v)| (k.name().to_string(), v.to_string())).collect(),
        text: e.text().to_string(),
        tail: e.tail().to_string(),
        children: e.children().map(elem_to_xml).collect(),
    }
}

/// Relies on `elementtree::Element` builders: rebuilds the model tree as an
/// `elementtree` element, field for field.
#[verifier::external_body]
fn xml_to_elem(x: &XmlElement) -> elementtree::Element {
    let mut e = elementtree::Element::new(x.tag.as_str());
    for (k, v) in x.attrs.iter() {
        e.set_attr(k.as_str(), v.as_str());
    }
    e.set_text(x.text.as_str());
    e.set_tail(x.tail.as_str());
    for c in x.children.iter() {
        e.append_child(xml_to_elem(c));
    }
    e
}

/// Relies on `elementtree::Element::from_reader`: parses an XML document
/// deterministically, returning the root element.
#[verifier::external_body]
pub fn parse_xml(s: &str) -> (r: Result<XmlElement, XmlError>)
    ensures
        r matches Ok(e) ==> parsed_xml(s@) == Some(e@),
        r matches Err(_) ==> parsed_xml(s@) is None,
{
    match elementtree::Element::from_reader(s.as_bytes()) {
        Ok(root) => Ok(elem_to_xml(&root)),
        Err(_) => Err(XmlError::Parse),
    }
}

/// Relies on `elementtree::Element::to_string`: serializes the tree to an
/// XML document deterministically, with an XML prolog in front.
#[verifier::external_body]
pub fn render_xml(x: &XmlElement) -> (r: Result<String, XmlError>)
    ensures
        r matches Ok(s) ==> rendered_xml(x@) == Some(s@),
        r matches Err(_) ==> rendered_xml(x@) is None,
{
    match xml_to_elem(x).to_string() {
        Ok(s) => Ok(s),
        Err(_) => Err(XmlError::Render),
    }
}

} // verus!
