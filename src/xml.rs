//! Reading a document with roxmltree and walking its forms and fields.
use roxmltree::{Document, NodeId};
use vstd::prelude::*;

use crate::record::{forms_view, RawField, RawFieldModel, RawForm, RawFormModel};

verus! {

#[verifier::external_type_specification]
#[verifier::external_body]
pub struct ExDocument<'input>(Document<'input>);

#[verifier::external_type_specification]
#[verifier::external_body]
pub struct ExXmlError(roxmltree::Error);

/// Whether roxmltree's `Document::parse` accepts `text` as a document.
pub uninterp spec fn xml_accepts(text: Seq<char>) -> bool;

/// The id of the root element of the document parsed from `text`.
pub uninterp spec fn xml_root_element(text: Seq<char>) -> u32;

/// The ids of the children of node `id`, in document order.
pub uninterp spec fn xml_children(text: Seq<char>, id: u32) -> Seq<u32>;

/// Whether node `id` is an element.
pub uninterp spec fn xml_is_element(text: Seq<char>, id: u32) -> bool;

/// The local tag name of node `id`; empty for a node that is no element.
pub uninterp spec fn xml_tag(text: Seq<char>, id: u32) -> Seq<char>;

/// The text of node `id`: for an element, that of its first child where
/// that child is text.
pub uninterp spec fn xml_text(text: Seq<char>, id: u32) -> Option<Seq<char>>;

/// A parsed document together with the text it was parsed from. Nodes are
/// named by their ids.
pub struct XmlTree<'a> {
    source: &'a str,
    doc: Document<'a>,
}

impl<'a> View for XmlTree<'a> {
    type V = Seq<char>;

    closed spec fn view(&self) -> Seq<char> {
        self.source@
    }
}

/// Relies on roxmltree's `Document::parse`: it succeeds on a well-formed
/// document and yields the tree of that text.
#[verifier::external_body]
fn parse_tree<'a>(text: &'a str) -> (r: Result<XmlTree<'a>, roxmltree::Error>)
    ensures
        r is Ok <==> xml_accepts(text@),
        r matches Ok(t) ==> t@ == text@,
{
    match Document::parse(text) {
        Ok(doc) => Ok(XmlTree { source: text, doc }),
        Err(e) => Err(e),
    }
}

/// Relies on the `Display` of roxmltree's `Error`: a description of what
/// went wrong and where.
#[verifier::external_body]
fn error_text(e: &roxmltree::Error) -> String {
    e.to_string()
}

/// Relies on roxmltree's `Document::root_element`, which every parsed
/// document has, and on `NodeId::get`, which is below `u32::MAX`.
#[verifier::external_body]
fn root_element(t: &XmlTree) -> (r: u32)
    ensures
        r == xml_root_element(t@),
        r < u32::MAX,
{
    t.doc.root_element().id().get()
}

/// Relies on roxmltree's `Node::children`, by id, and on `NodeId::get`.
#[verifier::external_body]
fn children(t: &XmlTree, id: u32) -> (r: Vec<u32>)
    requires
        id < u32::MAX,
    ensures
        r@ == xml_children(t@, id),
        forall|i: int| 0 <= i < r@.len() ==> r@[i] < u32::MAX,
{
    match t.doc.get_node(NodeId::new(id)) {
        Some(n) => n.children().map(|c| c.id().get()).collect(),
        None => Vec::new(),
    }
}

/// Relies on roxmltree's `Node::is_element`.
#[verifier::external_body]
fn is_element(t: &XmlTree, id: u32) -> (r: bool)
    requires
        id < u32::MAX,
    ensures
        r == xml_is_element(t@, id),
{
    match t.doc.get_node(NodeId::new(id)) {
        Some(n) => n.is_element(),
        None => false,
    }
}

/// Relies on roxmltree's `Node::tag_name` and `ExpandedName::name`.
#[verifier::external_body]
fn tag_name(t: &XmlTree, id: u32) -> (r: String)
    requires
        id < u32::MAX,
    ensures
        r@ == xml_tag(t@, id),
{
    match t.doc.get_node(NodeId::new(id)) {
        Some(n) => n.tag_name().name().to_string(),
        None => String::new(),
    }
}

/// Relies on roxmltree's `Node::text`.
#[verifier::external_body]
fn node_text(t: &XmlTree, id: u32) -> (r: Option<String>)
    requires
        id < u32::MAX,
    ensures
        match r {
            Some(s) => xml_text(t@, id) == Some(s@),
            None => xml_text(t@, id) is None,
        },
{
    match t.doc.get_node(NodeId::new(id)) {
        Some(n) => n.text().map(|s| s.to_string()),
        None => None,
    }
}

/// Whether node `id` counts as a field: an element with a tag name.
pub open spec fn is_field(text: Seq<char>, id: u32) -> bool {
    xml_is_element(text, id) && xml_tag(text, id).len() > 0
}

/// The fields among the nodes `ids`, in order.
pub open spec fn fields_spec(text: Seq<char>, ids: Seq<u32>) -> Seq<RawFieldModel>
    decreases ids.len(),
{
    if ids.len() == 0 {
        seq![]
    } else {
        let r = fields_spec(text, ids.drop_last());
        let c = ids.last();
        if is_field(text, c) {
            r.push((xml_tag(text, c), xml_text(text, c)))
        } else {
            r
        }
    }
}

/// The forms of a document: every child of the root element, with its tag
/// name and its fields.
pub open spec fn walk_spec(text: Seq<char>) -> Seq<RawFormModel> {
    xml_children(text, xml_root_element(text)).map_values(
        |f: u32| (xml_tag(text, f), fields_spec(text, xml_children(text, f))),
    )
}

/// The fields of form `id`, in document order.
fn form_fields(t: &XmlTree, id: u32) -> (r: Vec<RawField>)
    requires
        id < u32::MAX,
    ensures
        r@.map_values(|f: RawField| f@) == fields_spec(t@, xml_children(t@, id)),
{
    let ids = children(t, id);
    let mut out: Vec<RawField> = Vec::new();
    let mut i: usize = 0;
    while i < ids.len()
        invariant
            i <= ids@.len(),
            ids@ == xml_children(t@, id),
            forall|j: int| 0 <= j < ids@.len() ==> ids@[j] < u32::MAX,
            out@.map_values(|f: RawField| f@) == fields_spec(t@, ids@.subrange(0, i as int)),
        decreases ids@.len() - i,
    {
        let c = ids[i];
        assert(ids@.subrange(0, i + 1).drop_last() =~= ids@.subrange(0, i as int));
        let ghost before = out@.map_values(|f: RawField| f@);
        if is_element(t, c) {
            let tag = tag_name(t, c);
            if !tag.as_str().is_empty() {
                let text = node_text(t, c);
                let f = RawField { tag, text };
                assert(f@ == (xml_tag(t@, c), xml_text(t@, c)));
                out.push(f);
                assert(out@.map_values(|f: RawField| f@) =~= before.push(f@));
            }
        }
        i = i + 1;
    }
    assert(ids@.subrange(0, ids@.len() as int) =~= ids@);
    out
}

/// The forms of the document: each child of the root element with its tag
/// name and its fields, in document order.
pub fn walk(t: &XmlTree) -> (r: Vec<RawForm>)
    ensures
        forms_view(r@) == walk_spec(t@),
{
    let root = root_element(t);
    let ids = children(t, root);
    let mut out: Vec<RawForm> = Vec::new();
    let mut i: usize = 0;
    while i < ids.len()
        invariant
            i <= ids@.len(),
            ids@ == xml_children(t@, root),
            root == xml_root_element(t@),
            forall|j: int| 0 <= j < ids@.len() ==> ids@[j] < u32::MAX,
            forms_view(out@) == walk_spec(t@).subrange(0, i as int),
        decreases ids@.len() - i,
    {
        let f = ids[i];
        let ghost before = forms_view(out@);
        let tag = tag_name(t, f);
        let fields = form_fields(t, f);
        let form = RawForm { tag, fields };
        out.push(form);
        assert(forms_view(out@) =~= before.push(form@));
        assert(walk_spec(t@).subrange(0, i + 1) =~= walk_spec(t@).subrange(0, i as int).push(
            walk_spec(t@)[i as int],
        ));
        i = i + 1;
    }
    assert(walk_spec(t@).subrange(0, ids@.len() as int) =~= walk_spec(t@));
    out
}

/// Parses `text` as a document; on failure, a description of the fault.
pub fn parse_document<'a>(text: &'a str) -> (r: Result<XmlTree<'a>, String>)
    ensures
        r is Ok <==> xml_accepts(text@),
        r matches Ok(t) ==> t@ == text@,
{
    match parse_tree(text) {
        Ok(t) => Ok(t),
        Err(e) => Err(error_text(&e)),
    }
}

} // verus!
