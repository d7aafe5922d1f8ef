//! Reading a document's text into the tree of `crate::markup`, by the
//! `xmltree` crate. The crate's `Element` stays as it is; what it holds is
//! read through the functions below and copied into a [`Node`].

use crate::error::RecordError;
use crate::markup::{Child, ChildView, Node, NodeView};
use vstd::hash_map::StringHashMap;
use vstd::prelude::*;

verus! {

#[verifier::external_type_specification]
#[verifier::external_body]
pub struct ExElement(xmltree::Element);

#[verifier::external_type_specification]
#[verifier::external_body]
pub struct ExParseError(xmltree::ParseError);

/// The root element that `xmltree::Element::parse` reads from a document's
/// text, as a model; `None` where it reports an error. It is a function of
/// the text alone.
pub uninterp spec fn xml_document(text: Seq<char>) -> Option<NodeView>;

/// What an `xmltree::Element` holds: its `name`, its `attributes` as a map,
/// and its `children` in their order, each child that is an element with
/// what it holds in turn.
pub uninterp spec fn element_tree(element: xmltree::Element) -> NodeView;

/// One node below an `xmltree::Element`, borrowed from it.
enum ChildRef<'a> {
    Element(&'a xmltree::Element),
    Comment(&'a String),
    CData(&'a String),
    Text(&'a String),
    ProcessingInstruction(&'a String, &'a Option<String>),
}

/// Calls `xmltree::Element::parse` on the bytes of `text`. The contract
/// claims only that the element it returns holds what [`xml_document`]
/// names, and that it fails where [`xml_document`] is `None`.
#[verifier::external_body]
fn parse_element(text: &str) -> (root: Result<xmltree::Element, xmltree::ParseError>)
    ensures
        match root {
            Ok(element) => xml_document(text@) == Some(element_tree(element)),
            Err(_) => xml_document(text@) is None,
        },
{
    xmltree::Element::parse(text.as_bytes())
}

/// Reads the field `name` of an `xmltree::Element`.
#[verifier::external_body]
fn element_name(element: &xmltree::Element) -> (name: String)
    ensures
        name@ == element_tree(*element).name,
{
    element.name.clone()
}

/// Reads the field `attributes` of an `xmltree::Element`, a map from an
/// attribute's name to its value, and copies it entry by entry.
#[verifier::external_body]
fn element_attributes(element: &xmltree::Element) -> (attributes: StringHashMap<String>)
    ensures
        attributes@.map_values(|value: String| value@) == element_tree(*element).attributes,
{
    let mut attributes = StringHashMap::new();
    for (key, value) in element.attributes.iter() {
        attributes.insert(key.clone(), value.clone());
    }
    attributes
}

/// The length of the field `children` of an `xmltree::Element`.
#[verifier::external_body]
fn child_count(element: &xmltree::Element) -> (count: usize)
    ensures
        count == element_tree(*element).children.len(),
{
    element.children.len()
}

/// Reads one entry of the field `children` of an `xmltree::Element`, and
/// tells the variants of `xmltree::XMLNode` apart. A child that is an
/// element holds what the model gives at that place; any other child stands
/// there as a node that is none.
#[verifier::external_body]
fn child_at<'a>(element: &'a xmltree::Element, index: usize) -> (child: ChildRef<'a>)
    requires
        index < element_tree(*element).children.len(),
    ensures
        match child {
            ChildRef::Element(below) => element_tree(*element).children[index as int]
                == ChildView::Element(element_tree(*below)),
            _ => element_tree(*element).children[index as int] == ChildView::Other,
        },
{
    match &element.children[index] {
        xmltree::XMLNode::Element(below) => ChildRef::Element(below),
        xmltree::XMLNode::Comment(text) => ChildRef::Comment(text),
        xmltree::XMLNode::CData(text) => ChildRef::CData(text),
        xmltree::XMLNode::Text(text) => ChildRef::Text(text),
        xmltree::XMLNode::ProcessingInstruction(name, data) => ChildRef::ProcessingInstruction(
            name,
            data,
        ),
    }
}

/// Copies an element, with all that stands below it, into a [`Node`].
fn node_of(element: &xmltree::Element) -> (node: Node)
    ensures
        node@ == element_tree(*element),
    decreases element_tree(*element),
{
    let ghost tree = element_tree(*element);
    let name = element_name(element);
    let attributes = element_attributes(element);
    let count = child_count(element);
    let mut children: Vec<Child> = Vec::new();
    let mut i: usize = 0;
    while i < count
        invariant
            i <= count,
            count == tree.children.len(),
            tree == element_tree(*element),
            children@.len() == i,
            forall|j: int| 0 <= j < i ==> (#[trigger] children@[j])@ == tree.children[j],
        decreases count - i,
    {
        let child = match child_at(element, i) {
            ChildRef::Element(below) => {
                proof {
                    let here = tree.children[i as int];
                    assert(decreases_to!(here => here->Element_0));
                }
                Child::Element(node_of(below))
            },
            ChildRef::Comment(text) => Child::Comment(text.clone()),
            ChildRef::CData(text) => Child::CData(text.clone()),
            ChildRef::Text(text) => Child::Text(text.clone()),
            ChildRef::ProcessingInstruction(name, data) => Child::ProcessingInstruction(
                name.clone(),
                data.clone(),
            ),
        };
        children.push(child);
        i += 1;
    }
    let node = Node { name, attributes, children };
    proof {
        assert(node@.children =~= tree.children);
    }
    node
}

/// Reads the text of a document into its root element. A text that is no
/// well-formed document is a malformed record.
pub fn read_document(text: &str) -> (root: Result<Node, RecordError>)
    ensures
        match root {
            Ok(node) => xml_document(text@) == Some(node@),
            Err(error) => xml_document(text@) is None && error == RecordError::MalformedRecord,
        },
{
    match parse_element(text) {
        Ok(element) => Ok(node_of(&element)),
        Err(_) => Err(RecordError::MalformedRecord),
    }
}

} // verus!
