//! The tree of a markup document: elements with their attributes and the
//! nodes below them.

use crate::text::str_eq;
use vstd::hash_map::StringHashMap;
use vstd::prelude::*;

verus! {

/// One node below an element.
pub enum Child {
    Element(Node),
    Comment(String),
    CData(String),
    Text(String),
    ProcessingInstruction(String, Option<String>),
}

/// One element of a document: its name, its attributes and the nodes below
/// it in document order.
pub struct Node {
    pub name: String,
    pub attributes: StringHashMap<String>,
    pub children: Vec<Child>,
}

/// The mathematical model of a [`Child`]: an element, or a node that is
/// none and so has neither name nor attributes.
pub enum ChildView {
    Element(NodeView),
    Other,
}

/// The mathematical model of a [`Node`].
pub struct NodeView {
    pub name: Seq<char>,
    pub attributes: Map<Seq<char>, Seq<char>>,
    pub children: Seq<ChildView>,
}

impl View for Child {
    type V = ChildView;

    open spec fn view(&self) -> ChildView
        decreases self,
    {
        match self {
            Child::Element(node) => ChildView::Element(node.view()),
            _ => ChildView::Other,
        }
    }
}

impl View for Node {
    type V = NodeView;

    open spec fn view(&self) -> NodeView
        decreases self,
    {
        NodeView {
            name: self.name@,
            attributes: self.attributes@.map_values(|value: String| value@),
            children: Seq::new(
                self.children@.len(),
                |i: int|
                    if 0 <= i < self.children@.len() {
                        self.children@[i].view()
                    } else {
                        ChildView::Other
                    },
            ),
        }
    }
}

/// The first element among `children` that bears the name `name`.
pub open spec fn first_named(children: Seq<ChildView>, name: Seq<char>) -> Option<NodeView>
    decreases children.len(),
{
    if children.len() == 0 {
        None
    } else {
        match children[0] {
            ChildView::Element(node) if node.name == name => Some(node),
            _ => first_named(children.drop_first(), name),
        }
    }
}

impl NodeView {
    /// The value of the attribute `key`, where the element has one.
    pub open spec fn attribute(self, key: Seq<char>) -> Option<Seq<char>> {
        if self.attributes.contains_key(key) {
            Some(self.attributes[key])
        } else {
            None
        }
    }

    /// The first child element that bears the name `name`.
    pub open spec fn child(self, name: Seq<char>) -> Option<NodeView> {
        first_named(self.children, name)
    }
}

/// What [`first_named`] finds is an element among the children that bears
/// the name, and no element before it does.
pub proof fn lemma_first_named(children: Seq<ChildView>, name: Seq<char>)
    ensures
        match first_named(children, name) {
            Some(node) => exists|i: int|
                0 <= i < children.len() && children[i] == ChildView::Element(node) && node.name
                    == name && forall|j: int|
                    0 <= j < i ==> !(#[trigger] children[j] matches ChildView::Element(e)
                        && e.name == name),
            None => forall|j: int|
                0 <= j < children.len() ==> !(#[trigger] children[j] matches ChildView::Element(e)
                    && e.name == name),
        },
    decreases children.len(),
{
    if children.len() > 0 {
        let rest = children.drop_first();
        lemma_first_named(rest, name);
        let here = children[0] matches ChildView::Element(e) && e.name == name;
        if !here {
            assert forall|j: int| 0 <= j < rest.len() implies rest[j] == children[j + 1] by {}
            match first_named(rest, name) {
                Some(node) => {
                    let i = choose|i: int|
                        0 <= i < rest.len() && rest[i] == ChildView::Element(node) && node.name
                            == name && forall|j: int|
                            0 <= j < i ==> !(#[trigger] rest[j] matches ChildView::Element(e)
                                && e.name == name);
                    assert forall|j: int| 0 <= j < i + 1 implies !(#[trigger] children[j] matches ChildView::Element(e)
                        && e.name == name) by {
                        if j > 0 {
                            assert(rest[j - 1] == children[j]);
                        }
                    }
                },
                None => {
                    assert forall|j: int| 0 <= j < children.len() implies !(#[trigger] children[j] matches ChildView::Element(e)
                        && e.name == name) by {
                        if j > 0 {
                            assert(rest[j - 1] == children[j]);
                        }
                    }
                },
            }
        }
    }
}

impl Node {
    /// An element with the given name, without attributes or children.
    pub fn new(name: &str) -> (node: Node)
        ensures
            node@ == (NodeView {
                name: name@,
                attributes: Map::<Seq<char>, Seq<char>>::empty(),
                children: Seq::<ChildView>::empty(),
            }),
    {
        let node = Node {
            name: name.to_owned(),
            attributes: StringHashMap::new(),
            children: Vec::new(),
        };
        proof {
            assert(node@.attributes =~= Map::<Seq<char>, Seq<char>>::empty());
            assert(node@.children =~= Seq::<ChildView>::empty());
        }
        node
    }

    /// Gives the attribute `key` the value `value`, in place of the value it
    /// had, if any.
    pub fn set_attribute(&mut self, key: &str, value: &str)
        ensures
            final(self)@ == (NodeView {
                attributes: old(self)@.attributes.insert(key@, value@),
                ..old(self)@
            }),
    {
        self.attributes.insert(key.to_owned(), value.to_owned());
        proof {
            assert(self@.attributes =~= old(self)@.attributes.insert(key@, value@));
        }
    }

    /// Puts `child` below this element, after the nodes that are there.
    pub fn push_child(&mut self, child: Child)
        ensures
            final(self)@ == (NodeView {
                children: old(self)@.children.push(child@),
                ..old(self)@
            }),
    {
        self.children.push(child);
        proof {
            assert(self@.children =~= old(self)@.children.push(child@));
        }
    }

    /// The value of the attribute `key`, where the element has one.
    pub fn attribute(&self, key: &str) -> (value: Option<&String>)
        ensures
            match value {
                Some(v) => self@.attribute(key@) == Some(v@),
                None => self@.attribute(key@) is None,
            },
    {
        self.attributes.get(key)
    }

    /// The first child element that bears the name `name`.
    pub fn get_child(&self, name: &str) -> (child: Option<&Node>)
        ensures
            match child {
                Some(node) => self@.child(name@) == Some(node@),
                None => self@.child(name@) is None,
            },
    {
        let n = self.children.len();
        let mut i: usize = 0;
        proof {
            assert(self@.children.skip(0) =~= self@.children);
        }
        while i < n
            invariant
                i <= n,
                n == self.children@.len(),
                first_named(self@.children, name@) == first_named(
                    self@.children.skip(i as int),
                    name@,
                ),
            decreases n - i,
        {
            let ghost rest = self@.children.skip(i as int);
            proof {
                assert(rest[0] == self.children@[i as int]@);
                assert(rest.drop_first() =~= self@.children.skip(i + 1));
            }
            match &self.children[i] {
                Child::Element(node) => {
                    if str_eq(node.name.as_str(), name) {
                        return Some(node);
                    }
                },
                _ => {},
            }
            i += 1;
        }
        None
    }
}

} // verus!
