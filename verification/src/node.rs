//! The generic symbolic tree that both recognisers consume.

use vstd::prelude::*;
use crate::text::str_eq;

verus! {

/// A position in the source text.
#[derive(Clone, Copy, Debug, PartialEq, Eq, Structural)]
pub struct Location {
    pub line: usize,
    pub column: usize,
}

/// One node of the symbolic tree: an atom, or a parenthesised list of nodes.
/// Every node carries the locations where it starts and ends.
#[derive(Debug, PartialEq, Eq)]
pub enum Node<'input> {
    Ident(Location, &'input str, Location),
    Number(Location, &'input str, Location),
    String(Location, String, Location),
    List(Location, Vec<Node<'input>>, Location),
}

/// The mathematical value of a [`Node`].
pub enum NodeView {
    Ident(Location, Seq<char>, Location),
    Number(Location, Seq<char>, Location),
    String(Location, Seq<char>, Location),
    List(Location, Seq<NodeView>, Location),
}

impl NodeView {
    /// Where the node starts.
    pub open spec fn start(self) -> Location {
        match self {
            NodeView::Ident(s, _, _) => s,
            NodeView::Number(s, _, _) => s,
            NodeView::String(s, _, _) => s,
            NodeView::List(s, _, _) => s,
        }
    }

    /// Where the node ends.
    pub open spec fn end(self) -> Location {
        match self {
            NodeView::Ident(_, _, e) => e,
            NodeView::Number(_, _, e) => e,
            NodeView::String(_, _, e) => e,
            NodeView::List(_, _, e) => e,
        }
    }

    /// Whether the node is the identifier `name`.
    pub open spec fn is_ident(self, name: Seq<char>) -> bool {
        self matches NodeView::Ident(_, t, _) && t == name
    }

    /// The text of an atom (identifier, number or quoted string); nothing
    /// for a list.
    pub open spec fn atom_text(self) -> Option<Seq<char>> {
        match self {
            NodeView::Ident(_, t, _) => Some(t),
            NodeView::Number(_, t, _) => Some(t),
            NodeView::String(_, t, _) => Some(t),
            NodeView::List(_, _, _) => None,
        }
    }

    /// The children of a list; nothing for an atom.
    pub open spec fn items(self) -> Seq<NodeView> {
        match self {
            NodeView::List(_, items, _) => items,
            _ => Seq::empty(),
        }
    }
}

impl<'input> Node<'input> {
    /// The node as mathematics: texts as sequences of characters, the
    /// children of a list as a sequence.
    pub open spec fn model(&self) -> NodeView
        decreases self,
    {
        match self {
            Node::Ident(s, t, e) => NodeView::Ident(*s, t@, *e),
            Node::Number(s, t, e) => NodeView::Number(*s, t@, *e),
            Node::String(s, t, e) => NodeView::String(*s, t@, *e),
            Node::List(s, items, e) => NodeView::List(
                *s,
                Seq::new(
                    items.len() as nat,
                    |i: int|
                        if 0 <= i < items.len() {
                            items[i].model()
                        } else {
                            arbitrary()
                        },
                ),
                *e,
            ),
        }
    }

    /// Where the node starts.
    pub fn start(&self) -> (r: Location)
        ensures
            r == self@.start(),
    {
        match self {
            Node::Ident(s, _, _) => *s,
            Node::Number(s, _, _) => *s,
            Node::String(s, _, _) => *s,
            Node::List(s, _, _) => *s,
        }
    }

    /// Where the node ends.
    pub fn end(&self) -> (r: Location)
        ensures
            r == self@.end(),
    {
        match self {
            Node::Ident(_, _, e) => *e,
            Node::Number(_, _, e) => *e,
            Node::String(_, _, e) => *e,
            Node::List(_, _, e) => *e,
        }
    }

    /// Whether the node is the identifier `name`.
    pub fn is_ident(&self, name: &str) -> (r: bool)
        ensures
            r == self@.is_ident(name@),
    {
        match self {
            Node::Ident(_, t, _) => str_eq(t, name),
            _ => false,
        }
    }

    /// The text of an identifier; nothing for any other node.
    pub fn ident_text(&self) -> (r: Option<&'input str>)
        ensures
            match r {
                Some(t) => self@ is Ident && self@->Ident_1 == t@,
                None => !(self@ is Ident),
            },
    {
        match self {
            Node::Ident(_, t, _) => Some(*t),
            _ => None,
        }
    }

    /// The text of a quoted string; nothing for any other node.
    pub fn string_text<'a>(&'a self) -> (r: Option<&'a str>)
        ensures
            match r {
                Some(t) => self@ is String && self@->String_1 == t@,
                None => !(self@ is String),
            },
    {
        match self {
            Node::String(_, t, _) => Some(t.as_str()),
            _ => None,
        }
    }

    /// The text of an atom (identifier, number or quoted string); nothing
    /// for a list.
    pub fn atom_text<'a>(&'a self) -> (r: Option<&'a str>)
        ensures
            match r {
                Some(t) => self@.atom_text() == Some(t@),
                None => self@.atom_text() is None,
            },
    {
        match self {
            Node::Ident(_, t, _) => Some(*t),
            Node::Number(_, t, _) => Some(*t),
            Node::String(_, t, _) => Some(t.as_str()),
            Node::List(_, _, _) => None,
        }
    }
}

impl<'input> View for Node<'input> {
    type V = NodeView;

    open spec fn view(&self) -> NodeView {
        self.model()
    }
}

} // verus!
