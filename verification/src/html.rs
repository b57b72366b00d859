//! The markup intermediate form and its mathematical view.

use vstd::prelude::*;
use indexmap::IndexMap;
use crate::attributes::{attribute_entries, AttributeView};
use crate::node::Location;

pub mod laws;
pub mod recognize;
pub mod render;

verus! {

/// What was wrong with a node that could not be recognised.
#[derive(Clone, Copy, Debug, PartialEq, Eq, Structural)]
pub enum ErrorType {
    /// A list among the attributes is no pair `(name value)` of an
    /// identifier and an atom.
    InvalidAttribute,
    /// The list that should name an element does not begin with an
    /// identifier.
    InvalidTagName,
    /// A list is empty.
    EmptyList,
}

/// A recognition failure, with the span of the offending node.
#[derive(Clone, Copy, Debug, PartialEq, Eq, Structural)]
pub struct Error {
    pub start: Location,
    pub end: Location,
    pub err_type: ErrorType,
}

/// One node of a markup document. The attributes of an element keep the
/// order in which they were first named.
#[derive(Debug, PartialEq, Eq)]
pub enum Item<'input> {
    /// An element with a closing tag.
    Tag {
        name: &'input str,
        attributes: IndexMap<&'input str, Option<&'input str>>,
        inner: Vec<Self>,
    },
    /// A void element: no children, no closing tag.
    EmptyTag { name: &'input str, attributes: IndexMap<&'input str, Option<&'input str>> },
    /// Text, written as it is.
    Text(&'input str),
}

/// The mathematical value of an [`Item`].
pub enum ItemView {
    Tag { name: Seq<char>, attributes: Seq<AttributeView>, inner: Seq<ItemView> },
    EmptyTag { name: Seq<char>, attributes: Seq<AttributeView> },
    Text(Seq<char>),
}

impl<'input> Item<'input> {
    /// The item as mathematics: texts as sequences of characters, the
    /// attributes as the sequence of the map's entries, the children as a
    /// sequence.
    pub open spec fn model(&self) -> ItemView
        decreases self,
    {
        match self {
            Item::Tag { name, attributes, inner } => ItemView::Tag {
                name: name@,
                attributes: attribute_entries(*attributes),
                inner: Seq::new(
                    inner.len() as nat,
                    |i: int|
                        if 0 <= i < inner.len() {
                            inner[i].model()
                        } else {
                            arbitrary()
                        },
                ),
            },
            Item::EmptyTag { name, attributes } => ItemView::EmptyTag {
                name: name@,
                attributes: attribute_entries(*attributes),
            },
            Item::Text(text) => ItemView::Text(text@),
        }
    }
}

impl<'input> View for Item<'input> {
    type V = ItemView;

    open spec fn view(&self) -> ItemView {
        self.model()
    }
}

} // verus!
