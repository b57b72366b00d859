//! Recognition of the markup intermediate form in the symbolic tree.

use vstd::prelude::*;
use indexmap::IndexMap;
use crate::attributes::{
    attribute_entries, attributes_insert, attributes_new, option_text, upsert, AttributeView,
};
use crate::collect::{
    collect, lemma_collect_prefix_err, lemma_collect_step, result_view, result_views, views,
};
use crate::html::{Error, ErrorType, Item, ItemView};
use crate::node::{Node, NodeView};
use crate::text::strip_prefix_char;

verus! {

/// The failure of kind `err_type` at the node `o`.
pub open spec fn error_at(o: NodeView, err_type: ErrorType) -> Error {
    Error { start: o.start(), end: o.end(), err_type }
}

/// The failure of kind `err_type` at the node `o`.
fn fail_at(o: &Node, err_type: ErrorType) -> (r: Error)
    ensures
        r == error_at(o@, err_type),
{
    Error { start: o.start(), end: o.end(), err_type }
}

/// The attribute that a node stands for: an atom is a name without a value,
/// a list `(name value)` of an identifier and an atom is a name with a
/// value. Any other list is refused as an invalid attribute.
pub open spec fn recognize_attribute(o: NodeView) -> Result<AttributeView, Error> {
    match o {
        NodeView::List(_, items, _) => {
            if items.len() == 2 && items[0] is Ident && items[1].atom_text() is Some {
                Ok((items[0]->Ident_1, items[1].atom_text()))
            } else {
                Err(error_at(o, ErrorType::InvalidAttribute))
            }
        },
        _ => Ok((o.atom_text()->0, None)),
    }
}

/// What each node of `items` from the index `from` on stands for as an
/// attribute.
pub open spec fn attributes_from(items: Seq<NodeView>, from: int) -> Seq<
    Result<AttributeView, Error>,
> {
    Seq::new(
        if 0 <= from <= items.len() {
            (items.len() - from) as nat
        } else {
            0
        },
        |i: int| recognize_attribute(items[i + from]),
    )
}

/// The entries of a map into which `pairs` were inserted in their order: a
/// name that comes again keeps its first place and takes the later value.
pub open spec fn upsert_all(pairs: Seq<AttributeView>) -> Seq<AttributeView>
    decreases pairs.len(),
{
    if pairs.len() == 0 {
        Seq::empty()
    } else {
        upsert(upsert_all(pairs.drop_last()), pairs.last().0, pairs.last().1)
    }
}

/// The attributes that the nodes of `items` from the index `from` on stand
/// for, or the first failure among them.
pub open spec fn recognize_attributes(items: Seq<NodeView>, from: int) -> Result<
    Seq<AttributeView>,
    Error,
> {
    match collect(attributes_from(items, from)) {
        Err(e) => Err(e),
        Ok(pairs) => Ok(upsert_all(pairs)),
    }
}

/// The entries of the map inside a result.
pub open spec fn attributes_result_view(
    r: Result<IndexMap<&str, Option<&str>>, Error>,
) -> Result<Seq<AttributeView>, Error> {
    match r {
        Ok(m) => Ok(attribute_entries(m)),
        Err(e) => Err(e),
    }
}

/// The view of an attribute inside a result.
pub open spec fn attribute_result_view(r: Result<(&str, Option<&str>), Error>) -> Result<
    AttributeView,
    Error,
> {
    match r {
        Ok(a) => Ok((a.0@, option_text(a.1))),
        Err(e) => Err(e),
    }
}

/// Recognises the attribute that `o` stands for.
fn attribute_try_from<'input>(o: &'input Node<'input>) -> (r: Result<
    (&'input str, Option<&'input str>),
    Error,
>)
    ensures
        attribute_result_view(r) == recognize_attribute(o@),
{
    match o {
        Node::List(_, items, _) => {
            assert(views(items@) =~= o@.items());
            if items.len() == 2 && items[0].ident_text().is_some() && items[1].atom_text().is_some() {
                Ok((items[0].ident_text().unwrap(), items[1].atom_text()))
            } else {
                Err(fail_at(o, ErrorType::InvalidAttribute))
            }
        },
        _ => Ok((o.atom_text().unwrap(), None)),
    }
}

/// Recognises the attributes that the nodes of `items` from the index
/// `from` on stand for, up to the first that fails.
fn attributes_try_from<'input>(items: &'input Vec<Node<'input>>, from: usize) -> (r: Result<
    IndexMap<&'input str, Option<&'input str>>,
    Error,
>)
    requires
        from <= items.len(),
    ensures
        attributes_result_view(r) == recognize_attributes(views(items@), from as int),
{
    let ghost results = attributes_from(views(items@), from as int);
    let ghost mut pairs: Seq<AttributeView> = Seq::empty();
    let mut attributes = attributes_new();
    let mut i: usize = from;
    assert(results.take(0) =~= Seq::empty());
    while i < items.len()
        invariant
            from <= i <= items.len(),
            results == attributes_from(views(items@), from as int),
            collect(results.take(i - from)) == Ok::<Seq<AttributeView>, Error>(pairs),
            attribute_entries(attributes) == upsert_all(pairs),
        decreases items.len() - i,
    {
        proof {
            lemma_collect_step(results, i - from);
        }
        match attribute_try_from(&items[i]) {
            Ok((name, value)) => {
                attributes_insert(&mut attributes, name, value);
                proof {
                    let pair = (name@, option_text(value));
                    assert(pairs.push(pair).drop_last() =~= pairs);
                    pairs = pairs.push(pair);
                }
            },
            Err(e) => {
                proof {
                    lemma_collect_prefix_err(results, i - from + 1);
                }
                return Err(e);
            },
        }
        i += 1;
    }
    assert(results.take(i - from) =~= results);
    Ok(attributes)
}

impl ItemView {
    /// The item that a node stands for.
    ///
    /// An atom is a text. A list that begins with an identifier behind `!`
    /// is a void element of that name, without the mark, and its other
    /// nodes are its attributes. A list that begins with any other atom is
    /// an element of that name without attributes, and its other nodes are
    /// its children. A list that begins with a list `(name attribute ...)`
    /// is an element with the name and the attributes of that inner list,
    /// and its other nodes are its children; an inner list that is empty
    /// is refused as an empty list, and one that does not begin with an
    /// identifier as an invalid tag name. An empty list is refused. A
    /// failure among the attributes comes before one among the children.
    pub open spec fn recognize(o: NodeView) -> Result<ItemView, Error>
        decreases o,
    {
        match o {
            NodeView::List(_, items, _) => {
                if items.len() == 0 {
                    Err(error_at(o, ErrorType::EmptyList))
                } else {
                    match items[0] {
                        NodeView::List(_, head, _) => {
                            if head.len() == 0 {
                                Err(error_at(items[0], ErrorType::EmptyList))
                            } else if head[0] is Ident {
                                match recognize_attributes(head, 1) {
                                    Err(e) => Err(e),
                                    Ok(attributes) => match collect(Self::recognize_from(items, 1)) {
                                        Err(e) => Err(e),
                                        Ok(inner) => Ok(
                                            ItemView::Tag {
                                                name: head[0]->Ident_1,
                                                attributes,
                                                inner,
                                            },
                                        ),
                                    },
                                }
                            } else {
                                Err(error_at(items[0], ErrorType::InvalidTagName))
                            }
                        },
                        NodeView::Ident(_, name, _) if name.len() > 0 && name[0] == '!' => {
                            match recognize_attributes(items, 1) {
                                Err(e) => Err(e),
                                Ok(attributes) => Ok(
                                    ItemView::EmptyTag { name: name.drop_first(), attributes },
                                ),
                            }
                        },
                        _ => match collect(Self::recognize_from(items, 1)) {
                            Err(e) => Err(e),
                            Ok(inner) => Ok(
                                ItemView::Tag {
                                    name: items[0].atom_text()->0,
                                    attributes: Seq::empty(),
                                    inner,
                                },
                            ),
                        },
                    }
                }
            },
            _ => Ok(ItemView::Text(o.atom_text()->0)),
        }
    }

    /// What each node of `items` from the index `from` on stands for.
    pub open spec fn recognize_from(items: Seq<NodeView>, from: int) -> Seq<
        Result<ItemView, Error>,
    >
        decreases items,
    {
        Seq::new(
            if 0 <= from <= items.len() {
                (items.len() - from) as nat
            } else {
                0
            },
            |i: int|
                if 0 <= from && 0 <= i && i + from < items.len() {
                    Self::recognize(items[i + from])
                } else {
                    arbitrary()
                },
        )
    }
}

impl<'input> Item<'input> {
    /// Recognises the item that `o` stands for.
    pub fn try_from(o: &'input Node<'input>) -> (r: Result<Self, Error>)
        ensures
            result_view(r) == ItemView::recognize(o@),
        decreases o, 1nat,
    {
        match o {
            Node::List(_, items, _) => {
                assert(views(items@) =~= o@.items());
                if items.len() == 0 {
                    Err(fail_at(o, ErrorType::EmptyList))
                } else {
                    match &items[0] {
                        Node::List(_, head, _) => {
                            assert(views(head@) =~= items[0]@.items());
                            if head.len() == 0 {
                                Err(fail_at(&items[0], ErrorType::EmptyList))
                            } else if head[0].ident_text().is_some() {
                                let name = head[0].ident_text().unwrap();
                                Self::create_tag(name, Some(head), items)
                            } else {
                                Err(fail_at(&items[0], ErrorType::InvalidTagName))
                            }
                        },
                        Node::Ident(_, name, _) => {
                            if let Some(void_name) = strip_prefix_char(name, '!') {
                                Self::create_empty_tag(void_name, items)
                            } else {
                                Self::create_tag(name, None, items)
                            }
                        },
                        _ => Self::create_tag(items[0].atom_text().unwrap(), None, items),
                    }
                }
            },
            _ => Ok(Item::Text(o.atom_text().unwrap())),
        }
    }

    /// Builds the void element `name` with the attributes that the nodes of
    /// `items` behind the first stand for.
    fn create_empty_tag(name: &'input str, items: &'input Vec<Node<'input>>) -> (r: Result<
        Self,
        Error,
    >)
        requires
            items.len() >= 1,
        ensures
            result_view(r) == match recognize_attributes(views(items@), 1) {
                Err(e) => Err(e),
                Ok(attributes) => Ok(ItemView::EmptyTag { name: name@, attributes }),
            },
    {
        match attributes_try_from(items, 1) {
            Err(e) => Err(e),
            Ok(attributes) => Ok(Item::EmptyTag { name, attributes }),
        }
    }

    /// Builds the element `name` with the attributes that the nodes of
    /// `head` behind the first stand for, and the children that the nodes
    /// of `items` behind the first stand for.
    fn create_tag(
        name: &'input str,
        head: Option<&'input Vec<Node<'input>>>,
        items: &'input Vec<Node<'input>>,
    ) -> (r: Result<Self, Error>)
        requires
            items.len() >= 1,
            head matches Some(h) ==> h.len() >= 1,
        ensures
            result_view(r) == match (match head {
                Some(h) => recognize_attributes(views(h@), 1),
                None => Ok(Seq::empty()),
            }) {
                Err(e) => Err(e),
                Ok(attributes) => match collect(ItemView::recognize_from(views(items@), 1)) {
                    Err(e) => Err(e),
                    Ok(inner) => Ok(ItemView::Tag { name: name@, attributes, inner }),
                },
            },
        decreases items, 1nat,
    {
        let attributes = match head {
            Some(h) => match attributes_try_from(h, 1) {
                Err(e) => {
                    return Err(e);
                },
                Ok(attributes) => attributes,
            },
            None => attributes_new(),
        };
        match Self::try_from_each(items, 1) {
            Err(e) => Err(e),
            Ok(inner) => {
                let r = Item::Tag { name, attributes, inner };
                assert(r@->Tag_inner =~= views(inner@));
                Ok(r)
            },
        }
    }

    /// Recognises the items that the nodes of `items` from the index `from`
    /// on stand for, up to the first that fails.
    pub(crate) fn try_from_each(items: &'input Vec<Node<'input>>, from: usize) -> (r: Result<
        Vec<Self>,
        Error,
    >)
        requires
            from <= items.len(),
        ensures
            result_views(r) == collect(ItemView::recognize_from(views(items@), from as int)),
        decreases items, 0nat,
    {
        let ghost results = ItemView::recognize_from(views(items@), from as int);
        let mut values: Vec<Self> = Vec::new();
        let mut i: usize = from;
        assert(results.take(0) =~= Seq::empty());
        assert(views(values@) =~= Seq::empty());
        while i < items.len()
            invariant
                from <= i <= items.len(),
                results == ItemView::recognize_from(views(items@), from as int),
                collect(results.take(i - from)) == Ok::<Seq<ItemView>, Error>(views(values@)),
            decreases items.len() - i,
        {
            let ghost before = views(values@);
            proof {
                lemma_collect_step(results, i - from);
            }
            match Item::try_from(&items[i]) {
                Ok(v) => {
                    values.push(v);
                    assert(views(values@) =~= before.push(v@));
                },
                Err(e) => {
                    proof {
                        lemma_collect_prefix_err(results, i - from + 1);
                    }
                    return Err(e);
                },
            }
            i += 1;
        }
        assert(results.take(i - from) =~= results);
        Ok(values)
    }
}

} // verus!
