//! Laws of markup recognition and rendering.

use vstd::prelude::*;
use crate::attributes::{upsert, AttributeView};
use crate::collect::{collect, lemma_collect_err};
use crate::html::recognize::{attributes_from, error_at, recognize_attribute, upsert_all};
use crate::html::{Error, ErrorType, ItemView};
use crate::node::NodeView;
use crate::text::{concat, spaces};

verus! {

/// An empty list is refused, and so is a list that begins with an empty
/// list. The failure is `EmptyList`, and its span is that of the empty
/// list.
pub proof fn lemma_empty_list_is_refused(o: NodeView)
    requires
        o is List,
    ensures
        o.items().len() == 0 ==> ItemView::recognize(o) == Err::<ItemView, Error>(
            Error { start: o.start(), end: o.end(), err_type: ErrorType::EmptyList },
        ),
        o.items().len() > 0 && o.items()[0] is List && o.items()[0].items().len() == 0
            ==> ItemView::recognize(o) == Err::<ItemView, Error>(
            Error {
                start: o.items()[0].start(),
                end: o.items()[0].end(),
                err_type: ErrorType::EmptyList,
            },
        ),
{
}

/// Whether a node is a list that is no attribute: not a pair of an
/// identifier and an atom.
pub open spec fn is_malformed_attribute(o: NodeView) -> bool {
    o matches NodeView::List(_, items, _) && !(items.len() == 2 && items[0] is Ident
        && items[1].atom_text() is Some)
}

/// Whether a node is the name of a void element: an identifier behind `!`.
pub open spec fn is_void_name(o: NodeView) -> bool {
    o matches NodeView::Ident(_, name, _) && name.len() > 0 && name[0] == '!'
}

/// A malformed attribute is refused where it stands. Where the node at
/// the index `i` of the attributes of an element is a malformed attribute
/// and no attribute before it is one, the element is refused with
/// `InvalidAttribute`, and the span of the failure is that of the node at
/// `i`. The attributes are the nodes behind the name: of the list itself
/// for a void element, of the list's first node for any other element.
pub proof fn lemma_malformed_attribute_is_located(o: NodeView, i: int)
    requires
        o is List,
        o.items().len() > 0,
    ensures
        is_void_name(o.items()[0]) && 1 <= i < o.items().len() && is_malformed_attribute(
            o.items()[i],
        ) && (forall|j: int| 1 <= j < i ==> !is_malformed_attribute(#[trigger] o.items()[j]))
            ==> ItemView::recognize(o) == Err::<ItemView, Error>(
            Error {
                start: o.items()[i].start(),
                end: o.items()[i].end(),
                err_type: ErrorType::InvalidAttribute,
            },
        ),
        ({
            let head = o.items()[0].items();
            o.items()[0] is List && head.len() > 0 && head[0] is Ident && 1 <= i < head.len()
                && is_malformed_attribute(head[i]) && (forall|j: int|
                1 <= j < i ==> !is_malformed_attribute(#[trigger] head[j]))
                ==> ItemView::recognize(o) == Err::<ItemView, Error>(
                Error { start: head[i].start(), end: head[i].end(), err_type: ErrorType::InvalidAttribute },
            )
        }),
{
    let items = o.items();
    if is_void_name(items[0]) && 1 <= i < items.len() && is_malformed_attribute(items[i]) && (
    forall|j: int| 1 <= j < i ==> !is_malformed_attribute(#[trigger] items[j])) {
        lemma_first_malformed_attribute(items, i);
    }
    let head = items[0].items();
    if items[0] is List && head.len() > 0 && head[0] is Ident && 1 <= i < head.len()
        && is_malformed_attribute(head[i]) && (forall|j: int|
        1 <= j < i ==> !is_malformed_attribute(#[trigger] head[j])) {
        lemma_first_malformed_attribute(head, i);
    }
}

/// The first malformed attribute behind a name is the failure of the
/// attributes.
proof fn lemma_first_malformed_attribute(items: Seq<NodeView>, i: int)
    requires
        1 <= i < items.len(),
        is_malformed_attribute(items[i]),
        forall|j: int| 1 <= j < i ==> !is_malformed_attribute(#[trigger] items[j]),
    ensures
        collect(attributes_from(items, 1)) == Err::<Seq<AttributeView>, Error>(
            error_at(items[i], ErrorType::InvalidAttribute),
        ),
{
    let results = attributes_from(items, 1);
    assert(results[i - 1] == recognize_attribute(items[i]));
    assert forall|j: int| 0 <= j < i - 1 implies (#[trigger] results[j]) is Ok by {
        assert(results[j] == recognize_attribute(items[j + 1]));
        assert(!is_malformed_attribute(items[j + 1]));
    }
    lemma_collect_err(results, i - 1);
}

/// Whether no two entries of `entries` have the same name.
pub open spec fn names_are_distinct(entries: Seq<AttributeView>) -> bool {
    forall|i: int, j: int|
        0 <= i < j < entries.len() ==> (#[trigger] entries[i]).0 != (#[trigger] entries[j]).0
}

/// Whether an entry of `entries` has the name `name`.
pub open spec fn has_name(entries: Seq<AttributeView>, name: Seq<char>) -> bool {
    exists|i: int| 0 <= i < entries.len() && (#[trigger] entries[i]).0 == name
}

/// An attribute whose name is new goes to the end, and the others stay as
/// they are.
pub proof fn lemma_upsert_new_name(
    entries: Seq<AttributeView>,
    name: Seq<char>,
    value: Option<Seq<char>>,
)
    requires
        !has_name(entries, name),
    ensures
        upsert(entries, name, value) == entries.push((name, value)),
    decreases entries.len(),
{
    if entries.len() > 0 {
        assert(entries[0].0 != name);
        assert forall|i: int| 0 <= i < entries.drop_first().len() implies (
        #[trigger] entries.drop_first()[i]).0 != name by {
            assert(entries.drop_first()[i] == entries[i + 1]);
        }
        lemma_upsert_new_name(entries.drop_first(), name, value);
        assert(seq![entries[0]] + entries.drop_first().push((name, value)) =~= entries.push(
            (name, value),
        ));
    } else {
        assert(seq![(name, value)] =~= entries.push((name, value)));
    }
}

/// An attribute that is named again keeps its place and takes the new
/// value, and the others stay as they are.
pub proof fn lemma_upsert_known_name(
    entries: Seq<AttributeView>,
    name: Seq<char>,
    value: Option<Seq<char>>,
    i: int,
)
    requires
        names_are_distinct(entries),
        0 <= i < entries.len(),
        entries[i].0 == name,
    ensures
        upsert(entries, name, value) == entries.update(i, (name, value)),
    decreases entries.len(),
{
    if i == 0 {
    } else {
        assert(entries[0].0 != entries[i].0);
        let rest = entries.drop_first();
        assert forall|a: int, b: int| 0 <= a < b < rest.len() implies (#[trigger] rest[a]).0 != (
        #[trigger] rest[b]).0 by {
            assert(rest[a] == entries[a + 1]);
            assert(rest[b] == entries[b + 1]);
        }
        assert(rest[i - 1] == entries[i]);
        lemma_upsert_known_name(rest, name, value, i - 1);
        assert(seq![entries[0]] + rest.update(i - 1, (name, value)) =~= entries.update(
            i,
            (name, value),
        ));
    }
}

/// One insertion leaves the names distinct.
pub proof fn lemma_upsert_keeps_names_distinct(
    entries: Seq<AttributeView>,
    name: Seq<char>,
    value: Option<Seq<char>>,
)
    requires
        names_are_distinct(entries),
    ensures
        names_are_distinct(upsert(entries, name, value)),
{
    if has_name(entries, name) {
        let i = choose|i: int| 0 <= i < entries.len() && (#[trigger] entries[i]).0 == name;
        lemma_upsert_known_name(entries, name, value, i);
        let after = entries.update(i, (name, value));
        assert forall|a: int, b: int| 0 <= a < b < after.len() implies (#[trigger] after[a]).0 != (
        #[trigger] after[b]).0 by {
            assert(after[a].0 == entries[a].0);
            assert(after[b].0 == entries[b].0);
        }
    } else {
        lemma_upsert_new_name(entries, name, value);
        let after = entries.push((name, value));
        assert forall|a: int, b: int| 0 <= a < b < after.len() implies (#[trigger] after[a]).0 != (
        #[trigger] after[b]).0 by {
            if b < entries.len() {
                assert(after[a] == entries[a]);
                assert(after[b] == entries[b]);
            } else {
                assert(after[a] == entries[a]);
            }
        }
    }
}

/// The attributes of a recognised element have distinct names, whatever
/// the source named and how often.
pub proof fn lemma_recognized_names_are_distinct(pairs: Seq<AttributeView>)
    ensures
        names_are_distinct(upsert_all(pairs)),
    decreases pairs.len(),
{
    if pairs.len() > 0 {
        lemma_recognized_names_are_distinct(pairs.drop_last());
        lemma_upsert_keeps_names_distinct(
            upsert_all(pairs.drop_last()),
            pairs.last().0,
            pairs.last().1,
        );
    }
}

/// Attributes with distinct names stay as the source gives them, each in
/// its place.
pub proof fn lemma_distinct_attributes_keep_their_order(pairs: Seq<AttributeView>)
    requires
        names_are_distinct(pairs),
    ensures
        upsert_all(pairs) == pairs,
    decreases pairs.len(),
{
    if pairs.len() > 0 {
        let init = pairs.drop_last();
        assert forall|a: int, b: int| 0 <= a < b < init.len() implies (#[trigger] init[a]).0 != (
        #[trigger] init[b]).0 by {
            assert(init[a] == pairs[a]);
            assert(init[b] == pairs[b]);
        }
        lemma_distinct_attributes_keep_their_order(init);
        assert forall|a: int| 0 <= a < init.len() implies (#[trigger] init[a]).0
            != pairs.last().0 by {
            assert(init[a] == pairs[a]);
            assert(pairs[a].0 != pairs[pairs.len() - 1].0);
        }
        lemma_upsert_new_name(init, pairs.last().0, pairs.last().1);
        assert(init.push(pairs.last()) =~= pairs);
    } else {
        assert(pairs =~= Seq::<AttributeView>::empty());
    }
}

/// The characters of `s` that `ws` does not hold to be whitespace, in
/// their order.
pub open spec fn without(s: Seq<char>, ws: spec_fn(char) -> bool) -> Seq<char>
    decreases s.len(),
{
    if s.len() == 0 {
        Seq::empty()
    } else if ws(s.last()) {
        without(s.drop_last(), ws)
    } else {
        without(s.drop_last(), ws).push(s.last())
    }
}

/// Whether `ws` holds none of the characters of `s` to be whitespace.
pub open spec fn free_of(s: Seq<char>, ws: spec_fn(char) -> bool) -> bool {
    forall|i: int| 0 <= i < s.len() ==> !ws(#[trigger] s[i])
}

/// Stripping a text of two parts strips each part.
pub proof fn lemma_without_add(a: Seq<char>, b: Seq<char>, ws: spec_fn(char) -> bool)
    ensures
        without(a + b, ws) == without(a, ws) + without(b, ws),
    decreases b.len(),
{
    if b.len() == 0 {
        assert(a + b =~= a);
        assert(without(a, ws) + without(b, ws) =~= without(a, ws));
    } else {
        assert((a + b).drop_last() =~= a + b.drop_last());
        assert((a + b).last() == b.last());
        lemma_without_add(a, b.drop_last(), ws);
        if !ws(b.last()) {
            assert((without(a, ws) + without(b.drop_last(), ws)).push(b.last()) =~= without(a, ws)
                + without(b.drop_last(), ws).push(b.last()));
        }
    }
}

/// Nothing is left of a text of whitespace alone.
pub proof fn lemma_without_all(s: Seq<char>, ws: spec_fn(char) -> bool)
    requires
        forall|i: int| 0 <= i < s.len() ==> ws(#[trigger] s[i]),
    ensures
        without(s, ws) == Seq::<char>::empty(),
    decreases s.len(),
{
    if s.len() > 0 {
        assert forall|i: int| 0 <= i < s.drop_last().len() implies ws(
            #[trigger] s.drop_last()[i],
        ) by {
            assert(s.drop_last()[i] == s[i]);
        }
        lemma_without_all(s.drop_last(), ws);
        assert(ws(s[s.len() - 1]));
    }
}

/// A text without whitespace is left as it is.
pub proof fn lemma_without_none(s: Seq<char>, ws: spec_fn(char) -> bool)
    requires
        free_of(s, ws),
    ensures
        without(s, ws) == s,
    decreases s.len(),
{
    if s.len() > 0 {
        assert forall|i: int| 0 <= i < s.drop_last().len() implies !ws(
            #[trigger] s.drop_last()[i],
        ) by {
            assert(s.drop_last()[i] == s[i]);
        }
        lemma_without_none(s.drop_last(), ws);
        assert(!ws(s[s.len() - 1]));
        assert(s.drop_last().push(s.last()) =~= s);
    } else {
        assert(s =~= Seq::<char>::empty());
    }
}

/// Two rows of texts that are equal piece by piece once stripped are equal
/// as a whole once stripped.
pub proof fn lemma_without_concat(a: Seq<Seq<char>>, b: Seq<Seq<char>>, ws: spec_fn(char) -> bool)
    requires
        a.len() == b.len(),
        forall|i: int| 0 <= i < a.len() ==> without(#[trigger] a[i], ws) == without(b[i], ws),
    ensures
        without(concat(a), ws) == without(concat(b), ws),
    decreases a.len(),
{
    if a.len() > 0 {
        assert forall|i: int| 0 <= i < a.drop_last().len() implies without(
            #[trigger] a.drop_last()[i],
            ws,
        ) == without(b.drop_last()[i], ws) by {
            assert(a.drop_last()[i] == a[i]);
            assert(b.drop_last()[i] == b[i]);
        }
        lemma_without_concat(a.drop_last(), b.drop_last(), ws);
        lemma_without_add(concat(a.drop_last()), a.last(), ws);
        lemma_without_add(concat(b.drop_last()), b.last(), ws);
        assert(without(a[a.len() - 1], ws) == without(b[a.len() - 1], ws));
    }
}

/// The two layouts differ by whitespace alone. For every notion of
/// whitespace that counts the blank and the line break, the text with one
/// node per line, at any indentation, and the text on one line are the
/// same once both are stripped of whitespace.
pub proof fn lemma_pretty_differs_by_whitespace(
    item: ItemView,
    indent: nat,
    ws: spec_fn(char) -> bool,
)
    requires
        ws(' '),
        ws('\n'),
    ensures
        without(item.pretty_text(indent), ws) == without(item.text(), ws),
    decreases item,
{
    reveal_strlit("\n");
    lemma_without_all(spaces(indent), ws);
    lemma_without_all("\n"@, ws);
    let pad = spaces(indent);
    let eol = "\n"@;
    match item {
        ItemView::Tag { name, attributes, inner } => {
            let open = crate::html::render::open_tag_text(name, attributes);
            let close = crate::html::render::close_tag_text(name);
            let deep = concat(ItemView::pretty_texts(inner, indent + 4));
            let flat = concat(ItemView::texts(inner));
            assert forall|i: int| 0 <= i < inner.len() implies without(
                #[trigger] ItemView::pretty_texts(inner, indent + 4)[i],
                ws,
            ) == without(ItemView::texts(inner)[i], ws) by {
                lemma_pretty_differs_by_whitespace(inner[i], indent + 4, ws);
            }
            lemma_without_concat(
                ItemView::pretty_texts(inner, indent + 4),
                ItemView::texts(inner),
                ws,
            );
            lemma_without_add(pad, open, ws);
            lemma_without_add(pad + open, eol, ws);
            lemma_without_add(pad + open + eol, deep, ws);
            lemma_without_add(pad + open + eol + deep, pad, ws);
            lemma_without_add(pad + open + eol + deep + pad, close, ws);
            lemma_without_add(pad + open + eol + deep + pad + close, eol, ws);
            lemma_without_add(open, flat, ws);
            lemma_without_add(open + flat, close, ws);
            assert(without(item.pretty_text(indent), ws) =~= without(open, ws) + without(
                deep,
                ws,
            ) + without(close, ws));
        },
        ItemView::EmptyTag { name, attributes } => {
            let open = crate::html::render::open_tag_text(name, attributes);
            lemma_without_add(pad, open, ws);
            lemma_without_add(pad + open, eol, ws);
            assert(without(item.pretty_text(indent), ws) =~= without(open, ws));
        },
        ItemView::Text(text) => {
            lemma_without_add(pad, text, ws);
            lemma_without_add(pad + text, eol, ws);
            assert(without(item.pretty_text(indent), ws) =~= without(text, ws));
        },
    }
}

/// Where the text on one line holds no whitespace, it is what is left of
/// the text with one node per line once that is stripped of whitespace.
pub proof fn lemma_stripped_pretty_is_compact(item: ItemView, indent: nat, ws: spec_fn(char) -> bool)
    requires
        ws(' '),
        ws('\n'),
        free_of(item.text(), ws),
    ensures
        without(item.pretty_text(indent), ws) == item.text(),
{
    lemma_pretty_differs_by_whitespace(item, indent, ws);
    lemma_without_none(item.text(), ws);
}

/// The two layouts of a row of items differ by whitespace alone, as those
/// of each item do.
pub proof fn lemma_pretty_row_differs_by_whitespace(
    items: Seq<ItemView>,
    indent: nat,
    ws: spec_fn(char) -> bool,
)
    requires
        ws(' '),
        ws('\n'),
    ensures
        without(concat(ItemView::pretty_texts(items, indent)), ws) == without(
            concat(ItemView::texts(items)),
            ws,
        ),
{
    assert forall|i: int| 0 <= i < items.len() implies without(
        #[trigger] ItemView::pretty_texts(items, indent)[i],
        ws,
    ) == without(ItemView::texts(items)[i], ws) by {
        lemma_pretty_differs_by_whitespace(items[i], indent, ws);
    }
    lemma_without_concat(ItemView::pretty_texts(items, indent), ItemView::texts(items), ws);
}

} // verus!
