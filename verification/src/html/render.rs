//! Rendering of the markup intermediate form as text, on one line or one
//! node per line.

use vstd::prelude::*;
use vstd::string::*;
use indexmap::IndexMap;
use crate::attributes::{attribute_entries, attributes_get, attributes_len, AttributeView};
use crate::collect::views;
use crate::html::{Item, ItemView};
use crate::text::{concat, deeper, lemma_concat_step, padding, spaces};

verus! {

/// The text of one attribute behind a blank: its bare name, or
/// `name="value"` where it has a value.
pub open spec fn attribute_text(a: AttributeView) -> Seq<char> {
    match a.1 {
        Some(value) => " "@ + a.0 + "=\""@ + value + "\""@,
        None => " "@ + a.0,
    }
}

/// The text of each attribute of `attributes`.
pub open spec fn attribute_texts(attributes: Seq<AttributeView>) -> Seq<Seq<char>> {
    Seq::new(attributes.len(), |i: int| attribute_text(attributes[i]))
}

/// The opening tag of an element: its name and its attributes in their
/// order, between `<` and `>`.
pub open spec fn open_tag_text(name: Seq<char>, attributes: Seq<AttributeView>) -> Seq<char> {
    "<"@ + name + concat(attribute_texts(attributes)) + ">"@
}

/// The closing tag of an element.
pub open spec fn close_tag_text(name: Seq<char>) -> Seq<char> {
    "</"@ + name + ">"@
}

impl ItemView {
    /// The text on one line: an element as its opening tag, its children
    /// and its closing tag, with nothing between them; a void element as
    /// its opening tag alone; a text as it is.
    pub open spec fn text(self) -> Seq<char>
        decreases self,
    {
        match self {
            ItemView::Tag { name, attributes, inner } => open_tag_text(name, attributes) + concat(
                Self::texts(inner),
            ) + close_tag_text(name),
            ItemView::EmptyTag { name, attributes } => open_tag_text(name, attributes),
            ItemView::Text(text) => text,
        }
    }

    /// The one-line text of each item of `items`.
    pub open spec fn texts(items: Seq<ItemView>) -> Seq<Seq<char>>
        decreases items,
    {
        Seq::new(
            items.len(),
            |i: int|
                if 0 <= i < items.len() {
                    items[i].text()
                } else {
                    Seq::empty()
                },
        )
    }

    /// The text with one node per line at the indentation `indent`: every
    /// tag and every text stands behind `indent` blanks and before a line
    /// break, and the children of an element stand four blanks deeper.
    pub open spec fn pretty_text(self, indent: nat) -> Seq<char>
        decreases self,
    {
        match self {
            ItemView::Tag { name, attributes, inner } => spaces(indent) + open_tag_text(
                name,
                attributes,
            ) + "\n"@ + concat(Self::pretty_texts(inner, indent + 4)) + spaces(indent)
                + close_tag_text(name) + "\n"@,
            ItemView::EmptyTag { name, attributes } => spaces(indent) + open_tag_text(
                name,
                attributes,
            ) + "\n"@,
            ItemView::Text(text) => spaces(indent) + text + "\n"@,
        }
    }

    /// The one-node-per-line text of each item of `items`.
    pub open spec fn pretty_texts(items: Seq<ItemView>, indent: nat) -> Seq<Seq<char>>
        decreases items,
    {
        Seq::new(
            items.len(),
            |i: int|
                if 0 <= i < items.len() {
                    items[i].pretty_text(indent)
                } else {
                    Seq::empty()
                },
        )
    }
}

/// Appends the opening tag of an element to `f`.
fn write_open_tag(name: &str, attributes: &IndexMap<&str, Option<&str>>, f: &mut String)
    ensures
        final(f)@ == old(f)@ + open_tag_text(name@, attribute_entries(*attributes)),
{
    f.append("<");
    f.append(name);
    let ghost head = f@;
    let ghost parts = attribute_texts(attribute_entries(*attributes));
    let n = attributes_len(attributes);
    let mut i: usize = 0;
    assert(f@ =~= head + concat(parts.take(0)));
    while i < n
        invariant
            i <= n,
            n == attribute_entries(*attributes).len(),
            parts == attribute_texts(attribute_entries(*attributes)),
            f@ == head + concat(parts.take(i as int)),
        decreases n - i,
    {
        let ghost before = f@;
        match attributes_get(attributes, i) {
            Some((attribute, Some(data))) => {
                f.append(" ");
                f.append(attribute);
                f.append("=\"");
                f.append(data);
                f.append("\"");
            },
            Some((attribute, None)) => {
                f.append(" ");
                f.append(attribute);
            },
            None => {},
        }
        proof {
            lemma_concat_step(parts, i as int);
            assert(f@ =~= before + parts[i as int]);
        }
        i += 1;
        assert(f@ =~= head + concat(parts.take(i as int)));
    }
    assert(parts.take(n as int) =~= parts);
    f.append(">");
    assert(f@ =~= old(f)@ + open_tag_text(name@, attribute_entries(*attributes)));
}

/// Appends the closing tag of an element to `f`.
fn write_close_tag(name: &str, f: &mut String)
    ensures
        final(f)@ == old(f)@ + close_tag_text(name@),
{
    f.append("</");
    f.append(name);
    f.append(">");
    assert(f@ =~= old(f)@ + close_tag_text(name@));
}

impl<'input> Item<'input> {
    /// Appends the text of this item to `f`: one node per line at the
    /// indentation `indent` where `pretty`, else on one line, where
    /// `indent` plays no part.
    pub fn fmt(&self, f: &mut String, pretty: bool, indent: usize)
        ensures
            final(f)@ == old(f)@ + if pretty {
                self@.pretty_text(indent as nat)
            } else {
                self@.text()
            },
    {
        if pretty {
            let pad = padding(indent);
            self.write_pretty(f, pad.as_str());
        } else {
            self.write(f);
        }
    }

    /// The text of this item on one line.
    pub fn to_string(&self) -> (r: String)
        ensures
            r@ == self@.text(),
    {
        let mut r = String::new();
        self.write(&mut r);
        assert(r@ =~= self@.text());
        r
    }

    /// The text of this item with one node per line, not indented.
    pub fn to_pretty_string(&self) -> (r: String)
        ensures
            r@ == self@.pretty_text(0),
    {
        let mut r = String::new();
        self.fmt(&mut r, true, 0);
        assert(r@ =~= self@.pretty_text(0));
        r
    }

    /// Appends the one-line text of this item to `f`.
    pub(crate) fn write(&self, f: &mut String)
        ensures
            final(f)@ == old(f)@ + self@.text(),
        decreases self,
    {
        match self {
            Item::Tag { name, attributes, inner } => {
                assert(views(inner@) =~= self@->Tag_inner);
                write_open_tag(name, attributes, f);
                Self::write_each(inner, f);
                write_close_tag(name, f);
                assert(f@ =~= old(f)@ + self@.text());
            },
            Item::EmptyTag { name, attributes } => {
                write_open_tag(name, attributes, f);
            },
            Item::Text(text) => {
                f.append(text);
            },
        }
    }

    /// Appends the one-line texts of `items` to `f`.
    pub(crate) fn write_each(items: &Vec<Self>, f: &mut String)
        ensures
            final(f)@ == old(f)@ + concat(ItemView::texts(views(items@))),
        decreases items,
    {
        let ghost parts = ItemView::texts(views(items@));
        let n = items.len();
        let mut i: usize = 0;
        assert(f@ =~= old(f)@ + concat(parts.take(0)));
        while i < n
            invariant
                i <= n,
                n == items.len(),
                parts == ItemView::texts(views(items@)),
                f@ == old(f)@ + concat(parts.take(i as int)),
            decreases n - i,
        {
            items[i].write(f);
            proof {
                lemma_concat_step(parts, i as int);
            }
            i += 1;
            assert(f@ =~= old(f)@ + concat(parts.take(i as int)));
        }
        assert(parts.take(n as int) =~= parts);
    }

    /// Appends the one-node-per-line text of this item to `f`, indented by
    /// the blanks of `pad`.
    pub(crate) fn write_pretty(&self, f: &mut String, pad: &str)
        requires
            pad@ == spaces(pad@.len()),
        ensures
            final(f)@ == old(f)@ + self@.pretty_text(pad@.len()),
        decreases self,
    {
        match self {
            Item::Tag { name, attributes, inner } => {
                assert(views(inner@) =~= self@->Tag_inner);
                let inner_pad = deeper(pad);
                f.append(pad);
                write_open_tag(name, attributes, f);
                f.append("\n");
                Self::write_pretty_each(inner, f, inner_pad.as_str());
                f.append(pad);
                write_close_tag(name, f);
                f.append("\n");
                assert(f@ =~= old(f)@ + self@.pretty_text(pad@.len()));
            },
            Item::EmptyTag { name, attributes } => {
                f.append(pad);
                write_open_tag(name, attributes, f);
                f.append("\n");
                assert(f@ =~= old(f)@ + self@.pretty_text(pad@.len()));
            },
            Item::Text(text) => {
                f.append(pad);
                f.append(text);
                f.append("\n");
                assert(f@ =~= old(f)@ + self@.pretty_text(pad@.len()));
            },
        }
    }

    /// Appends the one-node-per-line texts of `items` to `f`, each indented
    /// by the blanks of `pad`.
    pub(crate) fn write_pretty_each(items: &Vec<Self>, f: &mut String, pad: &str)
        requires
            pad@ == spaces(pad@.len()),
        ensures
            final(f)@ == old(f)@ + concat(ItemView::pretty_texts(views(items@), pad@.len())),
        decreases items,
    {
        let ghost parts = ItemView::pretty_texts(views(items@), pad@.len());
        let n = items.len();
        let mut i: usize = 0;
        assert(f@ =~= old(f)@ + concat(parts.take(0)));
        while i < n
            invariant
                i <= n,
                n == items.len(),
                pad@ == spaces(pad@.len()),
                parts == ItemView::pretty_texts(views(items@), pad@.len()),
                f@ == old(f)@ + concat(parts.take(i as int)),
            decreases n - i,
        {
            items[i].write_pretty(f, pad);
            proof {
                lemma_concat_step(parts, i as int);
            }
            i += 1;
            assert(f@ =~= old(f)@ + concat(parts.take(i as int)));
        }
        assert(parts.take(n as int) =~= parts);
    }
}

} // verus!
