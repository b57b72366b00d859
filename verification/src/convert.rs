//! Conversion of whole documents: which kind of document a file name
//! stands for, under which name its output goes, and the text of a
//! document's top-level nodes.

use vstd::prelude::*;
use vstd::string::*;
use crate::collect::{collect, result_view, views};
use crate::css;
use crate::html;
use crate::html::laws::{lemma_pretty_row_differs_by_whitespace, without};
use crate::node::{Node, NodeView};
use crate::text::{concat, ends_with_str, padding};

verus! {

/// The two kinds of document.
#[derive(Clone, Copy, Debug, PartialEq, Eq, Structural)]
pub enum Target {
    /// A markup document, from a file whose name ends in `.htsx`.
    Markup,
    /// A stylesheet, from a file whose name ends in `.cssx`.
    Stylesheet,
}

/// Whether `name` ends with the characters of `suffix`.
pub open spec fn has_suffix(name: Seq<char>, suffix: Seq<char>) -> bool {
    suffix.len() <= name.len() && name.subrange(name.len() - suffix.len(), name.len() as int)
        == suffix
}

/// The kind of document that a file name stands for, if any.
pub open spec fn target_of_name(name: Seq<char>) -> Option<Target> {
    if has_suffix(name, ".htsx"@) {
        Some(Target::Markup)
    } else if has_suffix(name, ".cssx"@) {
        Some(Target::Stylesheet)
    } else {
        None
    }
}

/// The name of the file that takes the output: `.htsx` becomes `.html`,
/// `.cssx` becomes `.css`.
pub open spec fn output_of_name(name: Seq<char>) -> Option<Seq<char>> {
    match target_of_name(name) {
        Some(Target::Markup) => Some(name.subrange(0, name.len() - 2) + "ml"@),
        Some(Target::Stylesheet) => Some(name.subrange(0, name.len() - 1)),
        None => None,
    }
}

/// The kind of document that the file `name` holds, if any.
pub fn target_of(name: &str) -> (r: Option<Target>)
    ensures
        r == target_of_name(name@),
{
    if ends_with_str(name, ".htsx") {
        Some(Target::Markup)
    } else if ends_with_str(name, ".cssx") {
        Some(Target::Stylesheet)
    } else {
        None
    }
}

/// The name of the file that takes the output of the file `name`, if that
/// file holds a document.
pub fn output_name(name: &str) -> (r: Option<String>)
    ensures
        match r {
            Some(out) => output_of_name(name@) == Some(out@),
            None => output_of_name(name@) is None,
        },
{
    proof {
        reveal_strlit(".htsx");
        reveal_strlit(".cssx");
    }
    match target_of(name) {
        Some(Target::Markup) => {
            let n = name.unicode_len();
            let mut out = String::new();
            out.append(name.substring_char(0, n - 2));
            out.append("ml");
            assert(out@ =~= name@.subrange(0, name@.len() - 2) + "ml"@);
            Some(out)
        },
        Some(Target::Stylesheet) => {
            let n = name.unicode_len();
            let mut out = String::new();
            out.append(name.substring_char(0, n - 1));
            assert(out@ =~= name@.subrange(0, name@.len() - 1));
            Some(out)
        },
        None => None,
    }
}

/// The text of a markup document: the texts of its top-level nodes one
/// after the other, or the first failure among them.
pub open spec fn markup_text(nodes: Seq<NodeView>, pretty: bool) -> Result<Seq<char>, html::Error> {
    match collect(html::ItemView::recognize_from(nodes, 0)) {
        Err(e) => Err(e),
        Ok(items) => Ok(
            concat(
                if pretty {
                    html::ItemView::pretty_texts(items, 0)
                } else {
                    html::ItemView::texts(items)
                },
            ),
        ),
    }
}

/// The text of a stylesheet: the texts of its top-level nodes one after
/// the other, none of them indented, or the first failure among them.
pub open spec fn stylesheet_text(nodes: Seq<NodeView>) -> Result<Seq<char>, css::Error> {
    match collect(css::ItemView::recognize_from(nodes, 0)) {
        Err(e) => Err(e),
        Ok(items) => Ok(concat(css::ItemView::texts(items, 0))),
    }
}

/// Converts the top-level nodes of a markup document to text, one node per
/// line where `pretty`, else on one line.
pub fn convert_markup<'input>(nodes: &'input Vec<Node<'input>>, pretty: bool) -> (r: Result<
    String,
    html::Error,
>)
    ensures
        result_view(r) == markup_text(views(nodes@), pretty),
{
    match html::Item::try_from_each(nodes, 0) {
        Err(e) => Err(e),
        Ok(items) => {
            let mut out = String::new();
            if pretty {
                let pad = padding(0);
                html::Item::write_pretty_each(&items, &mut out, pad.as_str());
            } else {
                html::Item::write_each(&items, &mut out);
            }
            assert(out@ =~= markup_text(views(nodes@), pretty)->Ok_0);
            Ok(out)
        },
    }
}

/// Converts the top-level nodes of a stylesheet to text.
pub fn convert_stylesheet<'input>(nodes: &'input Vec<Node<'input>>) -> (r: Result<
    String,
    css::Error,
>)
    ensures
        result_view(r) == stylesheet_text(views(nodes@)),
{
    match css::Item::try_from_each(nodes, 0) {
        Err(e) => Err(e),
        Ok(items) => {
            let mut out = String::new();
            let pad = padding(0);
            css::Item::write_each(&items, &mut out, pad.as_str());
            assert(out@ =~= stylesheet_text(views(nodes@))->Ok_0);
            Ok(out)
        },
    }
}

/// The two layouts of a markup document fail alike, and where they do not
/// fail they differ by whitespace alone: for every notion of whitespace
/// that counts the blank and the line break, both are the same once
/// stripped of whitespace.
pub proof fn lemma_markup_layouts_differ_by_whitespace(
    nodes: Seq<NodeView>,
    ws: spec_fn(char) -> bool,
)
    requires
        ws(' '),
        ws('\n'),
    ensures
        match (markup_text(nodes, true), markup_text(nodes, false)) {
            (Ok(pretty), Ok(compact)) => without(pretty, ws) == without(compact, ws),
            (Err(e1), Err(e2)) => e1 == e2,
            _ => false,
        },
{
    match collect(html::ItemView::recognize_from(nodes, 0)) {
        Ok(items) => {
            lemma_pretty_row_differs_by_whitespace(items, 0, ws);
        },
        Err(_) => {},
    }
}

} // verus!
