//! Laws of stylesheet recognition.

use vstd::prelude::*;
use crate::collect::{collect, lemma_collect_err};
use crate::css::recognize::{declarations_from, error_at, recognize_declaration};
use crate::css::{
    AttributeDataView, Error, ErrorType, FontValueView, ItemView, KeyframeRuleView,
    MediaQueryView, RuleView, SelectorTypeView,
};
use crate::css::render::{declaration_text, declaration_texts, declarations_text};
use crate::css::DeclarationView;
use crate::node::NodeView;
use crate::text::{concat, lemma_concat_add};

verus! {

/// An empty list is refused wherever it stands: as a selector, as a value,
/// as a query, as an item, as a rule, as a keyframe step and as a font
/// source. The failure is `EmptyList`, and its span is that of the list.
pub proof fn lemma_empty_list_is_refused(o: NodeView)
    requires
        o is List,
        o.items().len() == 0,
    ensures
        SelectorTypeView::recognize(o) == Err::<SelectorTypeView, Error>(
            Error { start: o.start(), end: o.end(), err_type: ErrorType::EmptyList },
        ),
        AttributeDataView::recognize(o) == Err::<AttributeDataView, Error>(
            Error { start: o.start(), end: o.end(), err_type: ErrorType::EmptyList },
        ),
        MediaQueryView::recognize(o) == Err::<MediaQueryView, Error>(
            Error { start: o.start(), end: o.end(), err_type: ErrorType::EmptyList },
        ),
        ItemView::recognize(o) == Err::<ItemView, Error>(
            Error { start: o.start(), end: o.end(), err_type: ErrorType::EmptyList },
        ),
        RuleView::recognize(o) == Err::<RuleView, Error>(
            Error { start: o.start(), end: o.end(), err_type: ErrorType::EmptyList },
        ),
        KeyframeRuleView::recognize(o) == Err::<KeyframeRuleView, Error>(
            Error { start: o.start(), end: o.end(), err_type: ErrorType::EmptyList },
        ),
        FontValueView::recognize(o) == Err::<FontValueView, Error>(
            Error { start: o.start(), end: o.end(), err_type: ErrorType::EmptyList },
        ),
{
}

/// Whether a node of a rule's block is a list that is no declaration: not
/// a pair of an identifier and a value.
pub open spec fn is_malformed_declaration(o: NodeView) -> bool {
    o matches NodeView::List(_, items, _) && !(items.len() == 2 && items[0] is Ident)
}

/// Whether a node is one of the identifiers that open an at-rule.
pub open spec fn is_at_keyword(o: NodeView) -> bool {
    ||| o.is_ident("@media"@)
    ||| o.is_ident("@supports"@)
    ||| o.is_ident("@charset"@)
    ||| o.is_ident("@import"@)
    ||| o.is_ident("@keyframes"@)
    ||| o.is_ident("@font-face"@)
}

/// A malformed declaration is refused where it stands. Where the node at
/// the index `i` of a rule's list is a malformed declaration and the
/// declarations before it are recognised, the rule is refused with
/// `InvalidAttribute`, and the span of the failure is that of the node at
/// `i`, not that of the rule. The same holds of the item, where the list
/// does not begin with the keyword of an at-rule.
pub proof fn lemma_malformed_declaration_is_located(o: NodeView, i: int)
    requires
        o is List,
        1 <= i < o.items().len(),
        is_malformed_declaration(o.items()[i]),
        forall|j: int| 1 <= j < i ==> recognize_declaration(#[trigger] o.items()[j]) is Ok,
    ensures
        RuleView::recognize(o) == Err::<RuleView, Error>(
            Error {
                start: o.items()[i].start(),
                end: o.items()[i].end(),
                err_type: ErrorType::InvalidAttribute,
            },
        ),
        !is_at_keyword(o.items()[0]) ==> ItemView::recognize(o) == Err::<ItemView, Error>(
            Error {
                start: o.items()[i].start(),
                end: o.items()[i].end(),
                err_type: ErrorType::InvalidAttribute,
            },
        ),
{
    let items = o.items();
    let results = declarations_from(items, 1);
    assert(results[i - 1] == recognize_declaration(items[i]));
    assert forall|j: int| 0 <= j < i - 1 implies (#[trigger] results[j]) is Ok by {
        assert(results[j] == recognize_declaration(items[j + 1]));
    }
    lemma_collect_err(results, i - 1);
    assert(collect(results) == Err::<Seq<(Seq<char>, AttributeDataView)>, Error>(
        error_at(items[i], ErrorType::InvalidAttribute),
    ));
}

/// Declarations are written one by one in their order: the lines of two
/// rows of declarations, one after the other, are the lines of the first
/// row followed by the lines of the second, and the lines of a single
/// declaration are its line. So no declaration is dropped, merged or moved,
/// whatever properties the others name.
pub proof fn lemma_declarations_keep_their_order(
    a: Seq<DeclarationView>,
    b: Seq<DeclarationView>,
    d: DeclarationView,
    indent: nat,
)
    ensures
        declarations_text(a + b, indent) == declarations_text(a, indent) + declarations_text(
            b,
            indent,
        ),
        declarations_text(seq![d], indent) == declaration_text(d, indent),
{
    assert(declaration_texts(a + b, indent) =~= declaration_texts(a, indent) + declaration_texts(
        b,
        indent,
    ));
    lemma_concat_add(declaration_texts(a, indent), declaration_texts(b, indent));
    let one = declaration_texts(seq![d], indent);
    assert(one.len() == 1);
    assert(one.last() == declaration_text(d, indent));
    assert(one.drop_last() =~= Seq::<Seq<char>>::empty());
    assert(concat(one.drop_last()) =~= Seq::<char>::empty());
    assert(concat(one) =~= declaration_text(d, indent));
}

/// Parentheses follow the place of a query. A list and a conjunction
/// inside another query are what they are at top level, between one pair of
/// parentheses. A feature test has its pair in either place. A negation is
/// the other way round: at top level it puts the pair around the query it
/// negates, inside another query it leaves the pair to that query.
pub proof fn lemma_query_parentheses(q: MediaQueryView)
    ensures
        q is List || q is And ==> q.text(false) == "("@ + q.text(true) + ")"@,
        q is Attribute ==> q.text(false) == q.text(true),
        q matches MediaQueryView::Not(inner) ==> q.text(true) == "not ("@ + inner.text(false)
            + ")"@ && q.text(false) == "not "@ + inner.text(false),
{
    match q {
        MediaQueryView::List(items) => {
            assert(q.text(false) =~= "("@ + q.text(true) + ")"@);
        },
        MediaQueryView::And(left, right) => {
            assert(q.text(false) =~= "("@ + q.text(true) + ")"@);
        },
        _ => {},
    }
}

} // verus!
