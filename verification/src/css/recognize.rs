//! Recognition of the stylesheet intermediate form in the symbolic tree.

use vstd::prelude::*;
use crate::collect::{
    collect, lemma_collect_prefix_err, lemma_collect_step, result_view, result_views, views,
};
use crate::css::{
    declaration_views, AttributeData, AttributeDataView, DeclarationView, Error, ErrorType,
    FontValue, FontValueView, Item, ItemView, KeyframeRule, KeyframeRuleView, MediaQuery,
    MediaQueryView, Rule, RuleView, SelectorType, SelectorTypeView,
};
use crate::node::{Node, NodeView};
use crate::text::{ends_with_char, str_eq, strip_prefix_char};

verus! {

/// The failure of kind `err_type` at the node `o`.
pub open spec fn error_at(o: NodeView, err_type: ErrorType) -> Error {
    Error { start: o.start(), end: o.end(), err_type }
}

/// The kind of failure of a node that stands where its kind is not allowed.
pub open spec fn not_allowed(o: NodeView) -> ErrorType {
    match o {
        NodeView::Ident(_, _, _) => ErrorType::IdentNotAllowed,
        NodeView::Number(_, _, _) => ErrorType::NumberNotAllowed,
        NodeView::String(_, _, _) => ErrorType::StringNotAllowed,
        NodeView::List(_, _, _) => ErrorType::ListNotAllowed,
    }
}

/// The failure of kind `err_type` at the node `o`.
fn fail_at(o: &Node, err_type: ErrorType) -> (r: Error)
    ensures
        r == error_at(o@, err_type),
{
    Error { start: o.start(), end: o.end(), err_type }
}

/// The failure of a node that stands where its kind is not allowed.
fn fail_not_allowed(o: &Node) -> (r: Error)
    ensures
        r == error_at(o@, not_allowed(o@)),
{
    match o {
        Node::Ident(s, _, e) => Error { start: *s, end: *e, err_type: ErrorType::IdentNotAllowed },
        Node::Number(s, _, e) => Error {
            start: *s,
            end: *e,
            err_type: ErrorType::NumberNotAllowed,
        },
        Node::String(s, _, e) => Error {
            start: *s,
            end: *e,
            err_type: ErrorType::StringNotAllowed,
        },
        Node::List(s, _, e) => Error { start: *s, end: *e, err_type: ErrorType::ListNotAllowed },
    }
}

impl AttributeDataView {
    /// The value that a node stands for.
    ///
    /// An identifier or a number is plain text, a quoted string is a string.
    /// A list `(!important v)` is the value `v` with the mark, a list
    /// `(fn name arg ...)` with an identifier `name` is a function, an empty
    /// list is refused, and any other list is the list of its values. The
    /// first failure inside, in source order, is the failure of the whole.
    pub open spec fn recognize(o: NodeView) -> Result<AttributeDataView, Error>
        decreases o,
    {
        match o {
            NodeView::Ident(_, t, _) => Ok(AttributeDataView::Text(t)),
            NodeView::Number(_, t, _) => Ok(AttributeDataView::Text(t)),
            NodeView::String(_, t, _) => Ok(AttributeDataView::String(t)),
            NodeView::List(_, items, _) => {
                if items.len() == 2 && items[0].is_ident("!important"@) {
                    match Self::recognize(items[1]) {
                        Ok(v) => Ok(AttributeDataView::NotImportant(Box::new(v))),
                        Err(e) => Err(e),
                    }
                } else if items.len() >= 2 && items[0].is_ident("fn"@) && items[1] is Ident {
                    match collect(Self::recognize_from(items, 2)) {
                        Ok(args) => Ok(
                            AttributeDataView::Function { name: items[1]->Ident_1, args },
                        ),
                        Err(e) => Err(e),
                    }
                } else if items.len() == 0 {
                    Err(error_at(o, ErrorType::EmptyList))
                } else {
                    match collect(Self::recognize_from(items, 0)) {
                        Ok(values) => Ok(AttributeDataView::List(values)),
                        Err(e) => Err(e),
                    }
                }
            },
        }
    }

    /// What each node of `items` from the index `from` on stands for.
    pub open spec fn recognize_from(items: Seq<NodeView>, from: int) -> Seq<
        Result<AttributeDataView, Error>,
    >
        decreases items,
    {
        Seq::new(
            if 0 <= from <= items.len() {
                (items.len() - from) as nat
            } else {
                0
            },
            |i: int|
                if 0 <= from && 0 <= i && i + from < items.len() {
                    Self::recognize(items[i + from])
                } else {
                    arbitrary()
                },
        )
    }
}

impl<'input> AttributeData<'input> {
    /// Recognises the value that `o` stands for.
    pub fn try_from(o: &'input Node<'input>) -> (r: Result<Self, Error>)
        ensures
            result_view(r) == AttributeDataView::recognize(o@),
        decreases o,
    {
        match o {
            Node::Ident(_, data, _) => Ok(AttributeData::Text(*data)),
            Node::Number(_, data, _) => Ok(AttributeData::Text(*data)),
            Node::String(_, s, _) => Ok(AttributeData::String(s.as_str())),
            Node::List(_, items, _) => {
                let n = items.len();
                assert(views(items@) =~= o@.items());
                if n == 2 && items[0].is_ident("!important") {
                    match AttributeData::try_from(&items[1]) {
                        Ok(v) => Ok(AttributeData::NotImportant(Box::new(v))),
                        Err(e) => Err(e),
                    }
                } else if n >= 2 && items[0].is_ident("fn") && items[1].ident_text().is_some() {
                    let name = items[1].ident_text().unwrap();
                    match Self::try_from_each(items, 2) {
                        Ok(args) => {
                            let r = AttributeData::Function { name, args };
                            assert(r@->Function_args =~= views(args@));
                            Ok(r)
                        },
                        Err(e) => Err(e),
                    }
                } else if n == 0 {
                    Err(fail_at(o, ErrorType::EmptyList))
                } else {
                    match Self::try_from_each(items, 0) {
                        Ok(values) => {
                            let r = AttributeData::List(values);
                            assert(r@->List_0 =~= views(values@));
                            Ok(r)
                        },
                        Err(e) => Err(e),
                    }
                }
            },
        }
    }

    /// Recognises the values that the nodes of `items` from the index `from`
    /// on stand for, up to the first that fails.
    fn try_from_each(items: &'input Vec<Node<'input>>, from: usize) -> (r: Result<Vec<Self>, Error>)
        requires
            from <= items.len(),
        ensures
            result_views(r) == collect(AttributeDataView::recognize_from(views(items@), from as int)),
        decreases items,
    {
        let ghost results = AttributeDataView::recognize_from(views(items@), from as int);
        let mut values: Vec<Self> = Vec::new();
        let mut i: usize = from;
        assert(results.take(0) =~= Seq::empty());
        assert(views(values@) =~= Seq::empty());
        while i < items.len()
            invariant
                from <= i <= items.len(),
                results == AttributeDataView::recognize_from(views(items@), from as int),
                collect(results.take(i - from)) == Ok::<Seq<AttributeDataView>, Error>(views(values@)),
            decreases items.len() - i,
        {
            let ghost before = views(values@);
            proof {
                lemma_collect_step(results, i - from);
            }
            match AttributeData::try_from(&items[i]) {
                Ok(v) => {
                    values.push(v);
                    assert(views(values@) =~= before.push(v@));
                },
                Err(e) => {
                    proof {
                        lemma_collect_prefix_err(results, i - from + 1);
                    }
                    return Err(e);
                },
            }
            i += 1;
        }
        assert(results.take(i - from) =~= results);
        Ok(values)
    }
}

impl SelectorTypeView {
    /// The selector that a name stands for: an id after `#`, a class after
    /// `.`, else a tag. The mark is not part of the id's or class's name.
    pub open spec fn of_name(name: Seq<char>) -> SelectorTypeView {
        if name.len() > 0 && name[0] == '#' {
            SelectorTypeView::Id(name.drop_first())
        } else if name.len() > 0 && name[0] == '.' {
            SelectorTypeView::Class(name.drop_first())
        } else {
            SelectorTypeView::Tag(name)
        }
    }

    /// The selector that an atom stands for: an identifier is a name, a
    /// number and a quoted string are refused.
    pub open spec fn recognize_atom(o: NodeView) -> Result<SelectorTypeView, Error> {
        match o {
            NodeView::Ident(_, name, _) => Ok(Self::of_name(name)),
            _ => Err(error_at(o, not_allowed(o))),
        }
    }

    /// The selector that a node stands for.
    ///
    /// A list `(seq part ...)` is a sequence, and none of its parts may be a
    /// list. A list `(list member ...)` is a list of selectors of any kind.
    /// An empty list is refused, and so is any other list. An atom is
    /// recognised as [`Self::recognize_atom`] says.
    pub open spec fn recognize(o: NodeView) -> Result<SelectorTypeView, Error>
        decreases o,
    {
        match o {
            NodeView::List(_, items, _) => {
                if items.len() >= 1 && items[0].is_ident("seq"@) {
                    match collect(Self::parts_from(items, 1)) {
                        Ok(parts) => Ok(SelectorTypeView::Sequence(parts)),
                        Err(e) => Err(e),
                    }
                } else if items.len() >= 1 && items[0].is_ident("list"@) {
                    match collect(Self::recognize_from(items, 1)) {
                        Ok(members) => Ok(SelectorTypeView::List(members)),
                        Err(e) => Err(e),
                    }
                } else if items.len() == 0 {
                    Err(error_at(o, ErrorType::EmptyList))
                } else {
                    Err(error_at(o, ErrorType::ExpectedSeqOrList))
                }
            },
            _ => Self::recognize_atom(o),
        }
    }

    /// What each node of `items` from the index `from` on stands for as a
    /// part of a sequence.
    pub open spec fn parts_from(items: Seq<NodeView>, from: int) -> Seq<
        Result<SelectorTypeView, Error>,
    > {
        Seq::new(
            if 0 <= from <= items.len() {
                (items.len() - from) as nat
            } else {
                0
            },
            |i: int| Self::recognize_atom(items[i + from]),
        )
    }

    /// What each node of `items` from the index `from` on stands for.
    pub open spec fn recognize_from(items: Seq<NodeView>, from: int) -> Seq<
        Result<SelectorTypeView, Error>,
    >
        decreases items,
    {
        Seq::new(
            if 0 <= from <= items.len() {
                (items.len() - from) as nat
            } else {
                0
            },
            |i: int|
                if 0 <= from && 0 <= i && i + from < items.len() {
                    Self::recognize(items[i + from])
                } else {
                    arbitrary()
                },
        )
    }
}

impl<'input> SelectorType<'input> {
    /// Recognises the selector that `o` stands for.
    pub fn try_from(o: &'input Node<'input>) -> (r: Result<Self, Error>)
        ensures
            result_view(r) == SelectorTypeView::recognize(o@),
        decreases o,
    {
        match o {
            Node::List(_, items, _) => {
                let n = items.len();
                assert(views(items@) =~= o@.items());
                if n >= 1 && items[0].is_ident("seq") {
                    match Self::parts_each(items, 1) {
                        Ok(parts) => {
                            let r = SelectorType::Sequence(parts);
                            assert(r@->Sequence_0 =~= views(parts@));
                            Ok(r)
                        },
                        Err(e) => Err(e),
                    }
                } else if n >= 1 && items[0].is_ident("list") {
                    match Self::try_from_each(items, 1) {
                        Ok(members) => {
                            let r = SelectorType::List(members);
                            assert(r@->List_0 =~= views(members@));
                            Ok(r)
                        },
                        Err(e) => Err(e),
                    }
                } else if n == 0 {
                    Err(fail_at(o, ErrorType::EmptyList))
                } else {
                    Err(fail_at(o, ErrorType::ExpectedSeqOrList))
                }
            },
            _ => Self::try_from_atom(o),
        }
    }

    /// Recognises the selector that the atom `o` stands for; a list is
    /// refused.
    fn try_from_atom(o: &'input Node<'input>) -> (r: Result<Self, Error>)
        ensures
            result_view(r) == SelectorTypeView::recognize_atom(o@),
    {
        match o {
            Node::Ident(_, name, _) => {
                if let Some(id) = strip_prefix_char(name, '#') {
                    Ok(SelectorType::Id(id))
                } else if let Some(class) = strip_prefix_char(name, '.') {
                    Ok(SelectorType::Class(class))
                } else {
                    Ok(SelectorType::Tag(*name))
                }
            },
            _ => Err(fail_not_allowed(o)),
        }
    }

    /// Recognises the parts of a sequence in the nodes of `items` from the
    /// index `from` on, up to the first that fails.
    fn parts_each(items: &'input Vec<Node<'input>>, from: usize) -> (r: Result<Vec<Self>, Error>)
        requires
            from <= items.len(),
        ensures
            result_views(r) == collect(SelectorTypeView::parts_from(views(items@), from as int)),
    {
        let ghost results = SelectorTypeView::parts_from(views(items@), from as int);
        let mut values: Vec<Self> = Vec::new();
        let mut i: usize = from;
        assert(results.take(0) =~= Seq::empty());
        assert(views(values@) =~= Seq::empty());
        while i < items.len()
            invariant
                from <= i <= items.len(),
                results == SelectorTypeView::parts_from(views(items@), from as int),
                collect(results.take(i - from)) == Ok::<Seq<SelectorTypeView>, Error>(views(values@)),
            decreases items.len() - i,
        {
            let ghost before = views(values@);
            proof {
                lemma_collect_step(results, i - from);
            }
            match Self::try_from_atom(&items[i]) {
                Ok(v) => {
                    values.push(v);
                    assert(views(values@) =~= before.push(v@));
                },
                Err(e) => {
                    proof {
                        lemma_collect_prefix_err(results, i - from + 1);
                    }
                    return Err(e);
                },
            }
            i += 1;
        }
        assert(results.take(i - from) =~= results);
        Ok(values)
    }

    /// Recognises the selectors that the nodes of `items` from the index
    /// `from` on stand for, up to the first that fails.
    fn try_from_each(items: &'input Vec<Node<'input>>, from: usize) -> (r: Result<Vec<Self>, Error>)
        requires
            from <= items.len(),
        ensures
            result_views(r) == collect(SelectorTypeView::recognize_from(views(items@), from as int)),
        decreases items,
    {
        let ghost results = SelectorTypeView::recognize_from(views(items@), from as int);
        let mut values: Vec<Self> = Vec::new();
        let mut i: usize = from;
        assert(results.take(0) =~= Seq::empty());
        assert(views(values@) =~= Seq::empty());
        while i < items.len()
            invariant
                from <= i <= items.len(),
                results == SelectorTypeView::recognize_from(views(items@), from as int),
                collect(results.take(i - from)) == Ok::<Seq<SelectorTypeView>, Error>(views(values@)),
            decreases items.len() - i,
        {
            let ghost before = views(values@);
            proof {
                lemma_collect_step(results, i - from);
            }
            match SelectorType::try_from(&items[i]) {
                Ok(v) => {
                    values.push(v);
                    assert(views(values@) =~= before.push(v@));
                },
                Err(e) => {
                    proof {
                        lemma_collect_prefix_err(results, i - from + 1);
                    }
                    return Err(e);
                },
            }
            i += 1;
        }
        assert(results.take(i - from) =~= results);
        Ok(values)
    }
}

/// The declaration that a node of a rule's block stands for: a list
/// `(name value)` with an identifier `name`. Anything else is refused as an
/// invalid attribute.
pub open spec fn recognize_declaration(o: NodeView) -> Result<DeclarationView, Error> {
    match o {
        NodeView::List(_, items, _) => {
            if items.len() == 2 && items[0] is Ident {
                match AttributeDataView::recognize(items[1]) {
                    Ok(value) => Ok((items[0]->Ident_1, value)),
                    Err(e) => Err(e),
                }
            } else {
                Err(error_at(o, ErrorType::InvalidAttribute))
            }
        },
        _ => Err(error_at(o, ErrorType::InvalidAttribute)),
    }
}

/// The declaration that a node of a keyframe step's block stands for: as in
/// a rule's block, but an atom is refused by its kind.
pub open spec fn recognize_step_declaration(o: NodeView) -> Result<DeclarationView, Error> {
    match o {
        NodeView::List(_, _, _) => recognize_declaration(o),
        _ => Err(error_at(o, not_allowed(o))),
    }
}

/// What each node of `items` from the index `from` on stands for as a
/// declaration of a rule.
pub open spec fn declarations_from(items: Seq<NodeView>, from: int) -> Seq<
    Result<DeclarationView, Error>,
> {
    Seq::new(
        if 0 <= from <= items.len() {
            (items.len() - from) as nat
        } else {
            0
        },
        |i: int| recognize_declaration(items[i + from]),
    )
}

/// What each node of `items` from the index `from` on stands for as a
/// declaration of a keyframe step.
pub open spec fn step_declarations_from(items: Seq<NodeView>, from: int) -> Seq<
    Result<DeclarationView, Error>,
> {
    Seq::new(
        if 0 <= from <= items.len() {
            (items.len() - from) as nat
        } else {
            0
        },
        |i: int| recognize_step_declaration(items[i + from]),
    )
}

/// The view of a declaration inside a result.
pub open spec fn declaration_result_view(r: Result<(&str, AttributeData), Error>) -> Result<
    DeclarationView,
    Error,
> {
    match r {
        Ok(d) => Ok((d.0@, d.1@)),
        Err(e) => Err(e),
    }
}

/// The views of the declarations inside a result.
pub open spec fn declarations_result_view(
    r: Result<Vec<(&str, AttributeData)>, Error>,
) -> Result<Seq<DeclarationView>, Error> {
    match r {
        Ok(ds) => Ok(declaration_views(ds@)),
        Err(e) => Err(e),
    }
}

/// Recognises the declaration that `o` stands for in a rule's block.
fn declaration_try_from<'input>(o: &'input Node<'input>) -> (r: Result<
    (&'input str, AttributeData<'input>),
    Error,
>)
    ensures
        declaration_result_view(r) == recognize_declaration(o@),
{
    match o {
        Node::List(_, items, _) => {
            assert(views(items@) =~= o@.items());
            if items.len() == 2 && items[0].ident_text().is_some() {
                let name = items[0].ident_text().unwrap();
                match AttributeData::try_from(&items[1]) {
                    Ok(value) => Ok((name, value)),
                    Err(e) => Err(e),
                }
            } else {
                Err(fail_at(o, ErrorType::InvalidAttribute))
            }
        },
        _ => Err(fail_at(o, ErrorType::InvalidAttribute)),
    }
}

/// Recognises the declaration that `o` stands for in a keyframe step's
/// block.
fn step_declaration_try_from<'input>(o: &'input Node<'input>) -> (r: Result<
    (&'input str, AttributeData<'input>),
    Error,
>)
    ensures
        declaration_result_view(r) == recognize_step_declaration(o@),
{
    match o {
        Node::List(_, _, _) => declaration_try_from(o),
        _ => Err(fail_not_allowed(o)),
    }
}

/// Recognises the declarations of a block in the nodes of `items` from the
/// index `from` on, up to the first that fails. `in_step` says that the
/// block is that of a keyframe step.
fn declarations_try_from<'input>(
    items: &'input Vec<Node<'input>>,
    from: usize,
    in_step: bool,
) -> (r: Result<Vec<(&'input str, AttributeData<'input>)>, Error>)
    requires
        from <= items.len(),
    ensures
        declarations_result_view(r) == collect(
            if in_step {
                step_declarations_from(views(items@), from as int)
            } else {
                declarations_from(views(items@), from as int)
            },
        ),
{
    let ghost results = if in_step {
        step_declarations_from(views(items@), from as int)
    } else {
        declarations_from(views(items@), from as int)
    };
    let mut values: Vec<(&'input str, AttributeData<'input>)> = Vec::new();
    let mut i: usize = from;
    assert(results.take(0) =~= Seq::empty());
    assert(declaration_views(values@) =~= Seq::empty());
    while i < items.len()
        invariant
            from <= i <= items.len(),
            results == if in_step {
                step_declarations_from(views(items@), from as int)
            } else {
                declarations_from(views(items@), from as int)
            },
            collect(results.take(i - from)) == Ok::<Seq<DeclarationView>, Error>(
                declaration_views(values@),
            ),
        decreases items.len() - i,
    {
        let ghost before = declaration_views(values@);
        proof {
            lemma_collect_step(results, i - from);
        }
        let one = if in_step {
            step_declaration_try_from(&items[i])
        } else {
            declaration_try_from(&items[i])
        };
        match one {
            Ok(d) => {
                let ghost dv = (d.0@, d.1@);
                values.push(d);
                assert(declaration_views(values@) =~= before.push(dv));
            },
            Err(e) => {
                proof {
                    lemma_collect_prefix_err(results, i - from + 1);
                }
                return Err(e);
            },
        }
        i += 1;
    }
    assert(results.take(i - from) =~= results);
    Ok(values)
}

impl RuleView {
    /// The rule that a node stands for: a list whose first node is the
    /// selector and whose other nodes are declarations. An empty list and
    /// an atom are refused. A failure among the declarations comes before
    /// one of the selector.
    pub open spec fn recognize(o: NodeView) -> Result<RuleView, Error> {
        match o {
            NodeView::List(_, items, _) => {
                if items.len() == 0 {
                    Err(error_at(o, ErrorType::EmptyList))
                } else {
                    match collect(declarations_from(items, 1)) {
                        Err(e) => Err(e),
                        Ok(inner) => match SelectorTypeView::recognize(items[0]) {
                            Err(e) => Err(e),
                            Ok(selector) => Ok(RuleView { selector, inner }),
                        },
                    }
                }
            },
            _ => Err(error_at(o, not_allowed(o))),
        }
    }
}

impl<'input> Rule<'input> {
    /// Recognises the rule that `o` stands for.
    pub fn try_from(o: &'input Node<'input>) -> (r: Result<Self, Error>)
        ensures
            result_view(r) == RuleView::recognize(o@),
    {
        match o {
            Node::List(_, items, _) => {
                assert(views(items@) =~= o@.items());
                if items.len() == 0 {
                    Err(fail_at(o, ErrorType::EmptyList))
                } else {
                    match declarations_try_from(items, 1, false) {
                        Err(e) => Err(e),
                        Ok(inner) => match SelectorType::try_from(&items[0]) {
                            Err(e) => Err(e),
                            Ok(selector) => Ok(Rule { selector, inner }),
                        },
                    }
                }
            },
            _ => Err(fail_not_allowed(o)),
        }
    }
}

impl MediaQueryView {
    /// The query that a name stands for: one of the three media types, or a
    /// bare feature.
    pub open spec fn of_name(name: Seq<char>) -> MediaQueryView {
        if name == "screen"@ {
            MediaQueryView::Screen
        } else if name == "all"@ {
            MediaQueryView::All
        } else if name == "page"@ {
            MediaQueryView::Page
        } else {
            MediaQueryView::EmptyAttribute(name)
        }
    }

    /// The query that a node stands for.
    ///
    /// An identifier is recognised as [`Self::of_name`] says. A list of
    /// three nodes with `and` in the middle is a conjunction; else a list of
    /// two nodes is a negation where it begins with `not`, and a feature
    /// test where it begins with another identifier. An empty list is
    /// refused, and any other list is the list of its queries. A number and
    /// a quoted string are refused.
    pub open spec fn recognize(o: NodeView) -> Result<MediaQueryView, Error>
        decreases o,
    {
        match o {
            NodeView::Ident(_, name, _) => Ok(Self::of_name(name)),
            NodeView::List(_, items, _) => {
                if items.len() == 3 && items[1].is_ident("and"@) {
                    match Self::recognize(items[0]) {
                        Err(e) => Err(e),
                        Ok(left) => match Self::recognize(items[2]) {
                            Err(e) => Err(e),
                            Ok(right) => Ok(
                                MediaQueryView::And(Box::new(left), Box::new(right)),
                            ),
                        },
                    }
                } else if items.len() == 2 && items[0].is_ident("not"@) {
                    match Self::recognize(items[1]) {
                        Err(e) => Err(e),
                        Ok(inner) => Ok(MediaQueryView::Not(Box::new(inner))),
                    }
                } else if items.len() == 2 && items[0] is Ident {
                    match AttributeDataView::recognize(items[1]) {
                        Err(e) => Err(e),
                        Ok(value) => Ok(MediaQueryView::Attribute(items[0]->Ident_1, value)),
                    }
                } else if items.len() == 0 {
                    Err(error_at(o, ErrorType::EmptyList))
                } else {
                    match collect(Self::recognize_from(items, 0)) {
                        Err(e) => Err(e),
                        Ok(members) => Ok(MediaQueryView::List(members)),
                    }
                }
            },
            _ => Err(error_at(o, not_allowed(o))),
        }
    }

    /// What each node of `items` from the index `from` on stands for.
    pub open spec fn recognize_from(items: Seq<NodeView>, from: int) -> Seq<
        Result<MediaQueryView, Error>,
    >
        decreases items,
    {
        Seq::new(
            if 0 <= from <= items.len() {
                (items.len() - from) as nat
            } else {
                0
            },
            |i: int|
                if 0 <= from && 0 <= i && i + from < items.len() {
                    Self::recognize(items[i + from])
                } else {
                    arbitrary()
                },
        )
    }
}

impl<'input> MediaQuery<'input> {
    /// Recognises the query that `o` stands for.
    pub fn try_from(o: &'input Node<'input>) -> (r: Result<Self, Error>)
        ensures
            result_view(r) == MediaQueryView::recognize(o@),
        decreases o,
    {
        match o {
            Node::Ident(_, name, _) => {
                if str_eq(name, "screen") {
                    Ok(MediaQuery::Screen)
                } else if str_eq(name, "all") {
                    Ok(MediaQuery::All)
                } else if str_eq(name, "page") {
                    Ok(MediaQuery::Page)
                } else {
                    Ok(MediaQuery::EmptyAttribute(*name))
                }
            },
            Node::List(_, items, _) => {
                let n = items.len();
                assert(views(items@) =~= o@.items());
                if n == 3 && items[1].is_ident("and") {
                    match MediaQuery::try_from(&items[0]) {
                        Err(e) => Err(e),
                        Ok(left) => match MediaQuery::try_from(&items[2]) {
                            Err(e) => Err(e),
                            Ok(right) => Ok(MediaQuery::And(Box::new(left), Box::new(right))),
                        },
                    }
                } else if n == 2 && items[0].is_ident("not") {
                    match MediaQuery::try_from(&items[1]) {
                        Err(e) => Err(e),
                        Ok(inner) => Ok(MediaQuery::Not(Box::new(inner))),
                    }
                } else if n == 2 && items[0].ident_text().is_some() {
                    let name = items[0].ident_text().unwrap();
                    match AttributeData::try_from(&items[1]) {
                        Err(e) => Err(e),
                        Ok(value) => Ok(MediaQuery::Attribute(name, value)),
                    }
                } else if n == 0 {
                    Err(fail_at(o, ErrorType::EmptyList))
                } else {
                    match Self::try_from_each(items, 0) {
                        Err(e) => Err(e),
                        Ok(members) => {
                            let r = MediaQuery::List(members);
                            assert(r@->List_0 =~= views(members@));
                            Ok(r)
                        },
                    }
                }
            },
            _ => Err(fail_not_allowed(o)),
        }
    }

    /// Recognises the queries that the nodes of `items` from the index `from`
    /// on stand for, up to the first that fails.
    fn try_from_each(items: &'input Vec<Node<'input>>, from: usize) -> (r: Result<Vec<Self>, Error>)
        requires
            from <= items.len(),
        ensures
            result_views(r) == collect(MediaQueryView::recognize_from(views(items@), from as int)),
        decreases items,
    {
        let ghost results = MediaQueryView::recognize_from(views(items@), from as int);
        let mut values: Vec<Self> = Vec::new();
        let mut i: usize = from;
        assert(results.take(0) =~= Seq::empty());
        assert(views(values@) =~= Seq::empty());
        while i < items.len()
            invariant
                from <= i <= items.len(),
                results == MediaQueryView::recognize_from(views(items@), from as int),
                collect(results.take(i - from)) == Ok::<Seq<MediaQueryView>, Error>(views(values@)),
            decreases items.len() - i,
        {
            let ghost before = views(values@);
            proof {
                lemma_collect_step(results, i - from);
            }
            match MediaQuery::try_from(&items[i]) {
                Ok(v) => {
                    values.push(v);
                    assert(views(values@) =~= before.push(v@));
                },
                Err(e) => {
                    proof {
                        lemma_collect_prefix_err(results, i - from + 1);
                    }
                    return Err(e);
                },
            }
            i += 1;
        }
        assert(results.take(i - from) =~= results);
        Ok(values)
    }
}

impl KeyframeRuleView {
    /// The step that a node stands for: a list that begins with `from`,
    /// with `to`, or with an identifier that ends in `%`, followed by the
    /// declarations of its block. A list that begins with another
    /// identifier is refused for want of a percentage, before its
    /// declarations are looked at. An empty list is refused; any other
    /// list is refused as an invalid attribute, and an atom by its kind.
    pub open spec fn recognize(o: NodeView) -> Result<KeyframeRuleView, Error> {
        match o {
            NodeView::List(_, items, _) => {
                if items.len() >= 1 && items[0].is_ident("from"@) {
                    match collect(step_declarations_from(items, 1)) {
                        Err(e) => Err(e),
                        Ok(attributes) => Ok(KeyframeRuleView::From(attributes)),
                    }
                } else if items.len() >= 1 && items[0].is_ident("to"@) {
                    match collect(step_declarations_from(items, 1)) {
                        Err(e) => Err(e),
                        Ok(attributes) => Ok(KeyframeRuleView::To(attributes)),
                    }
                } else if items.len() >= 1 && items[0] is Ident {
                    let percent = items[0]->Ident_1;
                    if percent.len() > 0 && percent.last() == '%' {
                        match collect(step_declarations_from(items, 1)) {
                            Err(e) => Err(e),
                            Ok(attributes) => Ok(KeyframeRuleView::Percent { percent, attributes }),
                        }
                    } else {
                        Err(error_at(o, ErrorType::ExpectedPercent))
                    }
                } else if items.len() == 0 {
                    Err(error_at(o, ErrorType::EmptyList))
                } else {
                    Err(error_at(o, ErrorType::InvalidAttribute))
                }
            },
            _ => Err(error_at(o, not_allowed(o))),
        }
    }

    /// What each node of `items` from the index `from` on stands for.
    pub open spec fn recognize_from(items: Seq<NodeView>, from: int) -> Seq<
        Result<KeyframeRuleView, Error>,
    > {
        Seq::new(
            if 0 <= from <= items.len() {
                (items.len() - from) as nat
            } else {
                0
            },
            |i: int| Self::recognize(items[i + from]),
        )
    }
}

impl<'input> KeyframeRule<'input> {
    /// Recognises the step that `o` stands for.
    pub fn try_from(o: &'input Node<'input>) -> (r: Result<Self, Error>)
        ensures
            result_view(r) == KeyframeRuleView::recognize(o@),
    {
        match o {
            Node::List(_, items, _) => {
                let n = items.len();
                assert(views(items@) =~= o@.items());
                if n >= 1 && items[0].is_ident("from") {
                    match declarations_try_from(items, 1, true) {
                        Err(e) => Err(e),
                        Ok(attributes) => Ok(KeyframeRule::From(attributes)),
                    }
                } else if n >= 1 && items[0].is_ident("to") {
                    match declarations_try_from(items, 1, true) {
                        Err(e) => Err(e),
                        Ok(attributes) => Ok(KeyframeRule::To(attributes)),
                    }
                } else if n >= 1 && items[0].ident_text().is_some() {
                    let percent = items[0].ident_text().unwrap();
                    if ends_with_char(percent, '%') {
                        match declarations_try_from(items, 1, true) {
                            Err(e) => Err(e),
                            Ok(attributes) => Ok(KeyframeRule::Percent { percent, attributes }),
                        }
                    } else {
                        Err(fail_at(o, ErrorType::ExpectedPercent))
                    }
                } else if n == 0 {
                    Err(fail_at(o, ErrorType::EmptyList))
                } else {
                    Err(fail_at(o, ErrorType::InvalidAttribute))
                }
            },
            _ => Err(fail_not_allowed(o)),
        }
    }

    /// Recognises the steps that the nodes of `items` from the index `from`
    /// on stand for, up to the first that fails.
    pub(crate) fn try_from_each(items: &'input Vec<Node<'input>>, from: usize) -> (r: Result<Vec<Self>, Error>)
        requires
            from <= items.len(),
        ensures
            result_views(r) == collect(KeyframeRuleView::recognize_from(views(items@), from as int)),
    {
        let ghost results = KeyframeRuleView::recognize_from(views(items@), from as int);
        let mut values: Vec<Self> = Vec::new();
        let mut i: usize = from;
        assert(results.take(0) =~= Seq::empty());
        assert(views(values@) =~= Seq::empty());
        while i < items.len()
            invariant
                from <= i <= items.len(),
                results == KeyframeRuleView::recognize_from(views(items@), from as int),
                collect(results.take(i - from)) == Ok::<Seq<KeyframeRuleView>, Error>(views(values@)),
            decreases items.len() - i,
        {
            let ghost before = views(values@);
            proof {
                lemma_collect_step(results, i - from);
            }
            match KeyframeRule::try_from(&items[i]) {
                Ok(v) => {
                    values.push(v);
                    assert(views(values@) =~= before.push(v@));
                },
                Err(e) => {
                    proof {
                        lemma_collect_prefix_err(results, i - from + 1);
                    }
                    return Err(e);
                },
            }
            i += 1;
        }
        assert(results.take(i - from) =~= results);
        Ok(values)
    }
}

impl FontValueView {
    /// The font source that a node stands for: a list `(url "path" format)`
    /// or `(local "path" format)`, with a quoted string and an identifier.
    /// An empty list is refused; any other list is refused for want of a
    /// font value, and an atom by its kind.
    pub open spec fn recognize(o: NodeView) -> Result<FontValueView, Error> {
        match o {
            NodeView::List(_, items, _) => {
                if items.len() == 3 && items[0].is_ident("url"@) && items[1] is String
                    && items[2] is Ident {
                    Ok(FontValueView::Url { path: items[1]->String_1, format: items[2]->Ident_1 })
                } else if items.len() == 3 && items[0].is_ident("local"@) && items[1] is String
                    && items[2] is Ident {
                    Ok(
                        FontValueView::Local {
                            path: items[1]->String_1,
                            format: items[2]->Ident_1,
                        },
                    )
                } else if items.len() == 0 {
                    Err(error_at(o, ErrorType::EmptyList))
                } else {
                    Err(error_at(o, ErrorType::ExpectedFontValue))
                }
            },
            _ => Err(error_at(o, not_allowed(o))),
        }
    }

    /// What each node of `items` from the index `from` on stands for.
    pub open spec fn recognize_from(items: Seq<NodeView>, from: int) -> Seq<
        Result<FontValueView, Error>,
    > {
        Seq::new(
            if 0 <= from <= items.len() {
                (items.len() - from) as nat
            } else {
                0
            },
            |i: int| Self::recognize(items[i + from]),
        )
    }
}

impl<'input> FontValue<'input> {
    /// Recognises the font source that `o` stands for.
    pub fn try_from(o: &'input Node<'input>) -> (r: Result<Self, Error>)
        ensures
            result_view(r) == FontValueView::recognize(o@),
    {
        match o {
            Node::List(_, items, _) => {
                let n = items.len();
                assert(views(items@) =~= o@.items());
                if n == 3 && items[0].is_ident("url") && items[1].string_text().is_some()
                    && items[2].ident_text().is_some() {
                    let path = items[1].string_text().unwrap();
                    let format = items[2].ident_text().unwrap();
                    Ok(FontValue::Url { path, format })
                } else if n == 3 && items[0].is_ident("local") && items[1].string_text().is_some()
                    && items[2].ident_text().is_some() {
                    let path = items[1].string_text().unwrap();
                    let format = items[2].ident_text().unwrap();
                    Ok(FontValue::Local { path, format })
                } else if n == 0 {
                    Err(fail_at(o, ErrorType::EmptyList))
                } else {
                    Err(fail_at(o, ErrorType::ExpectedFontValue))
                }
            },
            _ => Err(fail_not_allowed(o)),
        }
    }

    /// Recognises the font sources that the nodes of `items` from the index
    /// `from` on stand for, up to the first that fails.
    pub(crate) fn try_from_each(items: &'input Vec<Node<'input>>, from: usize) -> (r: Result<Vec<Self>, Error>)
        requires
            from <= items.len(),
        ensures
            result_views(r) == collect(FontValueView::recognize_from(views(items@), from as int)),
    {
        let ghost results = FontValueView::recognize_from(views(items@), from as int);
        let mut values: Vec<Self> = Vec::new();
        let mut i: usize = from;
        assert(results.take(0) =~= Seq::empty());
        assert(views(values@) =~= Seq::empty());
        while i < items.len()
            invariant
                from <= i <= items.len(),
                results == FontValueView::recognize_from(views(items@), from as int),
                collect(results.take(i - from)) == Ok::<Seq<FontValueView>, Error>(views(values@)),
            decreases items.len() - i,
        {
            let ghost before = views(values@);
            proof {
                lemma_collect_step(results, i - from);
            }
            match FontValue::try_from(&items[i]) {
                Ok(v) => {
                    values.push(v);
                    assert(views(values@) =~= before.push(v@));
                },
                Err(e) => {
                    proof {
                        lemma_collect_prefix_err(results, i - from + 1);
                    }
                    return Err(e);
                },
            }
            i += 1;
        }
        assert(results.take(i - from) =~= results);
        Ok(values)
    }
}

impl ItemView {
    /// The item that a node stands for.
    ///
    /// An atom is a comment. A list is looked at in this order, and the
    /// first form that fits decides:
    /// `(@media query item ...)` and `(@supports query item ...)`;
    /// `(@charset atom)`; `(@import path)` and `(@import path query)`;
    /// `(@keyframes name step ...)` with an identifier `name`;
    /// `(@font-face name source ...)` with an identifier or a quoted string
    /// `name`. An empty list is refused, and any other list is a rule. The
    /// first failure inside, in the order in which the parts are named
    /// here, is the failure of the whole.
    pub open spec fn recognize(o: NodeView) -> Result<ItemView, Error>
        decreases o,
    {
        match o {
            NodeView::List(_, items, _) => {
                if items.len() >= 2 && items[0].is_ident("@media"@) {
                    match MediaQueryView::recognize(items[1]) {
                        Err(e) => Err(e),
                        Ok(query) => match collect(Self::recognize_from(items, 2)) {
                            Err(e) => Err(e),
                            Ok(inner) => Ok(ItemView::MediaQuery { query, inner }),
                        },
                    }
                } else if items.len() >= 2 && items[0].is_ident("@supports"@) {
                    match MediaQueryView::recognize(items[1]) {
                        Err(e) => Err(e),
                        Ok(does_support) => match collect(Self::recognize_from(items, 2)) {
                            Err(e) => Err(e),
                            Ok(inner) => Ok(ItemView::Supports { does_support, inner }),
                        },
                    }
                } else if items.len() == 2 && items[0].is_ident("@charset"@)
                    && items[1].atom_text() is Some {
                    Ok(ItemView::Charset(items[1].atom_text()->0))
                } else if items.len() == 2 && items[0].is_ident("@import"@) {
                    match AttributeDataView::recognize(items[1]) {
                        Err(e) => Err(e),
                        Ok(path) => Ok(ItemView::Import { path, query: None }),
                    }
                } else if items.len() == 3 && items[0].is_ident("@import"@) {
                    match AttributeDataView::recognize(items[1]) {
                        Err(e) => Err(e),
                        Ok(path) => match MediaQueryView::recognize(items[2]) {
                            Err(e) => Err(e),
                            Ok(query) => Ok(ItemView::Import { path, query: Some(query) }),
                        },
                    }
                } else if items.len() >= 2 && items[0].is_ident("@keyframes"@)
                    && items[1] is Ident {
                    match collect(KeyframeRuleView::recognize_from(items, 2)) {
                        Err(e) => Err(e),
                        Ok(rules) => Ok(ItemView::Keyframes { name: items[1]->Ident_1, rules }),
                    }
                } else if items.len() >= 2 && items[0].is_ident("@font-face"@) && (items[1] is Ident
                    || items[1] is String) {
                    match collect(FontValueView::recognize_from(items, 2)) {
                        Err(e) => Err(e),
                        Ok(values) => Ok(
                            ItemView::FontFace { name: items[1].atom_text()->0, values },
                        ),
                    }
                } else if items.len() == 0 {
                    Err(error_at(o, ErrorType::EmptyList))
                } else {
                    match RuleView::recognize(o) {
                        Err(e) => Err(e),
                        Ok(rule) => Ok(ItemView::Rule(rule)),
                    }
                }
            },
            _ => Ok(ItemView::Comment(o.atom_text()->0)),
        }
    }

    /// What each node of `items` from the index `from` on stands for.
    pub open spec fn recognize_from(items: Seq<NodeView>, from: int) -> Seq<
        Result<ItemView, Error>,
    >
        decreases items,
    {
        Seq::new(
            if 0 <= from <= items.len() {
                (items.len() - from) as nat
            } else {
                0
            },
            |i: int|
                if 0 <= from && 0 <= i && i + from < items.len() {
                    Self::recognize(items[i + from])
                } else {
                    arbitrary()
                },
        )
    }
}

impl<'input> Item<'input> {
    /// Recognises the item that `o` stands for.
    pub fn try_from(o: &'input Node<'input>) -> (r: Result<Self, Error>)
        ensures
            result_view(r) == ItemView::recognize(o@),
        decreases o,
    {
        match o {
            Node::List(_, items, _) => {
                let n = items.len();
                assert(views(items@) =~= o@.items());
                if n >= 2 && items[0].is_ident("@media") {
                    match MediaQuery::try_from(&items[1]) {
                        Err(e) => Err(e),
                        Ok(query) => match Self::try_from_each(items, 2) {
                            Err(e) => Err(e),
                            Ok(inner) => {
                                let r = Item::MediaQuery { query, inner };
                                assert(r@->MediaQuery_inner =~= views(inner@));
                                Ok(r)
                            },
                        },
                    }
                } else if n >= 2 && items[0].is_ident("@supports") {
                    match MediaQuery::try_from(&items[1]) {
                        Err(e) => Err(e),
                        Ok(does_support) => match Self::try_from_each(items, 2) {
                            Err(e) => Err(e),
                            Ok(inner) => {
                                let r = Item::Supports { does_support, inner };
                                assert(r@->Supports_inner =~= views(inner@));
                                Ok(r)
                            },
                        },
                    }
                } else if n == 2 && items[0].is_ident("@charset") && items[1].atom_text().is_some() {
                    Ok(Item::Charset(items[1].atom_text().unwrap()))
                } else if n == 2 && items[0].is_ident("@import") {
                    match AttributeData::try_from(&items[1]) {
                        Err(e) => Err(e),
                        Ok(path) => Ok(Item::Import { path, query: None }),
                    }
                } else if n == 3 && items[0].is_ident("@import") {
                    match AttributeData::try_from(&items[1]) {
                        Err(e) => Err(e),
                        Ok(path) => match MediaQuery::try_from(&items[2]) {
                            Err(e) => Err(e),
                            Ok(query) => Ok(Item::Import { path, query: Some(query) }),
                        },
                    }
                } else if n >= 2 && items[0].is_ident("@keyframes") && items[1].ident_text().is_some() {
                    let name = items[1].ident_text().unwrap();
                    match KeyframeRule::try_from_each(items, 2) {
                        Err(e) => Err(e),
                        Ok(rules) => Ok(Item::Keyframes { name, rules }),
                    }
                } else if n >= 2 && items[0].is_ident("@font-face") && (items[1].ident_text().is_some()
                    || items[1].string_text().is_some()) {
                    let name = items[1].atom_text().unwrap();
                    match FontValue::try_from_each(items, 2) {
                        Err(e) => Err(e),
                        Ok(values) => Ok(Item::FontFace { name, values }),
                    }
                } else if n == 0 {
                    Err(fail_at(o, ErrorType::EmptyList))
                } else {
                    match Rule::try_from(o) {
                        Err(e) => Err(e),
                        Ok(rule) => Ok(Item::Rule(rule)),
                    }
                }
            },
            _ => Ok(Item::Comment(o.atom_text().unwrap())),
        }
    }

    /// Recognises the items that the nodes of `items` from the index `from`
    /// on stand for, up to the first that fails.
    pub(crate) fn try_from_each(items: &'input Vec<Node<'input>>, from: usize) -> (r: Result<Vec<Self>, Error>)
        requires
            from <= items.len(),
        ensures
            result_views(r) == collect(ItemView::recognize_from(views(items@), from as int)),
        decreases items,
    {
        let ghost results = ItemView::recognize_from(views(items@), from as int);
        let mut values: Vec<Self> = Vec::new();
        let mut i: usize = from;
        assert(results.take(0) =~= Seq::empty());
        assert(views(values@) =~= Seq::empty());
        while i < items.len()
            invariant
                from <= i <= items.len(),
                results == ItemView::recognize_from(views(items@), from as int),
                collect(results.take(i - from)) == Ok::<Seq<ItemView>, Error>(views(values@)),
            decreases items.len() - i,
        {
            let ghost before = views(values@);
            proof {
                lemma_collect_step(results, i - from);
            }
            match Item::try_from(&items[i]) {
                Ok(v) => {
                    values.push(v);
                    assert(views(values@) =~= before.push(v@));
                },
                Err(e) => {
                    proof {
                        lemma_collect_prefix_err(results, i - from + 1);
                    }
                    return Err(e);
                },
            }
            i += 1;
        }
        assert(results.take(i - from) =~= results);
        Ok(values)
    }
}

} // verus!
