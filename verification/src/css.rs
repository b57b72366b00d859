//! The stylesheet intermediate form and its mathematical views.

use vstd::prelude::*;
use crate::collect::views;
use crate::node::Location;

pub mod laws;
pub mod recognize;
pub mod render;

verus! {

/// What was wrong with a node that could not be recognised.
#[derive(Clone, Copy, Debug, PartialEq, Eq, Structural)]
pub enum ErrorType {
    /// A list stands where only an atom may stand.
    ListNotAllowed,
    /// A quoted string stands where none may stand.
    StringNotAllowed,
    /// An identifier stands where none may stand.
    IdentNotAllowed,
    /// A number stands where none may stand.
    NumberNotAllowed,
    /// A list that should be a selector begins with neither `seq` nor `list`.
    ExpectedSeqOrList,
    /// A keyframe step begins with an identifier that does not end in `%`.
    ExpectedPercent,
    /// A font source is neither `(url "path" format)` nor
    /// `(local "path" format)`.
    ExpectedFontValue,
    /// A node of a block is no declaration `(name value)`.
    InvalidAttribute,
    /// A list is empty.
    EmptyList,
}

/// A recognition failure, with the span of the offending node.
#[derive(Clone, Copy, Debug, PartialEq, Eq, Structural)]
pub struct Error {
    pub start: Location,
    pub end: Location,
    pub err_type: ErrorType,
}

/// The value of a declaration.
#[derive(Debug, PartialEq, Eq)]
pub enum AttributeData<'input> {
    NotImportant(Box<Self>),
    Function { name: &'input str, args: Vec<Self> },
    List(Vec<Self>),
    Text(&'input str),
    String(&'input str),
}

/// The mathematical value of an [`AttributeData`].
pub enum AttributeDataView {
    NotImportant(Box<AttributeDataView>),
    Function { name: Seq<char>, args: Seq<AttributeDataView> },
    List(Seq<AttributeDataView>),
    Text(Seq<char>),
    String(Seq<char>),
}

impl<'input> AttributeData<'input> {
    /// The value as mathematics: texts as sequences of characters, vectors
    /// as sequences.
    pub open spec fn model(&self) -> AttributeDataView
        decreases self,
    {
        match self {
            AttributeData::NotImportant(inner) => AttributeDataView::NotImportant(
                Box::new(inner.model()),
            ),
            AttributeData::Function { name, args } => AttributeDataView::Function {
                name: name@,
                args: Seq::new(
                    args.len() as nat,
                    |i: int|
                        if 0 <= i < args.len() {
                            args[i].model()
                        } else {
                            arbitrary()
                        },
                ),
            },
            AttributeData::List(items) => AttributeDataView::List(
                Seq::new(
                    items.len() as nat,
                    |i: int|
                        if 0 <= i < items.len() {
                            items[i].model()
                        } else {
                            arbitrary()
                        },
                ),
            ),
            AttributeData::Text(t) => AttributeDataView::Text(t@),
            AttributeData::String(t) => AttributeDataView::String(t@),
        }
    }
}

impl<'input> View for AttributeData<'input> {
    type V = AttributeDataView;

    open spec fn view(&self) -> AttributeDataView {
        self.model()
    }
}

/// A selector.
#[derive(Debug, PartialEq, Eq)]
pub enum SelectorType<'input> {
    List(Vec<Self>),
    Sequence(Vec<Self>),
    Class(&'input str),
    Id(&'input str),
    Tag(&'input str),
}

/// The mathematical value of a [`SelectorType`].
pub enum SelectorTypeView {
    List(Seq<SelectorTypeView>),
    Sequence(Seq<SelectorTypeView>),
    Class(Seq<char>),
    Id(Seq<char>),
    Tag(Seq<char>),
}

impl<'input> SelectorType<'input> {
    /// The selector as mathematics.
    pub open spec fn model(&self) -> SelectorTypeView
        decreases self,
    {
        match self {
            SelectorType::List(items) => SelectorTypeView::List(
                Seq::new(
                    items.len() as nat,
                    |i: int|
                        if 0 <= i < items.len() {
                            items[i].model()
                        } else {
                            arbitrary()
                        },
                ),
            ),
            SelectorType::Sequence(items) => SelectorTypeView::Sequence(
                Seq::new(
                    items.len() as nat,
                    |i: int|
                        if 0 <= i < items.len() {
                            items[i].model()
                        } else {
                            arbitrary()
                        },
                ),
            ),
            SelectorType::Class(name) => SelectorTypeView::Class(name@),
            SelectorType::Id(name) => SelectorTypeView::Id(name@),
            SelectorType::Tag(name) => SelectorTypeView::Tag(name@),
        }
    }
}

impl<'input> View for SelectorType<'input> {
    type V = SelectorTypeView;

    open spec fn view(&self) -> SelectorTypeView {
        self.model()
    }
}

impl<'input> Clone for SelectorType<'input> {
    /// A selector with the same view.
    fn clone(&self) -> (r: Self)
        ensures
            r@ == self@,
        decreases self,
    {
        match self {
            SelectorType::List(items) => {
                let copies = Self::clone_each(items);
                let r = SelectorType::List(copies);
                assert(r@->List_0 =~= views(copies@));
                assert(self@->List_0 =~= views(items@));
                r
            },
            SelectorType::Sequence(items) => {
                let copies = Self::clone_each(items);
                let r = SelectorType::Sequence(copies);
                assert(r@->Sequence_0 =~= views(copies@));
                assert(self@->Sequence_0 =~= views(items@));
                r
            },
            SelectorType::Class(name) => SelectorType::Class(*name),
            SelectorType::Id(name) => SelectorType::Id(*name),
            SelectorType::Tag(name) => SelectorType::Tag(*name),
        }
    }
}

impl<'input> SelectorType<'input> {
    /// Selectors with the same views, in the same order.
    fn clone_each(items: &Vec<Self>) -> (r: Vec<Self>)
        ensures
            views(r@) == views(items@),
        decreases items,
    {
        let mut copies: Vec<Self> = Vec::new();
        let mut i: usize = 0;
        while i < items.len()
            invariant
                i <= items.len(),
                copies.len() == i,
                forall|j: int| 0 <= j < i ==> copies[j]@ == items[j]@,
            decreases items.len() - i,
        {
            copies.push(items[i].clone());
            i += 1;
        }
        assert(views(copies@) =~= views(items@));
        copies
    }
}

/// A declaration as mathematics: the property's name and its value.
pub type DeclarationView = (Seq<char>, AttributeDataView);

/// The declarations of `items` as mathematics, in order.
pub open spec fn declaration_views(items: Seq<(&str, AttributeData)>) -> Seq<DeclarationView> {
    Seq::new(items.len(), |i: int| (items[i].0@, items[i].1@))
}

/// A selector and the declarations of its block, in source order.
#[derive(Debug, PartialEq, Eq)]
pub struct Rule<'input> {
    pub selector: SelectorType<'input>,
    pub inner: Vec<(&'input str, AttributeData<'input>)>,
}

/// The mathematical value of a [`Rule`].
pub struct RuleView {
    pub selector: SelectorTypeView,
    pub inner: Seq<DeclarationView>,
}

impl<'input> View for Rule<'input> {
    type V = RuleView;

    open spec fn view(&self) -> RuleView {
        RuleView { selector: self.selector@, inner: declaration_views(self.inner@) }
    }
}

/// A media query, or the condition of a `@supports` block.
#[derive(Debug, PartialEq, Eq)]
pub enum MediaQuery<'input> {
    List(Vec<Self>),
    And(Box<Self>, Box<Self>),
    Not(Box<Self>),
    Attribute(&'input str, AttributeData<'input>),
    EmptyAttribute(&'input str),
    Screen,
    Page,
    All,
}

/// The mathematical value of a [`MediaQuery`].
pub enum MediaQueryView {
    List(Seq<MediaQueryView>),
    And(Box<MediaQueryView>, Box<MediaQueryView>),
    Not(Box<MediaQueryView>),
    Attribute(Seq<char>, AttributeDataView),
    EmptyAttribute(Seq<char>),
    Screen,
    Page,
    All,
}

impl<'input> MediaQuery<'input> {
    /// The query as mathematics.
    pub open spec fn model(&self) -> MediaQueryView
        decreases self,
    {
        match self {
            MediaQuery::List(items) => MediaQueryView::List(
                Seq::new(
                    items.len() as nat,
                    |i: int|
                        if 0 <= i < items.len() {
                            items[i].model()
                        } else {
                            arbitrary()
                        },
                ),
            ),
            MediaQuery::And(left, right) => MediaQueryView::And(
                Box::new(left.model()),
                Box::new(right.model()),
            ),
            MediaQuery::Not(inner) => MediaQueryView::Not(Box::new(inner.model())),
            MediaQuery::Attribute(name, data) => MediaQueryView::Attribute(name@, data@),
            MediaQuery::EmptyAttribute(name) => MediaQueryView::EmptyAttribute(name@),
            MediaQuery::Screen => MediaQueryView::Screen,
            MediaQuery::Page => MediaQueryView::Page,
            MediaQuery::All => MediaQueryView::All,
        }
    }
}

impl<'input> View for MediaQuery<'input> {
    type V = MediaQueryView;

    open spec fn view(&self) -> MediaQueryView {
        self.model()
    }
}

/// One step of an animation.
#[derive(Debug, PartialEq, Eq)]
pub enum KeyframeRule<'input> {
    Percent { percent: &'input str, attributes: Vec<(&'input str, AttributeData<'input>)> },
    From(Vec<(&'input str, AttributeData<'input>)>),
    To(Vec<(&'input str, AttributeData<'input>)>),
}

/// The mathematical value of a [`KeyframeRule`].
pub enum KeyframeRuleView {
    Percent { percent: Seq<char>, attributes: Seq<DeclarationView> },
    From(Seq<DeclarationView>),
    To(Seq<DeclarationView>),
}

impl<'input> View for KeyframeRule<'input> {
    type V = KeyframeRuleView;

    open spec fn view(&self) -> KeyframeRuleView {
        match self {
            KeyframeRule::Percent { percent, attributes } => KeyframeRuleView::Percent {
                percent: percent@,
                attributes: declaration_views(attributes@),
            },
            KeyframeRule::From(attributes) => KeyframeRuleView::From(
                declaration_views(attributes@),
            ),
            KeyframeRule::To(attributes) => KeyframeRuleView::To(declaration_views(attributes@)),
        }
    }
}

/// One source of a font.
#[derive(Debug, PartialEq, Eq)]
pub enum FontValue<'input> {
    Url { path: &'input str, format: &'input str },
    Local { path: &'input str, format: &'input str },
}

/// The mathematical value of a [`FontValue`].
pub enum FontValueView {
    Url { path: Seq<char>, format: Seq<char> },
    Local { path: Seq<char>, format: Seq<char> },
}

impl<'input> View for FontValue<'input> {
    type V = FontValueView;

    open spec fn view(&self) -> FontValueView {
        match self {
            FontValue::Url { path, format } => FontValueView::Url { path: path@, format: format@ },
            FontValue::Local { path, format } => FontValueView::Local {
                path: path@,
                format: format@,
            },
        }
    }
}

/// One top-level item of a stylesheet, or of the block of an at-rule.
#[derive(Debug, PartialEq, Eq)]
#[allow(inconsistent_fields)]
pub enum Item<'input> {
    Rule(Rule<'input>),
    Charset(&'input str),
    FontFace { name: &'input str, values: Vec<FontValue<'input>> },
    MediaQuery { query: MediaQuery<'input>, inner: Vec<Self> },
    Import { path: AttributeData<'input>, query: Option<MediaQuery<'input>> },
    Keyframes { name: &'input str, rules: Vec<KeyframeRule<'input>> },
    Supports { does_support: MediaQuery<'input>, inner: Vec<Self> },
    Comment(&'input str),
}

/// The mathematical value of an [`Item`].
#[allow(inconsistent_fields)]
pub enum ItemView {
    Rule(RuleView),
    Charset(Seq<char>),
    FontFace { name: Seq<char>, values: Seq<FontValueView> },
    MediaQuery { query: MediaQueryView, inner: Seq<ItemView> },
    Import { path: AttributeDataView, query: Option<MediaQueryView> },
    Keyframes { name: Seq<char>, rules: Seq<KeyframeRuleView> },
    Supports { does_support: MediaQueryView, inner: Seq<ItemView> },
    Comment(Seq<char>),
}

impl<'input> Item<'input> {
    /// The item as mathematics.
    pub open spec fn model(&self) -> ItemView
        decreases self,
    {
        match self {
            Item::Rule(rule) => ItemView::Rule(rule@),
            Item::Charset(data) => ItemView::Charset(data@),
            Item::FontFace { name, values } => ItemView::FontFace {
                name: name@,
                values: views(values@),
            },
            Item::MediaQuery { query, inner } => ItemView::MediaQuery {
                query: query@,
                inner: Seq::new(
                    inner.len() as nat,
                    |i: int|
                        if 0 <= i < inner.len() {
                            inner[i].model()
                        } else {
                            arbitrary()
                        },
                ),
            },
            Item::Import { path, query } => ItemView::Import {
                path: path@,
                query: match query {
                    Some(q) => Some(q@),
                    None => None,
                },
            },
            Item::Keyframes { name, rules } => ItemView::Keyframes {
                name: name@,
                rules: views(rules@),
            },
            Item::Supports { does_support, inner } => ItemView::Supports {
                does_support: does_support@,
                inner: Seq::new(
                    inner.len() as nat,
                    |i: int|
                        if 0 <= i < inner.len() {
                            inner[i].model()
                        } else {
                            arbitrary()
                        },
                ),
            },
            Item::Comment(data) => ItemView::Comment(data@),
        }
    }
}

impl<'input> View for Item<'input> {
    type V = ItemView;

    open spec fn view(&self) -> ItemView {
        self.model()
    }
}

} // verus!
