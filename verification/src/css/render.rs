//! Rendering of the stylesheet intermediate form as text.

use vstd::prelude::*;
use vstd::string::*;
use crate::collect::views;
use crate::css::{
    declaration_views, AttributeData, AttributeDataView, DeclarationView, FontValue, FontValueView,
    Item, ItemView, KeyframeRule, KeyframeRuleView, MediaQuery, MediaQueryView, Rule, RuleView,
    SelectorType, SelectorTypeView,
};
use crate::text::{concat, deeper, joined, lemma_concat_step, lemma_joined_step, padding, spaces};

verus! {

impl AttributeDataView {
    /// The text of a value: plain text as it is, a string between double
    /// quotes, a list with one blank between its items, a function as its
    /// name and its arguments between parentheses with `, ` between them, and
    /// ` !important` after a value that carries the mark.
    pub open spec fn text(self) -> Seq<char>
        decreases self,
    {
        match self {
            AttributeDataView::Text(t) => t,
            AttributeDataView::String(s) => "\""@ + s + "\""@,
            AttributeDataView::List(items) => joined(Self::texts(items), " "@),
            AttributeDataView::NotImportant(inner) => inner.text() + " !important"@,
            AttributeDataView::Function { name, args } => name + "("@ + joined(
                Self::texts(args),
                ", "@,
            ) + ")"@,
        }
    }

    /// The text of each value of `items`.
    pub open spec fn texts(items: Seq<AttributeDataView>) -> Seq<Seq<char>>
        decreases items,
    {
        Seq::new(
            items.len(),
            |i: int|
                if 0 <= i < items.len() {
                    items[i].text()
                } else {
                    Seq::empty()
                },
        )
    }
}

impl<'input> AttributeData<'input> {
    /// Appends the text of this value to `f`.
    pub fn into_css(&self, f: &mut String)
        ensures
            final(f)@ == old(f)@ + self@.text(),
        decreases self,
    {
        match self {
            AttributeData::Text(text) => {
                f.append(text);
            },
            AttributeData::String(s) => {
                f.append("\"");
                f.append(s);
                f.append("\"");
                assert(f@ =~= old(f)@ + self@.text());
            },
            AttributeData::List(items) => {
                assert(views(items@) =~= self@->List_0);
                Self::write_joined(items, f, " ");
            },
            AttributeData::NotImportant(item) => {
                item.into_css(f);
                f.append(" !important");
                assert(f@ =~= old(f)@ + self@.text());
            },
            AttributeData::Function { name, args } => {
                assert(views(args@) =~= self@->Function_args);
                f.append(name);
                f.append("(");
                Self::write_joined(args, f, ", ");
                f.append(")");
                assert(f@ =~= old(f)@ + self@.text());
            },
        }
    }

    /// Appends the texts of `items` to `f`, with `sep` between each two.
    fn write_joined(items: &Vec<Self>, f: &mut String, sep: &str)
        ensures
            final(f)@ == old(f)@ + joined(AttributeDataView::texts(views(items@)), sep@),
        decreases items,
    {
        let ghost parts = AttributeDataView::texts(views(items@));
        let n = items.len();
        let mut i: usize = 0;
        assert(f@ =~= old(f)@ + joined(parts.take(0), sep@));
        while i < n
            invariant
                i <= n,
                n == items.len(),
                parts == AttributeDataView::texts(views(items@)),
                f@ == old(f)@ + joined(parts.take(i as int), sep@),
            decreases n - i,
        {
            if i > 0 {
                f.append(sep);
            }
            items[i].into_css(f);
            proof {
                lemma_joined_step(parts, sep@, i as int);
            }
            i += 1;
            assert(f@ =~= old(f)@ + joined(parts.take(i as int), sep@));
        }
        assert(parts.take(n as int) =~= parts);
    }
}

impl SelectorTypeView {
    /// The text of a selector: a tag's name as it is, a class after `.`, an
    /// id after `#`, the parts of a sequence with one blank between them,
    /// the members of a list with `, ` between them.
    pub open spec fn text(self) -> Seq<char>
        decreases self,
    {
        match self {
            SelectorTypeView::List(items) => joined(Self::texts(items), ", "@),
            SelectorTypeView::Sequence(items) => joined(Self::texts(items), " "@),
            SelectorTypeView::Class(name) => "."@ + name,
            SelectorTypeView::Id(name) => "#"@ + name,
            SelectorTypeView::Tag(name) => name,
        }
    }

    /// The text of each selector of `items`.
    pub open spec fn texts(items: Seq<SelectorTypeView>) -> Seq<Seq<char>>
        decreases items,
    {
        Seq::new(
            items.len(),
            |i: int|
                if 0 <= i < items.len() {
                    items[i].text()
                } else {
                    Seq::empty()
                },
        )
    }
}

impl<'input> SelectorType<'input> {
    /// Appends the text of this selector to `f`.
    pub fn into_css(&self, f: &mut String)
        ensures
            final(f)@ == old(f)@ + self@.text(),
        decreases self,
    {
        match self {
            SelectorType::List(items) => {
                assert(views(items@) =~= self@->List_0);
                Self::write_joined(items, f, ", ");
            },
            SelectorType::Sequence(items) => {
                assert(views(items@) =~= self@->Sequence_0);
                Self::write_joined(items, f, " ");
            },
            SelectorType::Class(name) => {
                f.append(".");
                f.append(name);
                assert(f@ =~= old(f)@ + self@.text());
            },
            SelectorType::Id(name) => {
                f.append("#");
                f.append(name);
                assert(f@ =~= old(f)@ + self@.text());
            },
            SelectorType::Tag(name) => {
                f.append(name);
            },
        }
    }

    /// Appends the texts of `items` to `f`, with `sep` between each two.
    fn write_joined(items: &Vec<Self>, f: &mut String, sep: &str)
        ensures
            final(f)@ == old(f)@ + joined(SelectorTypeView::texts(views(items@)), sep@),
        decreases items,
    {
        let ghost parts = SelectorTypeView::texts(views(items@));
        let n = items.len();
        let mut i: usize = 0;
        assert(f@ =~= old(f)@ + joined(parts.take(0), sep@));
        while i < n
            invariant
                i <= n,
                n == items.len(),
                parts == SelectorTypeView::texts(views(items@)),
                f@ == old(f)@ + joined(parts.take(i as int), sep@),
            decreases n - i,
        {
            if i > 0 {
                f.append(sep);
            }
            items[i].into_css(f);
            proof {
                lemma_joined_step(parts, sep@, i as int);
            }
            i += 1;
            assert(f@ =~= old(f)@ + joined(parts.take(i as int), sep@));
        }
        assert(parts.take(n as int) =~= parts);
    }
}

/// The line of one declaration: `indent` blanks, the property's name, `: `,
/// the value, `;` and a line break.
pub open spec fn declaration_text(d: DeclarationView, indent: nat) -> Seq<char> {
    spaces(indent) + d.0 + ": "@ + d.1.text() + ";\n"@
}

/// The line of each declaration of `ds`.
pub open spec fn declaration_texts(ds: Seq<DeclarationView>, indent: nat) -> Seq<Seq<char>> {
    Seq::new(ds.len(), |i: int| declaration_text(ds[i], indent))
}

/// The lines of the declarations of `ds`, each in its place: none is
/// dropped, merged or moved, also where two name the same property.
pub open spec fn declarations_text(ds: Seq<DeclarationView>, indent: nat) -> Seq<char> {
    concat(declaration_texts(ds, indent))
}

/// Appends the lines of the declarations of `ds` to `f`, each after the
/// blanks of `pad`.
fn write_declarations(ds: &Vec<(&str, AttributeData)>, f: &mut String, pad: &str)
    requires
        pad@ == spaces(pad@.len()),
    ensures
        final(f)@ == old(f)@ + declarations_text(declaration_views(ds@), pad@.len()),
{
    let ghost parts = declaration_texts(declaration_views(ds@), pad@.len());
    let n = ds.len();
    let mut i: usize = 0;
    assert(f@ =~= old(f)@ + concat(parts.take(0)));
    while i < n
        invariant
            i <= n,
            n == ds.len(),
            pad@ == spaces(pad@.len()),
            parts == declaration_texts(declaration_views(ds@), pad@.len()),
            f@ == old(f)@ + concat(parts.take(i as int)),
        decreases n - i,
    {
        let ghost before = f@;
        f.append(pad);
        f.append(ds[i].0);
        f.append(": ");
        ds[i].1.into_css(f);
        f.append(";\n");
        proof {
            lemma_concat_step(parts, i as int);
            assert(f@ =~= before + parts[i as int]);
        }
        i += 1;
        assert(f@ =~= old(f)@ + concat(parts.take(i as int)));
    }
    assert(parts.take(n as int) =~= parts);
}

impl RuleView {
    /// The text of a rule at the indentation `indent`: the selector and an
    /// opening brace on one line, the declarations four blanks deeper, one
    /// per line and in their order, and the closing brace on a line of its
    /// own.
    pub open spec fn text(self, indent: nat) -> Seq<char> {
        spaces(indent) + self.selector.text() + " {\n"@ + declarations_text(self.inner, indent + 4)
            + spaces(indent) + "}\n"@
    }
}

impl<'input> Rule<'input> {
    /// Appends the text of this rule at the indentation `indent` to `f`.
    pub fn into_css(&self, f: &mut String, indent: usize)
        ensures
            final(f)@ == old(f)@ + self@.text(indent as nat),
    {
        let pad = padding(indent);
        self.write(f, pad.as_str());
    }

    /// Appends the text of this rule to `f`, indented by the blanks of `pad`.
    pub(crate) fn write(&self, f: &mut String, pad: &str)
        requires
            pad@ == spaces(pad@.len()),
        ensures
            final(f)@ == old(f)@ + self@.text(pad@.len()),
    {
        let inner_pad = deeper(pad);
        f.append(pad);
        self.selector.into_css(f);
        f.append(" {\n");
        write_declarations(&self.inner, f, inner_pad.as_str());
        f.append(pad);
        f.append("}\n");
        assert(f@ =~= old(f)@ + self@.text(pad@.len()));
    }
}

impl MediaQueryView {
    /// The text of a query. `top` says that the query stands directly behind
    /// `@media`, `@supports` or `@import`; every query inside another one is
    /// written with `top` false.
    ///
    /// A list has `, ` between its members and a conjunction ` and ` between
    /// its sides; both stand between parentheses unless `top`. A negation is
    /// `not (q)` where `top`, and `not q` elsewhere, where `q` brings the
    /// parentheses of its own kind. A feature test is `(name: value)`, a bare
    /// feature its name, and the three media types are their names.
    pub open spec fn text(self, top: bool) -> Seq<char>
        decreases self,
    {
        match self {
            MediaQueryView::List(items) => Self::open_text(top) + joined(
                Self::texts(items),
                ", "@,
            ) + Self::close_text(top),
            MediaQueryView::And(left, right) => Self::open_text(top) + left.text(false) + " and "@
                + right.text(false) + Self::close_text(top),
            MediaQueryView::Not(inner) => if top {
                "not ("@ + inner.text(false) + ")"@
            } else {
                "not "@ + inner.text(false)
            },
            MediaQueryView::Attribute(name, data) => "("@ + name + ": "@ + data.text() + ")"@,
            MediaQueryView::EmptyAttribute(name) => name,
            MediaQueryView::Screen => "screen"@,
            MediaQueryView::Page => "page"@,
            MediaQueryView::All => "all"@,
        }
    }

    /// The text of each query of `items`, as a query inside another one.
    pub open spec fn texts(items: Seq<MediaQueryView>) -> Seq<Seq<char>>
        decreases items,
    {
        Seq::new(
            items.len(),
            |i: int|
                if 0 <= i < items.len() {
                    items[i].text(false)
                } else {
                    Seq::empty()
                },
        )
    }

    /// The opening parenthesis of a list or a conjunction: none where `top`.
    pub open spec fn open_text(top: bool) -> Seq<char> {
        if top {
            Seq::empty()
        } else {
            "("@
        }
    }

    /// The closing parenthesis of a list or a conjunction: none where `top`.
    pub open spec fn close_text(top: bool) -> Seq<char> {
        if top {
            Seq::empty()
        } else {
            ")"@
        }
    }
}

impl<'input> MediaQuery<'input> {
    /// Appends the text of this query to `f`; `first` says that it stands at
    /// top level.
    pub fn into_css(&self, f: &mut String, first: bool)
        ensures
            final(f)@ == old(f)@ + self@.text(first),
        decreases self,
    {
        match self {
            MediaQuery::List(items) => {
                assert(views(items@) =~= self@->List_0);
                if !first {
                    f.append("(");
                }
                Self::write_joined(items, f);
                if !first {
                    f.append(")");
                }
                assert(f@ =~= old(f)@ + self@.text(first));
            },
            MediaQuery::And(left, right) => {
                if !first {
                    f.append("(");
                }
                left.into_css(f, false);
                f.append(" and ");
                right.into_css(f, false);
                if !first {
                    f.append(")");
                }
                assert(f@ =~= old(f)@ + self@.text(first));
            },
            MediaQuery::Not(item) => {
                if first {
                    f.append("not (");
                    item.into_css(f, false);
                    f.append(")");
                } else {
                    f.append("not ");
                    item.into_css(f, false);
                }
                assert(f@ =~= old(f)@ + self@.text(first));
            },
            MediaQuery::EmptyAttribute(attr) => {
                f.append(attr);
            },
            MediaQuery::Attribute(name, data) => {
                f.append("(");
                f.append(name);
                f.append(": ");
                data.into_css(f);
                f.append(")");
                assert(f@ =~= old(f)@ + self@.text(first));
            },
            MediaQuery::Screen => {
                f.append("screen");
            },
            MediaQuery::Page => {
                f.append("page");
            },
            MediaQuery::All => {
                f.append("all");
            },
        }
    }

    /// Appends the texts of `items` to `f`, with `, ` between each two.
    fn write_joined(items: &Vec<Self>, f: &mut String)
        ensures
            final(f)@ == old(f)@ + joined(MediaQueryView::texts(views(items@)), ", "@),
        decreases items,
    {
        let ghost parts = MediaQueryView::texts(views(items@));
        let n = items.len();
        let mut i: usize = 0;
        assert(f@ =~= old(f)@ + joined(parts.take(0), ", "@));
        while i < n
            invariant
                i <= n,
                n == items.len(),
                parts == MediaQueryView::texts(views(items@)),
                f@ == old(f)@ + joined(parts.take(i as int), ", "@),
            decreases n - i,
        {
            if i > 0 {
                f.append(", ");
            }
            items[i].into_css(f, false);
            proof {
                lemma_joined_step(parts, ", "@, i as int);
            }
            i += 1;
            assert(f@ =~= old(f)@ + joined(parts.take(i as int), ", "@));
        }
        assert(parts.take(n as int) =~= parts);
    }
}

impl KeyframeRuleView {
    /// What stands before the block: the percentage, `from` or `to`.
    pub open spec fn head(self) -> Seq<char> {
        match self {
            KeyframeRuleView::Percent { percent, attributes } => percent,
            KeyframeRuleView::From(_) => "from"@,
            KeyframeRuleView::To(_) => "to"@,
        }
    }

    /// The declarations of the block.
    pub open spec fn declarations(self) -> Seq<DeclarationView> {
        match self {
            KeyframeRuleView::Percent { percent, attributes } => attributes,
            KeyframeRuleView::From(attributes) => attributes,
            KeyframeRuleView::To(attributes) => attributes,
        }
    }

    /// The text of a step at the indentation `indent`: its head and an
    /// opening brace on one line, the declarations four blanks deeper, and
    /// the closing brace on a line of its own.
    pub open spec fn text(self, indent: nat) -> Seq<char> {
        spaces(indent) + self.head() + " {\n"@ + declarations_text(self.declarations(), indent + 4)
            + spaces(indent) + "}\n"@
    }

    /// The text of each step of `items`.
    pub open spec fn texts(items: Seq<KeyframeRuleView>, indent: nat) -> Seq<Seq<char>> {
        Seq::new(items.len(), |i: int| items[i].text(indent))
    }
}

impl<'input> KeyframeRule<'input> {
    /// Appends the text of this step at the indentation `indent` to `f`.
    pub fn into_css(&self, f: &mut String, indent: usize)
        ensures
            final(f)@ == old(f)@ + self@.text(indent as nat),
    {
        let pad = padding(indent);
        self.write(f, pad.as_str());
    }

    /// Appends the text of this step to `f`, indented by the blanks of `pad`.
    pub(crate) fn write(&self, f: &mut String, pad: &str)
        requires
            pad@ == spaces(pad@.len()),
        ensures
            final(f)@ == old(f)@ + self@.text(pad@.len()),
    {
        let inner_pad = deeper(pad);
        f.append(pad);
        match self {
            KeyframeRule::Percent { percent, attributes } => {
                f.append(percent);
                f.append(" {\n");
                write_declarations(attributes, f, inner_pad.as_str());
            },
            KeyframeRule::From(attributes) => {
                f.append("from");
                f.append(" {\n");
                write_declarations(attributes, f, inner_pad.as_str());
            },
            KeyframeRule::To(attributes) => {
                f.append("to");
                f.append(" {\n");
                write_declarations(attributes, f, inner_pad.as_str());
            },
        }
        f.append(pad);
        f.append("}\n");
        assert(f@ =~= old(f)@ + self@.text(pad@.len()));
    }
}

impl FontValueView {
    /// The text of a font source: `url("path") format("format")`, or the
    /// same with `local` in place of `url`.
    pub open spec fn text(self) -> Seq<char> {
        match self {
            FontValueView::Url { path, format } => "url(\""@ + path + "\") format(\""@ + format
                + "\")"@,
            FontValueView::Local { path, format } => "local(\""@ + path + "\") format(\""@ + format
                + "\")"@,
        }
    }

    /// The text of each source of `items`.
    pub open spec fn texts(items: Seq<FontValueView>) -> Seq<Seq<char>> {
        Seq::new(items.len(), |i: int| items[i].text())
    }
}

impl<'input> FontValue<'input> {
    /// Appends the text of this font source to `f`.
    pub fn into_css(&self, f: &mut String)
        ensures
            final(f)@ == old(f)@ + self@.text(),
    {
        match self {
            FontValue::Url { path, format } => {
                f.append("url(\"");
                f.append(path);
                f.append("\") format(\"");
                f.append(format);
                f.append("\")");
            },
            FontValue::Local { path, format } => {
                f.append("local(\"");
                f.append(path);
                f.append("\") format(\"");
                f.append(format);
                f.append("\")");
            },
        }
        assert(f@ =~= old(f)@ + self@.text());
    }
}

impl ItemView {
    /// The text of an item at the indentation `indent`.
    ///
    /// A rule is written as [`RuleView::text`] says. `@charset`, `@import`
    /// and a comment take one line. `@import` has one blank behind the path
    /// whether or not a query follows. `@font-face`, `@media`, `@supports`
    /// and `@keyframes` open a block: its lines stand four blanks deeper and
    /// its closing brace on a line of its own. The `src` of a font face is
    /// one declaration with `, ` between the sources.
    pub open spec fn text(self, indent: nat) -> Seq<char>
        decreases self,
    {
        match self {
            ItemView::Rule(rule) => rule.text(indent),
            ItemView::Charset(data) => spaces(indent) + "@charset "@ + data + ";\n"@,
            ItemView::FontFace { name, values } => spaces(indent) + "@font-face {\n"@ + spaces(
                indent + 4,
            ) + "font-family: \""@ + name + "\";\n"@ + spaces(indent + 4) + "src: "@ + joined(
                FontValueView::texts(values),
                ", "@,
            ) + ";\n"@ + spaces(indent) + "}\n"@,
            ItemView::MediaQuery { query, inner } => spaces(indent) + "@media "@ + query.text(true)
                + " {\n"@ + concat(Self::texts(inner, indent + 4)) + spaces(indent) + "}\n"@,
            ItemView::Import { path, query } => spaces(indent) + "@import "@ + path.text() + " "@
                + (match query {
                Some(q) => q.text(true),
                None => Seq::empty(),
            }) + ";\n"@,
            ItemView::Keyframes { name, rules } => spaces(indent) + "@keyframes "@ + name
                + " {\n"@ + concat(KeyframeRuleView::texts(rules, indent + 4)) + spaces(indent)
                + "}\n"@,
            ItemView::Supports { does_support, inner } => spaces(indent) + "@supports "@
                + does_support.text(true) + " {\n"@ + concat(Self::texts(inner, indent + 4))
                + spaces(indent) + "}\n"@,
            ItemView::Comment(data) => spaces(indent) + "/* "@ + data + " */\n"@,
        }
    }

    /// The text of each item of `items` at the indentation `indent`.
    pub open spec fn texts(items: Seq<ItemView>, indent: nat) -> Seq<Seq<char>>
        decreases items,
    {
        Seq::new(
            items.len(),
            |i: int|
                if 0 <= i < items.len() {
                    items[i].text(indent)
                } else {
                    Seq::empty()
                },
        )
    }
}

impl<'input> Item<'input> {
    /// Appends the text of this item at the indentation `indent` to `f`.
    pub fn into_css(&self, f: &mut String, indent: usize)
        ensures
            final(f)@ == old(f)@ + self@.text(indent as nat),
    {
        let pad = padding(indent);
        self.write(f, pad.as_str());
    }

    /// Appends the text of this item to `f`, indented by the blanks of `pad`.
    pub(crate) fn write(&self, f: &mut String, pad: &str)
        requires
            pad@ == spaces(pad@.len()),
        ensures
            final(f)@ == old(f)@ + self@.text(pad@.len()),
        decreases self, 0nat,
    {
        match self {
            Item::Rule(rule) => {
                rule.write(f, pad);
            },
            Item::Charset(data) => {
                write_line(f, pad, "@charset ", data, ";\n");
            },
            Item::FontFace { name, values } => {
                write_font_face(name, values, f, pad);
            },
            Item::MediaQuery { query, inner } => {
                assert(views(inner@) =~= self@->MediaQuery_inner);
                Self::write_block("@media ", query, inner, f, pad);
            },
            Item::Import { path, query } => {
                write_import(path, query, f, pad);
            },
            Item::Keyframes { name, rules } => {
                write_keyframes(name, rules, f, pad);
            },
            Item::Supports { does_support, inner } => {
                assert(views(inner@) =~= self@->Supports_inner);
                Self::write_block("@supports ", does_support, inner, f, pad);
            },
            Item::Comment(data) => {
                write_line(f, pad, "/* ", data, " */\n");
            },
        }
    }

    /// Appends a block to `f`: the keyword, the condition and an opening
    /// brace on one line, the items of `inner` four blanks deeper, and the
    /// closing brace on a line of its own.
    fn write_block(
        keyword: &str,
        query: &MediaQuery,
        inner: &Vec<Self>,
        f: &mut String,
        pad: &str,
    )
        requires
            pad@ == spaces(pad@.len()),
        ensures
            final(f)@ == old(f)@ + spaces(pad@.len()) + keyword@ + query@.text(true) + " {\n"@
                + concat(ItemView::texts(views(inner@), pad@.len() + 4)) + spaces(pad@.len())
                + "}\n"@,
        decreases inner, 1nat,
    {
        let inner_pad = deeper(pad);
        f.append(pad);
        f.append(keyword);
        query.into_css(f, true);
        f.append(" {\n");
        Self::write_each(inner, f, inner_pad.as_str());
        f.append(pad);
        f.append("}\n");
    }

    /// Appends the texts of `items` to `f`, each indented by the blanks of
    /// `pad`.
    pub(crate) fn write_each(items: &Vec<Self>, f: &mut String, pad: &str)
        requires
            pad@ == spaces(pad@.len()),
        ensures
            final(f)@ == old(f)@ + concat(ItemView::texts(views(items@), pad@.len())),
        decreases items, 0nat,
    {
        let ghost parts = ItemView::texts(views(items@), pad@.len());
        let n = items.len();
        let mut i: usize = 0;
        assert(f@ =~= old(f)@ + concat(parts.take(0)));
        while i < n
            invariant
                i <= n,
                n == items.len(),
                pad@ == spaces(pad@.len()),
                parts == ItemView::texts(views(items@), pad@.len()),
                f@ == old(f)@ + concat(parts.take(i as int)),
            decreases n - i,
        {
            items[i].write(f, pad);
            proof {
                lemma_concat_step(parts, i as int);
            }
            i += 1;
            assert(f@ =~= old(f)@ + concat(parts.take(i as int)));
        }
        assert(parts.take(n as int) =~= parts);
    }
}

/// Appends one line to `f`: the blanks of `pad`, then `before`, `data` and
/// `after`.
fn write_line(f: &mut String, pad: &str, before: &str, data: &str, after: &str)
    ensures
        final(f)@ == old(f)@ + pad@ + before@ + data@ + after@,
{
    f.append(pad);
    f.append(before);
    f.append(data);
    f.append(after);
}

/// Appends a `@keyframes` block to `f`: the name and an opening brace on one
/// line, the steps four blanks deeper, and the closing brace on a line of
/// its own.
fn write_keyframes(name: &str, rules: &Vec<KeyframeRule>, f: &mut String, pad: &str)
    requires
        pad@ == spaces(pad@.len()),
    ensures
        final(f)@ == old(f)@ + (ItemView::Keyframes { name: name@, rules: views(rules@) }).text(
            pad@.len(),
        ),
{
    let inner_pad = deeper(pad);
    f.append(pad);
    f.append("@keyframes ");
    f.append(name);
    f.append(" {\n");
    write_keyframe_rules(rules, f, inner_pad.as_str());
    f.append(pad);
    f.append("}\n");
    assert(f@ =~= old(f)@ + spaces(pad@.len()) + "@keyframes "@ + name@ + " {\n"@ + concat(
        KeyframeRuleView::texts(views(rules@), pad@.len() + 4),
    ) + spaces(pad@.len()) + "}\n"@);
}

/// Appends a `@font-face` block to `f`: the family's name and the sources,
/// each as one declaration.
fn write_font_face(name: &str, values: &Vec<FontValue>, f: &mut String, pad: &str)
    requires
        pad@ == spaces(pad@.len()),
    ensures
        final(f)@ == old(f)@ + (ItemView::FontFace { name: name@, values: views(values@) }).text(
            pad@.len(),
        ),
{
    let inner_pad = deeper(pad);
    f.append(pad);
    f.append("@font-face {\n");
    f.append(inner_pad.as_str());
    f.append("font-family: \"");
    f.append(name);
    f.append("\";\n");
    let ghost first = f@;
    assert(first =~= old(f)@ + spaces(pad@.len()) + "@font-face {\n"@ + spaces(pad@.len() + 4)
        + "font-family: \""@ + name@ + "\";\n"@);
    f.append(inner_pad.as_str());
    f.append("src: ");
    write_font_values(values, f);
    f.append(";\n");
    f.append(pad);
    f.append("}\n");
    assert(f@ =~= first + spaces(pad@.len() + 4) + "src: "@ + joined(
        FontValueView::texts(views(values@)),
        ", "@,
    ) + ";\n"@ + spaces(pad@.len()) + "}\n"@);
}

/// Appends an `@import` line to `f`: the path, one blank, the query where
/// there is one, and the semicolon.
fn write_import(path: &AttributeData, query: &Option<MediaQuery>, f: &mut String, pad: &str)
    requires
        pad@ == spaces(pad@.len()),
    ensures
        final(f)@ == old(f)@ + spaces(pad@.len()) + "@import "@ + path@.text() + " "@ + (match query {
            Some(q) => q@.text(true),
            None => Seq::empty(),
        }) + ";\n"@,
{
    f.append(pad);
    f.append("@import ");
    path.into_css(f);
    f.append(" ");
    let ghost before = f@;
    if let Some(q) = query {
        q.into_css(f, true);
    }
    assert(f@ =~= before + (match query {
        Some(q) => q@.text(true),
        None => Seq::empty(),
    }));
    f.append(";\n");
}

/// Appends the texts of the font sources of `values` to `f`, with `, `
/// between each two.
fn write_font_values(values: &Vec<FontValue>, f: &mut String)
    ensures
        final(f)@ == old(f)@ + joined(FontValueView::texts(views(values@)), ", "@),
{
    let ghost parts = FontValueView::texts(views(values@));
    let n = values.len();
    let mut i: usize = 0;
    assert(f@ =~= old(f)@ + joined(parts.take(0), ", "@));
    while i < n
        invariant
            i <= n,
            n == values.len(),
            parts == FontValueView::texts(views(values@)),
            f@ == old(f)@ + joined(parts.take(i as int), ", "@),
        decreases n - i,
    {
        if i > 0 {
            f.append(", ");
        }
        values[i].into_css(f);
        proof {
            lemma_joined_step(parts, ", "@, i as int);
        }
        i += 1;
        assert(f@ =~= old(f)@ + joined(parts.take(i as int), ", "@));
    }
    assert(parts.take(n as int) =~= parts);
}

/// Appends the texts of the steps of `rules` to `f`, each indented by the
/// blanks of `pad`.
fn write_keyframe_rules(rules: &Vec<KeyframeRule>, f: &mut String, pad: &str)
    requires
        pad@ == spaces(pad@.len()),
    ensures
        final(f)@ == old(f)@ + concat(KeyframeRuleView::texts(views(rules@), pad@.len())),
{
    let ghost parts = KeyframeRuleView::texts(views(rules@), pad@.len());
    let n = rules.len();
    let mut i: usize = 0;
    assert(f@ =~= old(f)@ + concat(parts.take(0)));
    while i < n
        invariant
            i <= n,
            n == rules.len(),
            pad@ == spaces(pad@.len()),
            parts == KeyframeRuleView::texts(views(rules@), pad@.len()),
            f@ == old(f)@ + concat(parts.take(i as int)),
        decreases n - i,
    {
        rules[i].write(f, pad);
        proof {
            lemma_concat_step(parts, i as int);
        }
        i += 1;
        assert(f@ =~= old(f)@ + concat(parts.take(i as int)));
    }
    assert(parts.take(n as int) =~= parts);
}

} // verus!
