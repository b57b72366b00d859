use htsx::css::{
    AttributeData, Error, ErrorType, FontValue, Item, KeyframeRule, MediaQuery, Rule,
    SelectorType,
};
use htsx::node::{Location, Node};

fn at(line: usize, column: usize) -> Location {
    Location { line, column }
}

fn id(text: &'static str) -> Node<'static> {
    Node::Ident(at(1, 1), text, at(1, 2))
}

fn num(text: &'static str) -> Node<'static> {
    Node::Number(at(2, 1), text, at(2, 2))
}

fn st(text: &str) -> Node<'static> {
    Node::String(at(3, 1), text.to_string(), at(3, 2))
}

fn list(items: Vec<Node<'static>>) -> Node<'static> {
    Node::List(at(4, 1), items, at(4, 9))
}

fn list_at(line: usize, items: Vec<Node<'static>>) -> Node<'static> {
    Node::List(at(line, 1), items, at(line, 9))
}

fn failure(line_start: Location, line_end: Location, err_type: ErrorType) -> Error {
    Error { start: line_start, end: line_end, err_type }
}

#[test]
fn value_from_identifier_and_number_is_text() {
    assert_eq!(AttributeData::try_from(&id("red")), Ok(AttributeData::Text("red")));
    assert_eq!(AttributeData::try_from(&num("12")), Ok(AttributeData::Text("12")));
}

#[test]
fn value_from_string_is_string() {
    assert_eq!(AttributeData::try_from(&st("a b")), Ok(AttributeData::String("a b")));
}

#[test]
fn value_from_important_list() {
    let o = list(vec![id("!important"), id("red")]);
    assert_eq!(
        AttributeData::try_from(&o),
        Ok(AttributeData::NotImportant(Box::new(AttributeData::Text("red"))))
    );
}

#[test]
fn value_from_important_list_of_three_is_a_plain_list() {
    let o = list(vec![id("!important"), id("a"), id("b")]);
    assert_eq!(
        AttributeData::try_from(&o),
        Ok(AttributeData::List(vec![
            AttributeData::Text("!important"),
            AttributeData::Text("a"),
            AttributeData::Text("b"),
        ]))
    );
}

#[test]
fn value_from_function_list() {
    let o = list(vec![id("fn"), id("rgb"), num("1"), num("2"), num("3")]);
    assert_eq!(
        AttributeData::try_from(&o),
        Ok(AttributeData::Function {
            name: "rgb",
            args: vec![
                AttributeData::Text("1"),
                AttributeData::Text("2"),
                AttributeData::Text("3"),
            ],
        })
    );
}

#[test]
fn value_from_function_list_without_arguments() {
    let o = list(vec![id("fn"), id("now")]);
    assert_eq!(
        AttributeData::try_from(&o),
        Ok(AttributeData::Function { name: "now", args: vec![] })
    );
}

#[test]
fn value_from_fn_with_a_number_as_name_is_a_plain_list() {
    let o = list(vec![id("fn"), num("1"), num("2")]);
    assert_eq!(
        AttributeData::try_from(&o),
        Ok(AttributeData::List(vec![
            AttributeData::Text("fn"),
            AttributeData::Text("1"),
            AttributeData::Text("2"),
        ]))
    );
}

#[test]
fn value_from_other_list_is_a_list() {
    let o = list(vec![num("1px"), id("solid"), st("x")]);
    assert_eq!(
        AttributeData::try_from(&o),
        Ok(AttributeData::List(vec![
            AttributeData::Text("1px"),
            AttributeData::Text("solid"),
            AttributeData::String("x"),
        ]))
    );
}

#[test]
fn value_from_empty_list_is_refused() {
    let o = Node::List(at(7, 3), vec![], at(7, 5));
    assert_eq!(
        AttributeData::try_from(&o),
        Err(failure(at(7, 3), at(7, 5), ErrorType::EmptyList))
    );
}

#[test]
fn value_failure_inside_is_the_first_in_order() {
    let o = list(vec![
        id("a"),
        Node::List(at(8, 1), vec![], at(8, 2)),
        Node::List(at(9, 1), vec![], at(9, 2)),
    ]);
    assert_eq!(
        AttributeData::try_from(&o),
        Err(failure(at(8, 1), at(8, 2), ErrorType::EmptyList))
    );
}

#[test]
fn selector_from_names() {
    assert_eq!(SelectorType::try_from(&id("div")), Ok(SelectorType::Tag("div")));
    assert_eq!(SelectorType::try_from(&id(".x")), Ok(SelectorType::Class("x")));
    assert_eq!(SelectorType::try_from(&id("#main")), Ok(SelectorType::Id("main")));
    assert_eq!(SelectorType::try_from(&id("#")), Ok(SelectorType::Id("")));
}

#[test]
fn selector_name_keeps_what_follows_the_mark() {
    assert_eq!(SelectorType::try_from(&id(".é.x")), Ok(SelectorType::Class("é.x")));
}

#[test]
fn selector_from_number_and_string_is_refused() {
    assert_eq!(
        SelectorType::try_from(&num("1")),
        Err(failure(at(2, 1), at(2, 2), ErrorType::NumberNotAllowed))
    );
    assert_eq!(
        SelectorType::try_from(&st("x")),
        Err(failure(at(3, 1), at(3, 2), ErrorType::StringNotAllowed))
    );
}

#[test]
fn selector_from_seq() {
    let o = list(vec![id("seq"), id("div"), id(".x")]);
    assert_eq!(
        SelectorType::try_from(&o),
        Ok(SelectorType::Sequence(vec![SelectorType::Tag("div"), SelectorType::Class("x")]))
    );
}

#[test]
fn selector_seq_refuses_a_list_inside() {
    let o = list(vec![id("seq"), id("div"), list_at(6, vec![id("list"), id("p")])]);
    assert_eq!(
        SelectorType::try_from(&o),
        Err(failure(at(6, 1), at(6, 9), ErrorType::ListNotAllowed))
    );
}

#[test]
fn selector_seq_refuses_a_number_inside() {
    let o = list(vec![id("seq"), num("1")]);
    assert_eq!(
        SelectorType::try_from(&o),
        Err(failure(at(2, 1), at(2, 2), ErrorType::NumberNotAllowed))
    );
}

#[test]
fn selector_from_list_recurses() {
    let o = list(vec![
        id("list"),
        list(vec![id("seq"), id("ul"), id("li")]),
        id("#a"),
        list(vec![id("list"), id("p")]),
    ]);
    assert_eq!(
        SelectorType::try_from(&o),
        Ok(SelectorType::List(vec![
            SelectorType::Sequence(vec![SelectorType::Tag("ul"), SelectorType::Tag("li")]),
            SelectorType::Id("a"),
            SelectorType::List(vec![SelectorType::Tag("p")]),
        ]))
    );
}

#[test]
fn selector_from_empty_list_is_refused() {
    let o = Node::List(at(7, 3), vec![], at(7, 5));
    assert_eq!(
        SelectorType::try_from(&o),
        Err(failure(at(7, 3), at(7, 5), ErrorType::EmptyList))
    );
}

#[test]
fn selector_from_other_list_is_refused() {
    let o = list(vec![id("div"), id("p")]);
    assert_eq!(
        SelectorType::try_from(&o),
        Err(failure(at(4, 1), at(4, 9), ErrorType::ExpectedSeqOrList))
    );
}

#[test]
fn rule_from_list() {
    let o = list(vec![
        id("p"),
        list(vec![id("a"), num("1")]),
        list(vec![id("b"), num("2")]),
        list(vec![id("a"), num("3")]),
    ]);
    assert_eq!(
        Rule::try_from(&o),
        Ok(Rule {
            selector: SelectorType::Tag("p"),
            inner: vec![
                ("a", AttributeData::Text("1")),
                ("b", AttributeData::Text("2")),
                ("a", AttributeData::Text("3")),
            ],
        })
    );
}

#[test]
fn rule_from_atoms_is_refused() {
    assert_eq!(
        Rule::try_from(&id("p")),
        Err(failure(at(1, 1), at(1, 2), ErrorType::IdentNotAllowed))
    );
    assert_eq!(
        Rule::try_from(&num("1")),
        Err(failure(at(2, 1), at(2, 2), ErrorType::NumberNotAllowed))
    );
    assert_eq!(
        Rule::try_from(&st("p")),
        Err(failure(at(3, 1), at(3, 2), ErrorType::StringNotAllowed))
    );
}

#[test]
fn rule_from_empty_list_is_refused() {
    let o = Node::List(at(7, 3), vec![], at(7, 5));
    assert_eq!(Rule::try_from(&o), Err(failure(at(7, 3), at(7, 5), ErrorType::EmptyList)));
}

#[test]
fn rule_malformed_declaration_has_its_own_span() {
    let o = Node::List(
        at(10, 1),
        vec![
            id("p"),
            list_at(11, vec![id("a"), num("1")]),
            list_at(12, vec![id("b"), num("2"), num("3")]),
            list_at(13, vec![id("c"), num("4")]),
        ],
        at(14, 1),
    );
    assert_eq!(
        Rule::try_from(&o),
        Err(failure(at(12, 1), at(12, 9), ErrorType::InvalidAttribute))
    );
    assert_eq!(
        Item::try_from(&o),
        Err(failure(at(12, 1), at(12, 9), ErrorType::InvalidAttribute))
    );
}

#[test]
fn rule_declaration_that_is_an_atom_is_refused() {
    let o = list(vec![id("p"), num("7")]);
    assert_eq!(
        Rule::try_from(&o),
        Err(failure(at(2, 1), at(2, 2), ErrorType::InvalidAttribute))
    );
}

#[test]
fn rule_declaration_with_a_number_as_name_is_refused() {
    let o = list(vec![id("p"), list_at(5, vec![num("1"), num("2")])]);
    assert_eq!(
        Rule::try_from(&o),
        Err(failure(at(5, 1), at(5, 9), ErrorType::InvalidAttribute))
    );
}

#[test]
fn rule_declaration_failure_comes_before_the_selector() {
    let o = list(vec![num("1"), list_at(5, vec![id("a")])]);
    assert_eq!(
        Rule::try_from(&o),
        Err(failure(at(5, 1), at(5, 9), ErrorType::InvalidAttribute))
    );
    let o = list(vec![num("1"), list_at(5, vec![id("a"), id("b")])]);
    assert_eq!(
        Rule::try_from(&o),
        Err(failure(at(2, 1), at(2, 2), ErrorType::NumberNotAllowed))
    );
}

#[test]
fn rule_empty_list_as_selector_is_refused_with_its_span() {
    let o = list(vec![Node::List(at(7, 3), vec![], at(7, 5)), list(vec![id("a"), id("b")])]);
    assert_eq!(Rule::try_from(&o), Err(failure(at(7, 3), at(7, 5), ErrorType::EmptyList)));
}

#[test]
fn rule_empty_list_as_value_is_refused_with_its_span() {
    let o = list(vec![id("p"), list(vec![id("a"), Node::List(at(7, 3), vec![], at(7, 5))])]);
    assert_eq!(Rule::try_from(&o), Err(failure(at(7, 3), at(7, 5), ErrorType::EmptyList)));
}

#[test]
fn query_from_names() {
    assert_eq!(MediaQuery::try_from(&id("screen")), Ok(MediaQuery::Screen));
    assert_eq!(MediaQuery::try_from(&id("all")), Ok(MediaQuery::All));
    assert_eq!(MediaQuery::try_from(&id("page")), Ok(MediaQuery::Page));
    assert_eq!(MediaQuery::try_from(&id("print")), Ok(MediaQuery::EmptyAttribute("print")));
}

#[test]
fn query_from_number_and_string_is_refused() {
    assert_eq!(
        MediaQuery::try_from(&num("1")),
        Err(failure(at(2, 1), at(2, 2), ErrorType::NumberNotAllowed))
    );
    assert_eq!(
        MediaQuery::try_from(&st("x")),
        Err(failure(at(3, 1), at(3, 2), ErrorType::StringNotAllowed))
    );
}

#[test]
fn query_from_and_list() {
    let o = list(vec![list(vec![id("width"), num("800px")]), id("and"), id("screen")]);
    assert_eq!(
        MediaQuery::try_from(&o),
        Ok(MediaQuery::And(
            Box::new(MediaQuery::Attribute("width", AttributeData::Text("800px"))),
            Box::new(MediaQuery::Screen),
        ))
    );
}

#[test]
fn query_from_not_list() {
    let o = list(vec![id("not"), id("screen")]);
    assert_eq!(MediaQuery::try_from(&o), Ok(MediaQuery::Not(Box::new(MediaQuery::Screen))));
}

#[test]
fn query_from_feature_test() {
    let o = list(vec![id("width"), num("800px")]);
    assert_eq!(
        MediaQuery::try_from(&o),
        Ok(MediaQuery::Attribute("width", AttributeData::Text("800px")))
    );
}

#[test]
fn query_from_other_list_is_a_list() {
    let o = list(vec![id("screen"), id("print"), id("all"), id("page")]);
    assert_eq!(
        MediaQuery::try_from(&o),
        Ok(MediaQuery::List(vec![
            MediaQuery::Screen,
            MediaQuery::EmptyAttribute("print"),
            MediaQuery::All,
            MediaQuery::Page,
        ]))
    );
    let o = list(vec![id("screen")]);
    assert_eq!(MediaQuery::try_from(&o), Ok(MediaQuery::List(vec![MediaQuery::Screen])));
}

#[test]
fn query_from_empty_list_is_refused() {
    let o = Node::List(at(7, 3), vec![], at(7, 5));
    assert_eq!(MediaQuery::try_from(&o), Err(failure(at(7, 3), at(7, 5), ErrorType::EmptyList)));
}

#[test]
fn query_and_fails_on_the_left_first() {
    let o = list(vec![num("1"), id("and"), st("x")]);
    assert_eq!(
        MediaQuery::try_from(&o),
        Err(failure(at(2, 1), at(2, 2), ErrorType::NumberNotAllowed))
    );
}

#[test]
fn keyframe_rule_from_lists() {
    let o = list(vec![id("from"), list(vec![id("left"), num("0")])]);
    assert_eq!(
        KeyframeRule::try_from(&o),
        Ok(KeyframeRule::From(vec![("left", AttributeData::Text("0"))]))
    );
    let o = list(vec![id("to")]);
    assert_eq!(KeyframeRule::try_from(&o), Ok(KeyframeRule::To(vec![])));
    let o = list(vec![id("50%"), list(vec![id("left"), num("5px")])]);
    assert_eq!(
        KeyframeRule::try_from(&o),
        Ok(KeyframeRule::Percent {
            percent: "50%",
            attributes: vec![("left", AttributeData::Text("5px"))],
        })
    );
}

#[test]
fn keyframe_rule_without_percent_is_refused() {
    let o = list(vec![id("half"), list(vec![id("left")])]);
    assert_eq!(
        KeyframeRule::try_from(&o),
        Err(failure(at(4, 1), at(4, 9), ErrorType::ExpectedPercent))
    );
}

#[test]
fn keyframe_rule_that_begins_with_a_number_is_refused() {
    let o = list(vec![num("50"), list(vec![id("left"), num("0")])]);
    assert_eq!(
        KeyframeRule::try_from(&o),
        Err(failure(at(4, 1), at(4, 9), ErrorType::InvalidAttribute))
    );
}

#[test]
fn keyframe_rule_from_empty_list_and_atoms_is_refused() {
    let o = Node::List(at(7, 3), vec![], at(7, 5));
    assert_eq!(KeyframeRule::try_from(&o), Err(failure(at(7, 3), at(7, 5), ErrorType::EmptyList)));
    assert_eq!(
        KeyframeRule::try_from(&id("from")),
        Err(failure(at(1, 1), at(1, 2), ErrorType::IdentNotAllowed))
    );
    assert_eq!(
        KeyframeRule::try_from(&num("1")),
        Err(failure(at(2, 1), at(2, 2), ErrorType::NumberNotAllowed))
    );
    assert_eq!(
        KeyframeRule::try_from(&st("x")),
        Err(failure(at(3, 1), at(3, 2), ErrorType::StringNotAllowed))
    );
}

#[test]
fn keyframe_rule_declaration_that_is_an_atom_is_refused_by_its_kind() {
    let o = list(vec![id("from"), id("left")]);
    assert_eq!(
        KeyframeRule::try_from(&o),
        Err(failure(at(1, 1), at(1, 2), ErrorType::IdentNotAllowed))
    );
    let o = list(vec![id("to"), list(vec![id("a"), id("b")]), num("1")]);
    assert_eq!(
        KeyframeRule::try_from(&o),
        Err(failure(at(2, 1), at(2, 2), ErrorType::NumberNotAllowed))
    );
    let o = list(vec![id("to"), st("x")]);
    assert_eq!(
        KeyframeRule::try_from(&o),
        Err(failure(at(3, 1), at(3, 2), ErrorType::StringNotAllowed))
    );
    let o = list(vec![id("10%"), list_at(6, vec![id("a")])]);
    assert_eq!(
        KeyframeRule::try_from(&o),
        Err(failure(at(6, 1), at(6, 9), ErrorType::InvalidAttribute))
    );
}

#[test]
fn font_value_from_lists() {
    let o = list(vec![id("url"), st("a.woff"), id("woff")]);
    assert_eq!(FontValue::try_from(&o), Ok(FontValue::Url { path: "a.woff", format: "woff" }));
    let o = list(vec![id("local"), st("Arial"), id("truetype")]);
    assert_eq!(
        FontValue::try_from(&o),
        Ok(FontValue::Local { path: "Arial", format: "truetype" })
    );
}

#[test]
fn font_value_of_another_shape_is_refused() {
    let o = list(vec![id("url"), id("a.woff"), id("woff")]);
    assert_eq!(
        FontValue::try_from(&o),
        Err(failure(at(4, 1), at(4, 9), ErrorType::ExpectedFontValue))
    );
    let o = list(vec![id("file"), st("a.woff"), id("woff")]);
    assert_eq!(
        FontValue::try_from(&o),
        Err(failure(at(4, 1), at(4, 9), ErrorType::ExpectedFontValue))
    );
    let o = list(vec![id("url"), st("a.woff")]);
    assert_eq!(
        FontValue::try_from(&o),
        Err(failure(at(4, 1), at(4, 9), ErrorType::ExpectedFontValue))
    );
}

#[test]
fn font_value_from_empty_list_and_atoms_is_refused() {
    let o = Node::List(at(7, 3), vec![], at(7, 5));
    assert_eq!(FontValue::try_from(&o), Err(failure(at(7, 3), at(7, 5), ErrorType::EmptyList)));
    assert_eq!(
        FontValue::try_from(&id("url")),
        Err(failure(at(1, 1), at(1, 2), ErrorType::IdentNotAllowed))
    );
    assert_eq!(
        FontValue::try_from(&num("1")),
        Err(failure(at(2, 1), at(2, 2), ErrorType::NumberNotAllowed))
    );
    assert_eq!(
        FontValue::try_from(&st("x")),
        Err(failure(at(3, 1), at(3, 2), ErrorType::StringNotAllowed))
    );
}

#[test]
fn item_from_atoms_is_a_comment() {
    assert_eq!(Item::try_from(&id("note")), Ok(Item::Comment("note")));
    assert_eq!(Item::try_from(&num("12")), Ok(Item::Comment("12")));
    assert_eq!(Item::try_from(&st("a note")), Ok(Item::Comment("a note")));
}

#[test]
fn item_from_empty_list_is_refused() {
    let o = Node::List(at(7, 3), vec![], at(7, 5));
    assert_eq!(Item::try_from(&o), Err(failure(at(7, 3), at(7, 5), ErrorType::EmptyList)));
}

#[test]
fn item_media_block() {
    let o = list(vec![
        id("@media"),
        id("screen"),
        list(vec![id("p"), list(vec![id("color"), id("red")])]),
        st("note"),
    ]);
    assert_eq!(
        Item::try_from(&o),
        Ok(Item::MediaQuery {
            query: MediaQuery::Screen,
            inner: vec![
                Item::Rule(Rule {
                    selector: SelectorType::Tag("p"),
                    inner: vec![("color", AttributeData::Text("red"))],
                }),
                Item::Comment("note"),
            ],
        })
    );
}

#[test]
fn item_media_block_fails_on_the_query_first() {
    let o = list(vec![id("@media"), num("1"), Node::List(at(7, 3), vec![], at(7, 5))]);
    assert_eq!(
        Item::try_from(&o),
        Err(failure(at(2, 1), at(2, 2), ErrorType::NumberNotAllowed))
    );
    let o = list(vec![id("@media"), id("screen"), Node::List(at(7, 3), vec![], at(7, 5))]);
    assert_eq!(Item::try_from(&o), Err(failure(at(7, 3), at(7, 5), ErrorType::EmptyList)));
}

#[test]
fn item_media_alone_is_a_rule() {
    let o = list(vec![id("@media")]);
    assert_eq!(
        Item::try_from(&o),
        Ok(Item::Rule(Rule { selector: SelectorType::Tag("@media"), inner: vec![] }))
    );
}

#[test]
fn item_supports_block() {
    let o = list(vec![id("@supports"), list(vec![id("display"), id("grid")])]);
    assert_eq!(
        Item::try_from(&o),
        Ok(Item::Supports {
            does_support: MediaQuery::Attribute("display", AttributeData::Text("grid")),
            inner: vec![],
        })
    );
}

#[test]
fn item_charset_from_list() {
    assert_eq!(Item::try_from(&list(vec![id("@charset"), id("utf-8")])), Ok(Item::Charset("utf-8")));
    assert_eq!(Item::try_from(&list(vec![id("@charset"), num("8")])), Ok(Item::Charset("8")));
    assert_eq!(Item::try_from(&list(vec![id("@charset"), st("utf-8")])), Ok(Item::Charset("utf-8")));
}

#[test]
fn item_charset_with_a_list_is_a_rule_and_fails_as_one() {
    let o = list(vec![id("@charset"), list_at(6, vec![id("a")])]);
    assert_eq!(
        Item::try_from(&o),
        Err(failure(at(6, 1), at(6, 9), ErrorType::InvalidAttribute))
    );
}

#[test]
fn item_import() {
    let o = list(vec![id("@import"), st("a.css")]);
    assert_eq!(
        Item::try_from(&o),
        Ok(Item::Import { path: AttributeData::String("a.css"), query: None })
    );
    let o = list(vec![id("@import"), st("a.css"), id("screen")]);
    assert_eq!(
        Item::try_from(&o),
        Ok(Item::Import { path: AttributeData::String("a.css"), query: Some(MediaQuery::Screen) })
    );
}

#[test]
fn item_import_fails_on_the_path_first() {
    let o = list(vec![id("@import"), Node::List(at(7, 3), vec![], at(7, 5)), num("1")]);
    assert_eq!(Item::try_from(&o), Err(failure(at(7, 3), at(7, 5), ErrorType::EmptyList)));
    let o = list(vec![id("@import"), st("a.css"), num("1")]);
    assert_eq!(
        Item::try_from(&o),
        Err(failure(at(2, 1), at(2, 2), ErrorType::NumberNotAllowed))
    );
}

#[test]
fn item_keyframes_from_list() {
    let o = list(vec![
        id("@keyframes"),
        id("spin"),
        list(vec![id("from"), list(vec![id("left"), num("0")])]),
        list(vec![id("to"), list(vec![id("left"), num("9px")])]),
    ]);
    assert_eq!(
        Item::try_from(&o),
        Ok(Item::Keyframes {
            name: "spin",
            rules: vec![
                KeyframeRule::From(vec![("left", AttributeData::Text("0"))]),
                KeyframeRule::To(vec![("left", AttributeData::Text("9px"))]),
            ],
        })
    );
}

#[test]
fn item_keyframes_step_without_percent_is_refused() {
    let o = list(vec![id("@keyframes"), id("spin"), list_at(6, vec![id("half")])]);
    assert_eq!(
        Item::try_from(&o),
        Err(failure(at(6, 1), at(6, 9), ErrorType::ExpectedPercent))
    );
}

#[test]
fn item_font_face_from_list() {
    let o = list(vec![
        id("@font-face"),
        st("Mine"),
        list(vec![id("url"), st("a.woff"), id("woff")]),
    ]);
    assert_eq!(
        Item::try_from(&o),
        Ok(Item::FontFace {
            name: "Mine",
            values: vec![FontValue::Url { path: "a.woff", format: "woff" }],
        })
    );
    let o = list(vec![id("@font-face"), id("Mine")]);
    assert_eq!(Item::try_from(&o), Ok(Item::FontFace { name: "Mine", values: vec![] }));
}

#[test]
fn item_font_face_source_of_another_shape_is_refused() {
    let o = list(vec![id("@font-face"), id("Mine"), list_at(6, vec![id("url"), id("a")])]);
    assert_eq!(
        Item::try_from(&o),
        Err(failure(at(6, 1), at(6, 9), ErrorType::ExpectedFontValue))
    );
}

#[test]
fn item_other_list_is_a_rule() {
    let o = list(vec![
        list(vec![id("seq"), id("div"), id(".x")]),
        list(vec![id("color"), list(vec![id("!important"), id("red")])]),
    ]);
    let item = Item::try_from(&o).unwrap();
    let mut out = String::new();
    item.into_css(&mut out, 0);
    assert_eq!(out, "div .x {\n    color: red !important;\n}\n");
}

#[test]
fn item_recognized_twice_renders_alike() {
    let o = list(vec![
        id("@media"),
        list(vec![id("screen"), id("and"), list(vec![id("width"), num("800px")])]),
        list(vec![id("p"), list(vec![id("color"), id("red")])]),
    ]);
    let mut first = String::new();
    Item::try_from(&o).unwrap().into_css(&mut first, 0);
    let mut second = String::new();
    Item::try_from(&o).unwrap().into_css(&mut second, 0);
    assert_eq!(first, "@media screen and (width: 800px) {\n    p {\n        color: red;\n    }\n}\n");
    assert_eq!(first, second);
}
