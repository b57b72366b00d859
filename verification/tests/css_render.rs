use htsx::css::{AttributeData, FontValue, Item, KeyframeRule, MediaQuery, Rule, SelectorType};

fn css_of_value(v: &AttributeData) -> String {
    let mut out = String::new();
    v.into_css(&mut out);
    out
}

fn css_of_selector(s: &SelectorType) -> String {
    let mut out = String::new();
    s.into_css(&mut out);
    out
}

fn css_of_query(q: &MediaQuery, first: bool) -> String {
    let mut out = String::new();
    q.into_css(&mut out, first);
    out
}

fn css_of_item(i: &Item, indent: usize) -> String {
    let mut out = String::new();
    i.into_css(&mut out, indent);
    out
}

fn width_800() -> MediaQuery<'static> {
    MediaQuery::Attribute("width", AttributeData::Text("800px"))
}

#[test]
fn value_text_is_written_as_it_is() {
    assert_eq!(css_of_value(&AttributeData::Text("red")), "red");
}

#[test]
fn value_string_is_quoted() {
    assert_eq!(css_of_value(&AttributeData::String("a b")), "\"a b\"");
}

#[test]
fn value_list_is_joined_by_blanks() {
    let v = AttributeData::List(vec![
        AttributeData::Text("1px"),
        AttributeData::Text("solid"),
        AttributeData::Text("black"),
    ]);
    assert_eq!(css_of_value(&v), "1px solid black");
}

#[test]
fn value_list_of_one_has_no_separator() {
    let v = AttributeData::List(vec![AttributeData::Text("auto")]);
    assert_eq!(css_of_value(&v), "auto");
}

#[test]
fn value_function_is_joined_by_commas() {
    let v = AttributeData::Function {
        name: "rgb",
        args: vec![AttributeData::Text("1"), AttributeData::Text("2"), AttributeData::Text("3")],
    };
    assert_eq!(css_of_value(&v), "rgb(1, 2, 3)");
}

#[test]
fn value_function_without_arguments() {
    let v = AttributeData::Function { name: "now", args: vec![] };
    assert_eq!(css_of_value(&v), "now()");
}

#[test]
fn value_important_follows_the_value() {
    let v = AttributeData::NotImportant(Box::new(AttributeData::Text("red")));
    assert_eq!(css_of_value(&v), "red !important");
}

#[test]
fn value_nested_lists_and_functions() {
    let v = AttributeData::NotImportant(Box::new(AttributeData::List(vec![
        AttributeData::Function {
            name: "url",
            args: vec![AttributeData::String("a.png")],
        },
        AttributeData::Text("no-repeat"),
    ])));
    assert_eq!(css_of_value(&v), "url(\"a.png\") no-repeat !important");
}

#[test]
fn value_appends_to_what_is_there() {
    let mut out = String::from("color: ");
    AttributeData::Text("red").into_css(&mut out);
    assert_eq!(out, "color: red");
}

#[test]
fn selector_sequence_is_joined_by_blanks() {
    let s = SelectorType::Sequence(vec![SelectorType::Tag("div"), SelectorType::Class("x")]);
    assert_eq!(css_of_selector(&s), "div .x");
}

#[test]
fn selector_list_is_joined_by_commas() {
    let s = SelectorType::List(vec![SelectorType::Tag("div"), SelectorType::Tag("p")]);
    assert_eq!(css_of_selector(&s), "div, p");
}

#[test]
fn selector_class_id_and_tag() {
    assert_eq!(css_of_selector(&SelectorType::Class("x")), ".x");
    assert_eq!(css_of_selector(&SelectorType::Id("main")), "#main");
    assert_eq!(css_of_selector(&SelectorType::Tag("div")), "div");
}

#[test]
fn selector_empty_list_is_empty() {
    assert_eq!(css_of_selector(&SelectorType::List(vec![])), "");
    assert_eq!(css_of_selector(&SelectorType::Sequence(vec![])), "");
}

#[test]
fn selector_list_of_sequences() {
    let s = SelectorType::List(vec![
        SelectorType::Sequence(vec![SelectorType::Tag("ul"), SelectorType::Tag("li")]),
        SelectorType::Id("a"),
    ]);
    assert_eq!(css_of_selector(&s), "ul li, #a");
}

#[test]
fn selector_clone_renders_alike() {
    let s = SelectorType::List(vec![
        SelectorType::Sequence(vec![SelectorType::Tag("ul"), SelectorType::Class("x")]),
        SelectorType::Id("a"),
    ]);
    let c = s.clone();
    assert_eq!(c, s);
    assert_eq!(css_of_selector(&c), "ul .x, #a");
}

#[test]
fn rule_keeps_every_declaration_in_order() {
    let r = Rule {
        selector: SelectorType::Tag("x"),
        inner: vec![
            ("a", AttributeData::Text("1")),
            ("b", AttributeData::Text("2")),
            ("a", AttributeData::Text("3")),
        ],
    };
    let mut out = String::new();
    r.into_css(&mut out, 0);
    assert_eq!(out, "x {\n    a: 1;\n    b: 2;\n    a: 3;\n}\n");
    let a1 = out.find("a: 1;").unwrap();
    let b2 = out.find("b: 2;").unwrap();
    let a3 = out.find("a: 3;").unwrap();
    assert!(a1 < b2 && b2 < a3);
}

#[test]
fn rule_is_indented() {
    let r = Rule {
        selector: SelectorType::Class("x"),
        inner: vec![("color", AttributeData::Text("red"))],
    };
    let mut out = String::new();
    r.into_css(&mut out, 2);
    assert_eq!(out, "  .x {\n      color: red;\n  }\n");
}

#[test]
fn rule_without_declarations() {
    let r = Rule { selector: SelectorType::Tag("p"), inner: vec![] };
    let mut out = String::new();
    r.into_css(&mut out, 0);
    assert_eq!(out, "p {\n}\n");
}

#[test]
fn rendering_twice_gives_the_same_text() {
    let r = Rule {
        selector: SelectorType::Tag("x"),
        inner: vec![("a", AttributeData::Text("1")), ("b", AttributeData::String("2"))],
    };
    let mut first = String::new();
    r.into_css(&mut first, 4);
    let mut second = String::new();
    r.into_css(&mut second, 4);
    assert_eq!(first, second);
}

#[test]
fn query_and_at_top_level_has_no_parentheses() {
    let q = MediaQuery::And(Box::new(width_800()), Box::new(MediaQuery::Screen));
    assert_eq!(css_of_query(&q, true), "(width: 800px) and screen");
}

#[test]
fn query_and_inside_a_list_has_parentheses() {
    let q = MediaQuery::List(vec![MediaQuery::And(
        Box::new(width_800()),
        Box::new(MediaQuery::Screen),
    )]);
    assert_eq!(css_of_query(&q, true), "((width: 800px) and screen)");
}

#[test]
fn query_and_below_top_level_has_parentheses() {
    let q = MediaQuery::And(Box::new(width_800()), Box::new(MediaQuery::Screen));
    assert_eq!(css_of_query(&q, false), "((width: 800px) and screen)");
}

#[test]
fn query_list_at_top_level() {
    let q = MediaQuery::List(vec![MediaQuery::Screen, MediaQuery::Page, MediaQuery::All]);
    assert_eq!(css_of_query(&q, true), "screen, page, all");
    assert_eq!(css_of_query(&q, false), "(screen, page, all)");
}

#[test]
fn query_not_at_top_level_brings_the_parentheses() {
    let q = MediaQuery::Not(Box::new(MediaQuery::Screen));
    assert_eq!(css_of_query(&q, true), "not (screen)");
}

#[test]
fn query_not_below_top_level_leaves_them_to_the_inner_query() {
    let q = MediaQuery::Not(Box::new(MediaQuery::Screen));
    assert_eq!(css_of_query(&q, false), "not screen");
    let q = MediaQuery::Not(Box::new(width_800()));
    assert_eq!(css_of_query(&q, false), "not (width: 800px)");
    let q = MediaQuery::Not(Box::new(MediaQuery::And(
        Box::new(MediaQuery::Screen),
        Box::new(MediaQuery::EmptyAttribute("color")),
    )));
    assert_eq!(css_of_query(&q, false), "not (screen and color)");
}

#[test]
fn query_feature_test_always_has_parentheses() {
    assert_eq!(css_of_query(&width_800(), true), "(width: 800px)");
    assert_eq!(css_of_query(&width_800(), false), "(width: 800px)");
}

#[test]
fn query_atoms() {
    assert_eq!(css_of_query(&MediaQuery::Screen, true), "screen");
    assert_eq!(css_of_query(&MediaQuery::Page, false), "page");
    assert_eq!(css_of_query(&MediaQuery::All, true), "all");
    assert_eq!(css_of_query(&MediaQuery::EmptyAttribute("print"), false), "print");
}

#[test]
fn font_value_url_and_local() {
    let mut out = String::new();
    FontValue::Url { path: "a.woff", format: "woff" }.into_css(&mut out);
    assert_eq!(out, "url(\"a.woff\") format(\"woff\")");
    let mut out = String::new();
    FontValue::Local { path: "Arial", format: "truetype" }.into_css(&mut out);
    assert_eq!(out, "local(\"Arial\") format(\"truetype\")");
}

#[test]
fn keyframe_rule_percent() {
    let k = KeyframeRule::Percent {
        percent: "50%",
        attributes: vec![("opacity", AttributeData::Text("0.5"))],
    };
    let mut out = String::new();
    k.into_css(&mut out, 4);
    assert_eq!(out, "    50% {\n        opacity: 0.5;\n    }\n");
}

#[test]
fn keyframe_rule_from_and_to() {
    let mut out = String::new();
    KeyframeRule::From(vec![("left", AttributeData::Text("0"))]).into_css(&mut out, 0);
    KeyframeRule::To(vec![("left", AttributeData::Text("10px")), ("top", AttributeData::Text("0"))])
        .into_css(&mut out, 0);
    assert_eq!(out, "from {\n    left: 0;\n}\nto {\n    left: 10px;\n    top: 0;\n}\n");
}

#[test]
fn item_charset() {
    assert_eq!(css_of_item(&Item::Charset("utf-8"), 0), "@charset utf-8;\n");
    assert_eq!(css_of_item(&Item::Charset("utf-8"), 3), "   @charset utf-8;\n");
}

#[test]
fn item_comment() {
    assert_eq!(css_of_item(&Item::Comment("hello there"), 0), "/* hello there */\n");
    assert_eq!(css_of_item(&Item::Comment("x"), 4), "    /* x */\n");
}

#[test]
fn item_import_without_query_keeps_the_blank() {
    let i = Item::Import { path: AttributeData::String("a.css"), query: None };
    assert_eq!(css_of_item(&i, 0), "@import \"a.css\" ;\n");
}

#[test]
fn item_import_with_query() {
    let i = Item::Import {
        path: AttributeData::Function { name: "url", args: vec![AttributeData::String("a.css")] },
        query: Some(MediaQuery::And(Box::new(MediaQuery::Screen), Box::new(width_800()))),
    };
    assert_eq!(css_of_item(&i, 0), "@import url(\"a.css\") screen and (width: 800px);\n");
}

#[test]
fn item_font_face() {
    let i = Item::FontFace {
        name: "Mine",
        values: vec![
            FontValue::Url { path: "a.woff", format: "woff" },
            FontValue::Local { path: "Mine", format: "truetype" },
        ],
    };
    assert_eq!(
        css_of_item(&i, 0),
        "@font-face {\n    font-family: \"Mine\";\n    src: url(\"a.woff\") format(\"woff\"), local(\"Mine\") format(\"truetype\");\n}\n"
    );
}

#[test]
fn item_font_face_without_sources() {
    let i = Item::FontFace { name: "Mine", values: vec![] };
    assert_eq!(css_of_item(&i, 2), "  @font-face {\n      font-family: \"Mine\";\n      src: ;\n  }\n");
}

#[test]
fn item_media_block_indents_its_items() {
    let i = Item::MediaQuery {
        query: MediaQuery::And(Box::new(MediaQuery::Screen), Box::new(width_800())),
        inner: vec![
            Item::Rule(Rule {
                selector: SelectorType::Tag("p"),
                inner: vec![("color", AttributeData::Text("red"))],
            }),
            Item::Comment("c"),
        ],
    };
    assert_eq!(
        css_of_item(&i, 0),
        "@media screen and (width: 800px) {\n    p {\n        color: red;\n    }\n    /* c */\n}\n"
    );
}

#[test]
fn item_media_block_without_items() {
    let i = Item::MediaQuery { query: MediaQuery::Screen, inner: vec![] };
    assert_eq!(css_of_item(&i, 0), "@media screen {\n}\n");
}

#[test]
fn item_supports_block_nests() {
    let i = Item::Supports {
        does_support: MediaQuery::Attribute("display", AttributeData::Text("grid")),
        inner: vec![Item::MediaQuery {
            query: MediaQuery::Screen,
            inner: vec![Item::Rule(Rule { selector: SelectorType::Id("a"), inner: vec![] })],
        }],
    };
    assert_eq!(
        css_of_item(&i, 0),
        "@supports (display: grid) {\n    @media screen {\n        #a {\n        }\n    }\n}\n"
    );
}

#[test]
fn item_keyframes() {
    let i = Item::Keyframes {
        name: "spin",
        rules: vec![
            KeyframeRule::From(vec![("left", AttributeData::Text("0"))]),
            KeyframeRule::Percent { percent: "50%", attributes: vec![] },
            KeyframeRule::To(vec![("left", AttributeData::Text("9px"))]),
        ],
    };
    assert_eq!(
        css_of_item(&i, 0),
        "@keyframes spin {\n    from {\n        left: 0;\n    }\n    50% {\n    }\n    to {\n        left: 9px;\n    }\n}\n"
    );
}

#[test]
fn item_rule() {
    let i = Item::Rule(Rule {
        selector: SelectorType::Tag("p"),
        inner: vec![("margin", AttributeData::List(vec![
            AttributeData::Text("0"),
            AttributeData::Text("auto"),
        ]))],
    });
    assert_eq!(css_of_item(&i, 0), "p {\n    margin: 0 auto;\n}\n");
}
