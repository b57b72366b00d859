use htsx::node::{Location, Node};
use htsx::text::{ends_with_char, ends_with_str, padding, push_spaces, str_eq, strip_prefix_char};

fn place(line: usize, column: usize) -> Location {
    Location { line, column }
}

#[test]
fn str_eq_compares_characters() {
    assert!(str_eq("seq", "seq"));
    assert!(str_eq("", ""));
    assert!(!str_eq("seq", "seqs"));
    assert!(!str_eq("seq", "sew"));
    assert!(!str_eq("", "a"));
    assert!(str_eq("äö", "äö"));
    assert!(!str_eq("äö", "äo"));
}

#[test]
fn strip_prefix_char_takes_one_character() {
    assert_eq!(strip_prefix_char("#main", '#'), Some("main"));
    assert_eq!(strip_prefix_char("##", '#'), Some("#"));
    assert_eq!(strip_prefix_char("#", '#'), Some(""));
    assert_eq!(strip_prefix_char("main", '#'), None);
    assert_eq!(strip_prefix_char("", '#'), None);
    assert_eq!(strip_prefix_char("éa", 'é'), Some("a"));
    assert_eq!(strip_prefix_char(".é", '.'), Some("é"));
}

#[test]
fn ends_with_char_looks_at_the_last_character() {
    assert!(ends_with_char("50%", '%'));
    assert!(ends_with_char("%", '%'));
    assert!(!ends_with_char("%5", '%'));
    assert!(!ends_with_char("", '%'));
    assert!(ends_with_char("aé", 'é'));
}

#[test]
fn ends_with_str_looks_at_the_last_characters() {
    assert!(ends_with_str("a.htsx", ".htsx"));
    assert!(ends_with_str(".htsx", ".htsx"));
    assert!(ends_with_str("a", ""));
    assert!(!ends_with_str("htsx", ".htsx"));
    assert!(!ends_with_str("a.htsx ", ".htsx"));
    assert!(ends_with_str("é.é", ".é"));
}

#[test]
fn push_spaces_appends_blanks() {
    let mut out = String::from("a");
    push_spaces(&mut out, 3);
    assert_eq!(out, "a   ");
    push_spaces(&mut out, 0);
    assert_eq!(out, "a   ");
}

#[test]
fn padding_is_blanks() {
    assert_eq!(padding(0), "");
    assert_eq!(padding(4), "    ");
}

#[test]
fn node_span_and_texts() {
    let n = Node::Ident(place(1, 2), "div", place(1, 5));
    assert_eq!(n.start(), place(1, 2));
    assert_eq!(n.end(), place(1, 5));
    assert!(n.is_ident("div"));
    assert!(!n.is_ident("di"));
    assert_eq!(n.ident_text(), Some("div"));
    assert_eq!(n.string_text(), None);
    assert_eq!(n.atom_text(), Some("div"));

    let n = Node::Number(place(2, 2), "12", place(2, 4));
    assert_eq!(n.start(), place(2, 2));
    assert_eq!(n.end(), place(2, 4));
    assert!(!n.is_ident("12"));
    assert_eq!(n.ident_text(), None);
    assert_eq!(n.atom_text(), Some("12"));

    let n = Node::String(place(3, 2), "a b".to_string(), place(3, 7));
    assert_eq!(n.start(), place(3, 2));
    assert_eq!(n.end(), place(3, 7));
    assert!(!n.is_ident("a b"));
    assert_eq!(n.string_text(), Some("a b"));
    assert_eq!(n.atom_text(), Some("a b"));

    let n = Node::List(place(4, 1), vec![Node::Ident(place(4, 2), "x", place(4, 3))], place(4, 4));
    assert_eq!(n.start(), place(4, 1));
    assert_eq!(n.end(), place(4, 4));
    assert!(!n.is_ident("x"));
    assert_eq!(n.ident_text(), None);
    assert_eq!(n.string_text(), None);
    assert_eq!(n.atom_text(), None);
}
