use amrisk::parser::parse;
use amrisk::parser::pretty::PrettyFormatter;
use amrisk::parser::{LineCol, Span};

const OPEN0: &str = "\x1b[38;5;129m\u{1fb68}\x1b[0;48;5;129m";
const CLOSE0: &str = "\x1b[0;38;5;129m\u{1fb6a}\x1b[0m ";
const OPEN1: &str = "\x1b[38;5;128m\u{1fb68}\x1b[0;48;5;128m";
const CLOSE1: &str = "\x1b[0;38;5;128m\u{1fb6a}\x1b[0m ";
const INDENT1: &str = "\x1b[38;5;129m\u{1fb88}\u{1fb79} \x1b[0m";

#[test]
fn header_shows_kind_and_line_and_column() {
    let mut f = PrettyFormatter::new("ab\ncd");
    assert!(f.write_header("Program", Span::new(3, 1)));
    let expected = format!("{OPEN0}Program{CLOSE0}\x1b[38;5;48m[2:1]\x1b[0m\n");
    assert_eq!(f.text(), expected);
}

#[test]
fn header_past_the_end_of_the_source_is_refused() {
    let mut f = PrettyFormatter::new("ab");
    assert!(!f.write_header("Program", Span::new(5, 0)));
}

#[test]
fn location_reads_a_byte_offset() {
    // "\u{e9}" takes the first two bytes.
    let f = PrettyFormatter::new("\u{e9}\nx");
    assert_eq!(f.location(Span::new(3, 1)), Some(LineCol { line: 2, column: 1, offset: 3 }));
    assert_eq!(f.location(Span::new(2, 1)), Some(LineCol { line: 1, column: 2, offset: 2 }));
    assert_eq!(f.location(Span::new(1, 1)), None);
}

#[test]
fn location_counts_from_one() {
    let f = PrettyFormatter::new("x\n\nyz");
    assert_eq!(f.location(Span::new(4, 1)), Some(LineCol { line: 3, column: 2, offset: 4 }));
    assert_eq!(f.location(Span::new(9, 1)), None);
}

#[test]
fn no_indentation_at_the_top_level() {
    let mut f = PrettyFormatter::new("");
    assert!(!f.write_indent());
    f.raise();
    assert!(f.write_indent());
    assert_eq!(f.text(), INDENT1);
}

#[test]
fn separator_lines_carry_one_bar_per_level() {
    let mut f = PrettyFormatter::new("");
    f.raise();
    f.raise();
    f.write_indent_empty();
    assert_eq!(f.text(), "\x1b[38;5;129m\u{1fb88}  \x1b[38;5;128m\u{1fb88}  \x1b[0m");
}

#[test]
fn node_with_a_field() {
    let mut f = PrettyFormatter::new("a");
    f.raise();
    let mut node = f.node("Node", Span::new(0, 1)).expect("the header fits");
    assert!(node.field(&mut f, "flag", &true));
    node.finish(&mut f);
    assert_eq!(f.level, 1);
    let expected = format!(
        "{OPEN1}Node{CLOSE1}\x1b[38;5;48m[1:1]\x1b[0m\n{INDENT1}flag: \x1b[1;32mTrue\x1b[0m\n"
    );
    assert_eq!(f.text(), expected);
}

#[test]
fn program_tree_names_its_nodes() {
    let src = "fn main(a: i32) {\n    let x = a + 1;\n    x\n}\n";
    let program = parse(src).expect("parses");
    let text = program.pretty_printed(src).expect("the tree can be written");
    assert!(text.starts_with(&format!("{OPEN0}Program{CLOSE0}\x1b[38;5;48m[1:1]\x1b[0m\n")));
    assert!(text.contains("Item::Function"));
    assert!(text.contains("FnArg"));
    assert!(text.contains("Statment::Let"));
    assert!(text.contains("Expr::Binary"));
    assert!(text.contains("\x1b[38;5;48m[2:5]\x1b[0m"));
}

#[test]
fn assignment_has_no_tree_view() {
    let src = "fn main() {\n    let x = 1;\n    x = 2\n}\n";
    let program = parse(src).expect("parses");
    assert!(program.pretty_printed(src).is_none());
}
