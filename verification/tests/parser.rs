use amrisk::nodes::{Expr, ExprBinary, Item, Statement};
use amrisk::parser::failure::{message, text_less, Failure};
use amrisk::parser::locate;
use amrisk::parser::{parse, LineCol, Span, Token};

fn first_function_body(src: &str) -> Vec<Statement> {
    let program = parse(src).expect("the source parses");
    let Item::Function(f) = program.0.into_iter().next().expect("one item");
    f.body.stmts
}

#[test]
fn span_new_and_end() {
    let s = Span::new(3, 4);
    assert_eq!(s, Span { start: 3, len: 4 });
    assert_eq!(s.end(), 7);
}

#[test]
fn span_merge_covers_both_in_order() {
    let a = Span::new(2, 3);
    let b = Span::new(10, 5);
    assert_eq!(a.merge(b), Span { start: 2, len: 13 });
}

#[test]
fn span_merge_with_itself_is_itself() {
    let a = Span::new(4, 6);
    assert_eq!(a.merge(a), a);
    let empty = Span::new(9, 0);
    assert_eq!(empty.merge(empty), empty);
}

#[test]
fn span_merge_with_an_earlier_span() {
    // The other span ends before this one starts: the result starts at the
    // other span and runs to this one's end.
    let a = Span::new(10, 2);
    let b = Span::new(3, 4);
    assert_eq!(a.merge(b), Span { start: 3, len: 9 });
}

#[test]
fn span_end_span_inside() {
    let s = Span::new(5, 10);
    assert_eq!(s.end_span(3), Span { start: 12, len: 3 });
    assert_eq!(s.end_span(0), Span { start: 15, len: 0 });
}

#[test]
fn span_end_span_overflows_to_the_right() {
    let s = Span::new(5, 2);
    assert_eq!(s.end_span(4), Span { start: 5, len: 4 });
}

#[test]
fn span_of_keeps_value() {
    let sp = Span::new(1, 2).of(42);
    assert_eq!(sp.span, Span { start: 1, len: 2 });
    assert_eq!(sp.value, 42);
}

#[test]
fn span_location_counts_lines_and_columns() {
    let src = "ab\ncd\nef";
    assert_eq!(Span::new(0, 1).location(src), LineCol { line: 1, column: 1, offset: 0 });
    assert_eq!(Span::new(4, 1).location(src), LineCol { line: 2, column: 2, offset: 4 });
    assert_eq!(Span::new(6, 1).location(src), LineCol { line: 3, column: 1, offset: 6 });
}

#[test]
fn token_texts() {
    assert_eq!(Token::Fn.as_str(), "fn");
    assert_eq!(Token::Unsafe.as_str(), "unsafe");
    assert_eq!(Token::Arrow.as_str(), "->");
    assert_eq!(Token::Semi.as_str(), ";");
}

#[test]
fn keywords_are_reserved_and_punctuation_is_not_a_keyword() {
    assert!(Token::is_reverved("let"));
    assert!(Token::is_reverved("while"));
    assert!(!Token::is_reverved("lets"));
    assert!(!Token::is_reverved("x"));
    assert!(!Token::Loop.is_punctuation());
    assert!(Token::BraceO.is_punctuation());
}

#[test]
fn parses_function_with_arguments_and_return_type() {
    let program = parse("fn add(a: i32, b: i32) -> i32 {\n    a + b\n}\n").expect("parses");
    assert_eq!(program.0.len(), 1);
    let Item::Function(f) = &program.0[0];
    assert_eq!(f.name.value.0, "add");
    assert_eq!(f.name.span, Span { start: 3, len: 3 });
    assert_eq!(f.args.args.len(), 2);
    assert_eq!(f.args.args[1].name.value.0, "b");
    assert_eq!(f.args.args[1].ty.value.0, "i32");
    assert_eq!(f.ret.as_ref().expect("return type").value.0, "i32");
    assert!(f.unsafe_.is_none());
    assert_eq!(f.body.stmts.len(), 1);
}

#[test]
fn parses_unsafe_function() {
    let program = parse("unsafe fn f() {\n    1\n}\n").expect("parses");
    let Item::Function(f) = &program.0[0];
    assert!(f.unsafe_.is_some());
    assert_eq!(f.fn_.span, Span { start: 7, len: 2 });
}

#[test]
fn parses_several_functions() {
    let program = parse("fn a() {\n    1\n}\n\nfn b() {\n    2\n}\n").expect("parses");
    assert_eq!(program.0.len(), 2);
}

#[test]
fn parses_empty_source() {
    let program = parse("").expect("parses");
    assert_eq!(program.0.len(), 0);
    let program = parse("  \n// only a comment\n").expect("parses");
    assert_eq!(program.0.len(), 0);
}

#[test]
fn parse_error_points_at_the_item_that_does_not_parse() {
    let err = match parse("x") {
        Ok(_) => panic!("a bare word is no function"),
        Err(e) => e,
    };
    assert_eq!(err.location, Span { start: 0, len: 0 });
    assert_eq!(err.src, "x");
    assert_eq!(err.expected, "expected EOF, Function");

    let src = "fn a() {\n    1\n}\nfn";
    let err = match parse(src) {
        Ok(_) => panic!("the last function is cut short"),
        Err(e) => e,
    };
    assert_eq!(err.location, Span { start: 17, len: 0 });
    assert_eq!(err.src, src);
    assert_eq!(err.expected, "expected EOF, Function");
}

#[test]
fn parse_error_points_at_the_furthest_failure() {
    // The block is never closed: the furthest any rule got is the end of the
    // source, where a statement, an operator or the closing brace could follow.
    let src = "fn main() {\n    1\n";
    let err = parse(src).err().expect("the block is not closed");
    assert_eq!(err.location, Span { start: 18, len: 0 });
    assert_eq!(
        err.expected,
        "expected \"!=\", \"(\", \"+\", \"-\", \"<\", \"<=\", \"==\", \">\", \">=\", Block, \
         Expression, Identifier, Label, Let, Number, let, loop, while, }"
    );
}

#[test]
fn parse_error_on_a_number_that_does_not_fit() {
    let err = parse("fn f() {\n    2147483648\n}\n").err().expect("the number is too large");
    assert_eq!(err.location, Span { start: 23, len: 0 });
    assert_eq!(err.expected, "expected i32");
}

#[test]
fn keyword_is_not_an_identifier() {
    assert!(parse("fn let() {\n    1\n}\n").is_err());
    // A keyword inside a longer word is an ordinary identifier.
    let program = parse("fn letter() {\n    1\n}\n").expect("parses");
    let Item::Function(f) = &program.0[0];
    assert_eq!(f.name.value.0, "letter");
}

#[test]
fn keyword_needs_a_word_break() {
    // `fnx` is not the keyword `fn` followed by a name.
    assert!(parse("fnx() {\n    1\n}\n").is_err());
}

#[test]
fn identifiers_continue_with_unicode_letters() {
    let program = parse("fn caf\u{e9}() {\n    1\n}\n").expect("parses");
    let Item::Function(f) = &program.0[0];
    assert_eq!(f.name.value.0, "caf\u{e9}");
    // "\u{e9}" takes two bytes.
    assert_eq!(f.name.span, Span { start: 3, len: 5 });
    // A symbol that is not alphanumeric ends the identifier.
    assert!(parse("fn caf\u{2022}() {\n    1\n}\n").is_err());
}

#[test]
fn numbers_read_back_their_value() {
    let stmts = first_function_body("fn f() {\n    -2147483648\n}\n");
    let Statement::Expr(s) = &stmts[0] else { panic!("an expression statement") };
    match &s.expr {
        Expr::Number(n) => {
            assert_eq!(n.value, i32::MIN);
            assert_eq!(n.span, Span { start: 13, len: 11 });
        }
        other => panic!("expected a number, got {other:?}"),
    }
}

#[test]
fn numbers_out_of_i32_range_do_not_parse() {
    assert!(parse("fn f() {\n    2147483648\n}\n").is_err());
}

#[test]
fn binary_operators_bind_by_level() {
    let stmts = first_function_body("fn f() {\n    1 + 2 == 3\n}\n");
    let Statement::Expr(s) = &stmts[0] else { panic!("an expression statement") };
    match &s.expr {
        Expr::Binary { kind, lhs, .. } => {
            assert_eq!(*kind, ExprBinary::Eq);
            assert!(matches!(**lhs, Expr::Binary { kind: ExprBinary::Add, .. }));
        }
        other => panic!("expected a comparison, got {other:?}"),
    }
}

#[test]
fn greater_and_less_signs_keep_their_kinds() {
    let stmts = first_function_body("fn f() {\n    1 > 2;\n    1 < 2\n}\n");
    let Statement::Expr(a) = &stmts[0] else { panic!("an expression statement") };
    let Statement::Expr(b) = &stmts[1] else { panic!("an expression statement") };
    assert!(matches!(a.expr, Expr::Binary { kind: ExprBinary::Lt, .. }));
    assert!(matches!(b.expr, Expr::Binary { kind: ExprBinary::Gt, .. }));
}

#[test]
fn a_line_break_ends_a_statement_without_the_following_whitespace() {
    // After a statement that ends at a line break, the next statement has to
    // start right there; an indented one does not parse.
    assert!(parse("fn f() {\n    1\n    2\n}\n").is_err());
    assert!(parse("fn f() {\n    1;\n    2\n}\n").is_ok());
}

#[test]
fn statements_of_each_kind() {
    let src = "fn f() {\n    let x = 1;\n    'top:\n    loop {\n        x = x + 1;\n    }\n    while x < 3 {\n        x = x - 1\n    }\n    g(x, 2)\n}\n";
    let stmts = first_function_body(src);
    assert_eq!(stmts.len(), 5);
    assert!(matches!(stmts[0], Statement::Let(_)));
    assert!(matches!(stmts[1], Statement::Label(_)));
    assert!(matches!(stmts[2], Statement::Loop(_)));
    assert!(matches!(stmts[3], Statement::While(_)));
    let Statement::Expr(call) = &stmts[4] else { panic!("an expression statement") };
    match &call.expr {
        Expr::Call(callee, args) => {
            assert!(matches!(**callee, Expr::Ident(_)));
            assert_eq!(args.len(), 2);
        }
        other => panic!("expected a call, got {other:?}"),
    }
    assert_eq!(stmts[0].has_semi(), Some(true));
    assert_eq!(stmts[4].has_semi(), Some(false));
    assert_eq!(stmts[2].has_semi(), None);
}

#[test]
fn spans_count_utf8_bytes() {
    // "\u{e9}" takes two bytes and "\u{1f600}" four.
    let src = "// \u{e9}\u{1f600}\nfn main() {\n    let x\u{e9} = 1;\n}\n";
    let program = parse(src).expect("the source parses");
    let Item::Function(f) = &program.0[0];
    assert_eq!(f.fn_.span, Span { start: 10, len: 2 });
    assert_eq!(f.name.span, Span { start: 13, len: 4 });
    let Statement::Let(l) = &f.body.stmts[0] else { panic!("a let statement") };
    assert_eq!(l.let_.span, Span { start: 26, len: 3 });
    assert_eq!(l.name.span, Span { start: 30, len: 3 });
    assert_eq!(f.body.close.span, Span { start: 39, len: 1 });
    assert_eq!(l.let_.span.location(src), LineCol { line: 3, column: 5, offset: 26 });
}

#[test]
fn parse_error_location_counts_utf8_bytes() {
    let err = parse("// \u{e9}\n}").err().expect("the source does not parse");
    assert_eq!(err.location, Span { start: 6, len: 0 });
}

#[test]
fn failure_keeps_the_furthest_position_and_sorts_what_was_expected() {
    let mut f = Failure::new();
    f.mark(3, "b");
    f.mark(3, "a");
    f.mark(1, "z");
    f.mark(3, "a");
    assert_eq!(f.pos(), 3);
    assert_eq!(f.sorted_expected(), vec!["a", "b"]);
    assert_eq!(message(&f.sorted_expected()), "expected a, b");
    f.mark(5, "c");
    assert_eq!(f.pos(), 5);
    assert_eq!(f.sorted_expected(), vec!["c"]);
}

#[test]
fn expected_texts_are_ordered_by_their_characters() {
    assert!(text_less("\"+\"", "Block"));
    assert!(text_less("Label", "Let"));
    assert!(text_less("\"<\"", "\"<=\""));
    assert!(!text_less("let", "let"));
    assert!(text_less("", "a"));
    assert!(!text_less("b", "a"));
}

#[test]
fn locate_reads_byte_offsets() {
    let chars: Vec<char> = "a\u{e9}\nb".chars().collect();
    assert_eq!(locate(&chars, 1), Some(LineCol { line: 1, column: 2, offset: 1 }));
    // Byte 2 lies inside the two bytes of "\u{e9}".
    assert_eq!(locate(&chars, 2), None);
    assert_eq!(locate(&chars, 4), Some(LineCol { line: 2, column: 1, offset: 4 }));
    // The end of the text has a location; past it there is none.
    assert_eq!(locate(&chars, 5), Some(LineCol { line: 2, column: 2, offset: 5 }));
    assert_eq!(locate(&chars, 6), None);
}
