use amrisk::analysis::{AnalyzeError, AnalyzeSummary, ErrorMarker};
use amrisk::nodes::{
    AnalyzeExpectedCondition, AnalyzeFunctionExistsError, AnalyzeFunctionMismatchArgsCountError,
    AnalyzeFunctionNotExistsError, AnalyzeMissingSemicolon, AnalyzeVariableNotExistsError,
    ConditionStatement, Expr, Item, Program, Statement,
};
use amrisk::parser::{parse, Span};

fn analyzed(src: &str) -> (Program, Vec<AnalyzeError>) {
    let mut program = parse(src).expect("the source parses");
    let summary = program.try_analyzed().expect("the analysis fits");
    (program, summary.into_errors())
}

#[test]
fn clean_program_has_no_diagnostics() {
    let (_, errors) = analyzed("fn main(a: i32) {\n    let x = a;\n    x = x + 1\n}\n");
    assert!(errors.is_empty());
}

#[test]
fn unknown_variable_is_reported() {
    let (_, errors) = analyzed("fn main() {\n    y\n}\n");
    assert_eq!(
        errors,
        vec![AnalyzeError::VariableNotExistsError(AnalyzeVariableNotExistsError {
            location: Span { start: 16, len: 1 }
        })]
    );
}

#[test]
fn unknown_function_is_reported() {
    let (_, errors) = analyzed("fn main() {\n    g()\n}\n");
    assert_eq!(
        errors,
        vec![AnalyzeError::FunctionNotExistsError(AnalyzeFunctionNotExistsError {
            location: Span { start: 16, len: 1 }
        })]
    );
}

#[test]
fn function_declared_after_its_call_is_found() {
    let (_, errors) = analyzed("fn main() {\n    g()\n}\nfn g() {\n    1\n}\n");
    assert!(errors.is_empty());
}

#[test]
fn duplicate_function_is_reported() {
    let (_, errors) = analyzed("fn a() {\n    1\n}\nfn a() {\n    2\n}\n");
    assert_eq!(
        errors,
        vec![AnalyzeError::FunctionExistsError(AnalyzeFunctionExistsError {
            location: Span { start: 20, len: 1 },
            original: Span { start: 3, len: 1 },
        })]
    );
}

#[test]
fn wrong_number_of_arguments_is_reported() {
    let src = "fn g(a: i32) {\n    a\n}\nfn main() {\n    g(1, 2)\n}\n";
    let (_, errors) = analyzed(src);
    assert_eq!(
        errors,
        vec![AnalyzeError::FunctionMismatchArgsCountError(AnalyzeFunctionMismatchArgsCountError {
            location: Span { start: 41, len: 4 },
            provided: 2,
            original: Span { start: 4, len: 8 },
            expected: 1,
        })]
    );
}

#[test]
fn missing_semicolon_is_reported_at_the_end_of_the_statement() {
    let (_, errors) = analyzed("fn main() {\n    let x = 1\n    x\n}\n");
    assert_eq!(
        errors,
        vec![AnalyzeError::MissingSemicolon(AnalyzeMissingSemicolon {
            location: Span { start: 25, len: 0 }
        })]
    );
}

#[test]
fn while_condition_must_be_a_comparison() {
    let (_, errors) = analyzed("fn main() {\n    while 1 {\n        2\n    }\n}\n");
    assert_eq!(
        errors,
        vec![AnalyzeError::ExpectedCondition(AnalyzeExpectedCondition {
            location: Span { start: 22, len: 1 },
            statement: ConditionStatement::While,
        })]
    );
}

#[test]
fn sum_of_numbers_is_folded() {
    let (program, errors) = analyzed("fn main() {\n    let x = 1 + 2;\n    x\n}\n");
    assert!(errors.is_empty());
    let Item::Function(f) = &program.0[0];
    let Statement::Let(l) = &f.body.stmts[0] else { panic!("a let statement") };
    match &l.expr {
        Expr::Number(n) => {
            assert_eq!(n.value, 3);
            assert_eq!(n.span, Span { start: 24, len: 5 });
        }
        other => panic!("expected a folded number, got {other:?}"),
    }
}

#[test]
fn difference_of_numbers_is_folded() {
    let (program, _) = analyzed("fn main() {\n    let x = 2 - 5;\n    x\n}\n");
    let Item::Function(f) = &program.0[0];
    let Statement::Let(l) = &f.body.stmts[0] else { panic!("a let statement") };
    assert!(matches!(&l.expr, Expr::Number(n) if n.value == -3));
}

#[test]
fn comparison_of_numbers_is_not_folded() {
    let (program, _) = analyzed("fn main() {\n    let x = 2 == 5;\n    x\n}\n");
    let Item::Function(f) = &program.0[0];
    let Statement::Let(l) = &f.body.stmts[0] else { panic!("a let statement") };
    assert!(matches!(&l.expr, Expr::Binary { .. }));
}

#[test]
fn summary_keeps_each_diagnostic_once_in_order() {
    let mut summary = AnalyzeSummary::new();
    assert!(!summary.has_errors());
    let first = AnalyzeError::MissingSemicolon(AnalyzeMissingSemicolon { location: Span::new(1, 0) });
    let second = AnalyzeError::MissingSemicolon(AnalyzeMissingSemicolon { location: Span::new(5, 0) });
    summary.error(first);
    summary.error(second);
    summary.error(first);
    assert!(summary.has_errors());
    assert_eq!(summary.into_errors(), vec![first, second]);
}

#[test]
fn withdrawing_marked_diagnostics_counts_and_keeps_the_others() {
    let mut summary = AnalyzeSummary::new();
    let missing = AnalyzeError::FunctionNotExistsError(AnalyzeFunctionNotExistsError {
        location: Span::new(3, 1),
    });
    let other = AnalyzeError::MissingSemicolon(AnalyzeMissingSemicolon { location: Span::new(9, 0) });
    summary.error_marked(missing, ErrorMarker::FunctionNotExists);
    summary.error(other);
    assert_eq!(summary.remove_marked(ErrorMarker::FunctionNotExists), 1);
    assert_eq!(summary.remove_marked(ErrorMarker::FunctionNotExists), 0);
    assert_eq!(summary.into_errors(), vec![other]);
}
