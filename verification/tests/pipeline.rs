use amrisk::parser::parse;

const SAMPLE: &str = "fn main() {\n    let x = 1;\n    x = x + 2\n}\n";

#[test]
fn sample_parses_into_one_function() {
    let program = parse(SAMPLE).expect("the sample parses");
    assert_eq!(program.0.len(), 1);
}

#[test]
fn sample_analyzes_and_generates() {
    let mut program = parse(SAMPLE).expect("the sample parses");
    let mut summary = program.try_analyzed().expect("analysis fits");
    assert!(!summary.has_errors());
    let mut stores = summary.clear_stores();
    stores.clear_local();
    let buf = program.try_generated(stores).expect("generation fits");
    assert!(buf.renders());
    let text = buf.render(false);
    assert!(text.contains("main:"));
}
