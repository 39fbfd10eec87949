use amrisk::generator::{GenerateBuf, Imm, Instruction, Offset, Register};
use amrisk::analysis::AnalyzeSummary;
use amrisk::nodes::{Expr, ExprDeref, Ident};
use amrisk::parser::{parse, Span};

fn generated_text(src: &str) -> String {
    let mut program = parse(src).expect("the source parses");
    let mut summary = program.try_analyzed().expect("the analysis fits");
    assert!(!summary.has_errors());
    let mut stores = summary.clear_stores();
    stores.clear_local();
    let buf = program.try_generated(stores).expect("the generator handles the program");
    assert!(buf.renders());
    buf.render(false)
}

#[test]
fn function_with_a_variable_renders_exactly() {
    let text = generated_text("fn main() {\n    let x = 7;\n    x\n}\n");
    assert_eq!(
        text,
        "main:\n  addi sp, sp, -8\n  sw ra, 4, sp\n  li t1, 7\n  sw t1, 0, sp\n  lw s0, 0, sp\n  lw ra, 4, sp\n  addi sp, sp, 8\n  ret\n"
    );
}

#[test]
fn stack_offsets_follow_the_widths() {
    let mut buf = GenerateBuf::default();
    assert_eq!(buf.stack_size(), 0);
    assert_eq!(buf.push_stack("a".to_string(), ExprDeref::Word), 0);
    assert_eq!(buf.push_stack("b".to_string(), ExprDeref::Byte), 4);
    assert_eq!(buf.push_stack("c".to_string(), ExprDeref::Half), 5);
    assert_eq!(buf.stack_size(), 7);
    assert_eq!(buf.get_stack(&"b".to_string()), Some((4, ExprDeref::Byte)));
    assert_eq!(buf.get_stack(&"d".to_string()), None);
}

#[test]
fn stack_lookup_finds_the_latest_variable_of_a_name() {
    let mut buf = GenerateBuf::default();
    buf.push_stack("x".to_string(), ExprDeref::Word);
    let second = buf.push_stack("x".to_string(), ExprDeref::Half);
    assert_eq!(buf.get_stack(&"x".to_string()), Some((second, ExprDeref::Half)));
}

#[test]
fn previous_result_undoes_next_result() {
    let mut buf = GenerateBuf::default();
    assert_eq!(buf.current_result(), Register::Local(0));
    assert_eq!(buf.next_result_peek(), Register::Local(1));
    assert_eq!(buf.next_result(), Register::Local(1));
    assert_eq!(buf.prev_result(), Register::Local(1));
    assert_eq!(buf.current_result(), Register::Local(0));
}

#[test]
fn labels_and_instructions_are_counted() {
    let mut buf = GenerateBuf::default();
    assert_eq!(buf.pointer(), 0);
    buf.label_here("start".to_string());
    buf.push(Instruction::Li(Register::Local(0), Imm(1)));
    buf.push(Instruction::Ret());
    assert_eq!(buf.pointer(), 2);
    assert_eq!(buf.render(false), "start:\n  li t1, 1\n  ret\n");
}

#[test]
fn extending_moves_labels_and_scopes_them() {
    let mut buf = GenerateBuf::default();
    buf.push(Instruction::Ret());
    let mut child = GenerateBuf::default();
    child.label_here("loop".to_string());
    child.push(Instruction::J(Offset::Label("loop".to_string())));
    buf.extend_on(child, ".f.".to_string());
    assert_eq!(buf.pointer(), 2);
    assert_eq!(buf.render(false), "  ret\n.f.loop:\n  j .f.loop\n");
}

#[test]
fn registers_are_written_by_their_names() {
    let mut out = String::new();
    Register::Local(0).render(&mut out, false);
    out.push(' ');
    Register::Saved(2).render(&mut out, false);
    out.push(' ');
    Register::Argument(3).render(&mut out, false);
    out.push(' ');
    Register::Stack.render(&mut out, false);
    assert_eq!(out, "t1 s3 a3 sp");
}

#[test]
fn alternate_form_adds_colours() {
    let mut out = String::new();
    Register::Return.render(&mut out, true);
    assert_eq!(out, "\x1b[1;38;5;111mra\x1b[0m");
    let mut out = String::new();
    Imm(-5).render(&mut out, true);
    assert_eq!(out, "\x1b[1;38;5;33m-5\x1b[0m");
}

#[test]
fn offsets_are_written_with_their_base() {
    let mut out = String::new();
    Offset::Relative(-12, Register::Stack).render(&mut out, false);
    assert_eq!(out, "-12(sp)");
}

#[test]
fn last_numbered_register_has_no_name() {
    let mut buf = GenerateBuf::default();
    buf.push(Instruction::Li(Register::Local(255), Imm(0)));
    assert!(!buf.renders());
    let mut ok = GenerateBuf::default();
    ok.push(Instruction::Li(Register::Local(254), Imm(0)));
    assert!(ok.renders());
}

#[test]
fn call_passes_arguments_in_argument_registers() {
    let text = generated_text("fn g(a: i32) {\n    a\n}\nfn main() {\n    g(5)\n}\n");
    assert_eq!(
        text,
        "g:\n  addi sp, sp, -8\n  sw ra, 4, sp\n  sw a0, 0, sp\n  lw s0, 0, sp\n  lw ra, 4, sp\n  addi sp, sp, 8\n  ret\n\
         main:\n  addi sp, sp, -4\n  sw ra, 0, sp\n  li a0, 5\n  call .main.g\n  lw ra, 0, sp\n  addi sp, sp, 4\n  ret\n"
    );
}

#[test]
fn difference_of_variables_uses_two_temporaries() {
    let text = generated_text("fn f(a: i32, b: i32) {\n    let c = a - b;\n    c + 1\n}\n");
    assert_eq!(
        text,
        "f:\n  addi sp, sp, -16\n  sw ra, 12, sp\n  sw a0, 0, sp\n  sw a1, 4, sp\n  lw t1, 0, sp\n  lw t2, 4, sp\n  sub t1, t1, t2\n  sw t1, 8, sp\n  lw s0, 8, sp\n  addi s0, s0, 1\n  lw ra, 12, sp\n  addi sp, sp, 16\n  ret\n"
    );
}

fn register_of(name: &str) -> (Option<Register>, bool) {
    let e = Expr::Ident(Span::new(0, name.len()).of(Ident(name.to_string())));
    let mut summary = AnalyzeSummary::new();
    let r = Register::from_expr(&e, &mut summary);
    (r, summary.has_errors())
}

fn written(r: Register) -> String {
    let mut out = String::new();
    r.render(&mut out, false);
    out
}

#[test]
fn temporaries_by_number_and_by_name() {
    let pairs = [("t1", "x6"), ("t2", "x7"), ("t3", "x28"), ("t4", "x29"), ("t5", "x30"), ("t6", "x31")];
    for (k, (t, x)) in pairs.iter().enumerate() {
        let expected = Register::Local(k as u8);
        assert_eq!(register_of(t), (Some(expected), false));
        assert_eq!(register_of(x), (Some(expected), false));
        assert_eq!(written(expected), *t);
    }
    assert_eq!(register_of("t0"), (Some(Register::TemporalReturn), false));
    assert_eq!(register_of("x5"), (Some(Register::TemporalReturn), false));
}

#[test]
fn saved_registers_by_number_and_by_name() {
    for k in 1..=11u8 {
        let s = format!("s{k}");
        let x = if k == 1 { "x9".to_string() } else { format!("x{}", k + 16) };
        let expected = Register::Saved(k - 1);
        assert_eq!(register_of(&s), (Some(expected), false));
        assert_eq!(register_of(&x), (Some(expected), false));
        assert_eq!(written(expected), s);
    }
    assert_eq!(register_of("s0"), (Some(Register::Result), false));
    assert_eq!(register_of("fp"), (Some(Register::Result), false));
}

#[test]
fn argument_registers_and_unknown_names() {
    for k in 0..8u8 {
        let a = format!("a{k}");
        let x = format!("x{}", k + 10);
        assert_eq!(register_of(&a), (Some(Register::Argument(k)), false));
        assert_eq!(register_of(&x), (Some(Register::Argument(k)), false));
    }
    assert_eq!(register_of("t7"), (None, true));
    assert_eq!(register_of("s12"), (None, true));
    assert_eq!(register_of("x32"), (None, true));
}
