//! Registers, immediates and offsets: the operands of instructions.

use vstd::prelude::*;

use crate::analysis::{spec_error, AnalyzeError, AnalyzeSummary, SpecSummary};
use crate::nodes::model::{expr_fits, expr_span, SpecExpr};
use crate::nodes::{span_of_expr, Expr};
use crate::parser::{IntoSpanned, Span};
use crate::text::{decimal_int, push_decimal_i64, push_str, text_eq};

verus! {

/// An immediate operand.
#[derive(Clone, Copy, Debug, PartialEq, Eq, Structural)]
pub struct Imm(pub i32);

/// An operand that should have been a number.
#[derive(Clone, Copy, Debug, PartialEq, Eq, Hash, Structural)]
pub struct AnalyzeImmInvalid {
    pub location: Span,
}

impl Imm {
    pub fn from_expr(value: &Expr, summary: &mut AnalyzeSummary) -> (r: Option<Imm>)
        requires
            expr_fits(value@),
        ensures
            (r, final(summary)@) == spec_imm_from_expr(value@, old(summary)@),
    {
        match value {
            Expr::Number(n) => Some(Imm(n.value)),
            _ => {
                summary.error(AnalyzeError::ImmInvalid(AnalyzeImmInvalid { location: value.span() }));
                None
            },
        }
    }
}

pub open spec fn spec_imm_from_expr(value: SpecExpr, s: SpecSummary) -> (Option<Imm>, SpecSummary) {
    match value {
        SpecExpr::Number(n) => (Some(Imm(n.value)), s),
        _ => (
            None,
            spec_error(s, AnalyzeError::ImmInvalid(AnalyzeImmInvalid { location: expr_span(value) })),
        ),
    }
}

/// The text of an immediate; `alternate` adds terminal colours.
pub open spec fn imm_text(i: Imm, alternate: bool) -> Seq<char> {
    if alternate {
        "\x1b[1;38;5;33m"@ + decimal_int(i.0 as int) + "\x1b[0m"@
    } else {
        decimal_int(i.0 as int)
    }
}

impl Imm {
    pub fn render(&self, out: &mut String, alternate: bool)
        ensures
            final(out)@ == old(out)@ + imm_text(*self, alternate),
    {
        if alternate {
            push_str(out, "\x1b[1;38;5;33m");
            push_decimal_i64(out, self.0 as i64);
            push_str(out, "\x1b[0m");
        } else {
            push_decimal_i64(out, self.0 as i64);
        }
    }
}

/// A branch or memory offset.
#[derive(Debug)]
pub enum Offset {
    Label(String),
    Imm(i32),
    Relative(i32, Register),
}

/// The model of an offset.
pub enum SpecOffset {
    Label(Seq<char>),
    Imm(i32),
    Relative(i32, Register),
}

impl View for Offset {
    type V = SpecOffset;

    open spec fn view(&self) -> SpecOffset {
        match self {
            Offset::Label(l) => SpecOffset::Label(l@),
            Offset::Imm(i) => SpecOffset::Imm(*i),
            Offset::Relative(i, r) => SpecOffset::Relative(*i, *r),
        }
    }
}

/// An operand that should have been a number or a label.
#[derive(Clone, Copy, Debug, PartialEq, Eq, Hash, Structural)]
pub struct AnalyzeOffsetInvalid {
    pub location: Span,
}

/// A label offset placed in the scope `prefix`; other offsets stay as they are.
pub open spec fn spec_offset_scoped(o: SpecOffset, prefix: Seq<char>) -> SpecOffset {
    match o {
        SpecOffset::Label(l) => SpecOffset::Label(prefix + l),
        _ => o,
    }
}

impl Offset {
    /// Prefixes a label with `rhs`, the scope it is moved into.
    pub fn add(self, rhs: String) -> (r: Offset)
        ensures
            r@ == spec_offset_scoped(self@, rhs@),
    {
        match self {
            Offset::Label(l) => {
                let mut s = rhs;
                push_str(&mut s, l.as_str());
                Offset::Label(s)
            },
            Offset::Imm(i) => Offset::Imm(i),
            Offset::Relative(i, reg) => Offset::Relative(i, reg),
        }
    }

    pub fn from_expr(value: &Expr, summary: &mut AnalyzeSummary) -> (r: Option<Offset>)
        requires
            expr_fits(value@),
        ensures
            (match r {
                Some(o) => Some(o@),
                None => None,
            }, final(summary)@) == spec_offset_from_expr(value@, old(summary)@),
    {
        match value {
            Expr::Number(n) => Some(Offset::Imm(n.value)),
            Expr::Label(l) => Some(Offset::Label(l.value.0.clone())),
            _ => {
                summary.error(
                    AnalyzeError::OffsetInvalid(AnalyzeOffsetInvalid { location: value.span() }),
                );
                None
            },
        }
    }

    pub fn clone_offset(&self) -> (r: Offset)
        ensures
            r@ == self@,
    {
        match self {
            Offset::Label(l) => Offset::Label(l.clone()),
            Offset::Imm(i) => Offset::Imm(*i),
            Offset::Relative(i, r) => Offset::Relative(*i, *r),
        }
    }
}

pub open spec fn spec_offset_from_expr(value: SpecExpr, s: SpecSummary) -> (Option<SpecOffset>, SpecSummary) {
    match value {
        SpecExpr::Number(n) => (Some(SpecOffset::Imm(n.value)), s),
        SpecExpr::Label(l) => (Some(SpecOffset::Label(l.value)), s),
        _ => (
            None,
            spec_error(s, AnalyzeError::OffsetInvalid(AnalyzeOffsetInvalid { location: expr_span(value) })),
        ),
    }
}

/// Whether the operand can be shown: a register number that the text shows
/// one higher must stay below the largest byte.
pub open spec fn offset_renders(o: SpecOffset) -> bool {
    match o {
        SpecOffset::Relative(_, r) => register_renders(r),
        _ => true,
    }
}

/// The text of an offset; `alternate` adds terminal colours.
pub open spec fn offset_text(o: SpecOffset, alternate: bool) -> Seq<char> {
    match o {
        SpecOffset::Label(l) => l,
        SpecOffset::Imm(i) => if alternate {
            "\x1b[1;38;5;93m"@ + decimal_int(i as int) + "\x1b[0m"@
        } else {
            decimal_int(i as int)
        },
        SpecOffset::Relative(i, r) => (if alternate {
            "\x1b[1;38;5;93m"@ + decimal_int(i as int) + "\x1b[0m"@
        } else {
            decimal_int(i as int)
        }) + "("@ + register_text(r, alternate) + ")"@,
    }
}

impl Offset {
    pub fn render(&self, out: &mut String, alternate: bool)
        requires
            offset_renders(self@),
        ensures
            final(out)@ == old(out)@ + offset_text(self@, alternate),
    {
        match self {
            Offset::Label(l) => push_str(out, l.as_str()),
            Offset::Imm(i) | Offset::Relative(i, ..) => {
                if alternate {
                    push_str(out, "\x1b[1;38;5;93m");
                    push_decimal_i64(out, *i as i64);
                    push_str(out, "\x1b[0m");
                } else {
                    push_decimal_i64(out, *i as i64);
                }
                if let Offset::Relative(_, reg) = self {
                    push_str(out, "(");
                    reg.render(out, alternate);
                    push_str(out, ")");
                }
                proof {
                    assert(out@ =~= old(out)@ + offset_text(self@, alternate));
                }
            },
        }
    }
}

#[derive(Clone, Copy, Debug, PartialEq, Eq, Structural)]
pub enum Register {
    /// x0 | zero
    Zero,
    /// x1 | ra | Return address
    Return,
    /// x2 | sp | Stack pointer
    Stack,
    /// x3 | gp | Global pointer
    Global,
    /// x4 | tp | Thread pointer
    Thread,
    /// x5 | t0 | Return address temporal
    TemporalReturn,
    /// x6-7 | t1-2 | Temporal
    /// x28-31 | t3-6 | Temporal
    Local(u8),
    /// x8 | s0 | fp
    Result,
    /// x9 | s1 | Saved register
    /// x18-27 | s2-11 | Saved registers
    Saved(u8),
    /// x10-17 | a0-7 | Function arguments
    Argument(u8),
}

/// A register name that names no register.
#[derive(Clone, Copy, Debug, PartialEq, Eq, Hash, Structural)]
pub struct AnalyzeRegNotFound {
    pub location: Span,
}

/// An operand that should have been a register name.
#[derive(Clone, Copy, Debug, PartialEq, Eq, Hash, Structural)]
pub struct AnalyzeRegInvalid {
    pub location: Span,
}

/// The register that a name denotes, by its number (`x6`) or its ABI name
/// (`t1`): the temporaries `t1`–`t2` are `x6`–`x7` and `t3`–`t6` are
/// `x28`–`x31`, the saved registers `s1` is `x9` and `s2`–`s11` are
/// `x18`–`x27`, and `tk` and `sk` are the temporary and saved register
/// numbered `k - 1`, which are written back as `tk` and `sk`.
pub open spec fn register_named(n: Seq<char>) -> Option<Register> {
    if n == "x0"@ || n == "zero"@ {
        Some(Register::Zero)
    } else if n == "x1"@ || n == "ra"@ {
        Some(Register::Return)
    } else if n == "x2"@ || n == "sp"@ {
        Some(Register::Stack)
    } else if n == "x3"@ || n == "gp"@ {
        Some(Register::Global)
    } else if n == "x4"@ || n == "tp"@ {
        Some(Register::Thread)
    } else if n == "x5"@ || n == "t0"@ {
        Some(Register::TemporalReturn)
    } else if n == "x8"@ || n == "s0"@ || n == "fp"@ {
        Some(Register::Result)
    } else if n == "x6"@ || n == "t1"@ {
        Some(Register::Local(0))
    } else if n == "x7"@ || n == "t2"@ {
        Some(Register::Local(1))
    } else if n == "x28"@ || n == "t3"@ {
        Some(Register::Local(2))
    } else if n == "x29"@ || n == "t4"@ {
        Some(Register::Local(3))
    } else if n == "x30"@ || n == "t5"@ {
        Some(Register::Local(4))
    } else if n == "x31"@ || n == "t6"@ {
        Some(Register::Local(5))
    } else if n == "x9"@ || n == "s1"@ {
        Some(Register::Saved(0))
    } else if n == "x18"@ || n == "s2"@ {
        Some(Register::Saved(1))
    } else if n == "x19"@ || n == "s3"@ {
        Some(Register::Saved(2))
    } else if n == "x20"@ || n == "s4"@ {
        Some(Register::Saved(3))
    } else if n == "x21"@ || n == "s5"@ {
        Some(Register::Saved(4))
    } else if n == "x22"@ || n == "s6"@ {
        Some(Register::Saved(5))
    } else if n == "x23"@ || n == "s7"@ {
        Some(Register::Saved(6))
    } else if n == "x24"@ || n == "s8"@ {
        Some(Register::Saved(7))
    } else if n == "x25"@ || n == "s9"@ {
        Some(Register::Saved(8))
    } else if n == "x26"@ || n == "s10"@ {
        Some(Register::Saved(9))
    } else if n == "x27"@ || n == "s11"@ {
        Some(Register::Saved(10))
    } else if n == "x10"@ || n == "a0"@ {
        Some(Register::Argument(0))
    } else if n == "x11"@ || n == "a1"@ {
        Some(Register::Argument(1))
    } else if n == "x12"@ || n == "a2"@ {
        Some(Register::Argument(2))
    } else if n == "x13"@ || n == "a3"@ {
        Some(Register::Argument(3))
    } else if n == "x14"@ || n == "a4"@ {
        Some(Register::Argument(4))
    } else if n == "x15"@ || n == "a5"@ {
        Some(Register::Argument(5))
    } else if n == "x16"@ || n == "a6"@ {
        Some(Register::Argument(6))
    } else if n == "x17"@ || n == "a7"@ {
        Some(Register::Argument(7))
    } else {
        None
    }
}

fn register_lookup(n: &str) -> (r: Option<Register>)
    ensures
        r == register_named(n@),
{
    if text_eq(n, "x0") || text_eq(n, "zero") {
        Some(Register::Zero)
    } else if text_eq(n, "x1") || text_eq(n, "ra") {
        Some(Register::Return)
    } else if text_eq(n, "x2") || text_eq(n, "sp") {
        Some(Register::Stack)
    } else if text_eq(n, "x3") || text_eq(n, "gp") {
        Some(Register::Global)
    } else if text_eq(n, "x4") || text_eq(n, "tp") {
        Some(Register::Thread)
    } else if text_eq(n, "x5") || text_eq(n, "t0") {
        Some(Register::TemporalReturn)
    } else if text_eq(n, "x8") || text_eq(n, "s0") || text_eq(n, "fp") {
        Some(Register::Result)
    } else if text_eq(n, "x6") || text_eq(n, "t1") {
        Some(Register::Local(0))
    } else if text_eq(n, "x7") || text_eq(n, "t2") {
        Some(Register::Local(1))
    } else if text_eq(n, "x28") || text_eq(n, "t3") {
        Some(Register::Local(2))
    } else if text_eq(n, "x29") || text_eq(n, "t4") {
        Some(Register::Local(3))
    } else if text_eq(n, "x30") || text_eq(n, "t5") {
        Some(Register::Local(4))
    } else if text_eq(n, "x31") || text_eq(n, "t6") {
        Some(Register::Local(5))
    } else if text_eq(n, "x9") || text_eq(n, "s1") {
        Some(Register::Saved(0))
    } else if text_eq(n, "x18") || text_eq(n, "s2") {
        Some(Register::Saved(1))
    } else if text_eq(n, "x19") || text_eq(n, "s3") {
        Some(Register::Saved(2))
    } else if text_eq(n, "x20") || text_eq(n, "s4") {
        Some(Register::Saved(3))
    } else if text_eq(n, "x21") || text_eq(n, "s5") {
        Some(Register::Saved(4))
    } else if text_eq(n, "x22") || text_eq(n, "s6") {
        Some(Register::Saved(5))
    } else if text_eq(n, "x23") || text_eq(n, "s7") {
        Some(Register::Saved(6))
    } else if text_eq(n, "x24") || text_eq(n, "s8") {
        Some(Register::Saved(7))
    } else if text_eq(n, "x25") || text_eq(n, "s9") {
        Some(Register::Saved(8))
    } else if text_eq(n, "x26") || text_eq(n, "s10") {
        Some(Register::Saved(9))
    } else if text_eq(n, "x27") || text_eq(n, "s11") {
        Some(Register::Saved(10))
    } else if text_eq(n, "x10") || text_eq(n, "a0") {
        Some(Register::Argument(0))
    } else if text_eq(n, "x11") || text_eq(n, "a1") {
        Some(Register::Argument(1))
    } else if text_eq(n, "x12") || text_eq(n, "a2") {
        Some(Register::Argument(2))
    } else if text_eq(n, "x13") || text_eq(n, "a3") {
        Some(Register::Argument(3))
    } else if text_eq(n, "x14") || text_eq(n, "a4") {
        Some(Register::Argument(4))
    } else if text_eq(n, "x15") || text_eq(n, "a5") {
        Some(Register::Argument(5))
    } else if text_eq(n, "x16") || text_eq(n, "a6") {
        Some(Register::Argument(6))
    } else if text_eq(n, "x17") || text_eq(n, "a7") {
        Some(Register::Argument(7))
    } else {
        None
    }
}

pub open spec fn spec_register_from_expr(value: SpecExpr, s: SpecSummary) -> (Option<Register>, SpecSummary) {
    match value {
        SpecExpr::Ident(i) => match register_named(i.value) {
            Some(r) => (Some(r), s),
            None => (
                None,
                spec_error(s, AnalyzeError::RegNotFound(AnalyzeRegNotFound { location: expr_span(value) })),
            ),
        },
        _ => (
            None,
            spec_error(s, AnalyzeError::RegInvalid(AnalyzeRegInvalid { location: expr_span(value) })),
        ),
    }
}

impl Register {
    pub fn from_expr(value: &Expr, summary: &mut AnalyzeSummary) -> (r: Option<Register>)
        requires
            expr_fits(value@),
        ensures
            (r, final(summary)@) == spec_register_from_expr(value@, old(summary)@),
    {
        match value {
            Expr::Ident(i) => match register_lookup(i.value.0.as_str()) {
                Some(r) => Some(r),
                None => {
                    summary.error(
                        AnalyzeError::RegNotFound(AnalyzeRegNotFound { location: value.span() }),
                    );
                    None
                },
            },
            _ => {
                summary.error(AnalyzeError::RegInvalid(AnalyzeRegInvalid { location: value.span() }));
                None
            },
        }
    }
}

/// Whether the register can be shown: the numbers shown one higher stay below the largest byte.
pub open spec fn register_renders(r: Register) -> bool {
    match r {
        Register::Local(n) => n < 255,
        Register::Saved(n) => n < 255,
        _ => true,
    }
}

/// The ABI name of a register; `alternate` adds terminal colours.
pub open spec fn register_text(r: Register, alternate: bool) -> Seq<char> {
    if alternate {
        (match r {
            Register::Zero => "\x1b[1;38;5;220mx0"@,
            Register::Return => "\x1b[1;38;5;111mra"@,
            Register::Stack => "\x1b[1;38;5;112msp"@,
            Register::Global => "\x1b[1;38;5;81mgp"@,
            Register::Thread => "\x1b[1;38;5;43mtp"@,
            Register::TemporalReturn => "\x1b[1;38;5;217mt0"@,
            Register::Local(n) => "\x1b[1;38;5;218mt"@ + decimal_int(n + 1),
            Register::Result => "\x1b[1;38;5;223ms0"@,
            Register::Saved(n) => "\x1b[1;38;5;224ms"@ + decimal_int(n + 1),
            Register::Argument(n) => "\x1b[1;38;5;214ma"@ + decimal_int(n as int),
        }) + "\x1b[0m"@
    } else {
        match r {
            Register::Zero => "x0"@,
            Register::Return => "ra"@,
            Register::Stack => "sp"@,
            Register::Global => "gp"@,
            Register::Thread => "tp"@,
            Register::TemporalReturn => "t0"@,
            Register::Local(n) => "t"@ + decimal_int(n + 1),
            Register::Result => "s0"@,
            Register::Saved(n) => "s"@ + decimal_int(n + 1),
            Register::Argument(n) => "a"@ + decimal_int(n as int),
        }
    }
}

impl Register {
    pub fn render(&self, out: &mut String, alternate: bool)
        requires
            register_renders(*self),
        ensures
            final(out)@ == old(out)@ + register_text(*self, alternate),
    {
        if alternate {
            match self {
                Register::Zero => push_str(out, "\x1b[1;38;5;220mx0"),
                Register::Return => push_str(out, "\x1b[1;38;5;111mra"),
                Register::Stack => push_str(out, "\x1b[1;38;5;112msp"),
                Register::Global => push_str(out, "\x1b[1;38;5;81mgp"),
                Register::Thread => push_str(out, "\x1b[1;38;5;43mtp"),
                Register::TemporalReturn => push_str(out, "\x1b[1;38;5;217mt0"),
                Register::Local(n) => {
                    push_str(out, "\x1b[1;38;5;218mt");
                    push_decimal_i64(out, (*n + 1) as i64);
                },
                Register::Result => push_str(out, "\x1b[1;38;5;223ms0"),
                Register::Saved(n) => {
                    push_str(out, "\x1b[1;38;5;224ms");
                    push_decimal_i64(out, (*n + 1) as i64);
                },
                Register::Argument(n) => {
                    push_str(out, "\x1b[1;38;5;214ma");
                    push_decimal_i64(out, *n as i64);
                },
            }
            push_str(out, "\x1b[0m");
            proof {
                assert(out@ =~= old(out)@ + register_text(*self, alternate));
            }
        } else {
            match self {
                Register::Zero => push_str(out, "x0"),
                Register::Return => push_str(out, "ra"),
                Register::Stack => push_str(out, "sp"),
                Register::Global => push_str(out, "gp"),
                Register::Thread => push_str(out, "tp"),
                Register::TemporalReturn => push_str(out, "t0"),
                Register::Local(n) => {
                    push_str(out, "t");
                    push_decimal_i64(out, (*n + 1) as i64);
                },
                Register::Result => push_str(out, "s0"),
                Register::Saved(n) => {
                    push_str(out, "s");
                    push_decimal_i64(out, (*n + 1) as i64);
                },
                Register::Argument(n) => {
                    push_str(out, "a");
                    push_decimal_i64(out, *n as i64);
                },
            }
            proof {
                assert(out@ =~= old(out)@ + register_text(*self, alternate));
            }
        }
    }
}

} // verus!

verus! {

/// The number `k` of the register written `xk`, as the RISC-V calling
/// convention lays them out: `t1`–`t2` are `x6`–`x7`, `t3`–`t6` are
/// `x28`–`x31`, `s0` is `x8`, `s1` is `x9`, `s2`–`s11` are `x18`–`x27`, and
/// `a0`–`a7` are `x10`–`x17`.
pub open spec fn register_number(r: Register) -> int {
    match r {
        Register::Zero => 0,
        Register::Return => 1,
        Register::Stack => 2,
        Register::Global => 3,
        Register::Thread => 4,
        Register::TemporalReturn => 5,
        Register::Local(n) => if n < 2 {
            6 + n
        } else {
            26 + n
        },
        Register::Result => 8,
        Register::Saved(n) => if n == 0 {
            9
        } else {
            17 + n
        },
        Register::Argument(n) => 10 + n,
    }
}

/// The decimal text of a number below a hundred.
proof fn lemma_decimal_small(k: nat)
    requires
        k < 100,
    ensures
        k < 10 ==> decimal_int(k as int) == seq![((48 + k) as u32) as char],
        k >= 10 ==> decimal_int(k as int) == seq![
            ((48 + k / 10) as u32) as char,
            ((48 + k % 10) as u32) as char,
        ],
{
    if k >= 10 {
        assert(crate::text::decimal_nat(k / 10) == seq![((48 + k / 10) as u32) as char]);
        assert(crate::text::decimal_nat(k) =~= seq![
            ((48 + k / 10) as u32) as char,
            ((48 + k % 10) as u32) as char,
        ]);
    }
}

/// Every name that denotes a register is written back as that register, or is
/// its number `xk`, or is one of the aliases `zero` and `fp`: a name is read
/// as the register that the calling convention gives it, so `sp` and `x2` are
/// the stack pointer.
pub proof fn lemma_register_named_written_back(n: Seq<char>)
    ensures
        register_named(n) matches Some(r) ==> (n == register_text(r, false) || n == "x"@ + decimal_int(
            register_number(r),
        ) || (r == Register::Zero && n == "zero"@) || (r == Register::Result && n == "fp"@)),
{
    reveal_strlit("x");
    reveal_strlit("t");
    reveal_strlit("s");
    reveal_strlit("a");
    if n == "x0"@ || n == "zero"@ {
        reveal_strlit("x0");
        lemma_decimal_small(0);
        assert("x0"@ =~= "x"@ + decimal_int(0));
    } else if n == "x1"@ || n == "ra"@ {
        reveal_strlit("x1");
        lemma_decimal_small(1);
        assert("x1"@ =~= "x"@ + decimal_int(1));
    } else if n == "x2"@ || n == "sp"@ {
        reveal_strlit("x2");
        lemma_decimal_small(2);
        assert("x2"@ =~= "x"@ + decimal_int(2));
    } else if n == "x3"@ || n == "gp"@ {
        reveal_strlit("x3");
        lemma_decimal_small(3);
        assert("x3"@ =~= "x"@ + decimal_int(3));
    } else if n == "x4"@ || n == "tp"@ {
        reveal_strlit("x4");
        lemma_decimal_small(4);
        assert("x4"@ =~= "x"@ + decimal_int(4));
    } else if n == "x5"@ || n == "t0"@ {
        reveal_strlit("x5");
        lemma_decimal_small(5);
        assert("x5"@ =~= "x"@ + decimal_int(5));
    } else if n == "x8"@ || n == "s0"@ || n == "fp"@ {
        reveal_strlit("x8");
        lemma_decimal_small(8);
        assert("x8"@ =~= "x"@ + decimal_int(8));
    } else if n == "x6"@ || n == "t1"@ {
        reveal_strlit("x6");
        lemma_decimal_small(6);
        assert("x6"@ =~= "x"@ + decimal_int(6));
        reveal_strlit("t1");
        lemma_decimal_small(1);
        assert("t1"@ =~= "t"@ + decimal_int(1));
    } else if n == "x7"@ || n == "t2"@ {
        reveal_strlit("x7");
        lemma_decimal_small(7);
        assert("x7"@ =~= "x"@ + decimal_int(7));
        reveal_strlit("t2");
        lemma_decimal_small(2);
        assert("t2"@ =~= "t"@ + decimal_int(2));
    } else if n == "x28"@ || n == "t3"@ {
        reveal_strlit("x28");
        lemma_decimal_small(28);
        assert("x28"@ =~= "x"@ + decimal_int(28));
        reveal_strlit("t3");
        lemma_decimal_small(3);
        assert("t3"@ =~= "t"@ + decimal_int(3));
    } else if n == "x29"@ || n == "t4"@ {
        reveal_strlit("x29");
        lemma_decimal_small(29);
        assert("x29"@ =~= "x"@ + decimal_int(29));
        reveal_strlit("t4");
        lemma_decimal_small(4);
        assert("t4"@ =~= "t"@ + decimal_int(4));
    } else if n == "x30"@ || n == "t5"@ {
        reveal_strlit("x30");
        lemma_decimal_small(30);
        assert("x30"@ =~= "x"@ + decimal_int(30));
        reveal_strlit("t5");
        lemma_decimal_small(5);
        assert("t5"@ =~= "t"@ + decimal_int(5));
    } else if n == "x31"@ || n == "t6"@ {
        reveal_strlit("x31");
        lemma_decimal_small(31);
        assert("x31"@ =~= "x"@ + decimal_int(31));
        reveal_strlit("t6");
        lemma_decimal_small(6);
        assert("t6"@ =~= "t"@ + decimal_int(6));
    } else if n == "x9"@ || n == "s1"@ {
        reveal_strlit("x9");
        lemma_decimal_small(9);
        assert("x9"@ =~= "x"@ + decimal_int(9));
        reveal_strlit("s1");
        lemma_decimal_small(1);
        assert("s1"@ =~= "s"@ + decimal_int(1));
    } else if n == "x18"@ || n == "s2"@ {
        reveal_strlit("x18");
        lemma_decimal_small(18);
        assert("x18"@ =~= "x"@ + decimal_int(18));
        reveal_strlit("s2");
        lemma_decimal_small(2);
        assert("s2"@ =~= "s"@ + decimal_int(2));
    } else if n == "x19"@ || n == "s3"@ {
        reveal_strlit("x19");
        lemma_decimal_small(19);
        assert("x19"@ =~= "x"@ + decimal_int(19));
        reveal_strlit("s3");
        lemma_decimal_small(3);
        assert("s3"@ =~= "s"@ + decimal_int(3));
    } else if n == "x20"@ || n == "s4"@ {
        reveal_strlit("x20");
        lemma_decimal_small(20);
        assert("x20"@ =~= "x"@ + decimal_int(20));
        reveal_strlit("s4");
        lemma_decimal_small(4);
        assert("s4"@ =~= "s"@ + decimal_int(4));
    } else if n == "x21"@ || n == "s5"@ {
        reveal_strlit("x21");
        lemma_decimal_small(21);
        assert("x21"@ =~= "x"@ + decimal_int(21));
        reveal_strlit("s5");
        lemma_decimal_small(5);
        assert("s5"@ =~= "s"@ + decimal_int(5));
    } else if n == "x22"@ || n == "s6"@ {
        reveal_strlit("x22");
        lemma_decimal_small(22);
        assert("x22"@ =~= "x"@ + decimal_int(22));
        reveal_strlit("s6");
        lemma_decimal_small(6);
        assert("s6"@ =~= "s"@ + decimal_int(6));
    } else if n == "x23"@ || n == "s7"@ {
        reveal_strlit("x23");
        lemma_decimal_small(23);
        assert("x23"@ =~= "x"@ + decimal_int(23));
        reveal_strlit("s7");
        lemma_decimal_small(7);
        assert("s7"@ =~= "s"@ + decimal_int(7));
    } else if n == "x24"@ || n == "s8"@ {
        reveal_strlit("x24");
        lemma_decimal_small(24);
        assert("x24"@ =~= "x"@ + decimal_int(24));
        reveal_strlit("s8");
        lemma_decimal_small(8);
        assert("s8"@ =~= "s"@ + decimal_int(8));
    } else if n == "x25"@ || n == "s9"@ {
        reveal_strlit("x25");
        lemma_decimal_small(25);
        assert("x25"@ =~= "x"@ + decimal_int(25));
        reveal_strlit("s9");
        lemma_decimal_small(9);
        assert("s9"@ =~= "s"@ + decimal_int(9));
    } else if n == "x26"@ || n == "s10"@ {
        reveal_strlit("x26");
        lemma_decimal_small(26);
        assert("x26"@ =~= "x"@ + decimal_int(26));
        reveal_strlit("s10");
        lemma_decimal_small(10);
        assert("s10"@ =~= "s"@ + decimal_int(10));
    } else if n == "x27"@ || n == "s11"@ {
        reveal_strlit("x27");
        lemma_decimal_small(27);
        assert("x27"@ =~= "x"@ + decimal_int(27));
        reveal_strlit("s11");
        lemma_decimal_small(11);
        assert("s11"@ =~= "s"@ + decimal_int(11));
    } else if n == "x10"@ || n == "a0"@ {
        reveal_strlit("x10");
        lemma_decimal_small(10);
        assert("x10"@ =~= "x"@ + decimal_int(10));
        reveal_strlit("a0");
        lemma_decimal_small(0);
        assert("a0"@ =~= "a"@ + decimal_int(0));
    } else if n == "x11"@ || n == "a1"@ {
        reveal_strlit("x11");
        lemma_decimal_small(11);
        assert("x11"@ =~= "x"@ + decimal_int(11));
        reveal_strlit("a1");
        lemma_decimal_small(1);
        assert("a1"@ =~= "a"@ + decimal_int(1));
    } else if n == "x12"@ || n == "a2"@ {
        reveal_strlit("x12");
        lemma_decimal_small(12);
        assert("x12"@ =~= "x"@ + decimal_int(12));
        reveal_strlit("a2");
        lemma_decimal_small(2);
        assert("a2"@ =~= "a"@ + decimal_int(2));
    } else if n == "x13"@ || n == "a3"@ {
        reveal_strlit("x13");
        lemma_decimal_small(13);
        assert("x13"@ =~= "x"@ + decimal_int(13));
        reveal_strlit("a3");
        lemma_decimal_small(3);
        assert("a3"@ =~= "a"@ + decimal_int(3));
    } else if n == "x14"@ || n == "a4"@ {
        reveal_strlit("x14");
        lemma_decimal_small(14);
        assert("x14"@ =~= "x"@ + decimal_int(14));
        reveal_strlit("a4");
        lemma_decimal_small(4);
        assert("a4"@ =~= "a"@ + decimal_int(4));
    } else if n == "x15"@ || n == "a5"@ {
        reveal_strlit("x15");
        lemma_decimal_small(15);
        assert("x15"@ =~= "x"@ + decimal_int(15));
        reveal_strlit("a5");
        lemma_decimal_small(5);
        assert("a5"@ =~= "a"@ + decimal_int(5));
    } else if n == "x16"@ || n == "a6"@ {
        reveal_strlit("x16");
        lemma_decimal_small(16);
        assert("x16"@ =~= "x"@ + decimal_int(16));
        reveal_strlit("a6");
        lemma_decimal_small(6);
        assert("a6"@ =~= "a"@ + decimal_int(6));
    } else if n == "x17"@ || n == "a7"@ {
        reveal_strlit("x17");
        lemma_decimal_small(17);
        assert("x17"@ =~= "x"@ + decimal_int(17));
        reveal_strlit("a7");
        lemma_decimal_small(7);
        assert("a7"@ =~= "a"@ + decimal_int(7));
    }
}

} // verus!
