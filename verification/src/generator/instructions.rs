//! The instruction set: base instructions and pseudo-instructions, with the
//! operands each one takes.

use vstd::prelude::*;

use crate::analysis::{spec_error, AnalyzeError, AnalyzeSummary, SpecSummary};
use crate::generator::registers::{
    imm_text, offset_text, offset_renders, register_renders, register_text,
    spec_imm_from_expr, spec_offset_from_expr, spec_offset_scoped, spec_register_from_expr,
    Imm, Offset, Register, SpecOffset,
};
use crate::generator::AnalyzeInsNotExist;
use crate::nodes::model::{expr_fits, SpecExpr};
use crate::nodes::Expr;
use crate::parser::Spanned;
use crate::text::{push_char, push_str, text_eq};
use vstd::string::StrSliceExecFns;

verus! {

/// An instruction whose label operands are of type `O`.
#[derive(Debug)]
pub enum InstructionOf<O> {
    Lui(Register, Imm),
    Auipc(Register, Imm),
    Beq(Register, Register, O),
    Bne(Register, Register, O),
    Blt(Register, Register, O),
    Bge(Register, Register, O),
    Bltu(Register, Register, O),
    Bgeu(Register, Register, O),
    Lb(Register, O, Register),
    Lh(Register, O, Register),
    Lw(Register, O, Register),
    Lbu(Register, Register, O),
    Lhu(Register, Register, O),
    Addi(Register, Register, Imm),
    Slti(Register, Register, Imm),
    Sltiu(Register, Register, Imm),
    Xori(Register, Register, Imm),
    Ori(Register, Register, Imm),
    Andi(Register, Register, Imm),
    Slli(Register, Register, Imm),
    Srli(Register, Register, Imm),
    Srai(Register, Register, Imm),
    Add(Register, Register, Register),
    Sub(Register, Register, Register),
    Sll(Register, Register, Register),
    Slt(Register, Register, Register),
    Sltu(Register, Register, Register),
    Xor(Register, Register, Register),
    Srl(Register, Register, Register),
    Sra(Register, Register, Register),
    Or(Register, Register, Register),
    And(Register, Register, Register),
    Fence(),
    FenceI(),
    Ecall(),
    Ebreak(),
    Csrrw(),
    Csrrs(),
    Csrrc(),
    Csrrwi(),
    Csrrsi(),
    Csrrci(),
    Nop(),
    Neg(Register, Register),
    Negw(Register, Register),
    Snez(Register, Register),
    Sltz(Register, Register),
    Sgtz(Register, Register),
    Beqz(Register, O),
    Bnez(Register, O),
    Blez(Register, O),
    Bgez(Register, O),
    Bltz(Register, O),
    Bgtz(Register, O),
    J(O),
    Jr(Register),
    Ret(),
    Tail(O),
    Rdinstret(),
    RdinstretH(),
    Rdcycle(),
    RdcycleH(),
    Rdtime(),
    RdtimeH(),
    Csrr(Register, Register),
    Csrw(Register, Register),
    Csrs(Register, Register),
    Csrc(Register, Register),
    Csrwi(Register, Imm),
    Csrsi(Register, Imm),
    Csrci(Register, Imm),
    Frcsr(Register),
    Fscsr(Register),
    Frrm(Register),
    Fsrm(Register),
    Frflags(Register),
    Fsflags(Register),
    Lla(Register, O),
    La(Register, O),
    Ld(Register, O),
    Sb(Register, O, Register),
    Sh(Register, O, Register),
    Sw(Register, O, Register),
    Sd(Register, O, Register),
    Flw(Register, O, Register),
    Fld(Register, O, Register),
    Fsw(Register, O, Register),
    Fsd(Register, O, Register),
    Li(Register, Imm),
    Mv(Register, Register),
    Not(Register, Register),
    SextW(Register, Register),
    Seqz(Register, Register),
    FmvS(Register, Register),
    FabsS(Register, Register),
    FnegS(Register, Register),
    FmvD(Register, Register),
    FabsD(Register, Register),
    FnegD(Register, Register),
    Bgt(Register, Register, O),
    Ble(Register, Register, O),
    Bgtu(Register, Register, O),
    Bleu(Register, Register, O),
    Jal(O),
    Jalr(Register),
    Call(O),
    FenceAll(),
}

/// An instruction of the generated program.
pub type Instruction = InstructionOf<Offset>;

/// The model of an instruction.
pub type SpecInstruction = InstructionOf<SpecOffset>;

impl View for InstructionOf<Offset> {
    type V = SpecInstruction;

    open spec fn view(&self) -> SpecInstruction {
        match self {
            InstructionOf::Lui(a0, a1) => InstructionOf::Lui(*a0, *a1),
            InstructionOf::Auipc(a0, a1) => InstructionOf::Auipc(*a0, *a1),
            InstructionOf::Beq(a0, a1, a2) => InstructionOf::Beq(*a0, *a1, a2@),
            InstructionOf::Bne(a0, a1, a2) => InstructionOf::Bne(*a0, *a1, a2@),
            InstructionOf::Blt(a0, a1, a2) => InstructionOf::Blt(*a0, *a1, a2@),
            InstructionOf::Bge(a0, a1, a2) => InstructionOf::Bge(*a0, *a1, a2@),
            InstructionOf::Bltu(a0, a1, a2) => InstructionOf::Bltu(*a0, *a1, a2@),
            InstructionOf::Bgeu(a0, a1, a2) => InstructionOf::Bgeu(*a0, *a1, a2@),
            InstructionOf::Lb(a0, a1, a2) => InstructionOf::Lb(*a0, a1@, *a2),
            InstructionOf::Lh(a0, a1, a2) => InstructionOf::Lh(*a0, a1@, *a2),
            InstructionOf::Lw(a0, a1, a2) => InstructionOf::Lw(*a0, a1@, *a2),
            InstructionOf::Lbu(a0, a1, a2) => InstructionOf::Lbu(*a0, *a1, a2@),
            InstructionOf::Lhu(a0, a1, a2) => InstructionOf::Lhu(*a0, *a1, a2@),
            InstructionOf::Addi(a0, a1, a2) => InstructionOf::Addi(*a0, *a1, *a2),
            InstructionOf::Slti(a0, a1, a2) => InstructionOf::Slti(*a0, *a1, *a2),
            InstructionOf::Sltiu(a0, a1, a2) => InstructionOf::Sltiu(*a0, *a1, *a2),
            InstructionOf::Xori(a0, a1, a2) => InstructionOf::Xori(*a0, *a1, *a2),
            InstructionOf::Ori(a0, a1, a2) => InstructionOf::Ori(*a0, *a1, *a2),
            InstructionOf::Andi(a0, a1, a2) => InstructionOf::Andi(*a0, *a1, *a2),
            InstructionOf::Slli(a0, a1, a2) => InstructionOf::Slli(*a0, *a1, *a2),
            InstructionOf::Srli(a0, a1, a2) => InstructionOf::Srli(*a0, *a1, *a2),
            InstructionOf::Srai(a0, a1, a2) => InstructionOf::Srai(*a0, *a1, *a2),
            InstructionOf::Add(a0, a1, a2) => InstructionOf::Add(*a0, *a1, *a2),
            InstructionOf::Sub(a0, a1, a2) => InstructionOf::Sub(*a0, *a1, *a2),
            InstructionOf::Sll(a0, a1, a2) => InstructionOf::Sll(*a0, *a1, *a2),
            InstructionOf::Slt(a0, a1, a2) => InstructionOf::Slt(*a0, *a1, *a2),
            InstructionOf::Sltu(a0, a1, a2) => InstructionOf::Sltu(*a0, *a1, *a2),
            InstructionOf::Xor(a0, a1, a2) => InstructionOf::Xor(*a0, *a1, *a2),
            InstructionOf::Srl(a0, a1, a2) => InstructionOf::Srl(*a0, *a1, *a2),
            InstructionOf::Sra(a0, a1, a2) => InstructionOf::Sra(*a0, *a1, *a2),
            InstructionOf::Or(a0, a1, a2) => InstructionOf::Or(*a0, *a1, *a2),
            InstructionOf::And(a0, a1, a2) => InstructionOf::And(*a0, *a1, *a2),
            InstructionOf::Fence() => InstructionOf::Fence(),
            InstructionOf::FenceI() => InstructionOf::FenceI(),
            InstructionOf::Ecall() => InstructionOf::Ecall(),
            InstructionOf::Ebreak() => InstructionOf::Ebreak(),
            InstructionOf::Csrrw() => InstructionOf::Csrrw(),
            InstructionOf::Csrrs() => InstructionOf::Csrrs(),
            InstructionOf::Csrrc() => InstructionOf::Csrrc(),
            InstructionOf::Csrrwi() => InstructionOf::Csrrwi(),
            InstructionOf::Csrrsi() => InstructionOf::Csrrsi(),
            InstructionOf::Csrrci() => InstructionOf::Csrrci(),
            InstructionOf::Nop() => InstructionOf::Nop(),
            InstructionOf::Neg(a0, a1) => InstructionOf::Neg(*a0, *a1),
            InstructionOf::Negw(a0, a1) => InstructionOf::Negw(*a0, *a1),
            InstructionOf::Snez(a0, a1) => InstructionOf::Snez(*a0, *a1),
            InstructionOf::Sltz(a0, a1) => InstructionOf::Sltz(*a0, *a1),
            InstructionOf::Sgtz(a0, a1) => InstructionOf::Sgtz(*a0, *a1),
            InstructionOf::Beqz(a0, a1) => InstructionOf::Beqz(*a0, a1@),
            InstructionOf::Bnez(a0, a1) => InstructionOf::Bnez(*a0, a1@),
            InstructionOf::Blez(a0, a1) => InstructionOf::Blez(*a0, a1@),
            InstructionOf::Bgez(a0, a1) => InstructionOf::Bgez(*a0, a1@),
            InstructionOf::Bltz(a0, a1) => InstructionOf::Bltz(*a0, a1@),
            InstructionOf::Bgtz(a0, a1) => InstructionOf::Bgtz(*a0, a1@),
            InstructionOf::J(a0) => InstructionOf::J(a0@),
            InstructionOf::Jr(a0) => InstructionOf::Jr(*a0),
            InstructionOf::Ret() => InstructionOf::Ret(),
            InstructionOf::Tail(a0) => InstructionOf::Tail(a0@),
            InstructionOf::Rdinstret() => InstructionOf::Rdinstret(),
            InstructionOf::RdinstretH() => InstructionOf::RdinstretH(),
            InstructionOf::Rdcycle() => InstructionOf::Rdcycle(),
            InstructionOf::RdcycleH() => InstructionOf::RdcycleH(),
            InstructionOf::Rdtime() => InstructionOf::Rdtime(),
            InstructionOf::RdtimeH() => InstructionOf::RdtimeH(),
            InstructionOf::Csrr(a0, a1) => InstructionOf::Csrr(*a0, *a1),
            InstructionOf::Csrw(a0, a1) => InstructionOf::Csrw(*a0, *a1),
            InstructionOf::Csrs(a0, a1) => InstructionOf::Csrs(*a0, *a1),
            InstructionOf::Csrc(a0, a1) => InstructionOf::Csrc(*a0, *a1),
            InstructionOf::Csrwi(a0, a1) => InstructionOf::Csrwi(*a0, *a1),
            InstructionOf::Csrsi(a0, a1) => InstructionOf::Csrsi(*a0, *a1),
            InstructionOf::Csrci(a0, a1) => InstructionOf::Csrci(*a0, *a1),
            InstructionOf::Frcsr(a0) => InstructionOf::Frcsr(*a0),
            InstructionOf::Fscsr(a0) => InstructionOf::Fscsr(*a0),
            InstructionOf::Frrm(a0) => InstructionOf::Frrm(*a0),
            InstructionOf::Fsrm(a0) => InstructionOf::Fsrm(*a0),
            InstructionOf::Frflags(a0) => InstructionOf::Frflags(*a0),
            InstructionOf::Fsflags(a0) => InstructionOf::Fsflags(*a0),
            InstructionOf::Lla(a0, a1) => InstructionOf::Lla(*a0, a1@),
            InstructionOf::La(a0, a1) => InstructionOf::La(*a0, a1@),
            InstructionOf::Ld(a0, a1) => InstructionOf::Ld(*a0, a1@),
            InstructionOf::Sb(a0, a1, a2) => InstructionOf::Sb(*a0, a1@, *a2),
            InstructionOf::Sh(a0, a1, a2) => InstructionOf::Sh(*a0, a1@, *a2),
            InstructionOf::Sw(a0, a1, a2) => InstructionOf::Sw(*a0, a1@, *a2),
            InstructionOf::Sd(a0, a1, a2) => InstructionOf::Sd(*a0, a1@, *a2),
            InstructionOf::Flw(a0, a1, a2) => InstructionOf::Flw(*a0, a1@, *a2),
            InstructionOf::Fld(a0, a1, a2) => InstructionOf::Fld(*a0, a1@, *a2),
            InstructionOf::Fsw(a0, a1, a2) => InstructionOf::Fsw(*a0, a1@, *a2),
            InstructionOf::Fsd(a0, a1, a2) => InstructionOf::Fsd(*a0, a1@, *a2),
            InstructionOf::Li(a0, a1) => InstructionOf::Li(*a0, *a1),
            InstructionOf::Mv(a0, a1) => InstructionOf::Mv(*a0, *a1),
            InstructionOf::Not(a0, a1) => InstructionOf::Not(*a0, *a1),
            InstructionOf::SextW(a0, a1) => InstructionOf::SextW(*a0, *a1),
            InstructionOf::Seqz(a0, a1) => InstructionOf::Seqz(*a0, *a1),
            InstructionOf::FmvS(a0, a1) => InstructionOf::FmvS(*a0, *a1),
            InstructionOf::FabsS(a0, a1) => InstructionOf::FabsS(*a0, *a1),
            InstructionOf::FnegS(a0, a1) => InstructionOf::FnegS(*a0, *a1),
            InstructionOf::FmvD(a0, a1) => InstructionOf::FmvD(*a0, *a1),
            InstructionOf::FabsD(a0, a1) => InstructionOf::FabsD(*a0, *a1),
            InstructionOf::FnegD(a0, a1) => InstructionOf::FnegD(*a0, *a1),
            InstructionOf::Bgt(a0, a1, a2) => InstructionOf::Bgt(*a0, *a1, a2@),
            InstructionOf::Ble(a0, a1, a2) => InstructionOf::Ble(*a0, *a1, a2@),
            InstructionOf::Bgtu(a0, a1, a2) => InstructionOf::Bgtu(*a0, *a1, a2@),
            InstructionOf::Bleu(a0, a1, a2) => InstructionOf::Bleu(*a0, *a1, a2@),
            InstructionOf::Jal(a0) => InstructionOf::Jal(a0@),
            InstructionOf::Jalr(a0) => InstructionOf::Jalr(*a0),
            InstructionOf::Call(a0) => InstructionOf::Call(a0@),
            InstructionOf::FenceAll() => InstructionOf::FenceAll(),
        }
    }
}

/// Whether a name is the mnemonic of an instruction.
pub open spec fn spec_is_instruction(name: Seq<char>) -> bool {
    name == "lui"@
    || name == "auipc"@
    || name == "beq"@
    || name == "bne"@
    || name == "blt"@
    || name == "bge"@
    || name == "bltu"@
    || name == "bgeu"@
    || name == "lb"@
    || name == "lh"@
    || name == "lw"@
    || name == "lbu"@
    || name == "lhu"@
    || name == "addi"@
    || name == "slti"@
    || name == "sltiu"@
    || name == "xori"@
    || name == "ori"@
    || name == "andi"@
    || name == "slli"@
    || name == "srli"@
    || name == "srai"@
    || name == "add"@
    || name == "sub"@
    || name == "sll"@
    || name == "slt"@
    || name == "sltu"@
    || name == "xor"@
    || name == "srl"@
    || name == "sra"@
    || name == "or"@
    || name == "and"@
    || name == "fence"@
    || name == "fencei"@
    || name == "ecall"@
    || name == "ebreak"@
    || name == "csrrw"@
    || name == "csrrs"@
    || name == "csrrc"@
    || name == "csrrwi"@
    || name == "csrrsi"@
    || name == "csrrci"@
    || name == "nop"@
    || name == "neg"@
    || name == "negw"@
    || name == "snez"@
    || name == "sltz"@
    || name == "sgtz"@
    || name == "beqz"@
    || name == "bnez"@
    || name == "blez"@
    || name == "bgez"@
    || name == "bltz"@
    || name == "bgtz"@
    || name == "j"@
    || name == "jr"@
    || name == "ret"@
    || name == "tail"@
    || name == "rdinstret"@
    || name == "rdinstreth"@
    || name == "rdcycle"@
    || name == "rdcycleh"@
    || name == "rdtime"@
    || name == "rdtimeh"@
    || name == "csrr"@
    || name == "csrw"@
    || name == "csrs"@
    || name == "csrc"@
    || name == "csrwi"@
    || name == "csrsi"@
    || name == "csrci"@
    || name == "frcsr"@
    || name == "fscsr"@
    || name == "frrm"@
    || name == "fsrm"@
    || name == "frflags"@
    || name == "fsflags"@
    || name == "lla"@
    || name == "la"@
    || name == "ld"@
    || name == "sb"@
    || name == "sh"@
    || name == "sw"@
    || name == "sd"@
    || name == "flw"@
    || name == "fld"@
    || name == "fsw"@
    || name == "fsd"@
    || name == "li"@
    || name == "mv"@
    || name == "not"@
    || name == "sextw"@
    || name == "seqz"@
    || name == "fmvs"@
    || name == "fabss"@
    || name == "fnegs"@
    || name == "fmvd"@
    || name == "fabsd"@
    || name == "fnegd"@
    || name == "bgt"@
    || name == "ble"@
    || name == "bgtu"@
    || name == "bleu"@
    || name == "jal"@
    || name == "jalr"@
    || name == "call"@
}

/// The instruction with its label operands placed in the scope `prefix`.
pub open spec fn spec_scope(ins: SpecInstruction, prefix: Seq<char>) -> SpecInstruction {
    match ins {
        InstructionOf::Lui(a0, a1) => InstructionOf::Lui(a0, a1),
        InstructionOf::Auipc(a0, a1) => InstructionOf::Auipc(a0, a1),
        InstructionOf::Beq(a0, a1, a2) => InstructionOf::Beq(a0, a1, spec_offset_scoped(a2, prefix)),
        InstructionOf::Bne(a0, a1, a2) => InstructionOf::Bne(a0, a1, spec_offset_scoped(a2, prefix)),
        InstructionOf::Blt(a0, a1, a2) => InstructionOf::Blt(a0, a1, spec_offset_scoped(a2, prefix)),
        InstructionOf::Bge(a0, a1, a2) => InstructionOf::Bge(a0, a1, spec_offset_scoped(a2, prefix)),
        InstructionOf::Bltu(a0, a1, a2) => InstructionOf::Bltu(a0, a1, spec_offset_scoped(a2, prefix)),
        InstructionOf::Bgeu(a0, a1, a2) => InstructionOf::Bgeu(a0, a1, spec_offset_scoped(a2, prefix)),
        InstructionOf::Lb(a0, a1, a2) => InstructionOf::Lb(a0, spec_offset_scoped(a1, prefix), a2),
        InstructionOf::Lh(a0, a1, a2) => InstructionOf::Lh(a0, spec_offset_scoped(a1, prefix), a2),
        InstructionOf::Lw(a0, a1, a2) => InstructionOf::Lw(a0, spec_offset_scoped(a1, prefix), a2),
        InstructionOf::Lbu(a0, a1, a2) => InstructionOf::Lbu(a0, a1, spec_offset_scoped(a2, prefix)),
        InstructionOf::Lhu(a0, a1, a2) => InstructionOf::Lhu(a0, a1, spec_offset_scoped(a2, prefix)),
        InstructionOf::Addi(a0, a1, a2) => InstructionOf::Addi(a0, a1, a2),
        InstructionOf::Slti(a0, a1, a2) => InstructionOf::Slti(a0, a1, a2),
        InstructionOf::Sltiu(a0, a1, a2) => InstructionOf::Sltiu(a0, a1, a2),
        InstructionOf::Xori(a0, a1, a2) => InstructionOf::Xori(a0, a1, a2),
        InstructionOf::Ori(a0, a1, a2) => InstructionOf::Ori(a0, a1, a2),
        InstructionOf::Andi(a0, a1, a2) => InstructionOf::Andi(a0, a1, a2),
        InstructionOf::Slli(a0, a1, a2) => InstructionOf::Slli(a0, a1, a2),
        InstructionOf::Srli(a0, a1, a2) => InstructionOf::Srli(a0, a1, a2),
        InstructionOf::Srai(a0, a1, a2) => InstructionOf::Srai(a0, a1, a2),
        InstructionOf::Add(a0, a1, a2) => InstructionOf::Add(a0, a1, a2),
        InstructionOf::Sub(a0, a1, a2) => InstructionOf::Sub(a0, a1, a2),
        InstructionOf::Sll(a0, a1, a2) => InstructionOf::Sll(a0, a1, a2),
        InstructionOf::Slt(a0, a1, a2) => InstructionOf::Slt(a0, a1, a2),
        InstructionOf::Sltu(a0, a1, a2) => InstructionOf::Sltu(a0, a1, a2),
        InstructionOf::Xor(a0, a1, a2) => InstructionOf::Xor(a0, a1, a2),
        InstructionOf::Srl(a0, a1, a2) => InstructionOf::Srl(a0, a1, a2),
        InstructionOf::Sra(a0, a1, a2) => InstructionOf::Sra(a0, a1, a2),
        InstructionOf::Or(a0, a1, a2) => InstructionOf::Or(a0, a1, a2),
        InstructionOf::And(a0, a1, a2) => InstructionOf::And(a0, a1, a2),
        InstructionOf::Fence() => InstructionOf::Fence(),
        InstructionOf::FenceI() => InstructionOf::FenceI(),
        InstructionOf::Ecall() => InstructionOf::Ecall(),
        InstructionOf::Ebreak() => InstructionOf::Ebreak(),
        InstructionOf::Csrrw() => InstructionOf::Csrrw(),
        InstructionOf::Csrrs() => InstructionOf::Csrrs(),
        InstructionOf::Csrrc() => InstructionOf::Csrrc(),
        InstructionOf::Csrrwi() => InstructionOf::Csrrwi(),
        InstructionOf::Csrrsi() => InstructionOf::Csrrsi(),
        InstructionOf::Csrrci() => InstructionOf::Csrrci(),
        InstructionOf::Nop() => InstructionOf::Nop(),
        InstructionOf::Neg(a0, a1) => InstructionOf::Neg(a0, a1),
        InstructionOf::Negw(a0, a1) => InstructionOf::Negw(a0, a1),
        InstructionOf::Snez(a0, a1) => InstructionOf::Snez(a0, a1),
        InstructionOf::Sltz(a0, a1) => InstructionOf::Sltz(a0, a1),
        InstructionOf::Sgtz(a0, a1) => InstructionOf::Sgtz(a0, a1),
        InstructionOf::Beqz(a0, a1) => InstructionOf::Beqz(a0, spec_offset_scoped(a1, prefix)),
        InstructionOf::Bnez(a0, a1) => InstructionOf::Bnez(a0, spec_offset_scoped(a1, prefix)),
        InstructionOf::Blez(a0, a1) => InstructionOf::Blez(a0, spec_offset_scoped(a1, prefix)),
        InstructionOf::Bgez(a0, a1) => InstructionOf::Bgez(a0, spec_offset_scoped(a1, prefix)),
        InstructionOf::Bltz(a0, a1) => InstructionOf::Bltz(a0, spec_offset_scoped(a1, prefix)),
        InstructionOf::Bgtz(a0, a1) => InstructionOf::Bgtz(a0, spec_offset_scoped(a1, prefix)),
        InstructionOf::J(a0) => InstructionOf::J(spec_offset_scoped(a0, prefix)),
        InstructionOf::Jr(a0) => InstructionOf::Jr(a0),
        InstructionOf::Ret() => InstructionOf::Ret(),
        InstructionOf::Tail(a0) => InstructionOf::Tail(spec_offset_scoped(a0, prefix)),
        InstructionOf::Rdinstret() => InstructionOf::Rdinstret(),
        InstructionOf::RdinstretH() => InstructionOf::RdinstretH(),
        InstructionOf::Rdcycle() => InstructionOf::Rdcycle(),
        InstructionOf::RdcycleH() => InstructionOf::RdcycleH(),
        InstructionOf::Rdtime() => InstructionOf::Rdtime(),
        InstructionOf::RdtimeH() => InstructionOf::RdtimeH(),
        InstructionOf::Csrr(a0, a1) => InstructionOf::Csrr(a0, a1),
        InstructionOf::Csrw(a0, a1) => InstructionOf::Csrw(a0, a1),
        InstructionOf::Csrs(a0, a1) => InstructionOf::Csrs(a0, a1),
        InstructionOf::Csrc(a0, a1) => InstructionOf::Csrc(a0, a1),
        InstructionOf::Csrwi(a0, a1) => InstructionOf::Csrwi(a0, a1),
        InstructionOf::Csrsi(a0, a1) => InstructionOf::Csrsi(a0, a1),
        InstructionOf::Csrci(a0, a1) => InstructionOf::Csrci(a0, a1),
        InstructionOf::Frcsr(a0) => InstructionOf::Frcsr(a0),
        InstructionOf::Fscsr(a0) => InstructionOf::Fscsr(a0),
        InstructionOf::Frrm(a0) => InstructionOf::Frrm(a0),
        InstructionOf::Fsrm(a0) => InstructionOf::Fsrm(a0),
        InstructionOf::Frflags(a0) => InstructionOf::Frflags(a0),
        InstructionOf::Fsflags(a0) => InstructionOf::Fsflags(a0),
        InstructionOf::Lla(a0, a1) => InstructionOf::Lla(a0, spec_offset_scoped(a1, prefix)),
        InstructionOf::La(a0, a1) => InstructionOf::La(a0, spec_offset_scoped(a1, prefix)),
        InstructionOf::Ld(a0, a1) => InstructionOf::Ld(a0, spec_offset_scoped(a1, prefix)),
        InstructionOf::Sb(a0, a1, a2) => InstructionOf::Sb(a0, spec_offset_scoped(a1, prefix), a2),
        InstructionOf::Sh(a0, a1, a2) => InstructionOf::Sh(a0, spec_offset_scoped(a1, prefix), a2),
        InstructionOf::Sw(a0, a1, a2) => InstructionOf::Sw(a0, spec_offset_scoped(a1, prefix), a2),
        InstructionOf::Sd(a0, a1, a2) => InstructionOf::Sd(a0, spec_offset_scoped(a1, prefix), a2),
        InstructionOf::Flw(a0, a1, a2) => InstructionOf::Flw(a0, spec_offset_scoped(a1, prefix), a2),
        InstructionOf::Fld(a0, a1, a2) => InstructionOf::Fld(a0, spec_offset_scoped(a1, prefix), a2),
        InstructionOf::Fsw(a0, a1, a2) => InstructionOf::Fsw(a0, spec_offset_scoped(a1, prefix), a2),
        InstructionOf::Fsd(a0, a1, a2) => InstructionOf::Fsd(a0, spec_offset_scoped(a1, prefix), a2),
        InstructionOf::Li(a0, a1) => InstructionOf::Li(a0, a1),
        InstructionOf::Mv(a0, a1) => InstructionOf::Mv(a0, a1),
        InstructionOf::Not(a0, a1) => InstructionOf::Not(a0, a1),
        InstructionOf::SextW(a0, a1) => InstructionOf::SextW(a0, a1),
        InstructionOf::Seqz(a0, a1) => InstructionOf::Seqz(a0, a1),
        InstructionOf::FmvS(a0, a1) => InstructionOf::FmvS(a0, a1),
        InstructionOf::FabsS(a0, a1) => InstructionOf::FabsS(a0, a1),
        InstructionOf::FnegS(a0, a1) => InstructionOf::FnegS(a0, a1),
        InstructionOf::FmvD(a0, a1) => InstructionOf::FmvD(a0, a1),
        InstructionOf::FabsD(a0, a1) => InstructionOf::FabsD(a0, a1),
        InstructionOf::FnegD(a0, a1) => InstructionOf::FnegD(a0, a1),
        InstructionOf::Bgt(a0, a1, a2) => InstructionOf::Bgt(a0, a1, spec_offset_scoped(a2, prefix)),
        InstructionOf::Ble(a0, a1, a2) => InstructionOf::Ble(a0, a1, spec_offset_scoped(a2, prefix)),
        InstructionOf::Bgtu(a0, a1, a2) => InstructionOf::Bgtu(a0, a1, spec_offset_scoped(a2, prefix)),
        InstructionOf::Bleu(a0, a1, a2) => InstructionOf::Bleu(a0, a1, spec_offset_scoped(a2, prefix)),
        InstructionOf::Jal(a0) => InstructionOf::Jal(spec_offset_scoped(a0, prefix)),
        InstructionOf::Jalr(a0) => InstructionOf::Jalr(a0),
        InstructionOf::Call(a0) => InstructionOf::Call(spec_offset_scoped(a0, prefix)),
        InstructionOf::FenceAll() => InstructionOf::FenceAll(),
    }
}

/// Whether every operand of the instruction can be shown.
pub open spec fn instruction_renders(ins: SpecInstruction) -> bool {
    forall|k: int| 0 <= k < spec_operands(ins).len() ==> operand_renders(#[trigger] spec_operands(ins)[k])
}

/// The mnemonic padded with spaces to four characters.
pub open spec fn pad4(name: Seq<char>) -> Seq<char> {
    if name.len() >= 4 {
        name
    } else {
        name + Seq::new((4 - name.len()) as nat, |i: int| ' ')
    }
}

/// The start of an instruction's text: its mnemonic, and a space when operands follow.
pub open spec fn head_text(name: Seq<char>, operands: nat, alternate: bool) -> Seq<char> {
    let space = if operands > 0 { " "@ } else { Seq::empty() };
    if alternate {
        let colour = if operands == 0 {
            "\x1b[1;38;5;213m"@
        } else if operands == 1 {
            "\x1b[1;38;5;211m"@
        } else if operands == 2 {
            "\x1b[1;38;5;177m"@
        } else {
            "\x1b[1;38;5;176m"@
        };
        colour + pad4(name) + "\x1b[0m"@ + space
    } else {
        name + space
    }
}

/// Appends the start of an instruction's text.
fn render_head(out: &mut String, name: &str, operands: usize, alternate: bool)
    requires
        operands <= 3,
    ensures
        final(out)@ == old(out)@ + head_text(name@, operands as nat, alternate),
{
    if alternate {
        if operands == 0 {
            push_str(out, "\x1b[1;38;5;213m");
        } else if operands == 1 {
            push_str(out, "\x1b[1;38;5;211m");
        } else if operands == 2 {
            push_str(out, "\x1b[1;38;5;177m");
        } else {
            push_str(out, "\x1b[1;38;5;176m");
        }
        let ghost before = out@;
        push_str(out, name);
        let mut n = name.unicode_len();
        while n < 4
            invariant
                name@.len() <= n <= 4 || (n == name@.len() && n >= 4),
                out@ == before + name@ + Seq::new((n - name@.len()) as nat, |i: int| ' '),
            decreases 4 - n,
        {
            push_char(out, ' ');
            n = n + 1;
            assert(out@ =~= before + name@ + Seq::new((n - name@.len()) as nat, |i: int| ' '));
        }
        assert(before + pad4(name@) =~= before + name@ + Seq::new((n - name@.len()) as nat, |i: int| ' '));
        push_str(out, "\x1b[0m");
        if operands > 0 {
            push_str(out, " ");
        }
        proof {
            assert(out@ =~= old(out)@ + head_text(name@, operands as nat, alternate));
        }
    } else {
        push_str(out, name);
        if operands > 0 {
            push_str(out, " ");
        }
        proof {
            assert(out@ =~= old(out)@ + head_text(name@, operands as nat, alternate));
        }
    }
}

/// An operand of an instruction.
#[derive(Debug)]
pub enum Operand {
    Reg(Register),
    Imm(Imm),
    Off(Offset),
}

/// The model of an operand.
pub enum SpecOperand {
    Reg(Register),
    Imm(Imm),
    Off(SpecOffset),
}

impl View for Operand {
    type V = SpecOperand;

    open spec fn view(&self) -> SpecOperand {
        match self {
            Operand::Reg(r) => SpecOperand::Reg(*r),
            Operand::Imm(i) => SpecOperand::Imm(*i),
            Operand::Off(o) => SpecOperand::Off(o@),
        }
    }
}

pub open spec fn operand_renders(op: SpecOperand) -> bool {
    match op {
        SpecOperand::Reg(r) => register_renders(r),
        SpecOperand::Imm(_) => true,
        SpecOperand::Off(o) => offset_renders(o),
    }
}

impl Operand {
    /// Whether the operand can be written out: a numbered register past the
    /// last one has no name.
    pub fn renders(&self) -> (r: bool)
        ensures
            r == operand_renders(self@),
    {
        let reg = match self {
            Operand::Reg(r) => *r,
            Operand::Imm(_) => Register::Zero,
            Operand::Off(Offset::Relative(_, r)) => *r,
            Operand::Off(_) => Register::Zero,
        };
        match reg {
            Register::Local(n) => n < 255,
            Register::Saved(n) => n < 255,
            _ => true,
        }
    }
}

pub open spec fn operand_text(op: SpecOperand, alternate: bool) -> Seq<char> {
    match op {
        SpecOperand::Reg(r) => register_text(r, alternate),
        SpecOperand::Imm(i) => imm_text(i, alternate),
        SpecOperand::Off(o) => offset_text(o, alternate),
    }
}

/// The operands' texts separated by `, `.
pub open spec fn operands_text(ops: Seq<SpecOperand>, alternate: bool) -> Seq<char>
    decreases ops.len(),
{
    if ops.len() == 0 {
        Seq::empty()
    } else if ops.len() == 1 {
        operand_text(ops[0], alternate)
    } else {
        operands_text(ops.drop_last(), alternate) + ", "@ + operand_text(ops.last(), alternate)
    }
}

/// The mnemonic an instruction is written with.
pub open spec fn spec_mnemonic(ins: SpecInstruction) -> Seq<char> {
    match ins {
        InstructionOf::Lui(..) => "lui"@,
        InstructionOf::Auipc(..) => "auipc"@,
        InstructionOf::Beq(..) => "beq"@,
        InstructionOf::Bne(..) => "bne"@,
        InstructionOf::Blt(..) => "blt"@,
        InstructionOf::Bge(..) => "bge"@,
        InstructionOf::Bltu(..) => "bltu"@,
        InstructionOf::Bgeu(..) => "bgeu"@,
        InstructionOf::Lb(..) => "lb"@,
        InstructionOf::Lh(..) => "lh"@,
        InstructionOf::Lw(..) => "lw"@,
        InstructionOf::Lbu(..) => "lbu"@,
        InstructionOf::Lhu(..) => "lhu"@,
        InstructionOf::Addi(..) => "addi"@,
        InstructionOf::Slti(..) => "slti"@,
        InstructionOf::Sltiu(..) => "sltiu"@,
        InstructionOf::Xori(..) => "xori"@,
        InstructionOf::Ori(..) => "ori"@,
        InstructionOf::Andi(..) => "andi"@,
        InstructionOf::Slli(..) => "slli"@,
        InstructionOf::Srli(..) => "srli"@,
        InstructionOf::Srai(..) => "srai"@,
        InstructionOf::Add(..) => "add"@,
        InstructionOf::Sub(..) => "sub"@,
        InstructionOf::Sll(..) => "sll"@,
        InstructionOf::Slt(..) => "slt"@,
        InstructionOf::Sltu(..) => "sltu"@,
        InstructionOf::Xor(..) => "xor"@,
        InstructionOf::Srl(..) => "srl"@,
        InstructionOf::Sra(..) => "sra"@,
        InstructionOf::Or(..) => "or"@,
        InstructionOf::And(..) => "and"@,
        InstructionOf::Fence() => "fence"@,
        InstructionOf::FenceI() => "fence.i"@,
        InstructionOf::Ecall() => "ecall"@,
        InstructionOf::Ebreak() => "ebreak"@,
        InstructionOf::Csrrw() => "csrrw"@,
        InstructionOf::Csrrs() => "csrrs"@,
        InstructionOf::Csrrc() => "csrrc"@,
        InstructionOf::Csrrwi() => "csrrwi"@,
        InstructionOf::Csrrsi() => "csrrsi"@,
        InstructionOf::Csrrci() => "csrrci"@,
        InstructionOf::Nop() => "nop"@,
        InstructionOf::Neg(..) => "neg"@,
        InstructionOf::Negw(..) => "negw"@,
        InstructionOf::Snez(..) => "snez"@,
        InstructionOf::Sltz(..) => "sltz"@,
        InstructionOf::Sgtz(..) => "sgtz"@,
        InstructionOf::Beqz(..) => "beqz"@,
        InstructionOf::Bnez(..) => "bnez"@,
        InstructionOf::Blez(..) => "blez"@,
        InstructionOf::Bgez(..) => "bgez"@,
        InstructionOf::Bltz(..) => "bltz"@,
        InstructionOf::Bgtz(..) => "bgtz"@,
        InstructionOf::J(..) => "j"@,
        InstructionOf::Jr(..) => "jr"@,
        InstructionOf::Ret() => "ret"@,
        InstructionOf::Tail(..) => "tail"@,
        InstructionOf::Rdinstret() => "rdinstret"@,
        InstructionOf::RdinstretH() => "rdinstreth"@,
        InstructionOf::Rdcycle() => "rdcycle"@,
        InstructionOf::RdcycleH() => "rdcycleh"@,
        InstructionOf::Rdtime() => "rdtime"@,
        InstructionOf::RdtimeH() => "rdtimeh"@,
        InstructionOf::Csrr(..) => "csrr"@,
        InstructionOf::Csrw(..) => "csrw"@,
        InstructionOf::Csrs(..) => "csrs"@,
        InstructionOf::Csrc(..) => "csrc"@,
        InstructionOf::Csrwi(..) => "csrwi"@,
        InstructionOf::Csrsi(..) => "csrsi"@,
        InstructionOf::Csrci(..) => "csrci"@,
        InstructionOf::Frcsr(..) => "frcsr"@,
        InstructionOf::Fscsr(..) => "fscsr"@,
        InstructionOf::Frrm(..) => "frrm"@,
        InstructionOf::Fsrm(..) => "fsrm"@,
        InstructionOf::Frflags(..) => "frflags"@,
        InstructionOf::Fsflags(..) => "fsflags"@,
        InstructionOf::Lla(..) => "lla"@,
        InstructionOf::La(..) => "la"@,
        InstructionOf::Ld(..) => "ld"@,
        InstructionOf::Sb(..) => "sb"@,
        InstructionOf::Sh(..) => "sh"@,
        InstructionOf::Sw(..) => "sw"@,
        InstructionOf::Sd(..) => "sd"@,
        InstructionOf::Flw(..) => "flw"@,
        InstructionOf::Fld(..) => "fld"@,
        InstructionOf::Fsw(..) => "fsw"@,
        InstructionOf::Fsd(..) => "fsd"@,
        InstructionOf::Li(..) => "li"@,
        InstructionOf::Mv(..) => "mv"@,
        InstructionOf::Not(..) => "not"@,
        InstructionOf::SextW(..) => "sext.w"@,
        InstructionOf::Seqz(..) => "seqz"@,
        InstructionOf::FmvS(..) => "fmv.s"@,
        InstructionOf::FabsS(..) => "fabs.s"@,
        InstructionOf::FnegS(..) => "fneg.s"@,
        InstructionOf::FmvD(..) => "fmv.d"@,
        InstructionOf::FabsD(..) => "fabs.d"@,
        InstructionOf::FnegD(..) => "fneg.d"@,
        InstructionOf::Bgt(..) => "bgt"@,
        InstructionOf::Ble(..) => "ble"@,
        InstructionOf::Bgtu(..) => "bgtu"@,
        InstructionOf::Bleu(..) => "bleu"@,
        InstructionOf::Jal(..) => "jal"@,
        InstructionOf::Jalr(..) => "jalr"@,
        InstructionOf::Call(..) => "call"@,
        InstructionOf::FenceAll() => "fence"@,
    }
}

/// The operands of an instruction, in order.
pub open spec fn spec_operands(ins: SpecInstruction) -> Seq<SpecOperand> {
    match ins {
        InstructionOf::Lui(a0, a1) => seq![SpecOperand::Reg(a0), SpecOperand::Imm(a1)],
        InstructionOf::Auipc(a0, a1) => seq![SpecOperand::Reg(a0), SpecOperand::Imm(a1)],
        InstructionOf::Beq(a0, a1, a2) => seq![SpecOperand::Reg(a0), SpecOperand::Reg(a1), SpecOperand::Off(a2)],
        InstructionOf::Bne(a0, a1, a2) => seq![SpecOperand::Reg(a0), SpecOperand::Reg(a1), SpecOperand::Off(a2)],
        InstructionOf::Blt(a0, a1, a2) => seq![SpecOperand::Reg(a0), SpecOperand::Reg(a1), SpecOperand::Off(a2)],
        InstructionOf::Bge(a0, a1, a2) => seq![SpecOperand::Reg(a0), SpecOperand::Reg(a1), SpecOperand::Off(a2)],
        InstructionOf::Bltu(a0, a1, a2) => seq![SpecOperand::Reg(a0), SpecOperand::Reg(a1), SpecOperand::Off(a2)],
        InstructionOf::Bgeu(a0, a1, a2) => seq![SpecOperand::Reg(a0), SpecOperand::Reg(a1), SpecOperand::Off(a2)],
        InstructionOf::Lb(a0, a1, a2) => seq![SpecOperand::Reg(a0), SpecOperand::Off(a1), SpecOperand::Reg(a2)],
        InstructionOf::Lh(a0, a1, a2) => seq![SpecOperand::Reg(a0), SpecOperand::Off(a1), SpecOperand::Reg(a2)],
        InstructionOf::Lw(a0, a1, a2) => seq![SpecOperand::Reg(a0), SpecOperand::Off(a1), SpecOperand::Reg(a2)],
        InstructionOf::Lbu(a0, a1, a2) => seq![SpecOperand::Reg(a0), SpecOperand::Reg(a1), SpecOperand::Off(a2)],
        InstructionOf::Lhu(a0, a1, a2) => seq![SpecOperand::Reg(a0), SpecOperand::Reg(a1), SpecOperand::Off(a2)],
        InstructionOf::Addi(a0, a1, a2) => seq![SpecOperand::Reg(a0), SpecOperand::Reg(a1), SpecOperand::Imm(a2)],
        InstructionOf::Slti(a0, a1, a2) => seq![SpecOperand::Reg(a0), SpecOperand::Reg(a1), SpecOperand::Imm(a2)],
        InstructionOf::Sltiu(a0, a1, a2) => seq![SpecOperand::Reg(a0), SpecOperand::Reg(a1), SpecOperand::Imm(a2)],
        InstructionOf::Xori(a0, a1, a2) => seq![SpecOperand::Reg(a0), SpecOperand::Reg(a1), SpecOperand::Imm(a2)],
        InstructionOf::Ori(a0, a1, a2) => seq![SpecOperand::Reg(a0), SpecOperand::Reg(a1), SpecOperand::Imm(a2)],
        InstructionOf::Andi(a0, a1, a2) => seq![SpecOperand::Reg(a0), SpecOperand::Reg(a1), SpecOperand::Imm(a2)],
        InstructionOf::Slli(a0, a1, a2) => seq![SpecOperand::Reg(a0), SpecOperand::Reg(a1), SpecOperand::Imm(a2)],
        InstructionOf::Srli(a0, a1, a2) => seq![SpecOperand::Reg(a0), SpecOperand::Reg(a1), SpecOperand::Imm(a2)],
        InstructionOf::Srai(a0, a1, a2) => seq![SpecOperand::Reg(a0), SpecOperand::Reg(a1), SpecOperand::Imm(a2)],
        InstructionOf::Add(a0, a1, a2) => seq![SpecOperand::Reg(a0), SpecOperand::Reg(a1), SpecOperand::Reg(a2)],
        InstructionOf::Sub(a0, a1, a2) => seq![SpecOperand::Reg(a0), SpecOperand::Reg(a1), SpecOperand::Reg(a2)],
        InstructionOf::Sll(a0, a1, a2) => seq![SpecOperand::Reg(a0), SpecOperand::Reg(a1), SpecOperand::Reg(a2)],
        InstructionOf::Slt(a0, a1, a2) => seq![SpecOperand::Reg(a0), SpecOperand::Reg(a1), SpecOperand::Reg(a2)],
        InstructionOf::Sltu(a0, a1, a2) => seq![SpecOperand::Reg(a0), SpecOperand::Reg(a1), SpecOperand::Reg(a2)],
        InstructionOf::Xor(a0, a1, a2) => seq![SpecOperand::Reg(a0), SpecOperand::Reg(a1), SpecOperand::Reg(a2)],
        InstructionOf::Srl(a0, a1, a2) => seq![SpecOperand::Reg(a0), SpecOperand::Reg(a1), SpecOperand::Reg(a2)],
        InstructionOf::Sra(a0, a1, a2) => seq![SpecOperand::Reg(a0), SpecOperand::Reg(a1), SpecOperand::Reg(a2)],
        InstructionOf::Or(a0, a1, a2) => seq![SpecOperand::Reg(a0), SpecOperand::Reg(a1), SpecOperand::Reg(a2)],
        InstructionOf::And(a0, a1, a2) => seq![SpecOperand::Reg(a0), SpecOperand::Reg(a1), SpecOperand::Reg(a2)],
        InstructionOf::Fence() => seq![],
        InstructionOf::FenceI() => seq![],
        InstructionOf::Ecall() => seq![],
        InstructionOf::Ebreak() => seq![],
        InstructionOf::Csrrw() => seq![],
        InstructionOf::Csrrs() => seq![],
        InstructionOf::Csrrc() => seq![],
        InstructionOf::Csrrwi() => seq![],
        InstructionOf::Csrrsi() => seq![],
        InstructionOf::Csrrci() => seq![],
        InstructionOf::Nop() => seq![],
        InstructionOf::Neg(a0, a1) => seq![SpecOperand::Reg(a0), SpecOperand::Reg(a1)],
        InstructionOf::Negw(a0, a1) => seq![SpecOperand::Reg(a0), SpecOperand::Reg(a1)],
        InstructionOf::Snez(a0, a1) => seq![SpecOperand::Reg(a0), SpecOperand::Reg(a1)],
        InstructionOf::Sltz(a0, a1) => seq![SpecOperand::Reg(a0), SpecOperand::Reg(a1)],
        InstructionOf::Sgtz(a0, a1) => seq![SpecOperand::Reg(a0), SpecOperand::Reg(a1)],
        InstructionOf::Beqz(a0, a1) => seq![SpecOperand::Reg(a0), SpecOperand::Off(a1)],
        InstructionOf::Bnez(a0, a1) => seq![SpecOperand::Reg(a0), SpecOperand::Off(a1)],
        InstructionOf::Blez(a0, a1) => seq![SpecOperand::Reg(a0), SpecOperand::Off(a1)],
        InstructionOf::Bgez(a0, a1) => seq![SpecOperand::Reg(a0), SpecOperand::Off(a1)],
        InstructionOf::Bltz(a0, a1) => seq![SpecOperand::Reg(a0), SpecOperand::Off(a1)],
        InstructionOf::Bgtz(a0, a1) => seq![SpecOperand::Reg(a0), SpecOperand::Off(a1)],
        InstructionOf::J(a0) => seq![SpecOperand::Off(a0)],
        InstructionOf::Jr(a0) => seq![SpecOperand::Reg(a0)],
        InstructionOf::Ret() => seq![],
        InstructionOf::Tail(a0) => seq![SpecOperand::Off(a0)],
        InstructionOf::Rdinstret() => seq![],
        InstructionOf::RdinstretH() => seq![],
        InstructionOf::Rdcycle() => seq![],
        InstructionOf::RdcycleH() => seq![],
        InstructionOf::Rdtime() => seq![],
        InstructionOf::RdtimeH() => seq![],
        InstructionOf::Csrr(a0, a1) => seq![SpecOperand::Reg(a0), SpecOperand::Reg(a1)],
        InstructionOf::Csrw(a0, a1) => seq![SpecOperand::Reg(a0), SpecOperand::Reg(a1)],
        InstructionOf::Csrs(a0, a1) => seq![SpecOperand::Reg(a0), SpecOperand::Reg(a1)],
        InstructionOf::Csrc(a0, a1) => seq![SpecOperand::Reg(a0), SpecOperand::Reg(a1)],
        InstructionOf::Csrwi(a0, a1) => seq![SpecOperand::Reg(a0), SpecOperand::Imm(a1)],
        InstructionOf::Csrsi(a0, a1) => seq![SpecOperand::Reg(a0), SpecOperand::Imm(a1)],
        InstructionOf::Csrci(a0, a1) => seq![SpecOperand::Reg(a0), SpecOperand::Imm(a1)],
        InstructionOf::Frcsr(a0) => seq![SpecOperand::Reg(a0)],
        InstructionOf::Fscsr(a0) => seq![SpecOperand::Reg(a0)],
        InstructionOf::Frrm(a0) => seq![SpecOperand::Reg(a0)],
        InstructionOf::Fsrm(a0) => seq![SpecOperand::Reg(a0)],
        InstructionOf::Frflags(a0) => seq![SpecOperand::Reg(a0)],
        InstructionOf::Fsflags(a0) => seq![SpecOperand::Reg(a0)],
        InstructionOf::Lla(a0, a1) => seq![SpecOperand::Reg(a0), SpecOperand::Off(a1)],
        InstructionOf::La(a0, a1) => seq![SpecOperand::Reg(a0), SpecOperand::Off(a1)],
        InstructionOf::Ld(a0, a1) => seq![SpecOperand::Reg(a0), SpecOperand::Off(a1)],
        InstructionOf::Sb(a0, a1, a2) => seq![SpecOperand::Reg(a0), SpecOperand::Off(a1), SpecOperand::Reg(a2)],
        InstructionOf::Sh(a0, a1, a2) => seq![SpecOperand::Reg(a0), SpecOperand::Off(a1), SpecOperand::Reg(a2)],
        InstructionOf::Sw(a0, a1, a2) => seq![SpecOperand::Reg(a0), SpecOperand::Off(a1), SpecOperand::Reg(a2)],
        InstructionOf::Sd(a0, a1, a2) => seq![SpecOperand::Reg(a0), SpecOperand::Off(a1), SpecOperand::Reg(a2)],
        InstructionOf::Flw(a0, a1, a2) => seq![SpecOperand::Reg(a0), SpecOperand::Off(a1), SpecOperand::Reg(a2)],
        InstructionOf::Fld(a0, a1, a2) => seq![SpecOperand::Reg(a0), SpecOperand::Off(a1), SpecOperand::Reg(a2)],
        InstructionOf::Fsw(a0, a1, a2) => seq![SpecOperand::Reg(a0), SpecOperand::Off(a1), SpecOperand::Reg(a2)],
        InstructionOf::Fsd(a0, a1, a2) => seq![SpecOperand::Reg(a0), SpecOperand::Off(a1), SpecOperand::Reg(a2)],
        InstructionOf::Li(a0, a1) => seq![SpecOperand::Reg(a0), SpecOperand::Imm(a1)],
        InstructionOf::Mv(a0, a1) => seq![SpecOperand::Reg(a0), SpecOperand::Reg(a1)],
        InstructionOf::Not(a0, a1) => seq![SpecOperand::Reg(a0), SpecOperand::Reg(a1)],
        InstructionOf::SextW(a0, a1) => seq![SpecOperand::Reg(a0), SpecOperand::Reg(a1)],
        InstructionOf::Seqz(a0, a1) => seq![SpecOperand::Reg(a0), SpecOperand::Reg(a1)],
        InstructionOf::FmvS(a0, a1) => seq![SpecOperand::Reg(a0), SpecOperand::Reg(a1)],
        InstructionOf::FabsS(a0, a1) => seq![SpecOperand::Reg(a0), SpecOperand::Reg(a1)],
        InstructionOf::FnegS(a0, a1) => seq![SpecOperand::Reg(a0), SpecOperand::Reg(a1)],
        InstructionOf::FmvD(a0, a1) => seq![SpecOperand::Reg(a0), SpecOperand::Reg(a1)],
        InstructionOf::FabsD(a0, a1) => seq![SpecOperand::Reg(a0), SpecOperand::Reg(a1)],
        InstructionOf::FnegD(a0, a1) => seq![SpecOperand::Reg(a0), SpecOperand::Reg(a1)],
        InstructionOf::Bgt(a0, a1, a2) => seq![SpecOperand::Reg(a0), SpecOperand::Reg(a1), SpecOperand::Off(a2)],
        InstructionOf::Ble(a0, a1, a2) => seq![SpecOperand::Reg(a0), SpecOperand::Reg(a1), SpecOperand::Off(a2)],
        InstructionOf::Bgtu(a0, a1, a2) => seq![SpecOperand::Reg(a0), SpecOperand::Reg(a1), SpecOperand::Off(a2)],
        InstructionOf::Bleu(a0, a1, a2) => seq![SpecOperand::Reg(a0), SpecOperand::Reg(a1), SpecOperand::Off(a2)],
        InstructionOf::Jal(a0) => seq![SpecOperand::Off(a0)],
        InstructionOf::Jalr(a0) => seq![SpecOperand::Reg(a0)],
        InstructionOf::Call(a0) => seq![SpecOperand::Off(a0)],
        InstructionOf::FenceAll() => seq![],
    }
}

/// The text of an instruction as the assembler reads it; `alternate` adds terminal colours.
pub open spec fn instruction_text(ins: SpecInstruction, alternate: bool) -> Seq<char> {
    head_text(spec_mnemonic(ins), spec_operands(ins).len(), alternate) + operands_text(
        spec_operands(ins),
        alternate,
    )
}

impl InstructionOf<Offset> {
    pub fn is_instruction(name: &str) -> (r: bool)
        ensures
            r == spec_is_instruction(name@),
    {
        text_eq(name, "lui")
            || text_eq(name, "auipc")
            || text_eq(name, "beq")
            || text_eq(name, "bne")
            || text_eq(name, "blt")
            || text_eq(name, "bge")
            || text_eq(name, "bltu")
            || text_eq(name, "bgeu")
            || text_eq(name, "lb")
            || text_eq(name, "lh")
            || text_eq(name, "lw")
            || text_eq(name, "lbu")
            || text_eq(name, "lhu")
            || text_eq(name, "addi")
            || text_eq(name, "slti")
            || text_eq(name, "sltiu")
            || text_eq(name, "xori")
            || text_eq(name, "ori")
            || text_eq(name, "andi")
            || text_eq(name, "slli")
            || text_eq(name, "srli")
            || text_eq(name, "srai")
            || text_eq(name, "add")
            || text_eq(name, "sub")
            || text_eq(name, "sll")
            || text_eq(name, "slt")
            || text_eq(name, "sltu")
            || text_eq(name, "xor")
            || text_eq(name, "srl")
            || text_eq(name, "sra")
            || text_eq(name, "or")
            || text_eq(name, "and")
            || text_eq(name, "fence")
            || text_eq(name, "fencei")
            || text_eq(name, "ecall")
            || text_eq(name, "ebreak")
            || text_eq(name, "csrrw")
            || text_eq(name, "csrrs")
            || text_eq(name, "csrrc")
            || text_eq(name, "csrrwi")
            || text_eq(name, "csrrsi")
            || text_eq(name, "csrrci")
            || text_eq(name, "nop")
            || text_eq(name, "neg")
            || text_eq(name, "negw")
            || text_eq(name, "snez")
            || text_eq(name, "sltz")
            || text_eq(name, "sgtz")
            || text_eq(name, "beqz")
            || text_eq(name, "bnez")
            || text_eq(name, "blez")
            || text_eq(name, "bgez")
            || text_eq(name, "bltz")
            || text_eq(name, "bgtz")
            || text_eq(name, "j")
            || text_eq(name, "jr")
            || text_eq(name, "ret")
            || text_eq(name, "tail")
            || text_eq(name, "rdinstret")
            || text_eq(name, "rdinstreth")
            || text_eq(name, "rdcycle")
            || text_eq(name, "rdcycleh")
            || text_eq(name, "rdtime")
            || text_eq(name, "rdtimeh")
            || text_eq(name, "csrr")
            || text_eq(name, "csrw")
            || text_eq(name, "csrs")
            || text_eq(name, "csrc")
            || text_eq(name, "csrwi")
            || text_eq(name, "csrsi")
            || text_eq(name, "csrci")
            || text_eq(name, "frcsr")
            || text_eq(name, "fscsr")
            || text_eq(name, "frrm")
            || text_eq(name, "fsrm")
            || text_eq(name, "frflags")
            || text_eq(name, "fsflags")
            || text_eq(name, "lla")
            || text_eq(name, "la")
            || text_eq(name, "ld")
            || text_eq(name, "sb")
            || text_eq(name, "sh")
            || text_eq(name, "sw")
            || text_eq(name, "sd")
            || text_eq(name, "flw")
            || text_eq(name, "fld")
            || text_eq(name, "fsw")
            || text_eq(name, "fsd")
            || text_eq(name, "li")
            || text_eq(name, "mv")
            || text_eq(name, "not")
            || text_eq(name, "sextw")
            || text_eq(name, "seqz")
            || text_eq(name, "fmvs")
            || text_eq(name, "fabss")
            || text_eq(name, "fnegs")
            || text_eq(name, "fmvd")
            || text_eq(name, "fabsd")
            || text_eq(name, "fnegd")
            || text_eq(name, "bgt")
            || text_eq(name, "ble")
            || text_eq(name, "bgtu")
            || text_eq(name, "bleu")
            || text_eq(name, "jal")
            || text_eq(name, "jalr")
            || text_eq(name, "call")
    }

    /// Places the instruction's label operands in the scope `rhs`.
    pub fn scope(self, rhs: &str) -> (r: Self)
        ensures
            r@ == spec_scope(self@, rhs@),
    {
        match self {
            InstructionOf::Lui(a0, a1) => InstructionOf::Lui(a0, a1),
            InstructionOf::Auipc(a0, a1) => InstructionOf::Auipc(a0, a1),
            InstructionOf::Beq(a0, a1, a2) => InstructionOf::Beq(a0, a1, a2.add(rhs.to_owned())),
            InstructionOf::Bne(a0, a1, a2) => InstructionOf::Bne(a0, a1, a2.add(rhs.to_owned())),
            InstructionOf::Blt(a0, a1, a2) => InstructionOf::Blt(a0, a1, a2.add(rhs.to_owned())),
            InstructionOf::Bge(a0, a1, a2) => InstructionOf::Bge(a0, a1, a2.add(rhs.to_owned())),
            InstructionOf::Bltu(a0, a1, a2) => InstructionOf::Bltu(a0, a1, a2.add(rhs.to_owned())),
            InstructionOf::Bgeu(a0, a1, a2) => InstructionOf::Bgeu(a0, a1, a2.add(rhs.to_owned())),
            InstructionOf::Lb(a0, a1, a2) => InstructionOf::Lb(a0, a1.add(rhs.to_owned()), a2),
            InstructionOf::Lh(a0, a1, a2) => InstructionOf::Lh(a0, a1.add(rhs.to_owned()), a2),
            InstructionOf::Lw(a0, a1, a2) => InstructionOf::Lw(a0, a1.add(rhs.to_owned()), a2),
            InstructionOf::Lbu(a0, a1, a2) => InstructionOf::Lbu(a0, a1, a2.add(rhs.to_owned())),
            InstructionOf::Lhu(a0, a1, a2) => InstructionOf::Lhu(a0, a1, a2.add(rhs.to_owned())),
            InstructionOf::Addi(a0, a1, a2) => InstructionOf::Addi(a0, a1, a2),
            InstructionOf::Slti(a0, a1, a2) => InstructionOf::Slti(a0, a1, a2),
            InstructionOf::Sltiu(a0, a1, a2) => InstructionOf::Sltiu(a0, a1, a2),
            InstructionOf::Xori(a0, a1, a2) => InstructionOf::Xori(a0, a1, a2),
            InstructionOf::Ori(a0, a1, a2) => InstructionOf::Ori(a0, a1, a2),
            InstructionOf::Andi(a0, a1, a2) => InstructionOf::Andi(a0, a1, a2),
            InstructionOf::Slli(a0, a1, a2) => InstructionOf::Slli(a0, a1, a2),
            InstructionOf::Srli(a0, a1, a2) => InstructionOf::Srli(a0, a1, a2),
            InstructionOf::Srai(a0, a1, a2) => InstructionOf::Srai(a0, a1, a2),
            InstructionOf::Add(a0, a1, a2) => InstructionOf::Add(a0, a1, a2),
            InstructionOf::Sub(a0, a1, a2) => InstructionOf::Sub(a0, a1, a2),
            InstructionOf::Sll(a0, a1, a2) => InstructionOf::Sll(a0, a1, a2),
            InstructionOf::Slt(a0, a1, a2) => InstructionOf::Slt(a0, a1, a2),
            InstructionOf::Sltu(a0, a1, a2) => InstructionOf::Sltu(a0, a1, a2),
            InstructionOf::Xor(a0, a1, a2) => InstructionOf::Xor(a0, a1, a2),
            InstructionOf::Srl(a0, a1, a2) => InstructionOf::Srl(a0, a1, a2),
            InstructionOf::Sra(a0, a1, a2) => InstructionOf::Sra(a0, a1, a2),
            InstructionOf::Or(a0, a1, a2) => InstructionOf::Or(a0, a1, a2),
            InstructionOf::And(a0, a1, a2) => InstructionOf::And(a0, a1, a2),
            InstructionOf::Fence() => InstructionOf::Fence(),
            InstructionOf::FenceI() => InstructionOf::FenceI(),
            InstructionOf::Ecall() => InstructionOf::Ecall(),
            InstructionOf::Ebreak() => InstructionOf::Ebreak(),
            InstructionOf::Csrrw() => InstructionOf::Csrrw(),
            InstructionOf::Csrrs() => InstructionOf::Csrrs(),
            InstructionOf::Csrrc() => InstructionOf::Csrrc(),
            InstructionOf::Csrrwi() => InstructionOf::Csrrwi(),
            InstructionOf::Csrrsi() => InstructionOf::Csrrsi(),
            InstructionOf::Csrrci() => InstructionOf::Csrrci(),
            InstructionOf::Nop() => InstructionOf::Nop(),
            InstructionOf::Neg(a0, a1) => InstructionOf::Neg(a0, a1),
            InstructionOf::Negw(a0, a1) => InstructionOf::Negw(a0, a1),
            InstructionOf::Snez(a0, a1) => InstructionOf::Snez(a0, a1),
            InstructionOf::Sltz(a0, a1) => InstructionOf::Sltz(a0, a1),
            InstructionOf::Sgtz(a0, a1) => InstructionOf::Sgtz(a0, a1),
            InstructionOf::Beqz(a0, a1) => InstructionOf::Beqz(a0, a1.add(rhs.to_owned())),
            InstructionOf::Bnez(a0, a1) => InstructionOf::Bnez(a0, a1.add(rhs.to_owned())),
            InstructionOf::Blez(a0, a1) => InstructionOf::Blez(a0, a1.add(rhs.to_owned())),
            InstructionOf::Bgez(a0, a1) => InstructionOf::Bgez(a0, a1.add(rhs.to_owned())),
            InstructionOf::Bltz(a0, a1) => InstructionOf::Bltz(a0, a1.add(rhs.to_owned())),
            InstructionOf::Bgtz(a0, a1) => InstructionOf::Bgtz(a0, a1.add(rhs.to_owned())),
            InstructionOf::J(a0) => InstructionOf::J(a0.add(rhs.to_owned())),
            InstructionOf::Jr(a0) => InstructionOf::Jr(a0),
            InstructionOf::Ret() => InstructionOf::Ret(),
            InstructionOf::Tail(a0) => InstructionOf::Tail(a0.add(rhs.to_owned())),
            InstructionOf::Rdinstret() => InstructionOf::Rdinstret(),
            InstructionOf::RdinstretH() => InstructionOf::RdinstretH(),
            InstructionOf::Rdcycle() => InstructionOf::Rdcycle(),
            InstructionOf::RdcycleH() => InstructionOf::RdcycleH(),
            InstructionOf::Rdtime() => InstructionOf::Rdtime(),
            InstructionOf::RdtimeH() => InstructionOf::RdtimeH(),
            InstructionOf::Csrr(a0, a1) => InstructionOf::Csrr(a0, a1),
            InstructionOf::Csrw(a0, a1) => InstructionOf::Csrw(a0, a1),
            InstructionOf::Csrs(a0, a1) => InstructionOf::Csrs(a0, a1),
            InstructionOf::Csrc(a0, a1) => InstructionOf::Csrc(a0, a1),
            InstructionOf::Csrwi(a0, a1) => InstructionOf::Csrwi(a0, a1),
            InstructionOf::Csrsi(a0, a1) => InstructionOf::Csrsi(a0, a1),
            InstructionOf::Csrci(a0, a1) => InstructionOf::Csrci(a0, a1),
            InstructionOf::Frcsr(a0) => InstructionOf::Frcsr(a0),
            InstructionOf::Fscsr(a0) => InstructionOf::Fscsr(a0),
            InstructionOf::Frrm(a0) => InstructionOf::Frrm(a0),
            InstructionOf::Fsrm(a0) => InstructionOf::Fsrm(a0),
            InstructionOf::Frflags(a0) => InstructionOf::Frflags(a0),
            InstructionOf::Fsflags(a0) => InstructionOf::Fsflags(a0),
            InstructionOf::Lla(a0, a1) => InstructionOf::Lla(a0, a1.add(rhs.to_owned())),
            InstructionOf::La(a0, a1) => InstructionOf::La(a0, a1.add(rhs.to_owned())),
            InstructionOf::Ld(a0, a1) => InstructionOf::Ld(a0, a1.add(rhs.to_owned())),
            InstructionOf::Sb(a0, a1, a2) => InstructionOf::Sb(a0, a1.add(rhs.to_owned()), a2),
            InstructionOf::Sh(a0, a1, a2) => InstructionOf::Sh(a0, a1.add(rhs.to_owned()), a2),
            InstructionOf::Sw(a0, a1, a2) => InstructionOf::Sw(a0, a1.add(rhs.to_owned()), a2),
            InstructionOf::Sd(a0, a1, a2) => InstructionOf::Sd(a0, a1.add(rhs.to_owned()), a2),
            InstructionOf::Flw(a0, a1, a2) => InstructionOf::Flw(a0, a1.add(rhs.to_owned()), a2),
            InstructionOf::Fld(a0, a1, a2) => InstructionOf::Fld(a0, a1.add(rhs.to_owned()), a2),
            InstructionOf::Fsw(a0, a1, a2) => InstructionOf::Fsw(a0, a1.add(rhs.to_owned()), a2),
            InstructionOf::Fsd(a0, a1, a2) => InstructionOf::Fsd(a0, a1.add(rhs.to_owned()), a2),
            InstructionOf::Li(a0, a1) => InstructionOf::Li(a0, a1),
            InstructionOf::Mv(a0, a1) => InstructionOf::Mv(a0, a1),
            InstructionOf::Not(a0, a1) => InstructionOf::Not(a0, a1),
            InstructionOf::SextW(a0, a1) => InstructionOf::SextW(a0, a1),
            InstructionOf::Seqz(a0, a1) => InstructionOf::Seqz(a0, a1),
            InstructionOf::FmvS(a0, a1) => InstructionOf::FmvS(a0, a1),
            InstructionOf::FabsS(a0, a1) => InstructionOf::FabsS(a0, a1),
            InstructionOf::FnegS(a0, a1) => InstructionOf::FnegS(a0, a1),
            InstructionOf::FmvD(a0, a1) => InstructionOf::FmvD(a0, a1),
            InstructionOf::FabsD(a0, a1) => InstructionOf::FabsD(a0, a1),
            InstructionOf::FnegD(a0, a1) => InstructionOf::FnegD(a0, a1),
            InstructionOf::Bgt(a0, a1, a2) => InstructionOf::Bgt(a0, a1, a2.add(rhs.to_owned())),
            InstructionOf::Ble(a0, a1, a2) => InstructionOf::Ble(a0, a1, a2.add(rhs.to_owned())),
            InstructionOf::Bgtu(a0, a1, a2) => InstructionOf::Bgtu(a0, a1, a2.add(rhs.to_owned())),
            InstructionOf::Bleu(a0, a1, a2) => InstructionOf::Bleu(a0, a1, a2.add(rhs.to_owned())),
            InstructionOf::Jal(a0) => InstructionOf::Jal(a0.add(rhs.to_owned())),
            InstructionOf::Jalr(a0) => InstructionOf::Jalr(a0),
            InstructionOf::Call(a0) => InstructionOf::Call(a0.add(rhs.to_owned())),
            InstructionOf::FenceAll() => InstructionOf::FenceAll(),
        }
    }

    pub fn clone_instruction(&self) -> (r: Self)
        ensures
            r@ == self@,
    {
        match self {
            InstructionOf::Lui(a0, a1) => InstructionOf::Lui(*a0, *a1),
            InstructionOf::Auipc(a0, a1) => InstructionOf::Auipc(*a0, *a1),
            InstructionOf::Beq(a0, a1, a2) => InstructionOf::Beq(*a0, *a1, a2.clone_offset()),
            InstructionOf::Bne(a0, a1, a2) => InstructionOf::Bne(*a0, *a1, a2.clone_offset()),
            InstructionOf::Blt(a0, a1, a2) => InstructionOf::Blt(*a0, *a1, a2.clone_offset()),
            InstructionOf::Bge(a0, a1, a2) => InstructionOf::Bge(*a0, *a1, a2.clone_offset()),
            InstructionOf::Bltu(a0, a1, a2) => InstructionOf::Bltu(*a0, *a1, a2.clone_offset()),
            InstructionOf::Bgeu(a0, a1, a2) => InstructionOf::Bgeu(*a0, *a1, a2.clone_offset()),
            InstructionOf::Lb(a0, a1, a2) => InstructionOf::Lb(*a0, a1.clone_offset(), *a2),
            InstructionOf::Lh(a0, a1, a2) => InstructionOf::Lh(*a0, a1.clone_offset(), *a2),
            InstructionOf::Lw(a0, a1, a2) => InstructionOf::Lw(*a0, a1.clone_offset(), *a2),
            InstructionOf::Lbu(a0, a1, a2) => InstructionOf::Lbu(*a0, *a1, a2.clone_offset()),
            InstructionOf::Lhu(a0, a1, a2) => InstructionOf::Lhu(*a0, *a1, a2.clone_offset()),
            InstructionOf::Addi(a0, a1, a2) => InstructionOf::Addi(*a0, *a1, *a2),
            InstructionOf::Slti(a0, a1, a2) => InstructionOf::Slti(*a0, *a1, *a2),
            InstructionOf::Sltiu(a0, a1, a2) => InstructionOf::Sltiu(*a0, *a1, *a2),
            InstructionOf::Xori(a0, a1, a2) => InstructionOf::Xori(*a0, *a1, *a2),
            InstructionOf::Ori(a0, a1, a2) => InstructionOf::Ori(*a0, *a1, *a2),
            InstructionOf::Andi(a0, a1, a2) => InstructionOf::Andi(*a0, *a1, *a2),
            InstructionOf::Slli(a0, a1, a2) => InstructionOf::Slli(*a0, *a1, *a2),
            InstructionOf::Srli(a0, a1, a2) => InstructionOf::Srli(*a0, *a1, *a2),
            InstructionOf::Srai(a0, a1, a2) => InstructionOf::Srai(*a0, *a1, *a2),
            InstructionOf::Add(a0, a1, a2) => InstructionOf::Add(*a0, *a1, *a2),
            InstructionOf::Sub(a0, a1, a2) => InstructionOf::Sub(*a0, *a1, *a2),
            InstructionOf::Sll(a0, a1, a2) => InstructionOf::Sll(*a0, *a1, *a2),
            InstructionOf::Slt(a0, a1, a2) => InstructionOf::Slt(*a0, *a1, *a2),
            InstructionOf::Sltu(a0, a1, a2) => InstructionOf::Sltu(*a0, *a1, *a2),
            InstructionOf::Xor(a0, a1, a2) => InstructionOf::Xor(*a0, *a1, *a2),
            InstructionOf::Srl(a0, a1, a2) => InstructionOf::Srl(*a0, *a1, *a2),
            InstructionOf::Sra(a0, a1, a2) => InstructionOf::Sra(*a0, *a1, *a2),
            InstructionOf::Or(a0, a1, a2) => InstructionOf::Or(*a0, *a1, *a2),
            InstructionOf::And(a0, a1, a2) => InstructionOf::And(*a0, *a1, *a2),
            InstructionOf::Fence() => InstructionOf::Fence(),
            InstructionOf::FenceI() => InstructionOf::FenceI(),
            InstructionOf::Ecall() => InstructionOf::Ecall(),
            InstructionOf::Ebreak() => InstructionOf::Ebreak(),
            InstructionOf::Csrrw() => InstructionOf::Csrrw(),
            InstructionOf::Csrrs() => InstructionOf::Csrrs(),
            InstructionOf::Csrrc() => InstructionOf::Csrrc(),
            InstructionOf::Csrrwi() => InstructionOf::Csrrwi(),
            InstructionOf::Csrrsi() => InstructionOf::Csrrsi(),
            InstructionOf::Csrrci() => InstructionOf::Csrrci(),
            InstructionOf::Nop() => InstructionOf::Nop(),
            InstructionOf::Neg(a0, a1) => InstructionOf::Neg(*a0, *a1),
            InstructionOf::Negw(a0, a1) => InstructionOf::Negw(*a0, *a1),
            InstructionOf::Snez(a0, a1) => InstructionOf::Snez(*a0, *a1),
            InstructionOf::Sltz(a0, a1) => InstructionOf::Sltz(*a0, *a1),
            InstructionOf::Sgtz(a0, a1) => InstructionOf::Sgtz(*a0, *a1),
            InstructionOf::Beqz(a0, a1) => InstructionOf::Beqz(*a0, a1.clone_offset()),
            InstructionOf::Bnez(a0, a1) => InstructionOf::Bnez(*a0, a1.clone_offset()),
            InstructionOf::Blez(a0, a1) => InstructionOf::Blez(*a0, a1.clone_offset()),
            InstructionOf::Bgez(a0, a1) => InstructionOf::Bgez(*a0, a1.clone_offset()),
            InstructionOf::Bltz(a0, a1) => InstructionOf::Bltz(*a0, a1.clone_offset()),
            InstructionOf::Bgtz(a0, a1) => InstructionOf::Bgtz(*a0, a1.clone_offset()),
            InstructionOf::J(a0) => InstructionOf::J(a0.clone_offset()),
            InstructionOf::Jr(a0) => InstructionOf::Jr(*a0),
            InstructionOf::Ret() => InstructionOf::Ret(),
            InstructionOf::Tail(a0) => InstructionOf::Tail(a0.clone_offset()),
            InstructionOf::Rdinstret() => InstructionOf::Rdinstret(),
            InstructionOf::RdinstretH() => InstructionOf::RdinstretH(),
            InstructionOf::Rdcycle() => InstructionOf::Rdcycle(),
            InstructionOf::RdcycleH() => InstructionOf::RdcycleH(),
            InstructionOf::Rdtime() => InstructionOf::Rdtime(),
            InstructionOf::RdtimeH() => InstructionOf::RdtimeH(),
            InstructionOf::Csrr(a0, a1) => InstructionOf::Csrr(*a0, *a1),
            InstructionOf::Csrw(a0, a1) => InstructionOf::Csrw(*a0, *a1),
            InstructionOf::Csrs(a0, a1) => InstructionOf::Csrs(*a0, *a1),
            InstructionOf::Csrc(a0, a1) => InstructionOf::Csrc(*a0, *a1),
            InstructionOf::Csrwi(a0, a1) => InstructionOf::Csrwi(*a0, *a1),
            InstructionOf::Csrsi(a0, a1) => InstructionOf::Csrsi(*a0, *a1),
            InstructionOf::Csrci(a0, a1) => InstructionOf::Csrci(*a0, *a1),
            InstructionOf::Frcsr(a0) => InstructionOf::Frcsr(*a0),
            InstructionOf::Fscsr(a0) => InstructionOf::Fscsr(*a0),
            InstructionOf::Frrm(a0) => InstructionOf::Frrm(*a0),
            InstructionOf::Fsrm(a0) => InstructionOf::Fsrm(*a0),
            InstructionOf::Frflags(a0) => InstructionOf::Frflags(*a0),
            InstructionOf::Fsflags(a0) => InstructionOf::Fsflags(*a0),
            InstructionOf::Lla(a0, a1) => InstructionOf::Lla(*a0, a1.clone_offset()),
            InstructionOf::La(a0, a1) => InstructionOf::La(*a0, a1.clone_offset()),
            InstructionOf::Ld(a0, a1) => InstructionOf::Ld(*a0, a1.clone_offset()),
            InstructionOf::Sb(a0, a1, a2) => InstructionOf::Sb(*a0, a1.clone_offset(), *a2),
            InstructionOf::Sh(a0, a1, a2) => InstructionOf::Sh(*a0, a1.clone_offset(), *a2),
            InstructionOf::Sw(a0, a1, a2) => InstructionOf::Sw(*a0, a1.clone_offset(), *a2),
            InstructionOf::Sd(a0, a1, a2) => InstructionOf::Sd(*a0, a1.clone_offset(), *a2),
            InstructionOf::Flw(a0, a1, a2) => InstructionOf::Flw(*a0, a1.clone_offset(), *a2),
            InstructionOf::Fld(a0, a1, a2) => InstructionOf::Fld(*a0, a1.clone_offset(), *a2),
            InstructionOf::Fsw(a0, a1, a2) => InstructionOf::Fsw(*a0, a1.clone_offset(), *a2),
            InstructionOf::Fsd(a0, a1, a2) => InstructionOf::Fsd(*a0, a1.clone_offset(), *a2),
            InstructionOf::Li(a0, a1) => InstructionOf::Li(*a0, *a1),
            InstructionOf::Mv(a0, a1) => InstructionOf::Mv(*a0, *a1),
            InstructionOf::Not(a0, a1) => InstructionOf::Not(*a0, *a1),
            InstructionOf::SextW(a0, a1) => InstructionOf::SextW(*a0, *a1),
            InstructionOf::Seqz(a0, a1) => InstructionOf::Seqz(*a0, *a1),
            InstructionOf::FmvS(a0, a1) => InstructionOf::FmvS(*a0, *a1),
            InstructionOf::FabsS(a0, a1) => InstructionOf::FabsS(*a0, *a1),
            InstructionOf::FnegS(a0, a1) => InstructionOf::FnegS(*a0, *a1),
            InstructionOf::FmvD(a0, a1) => InstructionOf::FmvD(*a0, *a1),
            InstructionOf::FabsD(a0, a1) => InstructionOf::FabsD(*a0, *a1),
            InstructionOf::FnegD(a0, a1) => InstructionOf::FnegD(*a0, *a1),
            InstructionOf::Bgt(a0, a1, a2) => InstructionOf::Bgt(*a0, *a1, a2.clone_offset()),
            InstructionOf::Ble(a0, a1, a2) => InstructionOf::Ble(*a0, *a1, a2.clone_offset()),
            InstructionOf::Bgtu(a0, a1, a2) => InstructionOf::Bgtu(*a0, *a1, a2.clone_offset()),
            InstructionOf::Bleu(a0, a1, a2) => InstructionOf::Bleu(*a0, *a1, a2.clone_offset()),
            InstructionOf::Jal(a0) => InstructionOf::Jal(a0.clone_offset()),
            InstructionOf::Jalr(a0) => InstructionOf::Jalr(*a0),
            InstructionOf::Call(a0) => InstructionOf::Call(a0.clone_offset()),
            InstructionOf::FenceAll() => InstructionOf::FenceAll(),
        }
    }

    pub fn mnemonic(&self) -> (name: &'static str)
        ensures
            name@ == spec_mnemonic(self@),
    {
        match self {
            InstructionOf::Lui(..) => "lui",
            InstructionOf::Auipc(..) => "auipc",
            InstructionOf::Beq(..) => "beq",
            InstructionOf::Bne(..) => "bne",
            InstructionOf::Blt(..) => "blt",
            InstructionOf::Bge(..) => "bge",
            InstructionOf::Bltu(..) => "bltu",
            InstructionOf::Bgeu(..) => "bgeu",
            InstructionOf::Lb(..) => "lb",
            InstructionOf::Lh(..) => "lh",
            InstructionOf::Lw(..) => "lw",
            InstructionOf::Lbu(..) => "lbu",
            InstructionOf::Lhu(..) => "lhu",
            InstructionOf::Addi(..) => "addi",
            InstructionOf::Slti(..) => "slti",
            InstructionOf::Sltiu(..) => "sltiu",
            InstructionOf::Xori(..) => "xori",
            InstructionOf::Ori(..) => "ori",
            InstructionOf::Andi(..) => "andi",
            InstructionOf::Slli(..) => "slli",
            InstructionOf::Srli(..) => "srli",
            InstructionOf::Srai(..) => "srai",
            InstructionOf::Add(..) => "add",
            InstructionOf::Sub(..) => "sub",
            InstructionOf::Sll(..) => "sll",
            InstructionOf::Slt(..) => "slt",
            InstructionOf::Sltu(..) => "sltu",
            InstructionOf::Xor(..) => "xor",
            InstructionOf::Srl(..) => "srl",
            InstructionOf::Sra(..) => "sra",
            InstructionOf::Or(..) => "or",
            InstructionOf::And(..) => "and",
            InstructionOf::Fence() => "fence",
            InstructionOf::FenceI() => "fence.i",
            InstructionOf::Ecall() => "ecall",
            InstructionOf::Ebreak() => "ebreak",
            InstructionOf::Csrrw() => "csrrw",
            InstructionOf::Csrrs() => "csrrs",
            InstructionOf::Csrrc() => "csrrc",
            InstructionOf::Csrrwi() => "csrrwi",
            InstructionOf::Csrrsi() => "csrrsi",
            InstructionOf::Csrrci() => "csrrci",
            InstructionOf::Nop() => "nop",
            InstructionOf::Neg(..) => "neg",
            InstructionOf::Negw(..) => "negw",
            InstructionOf::Snez(..) => "snez",
            InstructionOf::Sltz(..) => "sltz",
            InstructionOf::Sgtz(..) => "sgtz",
            InstructionOf::Beqz(..) => "beqz",
            InstructionOf::Bnez(..) => "bnez",
            InstructionOf::Blez(..) => "blez",
            InstructionOf::Bgez(..) => "bgez",
            InstructionOf::Bltz(..) => "bltz",
            InstructionOf::Bgtz(..) => "bgtz",
            InstructionOf::J(..) => "j",
            InstructionOf::Jr(..) => "jr",
            InstructionOf::Ret() => "ret",
            InstructionOf::Tail(..) => "tail",
            InstructionOf::Rdinstret() => "rdinstret",
            InstructionOf::RdinstretH() => "rdinstreth",
            InstructionOf::Rdcycle() => "rdcycle",
            InstructionOf::RdcycleH() => "rdcycleh",
            InstructionOf::Rdtime() => "rdtime",
            InstructionOf::RdtimeH() => "rdtimeh",
            InstructionOf::Csrr(..) => "csrr",
            InstructionOf::Csrw(..) => "csrw",
            InstructionOf::Csrs(..) => "csrs",
            InstructionOf::Csrc(..) => "csrc",
            InstructionOf::Csrwi(..) => "csrwi",
            InstructionOf::Csrsi(..) => "csrsi",
            InstructionOf::Csrci(..) => "csrci",
            InstructionOf::Frcsr(..) => "frcsr",
            InstructionOf::Fscsr(..) => "fscsr",
            InstructionOf::Frrm(..) => "frrm",
            InstructionOf::Fsrm(..) => "fsrm",
            InstructionOf::Frflags(..) => "frflags",
            InstructionOf::Fsflags(..) => "fsflags",
            InstructionOf::Lla(..) => "lla",
            InstructionOf::La(..) => "la",
            InstructionOf::Ld(..) => "ld",
            InstructionOf::Sb(..) => "sb",
            InstructionOf::Sh(..) => "sh",
            InstructionOf::Sw(..) => "sw",
            InstructionOf::Sd(..) => "sd",
            InstructionOf::Flw(..) => "flw",
            InstructionOf::Fld(..) => "fld",
            InstructionOf::Fsw(..) => "fsw",
            InstructionOf::Fsd(..) => "fsd",
            InstructionOf::Li(..) => "li",
            InstructionOf::Mv(..) => "mv",
            InstructionOf::Not(..) => "not",
            InstructionOf::SextW(..) => "sext.w",
            InstructionOf::Seqz(..) => "seqz",
            InstructionOf::FmvS(..) => "fmv.s",
            InstructionOf::FabsS(..) => "fabs.s",
            InstructionOf::FnegS(..) => "fneg.s",
            InstructionOf::FmvD(..) => "fmv.d",
            InstructionOf::FabsD(..) => "fabs.d",
            InstructionOf::FnegD(..) => "fneg.d",
            InstructionOf::Bgt(..) => "bgt",
            InstructionOf::Ble(..) => "ble",
            InstructionOf::Bgtu(..) => "bgtu",
            InstructionOf::Bleu(..) => "bleu",
            InstructionOf::Jal(..) => "jal",
            InstructionOf::Jalr(..) => "jalr",
            InstructionOf::Call(..) => "call",
            InstructionOf::FenceAll() => "fence",
        }
    }

    /// Copies of the operands, in order.
    /// Whether every operand of the instruction can be written out.
    pub fn renders(&self) -> (r: bool)
        ensures
            r == instruction_renders(self@),
    {
        let ops = self.operands();
        let ghost sops = spec_operands(self@);
        let mut k: usize = 0;
        while k < ops.len()
            invariant
                k <= ops@.len(),
                ops@.map_values(|o: Operand| o@) == sops,
                sops == spec_operands(self@),
                forall|j: int| 0 <= j < k ==> operand_renders(#[trigger] sops[j]),
            decreases ops.len() - k,
        {
            assert(sops[k as int] == ops@[k as int]@);
            if !ops[k].renders() {
                return false;
            }
            k = k + 1;
        }
        true
    }

    #[verifier::spinoff_prover]
    #[verifier::rlimit(60)]
    pub fn operands(&self) -> (ops: Vec<Operand>)
        ensures
            ops@.map_values(|o: Operand| o@) == spec_operands(self@),
            ops@.len() <= 3,
    {
        match self {
            InstructionOf::Lui(a0, a1) => {
                let ops = vec![Operand::Reg(*a0), Operand::Imm(*a1)];
                assert(ops@.map_values(|o: Operand| o@) =~= spec_operands(self@));
                ops
            },
            InstructionOf::Auipc(a0, a1) => {
                let ops = vec![Operand::Reg(*a0), Operand::Imm(*a1)];
                assert(ops@.map_values(|o: Operand| o@) =~= spec_operands(self@));
                ops
            },
            InstructionOf::Beq(a0, a1, a2) => {
                let ops = vec![Operand::Reg(*a0), Operand::Reg(*a1), Operand::Off(a2.clone_offset())];
                assert(ops@.map_values(|o: Operand| o@) =~= spec_operands(self@));
                ops
            },
            InstructionOf::Bne(a0, a1, a2) => {
                let ops = vec![Operand::Reg(*a0), Operand::Reg(*a1), Operand::Off(a2.clone_offset())];
                assert(ops@.map_values(|o: Operand| o@) =~= spec_operands(self@));
                ops
            },
            InstructionOf::Blt(a0, a1, a2) => {
                let ops = vec![Operand::Reg(*a0), Operand::Reg(*a1), Operand::Off(a2.clone_offset())];
                assert(ops@.map_values(|o: Operand| o@) =~= spec_operands(self@));
                ops
            },
            InstructionOf::Bge(a0, a1, a2) => {
                let ops = vec![Operand::Reg(*a0), Operand::Reg(*a1), Operand::Off(a2.clone_offset())];
                assert(ops@.map_values(|o: Operand| o@) =~= spec_operands(self@));
                ops
            },
            InstructionOf::Bltu(a0, a1, a2) => {
                let ops = vec![Operand::Reg(*a0), Operand::Reg(*a1), Operand::Off(a2.clone_offset())];
                assert(ops@.map_values(|o: Operand| o@) =~= spec_operands(self@));
                ops
            },
            InstructionOf::Bgeu(a0, a1, a2) => {
                let ops = vec![Operand::Reg(*a0), Operand::Reg(*a1), Operand::Off(a2.clone_offset())];
                assert(ops@.map_values(|o: Operand| o@) =~= spec_operands(self@));
                ops
            },
            InstructionOf::Lb(a0, a1, a2) => {
                let ops = vec![Operand::Reg(*a0), Operand::Off(a1.clone_offset()), Operand::Reg(*a2)];
                assert(ops@.map_values(|o: Operand| o@) =~= spec_operands(self@));
                ops
            },
            InstructionOf::Lh(a0, a1, a2) => {
                let ops = vec![Operand::Reg(*a0), Operand::Off(a1.clone_offset()), Operand::Reg(*a2)];
                assert(ops@.map_values(|o: Operand| o@) =~= spec_operands(self@));
                ops
            },
            InstructionOf::Lw(a0, a1, a2) => {
                let ops = vec![Operand::Reg(*a0), Operand::Off(a1.clone_offset()), Operand::Reg(*a2)];
                assert(ops@.map_values(|o: Operand| o@) =~= spec_operands(self@));
                ops
            },
            InstructionOf::Lbu(a0, a1, a2) => {
                let ops = vec![Operand::Reg(*a0), Operand::Reg(*a1), Operand::Off(a2.clone_offset())];
                assert(ops@.map_values(|o: Operand| o@) =~= spec_operands(self@));
                ops
            },
            InstructionOf::Lhu(a0, a1, a2) => {
                let ops = vec![Operand::Reg(*a0), Operand::Reg(*a1), Operand::Off(a2.clone_offset())];
                assert(ops@.map_values(|o: Operand| o@) =~= spec_operands(self@));
                ops
            },
            InstructionOf::Addi(a0, a1, a2) => {
                let ops = vec![Operand::Reg(*a0), Operand::Reg(*a1), Operand::Imm(*a2)];
                assert(ops@.map_values(|o: Operand| o@) =~= spec_operands(self@));
                ops
            },
            InstructionOf::Slti(a0, a1, a2) => {
                let ops = vec![Operand::Reg(*a0), Operand::Reg(*a1), Operand::Imm(*a2)];
                assert(ops@.map_values(|o: Operand| o@) =~= spec_operands(self@));
                ops
            },
            InstructionOf::Sltiu(a0, a1, a2) => {
                let ops = vec![Operand::Reg(*a0), Operand::Reg(*a1), Operand::Imm(*a2)];
                assert(ops@.map_values(|o: Operand| o@) =~= spec_operands(self@));
                ops
            },
            InstructionOf::Xori(a0, a1, a2) => {
                let ops = vec![Operand::Reg(*a0), Operand::Reg(*a1), Operand::Imm(*a2)];
                assert(ops@.map_values(|o: Operand| o@) =~= spec_operands(self@));
                ops
            },
            InstructionOf::Ori(a0, a1, a2) => {
                let ops = vec![Operand::Reg(*a0), Operand::Reg(*a1), Operand::Imm(*a2)];
                assert(ops@.map_values(|o: Operand| o@) =~= spec_operands(self@));
                ops
            },
            InstructionOf::Andi(a0, a1, a2) => {
                let ops = vec![Operand::Reg(*a0), Operand::Reg(*a1), Operand::Imm(*a2)];
                assert(ops@.map_values(|o: Operand| o@) =~= spec_operands(self@));
                ops
            },
            InstructionOf::Slli(a0, a1, a2) => {
                let ops = vec![Operand::Reg(*a0), Operand::Reg(*a1), Operand::Imm(*a2)];
                assert(ops@.map_values(|o: Operand| o@) =~= spec_operands(self@));
                ops
            },
            InstructionOf::Srli(a0, a1, a2) => {
                let ops = vec![Operand::Reg(*a0), Operand::Reg(*a1), Operand::Imm(*a2)];
                assert(ops@.map_values(|o: Operand| o@) =~= spec_operands(self@));
                ops
            },
            InstructionOf::Srai(a0, a1, a2) => {
                let ops = vec![Operand::Reg(*a0), Operand::Reg(*a1), Operand::Imm(*a2)];
                assert(ops@.map_values(|o: Operand| o@) =~= spec_operands(self@));
                ops
            },
            InstructionOf::Add(a0, a1, a2) => {
                let ops = vec![Operand::Reg(*a0), Operand::Reg(*a1), Operand::Reg(*a2)];
                assert(ops@.map_values(|o: Operand| o@) =~= spec_operands(self@));
                ops
            },
            InstructionOf::Sub(a0, a1, a2) => {
                let ops = vec![Operand::Reg(*a0), Operand::Reg(*a1), Operand::Reg(*a2)];
                assert(ops@.map_values(|o: Operand| o@) =~= spec_operands(self@));
                ops
            },
            InstructionOf::Sll(a0, a1, a2) => {
                let ops = vec![Operand::Reg(*a0), Operand::Reg(*a1), Operand::Reg(*a2)];
                assert(ops@.map_values(|o: Operand| o@) =~= spec_operands(self@));
                ops
            },
            InstructionOf::Slt(a0, a1, a2) => {
                let ops = vec![Operand::Reg(*a0), Operand::Reg(*a1), Operand::Reg(*a2)];
                assert(ops@.map_values(|o: Operand| o@) =~= spec_operands(self@));
                ops
            },
            InstructionOf::Sltu(a0, a1, a2) => {
                let ops = vec![Operand::Reg(*a0), Operand::Reg(*a1), Operand::Reg(*a2)];
                assert(ops@.map_values(|o: Operand| o@) =~= spec_operands(self@));
                ops
            },
            InstructionOf::Xor(a0, a1, a2) => {
                let ops = vec![Operand::Reg(*a0), Operand::Reg(*a1), Operand::Reg(*a2)];
                assert(ops@.map_values(|o: Operand| o@) =~= spec_operands(self@));
                ops
            },
            InstructionOf::Srl(a0, a1, a2) => {
                let ops = vec![Operand::Reg(*a0), Operand::Reg(*a1), Operand::Reg(*a2)];
                assert(ops@.map_values(|o: Operand| o@) =~= spec_operands(self@));
                ops
            },
            InstructionOf::Sra(a0, a1, a2) => {
                let ops = vec![Operand::Reg(*a0), Operand::Reg(*a1), Operand::Reg(*a2)];
                assert(ops@.map_values(|o: Operand| o@) =~= spec_operands(self@));
                ops
            },
            InstructionOf::Or(a0, a1, a2) => {
                let ops = vec![Operand::Reg(*a0), Operand::Reg(*a1), Operand::Reg(*a2)];
                assert(ops@.map_values(|o: Operand| o@) =~= spec_operands(self@));
                ops
            },
            InstructionOf::And(a0, a1, a2) => {
                let ops = vec![Operand::Reg(*a0), Operand::Reg(*a1), Operand::Reg(*a2)];
                assert(ops@.map_values(|o: Operand| o@) =~= spec_operands(self@));
                ops
            },
            InstructionOf::Fence() => {
                let ops = vec![];
                assert(ops@.map_values(|o: Operand| o@) =~= spec_operands(self@));
                ops
            },
            InstructionOf::FenceI() => {
                let ops = vec![];
                assert(ops@.map_values(|o: Operand| o@) =~= spec_operands(self@));
                ops
            },
            InstructionOf::Ecall() => {
                let ops = vec![];
                assert(ops@.map_values(|o: Operand| o@) =~= spec_operands(self@));
                ops
            },
            InstructionOf::Ebreak() => {
                let ops = vec![];
                assert(ops@.map_values(|o: Operand| o@) =~= spec_operands(self@));
                ops
            },
            InstructionOf::Csrrw() => {
                let ops = vec![];
                assert(ops@.map_values(|o: Operand| o@) =~= spec_operands(self@));
                ops
            },
            InstructionOf::Csrrs() => {
                let ops = vec![];
                assert(ops@.map_values(|o: Operand| o@) =~= spec_operands(self@));
                ops
            },
            InstructionOf::Csrrc() => {
                let ops = vec![];
                assert(ops@.map_values(|o: Operand| o@) =~= spec_operands(self@));
                ops
            },
            InstructionOf::Csrrwi() => {
                let ops = vec![];
                assert(ops@.map_values(|o: Operand| o@) =~= spec_operands(self@));
                ops
            },
            InstructionOf::Csrrsi() => {
                let ops = vec![];
                assert(ops@.map_values(|o: Operand| o@) =~= spec_operands(self@));
                ops
            },
            InstructionOf::Csrrci() => {
                let ops = vec![];
                assert(ops@.map_values(|o: Operand| o@) =~= spec_operands(self@));
                ops
            },
            InstructionOf::Nop() => {
                let ops = vec![];
                assert(ops@.map_values(|o: Operand| o@) =~= spec_operands(self@));
                ops
            },
            InstructionOf::Neg(a0, a1) => {
                let ops = vec![Operand::Reg(*a0), Operand::Reg(*a1)];
                assert(ops@.map_values(|o: Operand| o@) =~= spec_operands(self@));
                ops
            },
            InstructionOf::Negw(a0, a1) => {
                let ops = vec![Operand::Reg(*a0), Operand::Reg(*a1)];
                assert(ops@.map_values(|o: Operand| o@) =~= spec_operands(self@));
                ops
            },
            InstructionOf::Snez(a0, a1) => {
                let ops = vec![Operand::Reg(*a0), Operand::Reg(*a1)];
                assert(ops@.map_values(|o: Operand| o@) =~= spec_operands(self@));
                ops
            },
            InstructionOf::Sltz(a0, a1) => {
                let ops = vec![Operand::Reg(*a0), Operand::Reg(*a1)];
                assert(ops@.map_values(|o: Operand| o@) =~= spec_operands(self@));
                ops
            },
            InstructionOf::Sgtz(a0, a1) => {
                let ops = vec![Operand::Reg(*a0), Operand::Reg(*a1)];
                assert(ops@.map_values(|o: Operand| o@) =~= spec_operands(self@));
                ops
            },
            InstructionOf::Beqz(a0, a1) => {
                let ops = vec![Operand::Reg(*a0), Operand::Off(a1.clone_offset())];
                assert(ops@.map_values(|o: Operand| o@) =~= spec_operands(self@));
                ops
            },
            InstructionOf::Bnez(a0, a1) => {
                let ops = vec![Operand::Reg(*a0), Operand::Off(a1.clone_offset())];
                assert(ops@.map_values(|o: Operand| o@) =~= spec_operands(self@));
                ops
            },
            InstructionOf::Blez(a0, a1) => {
                let ops = vec![Operand::Reg(*a0), Operand::Off(a1.clone_offset())];
                assert(ops@.map_values(|o: Operand| o@) =~= spec_operands(self@));
                ops
            },
            InstructionOf::Bgez(a0, a1) => {
                let ops = vec![Operand::Reg(*a0), Operand::Off(a1.clone_offset())];
                assert(ops@.map_values(|o: Operand| o@) =~= spec_operands(self@));
                ops
            },
            InstructionOf::Bltz(a0, a1) => {
                let ops = vec![Operand::Reg(*a0), Operand::Off(a1.clone_offset())];
                assert(ops@.map_values(|o: Operand| o@) =~= spec_operands(self@));
                ops
            },
            InstructionOf::Bgtz(a0, a1) => {
                let ops = vec![Operand::Reg(*a0), Operand::Off(a1.clone_offset())];
                assert(ops@.map_values(|o: Operand| o@) =~= spec_operands(self@));
                ops
            },
            InstructionOf::J(a0) => {
                let ops = vec![Operand::Off(a0.clone_offset())];
                assert(ops@.map_values(|o: Operand| o@) =~= spec_operands(self@));
                ops
            },
            InstructionOf::Jr(a0) => {
                let ops = vec![Operand::Reg(*a0)];
                assert(ops@.map_values(|o: Operand| o@) =~= spec_operands(self@));
                ops
            },
            InstructionOf::Ret() => {
                let ops = vec![];
                assert(ops@.map_values(|o: Operand| o@) =~= spec_operands(self@));
                ops
            },
            InstructionOf::Tail(a0) => {
                let ops = vec![Operand::Off(a0.clone_offset())];
                assert(ops@.map_values(|o: Operand| o@) =~= spec_operands(self@));
                ops
            },
            InstructionOf::Rdinstret() => {
                let ops = vec![];
                assert(ops@.map_values(|o: Operand| o@) =~= spec_operands(self@));
                ops
            },
            InstructionOf::RdinstretH() => {
                let ops = vec![];
                assert(ops@.map_values(|o: Operand| o@) =~= spec_operands(self@));
                ops
            },
            InstructionOf::Rdcycle() => {
                let ops = vec![];
                assert(ops@.map_values(|o: Operand| o@) =~= spec_operands(self@));
                ops
            },
            InstructionOf::RdcycleH() => {
                let ops = vec![];
                assert(ops@.map_values(|o: Operand| o@) =~= spec_operands(self@));
                ops
            },
            InstructionOf::Rdtime() => {
                let ops = vec![];
                assert(ops@.map_values(|o: Operand| o@) =~= spec_operands(self@));
                ops
            },
            InstructionOf::RdtimeH() => {
                let ops = vec![];
                assert(ops@.map_values(|o: Operand| o@) =~= spec_operands(self@));
                ops
            },
            InstructionOf::Csrr(a0, a1) => {
                let ops = vec![Operand::Reg(*a0), Operand::Reg(*a1)];
                assert(ops@.map_values(|o: Operand| o@) =~= spec_operands(self@));
                ops
            },
            InstructionOf::Csrw(a0, a1) => {
                let ops = vec![Operand::Reg(*a0), Operand::Reg(*a1)];
                assert(ops@.map_values(|o: Operand| o@) =~= spec_operands(self@));
                ops
            },
            InstructionOf::Csrs(a0, a1) => {
                let ops = vec![Operand::Reg(*a0), Operand::Reg(*a1)];
                assert(ops@.map_values(|o: Operand| o@) =~= spec_operands(self@));
                ops
            },
            InstructionOf::Csrc(a0, a1) => {
                let ops = vec![Operand::Reg(*a0), Operand::Reg(*a1)];
                assert(ops@.map_values(|o: Operand| o@) =~= spec_operands(self@));
                ops
            },
            InstructionOf::Csrwi(a0, a1) => {
                let ops = vec![Operand::Reg(*a0), Operand::Imm(*a1)];
                assert(ops@.map_values(|o: Operand| o@) =~= spec_operands(self@));
                ops
            },
            InstructionOf::Csrsi(a0, a1) => {
                let ops = vec![Operand::Reg(*a0), Operand::Imm(*a1)];
                assert(ops@.map_values(|o: Operand| o@) =~= spec_operands(self@));
                ops
            },
            InstructionOf::Csrci(a0, a1) => {
                let ops = vec![Operand::Reg(*a0), Operand::Imm(*a1)];
                assert(ops@.map_values(|o: Operand| o@) =~= spec_operands(self@));
                ops
            },
            InstructionOf::Frcsr(a0) => {
                let ops = vec![Operand::Reg(*a0)];
                assert(ops@.map_values(|o: Operand| o@) =~= spec_operands(self@));
                ops
            },
            InstructionOf::Fscsr(a0) => {
                let ops = vec![Operand::Reg(*a0)];
                assert(ops@.map_values(|o: Operand| o@) =~= spec_operands(self@));
                ops
            },
            InstructionOf::Frrm(a0) => {
                let ops = vec![Operand::Reg(*a0)];
                assert(ops@.map_values(|o: Operand| o@) =~= spec_operands(self@));
                ops
            },
            InstructionOf::Fsrm(a0) => {
                let ops = vec![Operand::Reg(*a0)];
                assert(ops@.map_values(|o: Operand| o@) =~= spec_operands(self@));
                ops
            },
            InstructionOf::Frflags(a0) => {
                let ops = vec![Operand::Reg(*a0)];
                assert(ops@.map_values(|o: Operand| o@) =~= spec_operands(self@));
                ops
            },
            InstructionOf::Fsflags(a0) => {
                let ops = vec![Operand::Reg(*a0)];
                assert(ops@.map_values(|o: Operand| o@) =~= spec_operands(self@));
                ops
            },
            InstructionOf::Lla(a0, a1) => {
                let ops = vec![Operand::Reg(*a0), Operand::Off(a1.clone_offset())];
                assert(ops@.map_values(|o: Operand| o@) =~= spec_operands(self@));
                ops
            },
            InstructionOf::La(a0, a1) => {
                let ops = vec![Operand::Reg(*a0), Operand::Off(a1.clone_offset())];
                assert(ops@.map_values(|o: Operand| o@) =~= spec_operands(self@));
                ops
            },
            InstructionOf::Ld(a0, a1) => {
                let ops = vec![Operand::Reg(*a0), Operand::Off(a1.clone_offset())];
                assert(ops@.map_values(|o: Operand| o@) =~= spec_operands(self@));
                ops
            },
            InstructionOf::Sb(a0, a1, a2) => {
                let ops = vec![Operand::Reg(*a0), Operand::Off(a1.clone_offset()), Operand::Reg(*a2)];
                assert(ops@.map_values(|o: Operand| o@) =~= spec_operands(self@));
                ops
            },
            InstructionOf::Sh(a0, a1, a2) => {
                let ops = vec![Operand::Reg(*a0), Operand::Off(a1.clone_offset()), Operand::Reg(*a2)];
                assert(ops@.map_values(|o: Operand| o@) =~= spec_operands(self@));
                ops
            },
            InstructionOf::Sw(a0, a1, a2) => {
                let ops = vec![Operand::Reg(*a0), Operand::Off(a1.clone_offset()), Operand::Reg(*a2)];
                assert(ops@.map_values(|o: Operand| o@) =~= spec_operands(self@));
                ops
            },
            InstructionOf::Sd(a0, a1, a2) => {
                let ops = vec![Operand::Reg(*a0), Operand::Off(a1.clone_offset()), Operand::Reg(*a2)];
                assert(ops@.map_values(|o: Operand| o@) =~= spec_operands(self@));
                ops
            },
            InstructionOf::Flw(a0, a1, a2) => {
                let ops = vec![Operand::Reg(*a0), Operand::Off(a1.clone_offset()), Operand::Reg(*a2)];
                assert(ops@.map_values(|o: Operand| o@) =~= spec_operands(self@));
                ops
            },
            InstructionOf::Fld(a0, a1, a2) => {
                let ops = vec![Operand::Reg(*a0), Operand::Off(a1.clone_offset()), Operand::Reg(*a2)];
                assert(ops@.map_values(|o: Operand| o@) =~= spec_operands(self@));
                ops
            },
            InstructionOf::Fsw(a0, a1, a2) => {
                let ops = vec![Operand::Reg(*a0), Operand::Off(a1.clone_offset()), Operand::Reg(*a2)];
                assert(ops@.map_values(|o: Operand| o@) =~= spec_operands(self@));
                ops
            },
            InstructionOf::Fsd(a0, a1, a2) => {
                let ops = vec![Operand::Reg(*a0), Operand::Off(a1.clone_offset()), Operand::Reg(*a2)];
                assert(ops@.map_values(|o: Operand| o@) =~= spec_operands(self@));
                ops
            },
            InstructionOf::Li(a0, a1) => {
                let ops = vec![Operand::Reg(*a0), Operand::Imm(*a1)];
                assert(ops@.map_values(|o: Operand| o@) =~= spec_operands(self@));
                ops
            },
            InstructionOf::Mv(a0, a1) => {
                let ops = vec![Operand::Reg(*a0), Operand::Reg(*a1)];
                assert(ops@.map_values(|o: Operand| o@) =~= spec_operands(self@));
                ops
            },
            InstructionOf::Not(a0, a1) => {
                let ops = vec![Operand::Reg(*a0), Operand::Reg(*a1)];
                assert(ops@.map_values(|o: Operand| o@) =~= spec_operands(self@));
                ops
            },
            InstructionOf::SextW(a0, a1) => {
                let ops = vec![Operand::Reg(*a0), Operand::Reg(*a1)];
                assert(ops@.map_values(|o: Operand| o@) =~= spec_operands(self@));
                ops
            },
            InstructionOf::Seqz(a0, a1) => {
                let ops = vec![Operand::Reg(*a0), Operand::Reg(*a1)];
                assert(ops@.map_values(|o: Operand| o@) =~= spec_operands(self@));
                ops
            },
            InstructionOf::FmvS(a0, a1) => {
                let ops = vec![Operand::Reg(*a0), Operand::Reg(*a1)];
                assert(ops@.map_values(|o: Operand| o@) =~= spec_operands(self@));
                ops
            },
            InstructionOf::FabsS(a0, a1) => {
                let ops = vec![Operand::Reg(*a0), Operand::Reg(*a1)];
                assert(ops@.map_values(|o: Operand| o@) =~= spec_operands(self@));
                ops
            },
            InstructionOf::FnegS(a0, a1) => {
                let ops = vec![Operand::Reg(*a0), Operand::Reg(*a1)];
                assert(ops@.map_values(|o: Operand| o@) =~= spec_operands(self@));
                ops
            },
            InstructionOf::FmvD(a0, a1) => {
                let ops = vec![Operand::Reg(*a0), Operand::Reg(*a1)];
                assert(ops@.map_values(|o: Operand| o@) =~= spec_operands(self@));
                ops
            },
            InstructionOf::FabsD(a0, a1) => {
                let ops = vec![Operand::Reg(*a0), Operand::Reg(*a1)];
                assert(ops@.map_values(|o: Operand| o@) =~= spec_operands(self@));
                ops
            },
            InstructionOf::FnegD(a0, a1) => {
                let ops = vec![Operand::Reg(*a0), Operand::Reg(*a1)];
                assert(ops@.map_values(|o: Operand| o@) =~= spec_operands(self@));
                ops
            },
            InstructionOf::Bgt(a0, a1, a2) => {
                let ops = vec![Operand::Reg(*a0), Operand::Reg(*a1), Operand::Off(a2.clone_offset())];
                assert(ops@.map_values(|o: Operand| o@) =~= spec_operands(self@));
                ops
            },
            InstructionOf::Ble(a0, a1, a2) => {
                let ops = vec![Operand::Reg(*a0), Operand::Reg(*a1), Operand::Off(a2.clone_offset())];
                assert(ops@.map_values(|o: Operand| o@) =~= spec_operands(self@));
                ops
            },
            InstructionOf::Bgtu(a0, a1, a2) => {
                let ops = vec![Operand::Reg(*a0), Operand::Reg(*a1), Operand::Off(a2.clone_offset())];
                assert(ops@.map_values(|o: Operand| o@) =~= spec_operands(self@));
                ops
            },
            InstructionOf::Bleu(a0, a1, a2) => {
                let ops = vec![Operand::Reg(*a0), Operand::Reg(*a1), Operand::Off(a2.clone_offset())];
                assert(ops@.map_values(|o: Operand| o@) =~= spec_operands(self@));
                ops
            },
            InstructionOf::Jal(a0) => {
                let ops = vec![Operand::Off(a0.clone_offset())];
                assert(ops@.map_values(|o: Operand| o@) =~= spec_operands(self@));
                ops
            },
            InstructionOf::Jalr(a0) => {
                let ops = vec![Operand::Reg(*a0)];
                assert(ops@.map_values(|o: Operand| o@) =~= spec_operands(self@));
                ops
            },
            InstructionOf::Call(a0) => {
                let ops = vec![Operand::Off(a0.clone_offset())];
                assert(ops@.map_values(|o: Operand| o@) =~= spec_operands(self@));
                ops
            },
            InstructionOf::FenceAll() => {
                let ops = vec![];
                assert(ops@.map_values(|o: Operand| o@) =~= spec_operands(self@));
                ops
            },
        }
    }

    /// Appends the instruction's text.
    pub fn render(&self, out: &mut String, alternate: bool)
        requires
            instruction_renders(self@),
        ensures
            final(out)@ == old(out)@ + instruction_text(self@, alternate),
    {
        let name = self.mnemonic();
        let ops = self.operands();
        let ghost sops = spec_operands(self@);
        render_head(out, name, ops.len(), alternate);
        let ghost start = out@;
        let mut k: usize = 0;
        while k < ops.len()
            invariant
                k <= ops@.len() <= 3,
                ops@.map_values(|o: Operand| o@) == sops,
                sops == spec_operands(self@),
                instruction_renders(self@),
                out@ == start + operands_text(sops.subrange(0, k as int), alternate),
            decreases ops.len() - k,
        {
            assert(sops[k as int] == ops@[k as int]@);
            assert(operand_renders(sops[k as int]));
            if k > 0 {
                push_str(out, ", ");
            }
            match &ops[k] {
                Operand::Reg(r) => r.render(out, alternate),
                Operand::Imm(i) => i.render(out, alternate),
                Operand::Off(o) => o.render(out, alternate),
            }
            proof {
                let sub = sops.subrange(0, k + 1);
                assert(sub.drop_last() =~= sops.subrange(0, k as int));
                if k == 0 {
                    assert(operands_text(sops.subrange(0, 0), alternate) =~= Seq::empty());
                }
            }
            k = k + 1;
            proof {
                assert(out@ =~= start + operands_text(sops.subrange(0, k as int), alternate));
            }
        }
        assert(sops.subrange(0, k as int) =~= sops);
    }
}

/// The model of an instruction name written with no operands: the first
/// instruction with that mnemonic, if it takes none.
pub open spec fn spec_from_0(name: Spanned<Seq<char>>, s: SpecSummary) -> (Option<SpecInstruction>, SpecSummary) {
    if name.value == "lui"@ {
        (None, s)
    } else if name.value == "auipc"@ {
        (None, s)
    } else if name.value == "beq"@ {
        (None, s)
    } else if name.value == "bne"@ {
        (None, s)
    } else if name.value == "blt"@ {
        (None, s)
    } else if name.value == "bge"@ {
        (None, s)
    } else if name.value == "bltu"@ {
        (None, s)
    } else if name.value == "bgeu"@ {
        (None, s)
    } else if name.value == "lb"@ {
        (None, s)
    } else if name.value == "lh"@ {
        (None, s)
    } else if name.value == "lw"@ {
        (None, s)
    } else if name.value == "lbu"@ {
        (None, s)
    } else if name.value == "lhu"@ {
        (None, s)
    } else if name.value == "addi"@ {
        (None, s)
    } else if name.value == "slti"@ {
        (None, s)
    } else if name.value == "sltiu"@ {
        (None, s)
    } else if name.value == "xori"@ {
        (None, s)
    } else if name.value == "ori"@ {
        (None, s)
    } else if name.value == "andi"@ {
        (None, s)
    } else if name.value == "slli"@ {
        (None, s)
    } else if name.value == "srli"@ {
        (None, s)
    } else if name.value == "srai"@ {
        (None, s)
    } else if name.value == "add"@ {
        (None, s)
    } else if name.value == "sub"@ {
        (None, s)
    } else if name.value == "sll"@ {
        (None, s)
    } else if name.value == "slt"@ {
        (None, s)
    } else if name.value == "sltu"@ {
        (None, s)
    } else if name.value == "xor"@ {
        (None, s)
    } else if name.value == "srl"@ {
        (None, s)
    } else if name.value == "sra"@ {
        (None, s)
    } else if name.value == "or"@ {
        (None, s)
    } else if name.value == "and"@ {
        (None, s)
    } else if name.value == "fence"@ {
        (Some(InstructionOf::Fence()), s)
    } else if name.value == "fencei"@ {
        (Some(InstructionOf::FenceI()), s)
    } else if name.value == "ecall"@ {
        (Some(InstructionOf::Ecall()), s)
    } else if name.value == "ebreak"@ {
        (Some(InstructionOf::Ebreak()), s)
    } else if name.value == "csrrw"@ {
        (Some(InstructionOf::Csrrw()), s)
    } else if name.value == "csrrs"@ {
        (Some(InstructionOf::Csrrs()), s)
    } else if name.value == "csrrc"@ {
        (Some(InstructionOf::Csrrc()), s)
    } else if name.value == "csrrwi"@ {
        (Some(InstructionOf::Csrrwi()), s)
    } else if name.value == "csrrsi"@ {
        (Some(InstructionOf::Csrrsi()), s)
    } else if name.value == "csrrci"@ {
        (Some(InstructionOf::Csrrci()), s)
    } else if name.value == "nop"@ {
        (Some(InstructionOf::Nop()), s)
    } else if name.value == "neg"@ {
        (None, s)
    } else if name.value == "negw"@ {
        (None, s)
    } else if name.value == "snez"@ {
        (None, s)
    } else if name.value == "sltz"@ {
        (None, s)
    } else if name.value == "sgtz"@ {
        (None, s)
    } else if name.value == "beqz"@ {
        (None, s)
    } else if name.value == "bnez"@ {
        (None, s)
    } else if name.value == "blez"@ {
        (None, s)
    } else if name.value == "bgez"@ {
        (None, s)
    } else if name.value == "bltz"@ {
        (None, s)
    } else if name.value == "bgtz"@ {
        (None, s)
    } else if name.value == "j"@ {
        (None, s)
    } else if name.value == "jr"@ {
        (None, s)
    } else if name.value == "ret"@ {
        (Some(InstructionOf::Ret()), s)
    } else if name.value == "tail"@ {
        (None, s)
    } else if name.value == "rdinstret"@ {
        (Some(InstructionOf::Rdinstret()), s)
    } else if name.value == "rdinstreth"@ {
        (Some(InstructionOf::RdinstretH()), s)
    } else if name.value == "rdcycle"@ {
        (Some(InstructionOf::Rdcycle()), s)
    } else if name.value == "rdcycleh"@ {
        (Some(InstructionOf::RdcycleH()), s)
    } else if name.value == "rdtime"@ {
        (Some(InstructionOf::Rdtime()), s)
    } else if name.value == "rdtimeh"@ {
        (Some(InstructionOf::RdtimeH()), s)
    } else if name.value == "csrr"@ {
        (None, s)
    } else if name.value == "csrw"@ {
        (None, s)
    } else if name.value == "csrs"@ {
        (None, s)
    } else if name.value == "csrc"@ {
        (None, s)
    } else if name.value == "csrwi"@ {
        (None, s)
    } else if name.value == "csrsi"@ {
        (None, s)
    } else if name.value == "csrci"@ {
        (None, s)
    } else if name.value == "frcsr"@ {
        (None, s)
    } else if name.value == "fscsr"@ {
        (None, s)
    } else if name.value == "frrm"@ {
        (None, s)
    } else if name.value == "fsrm"@ {
        (None, s)
    } else if name.value == "frflags"@ {
        (None, s)
    } else if name.value == "fsflags"@ {
        (None, s)
    } else if name.value == "lla"@ {
        (None, s)
    } else if name.value == "la"@ {
        (None, s)
    } else if name.value == "ld"@ {
        (None, s)
    } else if name.value == "sb"@ {
        (None, s)
    } else if name.value == "sh"@ {
        (None, s)
    } else if name.value == "sw"@ {
        (None, s)
    } else if name.value == "sd"@ {
        (None, s)
    } else if name.value == "flw"@ {
        (None, s)
    } else if name.value == "fld"@ {
        (None, s)
    } else if name.value == "fsw"@ {
        (None, s)
    } else if name.value == "fsd"@ {
        (None, s)
    } else if name.value == "li"@ {
        (None, s)
    } else if name.value == "mv"@ {
        (None, s)
    } else if name.value == "not"@ {
        (None, s)
    } else if name.value == "sextw"@ {
        (None, s)
    } else if name.value == "seqz"@ {
        (None, s)
    } else if name.value == "fmvs"@ {
        (None, s)
    } else if name.value == "fabss"@ {
        (None, s)
    } else if name.value == "fnegs"@ {
        (None, s)
    } else if name.value == "fmvd"@ {
        (None, s)
    } else if name.value == "fabsd"@ {
        (None, s)
    } else if name.value == "fnegd"@ {
        (None, s)
    } else if name.value == "bgt"@ {
        (None, s)
    } else if name.value == "ble"@ {
        (None, s)
    } else if name.value == "bgtu"@ {
        (None, s)
    } else if name.value == "bleu"@ {
        (None, s)
    } else if name.value == "jal"@ {
        (None, s)
    } else if name.value == "jalr"@ {
        (None, s)
    } else if name.value == "call"@ {
        (None, s)
    } else {
        (None, spec_error(s, AnalyzeError::InsNotExist(AnalyzeInsNotExist { location: name.span })))
    }
}

/// The model of an instruction name written with 1 operand.
pub open spec fn spec_from_1(name: Spanned<Seq<char>>, arg0: SpecExpr, s: SpecSummary) -> (Option<SpecInstruction>, SpecSummary) {
    if name.value == "j"@ {
        { let (r0, s1) = spec_offset_from_expr(arg0, s); match r0 { Some(v0) => (Some(InstructionOf::J(v0)), s1), None => (None, s1) } }
    } else if name.value == "jr"@ {
        { let (r0, s1) = spec_register_from_expr(arg0, s); match r0 { Some(v0) => (Some(InstructionOf::Jr(v0)), s1), None => (None, s1) } }
    } else if name.value == "tail"@ {
        { let (r0, s1) = spec_offset_from_expr(arg0, s); match r0 { Some(v0) => (Some(InstructionOf::Tail(v0)), s1), None => (None, s1) } }
    } else if name.value == "frcsr"@ {
        { let (r0, s1) = spec_register_from_expr(arg0, s); match r0 { Some(v0) => (Some(InstructionOf::Frcsr(v0)), s1), None => (None, s1) } }
    } else if name.value == "fscsr"@ {
        { let (r0, s1) = spec_register_from_expr(arg0, s); match r0 { Some(v0) => (Some(InstructionOf::Fscsr(v0)), s1), None => (None, s1) } }
    } else if name.value == "frrm"@ {
        { let (r0, s1) = spec_register_from_expr(arg0, s); match r0 { Some(v0) => (Some(InstructionOf::Frrm(v0)), s1), None => (None, s1) } }
    } else if name.value == "fsrm"@ {
        { let (r0, s1) = spec_register_from_expr(arg0, s); match r0 { Some(v0) => (Some(InstructionOf::Fsrm(v0)), s1), None => (None, s1) } }
    } else if name.value == "frflags"@ {
        { let (r0, s1) = spec_register_from_expr(arg0, s); match r0 { Some(v0) => (Some(InstructionOf::Frflags(v0)), s1), None => (None, s1) } }
    } else if name.value == "fsflags"@ {
        { let (r0, s1) = spec_register_from_expr(arg0, s); match r0 { Some(v0) => (Some(InstructionOf::Fsflags(v0)), s1), None => (None, s1) } }
    } else if name.value == "jal"@ {
        { let (r0, s1) = spec_offset_from_expr(arg0, s); match r0 { Some(v0) => (Some(InstructionOf::Jal(v0)), s1), None => (None, s1) } }
    } else if name.value == "jalr"@ {
        { let (r0, s1) = spec_register_from_expr(arg0, s); match r0 { Some(v0) => (Some(InstructionOf::Jalr(v0)), s1), None => (None, s1) } }
    } else if name.value == "call"@ {
        { let (r0, s1) = spec_offset_from_expr(arg0, s); match r0 { Some(v0) => (Some(InstructionOf::Call(v0)), s1), None => (None, s1) } }
    } else {
        (None, spec_error(s, AnalyzeError::InsNotExist(AnalyzeInsNotExist { location: name.span })))
    }
}

/// The model of an instruction name written with 2 operands.
pub open spec fn spec_from_2(name: Spanned<Seq<char>>, arg0: SpecExpr, arg1: SpecExpr, s: SpecSummary) -> (Option<SpecInstruction>, SpecSummary) {
    if name.value == "lui"@ {
        { let (r0, s1) = spec_register_from_expr(arg0, s); match r0 { Some(v0) => { let (r1, s2) = spec_imm_from_expr(arg1, s1); match r1 { Some(v1) => (Some(InstructionOf::Lui(v0, v1)), s2), None => (None, s2) } }, None => (None, s1) } }
    } else if name.value == "auipc"@ {
        { let (r0, s1) = spec_register_from_expr(arg0, s); match r0 { Some(v0) => { let (r1, s2) = spec_imm_from_expr(arg1, s1); match r1 { Some(v1) => (Some(InstructionOf::Auipc(v0, v1)), s2), None => (None, s2) } }, None => (None, s1) } }
    } else if name.value == "neg"@ {
        { let (r0, s1) = spec_register_from_expr(arg0, s); match r0 { Some(v0) => { let (r1, s2) = spec_register_from_expr(arg1, s1); match r1 { Some(v1) => (Some(InstructionOf::Neg(v0, v1)), s2), None => (None, s2) } }, None => (None, s1) } }
    } else if name.value == "negw"@ {
        { let (r0, s1) = spec_register_from_expr(arg0, s); match r0 { Some(v0) => { let (r1, s2) = spec_register_from_expr(arg1, s1); match r1 { Some(v1) => (Some(InstructionOf::Negw(v0, v1)), s2), None => (None, s2) } }, None => (None, s1) } }
    } else if name.value == "snez"@ {
        { let (r0, s1) = spec_register_from_expr(arg0, s); match r0 { Some(v0) => { let (r1, s2) = spec_register_from_expr(arg1, s1); match r1 { Some(v1) => (Some(InstructionOf::Snez(v0, v1)), s2), None => (None, s2) } }, None => (None, s1) } }
    } else if name.value == "sltz"@ {
        { let (r0, s1) = spec_register_from_expr(arg0, s); match r0 { Some(v0) => { let (r1, s2) = spec_register_from_expr(arg1, s1); match r1 { Some(v1) => (Some(InstructionOf::Sltz(v0, v1)), s2), None => (None, s2) } }, None => (None, s1) } }
    } else if name.value == "sgtz"@ {
        { let (r0, s1) = spec_register_from_expr(arg0, s); match r0 { Some(v0) => { let (r1, s2) = spec_register_from_expr(arg1, s1); match r1 { Some(v1) => (Some(InstructionOf::Sgtz(v0, v1)), s2), None => (None, s2) } }, None => (None, s1) } }
    } else if name.value == "beqz"@ {
        { let (r0, s1) = spec_register_from_expr(arg0, s); match r0 { Some(v0) => { let (r1, s2) = spec_offset_from_expr(arg1, s1); match r1 { Some(v1) => (Some(InstructionOf::Beqz(v0, v1)), s2), None => (None, s2) } }, None => (None, s1) } }
    } else if name.value == "bnez"@ {
        { let (r0, s1) = spec_register_from_expr(arg0, s); match r0 { Some(v0) => { let (r1, s2) = spec_offset_from_expr(arg1, s1); match r1 { Some(v1) => (Some(InstructionOf::Bnez(v0, v1)), s2), None => (None, s2) } }, None => (None, s1) } }
    } else if name.value == "blez"@ {
        { let (r0, s1) = spec_register_from_expr(arg0, s); match r0 { Some(v0) => { let (r1, s2) = spec_offset_from_expr(arg1, s1); match r1 { Some(v1) => (Some(InstructionOf::Blez(v0, v1)), s2), None => (None, s2) } }, None => (None, s1) } }
    } else if name.value == "bgez"@ {
        { let (r0, s1) = spec_register_from_expr(arg0, s); match r0 { Some(v0) => { let (r1, s2) = spec_offset_from_expr(arg1, s1); match r1 { Some(v1) => (Some(InstructionOf::Bgez(v0, v1)), s2), None => (None, s2) } }, None => (None, s1) } }
    } else if name.value == "bltz"@ {
        { let (r0, s1) = spec_register_from_expr(arg0, s); match r0 { Some(v0) => { let (r1, s2) = spec_offset_from_expr(arg1, s1); match r1 { Some(v1) => (Some(InstructionOf::Bltz(v0, v1)), s2), None => (None, s2) } }, None => (None, s1) } }
    } else if name.value == "bgtz"@ {
        { let (r0, s1) = spec_register_from_expr(arg0, s); match r0 { Some(v0) => { let (r1, s2) = spec_offset_from_expr(arg1, s1); match r1 { Some(v1) => (Some(InstructionOf::Bgtz(v0, v1)), s2), None => (None, s2) } }, None => (None, s1) } }
    } else if name.value == "csrr"@ {
        { let (r0, s1) = spec_register_from_expr(arg0, s); match r0 { Some(v0) => { let (r1, s2) = spec_register_from_expr(arg1, s1); match r1 { Some(v1) => (Some(InstructionOf::Csrr(v0, v1)), s2), None => (None, s2) } }, None => (None, s1) } }
    } else if name.value == "csrw"@ {
        { let (r0, s1) = spec_register_from_expr(arg0, s); match r0 { Some(v0) => { let (r1, s2) = spec_register_from_expr(arg1, s1); match r1 { Some(v1) => (Some(InstructionOf::Csrw(v0, v1)), s2), None => (None, s2) } }, None => (None, s1) } }
    } else if name.value == "csrs"@ {
        { let (r0, s1) = spec_register_from_expr(arg0, s); match r0 { Some(v0) => { let (r1, s2) = spec_register_from_expr(arg1, s1); match r1 { Some(v1) => (Some(InstructionOf::Csrs(v0, v1)), s2), None => (None, s2) } }, None => (None, s1) } }
    } else if name.value == "csrc"@ {
        { let (r0, s1) = spec_register_from_expr(arg0, s); match r0 { Some(v0) => { let (r1, s2) = spec_register_from_expr(arg1, s1); match r1 { Some(v1) => (Some(InstructionOf::Csrc(v0, v1)), s2), None => (None, s2) } }, None => (None, s1) } }
    } else if name.value == "csrwi"@ {
        { let (r0, s1) = spec_register_from_expr(arg0, s); match r0 { Some(v0) => { let (r1, s2) = spec_imm_from_expr(arg1, s1); match r1 { Some(v1) => (Some(InstructionOf::Csrwi(v0, v1)), s2), None => (None, s2) } }, None => (None, s1) } }
    } else if name.value == "csrsi"@ {
        { let (r0, s1) = spec_register_from_expr(arg0, s); match r0 { Some(v0) => { let (r1, s2) = spec_imm_from_expr(arg1, s1); match r1 { Some(v1) => (Some(InstructionOf::Csrsi(v0, v1)), s2), None => (None, s2) } }, None => (None, s1) } }
    } else if name.value == "csrci"@ {
        { let (r0, s1) = spec_register_from_expr(arg0, s); match r0 { Some(v0) => { let (r1, s2) = spec_imm_from_expr(arg1, s1); match r1 { Some(v1) => (Some(InstructionOf::Csrci(v0, v1)), s2), None => (None, s2) } }, None => (None, s1) } }
    } else if name.value == "lla"@ {
        { let (r0, s1) = spec_register_from_expr(arg0, s); match r0 { Some(v0) => { let (r1, s2) = spec_offset_from_expr(arg1, s1); match r1 { Some(v1) => (Some(InstructionOf::Lla(v0, v1)), s2), None => (None, s2) } }, None => (None, s1) } }
    } else if name.value == "la"@ {
        { let (r0, s1) = spec_register_from_expr(arg0, s); match r0 { Some(v0) => { let (r1, s2) = spec_offset_from_expr(arg1, s1); match r1 { Some(v1) => (Some(InstructionOf::La(v0, v1)), s2), None => (None, s2) } }, None => (None, s1) } }
    } else if name.value == "ld"@ {
        { let (r0, s1) = spec_register_from_expr(arg0, s); match r0 { Some(v0) => { let (r1, s2) = spec_offset_from_expr(arg1, s1); match r1 { Some(v1) => (Some(InstructionOf::Ld(v0, v1)), s2), None => (None, s2) } }, None => (None, s1) } }
    } else if name.value == "li"@ {
        { let (r0, s1) = spec_register_from_expr(arg0, s); match r0 { Some(v0) => { let (r1, s2) = spec_imm_from_expr(arg1, s1); match r1 { Some(v1) => (Some(InstructionOf::Li(v0, v1)), s2), None => (None, s2) } }, None => (None, s1) } }
    } else if name.value == "mv"@ {
        { let (r0, s1) = spec_register_from_expr(arg0, s); match r0 { Some(v0) => { let (r1, s2) = spec_register_from_expr(arg1, s1); match r1 { Some(v1) => (Some(InstructionOf::Mv(v0, v1)), s2), None => (None, s2) } }, None => (None, s1) } }
    } else if name.value == "not"@ {
        { let (r0, s1) = spec_register_from_expr(arg0, s); match r0 { Some(v0) => { let (r1, s2) = spec_register_from_expr(arg1, s1); match r1 { Some(v1) => (Some(InstructionOf::Not(v0, v1)), s2), None => (None, s2) } }, None => (None, s1) } }
    } else if name.value == "sextw"@ {
        { let (r0, s1) = spec_register_from_expr(arg0, s); match r0 { Some(v0) => { let (r1, s2) = spec_register_from_expr(arg1, s1); match r1 { Some(v1) => (Some(InstructionOf::SextW(v0, v1)), s2), None => (None, s2) } }, None => (None, s1) } }
    } else if name.value == "seqz"@ {
        { let (r0, s1) = spec_register_from_expr(arg0, s); match r0 { Some(v0) => { let (r1, s2) = spec_register_from_expr(arg1, s1); match r1 { Some(v1) => (Some(InstructionOf::Seqz(v0, v1)), s2), None => (None, s2) } }, None => (None, s1) } }
    } else if name.value == "fmvs"@ {
        { let (r0, s1) = spec_register_from_expr(arg0, s); match r0 { Some(v0) => { let (r1, s2) = spec_register_from_expr(arg1, s1); match r1 { Some(v1) => (Some(InstructionOf::FmvS(v0, v1)), s2), None => (None, s2) } }, None => (None, s1) } }
    } else if name.value == "fabss"@ {
        { let (r0, s1) = spec_register_from_expr(arg0, s); match r0 { Some(v0) => { let (r1, s2) = spec_register_from_expr(arg1, s1); match r1 { Some(v1) => (Some(InstructionOf::FabsS(v0, v1)), s2), None => (None, s2) } }, None => (None, s1) } }
    } else if name.value == "fnegs"@ {
        { let (r0, s1) = spec_register_from_expr(arg0, s); match r0 { Some(v0) => { let (r1, s2) = spec_register_from_expr(arg1, s1); match r1 { Some(v1) => (Some(InstructionOf::FnegS(v0, v1)), s2), None => (None, s2) } }, None => (None, s1) } }
    } else if name.value == "fmvd"@ {
        { let (r0, s1) = spec_register_from_expr(arg0, s); match r0 { Some(v0) => { let (r1, s2) = spec_register_from_expr(arg1, s1); match r1 { Some(v1) => (Some(InstructionOf::FmvD(v0, v1)), s2), None => (None, s2) } }, None => (None, s1) } }
    } else if name.value == "fabsd"@ {
        { let (r0, s1) = spec_register_from_expr(arg0, s); match r0 { Some(v0) => { let (r1, s2) = spec_register_from_expr(arg1, s1); match r1 { Some(v1) => (Some(InstructionOf::FabsD(v0, v1)), s2), None => (None, s2) } }, None => (None, s1) } }
    } else if name.value == "fnegd"@ {
        { let (r0, s1) = spec_register_from_expr(arg0, s); match r0 { Some(v0) => { let (r1, s2) = spec_register_from_expr(arg1, s1); match r1 { Some(v1) => (Some(InstructionOf::FnegD(v0, v1)), s2), None => (None, s2) } }, None => (None, s1) } }
    } else {
        (None, spec_error(s, AnalyzeError::InsNotExist(AnalyzeInsNotExist { location: name.span })))
    }
}

/// The model of an instruction name written with 3 operands.
pub open spec fn spec_from_3(name: Spanned<Seq<char>>, arg0: SpecExpr, arg1: SpecExpr, arg2: SpecExpr, s: SpecSummary) -> (Option<SpecInstruction>, SpecSummary) {
    if name.value == "beq"@ {
        { let (r0, s1) = spec_register_from_expr(arg0, s); match r0 { Some(v0) => { let (r1, s2) = spec_register_from_expr(arg1, s1); match r1 { Some(v1) => { let (r2, s3) = spec_offset_from_expr(arg2, s2); match r2 { Some(v2) => (Some(InstructionOf::Beq(v0, v1, v2)), s3), None => (None, s3) } }, None => (None, s2) } }, None => (None, s1) } }
    } else if name.value == "bne"@ {
        { let (r0, s1) = spec_register_from_expr(arg0, s); match r0 { Some(v0) => { let (r1, s2) = spec_register_from_expr(arg1, s1); match r1 { Some(v1) => { let (r2, s3) = spec_offset_from_expr(arg2, s2); match r2 { Some(v2) => (Some(InstructionOf::Bne(v0, v1, v2)), s3), None => (None, s3) } }, None => (None, s2) } }, None => (None, s1) } }
    } else if name.value == "blt"@ {
        { let (r0, s1) = spec_register_from_expr(arg0, s); match r0 { Some(v0) => { let (r1, s2) = spec_register_from_expr(arg1, s1); match r1 { Some(v1) => { let (r2, s3) = spec_offset_from_expr(arg2, s2); match r2 { Some(v2) => (Some(InstructionOf::Blt(v0, v1, v2)), s3), None => (None, s3) } }, None => (None, s2) } }, None => (None, s1) } }
    } else if name.value == "bge"@ {
        { let (r0, s1) = spec_register_from_expr(arg0, s); match r0 { Some(v0) => { let (r1, s2) = spec_register_from_expr(arg1, s1); match r1 { Some(v1) => { let (r2, s3) = spec_offset_from_expr(arg2, s2); match r2 { Some(v2) => (Some(InstructionOf::Bge(v0, v1, v2)), s3), None => (None, s3) } }, None => (None, s2) } }, None => (None, s1) } }
    } else if name.value == "bltu"@ {
        { let (r0, s1) = spec_register_from_expr(arg0, s); match r0 { Some(v0) => { let (r1, s2) = spec_register_from_expr(arg1, s1); match r1 { Some(v1) => { let (r2, s3) = spec_offset_from_expr(arg2, s2); match r2 { Some(v2) => (Some(InstructionOf::Bltu(v0, v1, v2)), s3), None => (None, s3) } }, None => (None, s2) } }, None => (None, s1) } }
    } else if name.value == "bgeu"@ {
        { let (r0, s1) = spec_register_from_expr(arg0, s); match r0 { Some(v0) => { let (r1, s2) = spec_register_from_expr(arg1, s1); match r1 { Some(v1) => { let (r2, s3) = spec_offset_from_expr(arg2, s2); match r2 { Some(v2) => (Some(InstructionOf::Bgeu(v0, v1, v2)), s3), None => (None, s3) } }, None => (None, s2) } }, None => (None, s1) } }
    } else if name.value == "lb"@ {
        { let (r0, s1) = spec_register_from_expr(arg0, s); match r0 { Some(v0) => { let (r1, s2) = spec_offset_from_expr(arg1, s1); match r1 { Some(v1) => { let (r2, s3) = spec_register_from_expr(arg2, s2); match r2 { Some(v2) => (Some(InstructionOf::Lb(v0, v1, v2)), s3), None => (None, s3) } }, None => (None, s2) } }, None => (None, s1) } }
    } else if name.value == "lh"@ {
        { let (r0, s1) = spec_register_from_expr(arg0, s); match r0 { Some(v0) => { let (r1, s2) = spec_offset_from_expr(arg1, s1); match r1 { Some(v1) => { let (r2, s3) = spec_register_from_expr(arg2, s2); match r2 { Some(v2) => (Some(InstructionOf::Lh(v0, v1, v2)), s3), None => (None, s3) } }, None => (None, s2) } }, None => (None, s1) } }
    } else if name.value == "lw"@ {
        { let (r0, s1) = spec_register_from_expr(arg0, s); match r0 { Some(v0) => { let (r1, s2) = spec_offset_from_expr(arg1, s1); match r1 { Some(v1) => { let (r2, s3) = spec_register_from_expr(arg2, s2); match r2 { Some(v2) => (Some(InstructionOf::Lw(v0, v1, v2)), s3), None => (None, s3) } }, None => (None, s2) } }, None => (None, s1) } }
    } else if name.value == "lbu"@ {
        { let (r0, s1) = spec_register_from_expr(arg0, s); match r0 { Some(v0) => { let (r1, s2) = spec_register_from_expr(arg1, s1); match r1 { Some(v1) => { let (r2, s3) = spec_offset_from_expr(arg2, s2); match r2 { Some(v2) => (Some(InstructionOf::Lbu(v0, v1, v2)), s3), None => (None, s3) } }, None => (None, s2) } }, None => (None, s1) } }
    } else if name.value == "lhu"@ {
        { let (r0, s1) = spec_register_from_expr(arg0, s); match r0 { Some(v0) => { let (r1, s2) = spec_register_from_expr(arg1, s1); match r1 { Some(v1) => { let (r2, s3) = spec_offset_from_expr(arg2, s2); match r2 { Some(v2) => (Some(InstructionOf::Lhu(v0, v1, v2)), s3), None => (None, s3) } }, None => (None, s2) } }, None => (None, s1) } }
    } else if name.value == "addi"@ {
        { let (r0, s1) = spec_register_from_expr(arg0, s); match r0 { Some(v0) => { let (r1, s2) = spec_register_from_expr(arg1, s1); match r1 { Some(v1) => { let (r2, s3) = spec_imm_from_expr(arg2, s2); match r2 { Some(v2) => (Some(InstructionOf::Addi(v0, v1, v2)), s3), None => (None, s3) } }, None => (None, s2) } }, None => (None, s1) } }
    } else if name.value == "slti"@ {
        { let (r0, s1) = spec_register_from_expr(arg0, s); match r0 { Some(v0) => { let (r1, s2) = spec_register_from_expr(arg1, s1); match r1 { Some(v1) => { let (r2, s3) = spec_imm_from_expr(arg2, s2); match r2 { Some(v2) => (Some(InstructionOf::Slti(v0, v1, v2)), s3), None => (None, s3) } }, None => (None, s2) } }, None => (None, s1) } }
    } else if name.value == "sltiu"@ {
        { let (r0, s1) = spec_register_from_expr(arg0, s); match r0 { Some(v0) => { let (r1, s2) = spec_register_from_expr(arg1, s1); match r1 { Some(v1) => { let (r2, s3) = spec_imm_from_expr(arg2, s2); match r2 { Some(v2) => (Some(InstructionOf::Sltiu(v0, v1, v2)), s3), None => (None, s3) } }, None => (None, s2) } }, None => (None, s1) } }
    } else if name.value == "xori"@ {
        { let (r0, s1) = spec_register_from_expr(arg0, s); match r0 { Some(v0) => { let (r1, s2) = spec_register_from_expr(arg1, s1); match r1 { Some(v1) => { let (r2, s3) = spec_imm_from_expr(arg2, s2); match r2 { Some(v2) => (Some(InstructionOf::Xori(v0, v1, v2)), s3), None => (None, s3) } }, None => (None, s2) } }, None => (None, s1) } }
    } else if name.value == "ori"@ {
        { let (r0, s1) = spec_register_from_expr(arg0, s); match r0 { Some(v0) => { let (r1, s2) = spec_register_from_expr(arg1, s1); match r1 { Some(v1) => { let (r2, s3) = spec_imm_from_expr(arg2, s2); match r2 { Some(v2) => (Some(InstructionOf::Ori(v0, v1, v2)), s3), None => (None, s3) } }, None => (None, s2) } }, None => (None, s1) } }
    } else if name.value == "andi"@ {
        { let (r0, s1) = spec_register_from_expr(arg0, s); match r0 { Some(v0) => { let (r1, s2) = spec_register_from_expr(arg1, s1); match r1 { Some(v1) => { let (r2, s3) = spec_imm_from_expr(arg2, s2); match r2 { Some(v2) => (Some(InstructionOf::Andi(v0, v1, v2)), s3), None => (None, s3) } }, None => (None, s2) } }, None => (None, s1) } }
    } else if name.value == "slli"@ {
        { let (r0, s1) = spec_register_from_expr(arg0, s); match r0 { Some(v0) => { let (r1, s2) = spec_register_from_expr(arg1, s1); match r1 { Some(v1) => { let (r2, s3) = spec_imm_from_expr(arg2, s2); match r2 { Some(v2) => (Some(InstructionOf::Slli(v0, v1, v2)), s3), None => (None, s3) } }, None => (None, s2) } }, None => (None, s1) } }
    } else if name.value == "srli"@ {
        { let (r0, s1) = spec_register_from_expr(arg0, s); match r0 { Some(v0) => { let (r1, s2) = spec_register_from_expr(arg1, s1); match r1 { Some(v1) => { let (r2, s3) = spec_imm_from_expr(arg2, s2); match r2 { Some(v2) => (Some(InstructionOf::Srli(v0, v1, v2)), s3), None => (None, s3) } }, None => (None, s2) } }, None => (None, s1) } }
    } else if name.value == "srai"@ {
        { let (r0, s1) = spec_register_from_expr(arg0, s); match r0 { Some(v0) => { let (r1, s2) = spec_register_from_expr(arg1, s1); match r1 { Some(v1) => { let (r2, s3) = spec_imm_from_expr(arg2, s2); match r2 { Some(v2) => (Some(InstructionOf::Srai(v0, v1, v2)), s3), None => (None, s3) } }, None => (None, s2) } }, None => (None, s1) } }
    } else if name.value == "add"@ {
        { let (r0, s1) = spec_register_from_expr(arg0, s); match r0 { Some(v0) => { let (r1, s2) = spec_register_from_expr(arg1, s1); match r1 { Some(v1) => { let (r2, s3) = spec_register_from_expr(arg2, s2); match r2 { Some(v2) => (Some(InstructionOf::Add(v0, v1, v2)), s3), None => (None, s3) } }, None => (None, s2) } }, None => (None, s1) } }
    } else if name.value == "sub"@ {
        { let (r0, s1) = spec_register_from_expr(arg0, s); match r0 { Some(v0) => { let (r1, s2) = spec_register_from_expr(arg1, s1); match r1 { Some(v1) => { let (r2, s3) = spec_register_from_expr(arg2, s2); match r2 { Some(v2) => (Some(InstructionOf::Sub(v0, v1, v2)), s3), None => (None, s3) } }, None => (None, s2) } }, None => (None, s1) } }
    } else if name.value == "sll"@ {
        { let (r0, s1) = spec_register_from_expr(arg0, s); match r0 { Some(v0) => { let (r1, s2) = spec_register_from_expr(arg1, s1); match r1 { Some(v1) => { let (r2, s3) = spec_register_from_expr(arg2, s2); match r2 { Some(v2) => (Some(InstructionOf::Sll(v0, v1, v2)), s3), None => (None, s3) } }, None => (None, s2) } }, None => (None, s1) } }
    } else if name.value == "slt"@ {
        { let (r0, s1) = spec_register_from_expr(arg0, s); match r0 { Some(v0) => { let (r1, s2) = spec_register_from_expr(arg1, s1); match r1 { Some(v1) => { let (r2, s3) = spec_register_from_expr(arg2, s2); match r2 { Some(v2) => (Some(InstructionOf::Slt(v0, v1, v2)), s3), None => (None, s3) } }, None => (None, s2) } }, None => (None, s1) } }
    } else if name.value == "sltu"@ {
        { let (r0, s1) = spec_register_from_expr(arg0, s); match r0 { Some(v0) => { let (r1, s2) = spec_register_from_expr(arg1, s1); match r1 { Some(v1) => { let (r2, s3) = spec_register_from_expr(arg2, s2); match r2 { Some(v2) => (Some(InstructionOf::Sltu(v0, v1, v2)), s3), None => (None, s3) } }, None => (None, s2) } }, None => (None, s1) } }
    } else if name.value == "xor"@ {
        { let (r0, s1) = spec_register_from_expr(arg0, s); match r0 { Some(v0) => { let (r1, s2) = spec_register_from_expr(arg1, s1); match r1 { Some(v1) => { let (r2, s3) = spec_register_from_expr(arg2, s2); match r2 { Some(v2) => (Some(InstructionOf::Xor(v0, v1, v2)), s3), None => (None, s3) } }, None => (None, s2) } }, None => (None, s1) } }
    } else if name.value == "srl"@ {
        { let (r0, s1) = spec_register_from_expr(arg0, s); match r0 { Some(v0) => { let (r1, s2) = spec_register_from_expr(arg1, s1); match r1 { Some(v1) => { let (r2, s3) = spec_register_from_expr(arg2, s2); match r2 { Some(v2) => (Some(InstructionOf::Srl(v0, v1, v2)), s3), None => (None, s3) } }, None => (None, s2) } }, None => (None, s1) } }
    } else if name.value == "sra"@ {
        { let (r0, s1) = spec_register_from_expr(arg0, s); match r0 { Some(v0) => { let (r1, s2) = spec_register_from_expr(arg1, s1); match r1 { Some(v1) => { let (r2, s3) = spec_register_from_expr(arg2, s2); match r2 { Some(v2) => (Some(InstructionOf::Sra(v0, v1, v2)), s3), None => (None, s3) } }, None => (None, s2) } }, None => (None, s1) } }
    } else if name.value == "or"@ {
        { let (r0, s1) = spec_register_from_expr(arg0, s); match r0 { Some(v0) => { let (r1, s2) = spec_register_from_expr(arg1, s1); match r1 { Some(v1) => { let (r2, s3) = spec_register_from_expr(arg2, s2); match r2 { Some(v2) => (Some(InstructionOf::Or(v0, v1, v2)), s3), None => (None, s3) } }, None => (None, s2) } }, None => (None, s1) } }
    } else if name.value == "and"@ {
        { let (r0, s1) = spec_register_from_expr(arg0, s); match r0 { Some(v0) => { let (r1, s2) = spec_register_from_expr(arg1, s1); match r1 { Some(v1) => { let (r2, s3) = spec_register_from_expr(arg2, s2); match r2 { Some(v2) => (Some(InstructionOf::And(v0, v1, v2)), s3), None => (None, s3) } }, None => (None, s2) } }, None => (None, s1) } }
    } else if name.value == "sb"@ {
        { let (r0, s1) = spec_register_from_expr(arg0, s); match r0 { Some(v0) => { let (r1, s2) = spec_offset_from_expr(arg1, s1); match r1 { Some(v1) => { let (r2, s3) = spec_register_from_expr(arg2, s2); match r2 { Some(v2) => (Some(InstructionOf::Sb(v0, v1, v2)), s3), None => (None, s3) } }, None => (None, s2) } }, None => (None, s1) } }
    } else if name.value == "sh"@ {
        { let (r0, s1) = spec_register_from_expr(arg0, s); match r0 { Some(v0) => { let (r1, s2) = spec_offset_from_expr(arg1, s1); match r1 { Some(v1) => { let (r2, s3) = spec_register_from_expr(arg2, s2); match r2 { Some(v2) => (Some(InstructionOf::Sh(v0, v1, v2)), s3), None => (None, s3) } }, None => (None, s2) } }, None => (None, s1) } }
    } else if name.value == "sw"@ {
        { let (r0, s1) = spec_register_from_expr(arg0, s); match r0 { Some(v0) => { let (r1, s2) = spec_offset_from_expr(arg1, s1); match r1 { Some(v1) => { let (r2, s3) = spec_register_from_expr(arg2, s2); match r2 { Some(v2) => (Some(InstructionOf::Sw(v0, v1, v2)), s3), None => (None, s3) } }, None => (None, s2) } }, None => (None, s1) } }
    } else if name.value == "sd"@ {
        { let (r0, s1) = spec_register_from_expr(arg0, s); match r0 { Some(v0) => { let (r1, s2) = spec_offset_from_expr(arg1, s1); match r1 { Some(v1) => { let (r2, s3) = spec_register_from_expr(arg2, s2); match r2 { Some(v2) => (Some(InstructionOf::Sd(v0, v1, v2)), s3), None => (None, s3) } }, None => (None, s2) } }, None => (None, s1) } }
    } else if name.value == "flw"@ {
        { let (r0, s1) = spec_register_from_expr(arg0, s); match r0 { Some(v0) => { let (r1, s2) = spec_offset_from_expr(arg1, s1); match r1 { Some(v1) => { let (r2, s3) = spec_register_from_expr(arg2, s2); match r2 { Some(v2) => (Some(InstructionOf::Flw(v0, v1, v2)), s3), None => (None, s3) } }, None => (None, s2) } }, None => (None, s1) } }
    } else if name.value == "fld"@ {
        { let (r0, s1) = spec_register_from_expr(arg0, s); match r0 { Some(v0) => { let (r1, s2) = spec_offset_from_expr(arg1, s1); match r1 { Some(v1) => { let (r2, s3) = spec_register_from_expr(arg2, s2); match r2 { Some(v2) => (Some(InstructionOf::Fld(v0, v1, v2)), s3), None => (None, s3) } }, None => (None, s2) } }, None => (None, s1) } }
    } else if name.value == "fsw"@ {
        { let (r0, s1) = spec_register_from_expr(arg0, s); match r0 { Some(v0) => { let (r1, s2) = spec_offset_from_expr(arg1, s1); match r1 { Some(v1) => { let (r2, s3) = spec_register_from_expr(arg2, s2); match r2 { Some(v2) => (Some(InstructionOf::Fsw(v0, v1, v2)), s3), None => (None, s3) } }, None => (None, s2) } }, None => (None, s1) } }
    } else if name.value == "fsd"@ {
        { let (r0, s1) = spec_register_from_expr(arg0, s); match r0 { Some(v0) => { let (r1, s2) = spec_offset_from_expr(arg1, s1); match r1 { Some(v1) => { let (r2, s3) = spec_register_from_expr(arg2, s2); match r2 { Some(v2) => (Some(InstructionOf::Fsd(v0, v1, v2)), s3), None => (None, s3) } }, None => (None, s2) } }, None => (None, s1) } }
    } else if name.value == "bgt"@ {
        { let (r0, s1) = spec_register_from_expr(arg0, s); match r0 { Some(v0) => { let (r1, s2) = spec_register_from_expr(arg1, s1); match r1 { Some(v1) => { let (r2, s3) = spec_offset_from_expr(arg2, s2); match r2 { Some(v2) => (Some(InstructionOf::Bgt(v0, v1, v2)), s3), None => (None, s3) } }, None => (None, s2) } }, None => (None, s1) } }
    } else if name.value == "ble"@ {
        { let (r0, s1) = spec_register_from_expr(arg0, s); match r0 { Some(v0) => { let (r1, s2) = spec_register_from_expr(arg1, s1); match r1 { Some(v1) => { let (r2, s3) = spec_offset_from_expr(arg2, s2); match r2 { Some(v2) => (Some(InstructionOf::Ble(v0, v1, v2)), s3), None => (None, s3) } }, None => (None, s2) } }, None => (None, s1) } }
    } else if name.value == "bgtu"@ {
        { let (r0, s1) = spec_register_from_expr(arg0, s); match r0 { Some(v0) => { let (r1, s2) = spec_register_from_expr(arg1, s1); match r1 { Some(v1) => { let (r2, s3) = spec_offset_from_expr(arg2, s2); match r2 { Some(v2) => (Some(InstructionOf::Bgtu(v0, v1, v2)), s3), None => (None, s3) } }, None => (None, s2) } }, None => (None, s1) } }
    } else if name.value == "bleu"@ {
        { let (r0, s1) = spec_register_from_expr(arg0, s); match r0 { Some(v0) => { let (r1, s2) = spec_register_from_expr(arg1, s1); match r1 { Some(v1) => { let (r2, s3) = spec_offset_from_expr(arg2, s2); match r2 { Some(v2) => (Some(InstructionOf::Bleu(v0, v1, v2)), s3), None => (None, s3) } }, None => (None, s2) } }, None => (None, s1) } }
    } else {
        (None, spec_error(s, AnalyzeError::InsNotExist(AnalyzeInsNotExist { location: name.span })))
    }
}

/// The model of an optional instruction.
pub open spec fn view_opt_instruction(r: Option<Instruction>) -> Option<SpecInstruction> {
    match r {
        Some(i) => Some(i@),
        None => None,
    }
}

impl InstructionOf<Offset> {
    pub fn from_0(summary: &mut AnalyzeSummary, name: Spanned<&str>) -> (r: Option<Self>)
        ensures
            (view_opt_instruction(r), final(summary)@) == spec_from_0(
                Spanned { span: name.span, value: name.value@ },
                old(summary)@,
            ),
    {
        if text_eq(name.value, "lui") {
            None
        } else if text_eq(name.value, "auipc") {
            None
        } else if text_eq(name.value, "beq") {
            None
        } else if text_eq(name.value, "bne") {
            None
        } else if text_eq(name.value, "blt") {
            None
        } else if text_eq(name.value, "bge") {
            None
        } else if text_eq(name.value, "bltu") {
            None
        } else if text_eq(name.value, "bgeu") {
            None
        } else if text_eq(name.value, "lb") {
            None
        } else if text_eq(name.value, "lh") {
            None
        } else if text_eq(name.value, "lw") {
            None
        } else if text_eq(name.value, "lbu") {
            None
        } else if text_eq(name.value, "lhu") {
            None
        } else if text_eq(name.value, "addi") {
            None
        } else if text_eq(name.value, "slti") {
            None
        } else if text_eq(name.value, "sltiu") {
            None
        } else if text_eq(name.value, "xori") {
            None
        } else if text_eq(name.value, "ori") {
            None
        } else if text_eq(name.value, "andi") {
            None
        } else if text_eq(name.value, "slli") {
            None
        } else if text_eq(name.value, "srli") {
            None
        } else if text_eq(name.value, "srai") {
            None
        } else if text_eq(name.value, "add") {
            None
        } else if text_eq(name.value, "sub") {
            None
        } else if text_eq(name.value, "sll") {
            None
        } else if text_eq(name.value, "slt") {
            None
        } else if text_eq(name.value, "sltu") {
            None
        } else if text_eq(name.value, "xor") {
            None
        } else if text_eq(name.value, "srl") {
            None
        } else if text_eq(name.value, "sra") {
            None
        } else if text_eq(name.value, "or") {
            None
        } else if text_eq(name.value, "and") {
            None
        } else if text_eq(name.value, "fence") {
            Some(InstructionOf::Fence())
        } else if text_eq(name.value, "fencei") {
            Some(InstructionOf::FenceI())
        } else if text_eq(name.value, "ecall") {
            Some(InstructionOf::Ecall())
        } else if text_eq(name.value, "ebreak") {
            Some(InstructionOf::Ebreak())
        } else if text_eq(name.value, "csrrw") {
            Some(InstructionOf::Csrrw())
        } else if text_eq(name.value, "csrrs") {
            Some(InstructionOf::Csrrs())
        } else if text_eq(name.value, "csrrc") {
            Some(InstructionOf::Csrrc())
        } else if text_eq(name.value, "csrrwi") {
            Some(InstructionOf::Csrrwi())
        } else if text_eq(name.value, "csrrsi") {
            Some(InstructionOf::Csrrsi())
        } else if text_eq(name.value, "csrrci") {
            Some(InstructionOf::Csrrci())
        } else if text_eq(name.value, "nop") {
            Some(InstructionOf::Nop())
        } else if text_eq(name.value, "neg") {
            None
        } else if text_eq(name.value, "negw") {
            None
        } else if text_eq(name.value, "snez") {
            None
        } else if text_eq(name.value, "sltz") {
            None
        } else if text_eq(name.value, "sgtz") {
            None
        } else if text_eq(name.value, "beqz") {
            None
        } else if text_eq(name.value, "bnez") {
            None
        } else if text_eq(name.value, "blez") {
            None
        } else if text_eq(name.value, "bgez") {
            None
        } else if text_eq(name.value, "bltz") {
            None
        } else if text_eq(name.value, "bgtz") {
            None
        } else if text_eq(name.value, "j") {
            None
        } else if text_eq(name.value, "jr") {
            None
        } else if text_eq(name.value, "ret") {
            Some(InstructionOf::Ret())
        } else if text_eq(name.value, "tail") {
            None
        } else if text_eq(name.value, "rdinstret") {
            Some(InstructionOf::Rdinstret())
        } else if text_eq(name.value, "rdinstreth") {
            Some(InstructionOf::RdinstretH())
        } else if text_eq(name.value, "rdcycle") {
            Some(InstructionOf::Rdcycle())
        } else if text_eq(name.value, "rdcycleh") {
            Some(InstructionOf::RdcycleH())
        } else if text_eq(name.value, "rdtime") {
            Some(InstructionOf::Rdtime())
        } else if text_eq(name.value, "rdtimeh") {
            Some(InstructionOf::RdtimeH())
        } else if text_eq(name.value, "csrr") {
            None
        } else if text_eq(name.value, "csrw") {
            None
        } else if text_eq(name.value, "csrs") {
            None
        } else if text_eq(name.value, "csrc") {
            None
        } else if text_eq(name.value, "csrwi") {
            None
        } else if text_eq(name.value, "csrsi") {
            None
        } else if text_eq(name.value, "csrci") {
            None
        } else if text_eq(name.value, "frcsr") {
            None
        } else if text_eq(name.value, "fscsr") {
            None
        } else if text_eq(name.value, "frrm") {
            None
        } else if text_eq(name.value, "fsrm") {
            None
        } else if text_eq(name.value, "frflags") {
            None
        } else if text_eq(name.value, "fsflags") {
            None
        } else if text_eq(name.value, "lla") {
            None
        } else if text_eq(name.value, "la") {
            None
        } else if text_eq(name.value, "ld") {
            None
        } else if text_eq(name.value, "sb") {
            None
        } else if text_eq(name.value, "sh") {
            None
        } else if text_eq(name.value, "sw") {
            None
        } else if text_eq(name.value, "sd") {
            None
        } else if text_eq(name.value, "flw") {
            None
        } else if text_eq(name.value, "fld") {
            None
        } else if text_eq(name.value, "fsw") {
            None
        } else if text_eq(name.value, "fsd") {
            None
        } else if text_eq(name.value, "li") {
            None
        } else if text_eq(name.value, "mv") {
            None
        } else if text_eq(name.value, "not") {
            None
        } else if text_eq(name.value, "sextw") {
            None
        } else if text_eq(name.value, "seqz") {
            None
        } else if text_eq(name.value, "fmvs") {
            None
        } else if text_eq(name.value, "fabss") {
            None
        } else if text_eq(name.value, "fnegs") {
            None
        } else if text_eq(name.value, "fmvd") {
            None
        } else if text_eq(name.value, "fabsd") {
            None
        } else if text_eq(name.value, "fnegd") {
            None
        } else if text_eq(name.value, "bgt") {
            None
        } else if text_eq(name.value, "ble") {
            None
        } else if text_eq(name.value, "bgtu") {
            None
        } else if text_eq(name.value, "bleu") {
            None
        } else if text_eq(name.value, "jal") {
            None
        } else if text_eq(name.value, "jalr") {
            None
        } else if text_eq(name.value, "call") {
            None
        } else {
            summary.error(AnalyzeError::InsNotExist(AnalyzeInsNotExist { location: name.span }));
            None
        }
    }

    pub fn from_1(summary: &mut AnalyzeSummary, name: Spanned<&str>, arg0: &Expr) -> (r: Option<Self>)
        requires
            expr_fits(arg0@),
        ensures
            (view_opt_instruction(r), final(summary)@) == spec_from_1(
                Spanned { span: name.span, value: name.value@ },
                arg0@,
                old(summary)@,
            ),
    {
        if text_eq(name.value, "j") {
            match Offset::from_expr(arg0, summary) {
                Some(v0) => {
                    Some(InstructionOf::J(v0))
                },
                None => None,
            }
        } else if text_eq(name.value, "jr") {
            match Register::from_expr(arg0, summary) {
                Some(v0) => {
                    Some(InstructionOf::Jr(v0))
                },
                None => None,
            }
        } else if text_eq(name.value, "tail") {
            match Offset::from_expr(arg0, summary) {
                Some(v0) => {
                    Some(InstructionOf::Tail(v0))
                },
                None => None,
            }
        } else if text_eq(name.value, "frcsr") {
            match Register::from_expr(arg0, summary) {
                Some(v0) => {
                    Some(InstructionOf::Frcsr(v0))
                },
                None => None,
            }
        } else if text_eq(name.value, "fscsr") {
            match Register::from_expr(arg0, summary) {
                Some(v0) => {
                    Some(InstructionOf::Fscsr(v0))
                },
                None => None,
            }
        } else if text_eq(name.value, "frrm") {
            match Register::from_expr(arg0, summary) {
                Some(v0) => {
                    Some(InstructionOf::Frrm(v0))
                },
                None => None,
            }
        } else if text_eq(name.value, "fsrm") {
            match Register::from_expr(arg0, summary) {
                Some(v0) => {
                    Some(InstructionOf::Fsrm(v0))
                },
                None => None,
            }
        } else if text_eq(name.value, "frflags") {
            match Register::from_expr(arg0, summary) {
                Some(v0) => {
                    Some(InstructionOf::Frflags(v0))
                },
                None => None,
            }
        } else if text_eq(name.value, "fsflags") {
            match Register::from_expr(arg0, summary) {
                Some(v0) => {
                    Some(InstructionOf::Fsflags(v0))
                },
                None => None,
            }
        } else if text_eq(name.value, "jal") {
            match Offset::from_expr(arg0, summary) {
                Some(v0) => {
                    Some(InstructionOf::Jal(v0))
                },
                None => None,
            }
        } else if text_eq(name.value, "jalr") {
            match Register::from_expr(arg0, summary) {
                Some(v0) => {
                    Some(InstructionOf::Jalr(v0))
                },
                None => None,
            }
        } else if text_eq(name.value, "call") {
            match Offset::from_expr(arg0, summary) {
                Some(v0) => {
                    Some(InstructionOf::Call(v0))
                },
                None => None,
            }
        } else {
            summary.error(AnalyzeError::InsNotExist(AnalyzeInsNotExist { location: name.span }));
            None
        }
    }

    pub fn from_2(summary: &mut AnalyzeSummary, name: Spanned<&str>, arg0: &Expr, arg1: &Expr) -> (r: Option<Self>)
        requires
            expr_fits(arg0@),
            expr_fits(arg1@),
        ensures
            (view_opt_instruction(r), final(summary)@) == spec_from_2(
                Spanned { span: name.span, value: name.value@ },
                arg0@, arg1@,
                old(summary)@,
            ),
    {
        if text_eq(name.value, "lui") {
            match Register::from_expr(arg0, summary) {
                Some(v0) => {
                    match Imm::from_expr(arg1, summary) {
                        Some(v1) => {
                            Some(InstructionOf::Lui(v0, v1))
                        },
                        None => None,
                    }
                },
                None => None,
            }
        } else if text_eq(name.value, "auipc") {
            match Register::from_expr(arg0, summary) {
                Some(v0) => {
                    match Imm::from_expr(arg1, summary) {
                        Some(v1) => {
                            Some(InstructionOf::Auipc(v0, v1))
                        },
                        None => None,
                    }
                },
                None => None,
            }
        } else if text_eq(name.value, "neg") {
            match Register::from_expr(arg0, summary) {
                Some(v0) => {
                    match Register::from_expr(arg1, summary) {
                        Some(v1) => {
                            Some(InstructionOf::Neg(v0, v1))
                        },
                        None => None,
                    }
                },
                None => None,
            }
        } else if text_eq(name.value, "negw") {
            match Register::from_expr(arg0, summary) {
                Some(v0) => {
                    match Register::from_expr(arg1, summary) {
                        Some(v1) => {
                            Some(InstructionOf::Negw(v0, v1))
                        },
                        None => None,
                    }
                },
                None => None,
            }
        } else if text_eq(name.value, "snez") {
            match Register::from_expr(arg0, summary) {
                Some(v0) => {
                    match Register::from_expr(arg1, summary) {
                        Some(v1) => {
                            Some(InstructionOf::Snez(v0, v1))
                        },
                        None => None,
                    }
                },
                None => None,
            }
        } else if text_eq(name.value, "sltz") {
            match Register::from_expr(arg0, summary) {
                Some(v0) => {
                    match Register::from_expr(arg1, summary) {
                        Some(v1) => {
                            Some(InstructionOf::Sltz(v0, v1))
                        },
                        None => None,
                    }
                },
                None => None,
            }
        } else if text_eq(name.value, "sgtz") {
            match Register::from_expr(arg0, summary) {
                Some(v0) => {
                    match Register::from_expr(arg1, summary) {
                        Some(v1) => {
                            Some(InstructionOf::Sgtz(v0, v1))
                        },
                        None => None,
                    }
                },
                None => None,
            }
        } else if text_eq(name.value, "beqz") {
            match Register::from_expr(arg0, summary) {
                Some(v0) => {
                    match Offset::from_expr(arg1, summary) {
                        Some(v1) => {
                            Some(InstructionOf::Beqz(v0, v1))
                        },
                        None => None,
                    }
                },
                None => None,
            }
        } else if text_eq(name.value, "bnez") {
            match Register::from_expr(arg0, summary) {
                Some(v0) => {
                    match Offset::from_expr(arg1, summary) {
                        Some(v1) => {
                            Some(InstructionOf::Bnez(v0, v1))
                        },
                        None => None,
                    }
                },
                None => None,
            }
        } else if text_eq(name.value, "blez") {
            match Register::from_expr(arg0, summary) {
                Some(v0) => {
                    match Offset::from_expr(arg1, summary) {
                        Some(v1) => {
                            Some(InstructionOf::Blez(v0, v1))
                        },
                        None => None,
                    }
                },
                None => None,
            }
        } else if text_eq(name.value, "bgez") {
            match Register::from_expr(arg0, summary) {
                Some(v0) => {
                    match Offset::from_expr(arg1, summary) {
                        Some(v1) => {
                            Some(InstructionOf::Bgez(v0, v1))
                        },
                        None => None,
                    }
                },
                None => None,
            }
        } else if text_eq(name.value, "bltz") {
            match Register::from_expr(arg0, summary) {
                Some(v0) => {
                    match Offset::from_expr(arg1, summary) {
                        Some(v1) => {
                            Some(InstructionOf::Bltz(v0, v1))
                        },
                        None => None,
                    }
                },
                None => None,
            }
        } else if text_eq(name.value, "bgtz") {
            match Register::from_expr(arg0, summary) {
                Some(v0) => {
                    match Offset::from_expr(arg1, summary) {
                        Some(v1) => {
                            Some(InstructionOf::Bgtz(v0, v1))
                        },
                        None => None,
                    }
                },
                None => None,
            }
        } else if text_eq(name.value, "csrr") {
            match Register::from_expr(arg0, summary) {
                Some(v0) => {
                    match Register::from_expr(arg1, summary) {
                        Some(v1) => {
                            Some(InstructionOf::Csrr(v0, v1))
                        },
                        None => None,
                    }
                },
                None => None,
            }
        } else if text_eq(name.value, "csrw") {
            match Register::from_expr(arg0, summary) {
                Some(v0) => {
                    match Register::from_expr(arg1, summary) {
                        Some(v1) => {
                            Some(InstructionOf::Csrw(v0, v1))
                        },
                        None => None,
                    }
                },
                None => None,
            }
        } else if text_eq(name.value, "csrs") {
            match Register::from_expr(arg0, summary) {
                Some(v0) => {
                    match Register::from_expr(arg1, summary) {
                        Some(v1) => {
                            Some(InstructionOf::Csrs(v0, v1))
                        },
                        None => None,
                    }
                },
                None => None,
            }
        } else if text_eq(name.value, "csrc") {
            match Register::from_expr(arg0, summary) {
                Some(v0) => {
                    match Register::from_expr(arg1, summary) {
                        Some(v1) => {
                            Some(InstructionOf::Csrc(v0, v1))
                        },
                        None => None,
                    }
                },
                None => None,
            }
        } else if text_eq(name.value, "csrwi") {
            match Register::from_expr(arg0, summary) {
                Some(v0) => {
                    match Imm::from_expr(arg1, summary) {
                        Some(v1) => {
                            Some(InstructionOf::Csrwi(v0, v1))
                        },
                        None => None,
                    }
                },
                None => None,
            }
        } else if text_eq(name.value, "csrsi") {
            match Register::from_expr(arg0, summary) {
                Some(v0) => {
                    match Imm::from_expr(arg1, summary) {
                        Some(v1) => {
                            Some(InstructionOf::Csrsi(v0, v1))
                        },
                        None => None,
                    }
                },
                None => None,
            }
        } else if text_eq(name.value, "csrci") {
            match Register::from_expr(arg0, summary) {
                Some(v0) => {
                    match Imm::from_expr(arg1, summary) {
                        Some(v1) => {
                            Some(InstructionOf::Csrci(v0, v1))
                        },
                        None => None,
                    }
                },
                None => None,
            }
        } else if text_eq(name.value, "lla") {
            match Register::from_expr(arg0, summary) {
                Some(v0) => {
                    match Offset::from_expr(arg1, summary) {
                        Some(v1) => {
                            Some(InstructionOf::Lla(v0, v1))
                        },
                        None => None,
                    }
                },
                None => None,
            }
        } else if text_eq(name.value, "la") {
            match Register::from_expr(arg0, summary) {
                Some(v0) => {
                    match Offset::from_expr(arg1, summary) {
                        Some(v1) => {
                            Some(InstructionOf::La(v0, v1))
                        },
                        None => None,
                    }
                },
                None => None,
            }
        } else if text_eq(name.value, "ld") {
            match Register::from_expr(arg0, summary) {
                Some(v0) => {
                    match Offset::from_expr(arg1, summary) {
                        Some(v1) => {
                            Some(InstructionOf::Ld(v0, v1))
                        },
                        None => None,
                    }
                },
                None => None,
            }
        } else if text_eq(name.value, "li") {
            match Register::from_expr(arg0, summary) {
                Some(v0) => {
                    match Imm::from_expr(arg1, summary) {
                        Some(v1) => {
                            Some(InstructionOf::Li(v0, v1))
                        },
                        None => None,
                    }
                },
                None => None,
            }
        } else if text_eq(name.value, "mv") {
            match Register::from_expr(arg0, summary) {
                Some(v0) => {
                    match Register::from_expr(arg1, summary) {
                        Some(v1) => {
                            Some(InstructionOf::Mv(v0, v1))
                        },
                        None => None,
                    }
                },
                None => None,
            }
        } else if text_eq(name.value, "not") {
            match Register::from_expr(arg0, summary) {
                Some(v0) => {
                    match Register::from_expr(arg1, summary) {
                        Some(v1) => {
                            Some(InstructionOf::Not(v0, v1))
                        },
                        None => None,
                    }
                },
                None => None,
            }
        } else if text_eq(name.value, "sextw") {
            match Register::from_expr(arg0, summary) {
                Some(v0) => {
                    match Register::from_expr(arg1, summary) {
                        Some(v1) => {
                            Some(InstructionOf::SextW(v0, v1))
                        },
                        None => None,
                    }
                },
                None => None,
            }
        } else if text_eq(name.value, "seqz") {
            match Register::from_expr(arg0, summary) {
                Some(v0) => {
                    match Register::from_expr(arg1, summary) {
                        Some(v1) => {
                            Some(InstructionOf::Seqz(v0, v1))
                        },
                        None => None,
                    }
                },
                None => None,
            }
        } else if text_eq(name.value, "fmvs") {
            match Register::from_expr(arg0, summary) {
                Some(v0) => {
                    match Register::from_expr(arg1, summary) {
                        Some(v1) => {
                            Some(InstructionOf::FmvS(v0, v1))
                        },
                        None => None,
                    }
                },
                None => None,
            }
        } else if text_eq(name.value, "fabss") {
            match Register::from_expr(arg0, summary) {
                Some(v0) => {
                    match Register::from_expr(arg1, summary) {
                        Some(v1) => {
                            Some(InstructionOf::FabsS(v0, v1))
                        },
                        None => None,
                    }
                },
                None => None,
            }
        } else if text_eq(name.value, "fnegs") {
            match Register::from_expr(arg0, summary) {
                Some(v0) => {
                    match Register::from_expr(arg1, summary) {
                        Some(v1) => {
                            Some(InstructionOf::FnegS(v0, v1))
                        },
                        None => None,
                    }
                },
                None => None,
            }
        } else if text_eq(name.value, "fmvd") {
            match Register::from_expr(arg0, summary) {
                Some(v0) => {
                    match Register::from_expr(arg1, summary) {
                        Some(v1) => {
                            Some(InstructionOf::FmvD(v0, v1))
                        },
                        None => None,
                    }
                },
                None => None,
            }
        } else if text_eq(name.value, "fabsd") {
            match Register::from_expr(arg0, summary) {
                Some(v0) => {
                    match Register::from_expr(arg1, summary) {
                        Some(v1) => {
                            Some(InstructionOf::FabsD(v0, v1))
                        },
                        None => None,
                    }
                },
                None => None,
            }
        } else if text_eq(name.value, "fnegd") {
            match Register::from_expr(arg0, summary) {
                Some(v0) => {
                    match Register::from_expr(arg1, summary) {
                        Some(v1) => {
                            Some(InstructionOf::FnegD(v0, v1))
                        },
                        None => None,
                    }
                },
                None => None,
            }
        } else {
            summary.error(AnalyzeError::InsNotExist(AnalyzeInsNotExist { location: name.span }));
            None
        }
    }

    pub fn from_3(summary: &mut AnalyzeSummary, name: Spanned<&str>, arg0: &Expr, arg1: &Expr, arg2: &Expr) -> (r: Option<Self>)
        requires
            expr_fits(arg0@),
            expr_fits(arg1@),
            expr_fits(arg2@),
        ensures
            (view_opt_instruction(r), final(summary)@) == spec_from_3(
                Spanned { span: name.span, value: name.value@ },
                arg0@, arg1@, arg2@,
                old(summary)@,
            ),
    {
        if text_eq(name.value, "beq") {
            match Register::from_expr(arg0, summary) {
                Some(v0) => {
                    match Register::from_expr(arg1, summary) {
                        Some(v1) => {
                            match Offset::from_expr(arg2, summary) {
                                Some(v2) => {
                                    Some(InstructionOf::Beq(v0, v1, v2))
                                },
                                None => None,
                            }
                        },
                        None => None,
                    }
                },
                None => None,
            }
        } else if text_eq(name.value, "bne") {
            match Register::from_expr(arg0, summary) {
                Some(v0) => {
                    match Register::from_expr(arg1, summary) {
                        Some(v1) => {
                            match Offset::from_expr(arg2, summary) {
                                Some(v2) => {
                                    Some(InstructionOf::Bne(v0, v1, v2))
                                },
                                None => None,
                            }
                        },
                        None => None,
                    }
                },
                None => None,
            }
        } else if text_eq(name.value, "blt") {
            match Register::from_expr(arg0, summary) {
                Some(v0) => {
                    match Register::from_expr(arg1, summary) {
                        Some(v1) => {
                            match Offset::from_expr(arg2, summary) {
                                Some(v2) => {
                                    Some(InstructionOf::Blt(v0, v1, v2))
                                },
                                None => None,
                            }
                        },
                        None => None,
                    }
                },
                None => None,
            }
        } else if text_eq(name.value, "bge") {
            match Register::from_expr(arg0, summary) {
                Some(v0) => {
                    match Register::from_expr(arg1, summary) {
                        Some(v1) => {
                            match Offset::from_expr(arg2, summary) {
                                Some(v2) => {
                                    Some(InstructionOf::Bge(v0, v1, v2))
                                },
                                None => None,
                            }
                        },
                        None => None,
                    }
                },
                None => None,
            }
        } else if text_eq(name.value, "bltu") {
            match Register::from_expr(arg0, summary) {
                Some(v0) => {
                    match Register::from_expr(arg1, summary) {
                        Some(v1) => {
                            match Offset::from_expr(arg2, summary) {
                                Some(v2) => {
                                    Some(InstructionOf::Bltu(v0, v1, v2))
                                },
                                None => None,
                            }
                        },
                        None => None,
                    }
                },
                None => None,
            }
        } else if text_eq(name.value, "bgeu") {
            match Register::from_expr(arg0, summary) {
                Some(v0) => {
                    match Register::from_expr(arg1, summary) {
                        Some(v1) => {
                            match Offset::from_expr(arg2, summary) {
                                Some(v2) => {
                                    Some(InstructionOf::Bgeu(v0, v1, v2))
                                },
                                None => None,
                            }
                        },
                        None => None,
                    }
                },
                None => None,
            }
        } else if text_eq(name.value, "lb") {
            match Register::from_expr(arg0, summary) {
                Some(v0) => {
                    match Offset::from_expr(arg1, summary) {
                        Some(v1) => {
                            match Register::from_expr(arg2, summary) {
                                Some(v2) => {
                                    Some(InstructionOf::Lb(v0, v1, v2))
                                },
                                None => None,
                            }
                        },
                        None => None,
                    }
                },
                None => None,
            }
        } else if text_eq(name.value, "lh") {
            match Register::from_expr(arg0, summary) {
                Some(v0) => {
                    match Offset::from_expr(arg1, summary) {
                        Some(v1) => {
                            match Register::from_expr(arg2, summary) {
                                Some(v2) => {
                                    Some(InstructionOf::Lh(v0, v1, v2))
                                },
                                None => None,
                            }
                        },
                        None => None,
                    }
                },
                None => None,
            }
        } else if text_eq(name.value, "lw") {
            match Register::from_expr(arg0, summary) {
                Some(v0) => {
                    match Offset::from_expr(arg1, summary) {
                        Some(v1) => {
                            match Register::from_expr(arg2, summary) {
                                Some(v2) => {
                                    Some(InstructionOf::Lw(v0, v1, v2))
                                },
                                None => None,
                            }
                        },
                        None => None,
                    }
                },
                None => None,
            }
        } else if text_eq(name.value, "lbu") {
            match Register::from_expr(arg0, summary) {
                Some(v0) => {
                    match Register::from_expr(arg1, summary) {
                        Some(v1) => {
                            match Offset::from_expr(arg2, summary) {
                                Some(v2) => {
                                    Some(InstructionOf::Lbu(v0, v1, v2))
                                },
                                None => None,
                            }
                        },
                        None => None,
                    }
                },
                None => None,
            }
        } else if text_eq(name.value, "lhu") {
            match Register::from_expr(arg0, summary) {
                Some(v0) => {
                    match Register::from_expr(arg1, summary) {
                        Some(v1) => {
                            match Offset::from_expr(arg2, summary) {
                                Some(v2) => {
                                    Some(InstructionOf::Lhu(v0, v1, v2))
                                },
                                None => None,
                            }
                        },
                        None => None,
                    }
                },
                None => None,
            }
        } else if text_eq(name.value, "addi") {
            match Register::from_expr(arg0, summary) {
                Some(v0) => {
                    match Register::from_expr(arg1, summary) {
                        Some(v1) => {
                            match Imm::from_expr(arg2, summary) {
                                Some(v2) => {
                                    Some(InstructionOf::Addi(v0, v1, v2))
                                },
                                None => None,
                            }
                        },
                        None => None,
                    }
                },
                None => None,
            }
        } else if text_eq(name.value, "slti") {
            match Register::from_expr(arg0, summary) {
                Some(v0) => {
                    match Register::from_expr(arg1, summary) {
                        Some(v1) => {
                            match Imm::from_expr(arg2, summary) {
                                Some(v2) => {
                                    Some(InstructionOf::Slti(v0, v1, v2))
                                },
                                None => None,
                            }
                        },
                        None => None,
                    }
                },
                None => None,
            }
        } else if text_eq(name.value, "sltiu") {
            match Register::from_expr(arg0, summary) {
                Some(v0) => {
                    match Register::from_expr(arg1, summary) {
                        Some(v1) => {
                            match Imm::from_expr(arg2, summary) {
                                Some(v2) => {
                                    Some(InstructionOf::Sltiu(v0, v1, v2))
                                },
                                None => None,
                            }
                        },
                        None => None,
                    }
                },
                None => None,
            }
        } else if text_eq(name.value, "xori") {
            match Register::from_expr(arg0, summary) {
                Some(v0) => {
                    match Register::from_expr(arg1, summary) {
                        Some(v1) => {
                            match Imm::from_expr(arg2, summary) {
                                Some(v2) => {
                                    Some(InstructionOf::Xori(v0, v1, v2))
                                },
                                None => None,
                            }
                        },
                        None => None,
                    }
                },
                None => None,
            }
        } else if text_eq(name.value, "ori") {
            match Register::from_expr(arg0, summary) {
                Some(v0) => {
                    match Register::from_expr(arg1, summary) {
                        Some(v1) => {
                            match Imm::from_expr(arg2, summary) {
                                Some(v2) => {
                                    Some(InstructionOf::Ori(v0, v1, v2))
                                },
                                None => None,
                            }
                        },
                        None => None,
                    }
                },
                None => None,
            }
        } else if text_eq(name.value, "andi") {
            match Register::from_expr(arg0, summary) {
                Some(v0) => {
                    match Register::from_expr(arg1, summary) {
                        Some(v1) => {
                            match Imm::from_expr(arg2, summary) {
                                Some(v2) => {
                                    Some(InstructionOf::Andi(v0, v1, v2))
                                },
                                None => None,
                            }
                        },
                        None => None,
                    }
                },
                None => None,
            }
        } else if text_eq(name.value, "slli") {
            match Register::from_expr(arg0, summary) {
                Some(v0) => {
                    match Register::from_expr(arg1, summary) {
                        Some(v1) => {
                            match Imm::from_expr(arg2, summary) {
                                Some(v2) => {
                                    Some(InstructionOf::Slli(v0, v1, v2))
                                },
                                None => None,
                            }
                        },
                        None => None,
                    }
                },
                None => None,
            }
        } else if text_eq(name.value, "srli") {
            match Register::from_expr(arg0, summary) {
                Some(v0) => {
                    match Register::from_expr(arg1, summary) {
                        Some(v1) => {
                            match Imm::from_expr(arg2, summary) {
                                Some(v2) => {
                                    Some(InstructionOf::Srli(v0, v1, v2))
                                },
                                None => None,
                            }
                        },
                        None => None,
                    }
                },
                None => None,
            }
        } else if text_eq(name.value, "srai") {
            match Register::from_expr(arg0, summary) {
                Some(v0) => {
                    match Register::from_expr(arg1, summary) {
                        Some(v1) => {
                            match Imm::from_expr(arg2, summary) {
                                Some(v2) => {
                                    Some(InstructionOf::Srai(v0, v1, v2))
                                },
                                None => None,
                            }
                        },
                        None => None,
                    }
                },
                None => None,
            }
        } else if text_eq(name.value, "add") {
            match Register::from_expr(arg0, summary) {
                Some(v0) => {
                    match Register::from_expr(arg1, summary) {
                        Some(v1) => {
                            match Register::from_expr(arg2, summary) {
                                Some(v2) => {
                                    Some(InstructionOf::Add(v0, v1, v2))
                                },
                                None => None,
                            }
                        },
                        None => None,
                    }
                },
                None => None,
            }
        } else if text_eq(name.value, "sub") {
            match Register::from_expr(arg0, summary) {
                Some(v0) => {
                    match Register::from_expr(arg1, summary) {
                        Some(v1) => {
                            match Register::from_expr(arg2, summary) {
                                Some(v2) => {
                                    Some(InstructionOf::Sub(v0, v1, v2))
                                },
                                None => None,
                            }
                        },
                        None => None,
                    }
                },
                None => None,
            }
        } else if text_eq(name.value, "sll") {
            match Register::from_expr(arg0, summary) {
                Some(v0) => {
                    match Register::from_expr(arg1, summary) {
                        Some(v1) => {
                            match Register::from_expr(arg2, summary) {
                                Some(v2) => {
                                    Some(InstructionOf::Sll(v0, v1, v2))
                                },
                                None => None,
                            }
                        },
                        None => None,
                    }
                },
                None => None,
            }
        } else if text_eq(name.value, "slt") {
            match Register::from_expr(arg0, summary) {
                Some(v0) => {
                    match Register::from_expr(arg1, summary) {
                        Some(v1) => {
                            match Register::from_expr(arg2, summary) {
                                Some(v2) => {
                                    Some(InstructionOf::Slt(v0, v1, v2))
                                },
                                None => None,
                            }
                        },
                        None => None,
                    }
                },
                None => None,
            }
        } else if text_eq(name.value, "sltu") {
            match Register::from_expr(arg0, summary) {
                Some(v0) => {
                    match Register::from_expr(arg1, summary) {
                        Some(v1) => {
                            match Register::from_expr(arg2, summary) {
                                Some(v2) => {
                                    Some(InstructionOf::Sltu(v0, v1, v2))
                                },
                                None => None,
                            }
                        },
                        None => None,
                    }
                },
                None => None,
            }
        } else if text_eq(name.value, "xor") {
            match Register::from_expr(arg0, summary) {
                Some(v0) => {
                    match Register::from_expr(arg1, summary) {
                        Some(v1) => {
                            match Register::from_expr(arg2, summary) {
                                Some(v2) => {
                                    Some(InstructionOf::Xor(v0, v1, v2))
                                },
                                None => None,
                            }
                        },
                        None => None,
                    }
                },
                None => None,
            }
        } else if text_eq(name.value, "srl") {
            match Register::from_expr(arg0, summary) {
                Some(v0) => {
                    match Register::from_expr(arg1, summary) {
                        Some(v1) => {
                            match Register::from_expr(arg2, summary) {
                                Some(v2) => {
                                    Some(InstructionOf::Srl(v0, v1, v2))
                                },
                                None => None,
                            }
                        },
                        None => None,
                    }
                },
                None => None,
            }
        } else if text_eq(name.value, "sra") {
            match Register::from_expr(arg0, summary) {
                Some(v0) => {
                    match Register::from_expr(arg1, summary) {
                        Some(v1) => {
                            match Register::from_expr(arg2, summary) {
                                Some(v2) => {
                                    Some(InstructionOf::Sra(v0, v1, v2))
                                },
                                None => None,
                            }
                        },
                        None => None,
                    }
                },
                None => None,
            }
        } else if text_eq(name.value, "or") {
            match Register::from_expr(arg0, summary) {
                Some(v0) => {
                    match Register::from_expr(arg1, summary) {
                        Some(v1) => {
                            match Register::from_expr(arg2, summary) {
                                Some(v2) => {
                                    Some(InstructionOf::Or(v0, v1, v2))
                                },
                                None => None,
                            }
                        },
                        None => None,
                    }
                },
                None => None,
            }
        } else if text_eq(name.value, "and") {
            match Register::from_expr(arg0, summary) {
                Some(v0) => {
                    match Register::from_expr(arg1, summary) {
                        Some(v1) => {
                            match Register::from_expr(arg2, summary) {
                                Some(v2) => {
                                    Some(InstructionOf::And(v0, v1, v2))
                                },
                                None => None,
                            }
                        },
                        None => None,
                    }
                },
                None => None,
            }
        } else if text_eq(name.value, "sb") {
            match Register::from_expr(arg0, summary) {
                Some(v0) => {
                    match Offset::from_expr(arg1, summary) {
                        Some(v1) => {
                            match Register::from_expr(arg2, summary) {
                                Some(v2) => {
                                    Some(InstructionOf::Sb(v0, v1, v2))
                                },
                                None => None,
                            }
                        },
                        None => None,
                    }
                },
                None => None,
            }
        } else if text_eq(name.value, "sh") {
            match Register::from_expr(arg0, summary) {
                Some(v0) => {
                    match Offset::from_expr(arg1, summary) {
                        Some(v1) => {
                            match Register::from_expr(arg2, summary) {
                                Some(v2) => {
                                    Some(InstructionOf::Sh(v0, v1, v2))
                                },
                                None => None,
                            }
                        },
                        None => None,
                    }
                },
                None => None,
            }
        } else if text_eq(name.value, "sw") {
            match Register::from_expr(arg0, summary) {
                Some(v0) => {
                    match Offset::from_expr(arg1, summary) {
                        Some(v1) => {
                            match Register::from_expr(arg2, summary) {
                                Some(v2) => {
                                    Some(InstructionOf::Sw(v0, v1, v2))
                                },
                                None => None,
                            }
                        },
                        None => None,
                    }
                },
                None => None,
            }
        } else if text_eq(name.value, "sd") {
            match Register::from_expr(arg0, summary) {
                Some(v0) => {
                    match Offset::from_expr(arg1, summary) {
                        Some(v1) => {
                            match Register::from_expr(arg2, summary) {
                                Some(v2) => {
                                    Some(InstructionOf::Sd(v0, v1, v2))
                                },
                                None => None,
                            }
                        },
                        None => None,
                    }
                },
                None => None,
            }
        } else if text_eq(name.value, "flw") {
            match Register::from_expr(arg0, summary) {
                Some(v0) => {
                    match Offset::from_expr(arg1, summary) {
                        Some(v1) => {
                            match Register::from_expr(arg2, summary) {
                                Some(v2) => {
                                    Some(InstructionOf::Flw(v0, v1, v2))
                                },
                                None => None,
                            }
                        },
                        None => None,
                    }
                },
                None => None,
            }
        } else if text_eq(name.value, "fld") {
            match Register::from_expr(arg0, summary) {
                Some(v0) => {
                    match Offset::from_expr(arg1, summary) {
                        Some(v1) => {
                            match Register::from_expr(arg2, summary) {
                                Some(v2) => {
                                    Some(InstructionOf::Fld(v0, v1, v2))
                                },
                                None => None,
                            }
                        },
                        None => None,
                    }
                },
                None => None,
            }
        } else if text_eq(name.value, "fsw") {
            match Register::from_expr(arg0, summary) {
                Some(v0) => {
                    match Offset::from_expr(arg1, summary) {
                        Some(v1) => {
                            match Register::from_expr(arg2, summary) {
                                Some(v2) => {
                                    Some(InstructionOf::Fsw(v0, v1, v2))
                                },
                                None => None,
                            }
                        },
                        None => None,
                    }
                },
                None => None,
            }
        } else if text_eq(name.value, "fsd") {
            match Register::from_expr(arg0, summary) {
                Some(v0) => {
                    match Offset::from_expr(arg1, summary) {
                        Some(v1) => {
                            match Register::from_expr(arg2, summary) {
                                Some(v2) => {
                                    Some(InstructionOf::Fsd(v0, v1, v2))
                                },
                                None => None,
                            }
                        },
                        None => None,
                    }
                },
                None => None,
            }
        } else if text_eq(name.value, "bgt") {
            match Register::from_expr(arg0, summary) {
                Some(v0) => {
                    match Register::from_expr(arg1, summary) {
                        Some(v1) => {
                            match Offset::from_expr(arg2, summary) {
                                Some(v2) => {
                                    Some(InstructionOf::Bgt(v0, v1, v2))
                                },
                                None => None,
                            }
                        },
                        None => None,
                    }
                },
                None => None,
            }
        } else if text_eq(name.value, "ble") {
            match Register::from_expr(arg0, summary) {
                Some(v0) => {
                    match Register::from_expr(arg1, summary) {
                        Some(v1) => {
                            match Offset::from_expr(arg2, summary) {
                                Some(v2) => {
                                    Some(InstructionOf::Ble(v0, v1, v2))
                                },
                                None => None,
                            }
                        },
                        None => None,
                    }
                },
                None => None,
            }
        } else if text_eq(name.value, "bgtu") {
            match Register::from_expr(arg0, summary) {
                Some(v0) => {
                    match Register::from_expr(arg1, summary) {
                        Some(v1) => {
                            match Offset::from_expr(arg2, summary) {
                                Some(v2) => {
                                    Some(InstructionOf::Bgtu(v0, v1, v2))
                                },
                                None => None,
                            }
                        },
                        None => None,
                    }
                },
                None => None,
            }
        } else if text_eq(name.value, "bleu") {
            match Register::from_expr(arg0, summary) {
                Some(v0) => {
                    match Register::from_expr(arg1, summary) {
                        Some(v1) => {
                            match Offset::from_expr(arg2, summary) {
                                Some(v2) => {
                                    Some(InstructionOf::Bleu(v0, v1, v2))
                                },
                                None => None,
                            }
                        },
                        None => None,
                    }
                },
                None => None,
            }
        } else {
            summary.error(AnalyzeError::InsNotExist(AnalyzeInsNotExist { location: name.span }));
            None
        }
    }

}

/// An instruction with three operands that can all be written out can be written out.
pub proof fn lemma_renders3(ins: SpecInstruction, a: SpecOperand, b: SpecOperand, c: SpecOperand)
    requires
        spec_operands(ins) == seq![a, b, c],
        operand_renders(a),
        operand_renders(b),
        operand_renders(c),
    ensures
        instruction_renders(ins),
{
    assert forall|k: int| 0 <= k < spec_operands(ins).len() implies operand_renders(
        #[trigger] spec_operands(ins)[k],
    ) by {
        if k == 0 {
        } else if k == 1 {
        } else {
        }
    }
}

/// An instruction with two operands that can both be written out can be written out.
pub proof fn lemma_renders2(ins: SpecInstruction, a: SpecOperand, b: SpecOperand)
    requires
        spec_operands(ins) == seq![a, b],
        operand_renders(a),
        operand_renders(b),
    ensures
        instruction_renders(ins),
{
    assert forall|k: int| 0 <= k < spec_operands(ins).len() implies operand_renders(
        #[trigger] spec_operands(ins)[k],
    ) by {
        if k == 0 {
        } else {
        }
    }
}

/// An instruction with one operand that can be written out can be written out.
pub proof fn lemma_renders1(ins: SpecInstruction, a: SpecOperand)
    requires
        spec_operands(ins) == seq![a],
        operand_renders(a),
    ensures
        instruction_renders(ins),
{
    assert forall|k: int| 0 <= k < spec_operands(ins).len() implies operand_renders(
        #[trigger] spec_operands(ins)[k],
    ) by {
    }
}

/// Moving an instruction into a scope keeps its registers, so it can still be
/// written out.
#[verifier::spinoff_prover]
#[verifier::rlimit(100)]
pub proof fn lemma_scope_renders(ins: SpecInstruction, prefix: Seq<char>)
    requires
        instruction_renders(ins),
    ensures
        instruction_renders(spec_scope(ins, prefix)),
{
    let sc = spec_scope(ins, prefix);
    assert(spec_operands(sc).len() == spec_operands(ins).len());
    assert forall|k: int| 0 <= k < spec_operands(sc).len() implies operand_renders(
        #[trigger] spec_operands(sc)[k],
    ) by {
        assert(operand_renders(spec_operands(ins)[k]));
    }
}

} // verus!
verus! {

/// The instructions whose mnemonic holds a `.`, which the language writes
/// without it (`fencei`, `sextw`, `fmvs`, ...).
pub open spec fn dotted_mnemonic(i: SpecInstruction) -> bool {
    match i {
        InstructionOf::FenceI() | InstructionOf::SextW(..) | InstructionOf::FmvS(..)
        | InstructionOf::FabsS(..) | InstructionOf::FnegS(..) | InstructionOf::FmvD(..)
        | InstructionOf::FabsD(..) | InstructionOf::FnegD(..) => true,
        _ => false,
    }
}

/// An instruction read from a name and no operands is written with that name
/// (but for `fence.i`, which is read from `fencei`).
pub proof fn lemma_from_0_written_with_its_name(name: Spanned<Seq<char>>, s: SpecSummary)
    ensures
        spec_from_0(name, s).0 matches Some(i) ==> spec_mnemonic(i) == name.value
            || dotted_mnemonic(i),
{
}

/// An instruction read from a name and one operand is written with that name.
pub proof fn lemma_from_1_written_with_its_name(name: Spanned<Seq<char>>, a: SpecExpr, s: SpecSummary)
    ensures
        spec_from_1(name, a, s).0 matches Some(i) ==> spec_mnemonic(i) == name.value,
{
}

/// An instruction read from a name and two operands is written with that name
/// (but for those whose mnemonic holds a `.`, read from the name without it).
#[verifier::rlimit(50)]
pub proof fn lemma_from_2_written_with_its_name(
    name: Spanned<Seq<char>>,
    a: SpecExpr,
    b: SpecExpr,
    s: SpecSummary,
)
    ensures
        spec_from_2(name, a, b, s).0 matches Some(i) ==> spec_mnemonic(i) == name.value
            || dotted_mnemonic(i),
{
}

/// An instruction read from a name and three operands is written with that
/// name: the mnemonic of each instruction is the name it is read from, so
/// `add` is written `add` and `and` is written `and`.
#[verifier::rlimit(50)]
pub proof fn lemma_from_3_written_with_its_name(
    name: Spanned<Seq<char>>,
    a: SpecExpr,
    b: SpecExpr,
    c: SpecExpr,
    s: SpecSummary,
)
    ensures
        spec_from_3(name, a, b, c, s).0 matches Some(i) ==> spec_mnemonic(i) == name.value,
{
}

} // verus!

verus! {

/// Whether `op` is the operand that the expression `arg` stands for: a
/// register for its name, an immediate for a number, and an offset for a
/// number or a label.
pub open spec fn operand_read(arg: SpecExpr, op: SpecOperand) -> bool {
    match op {
        SpecOperand::Reg(r) => arg matches SpecExpr::Ident(i)
            && crate::generator::registers::register_named(i.value) == Some(r),
        SpecOperand::Imm(m) => arg matches SpecExpr::Number(n) && m == Imm(n.value),
        SpecOperand::Off(o) => match arg {
            SpecExpr::Number(n) => o == SpecOffset::Imm(n.value),
            SpecExpr::Label(l) => o == SpecOffset::Label(l.value),
            _ => false,
        },
    }
}

/// An instruction read from a name alone is written with no operands.
pub proof fn lemma_from_0_operands(name: Spanned<Seq<char>>, s: SpecSummary)
    ensures
        spec_from_0(name, s).0 matches Some(i) ==> spec_operands(i).len() == 0,
{
}

/// An instruction read from a name and one operand is written with that
/// operand.
#[verifier::rlimit(50)]
pub proof fn lemma_from_1_operands(name: Spanned<Seq<char>>, a: SpecExpr, s: SpecSummary)
    ensures
        spec_from_1(name, a, s).0 matches Some(i) ==> spec_operands(i).len() == 1 && operand_read(
            a,
            spec_operands(i)[0],
        ),
{
}

/// An instruction read from a name and two operands is written with those
/// operands, in the order they were read.
#[verifier::rlimit(80)]
pub proof fn lemma_from_2_operands(name: Spanned<Seq<char>>, a: SpecExpr, b: SpecExpr, s: SpecSummary)
    ensures
        spec_from_2(name, a, b, s).0 matches Some(i) ==> spec_operands(i).len() == 2 && operand_read(
            a,
            spec_operands(i)[0],
        ) && operand_read(b, spec_operands(i)[1]),
{
}

/// An instruction read from a name and three operands is written with those
/// operands, in the order they were read.
#[verifier::rlimit(80)]
pub proof fn lemma_from_3_operands(
    name: Spanned<Seq<char>>,
    a: SpecExpr,
    b: SpecExpr,
    c: SpecExpr,
    s: SpecSummary,
)
    ensures
        spec_from_3(name, a, b, c, s).0 matches Some(i) ==> spec_operands(i).len() == 3 && operand_read(
            a,
            spec_operands(i)[0],
        ) && operand_read(b, spec_operands(i)[1]) && operand_read(c, spec_operands(i)[2]),
{
}

} // verus!
