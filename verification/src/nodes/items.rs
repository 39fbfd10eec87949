//! Items: function declarations.

use vstd::prelude::*;

use crate::nodes::model::{SpecItem, fn_args_span, fn_arg_span, item_function_span, fn_arg_fits, fn_args_fit, item_function_fits, item_fits};
use crate::nodes::{clone_spanned_ident, Attribute, Block, Ident};
use crate::parser::{IntoSpanned, Span, Spanned, Token};
use crate::shared_store::NameMap;

verus! {

/// Declarations.
#[derive(Debug)]
pub enum Item {
    Function(ItemFunction),
}

impl IntoSpanned for Item {
    open spec fn spec_span(&self) -> Span {
        match self@ {
            SpecItem::Function(f) => item_function_span(f),
        }
    }

    open spec fn spans_fit(&self) -> bool {
        item_fits(self@)
    }

    fn span(&self) -> (s: Span) {
        match self {
            Item::Function(f) => f.span(),
        }
    }
}

/// Declaration of a function.
#[derive(Debug)]
pub struct ItemFunction {
    pub attrs: Vec<Attribute>,
    pub unsafe_: Option<Spanned<Token>>,
    pub fn_: Spanned<Token>,
    pub name: Spanned<Ident>,
    pub args: FnArgs,
    pub ret: Option<Spanned<Ident>>,
    pub body: Block,
}

impl IntoSpanned for ItemFunction {
    open spec fn spec_span(&self) -> Span {
        item_function_span(self@)
    }

    open spec fn spans_fit(&self) -> bool {
        item_function_fits(self@)
    }

    fn span(&self) -> (s: Span) {
        match self.unsafe_ {
            Some(u) => u.span.merge(self.body.span()),
            None => self.fn_.span.merge(self.body.span()),
        }
    }
}

/// What the analyzer records of a function: its name and signature.
#[derive(Debug)]
pub struct FunctionDefinition {
    pub name: Spanned<Ident>,
    pub args: FnArgs,
    pub ret: Option<Spanned<Ident>>,
}

/// The functions declared so far, and the entry function if one is marked.
#[derive(Debug)]
pub struct FunctionSharedStore {
    pub entry_fn: Option<Span>,
    pub functions: NameMap<FunctionDefinition>,
}

/// A second declaration of a function name.
#[derive(Clone, Copy, Debug, PartialEq, Eq, Hash, Structural)]
pub struct AnalyzeFunctionExistsError {
    pub location: Span,
    pub original: Span,
}

/// A second function marked `#[entry]`.
#[derive(Clone, Copy, Debug, PartialEq, Eq, Hash, Structural)]
pub struct AnalyzeFunctionUniqueEntry {
    pub location: Span,
    pub original: Span,
}

////////////////////
//////////////////// FUNCTION
////////////////////

/// Collection of function arguments.
#[derive(Debug)]
pub struct FnArgs {
    pub open: Spanned<Token>,
    pub args: Vec<FnArg>,
    pub close: Spanned<Token>,
}

impl IntoSpanned for FnArgs {
    open spec fn spec_span(&self) -> Span {
        fn_args_span(self@)
    }

    open spec fn spans_fit(&self) -> bool {
        fn_args_fit(self@)
    }

    fn span(&self) -> (s: Span) {
        self.open.span.merge(self.close.span)
    }
}

/// Function argument declaration.
#[derive(Debug)]
pub struct FnArg {
    pub name: Spanned<Ident>,
    pub ty: Spanned<Ident>,
}

impl IntoSpanned for FnArg {
    open spec fn spec_span(&self) -> Span {
        fn_arg_span(self@)
    }

    open spec fn spans_fit(&self) -> bool {
        fn_arg_fits(self@)
    }

    fn span(&self) -> (s: Span) {
        self.name.span.merge(self.ty.span)
    }
}

impl Clone for FnArg {
    fn clone(&self) -> (r: FnArg)
        ensures
            r == *self,
    {
        FnArg { name: clone_spanned_ident(&self.name), ty: clone_spanned_ident(&self.ty) }
    }
}

impl Clone for FnArgs {
    fn clone(&self) -> (r: FnArgs)
        ensures
            r@ == self@,
    {
        let args = self.args.clone();
        proof {
            assert(args@ =~= self.args@);
        }
        FnArgs { open: self.open, args, close: self.close }
    }
}

} // verus!

// ---------------------------------------------------------------- generation

use crate::generator::{
    fresh_buf, labels_shift_fit, spec_extend_on, stack_total, Generate, GenerateBuf, Imm,
    InstructionOf, Offset, Register, SpecBuf, SpecInstruction, SpecOffset,
};
use crate::nodes::expr::{deref_size, spec_label_here, spec_push, to_i32_truncating};
use crate::nodes::model::{SpecFnArg, SpecItemFunction};
use crate::nodes::statements::{gen_block, try_generate_block, with_if_count};
use crate::nodes::ExprDeref;
use crate::shared_store::{empty_stores, StoresContainer};
use crate::generator::GenerateCtx;
use crate::generator::buf_renders;
use crate::generator::instructions::{instruction_renders, lemma_renders3, lemma_scope_renders, spec_scope, SpecOperand};
use crate::nodes::expr::lemma_push_renders;
use crate::nodes::statements::lemma_gen_block_renders;
use crate::nodes::Program;
use crate::text::push_str;

verus! {

/// The stack of a function's frame before its body runs: one word per argument, in order.
pub open spec fn args_stack(args: Seq<SpecFnArg>) -> Seq<(Seq<char>, ExprDeref)> {
    args.map_values(|a: SpecFnArg| (a.name.value, ExprDeref::Word))
}

/// The stores that move the first `n` arguments from their registers into the frame.
pub open spec fn arg_saves(n: nat) -> Seq<SpecInstruction> {
    Seq::new(
        n,
        |k: int|
            InstructionOf::Sw(
                Register::Argument(k as u8),
                SpecOffset::Imm((4 * k) as i32),
                Register::Stack,
            ),
    )
}

/// The prefix under which a function's labels are placed.
pub open spec fn fn_scope(name: Seq<char>) -> Seq<char> {
    "."@ + name + "."@
}

/// The buffer after a function's prologue, body and epilogue, or `None` where
/// the generator cannot handle the function.
///
/// The body is generated into a frame of its own that starts with the
/// arguments; the frame reserves the stack the body uses, plus a word for the
/// return address unless the function is the entry function, which ends the
/// program with `ebreak` in place of returning.
pub open spec fn gen_item_function(f: SpecItemFunction, b: SpecBuf) -> Option<SpecBuf> {
    let name = f.name.value;
    let n: nat = f.args.args.len();
    let b1 = with_if_count(spec_label_here(b, name), 0);
    if 4 * n > usize::MAX {
        None
    } else {
        let base = SpecBuf { stack: args_stack(f.args.args), ..fresh_buf(b1.stores) };
        match gen_block(f.body, base) {
            None => None,
            Some(c) => if stack_total(c.stack) > usize::MAX {
                None
            } else {
                let child_stack = stack_total(c.stack) as i32;
                let needs_rp = c.stores.entry_fn != Some(f.name.span);
                let frame: int = child_stack + if needs_rp { 4int } else { 0int };
                if frame > i32::MAX || frame == i32::MIN {
                    None
                } else {
                    let b2 = SpecBuf { stores: c.stores, ..b1 };
                    let b3 = spec_push(
                        b2,
                        InstructionOf::Addi(Register::Stack, Register::Stack, Imm((-frame) as i32)),
                    );
                    let b4 = if needs_rp {
                        spec_push(
                            b3,
                            InstructionOf::Sw(Register::Return, SpecOffset::Imm(child_stack), Register::Stack),
                        )
                    } else {
                        b3
                    };
                    let b5 = SpecBuf { buf: b4.buf + arg_saves(n), ..b4 };
                    if !labels_shift_fit(c.labels, b5.buf.len()) {
                        None
                    } else {
                        let b6 = spec_extend_on(b5, c, fn_scope(name));
                        let b7 = if needs_rp {
                            spec_push(
                                b6,
                                InstructionOf::Lw(Register::Return, SpecOffset::Imm(child_stack), Register::Stack),
                            )
                        } else {
                            b6
                        };
                        let b8 = spec_push(
                            b7,
                            InstructionOf::Addi(Register::Stack, Register::Stack, Imm(frame as i32)),
                        );
                        Some(
                            spec_push(
                                b8,
                                if needs_rp {
                                    InstructionOf::Ret()
                                } else {
                                    InstructionOf::Ebreak()
                                },
                            ),
                        )
                    }
                }
            },
        }
    }
}

/// Generating a function keeps what was generated before, labels the function
/// at its first instruction, and brackets its code between reserving a stack
/// frame and freeing the same frame, followed by a return (or, for the entry
/// function, by `ebreak`).
pub proof fn lemma_function_frame(f: SpecItemFunction, b: SpecBuf)
    ensures
        gen_item_function(f, b) matches Some(b2) ==> {
            let k = b.buf.len();
            let n = b2.buf.len();
            &&& n >= k + 3
            &&& b2.buf.subrange(0, k as int) == b.buf
            &&& b2.labels.len() > b.labels.len()
            &&& b2.labels.subrange(0, b.labels.len() as int) == b.labels
            &&& b2.labels[b.labels.len() as int] == (f.name.value, k as usize)
            &&& b2.buf[k as int] matches InstructionOf::Addi(Register::Stack, Register::Stack, Imm(a))
                && b2.buf[n - 2] matches InstructionOf::Addi(Register::Stack, Register::Stack, Imm(c))
                && a + c == 0
            &&& (b2.buf[n - 1] == InstructionOf::<SpecOffset>::Ret() || b2.buf[n - 1]
                == InstructionOf::<SpecOffset>::Ebreak())
        },
{
    if let Some(b2) = gen_item_function(f, b) {
        let name = f.name.value;
        let n: nat = f.args.args.len();
        let b1 = with_if_count(spec_label_here(b, name), 0);
        let base = SpecBuf { stack: args_stack(f.args.args), ..fresh_buf(b1.stores) };
        let c = gen_block(f.body, base).unwrap();
        let child_stack = stack_total(c.stack) as i32;
        let needs_rp = c.stores.entry_fn != Some(f.name.span);
        let frame: int = child_stack + if needs_rp { 4int } else { 0int };
        let b2_ = SpecBuf { stores: c.stores, ..b1 };
        let b3 = spec_push(b2_, InstructionOf::Addi(Register::Stack, Register::Stack, Imm((-frame) as i32)));
        let b4 = if needs_rp {
            spec_push(b3, InstructionOf::Sw(Register::Return, SpecOffset::Imm(child_stack), Register::Stack))
        } else {
            b3
        };
        let b5 = SpecBuf { buf: b4.buf + arg_saves(n), ..b4 };
        let b6 = spec_extend_on(b5, c, fn_scope(name));
        crate::generator::lemma_extend_on_keeps(b5, c, fn_scope(name));
        let k = b.buf.len();
        assert(b3.buf[k as int] == InstructionOf::<SpecOffset>::Addi(Register::Stack, Register::Stack, Imm((-frame) as i32)));
        assert(b5.buf.subrange(0, k as int + 1) =~= b3.buf);
        assert(b6.buf.subrange(0, k as int + 1) =~= b3.buf);
        assert(b2.buf.subrange(0, k as int + 1) =~= b3.buf);
        assert(b2.buf.subrange(0, k as int) =~= b.buf);
        assert(b6.labels.subrange(0, b.labels.len() as int + 1) =~= b1.labels);
        assert(b2.labels.subrange(0, b.labels.len() as int) =~= b.labels);
        assert(b2.buf[k as int] == b3.buf[k as int]);
        assert(((-frame) as i32) + (frame as i32) == 0);
    }
}

/// Appending instructions that can all be written out to a buffer that can be
/// written out gives a buffer that can be written out.
proof fn lemma_concat_renders(a: Seq<SpecInstruction>, b: Seq<SpecInstruction>)
    requires
        forall|i: int| 0 <= i < a.len() ==> instruction_renders(#[trigger] a[i]),
        forall|i: int| 0 <= i < b.len() ==> instruction_renders(#[trigger] b[i]),
    ensures
        forall|i: int| 0 <= i < (a + b).len() ==> instruction_renders(#[trigger] (a + b)[i]),
{
    assert forall|i: int| 0 <= i < (a + b).len() implies instruction_renders(#[trigger] (a + b)[i]) by {
        if i < a.len() {
            assert((a + b)[i] == a[i]);
        } else {
            assert((a + b)[i] == b[i - a.len()]);
        }
    }
}

/// The generator only writes registers that have a name: generating a
/// function into a buffer that can be written out gives a buffer that can be
/// written out.
pub proof fn lemma_gen_item_function_renders(f: SpecItemFunction, b: SpecBuf)
    requires
        buf_renders(b),
    ensures
        gen_item_function(f, b) matches Some(b2) ==> buf_renders(b2),
{
    let name = f.name.value;
    let n: nat = f.args.args.len();
    let b1 = with_if_count(spec_label_here(b, name), 0);
    if 4 * n <= usize::MAX {
        let base = SpecBuf { stack: args_stack(f.args.args), ..fresh_buf(b1.stores) };
        lemma_gen_block_renders(f.body, base);
        if let Some(c) = gen_block(f.body, base) {
            if stack_total(c.stack) <= usize::MAX {
                let child_stack = stack_total(c.stack) as i32;
                let needs_rp = c.stores.entry_fn != Some(f.name.span);
                let frame: int = child_stack + if needs_rp { 4int } else { 0int };
                if !(frame > i32::MAX || frame == i32::MIN) {
                    let b2 = SpecBuf { stores: c.stores, ..b1 };
                    let open = InstructionOf::Addi(Register::Stack, Register::Stack, Imm((-frame) as i32));
                    lemma_renders3(
                        open,
                        SpecOperand::Reg(Register::Stack),
                        SpecOperand::Reg(Register::Stack),
                        SpecOperand::Imm(Imm((-frame) as i32)),
                    );
                    lemma_push_renders(b2, open);
                    let b3 = spec_push(b2, open);
                    let save = InstructionOf::Sw(Register::Return, SpecOffset::Imm(child_stack), Register::Stack);
                    lemma_renders3(
                        save,
                        SpecOperand::Reg(Register::Return),
                        SpecOperand::Off(SpecOffset::Imm(child_stack)),
                        SpecOperand::Reg(Register::Stack),
                    );
                    lemma_push_renders(b3, save);
                    let b4 = if needs_rp { spec_push(b3, save) } else { b3 };
                    let saves = arg_saves(n);
                    assert forall|k: int| 0 <= k < saves.len() implies instruction_renders(#[trigger] saves[k]) by {
                        lemma_renders3(
                            saves[k],
                            SpecOperand::Reg(Register::Argument(k as u8)),
                            SpecOperand::Off(SpecOffset::Imm((4 * k) as i32)),
                            SpecOperand::Reg(Register::Stack),
                        );
                    }
                    lemma_concat_renders(b4.buf, saves);
                    let b5 = SpecBuf { buf: b4.buf + saves, ..b4 };
                    if labels_shift_fit(c.labels, b5.buf.len()) {
                        let scope = fn_scope(name);
                        let moved = c.buf.map_values(|i: SpecInstruction| spec_scope(i, scope));
                        assert forall|k: int| 0 <= k < moved.len() implies instruction_renders(#[trigger] moved[k]) by {
                            lemma_scope_renders(c.buf[k], scope);
                        }
                        lemma_concat_renders(b5.buf, moved);
                        let b6 = spec_extend_on(b5, c, scope);
                        assert(b6.buf == b5.buf + moved);
                        let restore = InstructionOf::Lw(Register::Return, SpecOffset::Imm(child_stack), Register::Stack);
                        lemma_renders3(
                            restore,
                            SpecOperand::Reg(Register::Return),
                            SpecOperand::Off(SpecOffset::Imm(child_stack)),
                            SpecOperand::Reg(Register::Stack),
                        );
                        lemma_push_renders(b6, restore);
                        let b7 = if needs_rp { spec_push(b6, restore) } else { b6 };
                        let close = InstructionOf::Addi(Register::Stack, Register::Stack, Imm(frame as i32));
                        lemma_renders3(
                            close,
                            SpecOperand::Reg(Register::Stack),
                            SpecOperand::Reg(Register::Stack),
                            SpecOperand::Imm(Imm(frame as i32)),
                        );
                        lemma_push_renders(b7, close);
                        let b8 = spec_push(b7, close);
                        let last: SpecInstruction = if needs_rp { InstructionOf::Ret() } else { InstructionOf::Ebreak() };
                        assert(instruction_renders(last));
                        lemma_push_renders(b8, last);
                    }
                }
            }
        }
    }
}

/// Generating items writes only registers that have a name.
pub proof fn lemma_gen_items_renders(items: Seq<SpecItem>, b: SpecBuf)
    requires
        buf_renders(b),
    ensures
        gen_items(items, b) matches Some(b2) ==> buf_renders(b2),
    decreases items.len(),
{
    if items.len() > 0 {
        lemma_gen_items_renders(items.drop_last(), b);
        if let Some(b1) = gen_items(items.drop_last(), b) {
            match items.last() {
                SpecItem::Function(f) => lemma_gen_item_function_renders(f, b1),
            }
        }
    }
}

/// A stack of words takes four bytes per variable.
proof fn lemma_words_total(stack: Seq<(Seq<char>, ExprDeref)>)
    requires
        forall|k: int| 0 <= k < stack.len() ==> #[trigger] stack[k].1 == ExprDeref::Word,
    ensures
        stack_total(stack) == 4 * stack.len(),
    decreases stack.len(),
{
    if stack.len() > 0 {
        assert(stack.last().1 == ExprDeref::Word);
        lemma_words_total(stack.drop_last());
    }
}

/// Emits a function; tells whether the generator could handle it.
pub fn try_generate_item_function(f: &ItemFunction, buf: &mut GenerateBuf) -> (ok: bool)
    ensures
        ok == gen_item_function(f@, old(buf)@) is Some,
        ok ==> final(buf)@ == gen_item_function(f@, old(buf)@).unwrap(),
{
    let ghost fv = f@;
    let ghost args = fv.args.args;
    buf.label_here(f.name.value.0.clone());
    buf.set_if_count(0);
    let ghost b1 = buf@;
    let n: usize = f.args.args.len();
    if n > usize::MAX / 4 {
        return false;
    }
    let mut base = GenerateBuf::default();
    assert(args_stack(args).take(0) =~= Seq::<(Seq<char>, ExprDeref)>::empty());
    let mut offsets: Vec<usize> = Vec::new();
    let mut i: usize = 0;
    while i < n
        invariant
            i <= n,
            n == f.args.args@.len(),
            args == f.args.args@.map_values(|a: FnArg| a@),
            4 * n <= usize::MAX,
            base@ == (SpecBuf { stack: args_stack(args).take(i as int), ..fresh_buf(empty_stores()) }),
            offsets@.len() == i,
            forall|k: int| 0 <= k < i ==> #[trigger] offsets@[k] == 4 * k,
        decreases n - i,
    {
        proof {
            assert forall|k: int| 0 <= k < i implies #[trigger] args_stack(args).take(i as int)[k].1
                == ExprDeref::Word by {}
            lemma_words_total(args_stack(args).take(i as int));
        }
        let name = f.args.args[i].name.value.0.clone();
        let off: usize = base.push_stack(name, ExprDeref::Word);
        proof {
            assert(args[i as int] == f.args.args@[i as int]@);
            assert(args_stack(args).take(i + 1) =~= args_stack(args).take(i as int).push((name@, ExprDeref::Word)));
        }
        offsets.push(off);
        i = i + 1;
    }
    assert(args_stack(args).take(n as int) =~= args_stack(args));
    let mut child = base;
    child.swap_stores(buf);
    assert(child@ == (SpecBuf { stack: args_stack(args), ..fresh_buf(b1.stores) }));
    if !try_generate_block(&f.body, &mut child) {
        return false;
    }
    child.swap_stores(buf);
    let ghost c = gen_block(fv.body, SpecBuf { stack: args_stack(args), ..fresh_buf(b1.stores) }).unwrap();
    let total: usize = match child.checked_stack_size() {
        None => { return false; },
        Some(t) => t,
    };
    let child_stack: i32 = to_i32_truncating(total);
    let needs_rp = match buf.entry_fn() {
        Some(e) => !(e == f.name.span),
        None => true,
    };
    let extra: i32 = if needs_rp { 4 } else { 0 };
    if child_stack > i32::MAX - extra {
        return false;
    }
    let frame: i32 = child_stack + extra;
    if frame == i32::MIN {
        return false;
    }
    buf.push(InstructionOf::Addi(Register::Stack, Register::Stack, Imm(-frame)));
    if needs_rp {
        buf.push(InstructionOf::Sw(Register::Return, Offset::Imm(child_stack), Register::Stack));
    }
    let ghost b4 = buf@;
    let mut k: usize = 0;
    while k < n
        invariant
            k <= n,
            4 * n <= usize::MAX,
            offsets@.len() == n,
            forall|j: int| 0 <= j < n ==> #[trigger] offsets@[j] == 4 * j,
            buf@ == (SpecBuf { buf: b4.buf + arg_saves(k as nat), ..b4 }),
        decreases n - k,
    {
        let reg: u8 = #[verifier::truncate] (k as u8);
        buf.push(
            InstructionOf::Sw(
                Register::Argument(reg),
                Offset::Imm(to_i32_truncating(offsets[k])),
                Register::Stack,
            ),
        );
        proof {
            assert(arg_saves((k + 1) as nat) =~= arg_saves(k as nat).push(arg_saves((k + 1) as nat)[k as int]));
            assert(buf@.buf =~= b4.buf + arg_saves((k + 1) as nat));
        }
        k = k + 1;
    }
    if !child.labels_fit_after(buf.pointer()) {
        return false;
    }
    let mut scope = String::new();
    push_str(&mut scope, ".");
    push_str(&mut scope, f.name.value.0.as_str());
    push_str(&mut scope, ".");
    buf.extend_on(child, scope);
    if needs_rp {
        buf.push(InstructionOf::Lw(Register::Return, Offset::Imm(child_stack), Register::Stack));
    }
    buf.push(InstructionOf::Addi(Register::Stack, Register::Stack, Imm(frame)));
    if needs_rp {
        buf.push(InstructionOf::Ret());
    } else {
        buf.push(InstructionOf::Ebreak());
    }
    true
}

impl Generate for ItemFunction {
    open spec fn spec_generate(&self, b: SpecBuf) -> Option<SpecBuf> {
        gen_item_function(self@, b)
    }

    fn try_generate(&self, buf: &mut GenerateBuf) -> (ok: bool) {
        try_generate_item_function(self, buf)
    }
}

impl Generate for Item {
    open spec fn spec_generate(&self, b: SpecBuf) -> Option<SpecBuf> {
        match self@ {
            SpecItem::Function(f) => gen_item_function(f, b),
        }
    }

    fn try_generate(&self, buf: &mut GenerateBuf) -> (ok: bool) {
        match self {
            Item::Function(f) => try_generate_item_function(f, buf),
        }
    }
}

} // verus!

verus! {

/// The buffer after each item in turn, or `None` where one cannot be handled.
pub open spec fn gen_items(items: Seq<SpecItem>, b: SpecBuf) -> Option<SpecBuf>
    decreases items.len(),
{
    if items.len() == 0 {
        Some(b)
    } else {
        match gen_items(items.drop_last(), b) {
            None => None,
            Some(b1) => match items.last() {
                SpecItem::Function(f) => gen_item_function(f, b1),
            },
        }
    }
}

/// Generation of a prefix of the items succeeds when generation of all of them does.
proof fn lemma_gen_items_prefix(s: Seq<SpecItem>, k: int, b: SpecBuf)
    requires
        0 <= k <= s.len(),
    ensures
        gen_items(s, b) is Some ==> gen_items(s.subrange(0, k), b) is Some,
    decreases s.len() - k,
{
    if k < s.len() {
        lemma_gen_items_prefix(s, k + 1, b);
        assert(s.subrange(0, k as int + 1).drop_last() =~= s.subrange(0, k));
    } else {
        assert(s.subrange(0, k) =~= s);
    }
}

impl Generate for Program {
    open spec fn spec_generate(&self, b: SpecBuf) -> Option<SpecBuf> {
        gen_items(self@, b)
    }

    fn try_generate(&self, buf: &mut GenerateBuf) -> (ok: bool) {
        let ghost items = self@;
        let mut i: usize = 0;
        assert(items.subrange(0, 0) =~= Seq::<SpecItem>::empty());
        while i < self.0.len()
            invariant
                i <= self.0@.len(),
                items == self@,
                gen_items(items.subrange(0, i as int), old(buf)@) is Some,
                buf@ == gen_items(items.subrange(0, i as int), old(buf)@).unwrap(),
            decreases self.0.len() - i,
        {
            proof {
                let sub = items.subrange(0, i + 1);
                assert(sub.drop_last() =~= items.subrange(0, i as int));
                assert(sub.last() == self.0@[i as int]@);
                lemma_gen_items_prefix(items, i as int + 1, old(buf)@);
            }
            if !self.0[i].try_generate(buf) {
                return false;
            }
            i = i + 1;
        }
        assert(items.subrange(0, i as int) =~= items);
        true
    }
}

impl Program {
    /// Generates the program into a fresh buffer around the stores the analysis
    /// left, or `None` where the generator cannot handle it.
    pub fn try_generated(&self, stores: StoresContainer) -> (r: Option<GenerateBuf>)
        ensures
            match gen_items(self@, fresh_buf(stores@)) {
                Some(b) => r matches Some(g) && g@ == b,
                None => r is None,
            },
            r matches Some(g) ==> buf_renders(g@),
    {
        proof {
            lemma_gen_items_renders(self@, fresh_buf(stores@));
        }
        let mut buf = GenerateBuf::new(GenerateCtx::new(), stores);
        if self.try_generate(&mut buf) {
            Some(buf)
        } else {
            None
        }
    }
}

} // verus!
