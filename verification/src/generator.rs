//! The instruction buffer that code generation fills, and its text.

pub mod instructions;
pub mod registers;

use vstd::prelude::*;

pub use instructions::{Instruction, InstructionOf, SpecInstruction};
pub use registers::{
    AnalyzeImmInvalid, AnalyzeOffsetInvalid, AnalyzeRegInvalid, AnalyzeRegNotFound, Imm, Offset,
    Register, SpecOffset,
};

use crate::generator::instructions::{instruction_renders, instruction_text};
use crate::nodes::expr::deref_size;
use crate::nodes::ExprDeref;
use crate::parser::Span;
use crate::shared_store::{SpecStores, StoresContainer};
use crate::text::push_str;

verus! {

/// A name that is not the mnemonic of any instruction.
#[derive(Clone, Copy, Debug, PartialEq, Eq, Hash, Structural)]
pub struct AnalyzeInsNotExist {
    pub location: Span,
}

/// Settings of the generator.
#[derive(Debug)]
pub struct GenerateCtx {}

impl GenerateCtx {
    pub fn new() -> GenerateCtx {
        GenerateCtx {}
    }
}

/// The generated program so far: its instructions, the labels that point into
/// them, the variables on the stack, and the register that receives the next result.
#[derive(Debug)]
pub struct GenerateBuf {
    buf: Vec<Instruction>,
    ctx: GenerateCtx,
    labels: Vec<(String, usize)>,
    stack: Vec<(String, ExprDeref)>,
    pub result: Register,
    pub stores: StoresContainer,
}

/// The model of the generator's buffer.
pub struct SpecBuf {
    pub buf: Seq<SpecInstruction>,
    pub labels: Seq<(Seq<char>, usize)>,
    pub stack: Seq<(Seq<char>, ExprDeref)>,
    pub result: Register,
    pub stores: SpecStores,
}

impl View for GenerateBuf {
    type V = SpecBuf;

    closed spec fn view(&self) -> SpecBuf {
        SpecBuf {
            buf: self.buf@.map_values(|i: Instruction| i@),
            labels: self.labels@.map_values(|l: (String, usize)| (l.0@, l.1)),
            stack: self.stack@.map_values(|e: (String, ExprDeref)| (e.0@, e.1)),
            result: self.result,
            stores: self.stores@,
        }
    }
}

/// The bytes that the variables on the stack take up together.
pub open spec fn stack_total(stack: Seq<(Seq<char>, ExprDeref)>) -> nat
    decreases stack.len(),
{
    if stack.len() == 0 {
        0
    } else {
        stack_total(stack.drop_last()) + deref_size(stack.last().1)
    }
}

/// Where the most recently pushed variable of that name lies on the stack, and its width.
pub open spec fn spec_get_stack(stack: Seq<(Seq<char>, ExprDeref)>, name: Seq<char>) -> Option<
    (nat, ExprDeref),
>
    decreases stack.len(),
{
    if stack.len() == 0 {
        None
    } else if stack.last().0 == name {
        Some((stack_total(stack.drop_last()), stack.last().1))
    } else {
        spec_get_stack(stack.drop_last(), name)
    }
}

/// The register that receives the next intermediate result.
pub open spec fn spec_next_result(r: Register) -> Option<Register> {
    match r {
        Register::Result => Some(Register::Local(0)),
        Register::Local(n) => if n <= 5 {
            Some(Register::Local((n + 1) as u8))
        } else {
            None
        },
        Register::Argument(_) => Some(Register::Local(0)),
        _ => None,
    }
}

/// The register that received the previous intermediate result.
pub open spec fn spec_prev_result(r: Register) -> Option<Register> {
    match r {
        Register::Result => Some(Register::Local(0)),
        Register::Local(n) => if n == 0 {
            Some(Register::Local(0))
        } else {
            Some(Register::Local((n - 1) as u8))
        },
        _ => None,
    }
}

/// A fresh buffer around the given stores.
pub open spec fn fresh_buf(stores: SpecStores) -> SpecBuf {
    SpecBuf {
        buf: Seq::empty(),
        labels: Seq::empty(),
        stack: Seq::empty(),
        result: Register::Local(0),
        stores,
    }
}

/// The buffer `rhs` appended to `b`: labels move by `b`'s length and take the
/// prefix, instructions have their labels placed in the prefix's scope.
pub open spec fn spec_extend_on(b: SpecBuf, rhs: SpecBuf, parent: Seq<char>) -> SpecBuf {
    SpecBuf {
        buf: b.buf + rhs.buf.map_values(|i: SpecInstruction| instructions::spec_scope(i, parent)),
        labels: b.labels + rhs.labels.map_values(
            |l: (Seq<char>, usize)| (parent + l.0, (l.1 + b.buf.len()) as usize),
        ),
        ..b
    }
}

/// Whether the labels of `rhs` still fit a `usize` once moved by `shift`.
pub open spec fn labels_shift_fit(labels: Seq<(Seq<char>, usize)>, shift: nat) -> bool {
    forall|i: int| 0 <= i < labels.len() ==> #[trigger] labels[i].1 + shift <= usize::MAX
}

impl GenerateBuf {
    pub fn new(ctx: GenerateCtx, stores: StoresContainer) -> (b: GenerateBuf)
        ensures
            b@ == fresh_buf(stores@),
    {
        let b = GenerateBuf {
            buf: Vec::new(),
            ctx,
            labels: Vec::new(),
            stack: Vec::new(),
            result: Register::Local(0),
            stores,
        };
        proof {
            assert(b@.buf =~= Seq::<SpecInstruction>::empty());
            assert(b@.labels =~= Seq::<(Seq<char>, usize)>::empty());
            assert(b@.stack =~= Seq::<(Seq<char>, ExprDeref)>::empty());
        }
        b
    }

    /// A fresh buffer with fresh stores.
    pub fn default() -> (b: GenerateBuf)
        ensures
            b@ == fresh_buf(crate::shared_store::empty_stores()),
    {
        GenerateBuf::new(GenerateCtx::new(), StoresContainer::new())
    }

    /// The index the next instruction will get.
    pub fn pointer(&self) -> (p: usize)
        ensures
            p == self@.buf.len(),
    {
        self.buf.len()
    }

    pub fn push(&mut self, ins: Instruction)
        ensures
            final(self)@ == (SpecBuf { buf: old(self)@.buf.push(ins@), ..old(self)@ }),
    {
        self.buf.push(ins);
        proof {
            assert(self@.buf =~= old(self)@.buf.push(ins@));
        }
    }

    /// The bytes the variables on the stack take up.
    pub fn stack_size(&self) -> (n: usize)
        requires
            stack_total(self@.stack) <= usize::MAX,
        ensures
            n == stack_total(self@.stack),
    {
        let mut total: usize = 0;
        let mut i: usize = 0;
        while i < self.stack.len()
            invariant
                i <= self.stack@.len(),
                stack_total(self@.stack) <= usize::MAX,
                total == stack_total(self@.stack.subrange(0, i as int)),
            decreases self.stack.len() - i,
        {
            proof {
                assert(self@.stack.subrange(0, i + 1).drop_last() =~= self@.stack.subrange(0, i as int));
                lemma_stack_total_prefix(self@.stack, i as int + 1);
            }
            total = total + self.stack[i].1.size();
            i = i + 1;
        }
        assert(self@.stack.subrange(0, i as int) =~= self@.stack);
        total
    }

    /// Puts a variable on top of the stack and returns where it lies.
    pub fn push_stack(&mut self, name: String, size: ExprDeref) -> (offset: usize)
        requires
            stack_total(old(self)@.stack) <= usize::MAX,
        ensures
            offset == stack_total(old(self)@.stack),
            final(self)@ == (SpecBuf { stack: old(self)@.stack.push((name@, size)), ..old(self)@ }),
    {
        let offset = self.stack_size();
        self.stack.push((name, size));
        proof {
            assert(self@.stack =~= old(self)@.stack.push((name@, size)));
        }
        offset
    }

    /// Marks the current position with a label.
    pub fn label_here(&mut self, name: String)
        ensures
            final(self)@ == (SpecBuf {
                labels: old(self)@.labels.push((name@, old(self)@.buf.len() as usize)),
                ..old(self)@
            }),
    {
        let p = self.pointer();
        self.labels.push((name, p));
        proof {
            assert(self@.labels =~= old(self)@.labels.push((name@, old(self)@.buf.len() as usize)));
        }
    }

    /// Appends the instructions and labels of `rhs`, scoped under `parent`.
    pub fn extend_on(&mut self, rhs: Self, parent: String)
        requires
            labels_shift_fit(rhs@.labels, old(self)@.buf.len()),
        ensures
            final(self)@ == spec_extend_on(old(self)@, rhs@, parent@),
    {
        let current_pointer = self.pointer();
        let ghost rb = rhs@;
        let ghost shift = old(self)@.buf.len();
        let ghost lf = |l: (Seq<char>, usize)| (parent@ + l.0, (l.1 + shift) as usize);
        let GenerateBuf { buf: rbuf, labels: rlabels, .. } = rhs;
        let mut i: usize = 0;
        while i < rlabels.len()
            invariant
                i <= rlabels@.len(),
                current_pointer == shift,
                shift == old(self)@.buf.len(),
                lf == (|l: (Seq<char>, usize)| (parent@ + l.0, (l.1 + shift) as usize)),
                rb.labels == rlabels@.map_values(|l: (String, usize)| (l.0@, l.1)),
                labels_shift_fit(rb.labels, shift),
                self@ == (SpecBuf {
                    labels: old(self)@.labels + rb.labels.subrange(0, i as int).map_values(lf),
                    ..old(self)@
                }),
            decreases rlabels.len() - i,
        {
            let mut name = parent.clone();
            push_str(&mut name, rlabels[i].0.as_str());
            assert(rb.labels[i as int].1 + shift <= usize::MAX);
            let pos = rlabels[i].1 + current_pointer;
            let ghost before = self.labels@;
            self.labels.push((name, pos));
            proof {
                assert(rb.labels[i as int] == (rlabels@[i as int].0@, rlabels@[i as int].1));
                assert(self.labels@ == before.push((name, pos)));
                assert(self.labels@.map_values(|l: (String, usize)| (l.0@, l.1)) =~= before.map_values(
                    |l: (String, usize)| (l.0@, l.1),
                ).push((name@, pos)));
                assert(rb.labels.subrange(0, i + 1).map_values(lf) =~= rb.labels.subrange(
                    0,
                    i as int,
                ).map_values(lf).push(lf(rb.labels[i as int])));
            }
            i = i + 1;
            proof {
                assert(self@.labels =~= old(self)@.labels + rb.labels.subrange(0, i as int).map_values(lf));
            }
        }
        assert(rb.labels.subrange(0, i as int) =~= rb.labels);
        let ghost sf = |ins: SpecInstruction| instructions::spec_scope(ins, parent@);
        let mut j: usize = 0;
        let n = rbuf.len();
        while j < n
            invariant
                j <= n,
                n == rbuf@.len(),
                sf == (|ins: SpecInstruction| instructions::spec_scope(ins, parent@)),
                rb.buf == rbuf@.map_values(|ins: Instruction| ins@),
                self@ == (SpecBuf {
                    buf: old(self)@.buf + rb.buf.subrange(0, j as int).map_values(sf),
                    labels: old(self)@.labels + rb.labels.map_values(lf),
                    ..old(self)@
                }),
            decreases n - j,
        {
            let ins = rinstrs_take(&rbuf, j);
            let ins = ins.scope(parent.as_str());
            let ghost before = self.buf@;
            self.buf.push(ins);
            proof {
                assert(self.buf@.map_values(|i: Instruction| i@) =~= before.map_values(
                    |i: Instruction| i@,
                ).push(ins@));
                assert(rb.buf.subrange(0, j + 1).map_values(sf) =~= rb.buf.subrange(
                    0,
                    j as int,
                ).map_values(sf).push(sf(rb.buf[j as int])));
            }
            j = j + 1;
            proof {
                assert(self@.buf =~= old(self)@.buf + rb.buf.subrange(0, j as int).map_values(sf));
            }
        }
        assert(rb.buf.subrange(0, j as int) =~= rb.buf);
        proof {
            assert(self@.buf =~= spec_extend_on(old(self)@, rb, parent@).buf);
            assert(self@.labels =~= spec_extend_on(old(self)@, rb, parent@).labels);
        }
    }
}

impl GenerateBuf {
    /// Where the most recently pushed variable called `name` lies, and its width.
    pub fn get_stack(&self, name: &String) -> (r: Option<(usize, ExprDeref)>)
        requires
            stack_total(self@.stack) <= usize::MAX,
        ensures
            match spec_get_stack(self@.stack, name@) {
                Some((off, size)) => r == Some((off as usize, size)) && off <= stack_total(self@.stack),
                None => r is None,
            },
    {
        proof {
            lemma_get_stack_bound(self@.stack, name@);
        }
        let ghost st = self@.stack;
        let mut i = self.stack.len();
        assert(st.subrange(0, i as int) =~= st);
        while i > 0
            invariant
                i <= self.stack@.len(),
                st == self@.stack,
                stack_total(st) <= usize::MAX,
                spec_get_stack(st, name@) == spec_get_stack(st.subrange(0, i as int), name@),
            decreases i,
        {
            proof {
                assert(st.subrange(0, i as int).drop_last() =~= st.subrange(0, i - 1));
                assert(st.subrange(0, i as int).last() == st[i - 1]);
                assert(st[i - 1] == (self.stack@[i - 1].0@, self.stack@[i - 1].1));
            }
            if self.stack[i - 1].0 == *name {
                proof {
                    assert(spec_get_stack(st, name@) == Some((stack_total(st.subrange(0, i - 1)), st[i - 1].1)));
                }
                let mut off: usize = 0;
                let mut k: usize = 0;
                while k < i - 1
                    invariant
                        k <= i - 1,
                        i <= self.stack@.len(),
                        st == self@.stack,
                        stack_total(st) <= usize::MAX,
                        off == stack_total(st.subrange(0, k as int)),
                        spec_get_stack(st, name@) == Some((stack_total(st.subrange(0, i - 1)), st[i - 1].1)),
                    decreases i - 1 - k,
                {
                    proof {
                        lemma_stack_total_prefix(st, k as int + 1);
                    }
                    off = off + self.stack[k].1.size();
                    k = k + 1;
                }
                proof {
                    lemma_get_stack_bound(st, name@);
                    assert(st[i - 1] == (self.stack@[i - 1].0@, self.stack@[i - 1].1));
                }
                return Some((off, self.stack[i - 1].1));
            }
            i = i - 1;
        }
        None
    }

    /// The register the next intermediate result would go to.
    pub fn next_result_peek(&self) -> (r: Register)
        requires
            spec_next_result(self@.result) is Some,
        ensures
            Some(r) == spec_next_result(self@.result),
    {
        match self.result {
            Register::Result => Register::Local(0),
            Register::Local(n) => Register::Local(n + 1),
            _ => Register::Local(0),
        }
    }

    /// Moves to the register of the next intermediate result and returns it.
    pub fn next_result(&mut self) -> (r: Register)
        requires
            spec_next_result(old(self)@.result) is Some,
        ensures
            Some(r) == spec_next_result(old(self)@.result),
            final(self)@ == (SpecBuf { result: r, ..old(self)@ }),
    {
        let next = self.next_result_peek();
        self.result = next;
        next
    }

    /// Moves back to the register of the previous intermediate result and
    /// returns the register it leaves.
    pub fn prev_result(&mut self) -> (r: Register)
        requires
            spec_prev_result(old(self)@.result) is Some,
        ensures
            r == old(self)@.result,
            final(self)@ == (SpecBuf {
                result: spec_prev_result(old(self)@.result).unwrap(),
                ..old(self)@
            }),
    {
        let prev = self.result;
        let next = match self.result {
            Register::Local(n) => if n == 0 {
                Register::Local(0)
            } else {
                Register::Local(n - 1)
            },
            _ => Register::Local(0),
        };
        self.result = next;
        prev
    }
}

impl GenerateBuf {
    /// The register that receives the next result.
    pub fn current_result(&self) -> (r: Register)
        ensures
            r == self@.result,
    {
        self.result
    }

    pub fn set_result(&mut self, r: Register)
        ensures
            final(self)@ == (SpecBuf { result: r, ..old(self)@ }),
    {
        self.result = r;
    }

    /// How many `if` statements the current function has numbered so far.
    pub fn if_count(&self) -> (n: usize)
        ensures
            n == self@.stores.if_count,
    {
        self.stores.if_.count
    }

    pub fn set_if_count(&mut self, n: usize)
        ensures
            final(self)@ == (SpecBuf {
                stores: SpecStores { if_count: n, ..old(self)@.stores },
                ..old(self)@
            }),
    {
        self.stores.if_.count = n;
    }

    /// The span of the function marked `#[entry]`, if any.
    pub fn entry_fn(&self) -> (e: Option<Span>)
        ensures
            e == self@.stores.entry_fn,
    {
        self.stores.shared.entry_fn
    }

    /// The name under which the analyzer recorded the function called `name`.
    pub fn function_label(&self, name: &String) -> (r: Option<String>)
        ensures
            match r {
                Some(l) => self@.stores.functions.contains_key(name@) && l@
                    == self@.stores.functions[name@].name.value,
                None => !self@.stores.functions.contains_key(name@),
            },
    {
        match self.stores.shared.functions.get(name) {
            Some(def) => Some(def.name.value.0.clone()),
            None => None,
        }
    }

    /// Exchanges the stores of two buffers.
    pub fn swap_stores(&mut self, other: &mut GenerateBuf)
        ensures
            final(self)@ == (SpecBuf { stores: old(other)@.stores, ..old(self)@ }),
            final(other)@ == (SpecBuf { stores: old(self)@.stores, ..old(other)@ }),
    {
        core::mem::swap(&mut self.stores, &mut other.stores);
    }

    /// Hands the stores over, leaving fresh ones behind.
    pub fn take_stores(&mut self) -> (s: StoresContainer)
        ensures
            s@ == old(self)@.stores,
            final(self)@ == (SpecBuf { stores: crate::shared_store::empty_stores(), ..old(self)@ }),
    {
        let mut fresh = StoresContainer::new();
        core::mem::swap(&mut self.stores, &mut fresh);
        fresh
    }
}

/// Nodes that emit instructions.
pub trait Generate: View {
    /// The buffer after the node's instructions are emitted, or `None` where
    /// generation cannot proceed.
    spec fn spec_generate(&self, b: SpecBuf) -> Option<SpecBuf>;

    /// Emits the node's instructions and tells whether generation could proceed;
    /// when it could not, the buffer holds a partial result.
    fn try_generate(&self, buf: &mut GenerateBuf) -> (ok: bool)
        ensures
            ok == self.spec_generate(old(buf)@) is Some,
            ok ==> final(buf)@ == self.spec_generate(old(buf)@).unwrap(),
    ;

    fn generate(&self, buf: &mut GenerateBuf)
        requires
            self.spec_generate(old(buf)@) is Some,
        ensures
            final(buf)@ == self.spec_generate(old(buf)@).unwrap(),
    {
        let ok = self.try_generate(buf);
        assert(ok);
    }

    /// Generates the node into a fresh buffer around the given stores.
    fn generated(&self, stores: StoresContainer) -> (b: GenerateBuf)
        requires
            self.spec_generate(fresh_buf(stores@)) is Some,
        ensures
            b@ == self.spec_generate(fresh_buf(stores@)).unwrap(),
    {
        let mut buf = GenerateBuf::new(GenerateCtx::new(), stores);
        self.generate(&mut buf);
        buf
    }

    /// Generates the node into `base`, using the stores of `buf` meanwhile.
    fn generated_child(&self, buf: &mut GenerateBuf, base: GenerateBuf) -> (child: GenerateBuf)
        requires
            self.spec_generate(SpecBuf { stores: old(buf)@.stores, ..base@ }) is Some,
        ensures
            child@ == (SpecBuf {
                stores: base@.stores,
                ..self.spec_generate(SpecBuf { stores: old(buf)@.stores, ..base@ }).unwrap()
            }),
            final(buf)@ == (SpecBuf {
                stores: self.spec_generate(SpecBuf { stores: old(buf)@.stores, ..base@ }).unwrap().stores,
                ..old(buf)@
            }),
    {
        let mut child = base;
        child.swap_stores(buf);
        self.generate(&mut child);
        child.swap_stores(buf);
        child
    }
}

impl GenerateBuf {
    /// Whether every label still fits a `usize` once moved by `shift`.
    pub fn labels_fit_after(&self, shift: usize) -> (ok: bool)
        ensures
            ok == labels_shift_fit(self@.labels, shift as nat),
    {
        let mut i: usize = 0;
        while i < self.labels.len()
            invariant
                i <= self.labels@.len(),
                forall|k: int| 0 <= k < i ==> #[trigger] self@.labels[k].1 + shift <= usize::MAX,
            decreases self.labels.len() - i,
        {
            assert(self@.labels[i as int].1 == self.labels@[i as int].1);
            if self.labels[i].1 > usize::MAX - shift {
                assert(!(self@.labels[i as int].1 + shift <= usize::MAX));
                return false;
            }
            i = i + 1;
        }
        true
    }

    /// The bytes the variables on the stack take up, when that fits a `usize`.
    pub fn checked_stack_size(&self) -> (r: Option<usize>)
        ensures
            stack_total(self@.stack) <= usize::MAX ==> r == Some(stack_total(self@.stack) as usize),
            stack_total(self@.stack) > usize::MAX ==> r is None,
    {
        let mut total: usize = 0;
        let mut i: usize = 0;
        while i < self.stack.len()
            invariant
                i <= self.stack@.len(),
                total == stack_total(self@.stack.subrange(0, i as int)),
            decreases self.stack.len() - i,
        {
            proof {
                lemma_stack_total_prefix(self@.stack, i as int + 1);
            }
            let size = self.stack[i].1.size();
            if total > usize::MAX - size {
                proof {
                    lemma_stack_total_prefix_mono(self@.stack, i as int + 1);
                }
                return None;
            }
            total = total + size;
            i = i + 1;
        }
        assert(self@.stack.subrange(0, i as int) =~= self@.stack);
        Some(total)
    }
}

/// A variable lies within the stack.
pub proof fn lemma_get_stack_bound(stack: Seq<(Seq<char>, ExprDeref)>, name: Seq<char>)
    ensures
        spec_get_stack(stack, name) matches Some((off, _)) ==> off <= stack_total(stack),
    decreases stack.len(),
{
    if stack.len() > 0 {
        lemma_get_stack_bound(stack.drop_last(), name);
    }
}

/// Looking up a name right after putting a variable of that name on the stack
/// finds it where `push_stack` said it lies, with the width it was given.
pub proof fn lemma_stack_read_after_push(
    stack: Seq<(Seq<char>, ExprDeref)>,
    name: Seq<char>,
    size: ExprDeref,
)
    ensures
        spec_get_stack(stack.push((name, size)), name) == Some((stack_total(stack), size)),
{
    assert(stack.push((name, size)).drop_last() =~= stack);
}

/// A variable put on the stack is found where `push_stack` said it lies, with
/// its width, however many variables of other names were put on the stack
/// after it; instructions, labels and appended buffers leave the stack as it is.
pub proof fn lemma_stack_read_after_others(
    prefix: Seq<(Seq<char>, ExprDeref)>,
    name: Seq<char>,
    size: ExprDeref,
    rest: Seq<(Seq<char>, ExprDeref)>,
)
    requires
        forall|k: int| 0 <= k < rest.len() ==> (#[trigger] rest[k]).0 != name,
    ensures
        spec_get_stack(prefix.push((name, size)) + rest, name) == Some((stack_total(prefix), size)),
    decreases rest.len(),
{
    let st = prefix.push((name, size)) + rest;
    if rest.len() == 0 {
        assert(st =~= prefix.push((name, size)));
        lemma_stack_read_after_push(prefix, name, size);
    } else {
        assert(st.drop_last() =~= prefix.push((name, size)) + rest.drop_last());
        assert(st.last() == rest[rest.len() - 1]);
        assert forall|k: int| 0 <= k < rest.drop_last().len() implies (#[trigger] rest.drop_last()[k]).0 != name by {
            assert(rest.drop_last()[k] == rest[k]);
        }
        lemma_stack_read_after_others(prefix, name, size, rest.drop_last());
    }
}

/// Putting a variable on the stack leaves where every other name lies as it was.
pub proof fn lemma_stack_push_other(
    stack: Seq<(Seq<char>, ExprDeref)>,
    name: Seq<char>,
    size: ExprDeref,
    other: Seq<char>,
)
    requires
        other != name,
    ensures
        spec_get_stack(stack.push((name, size)), other) == spec_get_stack(stack, other),
{
    assert(stack.push((name, size)).drop_last() =~= stack);
}

/// The stack grows by the width of what is put on it.
pub proof fn lemma_stack_total_push(stack: Seq<(Seq<char>, ExprDeref)>, name: Seq<char>, size: ExprDeref)
    ensures
        stack_total(stack.push((name, size))) == stack_total(stack) + deref_size(size),
{
    assert(stack.push((name, size)).drop_last() =~= stack);
}

/// Moving back after moving on to the next temporary register returns to the
/// temporary register the result was in.
pub proof fn lemma_prev_undoes_next(r: Register)
    requires
        r is Local,
        spec_next_result(r) is Some,
    ensures
        spec_prev_result(spec_next_result(r).unwrap()) == Some(r),
{
}

/// Appending a buffer keeps what was generated before in place and adds the
/// instructions and labels of the appended buffer after it, each label moved to
/// where its instruction now lies.
pub proof fn lemma_extend_on_keeps(b: SpecBuf, rhs: SpecBuf, parent: Seq<char>)
    requires
        labels_shift_fit(rhs.labels, b.buf.len()),
    ensures
        spec_extend_on(b, rhs, parent).buf.len() == b.buf.len() + rhs.buf.len(),
        spec_extend_on(b, rhs, parent).buf.subrange(0, b.buf.len() as int) == b.buf,
        spec_extend_on(b, rhs, parent).labels.len() == b.labels.len() + rhs.labels.len(),
        spec_extend_on(b, rhs, parent).labels.subrange(0, b.labels.len() as int) == b.labels,
        forall|i: int|
            0 <= i < rhs.labels.len() ==> #[trigger] spec_extend_on(b, rhs, parent).labels[b.labels.len() + i]
                == (parent + rhs.labels[i].0, (rhs.labels[i].1 + b.buf.len()) as usize),
        forall|i: int|
            0 <= i < rhs.labels.len() ==> spec_extend_on(b, rhs, parent).labels[b.labels.len() + i].1
                == rhs.labels[i].1 + b.buf.len(),
        spec_extend_on(b, rhs, parent).stack == b.stack,
        spec_extend_on(b, rhs, parent).result == b.result,
{
    let e = spec_extend_on(b, rhs, parent);
    assert(e.buf.subrange(0, b.buf.len() as int) =~= b.buf);
    assert(e.labels.subrange(0, b.labels.len() as int) =~= b.labels);
    assert forall|i: int| 0 <= i < rhs.labels.len() implies e.labels[b.labels.len() + i].1 == rhs.labels[i].1
        + b.buf.len() by {
        assert(rhs.labels[i].1 + b.buf.len() <= usize::MAX);
    }
}

/// The labels of a buffer point into it in order: each lies at or before the
/// next one, and none past the end of the instructions.
pub open spec fn labels_in_order(b: SpecBuf) -> bool {
    &&& forall|i: int, j: int| 0 <= i <= j < b.labels.len() ==> #[trigger] b.labels[i].1 <= #[trigger] b.labels[j].1
    &&& forall|i: int| 0 <= i < b.labels.len() ==> #[trigger] b.labels[i].1 <= b.buf.len()
}

/// A fresh buffer has its labels in order.
pub proof fn lemma_fresh_labels_in_order(stores: SpecStores)
    ensures
        labels_in_order(fresh_buf(stores)),
{
}

/// Appending an instruction keeps the labels in order.
pub proof fn lemma_push_labels_in_order(b: SpecBuf, ins: SpecInstruction)
    requires
        labels_in_order(b),
    ensures
        labels_in_order(SpecBuf { buf: b.buf.push(ins), ..b }),
{
}

/// Marking the current position keeps the labels in order.
pub proof fn lemma_label_here_in_order(b: SpecBuf, name: Seq<char>)
    requires
        labels_in_order(b),
        b.buf.len() <= usize::MAX,
    ensures
        labels_in_order(SpecBuf { labels: b.labels.push((name, b.buf.len() as usize)), ..b }),
{
    let b2 = SpecBuf { labels: b.labels.push((name, b.buf.len() as usize)), ..b };
    assert forall|i: int, j: int| 0 <= i <= j < b2.labels.len() implies #[trigger] b2.labels[i].1
        <= #[trigger] b2.labels[j].1 by {
        if j < b.labels.len() {
            assert(b2.labels[i] == b.labels[i] && b2.labels[j] == b.labels[j]);
        } else if i < b.labels.len() {
            assert(b2.labels[i] == b.labels[i]);
        }
    }
    assert forall|i: int| 0 <= i < b2.labels.len() implies #[trigger] b2.labels[i].1 <= b2.buf.len() by {
        if i < b.labels.len() {
            assert(b2.labels[i] == b.labels[i]);
        }
    }
}

/// Putting a variable on the stack keeps the labels in order.
pub proof fn lemma_push_stack_in_order(b: SpecBuf, name: Seq<char>, size: ExprDeref)
    requires
        labels_in_order(b),
    ensures
        labels_in_order(SpecBuf { stack: b.stack.push((name, size)), ..b }),
{
}

/// Appending a buffer whose labels are in order to one whose labels are in
/// order keeps them in order.
pub proof fn lemma_extend_on_in_order(b: SpecBuf, rhs: SpecBuf, parent: Seq<char>)
    requires
        labels_in_order(b),
        labels_in_order(rhs),
        labels_shift_fit(rhs.labels, b.buf.len()),
    ensures
        labels_in_order(spec_extend_on(b, rhs, parent)),
{
    let e = spec_extend_on(b, rhs, parent);
    let n = b.labels.len();
    lemma_extend_on_keeps(b, rhs, parent);
    assert forall|i: int| 0 <= i < e.labels.len() implies #[trigger] e.labels[i].1 <= e.buf.len() by {
        if i < n {
            assert(e.labels[i] == b.labels[i]);
        } else {
            assert(e.labels[n + (i - n)].1 == rhs.labels[i - n].1 + b.buf.len());
        }
    }
    assert forall|i: int, j: int| 0 <= i <= j < e.labels.len() implies #[trigger] e.labels[i].1
        <= #[trigger] e.labels[j].1 by {
        if j < n {
            assert(e.labels[i] == b.labels[i] && e.labels[j] == b.labels[j]);
        } else if i < n {
            assert(e.labels[i] == b.labels[i]);
            assert(e.labels[n + (j - n)].1 == rhs.labels[j - n].1 + b.buf.len());
        } else {
            assert(e.labels[n + (i - n)].1 == rhs.labels[i - n].1 + b.buf.len());
            assert(e.labels[n + (j - n)].1 == rhs.labels[j - n].1 + b.buf.len());
            assert(rhs.labels[i - n].1 <= rhs.labels[j - n].1);
        }
    }
}

/// Whether a next intermediate register exists after `r`.
pub fn can_next_result(r: Register) -> (ok: bool)
    ensures
        ok == spec_next_result(r) is Some,
{
    match r {
        Register::Result => true,
        Register::Local(n) => n <= 5,
        Register::Argument(_) => true,
        _ => false,
    }
}

/// Whether a previous intermediate register exists before `r`.
pub fn can_prev_result(r: Register) -> (ok: bool)
    ensures
        ok == spec_prev_result(r) is Some,
{
    match r {
        Register::Result => true,
        Register::Local(_) => true,
        _ => false,
    }
}

/// Prefix sums of the stack never exceed the whole sum.
proof fn lemma_stack_total_prefix_mono(stack: Seq<(Seq<char>, ExprDeref)>, k: int)
    requires
        0 <= k <= stack.len(),
    ensures
        stack_total(stack.subrange(0, k)) <= stack_total(stack),
    decreases stack.len() - k,
{
    if k < stack.len() {
        lemma_stack_total_prefix(stack, k + 1);
        lemma_stack_total_prefix_mono(stack, k + 1);
    } else {
        assert(stack.subrange(0, k) =~= stack);
    }
}

/// The text of a label line; `alternate` adds terminal colours.
pub open spec fn label_text(name: Seq<char>, alternate: bool) -> Seq<char> {
    if alternate {
        "\x1b[1;38;5;171m"@ + name + ":\n"@ + "\x1b[0m"@
    } else {
        name + ":\n"@
    }
}

/// The program text from instruction `idx` on, with the labels from `li` on
/// written before the instruction they point at. A label that points at no
/// later instruction, and those after it, are not written.
pub open spec fn program_text_from(
    instrs: Seq<SpecInstruction>,
    labels: Seq<(Seq<char>, usize)>,
    idx: nat,
    li: nat,
    alternate: bool,
) -> Seq<char>
    decreases instrs.len() - idx, labels.len() - li,
{
    if idx >= instrs.len() {
        Seq::empty()
    } else if li < labels.len() && labels[li as int].1 == idx {
        label_text(labels[li as int].0, alternate) + program_text_from(
            instrs,
            labels,
            idx,
            li + 1,
            alternate,
        )
    } else {
        "  "@ + instruction_text(instrs[idx as int], alternate) + "\n"@ + program_text_from(
            instrs,
            labels,
            idx + 1,
            li,
            alternate,
        )
    }
}

/// The assembly text of the whole buffer.
pub open spec fn program_text(b: SpecBuf, alternate: bool) -> Seq<char> {
    program_text_from(b.buf, b.labels, 0, 0, alternate)
}

/// Whether every instruction of the buffer can be shown.
pub open spec fn buf_renders(b: SpecBuf) -> bool {
    forall|i: int| 0 <= i < b.buf.len() ==> instruction_renders(#[trigger] b.buf[i])
}

impl GenerateBuf {
    /// The assembly text of the generated program; `alternate` adds terminal colours.
    /// Whether every instruction of the buffer can be written out.
    pub fn renders(&self) -> (r: bool)
        ensures
            r == buf_renders(self@),
    {
        let mut i: usize = 0;
        while i < self.buf.len()
            invariant
                i <= self.buf@.len(),
                forall|j: int| 0 <= j < i ==> instruction_renders(#[trigger] self@.buf[j]),
            decreases self.buf.len() - i,
        {
            assert(self@.buf[i as int] == self.buf@[i as int]@);
            if !self.buf[i].renders() {
                return false;
            }
            i = i + 1;
        }
        true
    }

    pub fn render(&self, alternate: bool) -> (text: String)
        requires
            buf_renders(self@),
        ensures
            text@ == program_text(self@, alternate),
    {
        let ghost b = self@;
        let mut out = String::new();
        let mut idx: usize = 0;
        let mut li: usize = 0;
        while idx < self.buf.len()
            invariant
                b == self@,
                buf_renders(b),
                idx <= self.buf@.len(),
                li <= self.labels@.len(),
                out@ + program_text_from(b.buf, b.labels, idx as nat, li as nat, alternate)
                    == program_text(b, alternate),
            decreases self.buf.len() - idx,
        {
            while li < self.labels.len() && self.labels[li].1 == idx
                invariant
                    b == self@,
                    idx < self.buf@.len(),
                    li <= self.labels@.len(),
                    out@ + program_text_from(b.buf, b.labels, idx as nat, li as nat, alternate)
                        == program_text(b, alternate),
                decreases self.labels.len() - li,
            {
                let ghost before = out@;
                if alternate {
                    push_str(&mut out, "\x1b[1;38;5;171m");
                }
                push_str(&mut out, self.labels[li].0.as_str());
                push_str(&mut out, ":\n");
                if alternate {
                    push_str(&mut out, "\x1b[0m");
                }
                proof {
                    assert(b.labels[li as int] == (self.labels@[li as int].0@, self.labels@[li as int].1));
                    assert(out@ =~= before + label_text(b.labels[li as int].0, alternate));
                    assert(before + label_text(b.labels[li as int].0, alternate) + program_text_from(b.buf, b.labels, idx as nat, li as nat + 1, alternate)
                        =~= before + program_text_from(b.buf, b.labels, idx as nat, li as nat, alternate));
                }
                li = li + 1;
            }
            let ghost before = out@;
            push_str(&mut out, "  ");
            proof {
                assert(b.buf[idx as int] == self.buf@[idx as int]@);
                assert(instruction_renders(b.buf[idx as int]));
            }
            self.buf[idx].render(&mut out, alternate);
            push_str(&mut out, "\n");
            proof {
                assert(!(li < b.labels.len() && b.labels[li as int].1 == idx));
                assert(out@ =~= before + ("  "@ + instruction_text(b.buf[idx as int], alternate) + "\n"@));
                assert(before + ("  "@ + instruction_text(b.buf[idx as int], alternate) + "\n"@) + program_text_from(b.buf, b.labels, idx as nat + 1, li as nat, alternate)
                    =~= before + program_text_from(b.buf, b.labels, idx as nat, li as nat, alternate));
            }
            idx = idx + 1;
        }
        proof {
            assert(program_text_from(b.buf, b.labels, idx as nat, li as nat, alternate) =~= Seq::<char>::empty());
            assert(out@ =~= program_text(b, alternate));
        }
        out
    }
}

/// A copy of the instruction at `j`.
fn rinstrs_take(v: &Vec<Instruction>, j: usize) -> (i: Instruction)
    requires
        j < v@.len(),
    ensures
        i@ == v@[j as int]@,
{
    v[j].clone_instruction()
}

/// The sum over a prefix grows by the next element's width.
proof fn lemma_stack_total_prefix(stack: Seq<(Seq<char>, ExprDeref)>, k: int)
    requires
        0 < k <= stack.len(),
    ensures
        stack_total(stack.subrange(0, k)) == stack_total(stack.subrange(0, k - 1)) + deref_size(
            stack[k - 1].1,
        ),
        stack_total(stack.subrange(0, k)) <= stack_total(stack),
    decreases stack.len() - k,
{
    assert(stack.subrange(0, k).drop_last() =~= stack.subrange(0, k - 1));
    if k < stack.len() {
        lemma_stack_total_prefix(stack, k + 1);
    } else {
        assert(stack.subrange(0, k) =~= stack);
    }
}

} // verus!
