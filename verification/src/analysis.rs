//! The analyzer's summary: the diagnostics found so far and the stores.

use vstd::prelude::*;

use indexmap::IndexSet;

use crate::generator::{
    AnalyzeImmInvalid, AnalyzeInsNotExist, AnalyzeOffsetInvalid, AnalyzeRegInvalid,
    AnalyzeRegNotFound,
};
use crate::nodes::{
    AnalyzeCalleeIsNotIdent, AnalyzeExpectedCondition, AnalyzeExprNotAssignable,
    AnalyzeFunctionExistsError, AnalyzeFunctionMismatchArgsCountError,
    AnalyzeFunctionNotExistsError, AnalyzeFunctionUniqueEntry, AnalyzeMissingSemicolon,
    AnalyzeUnknownAttribute, AnalyzeVariableNotExistsError,
};
use crate::nodes::model::SpecFunctionDefinition;
use crate::nodes::{FunctionDefinition, StmtLetStore};
use crate::nodes::analyze::defs_fit;
use crate::parser::Span;
use crate::shared_store::{empty_stores, NameMap, SpecStores, StoresContainer};

verus! {

/// Every diagnostic the analyzer can report.
#[derive(Clone, Copy, Debug, PartialEq, Eq, Hash, Structural)]
pub enum AnalyzeError {
    FunctionExistsError(AnalyzeFunctionExistsError),
    FunctionMismatchArgsCountError(AnalyzeFunctionMismatchArgsCountError),
    FunctionNotExistsError(AnalyzeFunctionNotExistsError),
    FunctionUniqueEntry(AnalyzeFunctionUniqueEntry),
    CalleeIsNotIdent(AnalyzeCalleeIsNotIdent),
    ExprNotAssignable(AnalyzeExprNotAssignable),
    ExpectedCondition(AnalyzeExpectedCondition),
    UnknownAttribute(AnalyzeUnknownAttribute),
    InsNotExist(AnalyzeInsNotExist),
    ImmInvalid(AnalyzeImmInvalid),
    MissingSemicolon(AnalyzeMissingSemicolon),
    OffsetInvalid(AnalyzeOffsetInvalid),
    RegInvalid(AnalyzeRegInvalid),
    RegNotFound(AnalyzeRegNotFound),
    VariableNotExistsError(AnalyzeVariableNotExistsError),
}

/// Groups diagnostics that can be withdrawn together.
#[derive(Clone, Copy, Debug, PartialEq, Eq, Hash, Structural)]
pub enum ErrorMarker {
    /// A diagnostic that stays once reported.
    Unmarked,
    /// A call of a function not declared yet; a later declaration withdraws it.
    FunctionNotExists,
}

/// Whether the analysis goes on, and if it stops, whether to analyze again.
#[derive(Clone, Copy, Debug, PartialEq, Eq, Structural)]
pub enum AnalyzeResult {
    Continue,
    Break(bool),
}

#[verifier::external_type_specification]
#[verifier::external_body]
#[verifier::reject_recursive_types(T)]
#[verifier::reject_recursive_types(S)]
pub struct ExIndexSet<T, S>(IndexSet<T, S>);

/// The entries of the diagnostics set, in insertion order.
pub uninterp spec fn error_entries(set: IndexSet<(AnalyzeError, ErrorMarker)>) -> Seq<
    (AnalyzeError, ErrorMarker),
>;

/// `IndexSet::new`: a set with no entries.
#[verifier::external_body]
fn error_set_new() -> (s: IndexSet<(AnalyzeError, ErrorMarker)>)
    ensures
        error_entries(s) == Seq::<(AnalyzeError, ErrorMarker)>::empty(),
{
    IndexSet::new()
}

/// `IndexSet::insert`: appends the entry unless an equal one is present, and
/// tells whether it did.
#[verifier::external_body]
fn error_set_insert(
    set: &mut IndexSet<(AnalyzeError, ErrorMarker)>,
    entry: (AnalyzeError, ErrorMarker),
) -> (inserted: bool)
    ensures
        inserted == !error_entries(*old(set)).contains(entry),
        error_entries(*final(set)) == if inserted {
            error_entries(*old(set)).push(entry)
        } else {
            error_entries(*old(set))
        },
{
    set.insert(entry)
}

/// `IndexSet::len`: the number of entries.
#[verifier::external_body]
fn error_set_len(set: &IndexSet<(AnalyzeError, ErrorMarker)>) -> (n: usize)
    ensures
        n == error_entries(*set).len(),
{
    set.len()
}

/// Whether an entry carries another marker than `marker`.
fn keeps_entry(entry: &(AnalyzeError, ErrorMarker), marker: ErrorMarker) -> (keep: bool)
    ensures
        keep == (entry.1 != marker),
{
    entry.1 != marker
}

/// `IndexSet::retain`: keeps, in order, the entries for which the predicate holds.
#[verifier::external_body]
fn error_set_remove_marked(set: &mut IndexSet<(AnalyzeError, ErrorMarker)>, marker: ErrorMarker)
    ensures
        error_entries(*final(set)) == without_marked(error_entries(*old(set)), marker),
{
    set.retain(|entry| keeps_entry(entry, marker))
}

/// `IntoIterator` for `IndexSet`: the entries in insertion order.
#[verifier::external_body]
fn error_set_into_vec(set: IndexSet<(AnalyzeError, ErrorMarker)>) -> (v: Vec<
    (AnalyzeError, ErrorMarker),
>)
    ensures
        v@ == error_entries(set),
{
    set.into_iter().collect()
}

/// The diagnostics found so far, without repeats, and the stores.
pub struct AnalyzeSummary {
    errors: IndexSet<(AnalyzeError, ErrorMarker)>,
    pub stores: StoresContainer,
}

/// The model of the analyzer's summary.
pub struct SpecSummary {
    pub errors: Seq<(AnalyzeError, ErrorMarker)>,
    pub stores: SpecStores,
}

impl View for AnalyzeSummary {
    type V = SpecSummary;

    closed spec fn view(&self) -> SpecSummary {
        SpecSummary { errors: error_entries(self.errors), stores: self.stores@ }
    }
}

/// Records a diagnostic: the list grows by it unless it is already there.
pub open spec fn record(errors: Seq<(AnalyzeError, ErrorMarker)>, entry: (AnalyzeError, ErrorMarker)) -> Seq<
    (AnalyzeError, ErrorMarker),
> {
    if errors.contains(entry) {
        errors
    } else {
        errors.push(entry)
    }
}

/// The summary after reporting an unmarked diagnostic.
pub open spec fn spec_error(s: SpecSummary, e: AnalyzeError) -> SpecSummary {
    SpecSummary { errors: record(s.errors, (e, ErrorMarker::Unmarked)), ..s }
}

/// The summary after reporting a marked diagnostic.
pub open spec fn spec_error_marked(s: SpecSummary, e: AnalyzeError, m: ErrorMarker) -> SpecSummary {
    SpecSummary { errors: record(s.errors, (e, m)), ..s }
}

/// The diagnostics without those that carry the marker.
pub open spec fn without_marked(errors: Seq<(AnalyzeError, ErrorMarker)>, m: ErrorMarker) -> Seq<
    (AnalyzeError, ErrorMarker),
> {
    errors.filter(unmarked(m))
}

/// Whether a diagnostic carries another marker than `m`.
pub open spec fn unmarked(m: ErrorMarker) -> spec_fn((AnalyzeError, ErrorMarker)) -> bool {
    |e: (AnalyzeError, ErrorMarker)| e.1 != m
}

impl AnalyzeSummary {
    pub fn new() -> (s: AnalyzeSummary)
        ensures
            s@ == (SpecSummary { errors: Seq::empty(), stores: empty_stores() }),
    {
        AnalyzeSummary { errors: error_set_new(), stores: StoresContainer::new() }
    }

    /// Hands the stores over and leaves fresh ones in their place.
    pub fn clear_stores(&mut self) -> (stores: StoresContainer)
        ensures
            stores@ == old(self)@.stores,
            final(self)@ == (SpecSummary { errors: old(self)@.errors, stores: empty_stores() }),
    {
        let mut fresh = StoresContainer::new();
        core::mem::swap(&mut self.stores, &mut fresh);
        fresh
    }

    pub fn error(&mut self, error: AnalyzeError)
        ensures
            final(self)@ == spec_error(old(self)@, error),
    {
        error_set_insert(&mut self.errors, (error, ErrorMarker::Unmarked));
    }

    pub fn error_marked(&mut self, error: AnalyzeError, marker: ErrorMarker)
        ensures
            final(self)@ == spec_error_marked(old(self)@, error, marker),
    {
        error_set_insert(&mut self.errors, (error, marker));
    }

    /// Withdraws the diagnostics that carry `marker` and returns how many there were.
    pub fn remove_marked(&mut self, marker: ErrorMarker) -> (removed: usize)
        ensures
            final(self)@ == (SpecSummary {
                errors: without_marked(old(self)@.errors, marker),
                ..old(self)@
            }),
            removed == old(self)@.errors.len() - without_marked(old(self)@.errors, marker).len(),
    {
        let len = error_set_len(&self.errors);
        error_set_remove_marked(&mut self.errors, marker);
        proof {
            lemma_filter_len_le(error_entries(old(self).errors), marker);
        }
        len - error_set_len(&self.errors)
    }

    pub fn has_errors(&self) -> (r: bool)
        ensures
            r == (self@.errors.len() > 0),
    {
        error_set_len(&self.errors) != 0
    }

    /// The diagnostics in the order they were first reported.
    pub fn into_errors(self) -> (errors: Vec<AnalyzeError>)
        ensures
            errors@ == self@.errors.map_values(|e: (AnalyzeError, ErrorMarker)| e.0),
    {
        let entries = error_set_into_vec(self.errors);
        let mut out: Vec<AnalyzeError> = Vec::new();
        let mut i: usize = 0;
        while i < entries.len()
            invariant
                i <= entries@.len(),
                out@ == entries@.subrange(0, i as int).map_values(
                    |e: (AnalyzeError, ErrorMarker)| e.0,
                ),
            decreases entries.len() - i,
        {
            out.push(entries[i].0);
            i = i + 1;
            assert(out@ =~= entries@.subrange(0, i as int).map_values(
                |e: (AnalyzeError, ErrorMarker)| e.0,
            ));
        }
        assert(entries@.subrange(0, entries@.len() as int) =~= entries@);
        out
    }
}

/// The summary with the cost counter of binary expressions set to `c`.
pub open spec fn with_cost(s: SpecSummary, c: usize) -> SpecSummary {
    SpecSummary { stores: SpecStores { binary_cost: c, ..s.stores }, ..s }
}

/// The summary with the declared local variables replaced.
pub open spec fn with_locals(s: SpecSummary, m: Map<Seq<char>, Span>) -> SpecSummary {
    SpecSummary { stores: SpecStores { local_vars: m, ..s.stores }, ..s }
}

/// The summary with the declared functions replaced.
pub open spec fn with_functions(s: SpecSummary, m: Map<Seq<char>, SpecFunctionDefinition>) -> SpecSummary {
    SpecSummary { stores: SpecStores { functions: m, ..s.stores }, ..s }
}

/// The summary with the entry function replaced.
pub open spec fn with_entry(s: SpecSummary, e: Option<Span>) -> SpecSummary {
    SpecSummary { stores: SpecStores { entry_fn: e, ..s.stores }, ..s }
}

impl AnalyzeSummary {
    /// The cost counter of binary expressions.
    pub fn binary_cost(&self) -> (c: usize)
        ensures
            c == self@.stores.binary_cost,
    {
        self.stores.expr.binary_cost
    }

    pub fn set_binary_cost(&mut self, c: usize)
        ensures
            final(self)@ == with_cost(old(self)@, c),
    {
        self.stores.expr.binary_cost = c;
    }

    /// Whether a local variable of that name is declared.
    pub fn has_local_var(&self, name: &String) -> (r: bool)
        ensures
            r == self@.stores.local_vars.contains_key(name@),
    {
        self.stores.let_.local_vars.contains_key(name)
    }

    /// Declares a local variable at the given place.
    pub fn declare_local_var(&mut self, name: String, at: Span)
        ensures
            final(self)@ == with_locals(old(self)@, old(self)@.stores.local_vars.insert(name@, at)),
    {
        self.stores.let_.local_vars.insert(name, at);
    }

    /// Forgets the local variables.
    pub fn clear_local_vars(&mut self)
        ensures
            final(self)@ == with_locals(old(self)@, Map::empty()),
    {
        self.stores.let_ = StmtLetStore { local_vars: NameMap::new() };
    }

    /// The recorded definition of the function called `name`.
    pub fn function(&self, name: &String) -> (r: Option<&FunctionDefinition>)
        ensures
            r matches Some(d) ==> self@.stores.functions.contains_key(name@) && d@
                == self@.stores.functions[name@],
            r is None ==> !self@.stores.functions.contains_key(name@),
    {
        self.stores.shared.functions.get(name)
    }

    /// Records the definition of the function called `name`.
    pub fn declare_function(&mut self, name: String, def: FunctionDefinition)
        ensures
            final(self)@ == with_functions(
                old(self)@,
                old(self)@.stores.functions.insert(name@, def@),
            ),
    {
        self.stores.shared.functions.insert(name, def);
    }

    /// The span of the name of the entry function, if one is marked.
    pub fn entry_fn(&self) -> (e: Option<Span>)
        ensures
            e == self@.stores.entry_fn,
    {
        self.stores.shared.entry_fn
    }

    pub fn set_entry_fn(&mut self, e: Option<Span>)
        ensures
            final(self)@ == with_entry(old(self)@, e),
    {
        self.stores.shared.entry_fn = e;
    }
}

/// The summary a fresh analysis starts from.
pub open spec fn fresh_summary() -> SpecSummary {
    SpecSummary { errors: Seq::empty(), stores: empty_stores() }
}

/// Nodes that the analyzer checks and rewrites.
pub trait Analyze: View {
    /// Whether the analysis accepts the node: every span in it fits a `usize`.
    spec fn analyzable(&self) -> bool;

    /// The node and the summary after the analysis, and whether the analysis
    /// goes on; `None` where it overflows.
    spec fn spec_analyze(&self, s: SpecSummary) -> Option<(Self::V, SpecSummary, AnalyzeResult)>;

    /// Analyzes the node in place and tells whether the analysis goes on;
    /// `None` where it overflows, and then node and summary hold a partial result.
    fn try_analyze(&mut self, summary: &mut AnalyzeSummary) -> (r: Option<AnalyzeResult>)
        requires
            old(self).analyzable(),
            defs_fit(old(summary)@.stores.functions),
        ensures
            match old(self).spec_analyze(old(summary)@) {
                Some((v, s, flow)) => {
                    &&& r == Some(flow)
                    &&& final(self)@ == v
                    &&& final(summary)@ == s
                    &&& final(self).analyzable()
                    &&& defs_fit(s.stores.functions)
                },
                None => r is None,
            },
    ;

    fn analyze(&mut self, summary: &mut AnalyzeSummary) -> (r: AnalyzeResult)
        requires
            old(self).analyzable(),
            defs_fit(old(summary)@.stores.functions),
            old(self).spec_analyze(old(summary)@) is Some,
        ensures
            ({
                let (v, s, flow) = old(self).spec_analyze(old(summary)@).unwrap();
                &&& r == flow
                &&& final(self)@ == v
                &&& final(summary)@ == s
                &&& final(self).analyzable()
            }),
    ;
}

/// Filtering never lengthens the list of diagnostics.
proof fn lemma_filter_len_le(errors: Seq<(AnalyzeError, ErrorMarker)>, m: ErrorMarker)
    ensures
        without_marked(errors, m).len() <= errors.len(),
    decreases errors.len(),
{
    reveal(Seq::filter);
    if errors.len() > 0 {
        lemma_filter_len_le(errors.drop_last(), m);
    }
}

/// Reporting a diagnostic a second time changes nothing: each one is kept once.
pub proof fn lemma_record_twice(errors: Seq<(AnalyzeError, ErrorMarker)>, entry: (AnalyzeError, ErrorMarker))
    ensures
        record(record(errors, entry), entry) == record(errors, entry),
{
    if !errors.contains(entry) {
        assert(errors.push(entry)[errors.len() as int] == entry);
    }
}

/// Reporting a diagnostic keeps those reported before, in their order, and adds
/// at most that one, which is then among them.
pub proof fn lemma_record_keeps(errors: Seq<(AnalyzeError, ErrorMarker)>, entry: (AnalyzeError, ErrorMarker))
    ensures
        record(errors, entry).subrange(0, errors.len() as int) == errors,
        record(errors, entry).len() <= errors.len() + 1,
        record(errors, entry).contains(entry),
{
    assert(record(errors, entry).subrange(0, errors.len() as int) =~= errors);
    if !errors.contains(entry) {
        assert(errors.push(entry)[errors.len() as int] == entry);
    }
}

/// Withdrawing the diagnostics that carry a marker leaves none that carries it
/// and keeps every other one.
pub proof fn lemma_withdrawn(errors: Seq<(AnalyzeError, ErrorMarker)>, m: ErrorMarker)
    ensures
        forall|i: int|
            0 <= i < without_marked(errors, m).len() ==> (#[trigger] without_marked(errors, m)[i]).1 != m,
        forall|e: (AnalyzeError, ErrorMarker)|
            errors.contains(e) && e.1 != m ==> #[trigger] without_marked(errors, m).contains(e),
        forall|e: (AnalyzeError, ErrorMarker)|
            #[trigger] without_marked(errors, m).contains(e) ==> errors.contains(e),
{
    let p = unmarked(m);
    assert forall|i: int| 0 <= i < without_marked(errors, m).len() implies (#[trigger] without_marked(
        errors,
        m,
    )[i]).1 != m by {
        errors.lemma_filter_pred(p, i);
    }
    assert forall|e: (AnalyzeError, ErrorMarker)| errors.contains(e) && e.1 != m implies #[trigger] without_marked(
        errors,
        m,
    ).contains(e) by {
        let i = choose|i: int| 0 <= i < errors.len() && errors[i] == e;
        errors.lemma_filter_contains(p, i);
    }
    assert forall|e: (AnalyzeError, ErrorMarker)| #[trigger] without_marked(errors, m).contains(e) implies errors.contains(e) by {
        errors.lemma_filter_contains_rev(p, e);
    }
}

} // verus!
