//! The state that the analyzer and the generator keep between nodes.

use vstd::prelude::*;

use crate::nodes::{ExprAnalyzeStore, FunctionDefinition, FunctionSharedStore, StmtIfStore, StmtLetStore};
use crate::nodes::model::SpecFunctionDefinition;
use crate::parser::Span;

verus! {

/// A map from names to values, kept as the list of its insertions: a later
/// insertion of a name hides the earlier ones.
///
/// The names are `String`s. vstd specifies what `HashMap` operations do only
/// for key types that obey its key model (`obeys_key_model`), which it
/// establishes for primitive types and boxes of them, not for `String`; a
/// `HashMap<String, V>` would leave `insert` and `get` without a contract to
/// prove anything from. This list carries its own map model,
/// `insertions_map`, which every operation states and proves.
#[derive(Debug)]
pub struct NameMap<V> {
    entries: Vec<(String, V)>,
}

/// The map that a list of insertions leaves behind.
pub open spec fn insertions_map<V: View>(s: Seq<(String, V)>) -> Map<Seq<char>, V::V>
    decreases s.len(),
{
    if s.len() == 0 {
        Map::empty()
    } else {
        insertions_map(s.drop_last()).insert(s.last().0@, s.last().1@)
    }
}

/// A lookup in the map finds the last insertion of the name.
proof fn lemma_insertions_lookup<V: View>(s: Seq<(String, V)>, k: Seq<char>, j: int)
    requires
        0 <= j < s.len(),
        s[j].0@ == k,
        forall|m: int| j < m < s.len() ==> #[trigger] s[m].0@ != k,
    ensures
        insertions_map(s).contains_key(k),
        insertions_map(s)[k] == s[j].1@,
    decreases s.len(),
{
    if j < s.len() - 1 {
        lemma_insertions_lookup(s.drop_last(), k, j);
    }
}

/// A name that was never inserted is not in the map.
proof fn lemma_insertions_absent<V: View>(s: Seq<(String, V)>, k: Seq<char>)
    requires
        forall|m: int| 0 <= m < s.len() ==> #[trigger] s[m].0@ != k,
    ensures
        !insertions_map(s).contains_key(k),
    decreases s.len(),
{
    if s.len() > 0 {
        lemma_insertions_absent(s.drop_last(), k);
    }
}

impl<V: View> View for NameMap<V> {
    type V = Map<Seq<char>, V::V>;

    closed spec fn view(&self) -> Map<Seq<char>, V::V> {
        insertions_map(self.entries@)
    }
}

impl<V: View> NameMap<V> {
    pub fn new() -> (m: Self)
        ensures
            m@ == Map::<Seq<char>, V::V>::empty(),
    {
        NameMap { entries: Vec::new() }
    }

    /// Associates `value` with `key`, replacing what `key` was associated with.
    pub fn insert(&mut self, key: String, value: V)
        ensures
            final(self)@ == old(self)@.insert(key@, value@),
    {
        let ghost k = key@;
        let ghost vv = value@;
        self.entries.push((key, value));
        proof {
            assert(self.entries@.drop_last() =~= old(self).entries@);
        }
    }

    /// The index of the last insertion of `key`, if any.
    fn find(&self, key: &String) -> (r: Option<usize>)
        ensures
            r matches Some(j) ==> j < self.entries@.len() && self.entries@[j as int].0@ == key@
                && self@.contains_key(key@) && self@[key@] == self.entries@[j as int].1@,
            r is None ==> !self@.contains_key(key@),
    {
        let mut i = self.entries.len();
        while i > 0
            invariant
                i <= self.entries@.len(),
                forall|m: int| i <= m < self.entries@.len() ==> #[trigger] self.entries@[m].0@
                    != key@,
            decreases i,
        {
            if self.entries[i - 1].0 == *key {
                proof {
                    lemma_insertions_lookup(self.entries@, key@, (i - 1) as int);
                }
                return Some(i - 1);
            }
            i = i - 1;
        }
        proof {
            lemma_insertions_absent(self.entries@, key@);
        }
        None
    }

    pub fn get(&self, key: &String) -> (r: Option<&V>)
        ensures
            r matches Some(v) ==> self@.contains_key(key@) && v@ == self@[key@],
            r is None ==> !self@.contains_key(key@),
    {
        match self.find(key) {
            Some(j) => Some(&self.entries[j].1),
            None => None,
        }
    }

    pub fn contains_key(&self, key: &String) -> (r: bool)
        ensures
            r == self@.contains_key(key@),
    {
        self.find(key).is_some()
    }
}

/// The local stores, cleared between compilation phases, and the shared
/// stores, which carry what the analyzer learnt into the generator.
#[derive(Debug)]
pub struct StoresContainer {
    pub expr: ExprAnalyzeStore,
    pub let_: StmtLetStore,
    pub if_: StmtIfStore,
    pub shared: FunctionSharedStore,
}

/// The model of the stores.
pub struct SpecStores {
    pub binary_cost: usize,
    pub local_vars: Map<Seq<char>, Span>,
    pub if_count: usize,
    pub entry_fn: Option<Span>,
    pub functions: Map<Seq<char>, SpecFunctionDefinition>,
}

impl View for StoresContainer {
    type V = SpecStores;

    open spec fn view(&self) -> SpecStores {
        SpecStores {
            binary_cost: self.expr.binary_cost,
            local_vars: self.let_.local_vars@,
            if_count: self.if_.count,
            entry_fn: self.shared.entry_fn,
            functions: self.shared.functions@,
        }
    }
}

/// The stores of a fresh compilation.
pub open spec fn empty_stores() -> SpecStores {
    SpecStores {
        binary_cost: 0,
        local_vars: Map::empty(),
        if_count: 0,
        entry_fn: None,
        functions: Map::empty(),
    }
}

impl StoresContainer {
    pub fn new() -> (s: StoresContainer)
        ensures
            s@ == empty_stores(),
    {
        StoresContainer {
            expr: ExprAnalyzeStore { binary_cost: 0 },
            let_: StmtLetStore { local_vars: NameMap::new() },
            if_: StmtIfStore { count: 0 },
            shared: FunctionSharedStore { entry_fn: None, functions: NameMap::new() },
        }
    }

    /// Forgets the local stores and keeps the shared ones.
    pub fn clear_local(&mut self)
        ensures
            final(self)@ == (SpecStores {
                binary_cost: 0,
                local_vars: Map::empty(),
                if_count: 0,
                ..old(self)@
            }),
    {
        self.expr = ExprAnalyzeStore { binary_cost: 0 };
        self.let_ = StmtLetStore { local_vars: NameMap::new() };
        self.if_ = StmtIfStore { count: 0 };
    }
}

} // verus!
