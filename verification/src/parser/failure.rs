//! The furthest failure of a parse: the position furthest into the source at
//! which a rule of the grammar expected something it did not find there, and
//! everything that was expected at that position.

use vstd::prelude::*;

use crate::text::{push_str, text_eq};
use vstd::string::StrSliceExecFns;

verus! {

/// A failure so far: the furthest position and what was expected there.
pub struct SpecFailure {
    pub pos: int,
    pub expected: Set<Seq<char>>,
}

/// Before any rule fails: the start of the source, with nothing expected.
pub open spec fn no_failure() -> SpecFailure {
    SpecFailure { pos: 0, expected: Set::empty() }
}

/// A rule expected `t` at `p`: a further position replaces what was expected,
/// the same position adds to it, and an earlier one changes nothing.
pub open spec fn mark(f: SpecFailure, p: int, t: Seq<char>) -> SpecFailure {
    if p > f.pos {
        SpecFailure { pos: p, expected: set![t] }
    } else if p == f.pos {
        SpecFailure { pos: f.pos, expected: f.expected.insert(t) }
    } else {
        f
    }
}

/// The failure tracked while parsing.
pub struct Failure {
    pos: usize,
    expected: Vec<&'static str>,
}

impl View for Failure {
    type V = SpecFailure;

    closed spec fn view(&self) -> SpecFailure {
        SpecFailure {
            pos: self.pos as int,
            expected: self.expected@.map_values(|t: &'static str| t@).to_set(),
        }
    }
}

impl Failure {
    pub fn new() -> (f: Failure)
        ensures
            f@ == no_failure(),
    {
        let f = Failure { pos: 0, expected: Vec::new() };
        assert(f@.expected =~= Set::<Seq<char>>::empty());
        f
    }

    /// The furthest position a rule failed at.
    pub fn pos(&self) -> (p: usize)
        ensures
            p == self@.pos,
    {
        self.pos
    }

    /// Records that `t` was expected at `p`.
    pub fn mark(&mut self, p: usize, t: &'static str)
        ensures
            final(self)@ == mark(old(self)@, p as int, t@),
    {
        if p > self.pos {
            self.pos = p;
            self.expected = Vec::new();
            self.expected.push(t);
            assert(self@.expected =~= set![t@]) by {
                let sq = self.expected@.map_values(|x: &'static str| x@);
                assert(sq =~= seq![t@]);
                assert forall|x: Seq<char>| #[trigger] sq.contains(x) <==> x == t@ by {
                    if x == t@ {
                        assert(sq[0] == x);
                    }
                }
            }
        } else if p == self.pos {
            let ghost old_v = self.expected@;
            self.expected.push(t);
            assert(self.expected@.map_values(|x: &'static str| x@) =~= old_v.map_values(
                |x: &'static str| x@,
            ).push(t@));
            assert(self@.expected =~= old(self)@.expected.insert(t@)) by {
                let a = old_v.map_values(|x: &'static str| x@);
                assert forall|x: Seq<char>| #[trigger] a.push(t@).contains(x) <==> (a.contains(x) || x
                    == t@) by {
                    if a.push(t@).contains(x) {
                        let k = choose|k: int| 0 <= k < a.push(t@).len() && a.push(t@)[k] == x;
                        if k < a.len() {
                            assert(a[k] == x);
                        }
                    }
                    if a.contains(x) {
                        let k = choose|k: int| 0 <= k < a.len() && a[k] == x;
                        assert(a.push(t@)[k] == x);
                    }
                    if x == t@ {
                        assert(a.push(t@)[a.len() as int] == x);
                    }
                }
            }
        }
    }

    /// What was expected at the furthest position, in order and each once.
    pub fn sorted_expected(&self) -> (r: Vec<&'static str>)
        ensures
            strictly_sorted(r@.map_values(|t: &'static str| t@)),
            r@.map_values(|t: &'static str| t@).to_set() == self@.expected,
    {
        let n = self.expected.len();
        let ghost src = self.expected@.map_values(|t: &'static str| t@);
        let mut out: Vec<&'static str> = Vec::new();
        let mut i: usize = 0;
        while i < n
            invariant
                n == self.expected@.len(),
                src == self.expected@.map_values(|t: &'static str| t@),
                i <= n,
                strictly_sorted(out@.map_values(|t: &'static str| t@)),
                out@.map_values(|t: &'static str| t@).to_set() == src.take(i as int).to_set(),
            decreases n - i,
        {
            let t = self.expected[i];
            let ghost ov = out@.map_values(|x: &'static str| x@);
            let mut j: usize = 0;
            while j < out.len() && text_less(out[j], t)
                invariant
                    j <= out@.len(),
                    ov == out@.map_values(|x: &'static str| x@),
                    forall|k: int| 0 <= k < j ==> text_lt(#[trigger] ov[k], t@),
                decreases out@.len() - j,
            {
                j = j + 1;
            }
            if j < out.len() && text_eq(out[j], t) {
                proof {
                    assert(src.take(i + 1) =~= src.take(i as int).push(t@));
                    lemma_push_to_set(src.take(i as int), t@);
                    assert(ov[j as int] == t@);
                    assert(ov.contains(t@));
                    assert(ov.to_set().insert(t@) =~= ov.to_set());
                }
            } else {
                out.insert(j, t);
                proof {
                    let nv = out@.map_values(|x: &'static str| x@);
                    assert(nv =~= ov.insert(j as int, t@));
                    if j < ov.len() {
                        assert(!text_lt(ov[j as int], t@));
                        assert(ov[j as int] != t@);
                        lemma_text_lt_total(ov[j as int], t@);
                    }
                    assert forall|a: int, b: int| 0 <= a < b < nv.len() implies text_lt(
                        #[trigger] nv[a],
                        #[trigger] nv[b],
                    ) by {
                        if b < j {
                        } else if b == j {
                        } else if a < j {
                            assert(text_lt(ov[a], ov[b - 1]));
                        } else if a == j {
                            if b - 1 > j {
                                assert(text_lt(ov[j as int], ov[b - 1]));
                                lemma_text_lt_trans(t@, ov[j as int], ov[b - 1]);
                            }
                        } else {
                            assert(text_lt(ov[a - 1], ov[b - 1]));
                        }
                    }
                    assert(src.take(i + 1) =~= src.take(i as int).push(t@));
                    lemma_push_to_set(src.take(i as int), t@);
                    lemma_insert_to_set(ov, j as int, t@);
                }
            }
            i = i + 1;
        }
        assert(src.take(n as int) =~= src);
        out
    }
}

/// The set of a sequence with one more element is that set with the element.
proof fn lemma_push_to_set(s: Seq<Seq<char>>, x: Seq<char>)
    ensures
        s.push(x).to_set() == s.to_set().insert(x),
{
    assert forall|y: Seq<char>| #[trigger] s.push(x).to_set().contains(y) <==> s.to_set().insert(
        x,
    ).contains(y) by {
        if s.push(x).contains(y) {
            let k = choose|k: int| 0 <= k < s.push(x).len() && s.push(x)[k] == y;
            if k < s.len() {
                assert(s[k] == y);
            }
        }
        if s.contains(y) {
            let k = choose|k: int| 0 <= k < s.len() && s[k] == y;
            assert(s.push(x)[k] == y);
        }
        if y == x {
            assert(s.push(x)[s.len() as int] == y);
        }
    }
    assert(s.push(x).to_set() =~= s.to_set().insert(x));
}

/// Inserting an element anywhere adds it to the set of a sequence.
proof fn lemma_insert_to_set(s: Seq<Seq<char>>, j: int, x: Seq<char>)
    requires
        0 <= j <= s.len(),
    ensures
        s.insert(j, x).to_set() == s.to_set().insert(x),
{
    let t = s.insert(j, x);
    assert forall|y: Seq<char>| #[trigger] t.to_set().contains(y) <==> s.to_set().insert(
        x,
    ).contains(y) by {
        if t.contains(y) {
            let k = choose|k: int| 0 <= k < t.len() && t[k] == y;
            if k < j {
                assert(s[k] == y);
            } else if k > j {
                assert(s[k - 1] == y);
            }
        }
        if s.contains(y) {
            let k = choose|k: int| 0 <= k < s.len() && s[k] == y;
            if k < j {
                assert(t[k] == y);
            } else {
                assert(t[k + 1] == y);
            }
        }
        if y == x {
            assert(t[j] == y);
        }
    }
    assert(t.to_set() =~= s.to_set().insert(x));
}

/// Whether `a` comes before `b`: at the first character where they differ,
/// `a`'s is the smaller, or `a` is a proper prefix of `b`.
pub open spec fn text_lt(a: Seq<char>, b: Seq<char>) -> bool
    decreases a.len(),
{
    if a.len() == 0 {
        b.len() > 0
    } else if b.len() == 0 {
        false
    } else if a[0] != b[0] {
        (a[0] as int) < (b[0] as int)
    } else {
        text_lt(a.drop_first(), b.drop_first())
    }
}

/// Whether each text comes before every later one.
pub open spec fn strictly_sorted(ts: Seq<Seq<char>>) -> bool {
    forall|a: int, b: int| 0 <= a < b < ts.len() ==> text_lt(#[trigger] ts[a], #[trigger] ts[b])
}

proof fn lemma_text_lt_trans(a: Seq<char>, b: Seq<char>, c: Seq<char>)
    requires
        text_lt(a, b),
        text_lt(b, c),
    ensures
        text_lt(a, c),
    decreases a.len(),
{
    if a.len() > 0 && b.len() > 0 && c.len() > 0 && a[0] == b[0] && b[0] == c[0] {
        lemma_text_lt_trans(a.drop_first(), b.drop_first(), c.drop_first());
    }
}

/// Two different texts come one before the other, and not both ways.
proof fn lemma_text_lt_total(a: Seq<char>, b: Seq<char>)
    ensures
        a != b ==> text_lt(a, b) || text_lt(b, a),
        !(text_lt(a, b) && text_lt(b, a)),
    decreases a.len(),
{
    if a.len() > 0 && b.len() > 0 {
        if a[0] == b[0] {
            lemma_text_lt_total(a.drop_first(), b.drop_first());
            if a != b {
                if a.drop_first() == b.drop_first() {
                    assert(a =~= seq![a[0]] + a.drop_first());
                    assert(b =~= seq![b[0]] + b.drop_first());
                }
            }
        } else {
            assert((a[0] as int) != (b[0] as int));
        }
    } else if a.len() == 0 && b.len() == 0 {
        assert(a =~= b);
    }
}

/// Whether `a` comes before `b`.
pub fn text_less(a: &str, b: &str) -> (r: bool)
    ensures
        r == text_lt(a@, b@),
{
    let n = a.unicode_len();
    let m = b.unicode_len();
    let mut k: usize = 0;
    assert(a@.skip(0) =~= a@);
    assert(b@.skip(0) =~= b@);
    while k < n && k < m && a.get_char(k) == b.get_char(k)
        invariant
            n == a@.len(),
            m == b@.len(),
            k <= n,
            k <= m,
            text_lt(a@, b@) == text_lt(a@.skip(k as int), b@.skip(k as int)),
        decreases n - k,
    {
        proof {
            assert(a@.skip(k as int).drop_first() =~= a@.skip(k + 1));
            assert(b@.skip(k as int).drop_first() =~= b@.skip(k + 1));
        }
        k = k + 1;
    }
    proof {
        if k < n && k < m {
            assert(a@.skip(k as int)[0] == a@[k as int]);
            assert(b@.skip(k as int)[0] == b@[k as int]);
        }
    }
    if k == n {
        k < m
    } else if k == m {
        false
    } else {
        (a.get_char(k) as u32) < (b.get_char(k) as u32)
    }
}

/// The expected texts, each after a space and followed by a comma.
pub open spec fn expected_list(ts: Seq<Seq<char>>) -> Seq<char>
    decreases ts.len(),
{
    if ts.len() == 0 {
        Seq::empty()
    } else {
        expected_list(ts.drop_last()) + " "@ + ts.last() + ","@
    }
}

/// The message of a parse error: `expected` and the expected texts in order,
/// separated by commas, with the last character dropped.
pub open spec fn expected_message(ts: Seq<Seq<char>>) -> Seq<char> {
    ("expected"@ + expected_list(ts)).drop_last()
}

/// Writes the message of a parse error for the expected texts.
pub fn message(ts: &Vec<&'static str>) -> (m: String)
    ensures
        m@ == expected_message(ts@.map_values(|t: &'static str| t@)),
{
    let ghost tv = ts@.map_values(|t: &'static str| t@);
    let mut m = String::new();
    push_str(&mut m, "expected");
    let mut i: usize = 0;
    proof {
        reveal_strlit("expected");
        assert(tv.take(0) =~= Seq::<Seq<char>>::empty());
    }
    while i < ts.len()
        invariant
            i <= ts@.len(),
            tv == ts@.map_values(|t: &'static str| t@),
            m@ == "expected"@ + expected_list(tv.take(i as int)),
        decreases ts@.len() - i,
    {
        push_str(&mut m, " ");
        push_str(&mut m, ts[i]);
        push_str(&mut m, ",");
        proof {
            assert(tv.take(i + 1).drop_last() =~= tv.take(i as int));
            assert(m@ =~= "expected"@ + expected_list(tv.take(i + 1)));
        }
        i = i + 1;
    }
    assert(tv.take(ts@.len() as int) =~= tv);
    let ghost full = m@;
    proof {
        reveal_strlit("expected");
        assert(full.len() >= 8);
    }
    let mut out = String::new();
    let chars = crate::text::chars_of(m.as_str());
    let mut k: usize = 0;
    let len = chars.len();
    while k < len - 1
        invariant
            len == full.len(),
            chars@ == full,
            full.len() >= 1,
            k + 1 <= full.len(),
            out@ == full.take(k as int),
        decreases full.len() - k,
    {
        crate::text::push_char(&mut out, chars[k]);
        assert(out@ =~= full.take(k + 1));
        k = k + 1;
    }
    assert(out@ =~= full.drop_last());
    out
}

} // verus!
