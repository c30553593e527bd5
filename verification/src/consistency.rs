//! Per-address consistency tracking. Every backend instance owns one guard;
//! it keeps the highest (genLt, last transaction lt) pair seen per address
//! and flags — without failing the call — any observation whose genLt runs
//! backwards, which marks a lagging replica rather than wrong data.

use vstd::prelude::*;
use crate::models::Address;

verus! {

/// The cursor tracked per address: the highest observed timing pair.
#[derive(Clone, Copy, PartialEq, Eq, Structural, Debug)]
pub struct Cursor {
    pub gen_lt: u64,
    pub tx_lt: u64,
}

/// First-match lookup in an association sequence; with unique keys it is the
/// only match.
pub open spec fn lookup(s: Seq<(Address, Cursor)>, a: Address) -> Option<Cursor>
    decreases s.len(),
{
    if s.len() == 0 {
        Option::None
    } else if s[0].0 == a {
        Option::Some(s[0].1)
    } else {
        lookup(s.skip(1), a)
    }
}

/// Keys appear at most once.
pub open spec fn unique_keys(s: Seq<(Address, Cursor)>) -> bool {
    forall|i: int, j: int| 0 <= i < j < s.len() ==> (#[trigger] s[i]).0 != (#[trigger] s[j]).0
}

proof fn lemma_lookup_skip(s: Seq<(Address, Cursor)>, a: Address, i: int)
    requires
        0 <= i <= s.len(),
        forall|j: int| 0 <= j < i ==> (#[trigger] s[j]).0 != a,
    ensures
        lookup(s, a) == lookup(s.skip(i), a),
    decreases i,
{
    if i == 0 {
        assert(s.skip(0) =~= s);
    } else {
        assert(s[0].0 != a);
        assert(lookup(s, a) == lookup(s.skip(1), a));
        assert forall|j: int| 0 <= j < i - 1 implies (#[trigger] s.skip(1)[j]).0 != a by {
            assert(s.skip(1)[j] == s[j + 1]);
        }
        lemma_lookup_skip(s.skip(1), a, i - 1);
        assert(s.skip(1).skip(i - 1) =~= s.skip(i));
    }
}

proof fn lemma_lookup_found(s: Seq<(Address, Cursor)>, a: Address, i: int)
    requires
        0 <= i < s.len(),
        forall|j: int| 0 <= j < i ==> (#[trigger] s[j]).0 != a,
        s[i].0 == a,
    ensures
        lookup(s, a) == Option::Some(s[i].1),
{
    lemma_lookup_skip(s, a, i);
    assert(s.skip(i)[0] == s[i]);
}

proof fn lemma_lookup_update(s: Seq<(Address, Cursor)>, a: Address, i: int, c: Cursor)
    requires
        0 <= i < s.len(),
        s[i].0 == a,
        unique_keys(s),
    ensures
        unique_keys(s.update(i, (a, c))),
        lookup(s.update(i, (a, c)), a) == Option::Some(c),
        forall|b: Address| b != a ==> lookup(s.update(i, (a, c)), b) == lookup(s, b),
{
    let t = s.update(i, (a, c));
    assert forall|j: int| 0 <= j < i implies (#[trigger] t[j]).0 != a by {
        assert(s[j].0 != s[i].0);
        assert(t[j] == s[j]);
    }
    assert(t[i] == (a, c));
    lemma_lookup_found(t, a, i);
    assert forall|i2: int, j2: int|
        0 <= i2 < j2 < t.len() implies (#[trigger] t[i2]).0 != (#[trigger] t[j2]).0 by {
        if i2 == i {
            assert(t[j2] == s[j2]);
            assert(s[j2].0 != s[i].0);
        } else if j2 == i {
            assert(t[i2] == s[i2]);
            assert(s[i2].0 != s[i].0);
        } else {
            assert(t[i2] == s[i2]);
            assert(t[j2] == s[j2]);
        }
    }
    assert forall|b: Address| b != a implies lookup(t, b) == lookup(s, b) by {
        lemma_lookup_same_except(s, t, a, b);
    }
}

/// Two association sequences of equal length that agree on every entry whose
/// key is not `a` give the same lookup for every other key.
proof fn lemma_lookup_same_except(
    s: Seq<(Address, Cursor)>,
    t: Seq<(Address, Cursor)>,
    a: Address,
    b: Address,
)
    requires
        s.len() == t.len(),
        forall|j: int| 0 <= j < s.len() && (#[trigger] s[j]).0 != a ==> t[j] == s[j],
        forall|j: int| 0 <= j < s.len() && (#[trigger] t[j]).0 != a ==> t[j] == s[j],
        forall|j: int| 0 <= j < s.len() ==> ((#[trigger] s[j]).0 == a <==> (#[trigger] t[j]).0 == a),
        b != a,
    ensures
        lookup(s, b) == lookup(t, b),
    decreases s.len(),
{
    if s.len() > 0 {
        assert forall|j: int|
            0 <= j < s.skip(1).len() implies ((#[trigger] s.skip(1)[j]).0 != a ==> t.skip(1)[j]
                == s.skip(1)[j]) && ((#[trigger] s.skip(1)[j]).0 == a <==> t.skip(1)[j].0
                == a) by {
            assert(s.skip(1)[j] == s[j + 1]);
            assert(t.skip(1)[j] == t[j + 1]);
        }
        assert forall|j: int|
            0 <= j < s.skip(1).len() && (#[trigger] t.skip(1)[j]).0 != a implies t.skip(1)[j]
                == s.skip(1)[j] by {
            assert(s.skip(1)[j] == s[j + 1]);
            assert(t.skip(1)[j] == t[j + 1]);
        }
        lemma_lookup_same_except(s.skip(1), t.skip(1), a, b);
        if s[0].0 == a {
            assert(t[0].0 == a);
            assert(lookup(s, b) == lookup(s.skip(1), b));
            assert(lookup(t, b) == lookup(t.skip(1), b));
        } else {
            assert(t[0] == s[0]);
            if s[0].0 == b {
                assert(lookup(s, b) == Option::Some(s[0].1));
                assert(lookup(t, b) == Option::Some(t[0].1));
            } else {
                assert(lookup(s, b) == lookup(s.skip(1), b));
                assert(lookup(t, b) == lookup(t.skip(1), b));
            }
        }
    }
}

proof fn lemma_lookup_push(s: Seq<(Address, Cursor)>, a: Address, c: Cursor)
    requires
        forall|j: int| 0 <= j < s.len() ==> (#[trigger] s[j]).0 != a,
    ensures
        lookup(s.push((a, c)), a) == Option::Some(c),
        forall|b: Address| b != a ==> lookup(s.push((a, c)), b) == lookup(s, b),
        unique_keys(s) ==> unique_keys(s.push((a, c))),
    decreases s.len(),
{
    let t = s.push((a, c));
    if s.len() == 0 {
        assert(t[0] == (a, c));
        assert(lookup(t, a) == Option::Some(c));
        assert forall|b: Address| b != a implies lookup(t, b) == lookup(s, b) by {
            assert(t.skip(1) =~= Seq::<(Address, Cursor)>::empty());
            assert(lookup(t, b) == lookup(t.skip(1), b));
            assert(lookup(t.skip(1), b) == Option::<Cursor>::None);
        }
    } else {
        assert(t[0] == s[0]);
        assert(s[0].0 != a);
        assert(t.skip(1) =~= s.skip(1).push((a, c)));
        assert forall|j: int| 0 <= j < s.skip(1).len() implies (#[trigger] s.skip(1)[j]).0
            != a by {
            assert(s.skip(1)[j] == s[j + 1]);
        }
        lemma_lookup_push(s.skip(1), a, c);
        assert(lookup(t, a) == lookup(t.skip(1), a));
        assert forall|b: Address| b != a implies lookup(t, b) == lookup(s, b) by {
            if s[0].0 == b {
                assert(lookup(t, b) == Option::Some(t[0].1));
                assert(lookup(s, b) == Option::Some(s[0].1));
            } else {
                assert(lookup(t, b) == lookup(t.skip(1), b));
                assert(lookup(s, b) == lookup(s.skip(1), b));
            }
        }
    }
    if unique_keys(s) {
        assert forall|i2: int, j2: int|
            0 <= i2 < j2 < t.len() implies (#[trigger] t[i2]).0 != (#[trigger] t[j2]).0 by {
            if j2 == s.len() {
                assert(t[i2] == s[i2]);
            } else {
                assert(t[i2] == s[i2]);
                assert(t[j2] == s[j2]);
            }
        }
    }
}

/// The guard: an address-to-cursor map owned by one backend instance.
pub struct ConsistencyGuard {
    entries: Vec<(Address, Cursor)>,
}

impl ConsistencyGuard {
    pub closed spec fn wf(self) -> bool {
        unique_keys(self.entries@)
    }

    /// The cursor tracked for `a`, if any observation was recorded.
    pub closed spec fn tracked_cursor(self, a: Address) -> Option<Cursor> {
        lookup(self.entries@, a)
    }

    /// What one observation turns a tracked cursor into: the componentwise
    /// maximum, so the cursor never regresses.
    pub open spec fn advanced(prev: Cursor, obs: Cursor) -> Cursor {
        Cursor {
            gen_lt: if obs.gen_lt > prev.gen_lt { obs.gen_lt } else { prev.gen_lt },
            tx_lt: if obs.tx_lt > prev.tx_lt { obs.tx_lt } else { prev.tx_lt },
        }
    }

    /// An observation is anomalous exactly when its genLt is strictly below
    /// the tracked one.
    pub open spec fn spec_is_rollback(prev: Option<Cursor>, obs: Cursor) -> bool {
        prev matches Option::Some(p) && obs.gen_lt < p.gen_lt
    }

    pub fn new() -> (g: ConsistencyGuard)
        ensures
            g.wf(),
            forall|a: Address| g.tracked_cursor(a) == Option::<Cursor>::None,
    {
        ConsistencyGuard { entries: Vec::new() }
    }

    /// Records one completed observation for `a` and reports whether it is a
    /// rollback anomaly. The tracked cursor only ever moves forward; the
    /// observation itself is returned to the caller unchanged either way.
    pub fn observe(&mut self, a: Address, obs: Cursor) -> (anomaly: bool)
        requires
            old(self).wf(),
        ensures
            final(self).wf(),
            anomaly == ConsistencyGuard::spec_is_rollback(old(self).tracked_cursor(a), obs),
            final(self).tracked_cursor(a) == Option::Some(
                match old(self).tracked_cursor(a) {
                    Option::Some(p) => ConsistencyGuard::advanced(p, obs),
                    Option::None => obs,
                },
            ),
            forall|b: Address| b != a ==> final(self).tracked_cursor(b) == old(
                self,
            ).tracked_cursor(b),
    {
        let n = self.entries.len();
        let mut i: usize = 0;
        while i < n
            invariant
                i <= n,
                n == self.entries@.len(),
                self.entries@ == old(self).entries@,
                unique_keys(self.entries@),
                forall|j: int| 0 <= j < i ==> (#[trigger] self.entries@[j]).0 != a,
            decreases n - i,
        {
            let entry = self.entries[i];
            if entry.0.workchain == a.workchain && entry.0.id_hi == a.id_hi && entry.0.id_lo
                == a.id_lo {
                let prev = entry.1;
                let anomaly = obs.gen_lt < prev.gen_lt;
                let merged = Cursor {
                    gen_lt: if obs.gen_lt > prev.gen_lt {
                        obs.gen_lt
                    } else {
                        prev.gen_lt
                    },
                    tx_lt: if obs.tx_lt > prev.tx_lt {
                        obs.tx_lt
                    } else {
                        prev.tx_lt
                    },
                };
                proof {
                    assert(entry.0 == a);
                    lemma_lookup_found(self.entries@, a, i as int);
                    lemma_lookup_update(self.entries@, a, i as int, merged);
                }
                self.entries.set(i, (a, merged));
                return anomaly;
            }
            proof {
                assert(self.entries@[i as int].0 != a);
            }
            i = i + 1;
        }
        proof {
            lemma_lookup_skip(self.entries@, a, n as int);
            assert(self.entries@.skip(n as int) =~= Seq::<(Address, Cursor)>::empty());
            assert(lookup(Seq::<(Address, Cursor)>::empty(), a) == Option::<Cursor>::None);
            lemma_lookup_push(self.entries@, a, obs);
        }
        self.entries.push((a, obs));
        false
    }

    /// Read access for callers reconciling their own cursors.
    pub fn get_tracked(&self, a: Address) -> (r: Option<Cursor>)
        ensures
            r == self.tracked_cursor(a),
    {
        let n = self.entries.len();
        let mut i: usize = 0;
        while i < n
            invariant
                i <= n,
                n == self.entries@.len(),
                forall|j: int| 0 <= j < i ==> (#[trigger] self.entries@[j]).0 != a,
            decreases n - i,
        {
            let entry = self.entries[i];
            if entry.0.workchain == a.workchain && entry.0.id_hi == a.id_hi && entry.0.id_lo
                == a.id_lo {
                proof {
                    lemma_lookup_found(self.entries@, a, i as int);
                }
                return Some(entry.1);
            }
            i = i + 1;
        }
        proof {
            lemma_lookup_skip(self.entries@, a, n as int);
            assert(self.entries@.skip(n as int) =~= Seq::<(Address, Cursor)>::empty());
            assert(lookup(Seq::<(Address, Cursor)>::empty(), a) == Option::<Cursor>::None);
        }
        None
    }
}

/// Monotonicity of the tracked cursor: recording any observation never
/// lowers the tracked genLt, and a non-anomalous observation is at or above
/// the previously tracked genLt.
pub proof fn lemma_guard_monotone(prev: Option<Cursor>, obs: Cursor)
    ensures
        prev matches Option::Some(p) ==> ConsistencyGuard::advanced(p, obs).gen_lt >= p.gen_lt,
        prev matches Option::Some(p) ==> ConsistencyGuard::advanced(p, obs).tx_lt >= p.tx_lt,
        prev matches Option::Some(p) ==> (!ConsistencyGuard::spec_is_rollback(prev, obs)
            ==> obs.gen_lt >= p.gen_lt),
{
}

/// What one observation leaves tracked for its address, per `observe`.
pub open spec fn after_observation(prev: Option<Cursor>, obs: Cursor) -> Cursor {
    match prev {
        Option::Some(p) => ConsistencyGuard::advanced(p, obs),
        Option::None => obs,
    }
}

/// Successive successful queries show non-decreasing genLt unless the
/// rollback anomaly is flagged: whatever was tracked before the first of
/// two completed observations, if the second is not flagged then its genLt
/// is at or above the first's.
pub proof fn lemma_successive_queries_monotone(prev: Option<Cursor>, first: Cursor, second: Cursor)
    ensures
        after_observation(prev, first).gen_lt >= first.gen_lt,
        !ConsistencyGuard::spec_is_rollback(
            Option::Some(after_observation(prev, first)),
            second,
        ) ==> second.gen_lt >= first.gen_lt,
{
}

} // verus!
