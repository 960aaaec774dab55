//! The statistics container: a multiset of observed integers reporting
//! sum, count and mode, with an associative and commutative merge.

use vstd::prelude::*;

verus! {

/// Mathematical sum of a sequence of observations.
pub open spec fn seq_sum(s: Seq<u64>) -> int
    decreases s.len(),
{
    if s.len() == 0 {
        0
    } else {
        seq_sum(s.drop_last()) + s.last()
    }
}

/// How many times `v` occurs in `s`.
pub open spec fn occurrences(s: Seq<u64>, v: u64) -> nat
    decreases s.len(),
{
    if s.len() == 0 {
        0
    } else {
        occurrences(s.drop_last(), v) + (if s.last() == v {
            1nat
        } else {
            0nat
        })
    }
}

/// `v` is the mode of `s`: it occurs, no value occurs more often, and on a
/// frequency tie the numerically largest value is chosen (a tie-break that
/// does not depend on observation order).
pub open spec fn is_mode(s: Seq<u64>, v: u64) -> bool {
    &&& occurrences(s, v) > 0
    &&& forall|w: u64| #[trigger] occurrences(s, w) <= occurrences(s, v)
    &&& forall|w: u64| #[trigger] occurrences(s, w) == occurrences(s, v) ==> w <= v
}

/// A pure read of a histogram: total, number of observations, and mode.
/// The average is the ratio `sum / count`; it is undefined exactly when
/// `count` is zero, which is also when `mode` is `None`.
#[derive(Clone, Copy)]
pub struct Snapshot {
    pub sum: u128,
    pub count: usize,
    pub mode: Option<u64>,
}

/// What a correct snapshot of the observations `obs` looks like.
pub open spec fn snapshot_matches(obs: Seq<u64>, snap: Snapshot) -> bool {
    &&& snap.sum == seq_sum(obs)
    &&& snap.count == obs.len()
    &&& match snap.mode {
        Option::None => obs.len() == 0,
        Option::Some(v) => is_mode(obs, v),
    }
}

/// Accumulates observed integers; reports sum, count and mode.
pub struct Histogram {
    observations: Vec<u64>,
}

impl View for Histogram {
    type V = Seq<u64>;

    closed spec fn view(&self) -> Seq<u64> {
        self.observations@
    }
}

proof fn lemma_sum_bounded(s: Seq<u64>)
    ensures
        0 <= seq_sum(s) <= s.len() * u64::MAX,
    decreases s.len(),
{
    if s.len() == 0 {
    } else {
        lemma_sum_bounded(s.drop_last());
        assert((s.len() - 1) * u64::MAX + u64::MAX == s.len() * u64::MAX) by (nonlinear_arith);
    }
}

/// Occurrence counts never exceed the length.
proof fn lemma_occurrences_le_len(s: Seq<u64>, v: u64)
    ensures
        occurrences(s, v) <= s.len(),
    decreases s.len(),
{
    if s.len() > 0 {
        lemma_occurrences_le_len(s.drop_last(), v);
    }
}

/// A value occurs in `s` exactly when its occurrence count is positive.
pub proof fn lemma_occurrences_positive(s: Seq<u64>, v: u64)
    ensures
        occurrences(s, v) > 0 <==> s.contains(v),
    decreases s.len(),
{
    if s.len() > 0 {
        lemma_occurrences_positive(s.drop_last(), v);
        if s.last() == v {
            assert(s[s.len() - 1] == v);
        } else {
            assert(s.contains(v) <==> s.drop_last().contains(v)) by {
                if s.contains(v) {
                    let i = choose|i: int| 0 <= i < s.len() && s[i] == v;
                    assert(s.drop_last()[i] == v);
                }
                if s.drop_last().contains(v) {
                    let i = choose|i: int| 0 <= i < s.len() - 1 && s.drop_last()[i] == v;
                    assert(s[i] == v);
                }
            }
        }
    }
}

/// Counts how many entries of `obs` equal `v`.
fn count_value(obs: &Vec<u64>, v: u64) -> (n: usize)
    ensures
        n == occurrences(obs@, v),
{
    proof {
        lemma_occurrences_le_len(obs@, v);
    }
    let mut n: usize = 0;
    let mut i: usize = 0;
    while i < obs.len()
        invariant
            i <= obs@.len(),
            n == occurrences(obs@.take(i as int), v),
            n <= i,
        decreases obs@.len() - i,
    {
        proof {
            assert(obs@.take(i + 1).drop_last() =~= obs@.take(i as int));
            assert(obs@.take(i + 1).last() == obs@[i as int]);
        }
        if obs[i] == v {
            n = n + 1;
        }
        i = i + 1;
    }
    proof {
        assert(obs@.take(obs@.len() as int) =~= obs@);
    }
    n
}

impl Histogram {
    /// The empty histogram: no observations at all.
    pub fn new() -> (r: Histogram)
        ensures
            r@ == Seq::<u64>::empty(),
    {
        Histogram { observations: Vec::new() }
    }

    /// Record one observed value.
    pub fn observe(&mut self, value: u64)
        ensures
            final(self)@ == old(self)@.push(value),
    {
        self.observations.push(value);
    }

    /// Pure merge: the union of two histograms' observations.
    pub fn merge(&self, other: &Histogram) -> (r: Histogram)
        ensures
            r@ == self@ + other@,
    {
        let mut obs: Vec<u64> = Vec::new();
        let mut i: usize = 0;
        while i < self.observations.len()
            invariant
                i <= self@.len(),
                obs@ == self@.take(i as int),
            decreases self@.len() - i,
        {
            obs.push(self.observations[i]);
            proof {
                assert(obs@ =~= self@.take(i + 1));
            }
            i = i + 1;
        }
        proof {
            assert(obs@ =~= self@);
        }
        let mut j: usize = 0;
        while j < other.observations.len()
            invariant
                j <= other@.len(),
                obs@ == self@ + other@.take(j as int),
            decreases other@.len() - j,
        {
            obs.push(other.observations[j]);
            proof {
                assert(obs@ =~= self@ + other@.take(j + 1));
            }
            j = j + 1;
        }
        proof {
            assert(obs@ =~= self@ + other@);
        }
        Histogram { observations: obs }
    }

    /// Total of all observations.
    pub fn sum(&self) -> (r: u128)
        ensures
            r == seq_sum(self@),
    {
        let mut acc: u128 = 0;
        let mut i: usize = 0;
        while i < self.observations.len()
            invariant
                i <= self@.len(),
                acc == seq_sum(self@.take(i as int)),
            decreases self@.len() - i,
        {
            proof {
                lemma_sum_bounded(self@.take(i as int));
                assert(self@.take(i as int).len() * u64::MAX < u128::MAX - u64::MAX)
                    by (nonlinear_arith)
                    requires
                        self@.take(i as int).len() <= u64::MAX,
                ;
                assert(self@.take(i + 1).drop_last() =~= self@.take(i as int));
                assert(self@.take(i + 1).last() == self@[i as int]);
            }
            acc = acc + self.observations[i] as u128;
            i = i + 1;
        }
        proof {
            assert(self@.take(self@.len() as int) =~= self@);
        }
        acc
    }

    /// Number of observations.
    pub fn count(&self) -> (r: usize)
        ensures
            r == self@.len(),
    {
        self.observations.len()
    }

    /// The most frequent observation, `None` exactly when the histogram is
    /// empty. Frequency ties go to the numerically largest value.
    pub fn mode(&self) -> (r: Option<u64>)
        ensures
            match r {
                Option::None => self@.len() == 0,
                Option::Some(v) => is_mode(self@, v),
            },
    {
        if self.observations.len() == 0 {
            return Option::None;
        }
        let ghost s = self@;
        let mut best: u64 = self.observations[0];
        let mut best_count: usize = count_value(&self.observations, best);
        proof {
            assert(s.contains(s[0]));
            lemma_occurrences_positive(s, best);
        }
        let mut i: usize = 1;
        while i < self.observations.len()
            invariant
                1 <= i <= s.len(),
                s == self@,
                s.len() > 0,
                best_count == occurrences(s, best),
                occurrences(s, best) > 0,
                forall|j: int|
                    0 <= j < i ==> #[trigger] occurrences(s, s[j]) <= occurrences(s, best),
                forall|j: int|
                    0 <= j < i ==> (occurrences(s, s[j]) == occurrences(s, best) ==> s[j]
                        <= best),
            decreases s.len() - i,
        {
            let candidate = self.observations[i];
            let c = count_value(&self.observations, candidate);
            if c > best_count || (c == best_count && candidate > best) {
                best = candidate;
                best_count = c;
                proof {
                    assert(s.contains(s[i as int]));
                    lemma_occurrences_positive(s, best);
                }
            }
            i = i + 1;
        }
        proof {
            assert forall|w: u64| #[trigger] occurrences(s, w) <= occurrences(s, best) by {
                lemma_occurrences_positive(s, w);
                if occurrences(s, w) > 0 {
                    let j = choose|j: int| 0 <= j < s.len() && s[j] == w;
                    assert(occurrences(s, s[j]) <= occurrences(s, best));
                }
            }
            assert forall|w: u64| #[trigger] occurrences(s, w) == occurrences(s, best) implies w
                <= best by {
                lemma_occurrences_positive(s, w);
                let j = choose|j: int| 0 <= j < s.len() && s[j] == w;
                assert(occurrences(s, s[j]) == occurrences(s, best));
            }
        }
        Option::Some(best)
    }

    /// Pure read of sum, count and mode.
    pub fn snapshot(&self) -> (r: Snapshot)
        ensures
            snapshot_matches(self@, r),
    {
        Snapshot { sum: self.sum(), count: self.count(), mode: self.mode() }
    }
}

/// The sum of concatenated observations is the sum of the parts.
pub proof fn lemma_seq_sum_append(a: Seq<u64>, b: Seq<u64>)
    ensures
        seq_sum(a + b) == seq_sum(a) + seq_sum(b),
    decreases b.len(),
{
    if b.len() == 0 {
        assert(a + b =~= a);
    } else {
        lemma_seq_sum_append(a, b.drop_last());
        assert((a + b).drop_last() =~= a + b.drop_last());
        assert((a + b).last() == b.last());
    }
}

/// Occurrence counts of concatenated observations add up.
pub proof fn lemma_occurrences_append(a: Seq<u64>, b: Seq<u64>, v: u64)
    ensures
        occurrences(a + b, v) == occurrences(a, v) + occurrences(b, v),
    decreases b.len(),
{
    if b.len() == 0 {
        assert(a + b =~= a);
    } else {
        lemma_occurrences_append(a, b.drop_last(), v);
        assert((a + b).drop_last() =~= a + b.drop_last());
        assert((a + b).last() == b.last());
    }
}

/// The mode is unique: two values that both satisfy [`is_mode`] are equal.
pub proof fn lemma_mode_unique(s: Seq<u64>, v1: u64, v2: u64)
    requires
        is_mode(s, v1),
        is_mode(s, v2),
    ensures
        v1 == v2,
{
    assert(occurrences(s, v1) <= occurrences(s, v2));
    assert(occurrences(s, v2) <= occurrences(s, v1));
}

/// A snapshot is fully determined by the observations it describes: with
/// the largest-value tie-break, sum, count and mode are functions of the
/// observation multiset alone.
pub proof fn lemma_snapshot_unique(obs: Seq<u64>, s1: Snapshot, s2: Snapshot)
    requires
        snapshot_matches(obs, s1),
        snapshot_matches(obs, s2),
    ensures
        s1 == s2,
{
    match (s1.mode, s2.mode) {
        (Option::Some(v1), Option::Some(v2)) => {
            lemma_mode_unique(obs, v1, v2);
        },
        _ => {},
    }
}

/// Merging is commutative: merging two histograms in either order yields
/// the same sum, the same count, the same occurrence counts and so the
/// same mode — the same snapshot.
pub proof fn lemma_merge_commutes(a: Seq<u64>, b: Seq<u64>)
    ensures
        seq_sum(a + b) == seq_sum(b + a),
        (a + b).len() == (b + a).len(),
        forall|v: u64| occurrences(a + b, v) == occurrences(b + a, v),
        forall|v: u64| is_mode(a + b, v) <==> is_mode(b + a, v),
        forall|s: Snapshot| snapshot_matches(a + b, s) <==> snapshot_matches(b + a, s),
{
    lemma_seq_sum_append(a, b);
    lemma_seq_sum_append(b, a);
    assert forall|v: u64| occurrences(a + b, v) == occurrences(b + a, v) by {
        lemma_occurrences_append(a, b, v);
        lemma_occurrences_append(b, a, v);
    }
    assert forall|v: u64| is_mode(a + b, v) <==> is_mode(b + a, v) by {
        if is_mode(a + b, v) {
            assert forall|w: u64| #[trigger] occurrences(b + a, w) <= occurrences(b + a, v) by {
                assert(occurrences(a + b, w) <= occurrences(a + b, v));
            }
            assert forall|w: u64|
                #[trigger] occurrences(b + a, w) == occurrences(b + a, v) implies w <= v by {
                assert(occurrences(a + b, w) == occurrences(a + b, v));
            }
        }
        if is_mode(b + a, v) {
            assert forall|w: u64| #[trigger] occurrences(a + b, w) <= occurrences(a + b, v) by {
                assert(occurrences(b + a, w) <= occurrences(b + a, v));
            }
            assert forall|w: u64|
                #[trigger] occurrences(a + b, w) == occurrences(a + b, v) implies w <= v by {
                assert(occurrences(b + a, w) == occurrences(b + a, v));
            }
        }
    }
}

/// Merging is associative: the grouping of merges does not change the
/// merged observations at all.
pub proof fn lemma_merge_assoc(a: Seq<u64>, b: Seq<u64>, c: Seq<u64>)
    ensures
        (a + b) + c == a + (b + c),
{
    assert((a + b) + c =~= a + (b + c));
}

/// The empty histogram is the identity of merging: reducing no partial
/// results gives the identity, and reducing one gives it back unchanged.
pub proof fn lemma_merge_identity(s: Seq<u64>)
    ensures
        Seq::<u64>::empty() + s == s,
        s + Seq::<u64>::empty() == s,
{
    assert(Seq::<u64>::empty() + s =~= s);
    assert(s + Seq::<u64>::empty() =~= s);
}

} // verus!
