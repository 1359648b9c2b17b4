//! A Markov chain over byte windows, used to generate text that resembles
//! the messages it was fed.
use vstd::prelude::*;
use vstd::std_specs::hash::obeys_key_model;
use std::collections::HashMap;
use std::hash::Hash;

verus! {

#[verifier::external_type_specification]
#[verifier::external_body]
pub struct ExStdRng(rand::rngs::StdRng);

/// Relies on `rand::SeedableRng::from_rng` with `rand::rngs::OsRng`: a
/// generator seeded from the operating system's randomness source, or an
/// error when that source fails.
#[verifier::external_body]
fn seeded_rng() -> (r: Option<rand::rngs::StdRng>) {
    <rand::rngs::StdRng as rand::SeedableRng>::from_rng(rand::rngs::OsRng).ok()
}

/// Relies on `rand::Rng::gen_range`: a number drawn from the inclusive
/// range; it panics only when the range is empty.
#[verifier::external_body]
fn draw_between(rng: &mut rand::rngs::StdRng, low: usize, high: usize) -> (r: usize)
    requires
        low <= high,
    ensures
        low <= r <= high,
{
    rand::Rng::gen_range(rng, low..=high)
}

/// The sum of the first `n` weights.
pub open spec fn prefix_sum(w: Seq<usize>, n: int) -> int
    decreases n,
{
    if n <= 0 {
        0
    } else {
        prefix_sum(w, n - 1) + w[n - 1]
    }
}

proof fn lemma_prefix_sum_monotonic(w: Seq<usize>, a: int, b: int)
    requires
        0 <= a <= b <= w.len(),
    ensures
        prefix_sum(w, a) <= prefix_sum(w, b),
    decreases b - a,
{
    if a < b {
        lemma_prefix_sum_monotonic(w, a, b - 1);
    }
}

proof fn lemma_weight_within_sum(w: Seq<usize>, i: int, n: int)
    requires
        0 <= i < n <= w.len(),
    ensures
        w[i] <= prefix_sum(w, n),
    decreases n,
{
    if i < n - 1 {
        lemma_weight_within_sum(w, i, n - 1);
    } else {
        lemma_prefix_sum_monotonic(w, 0, n - 1);
    }
}

proof fn lemma_sum_after_increment(w: Seq<usize>, i: int, n: int)
    requires
        0 <= i < w.len(),
        0 <= n <= w.len(),
        w[i] < usize::MAX,
    ensures
        prefix_sum(w.update(i, (w[i] + 1) as usize), n) == prefix_sum(w, n) + if i < n {
            1int
        } else {
            0int
        },
    decreases n,
{
    if n > 0 {
        lemma_sum_after_increment(w, i, n - 1);
    }
}

proof fn lemma_sum_after_push(w: Seq<usize>, x: usize, n: int)
    requires
        0 <= n <= w.len(),
    ensures
        prefix_sum(w.push(x), n) == prefix_sum(w, n),
    decreases n,
{
    if n > 0 {
        lemma_sum_after_push(w, x, n - 1);
    }
}

/// A multiset of values, from which a value is drawn with probability
/// proportional to its count. The values are kept in the order of their
/// first insertion, each with its count.
#[derive(Debug)]
pub struct WeightedSet<T> {
    index: HashMap<T, usize>,
    values: Vec<T>,
    weights: Vec<usize>,
    total_size: usize,
}

impl<T: Hash + Eq + Clone> WeightedSet<T> {
    /// Each value has its count; the index gives each distinct value its own
    /// position; the total is the sum of the counts.
    pub closed spec fn wf(&self) -> bool {
        &&& self.values@.len() == self.weights@.len()
        &&& self.total_size == prefix_sum(self.weights@, self.weights@.len() as int)
        &&& forall|k: T| #[trigger] self.index@.contains_key(k) ==> self.index@[k] < self.weights@.len()
        &&& forall|k1: T, k2: T|
            #[trigger] self.index@.contains_key(k1) && #[trigger] self.index@.contains_key(k2) && k1
                != k2 ==> self.index@[k1] != self.index@[k2]
    }

    /// The count of each value, in the order of first insertion.
    pub closed spec fn weights(&self) -> Seq<usize> {
        self.weights@
    }

    /// How many insertions there were.
    pub closed spec fn total(&self) -> usize {
        self.total_size
    }

    /// How many times `value` was inserted.
    pub closed spec fn count_of(&self, value: T) -> nat {
        if self.index@.contains_key(value) && self.index@[value] < self.weights@.len() {
            self.weights@[self.index@[value] as int] as nat
        } else {
            0
        }
    }

    pub fn new() -> (r: WeightedSet<T>)
        ensures
            r.wf(),
            r.weights().len() == 0,
            r.total() == 0,
            forall|v: T| r.count_of(v) == 0,
    {
        let r = WeightedSet {
            index: HashMap::new(),
            values: Vec::new(),
            weights: Vec::new(),
            total_size: 0,
        };
        assert(r.index@ == Map::<T, usize>::empty());
        r
    }

    /// Adds one occurrence of `value`: its count grows by one, or it joins
    /// the set with a count of one, and every other count stays. A set that
    /// has counted `usize::MAX` insertions takes no more. The counts are kept
    /// in a hash map, so they are exact where the key type obeys the hash
    /// map's model.
    pub fn insert(&mut self, value: T)
        ensures
            old(self).total() < usize::MAX ==> final(self).total() == old(self).total() + 1,
            old(self).total() == usize::MAX ==> final(self).weights() == old(self).weights()
                && final(self).total() == old(self).total(),
            final(self).weights().len() == old(self).weights().len() || (final(self).weights()
                == old(self).weights().push(1)),
            old(self).wf() && obeys_key_model::<T>() && old(self).total() < usize::MAX ==> {
                &&& final(self).wf()
                &&& final(self).count_of(value) == old(self).count_of(value) + 1
                &&& forall|v: T| v != value ==> final(self).count_of(v) == old(self).count_of(v)
            },
    {
        broadcast use vstd::std_specs::hash::group_hash_axioms;

        if self.total_size == usize::MAX {
            return;
        }
        let ghost good = self.wf() && obeys_key_model::<T>();
        let n = self.weights.len();
        let found: Option<usize> = match self.index.get(&value) {
            Some(i) => Some(*i),
            None => None,
        };
        match found {
            Some(i) if i < n => {
                let w = self.weights[i];
                proof {
                    if good {
                        lemma_weight_within_sum(self.weights@, i as int, n as int);
                    }
                }
                if w < usize::MAX {
                    proof {
                        lemma_sum_after_increment(self.weights@, i as int, n as int);
                    }
                    self.weights.set(i, w + 1);
                }
            },
            _ => {
                proof {
                    lemma_sum_after_push(self.weights@, 1, n as int);
                }
                self.values.push(value.clone());
                self.index.insert(value, n);
                self.weights.push(1);
            },
        }
        self.total_size = self.total_size + 1;
    }

    pub fn total_size(&self) -> (r: usize)
        ensures
            r == self.total(),
    {
        self.total_size
    }

    /// The position of the first value at which the running sum of counts
    /// reaches `selected`, a draw counted from one; `None` when the counts
    /// sum to less, which a draw up to the total never does.
    pub fn pick(&self, selected: usize) -> (r: Option<usize>)
        requires
            selected >= 1,
        ensures
            match r {
                Some(i) => i < self.weights().len() && prefix_sum(self.weights(), i as int)
                    < selected <= prefix_sum(self.weights(), i + 1),
                None => prefix_sum(self.weights(), self.weights().len() as int) < selected,
            },
            self.wf() && selected <= self.total() ==> r is Some,
    {
        let mut accum: usize = 0;
        let mut i: usize = 0;
        while i < self.weights.len()
            invariant
                i <= self.weights@.len(),
                prefix_sum(self.weights@, i as int) < selected,
                accum == prefix_sum(self.weights@, i as int),
            decreases self.weights@.len() - i,
        {
            let w = self.weights[i];
            if w >= selected - accum {
                return Some(i);
            }
            accum = accum + w;
            i = i + 1;
        }
        None
    }

    /// Draws a value with probability proportional to its count; `None` for
    /// an empty set, or when the operating system's randomness source fails.
    pub fn sample(&self) -> (r: Option<T>)
        ensures
            self.total() == 0 ==> r is None,
    {
        if self.total_size == 0 {
            return None;
        }
        let mut rng = match seeded_rng() {
            Some(rng) => rng,
            None => return None,
        };
        let selected = draw_between(&mut rng, 1, self.total_size);
        match self.pick(selected) {
            Some(i) if i < self.values.len() => Some(self.values[i].clone()),
            _ => None,
        }
    }
}

/// Window `i` of `b`: `size` bytes from `i`, cut short at the end.
pub open spec fn window(b: Seq<u8>, size: nat, i: int) -> Seq<u8> {
    b.subrange(
        i,
        if i + size < b.len() {
            i + size
        } else {
            b.len() as int
        },
    )
}

/// How many windows there are: one for each start from 0 to
/// `len - size`, and at least one.
pub open spec fn window_count(len: nat, size: nat) -> nat {
    if len > size {
        (len - size + 1) as nat
    } else {
        1
    }
}

pub open spec fn opt_view(o: Option<Vec<u8>>) -> Option<Seq<u8>> {
    match o {
        Some(v) => Some(v@),
        None => None,
    }
}

/// The window of `bytes` that starts at `i`.
fn window_at(bytes: &[u8], size: usize, i: usize) -> (r: Vec<u8>)
    requires
        i <= bytes@.len(),
    ensures
        r@ == window(bytes@, size as nat, i as int),
{
    let end = if size < bytes.len() - i {
        i + size
    } else {
        bytes.len()
    };
    vstd::slice::slice_to_vec(vstd::slice::slice_subrange(bytes, i, end))
}

/// `ts` are the transitions of the message `b` over windows of `size`
/// bytes: from the start to the first window, from each window to the
/// next, from the last window to the end; none for an empty message.
pub open spec fn is_transitions(
    ts: Seq<(Option<Vec<u8>>, Option<Vec<u8>>)>,
    b: Seq<u8>,
    size: nat,
) -> bool {
    &&& b.len() == 0 ==> ts.len() == 0
    &&& b.len() > 0 ==> {
        let n = window_count(b.len(), size);
        &&& ts.len() == n + 1
        &&& forall|j: int|
            0 <= j <= n ==> opt_view((#[trigger] ts[j]).0) == if j == 0 {
                None
            } else {
                Some(window(b, size, j - 1))
            }
        &&& forall|j: int|
            0 <= j <= n ==> opt_view((#[trigger] ts[j]).1) == if j == n {
                None
            } else {
                Some(window(b, size, j))
            }
    }
}

/// How many of the transitions go from `p` to `n`.
pub open spec fn occurrences(
    ts: Seq<(Option<Vec<u8>>, Option<Vec<u8>>)>,
    p: Option<Vec<u8>>,
    n: Option<Vec<u8>>,
) -> nat
    decreases ts.len(),
{
    if ts.len() == 0 {
        0
    } else {
        occurrences(ts.drop_last(), p, n) + if ts.last() == (p, n) {
            1nat
        } else {
            0nat
        }
    }
}

/// How many of the transitions go from `p`.
pub open spec fn occurrences_after(ts: Seq<(Option<Vec<u8>>, Option<Vec<u8>>)>, p: Option<Vec<u8>>) -> nat
    decreases ts.len(),
{
    if ts.len() == 0 {
        0
    } else {
        occurrences_after(ts.drop_last(), p) + if ts.last().0 == p {
            1nat
        } else {
            0nat
        }
    }
}

proof fn lemma_occurrences_after_bound(
    ts: Seq<(Option<Vec<u8>>, Option<Vec<u8>>)>,
    p: Option<Vec<u8>>,
)
    ensures
        occurrences_after(ts, p) <= ts.len(),
    decreases ts.len(),
{
    if ts.len() > 0 {
        lemma_occurrences_after_bound(ts.drop_last(), p);
    }
}

/// A chain of byte windows: for each window, the windows seen after it.
/// `None` stands for the start and the end of a message.
#[derive(Debug)]
pub struct Chain {
    values: HashMap<Option<Vec<u8>>, WeightedSet<Option<Vec<u8>>>>,
    chain_len: usize,
}

/// Feeding the transitions `ts` took the chain from `before` to `after`:
/// where the window type obeys the hash map's model and no count overflows,
/// each transition's count grew by the number of times `ts` holds it.
pub open spec fn fed_counts(before: Chain, after: Chain, ts: Seq<(Option<Vec<u8>>, Option<Vec<u8>>)>) -> bool {
    obeys_key_model::<Option<Vec<u8>>>() && before.wf() && (forall|p: Option<Vec<u8>>|
        #[trigger] before.total_after(p) + ts.len() < usize::MAX) ==> {
        &&& after.wf()
        &&& forall|p: Option<Vec<u8>>, n: Option<Vec<u8>>|
            #[trigger] after.count(p, n) == before.count(p, n) + occurrences(ts, p, n)
    }
}

impl Chain {
    pub closed spec fn spec_chain_len(&self) -> usize {
        self.chain_len
    }

    /// Every set of the chain is well formed.
    pub closed spec fn wf(&self) -> bool {
        forall|p: Option<Vec<u8>>| #[trigger] self.values@.contains_key(p) ==> self.values@[p].wf()
    }

    /// How many times `next` was recorded after `prev`.
    pub closed spec fn count(&self, prev: Option<Vec<u8>>, next: Option<Vec<u8>>) -> nat {
        if self.values@.contains_key(prev) {
            self.values@[prev].count_of(next)
        } else {
            0
        }
    }

    /// How many transitions were recorded after `prev`.
    pub closed spec fn total_after(&self, prev: Option<Vec<u8>>) -> nat {
        if self.values@.contains_key(prev) {
            self.values@[prev].total() as nat
        } else {
            0
        }
    }

    /// An empty chain over windows of `len` bytes.
    pub fn new(len: usize) -> (r: Chain)
        ensures
            r.spec_chain_len() == len,
            r.wf(),
            forall|p: Option<Vec<u8>>, n: Option<Vec<u8>>| r.count(p, n) == 0,
            forall|p: Option<Vec<u8>>| r.total_after(p) == 0,
    {
        let r = Chain { values: HashMap::new(), chain_len: len };
        assert(r.values@ == Map::<Option<Vec<u8>>, WeightedSet<Option<Vec<u8>>>>::empty());
        r
    }

    /// Records one transition from `prev` to `next`. The sets are kept in a
    /// hash map, so the counts are exact where the window type obeys the
    /// hash map's model.
    pub fn record(&mut self, prev: Option<Vec<u8>>, next: Option<Vec<u8>>)
        ensures
            final(self).spec_chain_len() == old(self).spec_chain_len(),
            obeys_key_model::<Option<Vec<u8>>>() && old(self).wf() && old(self).total_after(prev)
                < usize::MAX ==> {
                &&& final(self).wf()
                &&& final(self).count(prev, next) == old(self).count(prev, next) + 1
                &&& forall|p: Option<Vec<u8>>, n: Option<Vec<u8>>|
                    (p != prev || n != next) ==> #[trigger] final(self).count(p, n) == old(
                        self,
                    ).count(p, n)
                &&& final(self).total_after(prev) == old(self).total_after(prev) + 1
                &&& forall|p: Option<Vec<u8>>|
                    p != prev ==> #[trigger] final(self).total_after(p) == old(self).total_after(p)
            },
    {
        broadcast use vstd::std_specs::hash::group_hash_axioms;

        let mut set = match self.values.remove(&prev) {
            Some(set) => set,
            None => WeightedSet::new(),
        };
        set.insert(next);
        self.values.insert(prev, set);
    }

    /// The transitions that a message makes: from the start to its first
    /// window, from each window to the next, and from its last window to the
    /// end. An empty message makes none.
    pub fn transitions(bytes: &[u8], size: usize) -> (r: Vec<(Option<Vec<u8>>, Option<Vec<u8>>)>)
        requires
            bytes@.len() < usize::MAX,
        ensures
            is_transitions(r@, bytes@, size as nat),
    {
        let mut r: Vec<(Option<Vec<u8>>, Option<Vec<u8>>)> = Vec::new();
        if bytes.len() == 0 {
            return r;
        }
        let n: usize = if bytes.len() > size {
            bytes.len() - size + 1
        } else {
            1
        };
        let ghost b = bytes@;
        let mut prev: Option<Vec<u8>> = None;
        let mut i: usize = 0;
        while i < n
            invariant
                n == window_count(b.len(), size as nat),
                b == bytes@,
                b.len() > 0,
                i <= n,
                r@.len() == i,
                opt_view(prev) == if i == 0 {
                    None
                } else {
                    Some(window(b, size as nat, i - 1))
                },
                forall|j: int|
                    0 <= j < i ==> opt_view((#[trigger] r@[j]).0) == if j == 0 {
                        None
                    } else {
                        Some(window(b, size as nat, j - 1))
                    },
                forall|j: int|
                    0 <= j < i ==> opt_view((#[trigger] r@[j]).1) == Some(
                        window(b, size as nat, j),
                    ),
            decreases n - i,
        {
            let next = window_at(bytes, size, i);
            let kept = window_at(bytes, size, i);
            r.push((prev, Some(next)));
            prev = Some(kept);
            i = i + 1;
        }
        r.push((prev, None));
        r
    }

    /// Records the transitions of a message, as `transitions` gives them:
    /// each transition's count grows by the number of times the message
    /// makes it.
    pub fn feed(&mut self, bytes: Vec<u8>)
        requires
            bytes@.len() < usize::MAX,
        ensures
            final(self).spec_chain_len() == old(self).spec_chain_len(),
            exists|ts: Seq<(Option<Vec<u8>>, Option<Vec<u8>>)>|
                {
                    &&& is_transitions(ts, bytes@, old(self).spec_chain_len() as nat)
                    &&& fed_counts(*old(self), *final(self), ts)
                },
    {
        let pairs = Chain::transitions(bytes.as_slice(), self.chain_len);
        let ghost all = pairs@;
        let ghost good = obeys_key_model::<Option<Vec<u8>>>() && old(self).wf() && (forall|
            p: Option<Vec<u8>>,
        | #[trigger] old(self).total_after(p) + all.len() < usize::MAX);
        let mut pairs = pairs;
        let mut i: usize = 0;
        let n = pairs.len();
        assert(pairs@ =~= all.subrange(0, n as int));
        while i < n
            invariant
                n == all.len(),
                i <= n,
                pairs@ == all.subrange(i as int, n as int),
                self.chain_len == old(self).chain_len,
                good ==> obeys_key_model::<Option<Vec<u8>>>(),
                good ==> forall|p: Option<Vec<u8>>|
                    #[trigger] old(self).total_after(p) + all.len() < usize::MAX,
                good ==> self.wf(),
                good ==> forall|p: Option<Vec<u8>>, q: Option<Vec<u8>>|
                    #[trigger] self.count(p, q) == old(self).count(p, q) + occurrences(
                        all.subrange(0, i as int),
                        p,
                        q,
                    ),
                good ==> forall|p: Option<Vec<u8>>|
                    #[trigger] self.total_after(p) == old(self).total_after(p) + occurrences_after(
                        all.subrange(0, i as int),
                        p,
                    ),
            decreases n - i,
        {
            let (prev, next) = pairs.remove(0);
            proof {
                assert(pairs@ =~= all.subrange(i + 1, n as int));
                let pre = all.subrange(0, i + 1);
                assert(pre.drop_last() =~= all.subrange(0, i as int));
                assert(pre.last() == all[i as int]);
                assert(all[i as int] == (prev, next));
                if good {
                    lemma_occurrences_after_bound(all.subrange(0, i as int), prev);
                }
            }
            self.record(prev, next);
            i = i + 1;
        }
        proof {
            assert(all.subrange(0, n as int) =~= all);
            assert(is_transitions(all, bytes@, old(self).spec_chain_len() as nat));
            assert(fed_counts(*old(self), *self, all));
        }
    }

    /// A random walk from the start: all bytes of the first window, then the
    /// last byte of each window after it, until the walk reaches the end or
    /// `max_len` bytes.
    pub fn generate(&self, max_len: usize) -> (r: Vec<u8>)
        ensures
            r@.len() <= max_len,
    {
        let mut out: Vec<u8> = Vec::new();
        let mut prev: Option<Vec<u8>> = None;
        let mut steps: usize = 0;
        while steps < max_len && out.len() < max_len
            invariant
                out@.len() <= max_len,
            decreases max_len - steps,
        {
            let next = match self.values.get(&prev) {
                Some(set) => set.sample(),
                None => None,
            };
            let segment = match next {
                Some(Some(seg)) => seg,
                _ => break,
            };
            if steps == 0 {
                let mut k: usize = 0;
                while k < segment.len() && out.len() < max_len
                    invariant
                        out@.len() <= max_len,
                    decreases segment@.len() - k,
                {
                    out.push(segment[k]);
                    k = k + 1;
                }
            } else if segment.len() > 0 {
                out.push(segment[segment.len() - 1]);
            }
            prev = Some(segment);
            steps = steps + 1;
        }
        out
    }
}

} // verus!
