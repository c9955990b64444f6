//! Validator weight tables: the per-era mapping from validator public key to
//! its non-negative integer weight, unique per validator and immutable once
//! an era starts, with the arithmetic that quorum decisions are made over.

use crate::types::PublicKey;
use vstd::prelude::*;

verus! {

/// The sum of all weights in the table.
pub open spec fn total_weight_of(s: Seq<(PublicKey, u64)>) -> int
    decreases s.len(),
{
    if s.len() == 0 {
        0
    } else {
        s[0].1 + total_weight_of(s.drop_first())
    }
}

/// No validator key occurs twice.
pub open spec fn keys_unique(s: Seq<(PublicKey, u64)>) -> bool {
    forall|i: int, j: int| 0 <= i < j < s.len() ==> (#[trigger] s[i]).0 != (#[trigger] s[j]).0
}

/// The validator `k` has an entry in the table.
pub open spec fn is_bonded_in(s: Seq<(PublicKey, u64)>, k: PublicKey) -> bool {
    exists|i: int| 0 <= i < s.len() && (#[trigger] s[i]).0 == k
}

/// The weight of validator `k`, zero when it has no entry.
pub open spec fn weight_in(s: Seq<(PublicKey, u64)>, k: PublicKey) -> int
    decreases s.len(),
{
    if s.len() == 0 {
        0
    } else if s[0].0 == k {
        s[0].1 as int
    } else {
        weight_in(s.drop_first(), k)
    }
}

/// A valid weight table: unique keys and a positive total that fits in a
/// 64-bit integer.
pub open spec fn weights_wf(s: Seq<(PublicKey, u64)>) -> bool {
    keys_unique(s) && 0 < total_weight_of(s) <= u64::MAX
}

/// The total weight of the entries from position `i` on is the weight at `i`
/// plus the total from `i + 1` on.
pub proof fn lemma_total_weight_step(s: Seq<(PublicKey, u64)>, i: int)
    requires
        0 <= i < s.len(),
    ensures
        total_weight_of(s.skip(i)) == s[i].1 + total_weight_of(s.skip(i + 1)),
{
    assert(s.skip(i)[0] == s[i]);
    assert(s.skip(i).drop_first() =~= s.skip(i + 1));
}

/// A total weight is never negative.
pub proof fn lemma_total_weight_nonneg(s: Seq<(PublicKey, u64)>)
    ensures
        total_weight_of(s) >= 0,
    decreases s.len(),
{
    if s.len() > 0 {
        lemma_total_weight_nonneg(s.drop_first());
    }
}

/// The weight of any validator lies between zero and the largest weight.
pub proof fn lemma_weight_in_bounds(s: Seq<(PublicKey, u64)>, k: PublicKey)
    ensures
        0 <= weight_in(s, k) <= u64::MAX,
    decreases s.len(),
{
    if s.len() > 0 && s[0].0 != k {
        lemma_weight_in_bounds(s.drop_first(), k);
    }
}

/// Scanning past a non-matching entry keeps the looked-up weight.
pub proof fn lemma_weight_in_step(s: Seq<(PublicKey, u64)>, k: PublicKey, i: int)
    requires
        0 <= i < s.len(),
    ensures
        s[i].0 != k ==> weight_in(s.skip(i), k) == weight_in(s.skip(i + 1), k),
        s[i].0 == k ==> weight_in(s.skip(i), k) == s[i].1,
{
    assert(s.skip(i)[0] == s[i]);
    assert(s.skip(i).drop_first() =~= s.skip(i + 1));
}

/// Why a list of entries is no valid weight table.
#[derive(Clone, Copy, PartialEq, Eq, Structural, Debug)]
pub enum WeightsError {
    /// Some validator key occurs twice.
    DuplicateValidator,
    /// All weights sum to zero.
    ZeroTotalWeight,
    /// The weights sum to more than a 64-bit integer holds.
    TotalWeightOverflow,
}

/// The validator weights of one era: a mapping from public key to weight,
/// unique per validator, with its positive total precomputed.
#[derive(Clone, PartialEq, Eq, Debug)]
pub struct ValidatorWeights {
    /// The entries, one per validator, in a fixed order.
    pub entries: Vec<(PublicKey, u64)>,
    /// The sum of all weights.
    pub total: u64,
}

impl View for ValidatorWeights {
    type V = Seq<(PublicKey, u64)>;

    open spec fn view(&self) -> Seq<(PublicKey, u64)> {
        self.entries@
    }
}

impl ValidatorWeights {
    /// A valid table: unique keys, positive total, and the cached total in
    /// agreement with the entries.
    pub open spec fn wf(self) -> bool {
        weights_wf(self@) && self.total == total_weight_of(self@)
    }

    /// Checks the entries and builds a weight table from them.
    pub fn new(entries: Vec<(PublicKey, u64)>) -> (r: Result<ValidatorWeights, WeightsError>)
        ensures
            r is Ok <==> weights_wf(entries@),
            (r matches Ok(w) ==> w@ == entries@ && w.wf()),
            (r matches Err(e) ==> e == (if !keys_unique(entries@) {
                WeightsError::DuplicateValidator
            } else if total_weight_of(entries@) > u64::MAX {
                WeightsError::TotalWeightOverflow
            } else {
                WeightsError::ZeroTotalWeight
            })),
    {
        let n = entries.len();
        let mut i: usize = 0;
        while i < n
            invariant
                n == entries@.len(),
                forall|a: int, b: int|
                    0 <= a < b < n && a < i ==> (#[trigger] entries@[a]).0 != (
                    #[trigger] entries@[b]).0,
            decreases n - i,
        {
            let mut j: usize = i + 1;
            while j < n
                invariant
                    i < n,
                    i < j,
                    n == entries@.len(),
                    forall|b: int| i < b < j ==> (#[trigger] entries@[b]).0 != entries@[i as int].0,
                decreases n - j,
            {
                if entries[i].0 == entries[j].0 {
                    assert(!keys_unique(entries@));
                    return Err(WeightsError::DuplicateValidator);
                }
                j = j + 1;
            }
            i = i + 1;
        }
        assert(keys_unique(entries@));
        let mut total: u64 = 0;
        let mut k: usize = 0;
        proof {
            assert(entries@.skip(0) =~= entries@);
            assert(entries@.take(0) =~= Seq::<(PublicKey, u64)>::empty());
        }
        while k < n
            invariant
                n == entries@.len(),
                k <= n,
                total == total_weight_of(entries@.take(k as int)),
                total_weight_of(entries@) == total + total_weight_of(entries@.skip(k as int)),
                keys_unique(entries@),
            decreases n - k,
        {
            proof {
                lemma_total_weight_step(entries@, k as int);
                lemma_total_weight_nonneg(entries@.skip(k as int + 1));
            }
            let w = entries[k].1;
            total = match total.checked_add(w) {
                Some(t) => t,
                None => {
                    return Err(WeightsError::TotalWeightOverflow);
                },
            };
            proof {
                assert(entries@.take(k as int + 1).drop_last() =~= entries@.take(k as int));
                lemma_total_weight_take_step(entries@, k as int);
            }
            k = k + 1;
        }
        proof {
            assert(entries@.take(n as int) =~= entries@);
            assert(entries@.skip(n as int) =~= Seq::<(PublicKey, u64)>::empty());
        }
        if total == 0 {
            return Err(WeightsError::ZeroTotalWeight);
        }
        Ok(ValidatorWeights { entries, total })
    }

    /// The weight of validator `k` in this table, zero when absent.
    pub fn weight(&self, k: PublicKey) -> (r: u64)
        ensures
            r == weight_in(self@, k),
    {
        let s = Ghost(self@);
        let n = self.entries.len();
        let mut i: usize = 0;
        proof {
            assert(s@.skip(0) =~= s@);
        }
        while i < n
            invariant
                s@ == self@,
                n == s@.len(),
                i <= n,
                weight_in(s@, k) == weight_in(s@.skip(i as int), k),
            decreases n - i,
        {
            proof {
                lemma_weight_in_step(s@, k, i as int);
            }
            if self.entries[i].0 == k {
                return self.entries[i].1;
            }
            i = i + 1;
        }
        proof {
            assert(s@.skip(n as int) =~= Seq::<(PublicKey, u64)>::empty());
        }
        0
    }

    /// Whether validator `k` has an entry in this table.
    pub fn is_bonded(&self, k: PublicKey) -> (r: bool)
        ensures
            r == is_bonded_in(self@, k),
    {
        let n = self.entries.len();
        let mut i: usize = 0;
        while i < n
            invariant
                n == self@.len(),
                i <= n,
                forall|j: int| 0 <= j < i ==> (#[trigger] self@[j]).0 != k,
            decreases n - i,
        {
            if self.entries[i].0 == k {
                return true;
            }
            i = i + 1;
        }
        false
    }
}

/// Taking one more entry adds that entry's weight to the prefix total.
pub proof fn lemma_total_weight_take_step(s: Seq<(PublicKey, u64)>, i: int)
    requires
        0 <= i < s.len(),
    ensures
        total_weight_of(s.take(i + 1)) == total_weight_of(s.take(i)) + s[i].1,
    decreases i,
{
    if i == 0 {
        assert(s.take(1)[0] == s[0]);
        assert(s.take(1).drop_first() =~= Seq::<(PublicKey, u64)>::empty());
        assert(s.take(0) =~= Seq::<(PublicKey, u64)>::empty());
    } else {
        lemma_total_weight_take_step(s.drop_first(), i - 1);
        assert(s.take(i + 1)[0] == s[0]);
        assert(s.take(i + 1).drop_first() =~= s.drop_first().take(i));
        assert(s.take(i)[0] == s[0]);
        assert(s.take(i).drop_first() =~= s.drop_first().take(i - 1));
        assert(s.drop_first()[i - 1] == s[i]);
    }
}

/// Whether `k` occurs in the list of keys.
pub fn contains_key(v: &Vec<PublicKey>, k: PublicKey) -> (r: bool)
    ensures
        r == v@.contains(k),
{
    let n = v.len();
    let mut i: usize = 0;
    while i < n
        invariant
            n == v@.len(),
            i <= n,
            forall|j: int| 0 <= j < i ==> v@[j] != k,
        decreases n - i,
    {
        if v[i] == k {
            return true;
        }
        i = i + 1;
    }
    false
}

} // verus!
