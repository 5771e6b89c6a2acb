//! Aggregation of per-item outcomes into a batch summary.

use vstd::multiset::Multiset;
use vstd::prelude::*;

verus! {

/// Totals over a batch: how many items were processed and how many of
/// them succeeded.
#[derive(Clone, Copy, Debug, PartialEq, Eq, Structural)]
pub struct BatchSummary {
    pub processed: usize,
    pub succeeded: usize,
}

/// The number of successful outcomes.
pub open spec fn count_success(s: Seq<bool>) -> nat
    decreases s.len(),
{
    if s.len() == 0 {
        0
    } else {
        count_success(s.drop_last()) + if s.last() {
            1nat
        } else {
            0nat
        }
    }
}

proof fn lemma_count_bound(s: Seq<bool>)
    ensures
        count_success(s) <= s.len(),
    decreases s.len(),
{
    if s.len() > 0 {
        lemma_count_bound(s.drop_last());
    }
}

/// Folds one outcome per item (`true` for success) into the totals.
pub fn summarize(outcomes: &Vec<bool>) -> (r: BatchSummary)
    ensures
        r.processed == outcomes@.len(),
        r.succeeded == count_success(outcomes@),
{
    let mut succeeded: usize = 0;
    let mut i: usize = 0;
    while i < outcomes.len()
        invariant
            i <= outcomes@.len(),
            succeeded == count_success(outcomes@.subrange(0, i as int)),
        decreases outcomes@.len() - i,
    {
        assert(outcomes@.subrange(0, i + 1).drop_last() =~= outcomes@.subrange(0, i as int));
        proof {
            lemma_count_bound(outcomes@.subrange(0, i as int));
        }
        if outcomes[i] {
            succeeded += 1;
        }
        i += 1;
    }
    assert(outcomes@.subrange(0, i as int) =~= outcomes@);
    BatchSummary { processed: outcomes.len(), succeeded }
}

/// The number of successes is the number of `true` outcomes, whatever
/// their order.
pub proof fn lemma_count_is_multiset_count(s: Seq<bool>)
    ensures
        count_success(s) == s.to_multiset().count(true),
        count_success(s) + s.to_multiset().count(false) == s.len(),
    decreases s.len(),
{
    broadcast use vstd::seq_lib::group_to_multiset_ensures;

    if s.len() == 0 {
        assert(s.to_multiset() =~= Multiset::empty());
    } else {
        let t = s.drop_last();
        lemma_count_is_multiset_count(t);
        assert(s =~= t.push(s.last()));
        assert(s.to_multiset() =~= t.to_multiset().insert(s.last()));
    }
}

/// The totals do not depend on the order in which outcomes arrive: two
/// outcome sequences that are reorderings of each other give the same
/// summary.
pub proof fn lemma_summary_order_independent(a: Seq<bool>, b: Seq<bool>)
    requires
        a.to_multiset() == b.to_multiset(),
    ensures
        a.len() == b.len(),
        count_success(a) == count_success(b),
{
    broadcast use vstd::seq_lib::group_to_multiset_ensures;

    lemma_count_is_multiset_count(a);
    lemma_count_is_multiset_count(b);
}

/// Outcomes split into two parts (two workers' shares) sum to the
/// outcomes of the whole.
pub proof fn lemma_count_split(a: Seq<bool>, b: Seq<bool>)
    ensures
        count_success(a + b) == count_success(a) + count_success(b),
    decreases b.len(),
{
    if b.len() == 0 {
        assert(a + b =~= a);
    } else {
        lemma_count_split(a, b.drop_last());
        assert((a + b).drop_last() =~= a + b.drop_last());
    }
}

/// A batch of `K` items of which exactly one failed reports `K` processed
/// and `K - 1` succeeded.
pub proof fn lemma_one_failure(s: Seq<bool>)
    requires
        s.to_multiset().count(false) == 1,
    ensures
        count_success(s) == s.len() - 1,
{
    lemma_count_is_multiset_count(s);
}

} // verus!
