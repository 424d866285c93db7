use vstd::prelude::*;
use vstd::seq_lib::{commutative_foldr, lemma_fold_right_permutation};

use crate::task::TaskType;

verus! {

// The shared summary every worker contributes to: the exclusive-or of all
// task outputs, and one counter per task kind.  Both merges are commutative
// and associative, so the summary is independent of execution order.

/// A counter one past its top wraps around to zero.
pub open spec fn inc64(c: u64) -> u64 {
    if c == u64::MAX {
        0
    } else {
        (c + 1) as u64
    }
}

pub struct Aggregator {
    pub acc: u64,
    pub hash_count: u64,
    pub derive_count: u64,
    pub random_count: u64,
}

impl Aggregator {
    pub fn new() -> (r: Aggregator)
        ensures
            r.acc == 0,
            r.hash_count == 0,
            r.derive_count == 0,
            r.random_count == 0,
    {
        Aggregator { acc: 0, hash_count: 0, derive_count: 0, random_count: 0 }
    }

    /// Merge one executed task into the summary: its output joins the
    /// accumulator by exclusive-or, and its kind's counter goes up by one.
    pub fn contribute(&mut self, output: u64, kind: TaskType)
        ensures
            final(self).acc == old(self).acc ^ output,
            final(self).hash_count == if kind == TaskType::Hash {
                inc64(old(self).hash_count)
            } else {
                old(self).hash_count
            },
            final(self).derive_count == if kind == TaskType::Derive {
                inc64(old(self).derive_count)
            } else {
                old(self).derive_count
            },
            final(self).random_count == if kind == TaskType::Random {
                inc64(old(self).random_count)
            } else {
                old(self).random_count
            },
    {
        self.acc = self.acc ^ output;
        match kind {
            TaskType::Hash => {
                self.hash_count = if self.hash_count == u64::MAX {
                    0
                } else {
                    self.hash_count + 1
                };
            },
            TaskType::Derive => {
                self.derive_count = if self.derive_count == u64::MAX {
                    0
                } else {
                    self.derive_count + 1
                };
            },
            TaskType::Random => {
                self.random_count = if self.random_count == u64::MAX {
                    0
                } else {
                    self.random_count + 1
                };
            },
        }
    }
}

/// The outputs of a set of executed tasks, reduced by exclusive-or.
pub open spec fn xor_all(outputs: Seq<u64>) -> u64 {
    outputs.fold_right(|x: u64, a: u64| (x ^ a), 0u64)
}

/// Merging is order-independent: reducing the outputs of the executed tasks
/// in any permutation — any interleaving of the workers — yields the same
/// accumulator.
pub proof fn lemma_merge_order_independent(l1: Seq<u64>, l2: Seq<u64>)
    requires
        l1.to_multiset() == l2.to_multiset(),
    ensures
        xor_all(l1) == xor_all(l2),
{
    let f = |x: u64, a: u64| (x ^ a);
    assert forall|x: u64, y: u64, v: u64| #[trigger] f(x, f(y, v)) == f(y, f(x, v)) by {
        assert(x ^ (y ^ v) == y ^ (x ^ v)) by (bit_vector);
    }
    assert(commutative_foldr(f));
    lemma_fold_right_permutation(l1, l2, f, 0u64);
}

} // verus!
