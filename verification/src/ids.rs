//! Session identifiers and the process-wide generator that issues them.

use vstd::prelude::*;

verus! {

/// Identifier for a connected client session.
///
/// Identifiers come from a strictly increasing counter, so no two sessions
/// of one process carry the same identifier until the counter wraps its
/// 64-bit range.
#[derive(Clone, Copy, Debug, PartialEq, Eq, PartialOrd, Ord, Hash, Structural)]
pub struct ClientId(pub u64);

/// Issues session identifiers from a strictly increasing counter.
///
/// The caller shares one generator process-wide; callers that drive it from
/// several tasks serialize their calls, as they serialize everything else a
/// session owns.
pub struct ClientIdGenerator {
    next_id: u64,
}

/// One step of the generator's counter: up by one, wrapping at the end of
/// the 64-bit range.
pub open spec fn spec_next_counter(c: u64) -> u64 {
    if c == u64::MAX {
        0
    } else {
        (c + 1) as u64
    }
}

impl ClientIdGenerator {
    /// The value the next issued identifier will carry.
    pub closed spec fn counter(self) -> u64 {
        self.next_id
    }

    /// A fresh generator, counting from zero.
    pub fn new() -> (g: Self)
        ensures
            g.counter() == 0,
    {
        ClientIdGenerator { next_id: 0 }
    }

    /// Issues the next identifier: returns the counter and advances it one
    /// step.
    pub fn next(&mut self) -> (id: ClientId)
        ensures
            id.0 == old(self).counter(),
            final(self).counter() == spec_next_counter(old(self).counter()),
    {
        let id = ClientId(self.next_id);
        self.next_id = if self.next_id == u64::MAX {
            0
        } else {
            self.next_id + 1
        };
        id
    }
}

/// Along a run of the generator that stays within the counter's range, the
/// `k`-th counter value is the first plus `k`.
proof fn lemma_run_is_linear(counters: Seq<u64>, k: int)
    requires
        counters.len() > 0,
        counters[0] + counters.len() - 1 <= u64::MAX,
        forall|m: int| 0 <= m < counters.len() - 1 ==> counters[m + 1] == spec_next_counter(counters[m]),
        0 <= k < counters.len(),
    ensures
        counters[k] == counters[0] + k,
    decreases k,
{
    if k > 0 {
        lemma_run_is_linear(counters, k - 1);
        assert(counters[(k - 1) + 1] == spec_next_counter(counters[k - 1]));
    }
}

/// Law: sequential calls issue pairwise distinct, strictly increasing
/// identifiers while the counter does not exhaust its range. `counters` is
/// the trace of the generator's counter over any run — each call to `next`
/// returns the current entry and steps to the following one — so the `i`-th
/// call's identifier is below the `j`-th call's whenever `i < j`.
pub proof fn lemma_sequential_ids_distinct(counters: Seq<u64>, i: int, j: int)
    requires
        counters.len() > 0,
        counters[0] + counters.len() - 1 <= u64::MAX,
        forall|m: int| 0 <= m < counters.len() - 1 ==> counters[m + 1] == spec_next_counter(counters[m]),
        0 <= i < j < counters.len(),
    ensures
        counters[i] < counters[j],
        counters[i] != counters[j],
{
    lemma_run_is_linear(counters, i);
    lemma_run_is_linear(counters, j);
}

} // verus!
