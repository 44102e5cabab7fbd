//! The arithmetic of a count of claims: how it moves when a claim is
//! taken or given up, and when giving one up lets go of what was claimed.

use vstd::prelude::*;

verus! {

/// The count that a new block or a new shared entry starts with: the one
/// claim of whoever made it.
pub const FIRST_CLAIM: u64 = 1;

/// The count after one more claim is taken. A count of zero stands for
/// something already let go and stays zero; a count at the top of its range
/// stays there.
pub open spec fn claim_spec(count: u64) -> u64 {
    if count == 0 || count == u64::MAX {
        count
    } else {
        (count + 1) as u64
    }
}

/// The count after one claim is given up. Zero stays zero.
pub open spec fn release_spec(count: u64) -> u64 {
    if count == 0 {
        0
    } else {
        (count - 1) as u64
    }
}

/// Whether giving up one claim at `count` is the step that lets go of what
/// was claimed: it is the step from one to zero.
pub open spec fn release_frees(count: u64) -> bool {
    count == 1
}

/// Takes one more claim.
pub fn claim(count: u64) -> (next: u64)
    ensures
        next == claim_spec(count),
    opens_invariants none
    no_unwind
{
    if count == 0 || count == u64::MAX {
        count
    } else {
        count + 1
    }
}

/// Gives up one claim. Returns the new count and whether this step lets go
/// of what was claimed.
pub fn release(count: u64) -> (res: (u64, bool))
    ensures
        res.0 == release_spec(count),
        res.1 == release_frees(count),
    opens_invariants none
    no_unwind
{
    if count == 0 {
        (0, false)
    } else {
        (count - 1, count == 1)
    }
}

/// What the drop of one pointer to a shared entry settles, from the entry's
/// own count as it was read and from whether the pointer already holds a
/// claim on the block: the entry's new count, one claim lower, and whether
/// the pointer holds a claim on the block from now on. It does so if it did
/// before, or if it is the pointer that gives up the entry's last claim and
/// with it takes over the entry's claim on the block.
pub fn settle(own: u64, armed: bool) -> (res: (u64, bool))
    ensures
        res.0 == release_spec(own),
        res.1 == (armed || release_frees(own)),
    opens_invariants none
    no_unwind
{
    let (next, frees) = release(own);
    (next, armed || frees)
}

/// One thing that happens to a count: a claim is taken, or one is given up.
pub enum ClaimEvent {
    /// A claim is taken: an allocation is accepted, or a pointer is cloned.
    Take,
    /// A claim is given up: a pointer or the arena itself is dropped.
    GiveUp,
}

/// The count after one event.
pub open spec fn step(count: u64, event: ClaimEvent) -> u64 {
    match event {
        ClaimEvent::Take => claim_spec(count),
        ClaimEvent::GiveUp => release_spec(count),
    }
}

/// Whether one event at `count` lets go of what was claimed.
pub open spec fn step_frees(count: u64, event: ClaimEvent) -> bool {
    event is GiveUp && release_frees(count)
}

/// The count after a run of events, first to last.
pub open spec fn run(count: u64, events: Seq<ClaimEvent>) -> u64
    decreases events.len(),
{
    if events.len() == 0 {
        count
    } else {
        step(run(count, events.drop_last()), events.last())
    }
}

/// The number of events in a run that let go of what was claimed.
pub open spec fn frees_in(count: u64, events: Seq<ClaimEvent>) -> nat
    decreases events.len(),
{
    if events.len() == 0 {
        0
    } else {
        let before = frees_in(count, events.drop_last());
        if step_frees(run(count, events.drop_last()), events.last()) {
            before + 1
        } else {
            before
        }
    }
}

/// The count after `n` claims are taken in a row.
pub open spec fn claims(count: u64, n: nat) -> u64
    decreases n,
{
    if n == 0 {
        count
    } else {
        claim_spec(claims(count, (n - 1) as nat))
    }
}

/// The count after `n` claims are given up in a row.
pub open spec fn releases(count: u64, n: nat) -> u64
    decreases n,
{
    if n == 0 {
        count
    } else {
        release_spec(releases(count, (n - 1) as nat))
    }
}

/// Giving up a claim lets go of what was claimed exactly when it brings a
/// count that was not zero to zero.
pub proof fn lemma_frees_exactly_at_zero(count: u64)
    ensures
        release_frees(count) <==> count > 0 && release_spec(count) == 0,
{
}

/// A count that has reached zero stays zero, whatever happens to it, and
/// nothing is let go from there.
pub proof fn lemma_zero_is_final(events: Seq<ClaimEvent>)
    ensures
        run(0, events) == 0,
        frees_in(0, events) == 0,
    decreases events.len(),
{
    if events.len() > 0 {
        lemma_zero_is_final(events.drop_last());
    }
}

/// What is claimed is let go exactly once, and exactly when the count
/// reaches zero: in any run of events from a count that is not zero, at most
/// one event lets go, and one does if and only if the run ends at zero.
pub proof fn lemma_freed_exactly_once(count: u64, events: Seq<ClaimEvent>)
    requires
        count > 0,
    ensures
        frees_in(count, events) <= 1,
        frees_in(count, events) == 1 <==> run(count, events) == 0,
    decreases events.len(),
{
    if events.len() > 0 {
        lemma_freed_exactly_once(count, events.drop_last());
    }
}

/// Taking `n` claims raises the count by `n`, as long as the count stays
/// inside its range.
pub proof fn lemma_claims_add(count: u64, n: nat)
    requires
        count > 0,
        count + n <= u64::MAX,
    ensures
        claims(count, n) == count + n,
    decreases n,
{
    if n > 0 {
        lemma_claims_add(count, (n - 1) as nat);
    }
}

/// Giving up `n` claims lowers the count by `n`, and not below zero.
pub proof fn lemma_releases_subtract(count: u64, n: nat)
    ensures
        releases(count, n) == if n <= count {
            count - n
        } else {
            0
        },
    decreases n,
{
    if n > 0 {
        lemma_releases_subtract(count, (n - 1) as nat);
    }
}

/// With `n` pointers to one object, made by `n - 1` clones of the first, the
/// object is let go by the drop of the last pointer and by no other: after
/// `k` drops, the next drop lets go exactly when it is the `n`-th. Drops are
/// all alike, so the order in which the pointers go plays no part.
pub proof fn lemma_last_of_n_frees(n: u64, k: nat)
    requires
        n >= 1,
    ensures
        claims(FIRST_CLAIM, (n - 1) as nat) == n,
        release_frees(releases(n, k)) <==> k + 1 == n,
        k < n ==> releases(n, k) > 0,
        releases(n, n as nat) == 0,
{
    lemma_claims_add(FIRST_CLAIM, (n - 1) as nat);
    lemma_releases_subtract(n, k);
    lemma_releases_subtract(n, n as nat);
}

/// The number of holders that a run of events leaves of `start` holders:
/// one more for each claim taken, one fewer for each given up. The holders
/// of a block are its arena while it lives, each live owning pointer, each
/// live pointer to a bare shared object, and each shared entry to which a
/// pointer is left.
pub open spec fn holders(start: int, events: Seq<ClaimEvent>) -> int
    decreases events.len(),
{
    if events.len() == 0 {
        start
    } else {
        holders(start, events.drop_last()) + if events.last() is Take {
            1int
        } else {
            -1int
        }
    }
}

/// Whether a run of events is one that holders can make: before each event
/// there is a holder to make it, and the holders are fewer than a count can
/// number.
pub open spec fn made_by_holders(start: int, events: Seq<ClaimEvent>) -> bool {
    forall|i: int|
        0 <= i < events.len() ==> 1 <= holders(start, #[trigger] events.take(i)) < u64::MAX
}

/// The count is the number of holders: in a run that holders can make, from
/// a count that numbers them, the count after the run is the number of
/// holders that are left; no claim is given up at a count of zero; and what
/// is claimed has been let go exactly when no holder is left.
pub proof fn lemma_count_is_holders(count: u64, events: Seq<ClaimEvent>)
    requires
        count >= 1,
        made_by_holders(count as int, events),
    ensures
        run(count, events) == holders(count as int, events),
        forall|i: int|
            0 <= i < events.len() ==> run(count, #[trigger] events.take(i)) >= 1,
        frees_in(count, events) == 1 <==> holders(count as int, events) == 0,
    decreases events.len(),
{
    lemma_freed_exactly_once(count, events);
    if events.len() > 0 {
        let shorter = events.drop_last();
        assert(events.take(events.len() - 1) =~= shorter);
        assert forall|i: int| 0 <= i < shorter.len() implies 1 <= holders(
            count as int,
            #[trigger] shorter.take(i),
        ) < u64::MAX by {
            assert(shorter.take(i) =~= events.take(i));
        }
        lemma_count_is_holders(count, shorter);
        assert forall|i: int| 0 <= i < events.len() implies run(
            count,
            #[trigger] events.take(i),
        ) >= 1 by {
            if i < shorter.len() {
                assert(shorter.take(i) =~= events.take(i));
            }
        }
    }
}

/// The events of one block among the events of many, each given with the
/// block it happens to, in their order.
pub open spec fn events_of(events: Seq<(nat, ClaimEvent)>, block: nat) -> Seq<ClaimEvent>
    decreases events.len(),
{
    if events.len() == 0 {
        Seq::empty()
    } else if events.last().0 == block {
        events_of(events.drop_last(), block).push(events.last().1)
    } else {
        events_of(events.drop_last(), block)
    }
}

/// The counts of many blocks after a run of events, each event changing the
/// count of its own block.
pub open spec fn run_all(counts: Map<nat, u64>, events: Seq<(nat, ClaimEvent)>) -> Map<nat, u64>
    decreases events.len(),
{
    if events.len() == 0 {
        counts
    } else {
        let before = run_all(counts, events.drop_last());
        let (block, event) = events.last();
        before.insert(block, step(before[block], event))
    }
}

/// Blocks are apart: whatever happens to other blocks, the count of a block
/// is what its own events make of it. So each block is let go exactly when
/// its own count reaches zero, while older and newer blocks live on or go
/// by their own counts.
pub proof fn lemma_blocks_are_apart(
    counts: Map<nat, u64>,
    events: Seq<(nat, ClaimEvent)>,
    block: nat,
)
    ensures
        run_all(counts, events)[block] == run(counts[block], events_of(events, block)),
    decreases events.len(),
{
    if events.len() > 0 {
        lemma_blocks_are_apart(counts, events.drop_last(), block);
        if events.last().0 == block {
            let own = events_of(events.drop_last(), block);
            assert(own.push(events.last().1).drop_last() =~= own);
        }
    }
}

} // verus!
