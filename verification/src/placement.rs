//! Where values go in a block: the arithmetic of the bump position.

use crate::layout::is_aligned;
use crate::layout::lemma_padding_is_least;
use crate::layout::padding_needed;
use vstd::prelude::*;

verus! {

/// Where a value of `size` bytes aligned to `align` goes in a block whose free
/// part runs from `first_free` up to `limit`: the address of its first byte
/// and the address behind its last one. `None` when it does not fit.
pub open spec fn placement(first_free: usize, limit: usize, size: nat, align: nat) -> Option<
    (usize, usize),
>
    recommends
        align > 0,
{
    let start = first_free + padding_needed(first_free as int, align as int);
    let end = start + size;
    if end <= limit {
        Some((start as usize, end as usize))
    } else {
        None
    }
}

/// Where `placement` puts a value, the value sits behind what was taken
/// before, at the first address from there that suits its alignment, and
/// ends at or before the limit; and it puts the value somewhere exactly when
/// the padding and the value together reach no further than the limit.
pub proof fn lemma_placement_bounds(first_free: usize, limit: usize, size: nat, align: nat)
    requires
        align > 0,
    ensures
        placement(first_free, limit, size, align) is Some <==> first_free + padding_needed(
            first_free as int,
            align as int,
        ) + size <= limit,
        placement(first_free, limit, size, align) matches Some((start, end)) ==> {
            &&& first_free <= start
            &&& start - first_free < align
            &&& is_aligned(start as int, align as int)
            &&& end == start + size
            &&& end <= limit
        },
{
    lemma_padding_is_least(first_free as int, align as int);
}

/// The address behind the last of a row of values, each given by its size
/// and its alignment, that are placed one after the other from `first_free`
/// on.
pub open spec fn packed_end(first_free: int, requests: Seq<(nat, nat)>) -> int
    decreases requests.len(),
{
    if requests.len() == 0 {
        first_free
    } else {
        let before = packed_end(first_free, requests.drop_last());
        before + padding_needed(before, requests.last().1 as int) + requests.last().0
    }
}

/// The slot of the `i`-th value of such a row: the address of its first byte
/// and the address behind its last one.
pub open spec fn packed_slot(first_free: int, requests: Seq<(nat, nat)>, i: int) -> (int, int)
    recommends
        0 <= i < requests.len(),
{
    let before = packed_end(first_free, requests.take(i));
    let start = before + padding_needed(before, requests[i].1 as int);
    (start, start + requests[i].0)
}

/// The end of a row of values never lies before the end of a shorter row of
/// the same values.
pub proof fn lemma_packed_end_grows(first_free: int, requests: Seq<(nat, nat)>, i: int, j: int)
    requires
        first_free >= 0,
        forall|k: int| 0 <= k < requests.len() ==> (#[trigger] requests[k]).1 > 0,
        0 <= i <= j <= requests.len(),
    ensures
        0 <= first_free <= packed_end(first_free, requests.take(i)) <= packed_end(
            first_free,
            requests.take(j),
        ),
    decreases j,
{
    if j == 0 {
        assert(requests.take(0).len() == 0);
    } else {
        assert(requests.take(j).drop_last() =~= requests.take(j - 1));
        assert(requests.take(j).last() == requests[j - 1]);
        lemma_packed_end_grows(first_free, requests, 0, j - 1);
        let before = packed_end(first_free, requests.take(j - 1));
        lemma_padding_is_least(before, requests[j - 1].1 as int);
        if i < j {
            lemma_packed_end_grows(first_free, requests, i, j - 1);
        }
    }
}

/// Values whose sizes and paddings together fit one arena are all accepted:
/// where a row of values placed one after the other ends at or before the
/// limit, each of them is placed, in its turn, in its slot of the row, and
/// the slot lies inside the block.
pub proof fn lemma_packed_all_fit(
    first_free: usize,
    limit: usize,
    requests: Seq<(nat, nat)>,
    i: int,
)
    requires
        forall|k: int| 0 <= k < requests.len() ==> (#[trigger] requests[k]).1 > 0,
        packed_end(first_free as int, requests) <= limit,
        0 <= i < requests.len(),
    ensures
        first_free <= packed_slot(first_free as int, requests, i).0 <= packed_slot(
            first_free as int,
            requests,
            i,
        ).1 <= limit,
        packed_end(first_free as int, requests.take(i + 1)) == packed_slot(
            first_free as int,
            requests,
            i,
        ).1,
        placement(
            packed_end(first_free as int, requests.take(i)) as usize,
            limit,
            requests[i].0,
            requests[i].1,
        ) == Some(
            (
                packed_slot(first_free as int, requests, i).0 as usize,
                packed_slot(first_free as int, requests, i).1 as usize,
            ),
        ),
{
    let ff = first_free as int;
    lemma_packed_end_grows(ff, requests, i, i + 1);
    lemma_packed_end_grows(ff, requests, i + 1, requests.len() as int);
    assert(requests.take(requests.len() as int) =~= requests);
    assert(requests.take(i + 1).drop_last() =~= requests.take(i));
    assert(requests.take(i + 1).last() == requests[i]);
    lemma_padding_is_least(packed_end(ff, requests.take(i)), requests[i].1 as int);
}

/// The slots of a row of values do not overlap: an earlier value ends at or
/// before the address where a later one starts. So each pointer stays good
/// whatever becomes of the others.
pub proof fn lemma_packed_slots_disjoint(
    first_free: int,
    requests: Seq<(nat, nat)>,
    i: int,
    j: int,
)
    requires
        first_free >= 0,
        forall|k: int| 0 <= k < requests.len() ==> (#[trigger] requests[k]).1 > 0,
        0 <= i < j < requests.len(),
    ensures
        packed_slot(first_free, requests, i).1 <= packed_slot(first_free, requests, j).0,
{
    lemma_packed_end_grows(first_free, requests, i + 1, j);
    assert(requests.take(i + 1).drop_last() =~= requests.take(i));
    assert(requests.take(i + 1).last() == requests[i]);
    lemma_packed_end_grows(first_free, requests, 0, j);
    lemma_padding_is_least(packed_end(first_free, requests.take(j)), requests[j].1 as int);
}

} // verus!
