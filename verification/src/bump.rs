//! One arena and the handles into it.

use crate::layout::inner_layout_spec;
use crate::layout::is_aligned;
use crate::layout::lemma_block_fits_address_space;
use crate::layout::lemma_header_layout_ok;
use crate::layout::lemma_padding_is_least;
use crate::layout::padding_for;
use crate::layout::BlockLayout;
use crate::layout::LayoutError;
use crate::layout::METADATA_ALIGN;
use crate::layout::METADATA_SIZE;
use crate::ledger;
use crate::placement::lemma_placement_bounds;
use crate::placement::placement;
use std::cell::Cell;
use std::ops::Deref;
use std::ops::DerefMut;
use std::rc::Rc;
use vstd::layout::layout_for_type_is_valid;
use vstd::prelude::*;

verus! {

/// `std::cell::Cell`: a place whose content can be read and replaced behind
/// a shared reference. It is carried as it is; nothing is stated of what it
/// holds.
#[verifier::external_type_specification]
#[verifier::external_body]
#[verifier::reject_recursive_types(T)]
pub struct ExCell<T: ?Sized>(Cell<T>);

/// `Cell::new`: makes a cell that holds `value`. Nothing is stated of the
/// cell, since what a cell holds can change behind a shared reference.
#[verifier::external_body]
fn new_count(value: u64) -> (cell: Cell<u64>) {
    Cell::new(value)
}

/// `Cell::get`: copies out what the cell holds at this moment. Nothing is
/// stated of the value; the call is taken not to panic, a copy of an integer
/// being all it does.
#[verifier::external_body]
fn read_count(cell: &Cell<u64>) -> (value: u64)
    opens_invariants none
    no_unwind
{
    cell.get()
}

/// `Cell::set`: puts `value` into the cell. It returns nothing, and nothing
/// is stated of the cell; the call is taken not to panic, the integer it
/// replaces having no drop to run.
#[verifier::external_body]
fn write_count(cell: &Cell<u64>, value: u64)
    opens_invariants none
    no_unwind
{
    cell.set(value)
}

/// `std::mem::needs_drop`: whether dropping a `T` may do more than hand its
/// memory back. Nothing is stated of the answer.
pub assume_specification<T: ?Sized>[ core::mem::needs_drop::<T> ]() -> (answer: bool)
;

/// The size in bytes of the block of an arena of `capacity` bytes aligned to
/// `align`, header included.
pub open spec fn block_size_spec(capacity: usize, align: usize) -> int
    recommends
        inner_layout_spec(capacity, align) is Some,
{
    inner_layout_spec(capacity, align).unwrap().0
}

/// The alignment of that block: the larger of `align` and the header's.
pub open spec fn block_align_spec(capacity: usize, align: usize) -> int
    recommends
        inner_layout_spec(capacity, align) is Some,
{
    inner_layout_spec(capacity, align).unwrap().1
}

/// The address at which that block starts: the lowest one that its alignment
/// allows, which is the alignment itself. The block is thus aligned as asked
/// and no further.
pub open spec fn block_start_spec(capacity: usize, align: usize) -> int
    recommends
        inner_layout_spec(capacity, align) is Some,
{
    block_align_spec(capacity, align)
}

/// The address of the header of that block, where its data region ends.
pub open spec fn block_limit_spec(capacity: usize, align: usize) -> int
    recommends
        inner_layout_spec(capacity, align) is Some,
{
    block_start_spec(capacity, align) + inner_layout_spec(capacity, align).unwrap().2
}

/// A shared object in the layout that keeps its own count: the number of
/// pointers to the object, then the object.
pub struct BumpRcEntry<T> {
    count: Cell<u64>,
    value: T,
}

/// The size of the slot of a shared `T`: that of the entry with its own
/// count where `wrapped`, else that of `T` alone.
pub open spec fn rc_slot_size<T>(wrapped: bool) -> nat {
    if wrapped {
        vstd::layout::size_of::<BumpRcEntry<T>>()
    } else {
        vstd::layout::size_of::<T>()
    }
}

/// The alignment of the slot of a shared `T`.
pub open spec fn rc_slot_align<T>(wrapped: bool) -> nat {
    if wrapped {
        vstd::layout::align_of::<BumpRcEntry<T>>()
    } else {
        vstd::layout::align_of::<T>()
    }
}

/// The header of a block: the count of outstanding claims on it, where the
/// block starts, and the layout it was made with.
struct Metadata {
    count: Cell<u64>,
    beg: usize,
    layout: BlockLayout,
}

impl Metadata {
    /// Takes one more claim on the block.
    fn increment(&self)
        opens_invariants none
        no_unwind
    {
        write_count(&self.count, ledger::claim(read_count(&self.count)));
    }

    /// Gives up one claim on the block. The step that brings the count to
    /// zero is the one that lets the block go; from then on the count stays
    /// zero.
    fn decrement_and_drop(&self)
        opens_invariants none
        no_unwind
    {
        write_count(&self.count, ledger::release(read_count(&self.count)).0);
    }
}

/// A hold on a block's header that gives up one claim when it goes, if it is
/// armed.
struct Claim {
    metadata: Rc<Metadata>,
    armed: bool,
}

impl Drop for Claim {
    /// Gives up the claim on the block, if this hold has one. The hold itself
    /// is as it was: what changes is the count in the block's header.
    fn drop(&mut self)
        ensures
            *final(self) == *old(self),
        opens_invariants none
        no_unwind
    {
        if self.armed {
            self.metadata.decrement_and_drop();
        }
    }
}

/// A look at a block's header that is no claim on the block. A count of zero
/// says that the block has been let go.
pub struct BlockWatch {
    metadata: Rc<Metadata>,
}

impl BlockWatch {
    /// The address of the block's first byte.
    pub closed spec fn spec_start(&self) -> usize {
        self.metadata.beg
    }

    /// The layout that the block was made with.
    pub closed spec fn spec_layout(&self) -> BlockLayout {
        self.metadata.layout
    }

    /// The address of the block's first byte.
    #[verifier::when_used_as_spec(spec_start)]
    pub fn start(&self) -> (a: usize)
        ensures
            a == self.spec_start(),
    {
        self.metadata.beg
    }

    /// The layout that the block was made with.
    #[verifier::when_used_as_spec(spec_layout)]
    pub fn layout(&self) -> (l: BlockLayout)
        ensures
            l == self.spec_layout(),
    {
        self.metadata.layout
    }

    /// The number of outstanding claims on the block at this moment.
    pub fn count(&self) -> u64 {
        read_count(&self.metadata.count)
    }
}

/// What a bump is to its callers: what it was made with, where its block
/// lies, and how far it is taken.
pub struct BumpView {
    /// The capacity in bytes that the bump was made with.
    pub capacity: usize,
    /// The alignment that the bump was made with.
    pub align: usize,
    /// The address of the block's first byte.
    pub start: usize,
    /// The address of the block's header, which no allocation may pass.
    pub limit: usize,
    /// The address of the first byte that no allocation has taken.
    pub first_free: usize,
}

/// Where a `T` goes in a block whose free part runs from `first_free` up to
/// `limit`, if it fits.
fn fit_from<T>(first_free: usize, limit: usize) -> (res: Option<(usize, usize)>)
    ensures
        res == placement(
            first_free,
            limit,
            vstd::layout::size_of::<T>(),
            vstd::layout::align_of::<T>(),
        ),
{
    layout_for_type_is_valid::<T>();
    let pad: usize = padding_for(first_free, core::mem::align_of::<T>());
    let tentative_start: usize = match first_free.checked_add(pad) {
        Some(a) => a,
        None => {
            return None;
        },
    };
    let tentative_end: usize = match tentative_start.checked_add(core::mem::size_of::<T>()) {
        Some(a) => a,
        None => {
            return None;
        },
    };
    if tentative_end <= limit {
        Some((tentative_start, tentative_end))
    } else {
        None
    }
}

/// A zone of memory to allocate into.
pub struct Bump {
    claim: Claim,
    capacity: usize,
    align: usize,
    limit: usize,
    first_free: usize,
}

/// What an accepted allocation leaves behind before it becomes a handle.
struct RawBumpMember<T> {
    metadata: Rc<Metadata>,
    addr: usize,
    value: T,
}

impl View for Bump {
    type V = BumpView;

    closed spec fn view(&self) -> BumpView {
        BumpView {
            capacity: self.capacity,
            align: self.align,
            start: self.claim.metadata.beg,
            limit: self.limit,
            first_free: self.first_free,
        }
    }
}

impl Bump {
    #[verifier::type_invariant]
    spec fn well_formed(&self) -> bool {
        &&& self.claim.armed
        &&& self.capacity > 0
        &&& inner_layout_spec(self.capacity, self.align) is Some
        &&& self.claim.metadata.beg == block_start_spec(self.capacity, self.align)
        &&& self.claim.metadata.layout.spec_size() == block_size_spec(self.capacity, self.align)
        &&& self.claim.metadata.layout.spec_align() == block_align_spec(self.capacity, self.align)
        &&& self.limit == block_limit_spec(self.capacity, self.align)
        &&& self.claim.metadata.beg <= self.first_free <= self.limit
    }

    /// The capacity in bytes that the bump was made with.
    pub open spec fn spec_capacity(&self) -> usize {
        self@.capacity
    }

    /// The alignment that the bump was made with.
    pub open spec fn spec_align(&self) -> usize {
        self@.align
    }

    /// The capacity in bytes that the bump was made with.
    #[verifier::when_used_as_spec(spec_capacity)]
    pub fn capacity(&self) -> (c: usize)
        ensures
            c == self.spec_capacity(),
            c > 0,
            inner_layout_spec(c, self.spec_align()) is Some,
            self.start() == block_start_spec(c, self.spec_align()),
            self.limit() == block_limit_spec(c, self.spec_align()),
            self.start() <= self.first_free() <= self.limit(),
    {
        proof {
            use_type_invariant(self);
        }
        self.capacity
    }

    /// The alignment that the bump was made with.
    #[verifier::when_used_as_spec(spec_align)]
    pub fn align(&self) -> (a: usize)
        ensures
            a == self.spec_align(),
    {
        self.align
    }

    /// The address of the block's first byte.
    pub open spec fn start(&self) -> usize {
        self@.start
    }

    /// The address of the first byte that no allocation has taken.
    pub open spec fn first_free(&self) -> usize {
        self@.first_free
    }

    /// The address of the block's header, which no allocation may pass.
    pub open spec fn limit(&self) -> usize {
        self@.limit
    }

    /// What an attempt to place `value` as an owned object leaves: `self` is
    /// the bump before it, `after` the bump behind it, `res` what the caller
    /// gets. Nothing of the bump changes but where its free part starts, and
    /// `owned_result` says the rest.
    pub open spec fn alloc_outcome<T>(
        self,
        after: Bump,
        res: Result<BumpMember<T>, T>,
        value: T,
    ) -> bool {
        &&& after@ == (BumpView { first_free: after.first_free(), ..self@ })
        &&& owned_result(res, value, self.first_free(), self.limit(), after.first_free())
    }

    /// What an attempt to place `value` as a shared object leaves, in the
    /// layout that `wrapped` chooses.
    pub open spec fn alloc_rc_outcome<T>(
        self,
        after: Bump,
        res: Result<RcBumpMember<T>, T>,
        value: T,
        wrapped: bool,
    ) -> bool {
        &&& after@ == (BumpView { first_free: after.first_free(), ..self@ })
        &&& shared_result(res, value, wrapped, self.first_free(), self.limit(), after.first_free())
    }

    /// The layout of the block that backs an arena of `capacity` bytes whose
    /// data is aligned to `align`, with the offset of the header in it.
    pub fn inner_layout(capacity: usize, align: usize) -> (res: Result<
        (BlockLayout, usize),
        LayoutError,
    >)
        ensures
            match inner_layout_spec(capacity, align) {
                Some((total, joint, offset)) => res matches Ok((l, o)) && l.spec_size() == total
                    && l.spec_align() == joint && o == offset,
                None => res is Err,
            },
    {
        let data = match BlockLayout::from_size_align(capacity, align) {
            Ok(l) => l,
            Err(e) => {
                return Err(e);
            },
        };
        proof {
            lemma_header_layout_ok();
        }
        let header = match BlockLayout::from_size_align(METADATA_SIZE, METADATA_ALIGN) {
            Ok(l) => l,
            Err(e) => {
                return Err(e);
            },
        };
        data.extend(header)
    }

    /// Create a new Bump.
    ///
    /// `capacity` is the capacity in bytes of the bump, `align` an indicative
    /// alignment for its first object. The bump starts empty, with its own
    /// claim on its block as the only one.
    pub fn new(capacity: usize, align: usize) -> (bump: Bump)
        requires
            capacity > 0,
            inner_layout_spec(capacity, align) is Some,
        ensures
            bump@ == (BumpView {
                capacity,
                align,
                start: block_start_spec(capacity, align) as usize,
                limit: block_limit_spec(capacity, align) as usize,
                first_free: block_start_spec(capacity, align) as usize,
            }),
            0 < block_start_spec(capacity, align),
            block_start_spec(capacity, align) + capacity <= block_limit_spec(capacity, align)
                <= usize::MAX,
    {
        let (layout, metadata_offset) = match Self::inner_layout(capacity, align) {
            Ok(pair) => pair,
            Err(_) => vstd::pervasive::unreached(),
        };
        proof {
            lemma_block_fits_address_space(layout.spec_size() as int, layout.spec_align() as int);
            lemma_padding_is_least(capacity as int, METADATA_ALIGN as int);
        }
        let beg: usize = layout.align();
        let limit: usize = beg + metadata_offset;
        let metadata = Metadata { count: new_count(ledger::FIRST_CLAIM), beg, layout };
        Bump {
            claim: Claim { metadata: Rc::new(metadata), armed: true },
            capacity,
            align,
            limit,
            first_free: beg,
        }
    }

    /// A look at the header of this arena's block.
    pub fn watch(&self) -> (w: BlockWatch)
        ensures
            w.spec_start() == self.start(),
            w.spec_layout().spec_size() == block_size_spec(self.spec_capacity(), self.spec_align()),
            w.spec_layout().spec_align() == block_align_spec(
                self.spec_capacity(),
                self.spec_align(),
            ),
    {
        proof {
            use_type_invariant(self);
        }
        BlockWatch { metadata: Rc::clone(&self.claim.metadata) }
    }

    /// Where a `T` would go: the address of its first byte and the address
    /// behind its last one, both inside the block.
    fn can_fit<T>(&self) -> (res: Option<(usize, usize)>)
        ensures
            res == placement(
                self.first_free(),
                self.limit(),
                vstd::layout::size_of::<T>(),
                vstd::layout::align_of::<T>(),
            ),
    {
        fit_from::<T>(self.first_free, self.limit)
    }

    /// Whether an `S` fits this bump's block while the block holds nothing.
    pub(crate) fn has_room_when_empty<S>(&self) -> (ok: bool)
        ensures
            ok == (placement(
                self.start(),
                self.limit(),
                vstd::layout::size_of::<S>(),
                vstd::layout::align_of::<S>(),
            ) is Some),
    {
        fit_from::<S>(self.claim.metadata.beg, self.limit).is_some()
    }

    /// Places `value` where it fits: takes one more claim on the block for
    /// it and moves the free part behind it. Where it does not fit, hands it
    /// back and changes nothing.
    fn try_alloc_inner<T>(&mut self, value: T) -> (res: Result<RawBumpMember<T>, T>)
        ensures
            final(self)@ == (BumpView { first_free: final(self).first_free(), ..old(self)@ }),
            match placement(
                old(self).first_free(),
                old(self).limit(),
                vstd::layout::size_of::<T>(),
                vstd::layout::align_of::<T>(),
            ) {
                Some((start, end)) => res matches Ok(raw) && raw.value == value && raw.addr
                    == start && final(self).first_free() == end,
                None => res == Err::<RawBumpMember<T>, T>(value) && final(self).first_free() == old(
                    self,
                ).first_free(),
            },
    {
        proof {
            use_type_invariant(&*self);
        }
        let (start, end): (usize, usize) = match self.can_fit::<T>() {
            Some(res) => res,
            None => {
                return Err(value);
            },
        };
        self.claim.metadata.increment();
        self.first_free = end;
        Ok(RawBumpMember { metadata: Rc::clone(&self.claim.metadata), addr: start, value })
    }

    /// Try to allocate an object in the bump.
    ///
    /// Fails if there is not enough memory left, and then hands the object
    /// back and leaves the bump as it was.
    pub fn try_alloc<T>(&mut self, value: T) -> (res: Result<BumpMember<T>, T>)
        ensures
            old(self).alloc_outcome(*final(self), res, value),
    {
        match self.try_alloc_inner(value) {
            Ok(raw) => Ok(
                BumpMember {
                    value: raw.value,
                    addr: raw.addr,
                    claim: Claim { metadata: raw.metadata, armed: true },
                },
            ),
            Err(value) => Err(value),
        }
    }
}

/// A pointer to a [`Bump`] owning the underlying object, like a `Box`.
///
/// The object is dropped when the pointer is dropped, and only then does the
/// pointer give up its claim on the block.
pub struct BumpMember<T> {
    value: T,
    addr: usize,
    claim: Claim,
}

impl<T> View for BumpMember<T> {
    type V = T;

    closed spec fn view(&self) -> T {
        self.value
    }
}

impl<T> BumpMember<T> {
    /// The address of the object's first byte in its block.
    pub closed spec fn spec_addr(&self) -> usize {
        self.addr
    }

    /// The address of the object's first byte in its block.
    #[verifier::when_used_as_spec(spec_addr)]
    pub fn addr(&self) -> (a: usize)
        ensures
            a == self.spec_addr(),
    {
        self.addr
    }

    /// Whether the drop of this pointer gives up a claim on the block.
    pub closed spec fn holds_claim(&self) -> bool {
        self.claim.armed
    }
}

impl<T> Deref for BumpMember<T> {
    type Target = T;

    fn deref(&self) -> (r: &T)
        ensures
            *r == self@,
    {
        &self.value
    }
}

impl<T> DerefMut for BumpMember<T> {
    fn deref_mut(&mut self) -> (r: &mut T)
        ensures
            *r == old(self)@,
            final(self)@ == *final(r),
            final(self).spec_addr() == old(self).spec_addr(),
            final(self).holds_claim() == old(self).holds_claim(),
    {
        &mut self.value
    }
}

/// What comes of placing `value` as an owned object in a block whose free
/// part runs from `first_free` to `limit`. Where the object fits, `res` is a
/// pointer to it at the address that `placement` gives, with a claim of its
/// own on the block, and the free part then starts at `next_free`, behind the
/// object. Where it does not, `res` hands the object back and `next_free` is
/// `first_free`.
pub open spec fn owned_result<T>(
    res: Result<BumpMember<T>, T>,
    value: T,
    first_free: usize,
    limit: usize,
    next_free: usize,
) -> bool {
    match placement(
        first_free,
        limit,
        vstd::layout::size_of::<T>(),
        vstd::layout::align_of::<T>(),
    ) {
        Some((start, end)) => res matches Ok(member) && member@ == value && member.spec_addr()
            == start && member.holds_claim() && next_free == end,
        None => res == Err::<BumpMember<T>, T>(value) && next_free == first_free,
    }
}

/// What comes of placing `value` as a shared object, in the layout that
/// `wrapped` chooses: as `owned_result`, with the slot of that layout. A
/// pointer to a bare object has a claim of its own on the block; a pointer to
/// an entry has none, the one claim of the entry being given up by whichever
/// pointer goes last.
pub open spec fn shared_result<T>(
    res: Result<RcBumpMember<T>, T>,
    value: T,
    wrapped: bool,
    first_free: usize,
    limit: usize,
    next_free: usize,
) -> bool {
    match placement(first_free, limit, rc_slot_size::<T>(wrapped), rc_slot_align::<T>(wrapped)) {
        Some((start, end)) => res matches Ok(member) && member@ == value && member.spec_addr()
            == start && member.spec_is_wrapped() == wrapped && member.holds_claim() == !wrapped
            && next_free == end,
        None => res == Err::<RcBumpMember<T>, T>(value) && next_free == first_free,
    }
}

/// An allocation never moves the free part back and never reaches past the
/// header: the free part starts where it did or further on, and an accepted
/// object lies, aligned, between the old start of the free part and the new
/// one.
pub proof fn lemma_alloc_stays_inside<T>(
    before: Bump,
    after: Bump,
    res: Result<BumpMember<T>, T>,
    value: T,
)
    requires
        before.first_free() <= before.limit(),
        before.alloc_outcome(after, res, value),
    ensures
        before.first_free() <= after.first_free() <= after.limit() == before.limit(),
        res matches Ok(member) ==> {
            &&& before.first_free() <= member.spec_addr()
            &&& is_aligned(member.spec_addr() as int, vstd::layout::align_of::<T>() as int)
            &&& member.spec_addr() + vstd::layout::size_of::<T>() == after.first_free()
        },
        res is Err ==> after@ == before@,
{
    broadcast use vstd::layout::align_nonzero;

    lemma_placement_bounds(
        before.first_free(),
        before.limit(),
        vstd::layout::size_of::<T>(),
        vstd::layout::align_of::<T>(),
    );
}

/// The same of a shared object, with the slot of its layout.
pub proof fn lemma_alloc_rc_stays_inside<T>(
    before: Bump,
    after: Bump,
    res: Result<RcBumpMember<T>, T>,
    value: T,
    wrapped: bool,
)
    requires
        before.first_free() <= before.limit(),
        before.alloc_rc_outcome(after, res, value, wrapped),
    ensures
        before.first_free() <= after.first_free() <= after.limit() == before.limit(),
        res matches Ok(member) ==> {
            &&& before.first_free() <= member.spec_addr()
            &&& is_aligned(member.spec_addr() as int, rc_slot_align::<T>(wrapped) as int)
            &&& member.spec_addr() + rc_slot_size::<T>(wrapped) == after.first_free()
        },
        res is Err ==> after@ == before@,
{
    broadcast use vstd::layout::align_nonzero;

    lemma_placement_bounds(
        before.first_free(),
        before.limit(),
        rc_slot_size::<T>(wrapped),
        rc_slot_align::<T>(wrapped),
    );
}

/// The two layouts of a shared object: an entry with a count of its own for
/// a type whose drop does work, the bare object for any other.
enum NeedsDrop<T> {
    Yes(Rc<BumpRcEntry<T>>),
    No(Rc<T>),
}

impl<T> NeedsDrop<T> {
    spec fn value(&self) -> T {
        match self {
            NeedsDrop::Yes(entry) => entry.value,
            NeedsDrop::No(value) => **value,
        }
    }
}

/// A pointer to a [`Bump`] offering shared ownership of the pointed object,
/// similar to [`std::rc::Rc`].
///
/// The object is dropped once all pointers are dropped. For a type whose
/// drop does no work, the pointers are counted by the block's own count.
pub struct RcBumpMember<T> {
    rc_data: NeedsDrop<T>,
    addr: usize,
    claim: Claim,
}

impl<T> View for RcBumpMember<T> {
    type V = T;

    closed spec fn view(&self) -> T {
        self.rc_data.value()
    }
}

impl<T> RcBumpMember<T> {
    /// The address of the first byte of the object's slot in its block.
    pub closed spec fn spec_addr(&self) -> usize {
        self.addr
    }

    /// Whether the object sits in an entry with a count of its own.
    pub closed spec fn spec_is_wrapped(&self) -> bool {
        self.rc_data is Yes
    }

    /// Whether the drop of this pointer gives up a claim on the block.
    pub closed spec fn holds_claim(&self) -> bool {
        self.claim.armed
    }

    /// The object in its layout.
    fn rc_data(&self) -> (data: &NeedsDrop<T>)
        ensures
            data.value() == self@,
            data is Yes <==> self.spec_is_wrapped(),
    {
        &self.rc_data
    }

    /// The address of the first byte of the object's slot in its block.
    #[verifier::when_used_as_spec(spec_addr)]
    pub fn addr(&self) -> (a: usize)
        ensures
            a == self.spec_addr(),
    {
        self.addr
    }

    /// Whether the object sits in an entry with a count of its own.
    #[verifier::when_used_as_spec(spec_is_wrapped)]
    pub fn is_wrapped(&self) -> (w: bool)
        ensures
            w == self.spec_is_wrapped(),
    {
        match self.rc_data() {
            NeedsDrop::Yes(_) => true,
            NeedsDrop::No(_) => false,
        }
    }

    /// The number of pointers to the object at this moment, where the object
    /// keeps a count of its own.
    pub fn own_count(&self) -> (count: Option<u64>)
        ensures
            count is Some <==> self.spec_is_wrapped(),
    {
        match self.rc_data() {
            NeedsDrop::Yes(entry) => Some(read_count(&entry.count)),
            NeedsDrop::No(_) => None,
        }
    }
}

impl Bump {
    /// Try to allocate an object with shared ownership in the bump, in the
    /// layout that `wrapped` chooses: an entry with a count of its own, or
    /// the bare object counted by the block's count.
    ///
    /// Fails if there is not enough memory left, and then hands the object
    /// back and leaves the bump as it was.
    pub fn try_alloc_rc_with<T>(&mut self, value: T, wrapped: bool) -> (res: Result<
        RcBumpMember<T>,
        T,
    >)
        ensures
            old(self).alloc_rc_outcome(*final(self), res, value, wrapped),
    {
        if wrapped {
            let entry = BumpRcEntry { count: new_count(ledger::FIRST_CLAIM), value };
            match self.try_alloc_inner(entry) {
                Ok(raw) => Ok(
                    RcBumpMember {
                        rc_data: NeedsDrop::Yes(Rc::new(raw.value)),
                        addr: raw.addr,
                        claim: Claim { metadata: raw.metadata, armed: false },
                    },
                ),
                Err(entry) => Err(entry.value),
            }
        } else {
            match self.try_alloc_inner(value) {
                Ok(raw) => Ok(
                    RcBumpMember {
                        rc_data: NeedsDrop::No(Rc::new(raw.value)),
                        addr: raw.addr,
                        claim: Claim { metadata: raw.metadata, armed: true },
                    },
                ),
                Err(value) => Err(value),
            }
        }
    }

    /// Try to allocate a object with shared ownership in the bump.
    ///
    /// The layout is the one with a count of its own exactly when dropping a
    /// `T` does work. Fails if there is not enough memory left.
    pub fn try_alloc_rc<T>(&mut self, value: T) -> (res: Result<RcBumpMember<T>, T>)
        ensures
            old(self).alloc_rc_outcome(*final(self), res, value, true) || old(
                self,
            ).alloc_rc_outcome(*final(self), res, value, false),
    {
        self.try_alloc_rc_with(value, core::mem::needs_drop::<T>())
    }
}

impl<T> Deref for RcBumpMember<T> {
    type Target = T;

    fn deref(&self) -> (r: &T)
        ensures
            *r == self@,
    {
        match self.rc_data() {
            NeedsDrop::Yes(entry) => &entry.value,
            NeedsDrop::No(value) => value,
        }
    }
}

impl<T> Drop for RcBumpMember<T> {
    /// A pointer to an entry gives up one claim on the entry, and the pointer
    /// that gives up the last one takes over the entry's claim on the block.
    /// The entry, and with it the object, goes when the pointer's fields go,
    /// before the claim on the block is given up. A pointer to a bare object
    /// has nothing to do here: its own claim on the block goes with it.
    ///
    /// The pointer still reads as the same object at the same address in the
    /// same layout. A claim on the block that it holds it keeps, and a
    /// pointer to a bare object neither gains nor loses one.
    fn drop(&mut self)
        ensures
            final(self)@ == old(self)@,
            final(self).spec_addr() == old(self).spec_addr(),
            final(self).spec_is_wrapped() == old(self).spec_is_wrapped(),
            !old(self).spec_is_wrapped() ==> final(self).holds_claim() == old(self).holds_claim(),
            old(self).holds_claim() ==> final(self).holds_claim(),
        opens_invariants none
        no_unwind
    {
        match &self.rc_data {
            NeedsDrop::Yes(entry) => {
                let (next, armed) = ledger::settle(read_count(&entry.count), self.claim.armed);
                write_count(&entry.count, next);
                self.claim.armed = armed;
            },
            NeedsDrop::No(_) => {},
        }
    }
}

impl<T> Clone for RcBumpMember<T> {
    /// One more pointer to the same object. It is counted by the entry's own
    /// count where there is one, and then has no claim on the block; else it
    /// is counted by the block, as a claim of its own.
    fn clone(&self) -> (res: Self)
        ensures
            res@ == self@,
            res.spec_addr() == self.spec_addr(),
            res.spec_is_wrapped() == self.spec_is_wrapped(),
            res.holds_claim() == !self.spec_is_wrapped(),
    {
        match self.rc_data() {
            NeedsDrop::Yes(entry) => {
                write_count(&entry.count, ledger::claim(read_count(&entry.count)));
                RcBumpMember {
                    rc_data: NeedsDrop::Yes(Rc::clone(entry)),
                    addr: self.addr,
                    claim: Claim { metadata: Rc::clone(&self.claim.metadata), armed: false },
                }
            },
            NeedsDrop::No(value) => {
                self.claim.metadata.increment();
                RcBumpMember {
                    rc_data: NeedsDrop::No(Rc::clone(value)),
                    addr: self.addr,
                    claim: Claim { metadata: Rc::clone(&self.claim.metadata), armed: true },
                }
            },
        }
    }
}

} // verus!
