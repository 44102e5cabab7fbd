//! A run of arenas made on demand.

use crate::bump::block_align_spec;
use crate::bump::block_limit_spec;
use crate::bump::block_size_spec;
use crate::bump::block_start_spec;
use crate::bump::owned_result;
use crate::bump::shared_result;
use crate::bump::rc_slot_align;
use crate::bump::rc_slot_size;
use crate::bump::BlockWatch;
use crate::bump::BumpRcEntry;
use crate::bump::Bump;
use crate::bump::BumpMember;
use crate::bump::RcBumpMember;
use crate::layout::inner_layout_spec;
use crate::layout::lemma_block_fits_address_space;
use crate::layout::lemma_padding_is_least;
use crate::layout::lemma_pow2_divides;
use crate::layout::METADATA_ALIGN;
use crate::placement::placement;
use vstd::arithmetic::power2::is_pow2;
use vstd::layout::layout_for_type_is_valid;
use vstd::prelude::*;

verus! {

/// Whether an object of `size` bytes is refused by every arena of `capacity`
/// bytes: twice its size is more than the capacity.
pub open spec fn too_large(size: nat, capacity: usize) -> bool {
    2 * size > capacity
}

/// The number of arenas made once one more is made; it stops at the top of
/// its range.
pub open spec fn one_more(created: u64) -> u64 {
    if created < u64::MAX {
        (created + 1) as u64
    } else {
        created
    }
}

/// What a paving is to its callers: what its arenas are made with, how far
/// the arena in use is taken, and how many arenas there have been.
pub struct PavingView {
    /// The capacity in bytes of each arena.
    pub capacity: usize,
    /// The alignment that each arena is made with.
    pub align: usize,
    /// The address of the first free byte of the arena in use.
    pub first_free: usize,
    /// The number of arenas made so far, the first one included.
    pub created: u64,
}

/// A structure generating bumps as appropriate.
pub struct Paving {
    current_bump: Bump,
    created: u64,
}

impl View for Paving {
    type V = PavingView;

    closed spec fn view(&self) -> PavingView {
        PavingView {
            capacity: self.current_bump.spec_capacity(),
            align: self.current_bump.spec_align(),
            first_free: self.current_bump.first_free(),
            created: self.created,
        }
    }
}

impl Paving {
    /// The capacity in bytes of each arena.
    pub open spec fn spec_capacity(&self) -> usize {
        self@.capacity
    }

    /// The alignment that each arena is made with.
    pub open spec fn spec_align(&self) -> usize {
        self@.align
    }

    /// The capacity in bytes of each arena. It is one that an arena can be
    /// made with.
    #[verifier::when_used_as_spec(spec_capacity)]
    pub fn capacity(&self) -> (c: usize)
        ensures
            c == self.spec_capacity(),
            c > 0,
            inner_layout_spec(c, self.spec_align()) is Some,
            block_start_spec(c, self.spec_align()) <= self.first_free() <= block_limit_spec(
                c,
                self.spec_align(),
            ),
    {
        self.current_bump.capacity()
    }

    /// The alignment that each arena is made with.
    #[verifier::when_used_as_spec(spec_align)]
    pub fn align(&self) -> (a: usize)
        ensures
            a == self.spec_align(),
    {
        self.current_bump.align()
    }

    /// The address of the first free byte of the arena in use.
    pub open spec fn first_free(&self) -> usize {
        self@.first_free
    }

    /// The number of arenas made so far, the first one included.
    pub open spec fn spec_created(&self) -> u64 {
        self@.created
    }

    /// What an attempt to place `value` as an owned object leaves: `self` is
    /// the paving before it, `after` the paving behind it, `res` what the
    /// caller gets.
    ///
    /// An object that is too large for the arenas comes back at once and
    /// nothing changes. Any other goes into the arena in use where it fits.
    /// Where it does not, one more arena is made and takes the place of the
    /// one in use, and the object goes into that one, from its start.
    pub open spec fn alloc_outcome<T>(
        self,
        after: Paving,
        res: Result<BumpMember<T>, T>,
        value: T,
    ) -> bool {
        let start = block_start_spec(self.spec_capacity(), self.spec_align()) as usize;
        let limit = block_limit_spec(self.spec_capacity(), self.spec_align()) as usize;
        &&& after.spec_capacity() == self.spec_capacity()
        &&& after.spec_align() == self.spec_align()
        &&& if too_large(vstd::layout::size_of::<T>(), self.spec_capacity()) {
            &&& res == Err::<BumpMember<T>, T>(value)
            &&& after@ == self@
        } else if owned_fits::<T>(self.first_free(), limit) {
            &&& owned_result(res, value, self.first_free(), limit, after.first_free())
            &&& after.spec_created() == self.spec_created()
        } else {
            &&& owned_result(res, value, start, limit, after.first_free())
            &&& after.spec_created() == one_more(self.spec_created())
        }
    }

    /// What an attempt to place `value` as a shared object leaves, in the
    /// layout that `wrapped` chooses: as `alloc_outcome`. The size that is
    /// held against the capacity is that of the object alone.
    pub open spec fn alloc_rc_outcome<T>(
        self,
        after: Paving,
        res: Result<RcBumpMember<T>, T>,
        value: T,
        wrapped: bool,
    ) -> bool {
        let start = block_start_spec(self.spec_capacity(), self.spec_align()) as usize;
        let limit = block_limit_spec(self.spec_capacity(), self.spec_align()) as usize;
        &&& after.spec_capacity() == self.spec_capacity()
        &&& after.spec_align() == self.spec_align()
        &&& if too_large(vstd::layout::size_of::<T>(), self.spec_capacity()) {
            &&& res == Err::<RcBumpMember<T>, T>(value)
            &&& after@ == self@
        } else if shared_fits::<T>(wrapped, self.first_free(), limit) {
            &&& shared_result(res, value, wrapped, self.first_free(), limit, after.first_free())
            &&& after.spec_created() == self.spec_created()
        } else {
            &&& shared_result(res, value, wrapped, start, limit, after.first_free())
            &&& after.spec_created() == one_more(self.spec_created())
        }
    }

    /// Creates a new paving, which will be backed by bumps created with
    /// corresponding capacity and align.
    ///
    /// See [`Bump::new`].
    pub fn new(capacity: usize, align: usize) -> (paving: Paving)
        requires
            capacity > 0,
            inner_layout_spec(capacity, align) is Some,
        ensures
            paving@ == (PavingView {
                capacity,
                align,
                first_free: block_start_spec(capacity, align) as usize,
                created: 1,
            }),
    {
        let first_bump = Bump::new(capacity, align);
        Paving { current_bump: first_bump, created: 1 }
    }

    /// The number of arenas made so far, the first one included.
    #[verifier::when_used_as_spec(spec_created)]
    pub fn created(&self) -> (n: u64)
        ensures
            n == self.spec_created(),
    {
        self.created
    }

    /// A look at the header of the block of the arena in use.
    pub fn watch(&self) -> (w: BlockWatch)
        ensures
            w.spec_start() == block_start_spec(self.spec_capacity(), self.spec_align()),
            w.spec_layout().spec_size() == block_size_spec(self.spec_capacity(), self.spec_align()),
            w.spec_layout().spec_align() == block_align_spec(
                self.spec_capacity(),
                self.spec_align(),
            ),
    {
        let _capacity: usize = self.current_bump.capacity();
        self.current_bump.watch()
    }

    /// Whether an arena of this paving that holds nothing yet has room for an
    /// owned `T`.
    pub open spec fn spec_takes_owned<T>(&self) -> bool {
        owned_fits::<T>(
            block_start_spec(self.spec_capacity(), self.spec_align()) as usize,
            block_limit_spec(self.spec_capacity(), self.spec_align()) as usize,
        )
    }

    /// Whether an arena of this paving that holds nothing yet has room for a
    /// shared `T` in the layout that `wrapped` chooses.
    pub open spec fn spec_takes_shared<T>(&self, wrapped: bool) -> bool {
        shared_fits::<T>(
            wrapped,
            block_start_spec(self.spec_capacity(), self.spec_align()) as usize,
            block_limit_spec(self.spec_capacity(), self.spec_align()) as usize,
        )
    }

    /// Whether an arena of this paving that holds nothing yet has room for an
    /// owned `T`. It has for every type of at least one byte that is not too
    /// large.
    #[verifier::when_used_as_spec(spec_takes_owned)]
    pub fn takes_owned<T>(&self) -> (ok: bool)
        ensures
            ok == self.spec_takes_owned::<T>(),
    {
        let _capacity: usize = self.current_bump.capacity();
        self.current_bump.has_room_when_empty::<T>()
    }

    /// Whether an arena of this paving that holds nothing yet has room for a
    /// shared `T` in the layout that `wrapped` chooses.
    #[verifier::when_used_as_spec(spec_takes_shared)]
    pub fn takes_shared<T>(&self, wrapped: bool) -> (ok: bool)
        ensures
            ok == self.spec_takes_shared::<T>(wrapped),
    {
        let _capacity: usize = self.current_bump.capacity();
        if wrapped {
            self.current_bump.has_room_when_empty::<BumpRcEntry<T>>()
        } else {
            self.current_bump.has_room_when_empty::<T>()
        }
    }

    /// Whether a `T` is too large for the arenas of this paving.
    fn refuses<T>(&self) -> (r: bool)
        ensures
            r == too_large(vstd::layout::size_of::<T>(), self.spec_capacity()),
    {
        layout_for_type_is_valid::<T>();
        let size: usize = core::mem::size_of::<T>();
        let capacity: usize = self.current_bump.capacity();
        size > capacity || size > capacity - size
    }

    /// Puts a fresh arena in the place of the one in use.
    fn rotate(&mut self)
        ensures
            final(self)@ == (PavingView {
                first_free: block_start_spec(
                    old(self).spec_capacity(),
                    old(self).spec_align(),
                ) as usize,
                created: one_more(old(self).spec_created()),
                ..old(self)@
            }),
    {
        let capacity: usize = self.current_bump.capacity();
        let align: usize = self.current_bump.align();
        self.current_bump = Bump::new(capacity, align);
        if self.created < u64::MAX {
            self.created = self.created + 1;
        }
    }

    /// Try to allocate an object in the paving.
    ///
    /// Fails exactly when the object is too large for the arenas, and then
    /// hands the object back. An object that is not too large must fit an
    /// arena that holds nothing yet, as every object of at least one byte
    /// does: then the arena that takes the place of a full one has room.
    pub fn try_alloc<T>(&mut self, value: T) -> (res: Result<BumpMember<T>, T>)
        requires
            too_large(vstd::layout::size_of::<T>(), old(self).spec_capacity()) || old(
                self,
            ).spec_takes_owned::<T>(),
        ensures
            old(self).alloc_outcome(*final(self), res, value),
            res is Ok <==> !too_large(vstd::layout::size_of::<T>(), old(self).spec_capacity()),
    {
        let _capacity: usize = self.current_bump.capacity();
        if self.refuses::<T>() {
            return Err(value);
        }
        match self.current_bump.try_alloc(value) {
            Ok(sm) => Ok(sm),
            Err(value) => {
                self.rotate();
                let _capacity: usize = self.current_bump.capacity();
                self.current_bump.try_alloc(value)
            },
        }
    }

    /// Try to allocate a object with shared ownership in the paving, in the
    /// layout that `wrapped` chooses.
    ///
    /// Fails exactly when the object is too large for the arenas, and then
    /// hands the object back. The slot of an object that is not too large
    /// must fit an arena that holds nothing yet.
    pub fn try_alloc_rc_with<T>(&mut self, value: T, wrapped: bool) -> (res: Result<
        RcBumpMember<T>,
        T,
    >)
        requires
            too_large(vstd::layout::size_of::<T>(), old(self).spec_capacity()) || old(
                self,
            ).spec_takes_shared::<T>(wrapped),
        ensures
            old(self).alloc_rc_outcome(*final(self), res, value, wrapped),
            res is Ok <==> !too_large(vstd::layout::size_of::<T>(), old(self).spec_capacity()),
    {
        let _capacity: usize = self.current_bump.capacity();
        if self.refuses::<T>() {
            return Err(value);
        }
        match self.current_bump.try_alloc_rc_with(value, wrapped) {
            Ok(sm) => Ok(sm),
            Err(value) => {
                self.rotate();
                let _capacity: usize = self.current_bump.capacity();
                self.current_bump.try_alloc_rc_with(value, wrapped)
            },
        }
    }

    /// Try to allocate a object with shared ownership in the paving.
    ///
    /// The layout is the one with a count of its own exactly when dropping a
    /// `T` does work. Fails exactly when the object is too large for the
    /// arenas. The slot of an object that is not too large must fit an arena
    /// that holds nothing yet, in either layout.
    pub fn try_alloc_rc<T>(&mut self, value: T) -> (res: Result<RcBumpMember<T>, T>)
        requires
            too_large(vstd::layout::size_of::<T>(), old(self).spec_capacity()) || (old(
                self,
            ).spec_takes_shared::<T>(true) && old(self).spec_takes_shared::<T>(false)),
        ensures
            old(self).alloc_rc_outcome(*final(self), res, value, true) || old(
                self,
            ).alloc_rc_outcome(*final(self), res, value, false),
            res is Ok <==> !too_large(vstd::layout::size_of::<T>(), old(self).spec_capacity()),
            res matches Ok(member) ==> member@ == value,
            res matches Err(back) ==> back == value && final(self)@ == old(self)@,
    {
        self.try_alloc_rc_with(value, core::mem::needs_drop::<T>())
    }
}

/// Whether an owned `T` fits a block whose free part runs from `first_free`
/// to `limit`.
pub open spec fn owned_fits<T>(first_free: usize, limit: usize) -> bool {
    placement(
        first_free,
        limit,
        vstd::layout::size_of::<T>(),
        vstd::layout::align_of::<T>(),
    ) is Some
}

/// Whether a shared `T` in the layout that `wrapped` chooses fits a block
/// whose free part runs from `first_free` to `limit`.
pub open spec fn shared_fits<T>(wrapped: bool, first_free: usize, limit: usize) -> bool {
    placement(
        first_free,
        limit,
        rc_slot_size::<T>(wrapped),
        rc_slot_align::<T>(wrapped),
    ) is Some
}

/// A fresh arena takes whatever is not too large: a value whose size is a
/// multiple of its alignment, and twice whose size is no more than the
/// capacity, fits an arena that holds nothing yet. For a value without bytes
/// this asks that its alignment, a power of two, is no more than the
/// block's.
pub proof fn lemma_fresh_arena_takes(capacity: usize, align: usize, size: nat, value_align: nat)
    requires
        capacity > 0,
        inner_layout_spec(capacity, align) is Some,
        value_align > 0,
        size % value_align == 0,
        size > 0 || (is_pow2(value_align as int) && value_align <= block_align_spec(
            capacity,
            align,
        )),
        !too_large(size, capacity),
    ensures
        0 < block_start_spec(capacity, align) <= block_limit_spec(capacity, align) <= usize::MAX,
        block_limit_spec(capacity, align) - block_start_spec(capacity, align) >= capacity,
        placement(
            block_start_spec(capacity, align) as usize,
            block_limit_spec(capacity, align) as usize,
            size,
            value_align,
        ) is Some,
{
    let (total, joint, offset) = inner_layout_spec(capacity, align).unwrap();
    lemma_block_fits_address_space(total, joint);
    lemma_padding_is_least(capacity as int, METADATA_ALIGN as int);
    lemma_padding_is_least(joint, value_align as int);
    if size == 0 {
        lemma_pow2_divides(value_align as int, joint);
    } else if size < value_align {
        vstd::arithmetic::div_mod::lemma_small_mod(size, value_align);
    }
}

/// An arena of a paving that holds nothing yet has room for every owned
/// object that is not too large, if the object has at least one byte or its
/// alignment is no more than the block's. So much a caller needs to know to
/// ask the paving for room.
pub proof fn lemma_paving_takes_owned<T>(paving: Paving)
    requires
        paving.spec_capacity() > 0,
        inner_layout_spec(paving.spec_capacity(), paving.spec_align()) is Some,
        vstd::layout::size_of::<T>() > 0 || vstd::layout::align_of::<T>() <= block_align_spec(
            paving.spec_capacity(),
            paving.spec_align(),
        ),
    ensures
        too_large(vstd::layout::size_of::<T>(), paving.spec_capacity())
            || paving.spec_takes_owned::<T>(),
{
    broadcast use vstd::layout::align_properties, vstd::layout::align_nonzero;

    if !too_large(vstd::layout::size_of::<T>(), paving.spec_capacity()) {
        lemma_fresh_arena_takes(
            paving.spec_capacity(),
            paving.spec_align(),
            vstd::layout::size_of::<T>(),
            vstd::layout::align_of::<T>(),
        );
    }
}

/// A paving accepts an owned object exactly when the object is not too
/// large: where the arena in use is full, the fresh one that takes its place
/// has room. This holds of every object of at least one byte, and of one
/// without bytes whose alignment is no more than the block's.
pub proof fn lemma_paving_accepts_owned<T>(
    before: Paving,
    after: Paving,
    res: Result<BumpMember<T>, T>,
    value: T,
)
    requires
        before.spec_capacity() > 0,
        inner_layout_spec(before.spec_capacity(), before.spec_align()) is Some,
        vstd::layout::size_of::<T>() > 0 || vstd::layout::align_of::<T>() <= block_align_spec(
            before.spec_capacity(),
            before.spec_align(),
        ),
        before.alloc_outcome(after, res, value),
    ensures
        res is Ok <==> !too_large(vstd::layout::size_of::<T>(), before.spec_capacity()),
        res matches Ok(member) ==> member@ == value,
        res matches Err(back) ==> back == value && after@ == before@,
{
    broadcast use vstd::layout::align_properties, vstd::layout::align_nonzero;

    if !too_large(vstd::layout::size_of::<T>(), before.spec_capacity()) {
        lemma_fresh_arena_takes(
            before.spec_capacity(),
            before.spec_align(),
            vstd::layout::size_of::<T>(),
            vstd::layout::align_of::<T>(),
        );
    }
}

/// A paving accepts a shared object whenever neither the object nor the slot
/// of its layout is too large. This holds of every slot of at least one
/// byte, and of one without bytes whose alignment is no more than the
/// block's.
pub proof fn lemma_paving_accepts_shared<T>(
    before: Paving,
    after: Paving,
    res: Result<RcBumpMember<T>, T>,
    value: T,
    wrapped: bool,
)
    requires
        before.spec_capacity() > 0,
        inner_layout_spec(before.spec_capacity(), before.spec_align()) is Some,
        rc_slot_size::<T>(wrapped) > 0 || rc_slot_align::<T>(wrapped) <= block_align_spec(
            before.spec_capacity(),
            before.spec_align(),
        ),
        !too_large(rc_slot_size::<T>(wrapped), before.spec_capacity()),
        !too_large(vstd::layout::size_of::<T>(), before.spec_capacity()),
        before.alloc_rc_outcome(after, res, value, wrapped),
    ensures
        res matches Ok(member) && member@ == value && member.spec_is_wrapped() == wrapped,
{
    broadcast use vstd::layout::align_properties, vstd::layout::align_nonzero;

    lemma_fresh_arena_takes(
        before.spec_capacity(),
        before.spec_align(),
        rc_slot_size::<T>(wrapped),
        rc_slot_align::<T>(wrapped),
    );
}

} // verus!
