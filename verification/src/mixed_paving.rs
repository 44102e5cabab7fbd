//! A paving that never refuses: what no arena takes goes to the heap.

use crate::bump::block_align_spec;
use crate::bump::block_limit_spec;
use crate::bump::block_size_spec;
use crate::bump::block_start_spec;
use crate::bump::BlockWatch;
use crate::bump::BumpMember;
use crate::bump::RcBumpMember;
use crate::layout::inner_layout_spec;
use crate::paving::lemma_fresh_arena_takes;
use crate::paving::too_large;
use crate::paving::Paving;
use crate::paving::PavingView;
use std::ops::Deref;
use std::ops::DerefMut;
use std::rc::Rc;
use vstd::prelude::*;

verus! {

/// A pointer to a mixed paving owning its pointee.
pub enum OwnedMixedPavingMember<T> {
    /// The object was allocated in a bump.
    BumpMember(BumpMember<T>),
    /// The object is allocated on its own.
    Box(Box<T>),
}

impl<T> View for OwnedMixedPavingMember<T> {
    type V = T;

    open spec fn view(&self) -> T {
        match self {
            OwnedMixedPavingMember::BumpMember(sm) => sm@,
            OwnedMixedPavingMember::Box(b) => **b,
        }
    }
}

impl<T> OwnedMixedPavingMember<T> {
    /// The attempt on the paving that this pointer came from: the pointer
    /// into a bump where it was accepted, else the object that came back.
    pub open spec fn attempt(self) -> Result<BumpMember<T>, T> {
        match self {
            OwnedMixedPavingMember::BumpMember(sm) => Ok(sm),
            OwnedMixedPavingMember::Box(b) => Err(*b),
        }
    }
}

impl<T> DerefMut for OwnedMixedPavingMember<T> {
    fn deref_mut(&mut self) -> (r: &mut T)
        ensures
            *r == old(self)@,
            final(self)@ == *final(r),
            *final(self) is BumpMember <==> *old(self) is BumpMember,
    {
        match self {
            OwnedMixedPavingMember::BumpMember(sm) => sm.deref_mut(),
            OwnedMixedPavingMember::Box(b) => b,
        }
    }
}

impl<T> Deref for OwnedMixedPavingMember<T> {
    type Target = T;

    fn deref(&self) -> (r: &T)
        ensures
            *r == self@,
    {
        match self {
            OwnedMixedPavingMember::BumpMember(sm) => sm,
            OwnedMixedPavingMember::Box(b) => b,
        }
    }
}

/// A pointer to a mixed paving sharing ownership of its pointee.
pub enum SharedMixedPavingMember<T> {
    /// The object was allocated in a bump.
    RcBumpMember(RcBumpMember<T>),
    /// The object is allocated on its own.
    Rc(Rc<T>),
}

impl<T> View for SharedMixedPavingMember<T> {
    type V = T;

    open spec fn view(&self) -> T {
        match self {
            SharedMixedPavingMember::RcBumpMember(sm) => sm@,
            SharedMixedPavingMember::Rc(rc) => **rc,
        }
    }
}

impl<T> SharedMixedPavingMember<T> {
    /// The attempt on the paving that this pointer came from: the pointer
    /// into a bump where it was accepted, else the object that came back.
    pub open spec fn attempt(self) -> Result<RcBumpMember<T>, T> {
        match self {
            SharedMixedPavingMember::RcBumpMember(sm) => Ok(sm),
            SharedMixedPavingMember::Rc(rc) => Err(*rc),
        }
    }
}

impl<T> Deref for SharedMixedPavingMember<T> {
    type Target = T;

    fn deref(&self) -> (r: &T)
        ensures
            *r == self@,
    {
        match self {
            SharedMixedPavingMember::RcBumpMember(sm) => sm,
            SharedMixedPavingMember::Rc(rc) => rc,
        }
    }
}

/// A paving which will allocate objects too large out of any bump.
pub struct MixedPaving(Paving);

impl MixedPaving {
    /// The paving that takes what fits.
    pub closed spec fn paving(&self) -> Paving {
        self.0
    }

    /// Creates a new mixed paving whose backing bumps will have the
    /// corresponding capacity and align.
    ///
    /// See [`Bump::new`](`crate::bump::Bump::new`).
    pub fn new(capacity: usize, align: usize) -> (mixed: MixedPaving)
        requires
            capacity > 0,
            inner_layout_spec(capacity, align) is Some,
        ensures
            mixed.paving()@ == (PavingView {
                capacity,
                align,
                first_free: block_start_spec(capacity, align) as usize,
                created: 1,
            }),
    {
        MixedPaving(Paving::new(capacity, align))
    }

    /// The number of arenas made so far, the first one included.
    pub fn created(&self) -> (n: u64)
        ensures
            n == self.paving().spec_created(),
    {
        self.0.created()
    }

    /// A look at the header of the block of the arena in use.
    pub fn watch(&self) -> (w: BlockWatch)
        ensures
            w.spec_start() == block_start_spec(
                self.paving().spec_capacity(),
                self.paving().spec_align(),
            ),
            w.spec_layout().spec_size() == block_size_spec(
                self.paving().spec_capacity(),
                self.paving().spec_align(),
            ),
            w.spec_layout().spec_align() == block_align_spec(
                self.paving().spec_capacity(),
                self.paving().spec_align(),
            ),
    {
        self.0.watch()
    }

    /// The capacity in bytes of each arena. It is one that an arena can be
    /// made with.
    pub fn capacity(&self) -> (c: usize)
        ensures
            c == self.paving().spec_capacity(),
            c > 0,
            inner_layout_spec(c, self.paving().spec_align()) is Some,
            block_start_spec(c, self.paving().spec_align()) <= self.paving().first_free()
                <= block_limit_spec(c, self.paving().spec_align()),
    {
        self.0.capacity()
    }

    /// The alignment that each arena is made with.
    pub fn align(&self) -> (a: usize)
        ensures
            a == self.paving().spec_align(),
    {
        self.0.align()
    }

    /// What allocating `value` as an owned object leaves: `before` is the
    /// paving before it, `after` the paving behind it, `res` what the caller
    /// gets. Where an arena that holds nothing yet has room for the object,
    /// the paving is asked, and what it hands back goes to the heap. An
    /// object for which even such an arena has no room goes to the heap at
    /// once and the paving is as it was.
    pub open spec fn owned_outcome<T>(
        before: Paving,
        after: Paving,
        res: OwnedMixedPavingMember<T>,
        value: T,
    ) -> bool {
        &&& res@ == value
        &&& res is BumpMember <==> before.spec_takes_owned::<T>() && !too_large(
            vstd::layout::size_of::<T>(),
            before.spec_capacity(),
        )
        &&& if res is BumpMember {
            before.alloc_outcome(after, res.attempt(), value)
        } else {
            after@ == before@
        }
    }

    /// What allocating `value` as a shared object leaves, in the layout that
    /// `wrapped` chooses where it goes into a bump: as `owned_outcome`.
    pub open spec fn shared_outcome<T>(
        before: Paving,
        after: Paving,
        res: SharedMixedPavingMember<T>,
        value: T,
        wrapped: bool,
    ) -> bool {
        &&& res@ == value
        &&& res is RcBumpMember <==> before.spec_takes_shared::<T>(wrapped) && !too_large(
            vstd::layout::size_of::<T>(),
            before.spec_capacity(),
        )
        &&& if res is RcBumpMember {
            before.alloc_rc_outcome(after, res.attempt(), value, wrapped)
        } else {
            after@ == before@
        }
    }

    /// Alloc an object returning an owning pointer.
    ///
    /// The pointer goes into a bump exactly where the object is not too
    /// large for the arenas and an arena that holds nothing yet has room for
    /// it; any other object goes to the heap.
    pub fn alloc_owned<T>(&mut self, value: T) -> (res: OwnedMixedPavingMember<T>)
        ensures
            Self::owned_outcome(old(self).paving(), final(self).paving(), res, value),
    {
        if !self.0.takes_owned::<T>() {
            return OwnedMixedPavingMember::Box(Box::new(value));
        }
        match self.0.try_alloc(value) {
            Ok(sm) => OwnedMixedPavingMember::BumpMember(sm),
            Err(val) => OwnedMixedPavingMember::Box(Box::new(val)),
        }
    }

    /// Alloc an object returning a shareable pointer, in the layout that
    /// `wrapped` chooses where it goes into a bump.
    pub fn alloc_rc_with<T>(&mut self, value: T, wrapped: bool) -> (res: SharedMixedPavingMember<T>)
        ensures
            Self::shared_outcome(old(self).paving(), final(self).paving(), res, value, wrapped),
    {
        if !self.0.takes_shared::<T>(wrapped) {
            return SharedMixedPavingMember::Rc(Rc::new(value));
        }
        match self.0.try_alloc_rc_with(value, wrapped) {
            Ok(sm) => SharedMixedPavingMember::RcBumpMember(sm),
            Err(val) => SharedMixedPavingMember::Rc(Rc::new(val)),
        }
    }

    /// Alloc an object returning a shareable pointer.
    pub fn alloc_rc<T>(&mut self, value: T) -> (res: SharedMixedPavingMember<T>)
        ensures
            Self::shared_outcome(old(self).paving(), final(self).paving(), res, value, true)
                || Self::shared_outcome(
                old(self).paving(),
                final(self).paving(),
                res,
                value,
                false,
            ),
    {
        self.alloc_rc_with(value, core::mem::needs_drop::<T>())
    }
}

/// A mixed paving sends to the heap exactly what is too large for its
/// arenas, and whichever way the object goes, the pointer reads as the
/// object. This holds of every object of at least one byte, and of one
/// without bytes whose alignment is no more than the block's.
pub proof fn lemma_heap_takes_what_is_too_large<T>(
    before: Paving,
    after: Paving,
    res: OwnedMixedPavingMember<T>,
    value: T,
)
    requires
        before.spec_capacity() > 0,
        inner_layout_spec(before.spec_capacity(), before.spec_align()) is Some,
        vstd::layout::size_of::<T>() > 0 || vstd::layout::align_of::<T>() <= block_align_spec(
            before.spec_capacity(),
            before.spec_align(),
        ),
        MixedPaving::owned_outcome(before, after, res, value),
    ensures
        res is Box <==> too_large(vstd::layout::size_of::<T>(), before.spec_capacity()),
        res is Box ==> after@ == before@,
        res@ == value,
{
    broadcast use vstd::layout::align_properties, vstd::layout::align_nonzero;

    if !too_large(vstd::layout::size_of::<T>(), before.spec_capacity()) {
        lemma_fresh_arena_takes(
            before.spec_capacity(),
            before.spec_align(),
            vstd::layout::size_of::<T>(),
            vstd::layout::align_of::<T>(),
        );
    }
}

} // verus!
