//! Sizes, alignments and the arithmetic of laying one record after another.

use vstd::arithmetic::power2::is_pow2;
use vstd::prelude::*;

verus! {

/// Size in bytes of the header that closes every block: a count, the block's
/// start and the two words of its layout.
pub const METADATA_SIZE: usize = 32;

/// Alignment in bytes of the header that closes every block.
pub const METADATA_ALIGN: usize = 8;

/// Whether `addr` is a multiple of `align`.
pub open spec fn is_aligned(addr: int, align: int) -> bool
    recommends
        align > 0,
{
    addr % align == 0
}

/// The number of bytes to skip from `addr` to reach the next multiple of
/// `align`.
pub open spec fn padding_needed(addr: int, align: int) -> int
    recommends
        align > 0,
{
    if addr % align == 0 {
        0
    } else {
        align - addr % align
    }
}

/// Whether a record of `size` bytes aligned to `align` can exist: `align` is a
/// power of two and `size`, rounded up to a multiple of `align`, does not
/// exceed `isize::MAX`.
pub open spec fn layout_ok(size: int, align: int) -> bool {
    &&& is_pow2(align)
    &&& 0 <= size
    &&& size + padding_needed(size, align) <= isize::MAX
}

/// The record made of a first record followed by a second one, with the
/// padding that aligns the second and no padding behind it: its size, its
/// alignment and the offset of the second record. `None` when that record
/// cannot exist.
pub open spec fn extend_spec(size: int, align: int, next_size: int, next_align: int) -> Option<
    (int, int, int),
> {
    let offset = size + padding_needed(size, next_align);
    let total = offset + next_size;
    let joint = if align >= next_align {
        align
    } else {
        next_align
    };
    if layout_ok(total, joint) {
        Some((total, joint, offset))
    } else {
        None
    }
}

/// The layout of a whole block: `capacity` bytes of data aligned to `align`,
/// followed by the header. Gives the block's size, its alignment and the
/// offset of the header. `None` when the data region or the block cannot
/// exist.
pub open spec fn inner_layout_spec(capacity: usize, align: usize) -> Option<(int, int, int)> {
    if layout_ok(capacity as int, align as int) {
        extend_spec(capacity as int, align as int, METADATA_SIZE as int, METADATA_ALIGN as int)
    } else {
        None
    }
}

/// `padding_needed` gives the least number of bytes that reaches a multiple of
/// `align`.
pub proof fn lemma_padding_is_least(addr: int, align: int)
    requires
        addr >= 0,
        align > 0,
    ensures
        0 <= padding_needed(addr, align) < align,
        is_aligned(addr + padding_needed(addr, align), align),
        forall|p: int|
            0 <= p < padding_needed(addr, align) ==> !#[trigger] is_aligned(addr + p, align),
{
    let r = addr % align;
    let q = addr / align;
    assert(addr == q * align + r && 0 <= r < align) by {
        vstd::arithmetic::div_mod::lemma_fundamental_div_mod(addr, align);
        vstd::arithmetic::div_mod::lemma_mod_bound(addr, align);
        assert(q * align == align * q) by (nonlinear_arith);
    }
    if r == 0 {
    } else {
        assert((addr + (align - r)) % align == 0) by {
            assert(addr + (align - r) == (q + 1) * align) by (nonlinear_arith)
                requires
                    addr == q * align + r,
            ;
            vstd::arithmetic::div_mod::lemma_mod_multiples_basic(q + 1, align);
        }
        assert forall|p: int| 0 <= p < align - r implies !#[trigger] is_aligned(
            addr + p,
            align,
        ) by {
            assert(addr + p == q * align + (r + p));
            vstd::arithmetic::div_mod::lemma_fundamental_div_mod_converse(
                addr + p,
                align,
                q,
                r + p,
            );
        }
    }
}

/// Of two powers of two, the smaller divides the larger.
pub proof fn lemma_pow2_divides(small: int, large: int)
    requires
        is_pow2(small),
        is_pow2(large),
        small <= large,
    ensures
        is_aligned(large, small),
    decreases large,
{
    reveal(is_pow2);
    if small == 1 {
    } else if small == large {
        vstd::arithmetic::div_mod::lemma_mod_self_0(small);
    } else {
        lemma_pow2_divides(small / 2, large / 2);
        let k = (large / 2) / (small / 2);
        assert(large / 2 == k * (small / 2)) by {
            vstd::arithmetic::div_mod::lemma_fundamental_div_mod(large / 2, small / 2);
            assert((small / 2) * k == k * (small / 2)) by (nonlinear_arith);
        }
        assert(large == k * small) by (nonlinear_arith)
            requires
                large == 2 * (large / 2),
                small == 2 * (small / 2),
                large / 2 == k * (small / 2),
        ;
        vstd::arithmetic::div_mod::lemma_mod_multiples_basic(k, small);
    }
}

/// A block and an address as large as its alignment still fit the address
/// space together.
pub proof fn lemma_block_fits_address_space(total: int, joint: int)
    requires
        layout_ok(total, joint),
        total > 0,
    ensures
        0 < joint <= isize::MAX,
        joint + total <= usize::MAX,
{
    reveal(is_pow2);
    lemma_padding_is_least(total, joint);
    let padded = total + padding_needed(total, joint);
    if padded < joint {
        vstd::arithmetic::div_mod::lemma_small_mod(padded as nat, joint as nat);
    }
}

/// The header is a record that can exist.
pub proof fn lemma_header_layout_ok()
    ensures
        layout_ok(METADATA_SIZE as int, METADATA_ALIGN as int),
{
    reveal_with_fuel(is_pow2, 5);
}

/// Why a layout could not be made: the alignment is no power of two, or the
/// size is beyond what a block can have.
#[derive(Clone, Copy, Debug, PartialEq, Eq, Structural)]
pub struct LayoutError;

/// Size and alignment of a block of memory.
#[derive(Clone, Copy, Debug)]
pub struct BlockLayout {
    size: usize,
    align: usize,
}

/// Whether `n` is a power of two.
pub fn is_power_of_two(n: usize) -> (r: bool)
    ensures
        r == is_pow2(n as int),
{
    if n == 0 {
        proof {
            reveal(is_pow2);
        }
        return false;
    }
    let mut m: usize = n;
    while m % 2 == 0
        invariant
            m > 0,
            is_pow2(m as int) == is_pow2(n as int),
        decreases m,
    {
        proof {
            reveal(is_pow2);
        }
        m = m / 2;
    }
    proof {
        reveal(is_pow2);
    }
    m == 1
}

/// The number of bytes to skip from `addr` to reach the next multiple of
/// `align`.
pub fn padding_for(addr: usize, align: usize) -> (pad: usize)
    requires
        align > 0,
    ensures
        pad == padding_needed(addr as int, align as int),
        pad < align,
{
    let rem: usize = addr % align;
    if rem == 0 {
        0
    } else {
        align - rem
    }
}

impl BlockLayout {
    #[verifier::type_invariant]
    spec fn well_formed(&self) -> bool {
        layout_ok(self.size as int, self.align as int)
    }

    /// The size in bytes.
    pub closed spec fn spec_size(&self) -> usize {
        self.size
    }

    /// The alignment in bytes.
    pub closed spec fn spec_align(&self) -> usize {
        self.align
    }

    /// The size in bytes.
    #[verifier::when_used_as_spec(spec_size)]
    pub fn size(&self) -> (r: usize)
        ensures
            r == self.spec_size(),
            layout_ok(r as int, self.spec_align() as int),
    {
        proof {
            use_type_invariant(self);
        }
        self.size
    }

    /// The alignment in bytes.
    #[verifier::when_used_as_spec(spec_align)]
    pub fn align(&self) -> (r: usize)
        ensures
            r == self.spec_align(),
            layout_ok(self.spec_size() as int, r as int),
    {
        proof {
            use_type_invariant(self);
        }
        self.align
    }

    /// Makes a layout of `size` bytes aligned to `align`, or fails when
    /// `align` is no power of two or `size`, rounded up to a multiple of
    /// `align`, exceeds `isize::MAX`.
    pub fn from_size_align(size: usize, align: usize) -> (res: Result<BlockLayout, LayoutError>)
        ensures
            res is Ok <==> layout_ok(size as int, align as int),
            res matches Ok(l) ==> l.spec_size() == size && l.spec_align() == align,
    {
        if !is_power_of_two(align) {
            return Err(LayoutError);
        }
        proof {
            reveal(is_pow2);
        }
        let pad: usize = padding_for(size, align);
        let limit: usize = isize::MAX as usize;
        if size > limit || pad > limit - size {
            return Err(LayoutError);
        }
        Ok(BlockLayout { size, align })
    }

    /// The layout of this record followed by `next`, padded so that `next` is
    /// aligned and with nothing behind it, together with the offset of `next`
    /// in it. Fails when the joint record cannot exist.
    pub fn extend(&self, next: BlockLayout) -> (res: Result<(BlockLayout, usize), LayoutError>)
        ensures
            match extend_spec(
                self.spec_size() as int,
                self.spec_align() as int,
                next.spec_size() as int,
                next.spec_align() as int,
            ) {
                Some((total, joint, offset)) => res matches Ok((l, o)) && l.spec_size() == total
                    && l.spec_align() == joint && o == offset,
                None => res is Err,
            },
    {
        proof {
            use_type_invariant(self);
            use_type_invariant(&next);
            reveal(is_pow2);
        }
        let joint: usize = if self.align >= next.align {
            self.align
        } else {
            next.align
        };
        let pad: usize = padding_for(self.size, next.align);
        let offset: usize = match self.size.checked_add(pad) {
            Some(o) => o,
            None => {
                return Err(LayoutError);
            },
        };
        let total: usize = match offset.checked_add(next.size) {
            Some(t) => t,
            None => {
                return Err(LayoutError);
            },
        };
        match BlockLayout::from_size_align(total, joint) {
            Ok(l) => Ok((l, offset)),
            Err(e) => Err(e),
        }
    }
}

} // verus!
