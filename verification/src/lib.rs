//! Region allocation without lifetimes.
//!
//! An arena hands out slots from one fixed block by advancing a bump
//! position. Handles keep the block claimed through a count stored in the
//! block's header, so a handle may outlive the arena it came from. A paving
//! replaces a full arena by a fresh one, and a mixed paving falls back to
//! the heap for values that no arena can take.
//!
//! Addresses are numbers of a notional address space: the library decides
//! where each value would sit and when a block would be handed back, while
//! the values themselves are owned by their handles, a shared value behind
//! one `Rc`. Every block starts at the address equal to its alignment.
//!
//! Allocation takes the arena, the paving or the mixed paving by exclusive
//! reference. That is the price of contracts that say exactly where the free
//! part stands before and after each call. A handle borrows nothing from
//! what made it, so handles can be kept, moved and dropped while allocation
//! goes on.
//!
//! The counts of claims sit in cells that several handles share. No
//! contract can speak of what such a cell holds; the arithmetic of the
//! counts and its laws stand in [`ledger`].

pub mod bump;
pub mod layout;
pub mod ledger;
pub mod mixed_paving;
pub mod paving;
pub mod placement;

pub use crate::bump::BlockWatch;
pub use crate::bump::Bump;
pub use crate::bump::BumpMember;
pub use crate::bump::RcBumpMember;
pub use crate::layout::BlockLayout;
pub use crate::layout::LayoutError;
pub use crate::mixed_paving::MixedPaving;
pub use crate::mixed_paving::OwnedMixedPavingMember;
pub use crate::mixed_paving::SharedMixedPavingMember;
pub use crate::paving::Paving;
