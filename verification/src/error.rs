//! Why a call can fail, and what a successful call reports.

use crate::account::AccountId;
use crate::kitty::Kitty;
use vstd::prelude::*;

verus! {

/// The reasons for which a call fails. A failed call changes nothing.
#[derive(Clone, Copy, Debug, PartialEq, Eq, Structural)]
pub enum Error {
    /// The counter of ids has reached the end of its range: no further
    /// kitty can be numbered.
    KittiesIdOverflow,
    /// The sender owns no kitty with one of the ids given.
    InvalidKittyId,
    /// The two parents have the same gender.
    SameGender,
}

/// What a successful call reports to the ledger's observers: the owner, the
/// id that was issued and the new kitty.
#[derive(Debug, PartialEq, Eq)]
pub enum Event {
    /// A kitty was created.
    KittyCreated(AccountId, u32, Kitty),
    /// A kitty was bred from two parents.
    KittyBred(AccountId, u32, Kitty),
}

} // verus!
