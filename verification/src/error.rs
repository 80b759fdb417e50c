//! Errors of the maker.

use vstd::prelude::*;

verus! {

/// Why the maker refuses a request of a taker.
#[derive(Debug)]
pub enum MakerError {
    /// A rule of the maker itself is broken; the message says which.
    General(&'static str),
    /// A lock of the maker is poisoned.
    LockPoisoned,
    /// The curve arithmetic refuses a tweak.
    Secp,
    /// A contract script or a contract transaction is malformed.
    Contract(String),
    /// The wallet, or the node behind it, failed.
    Wallet(String),
}

} // verus!
