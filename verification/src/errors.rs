//! Failure kinds shared by the builder, the store and chain verification.

use vstd::prelude::*;

verus! {

/// Every operation of this crate reports failure through one of these kinds.
///
/// The first five arise while a store is configured and built; the last
/// three belong to the chain-verification contract and depend on the
/// store's policy.
#[derive(Clone, Copy, Debug, PartialEq, Eq, Structural)]
pub enum X509Error {
    /// A bad argument: a negative depth, or an empty file/directory pair.
    InvalidArgument,
    /// A file or directory that should be readable is not.
    IoError,
    /// File contents that are not a valid certificate/CRL bundle.
    ParseError,
    /// A certificate handle that is malformed at the boundary where raw
    /// certificate material is turned into a `Certificate` value.
    InvalidCertificate,
    /// No further lookup slot can be allocated.
    ResourceExhausted,
    /// A chain with more intermediate certificates than the configured
    /// maximum depth.
    ChainTooLong,
    /// A chain that does not terminate at a trust anchor acceptable under
    /// the store's purpose and trust policy.
    UntrustedChain,
    /// A raw policy code outside the closed set of known values.
    UnsupportedPolicyValue,
}

} // verus!
