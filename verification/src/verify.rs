//! The chain-verification contract a store guarantees to any verifier
//! built against it: a presented chain — leaf first, candidate anchor
//! last — is accepted exactly when it is well linked, within the
//! configured depth, anchored at a certificate of the store acceptable
//! under the flags, and the configured purpose and trust are compatible.

use vstd::prelude::*;

use crate::cache::has_id;
use crate::errors::X509Error;
use crate::object::{obj_id, Certificate, X509Object};
use crate::policy::{trust_compatible, trust_compatible_spec, X509VerifyFlags, FLAG_PARTIAL_CHAIN};
use crate::store::X509Store;

verus! {

/// Each certificate's issuer is the next certificate's subject.
pub open spec fn chain_linked(c: Seq<Certificate>) -> bool {
    forall|i: int| 0 <= i < c.len() - 1 ==> (#[trigger] c[i]).issuer_hash == c[i + 1].subject_hash
}

/// How many intermediate CA certificates a chain carries: everything
/// between the leaf and the anchor.
pub open spec fn num_intermediates(c: Seq<Certificate>) -> int {
    if c.len() >= 2 {
        c.len() - 2
    } else {
        0
    }
}

/// Whether the flag set allows trust-anchoring at a non-self-signed
/// certificate present in the store.
pub open spec fn allows_partial(f: X509VerifyFlags) -> bool {
    f.bits & FLAG_PARTIAL_CHAIN != 0
}

/// A chain's final certificate is an acceptable trust anchor: it is in
/// the store — explicitly added or lookup-discovered — and, unless
/// partial chains are allowed, self-signed.
pub open spec fn anchor_trusted(store: X509Store, anchor: Certificate) -> bool {
    has_id(store.cache@, obj_id(X509Object::Certificate(anchor))) && (allows_partial(store.flags)
        || anchor.self_signed())
}

/// The verdict on a presented chain, leaf first and candidate anchor
/// last: an empty chain is `InvalidArgument`; too many intermediates is
/// `ChainTooLong`; a broken link, an unacceptable anchor or an
/// incompatible purpose/trust pair is `UntrustedChain`; everything else
/// is accepted.
pub open spec fn verify_spec(store: X509Store, chain: Seq<Certificate>) -> Result<(), X509Error> {
    if chain.len() == 0 {
        Err(X509Error::InvalidArgument)
    } else if num_intermediates(chain) > store.max_depth {
        Err(X509Error::ChainTooLong)
    } else if !chain_linked(chain) {
        Err(X509Error::UntrustedChain)
    } else if !anchor_trusted(store, chain.last()) {
        Err(X509Error::UntrustedChain)
    } else if !trust_compatible_spec(store.purpose, store.trust) {
        Err(X509Error::UntrustedChain)
    } else {
        Ok(())
    }
}

/// Decides whether each certificate's issuer is the next one's subject.
fn chain_is_linked(chain: &Vec<Certificate>) -> (r: bool)
    ensures
        r == chain_linked(chain@),
{
    let n = chain.len();
    if n == 0 {
        return true;
    }
    let mut i: usize = 0;
    while i < n - 1
        invariant
            n == chain@.len(),
            n >= 1,
            0 <= i <= n - 1,
            forall|j: int| 0 <= j < i ==> (#[trigger] chain@[j]).issuer_hash == chain@[j
                + 1].subject_hash,
        decreases n - 1 - i,
    {
        if chain[i].issuer_hash != chain[i + 1].subject_hash {
            return false;
        }
        i += 1;
    }
    true
}

/// Delivers the verdict of [`verify_spec`] on a presented chain.
pub fn verify_chain(store: &X509Store, chain: &Vec<Certificate>) -> (r: Result<(), X509Error>)
    ensures
        r == verify_spec(*store, chain@),
{
    let n = chain.len();
    if n == 0 {
        return Err(X509Error::InvalidArgument);
    }
    let inter: usize = if n >= 2 {
        n - 2
    } else {
        0
    };
    if inter > store.max_depth() as usize {
        return Err(X509Error::ChainTooLong);
    }
    if !chain_is_linked(chain) {
        return Err(X509Error::UntrustedChain);
    }
    let anchor = chain[n - 1];
    proof {
        assert(chain@.last() == chain@[n - 1]);
    }
    let in_store = store.objects().contains_identity(&X509Object::Certificate(anchor));
    let partial = store.flags().bits() & FLAG_PARTIAL_CHAIN != 0;
    if !(in_store && (partial || anchor.is_self_signed())) {
        return Err(X509Error::UntrustedChain);
    }
    if !trust_compatible(store.purpose(), store.trust()) {
        return Err(X509Error::UntrustedChain);
    }
    Ok(())
}

/// Depth enforcement: a presented chain with more intermediates than
/// the configured maximum is rejected with `ChainTooLong`, and one
/// within the maximum is never rejected for its length.
pub proof fn lemma_depth_enforcement(store: X509Store, chain: Seq<Certificate>)
    requires
        chain.len() > 0,
    ensures
        num_intermediates(chain) > store.max_depth ==> verify_spec(store, chain) == Err::<
            (),
            X509Error,
        >(X509Error::ChainTooLong),
        num_intermediates(chain) <= store.max_depth ==> verify_spec(store, chain) != Err::<
            (),
            X509Error,
        >(X509Error::ChainTooLong),
{
}

/// Trust/purpose matching: for a well-linked chain within depth whose
/// anchor is acceptable, verification succeeds exactly when the
/// configured purpose and trust are compatible, and rejects every other
/// pair with `UntrustedChain`.
pub proof fn lemma_trust_purpose_matching(store: X509Store, chain: Seq<Certificate>)
    requires
        chain.len() > 0,
        num_intermediates(chain) <= store.max_depth,
        chain_linked(chain),
        anchor_trusted(store, chain.last()),
    ensures
        trust_compatible_spec(store.purpose, store.trust) ==> verify_spec(store, chain) == Ok::<
            (),
            X509Error,
        >(()),
        !trust_compatible_spec(store.purpose, store.trust) ==> verify_spec(store, chain) == Err::<
            (),
            X509Error,
        >(X509Error::UntrustedChain),
{
}

} // verus!
