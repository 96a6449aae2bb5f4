//! Certificates, certificate revocation lists, and the tagged union the
//! object cache stores, together with the identity rule that deduplication
//! goes by.

use vstd::prelude::*;

verus! {

/// A trusted-certificate value.
///
/// The ASN.1/DER material behind it is owned by an external collaborator;
/// this value carries what the store's policy reads: the hash of the
/// subject name, the hash of the issuer name, and the serial number.
#[derive(Clone, Copy, Debug, PartialEq, Eq, Structural)]
pub struct Certificate {
    /// Hash of the subject name, as used by hashed-directory lookup.
    pub subject_hash: u32,
    /// Hash of the issuer name.
    pub issuer_hash: u32,
    /// Serial number; part of the certificate's identity.
    pub serial: u64,
}

impl Certificate {
    /// A certificate whose issuer is its own subject.
    pub open spec fn self_signed(self) -> bool {
        self.subject_hash == self.issuer_hash
    }

    /// Whether this certificate's issuer is its own subject.
    pub fn is_self_signed(&self) -> (r: bool)
        ensures
            r == self.self_signed(),
    {
        self.subject_hash == self.issuer_hash
    }
}

/// A certificate-revocation-list value, carrying what freshness and
/// lookup decisions read: the issuer-name hash, the CRL number, and the
/// time after which the list is stale.
#[derive(Clone, Copy, Debug, PartialEq, Eq, Structural)]
pub struct Crl {
    /// Hash of the issuer name, as used by hashed-directory lookup.
    pub issuer_hash: u32,
    /// Monotonically increasing CRL number; part of the list's identity.
    pub number: u64,
    /// The time after which this list is stale.
    pub next_update: u64,
}

impl Crl {
    /// A list is fresh at `now` until its next scheduled update.
    pub open spec fn fresh_spec(self, now: u64) -> bool {
        self.next_update >= now
    }

    /// Whether this list is still fresh at `now`.
    pub fn is_fresh(&self, now: u64) -> (r: bool)
        ensures
            r == self.fresh_spec(now),
    {
        self.next_update >= now
    }
}

/// An entry of the object cache: a certificate or a CRL.
#[derive(Clone, Copy, Debug, PartialEq, Eq, Structural)]
pub enum X509Object {
    Certificate(Certificate),
    Crl(Crl),
}

impl X509Object {
    /// The name hash an object is discovered by: the subject for a
    /// certificate, the issuer for a CRL.
    pub open spec fn lookup_hash_spec(self) -> u32 {
        match self {
            X509Object::Certificate(c) => c.subject_hash,
            X509Object::Crl(c) => c.issuer_hash,
        }
    }

    /// Returns the name hash this object is discovered by.
    pub fn lookup_hash(&self) -> (h: u32)
        ensures
            h == self.lookup_hash_spec(),
    {
        match self {
            X509Object::Certificate(c) => c.subject_hash,
            X509Object::Crl(c) => c.issuer_hash,
        }
    }
}

/// The identity an object is deduplicated by: the variant tag, the name
/// hash, and the serial (certificate) or CRL number (CRL).
pub open spec fn obj_id(o: X509Object) -> (bool, u32, u64) {
    match o {
        X509Object::Certificate(c) => (true, c.subject_hash, c.serial),
        X509Object::Crl(c) => (false, c.issuer_hash, c.number),
    }
}

/// Decides whether two objects share an identity under [`obj_id`].
pub fn same_identity(a: &X509Object, b: &X509Object) -> (r: bool)
    ensures
        r == (obj_id(*a) == obj_id(*b)),
{
    match (a, b) {
        (X509Object::Certificate(x), X509Object::Certificate(y)) => {
            x.subject_hash == y.subject_hash && x.serial == y.serial
        },
        (X509Object::Crl(x), X509Object::Crl(y)) => {
            x.issuer_hash == y.issuer_hash && x.number == y.number
        },
        _ => false,
    }
}

} // verus!
