//! Policy values: the purpose a chain is verified for, the trust category
//! of the store's anchors, and the flag set that toggles verification
//! behavior — together with the fixed purpose/trust compatibility table.

use vstd::prelude::*;

use crate::errors::X509Error;

verus! {

/// Intended certificate usage that a verification is performed for.
///
/// A closed enumeration; raw integer codes exist only as an escape hatch
/// for integration with legacy policy engines.
#[derive(Clone, Copy, Debug, PartialEq, Eq, Structural)]
pub enum X509Purpose {
    SslClient,
    SslServer,
    NsSslServer,
    SmimeSign,
    SmimeEncrypt,
    CrlSign,
    Any,
    OcspHelper,
    TimestampSign,
}

impl X509Purpose {
    /// The conventional integer code of each purpose.
    pub open spec fn raw_spec(self) -> i32 {
        match self {
            X509Purpose::SslClient => 1,
            X509Purpose::SslServer => 2,
            X509Purpose::NsSslServer => 3,
            X509Purpose::SmimeSign => 4,
            X509Purpose::SmimeEncrypt => 5,
            X509Purpose::CrlSign => 6,
            X509Purpose::Any => 7,
            X509Purpose::OcspHelper => 8,
            X509Purpose::TimestampSign => 9,
        }
    }

    /// Whether a raw code names a purpose of the closed set.
    pub open spec fn valid_raw(raw: i32) -> bool {
        1 <= raw <= 9
    }

    /// Returns the raw integer code represented by this purpose.
    pub fn as_raw(&self) -> (r: i32)
        ensures
            r == self.raw_spec(),
    {
        match self {
            X509Purpose::SslClient => 1,
            X509Purpose::SslServer => 2,
            X509Purpose::NsSslServer => 3,
            X509Purpose::SmimeSign => 4,
            X509Purpose::SmimeEncrypt => 5,
            X509Purpose::CrlSign => 6,
            X509Purpose::Any => 7,
            X509Purpose::OcspHelper => 8,
            X509Purpose::TimestampSign => 9,
        }
    }

    /// Constructs a purpose from a raw integer code; a code outside the
    /// closed set is rejected with `UnsupportedPolicyValue`.
    pub fn from_raw(raw: i32) -> (r: Result<X509Purpose, X509Error>)
        ensures
            Self::valid_raw(raw) <==> r is Ok,
            r matches Ok(p) ==> p.raw_spec() == raw,
            r matches Err(e) ==> e == X509Error::UnsupportedPolicyValue,
    {
        match raw {
            1 => Ok(X509Purpose::SslClient),
            2 => Ok(X509Purpose::SslServer),
            3 => Ok(X509Purpose::NsSslServer),
            4 => Ok(X509Purpose::SmimeSign),
            5 => Ok(X509Purpose::SmimeEncrypt),
            6 => Ok(X509Purpose::CrlSign),
            7 => Ok(X509Purpose::Any),
            8 => Ok(X509Purpose::OcspHelper),
            9 => Ok(X509Purpose::TimestampSign),
            _ => Err(X509Error::UnsupportedPolicyValue),
        }
    }
}

/// The category of operations the store's anchors are trusted to vouch
/// for. A closed enumeration, like [`X509Purpose`].
#[derive(Clone, Copy, Debug, PartialEq, Eq, Structural)]
pub enum X509Trust {
    Default,
    Compat,
    SslClient,
    SslServer,
    Email,
    ObjectSign,
    OcspSign,
    OcspRequest,
    Tsa,
}

impl X509Trust {
    /// The conventional integer code of each trust category.
    pub open spec fn raw_spec(self) -> i32 {
        match self {
            X509Trust::Default => 0,
            X509Trust::Compat => 1,
            X509Trust::SslClient => 2,
            X509Trust::SslServer => 3,
            X509Trust::Email => 4,
            X509Trust::ObjectSign => 5,
            X509Trust::OcspSign => 6,
            X509Trust::OcspRequest => 7,
            X509Trust::Tsa => 8,
        }
    }

    /// Whether a raw code names a trust category of the closed set.
    pub open spec fn valid_raw(raw: i32) -> bool {
        0 <= raw <= 8
    }

    /// Returns the raw integer code represented by this trust category.
    pub fn as_raw(&self) -> (r: i32)
        ensures
            r == self.raw_spec(),
    {
        match self {
            X509Trust::Default => 0,
            X509Trust::Compat => 1,
            X509Trust::SslClient => 2,
            X509Trust::SslServer => 3,
            X509Trust::Email => 4,
            X509Trust::ObjectSign => 5,
            X509Trust::OcspSign => 6,
            X509Trust::OcspRequest => 7,
            X509Trust::Tsa => 8,
        }
    }

    /// Constructs a trust category from a raw integer code; a code outside
    /// the closed set is rejected with `UnsupportedPolicyValue`.
    pub fn from_raw(raw: i32) -> (r: Result<X509Trust, X509Error>)
        ensures
            Self::valid_raw(raw) <==> r is Ok,
            r matches Ok(t) ==> t.raw_spec() == raw,
            r matches Err(e) ==> e == X509Error::UnsupportedPolicyValue,
    {
        match raw {
            0 => Ok(X509Trust::Default),
            1 => Ok(X509Trust::Compat),
            2 => Ok(X509Trust::SslClient),
            3 => Ok(X509Trust::SslServer),
            4 => Ok(X509Trust::Email),
            5 => Ok(X509Trust::ObjectSign),
            6 => Ok(X509Trust::OcspSign),
            7 => Ok(X509Trust::OcspRequest),
            8 => Ok(X509Trust::Tsa),
            _ => Err(X509Error::UnsupportedPolicyValue),
        }
    }
}

/// The trust category that each purpose requires of a trust anchor.
///
/// Beyond the required category, `Compat` and `Default` trust are accepted
/// for every purpose, and the `Any` purpose accepts every category; see
/// [`trust_compatible_spec`].
pub open spec fn required_trust(p: X509Purpose) -> X509Trust {
    match p {
        X509Purpose::SslClient => X509Trust::SslClient,
        X509Purpose::SslServer => X509Trust::SslServer,
        X509Purpose::NsSslServer => X509Trust::SslServer,
        X509Purpose::SmimeSign => X509Trust::Email,
        X509Purpose::SmimeEncrypt => X509Trust::Email,
        X509Purpose::CrlSign => X509Trust::Compat,
        X509Purpose::Any => X509Trust::Default,
        X509Purpose::OcspHelper => X509Trust::Compat,
        X509Purpose::TimestampSign => X509Trust::Tsa,
    }
}

/// The fixed compatibility table of the chain-verification contract: a
/// trust category matches a purpose when it is the purpose's required
/// category, or one of the two catch-all categories `Compat` and
/// `Default`; the `Any` purpose matches every category.
pub open spec fn trust_compatible_spec(p: X509Purpose, t: X509Trust) -> bool {
    p == X509Purpose::Any || t == required_trust(p) || t == X509Trust::Compat || t
        == X509Trust::Default
}

/// Decides the compatibility table of [`trust_compatible_spec`].
pub fn trust_compatible(p: X509Purpose, t: X509Trust) -> (r: bool)
    ensures
        r == trust_compatible_spec(p, t),
{
    if matches!(p, X509Purpose::Any) {
        true
    } else if matches!(t, X509Trust::Compat) || matches!(t, X509Trust::Default) {
        true
    } else {
        let req = match p {
            X509Purpose::SslClient => X509Trust::SslClient,
            X509Purpose::SslServer => X509Trust::SslServer,
            X509Purpose::NsSslServer => X509Trust::SslServer,
            X509Purpose::SmimeSign => X509Trust::Email,
            X509Purpose::SmimeEncrypt => X509Trust::Email,
            X509Purpose::CrlSign => X509Trust::Compat,
            X509Purpose::Any => X509Trust::Default,
            X509Purpose::OcspHelper => X509Trust::Compat,
            X509Purpose::TimestampSign => X509Trust::Tsa,
        };
        t == req
    }
}

/// Enables certificate-revocation-list checking for the chain's leaf.
pub const FLAG_CRL_CHECK: u64 = 0x4;

/// Enables certificate-revocation-list checking for every chain element.
pub const FLAG_CRL_CHECK_ALL: u64 = 0x8;

/// Applies strict X.509 conformance checks to every chain element.
pub const FLAG_X509_STRICT: u64 = 0x20;

/// Allows a chain to be trust-anchored at a non-self-signed certificate
/// that is present in the store.
pub const FLAG_PARTIAL_CHAIN: u64 = 0x80000;

/// A bitset of chain-validation behavior toggles, composable by union.
#[derive(Clone, Copy, Debug, PartialEq, Eq, Structural)]
pub struct X509VerifyFlags {
    pub bits: u64,
}

impl X509VerifyFlags {
    /// The empty flag set.
    pub fn empty() -> (r: X509VerifyFlags)
        ensures
            r.bits == 0,
    {
        X509VerifyFlags { bits: 0 }
    }

    /// The flag set holding exactly the given bits.
    pub fn from_bits(bits: u64) -> (r: X509VerifyFlags)
        ensures
            r.bits == bits,
    {
        X509VerifyFlags { bits }
    }

    /// Returns the raw bits of this flag set.
    pub fn bits(&self) -> (r: u64)
        ensures
            r == self.bits,
    {
        self.bits
    }

    /// The union of two flag sets.
    pub fn union(&self, other: X509VerifyFlags) -> (r: X509VerifyFlags)
        ensures
            r.bits == self.bits | other.bits,
    {
        X509VerifyFlags { bits: self.bits | other.bits }
    }

    /// Whether every bit of `other` is set in this flag set.
    pub fn contains(&self, other: X509VerifyFlags) -> (r: bool)
        ensures
            r == (self.bits & other.bits == other.bits),
    {
        self.bits & other.bits == other.bits
    }
}

} // verus!
