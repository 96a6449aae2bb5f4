//! An X.509 certificate trust store: a builder accumulates trusted
//! certificate-authority certificates, lookup methods and verification
//! policy, then finalizes into an immutable-shape store whose object cache
//! and policy back chain verification.
//!
//! Certificate and CRL contents (ASN.1/DER) are owned by an external
//! collaborator; here they appear as plain values exposing the fields that
//! the store's policy reads (subject/issuer name hashes, serial numbers,
//! CRL numbers and update times).

pub mod builder;
pub mod cache;
pub mod errors;
pub mod lookup;
pub mod object;
pub mod policy;
pub mod store;
pub mod verify;

pub use builder::X509StoreBuilder;
pub use cache::ObjectCache;
pub use errors::X509Error;
pub use lookup::X509Lookup;
pub use store::X509Store;
pub use object::{Certificate, Crl, X509Object};
pub use policy::{X509Purpose, X509Trust, X509VerifyFlags};
