//! The store builder: a staging object that accumulates trusted
//! certificates, lookup instances and policy, and is consumed exactly
//! once to produce an [`X509Store`].
//!
//! Consumption is enforced by the type system: `build` takes the builder
//! by value, so no builder method can be called after it.
//!
//! Reading files, directories and environment variables is owned by the
//! caller; it hands the outcome in as a [`FileSource`] and a
//! [`DirSource`], and every decision — which error wins, what is staged,
//! what is registered — is made and verified here.

use vstd::prelude::*;

use crate::cache::{
    count_of, insert_seq, lemma_round_trip, matching, sole_carrier, ObjectCache,
};
use crate::errors::X509Error;
use crate::lookup::{DirSource, LookupDir, SslFiletype, X509Lookup, X509LookupMethod};
use crate::object::{Certificate, X509Object};
use crate::policy::{X509Purpose, X509Trust, X509VerifyFlags};
use crate::store::X509Store;

verus! {

/// The default maximum number of intermediate CA certificates in a
/// verified chain, until overridden with `set_depth`.
pub const DEFAULT_MAX_DEPTH: u32 = 100;

/// How many lookup instances one builder can allocate.
pub const MAX_LOOKUPS: usize = 64;

/// What loading a bundle file hands the builder: the parsed objects, or
/// the reason there are none. Reading and parsing the file is owned by
/// the caller; the decision is made here.
#[derive(Clone, Debug)]
pub enum FileSource {
    /// No file was named.
    Absent,
    /// The named file cannot be read.
    Unreadable,
    /// The named file holds no valid certificate/CRL bundle.
    Malformed,
    /// The certificates and CRLs of a valid bundle, in file order.
    Bundle(Vec<X509Object>),
}

/// The objects a file source contributes: a bundle's contents, else
/// nothing.
pub open spec fn bundle_of(f: FileSource) -> Seq<X509Object> {
    match f {
        FileSource::Bundle(v) => v@,
        _ => Seq::empty(),
    }
}

/// A file source that does not force a failure.
pub open spec fn file_usable(f: FileSource) -> bool {
    f matches FileSource::Absent || f matches FileSource::Bundle(_)
}

/// A directory source that does not force a failure.
pub open spec fn dir_usable(d: DirSource) -> bool {
    d matches DirSource::Absent || d matches DirSource::Present(_)
}

/// A lookup holding exactly one registered hashed directory.
pub open spec fn hash_dir_registered(lk: X509Lookup, p: String, ft: SslFiletype) -> bool {
    lk.method == X509LookupMethod::HashDir && lk.dirs@ == seq![(LookupDir { path: p, file_type: ft })]
}

/// A staging object for an [`X509Store`]: the explicitly added
/// certificates and loaded objects in order, the lookup instances, and
/// the policy values.
#[derive(Debug)]
pub struct X509StoreBuilder {
    /// Explicitly added and loaded objects, in arrival order; duplicates
    /// are allowed here and deduplicated by the finalized store's cache.
    pub staged: Vec<X509Object>,
    /// The lookup instances allocated so far.
    pub lookups: Vec<X509Lookup>,
    /// Maximum number of intermediate CA certificates in a chain.
    pub max_depth: u32,
    /// The purpose chains are verified for.
    pub purpose: X509Purpose,
    /// The trust category required of anchors.
    pub trust: X509Trust,
    /// The chain-validation behavior toggles.
    pub flags: X509VerifyFlags,
}

/// Two builder states carrying the same policy values.
pub open spec fn same_policy(a: X509StoreBuilder, b: X509StoreBuilder) -> bool {
    a.max_depth == b.max_depth && a.purpose == b.purpose && a.trust == b.trust && a.flags == b.flags
}

impl X509StoreBuilder {
    /// Returns a builder for a certificate store.
    ///
    /// The store is initially empty: nothing staged, no lookup, the
    /// default depth, the `Any` purpose, `Default` trust and no flag.
    pub fn new() -> (r: Result<X509StoreBuilder, X509Error>)
        ensures
            r is Ok,
            r matches Ok(b) ==> b.staged@.len() == 0 && b.lookups@.len() == 0 && b.max_depth
                == DEFAULT_MAX_DEPTH && b.purpose == X509Purpose::Any && b.trust
                == X509Trust::Default && b.flags.bits == 0,
    {
        Ok(
            X509StoreBuilder {
                staged: Vec::new(),
                lookups: Vec::new(),
                max_depth: DEFAULT_MAX_DEPTH,
                purpose: X509Purpose::Any,
                trust: X509Trust::Default,
                flags: X509VerifyFlags { bits: 0 },
            },
        )
    }

    /// Adds a certificate to the pending trust-anchor set. Duplicates
    /// are accepted here; the finalized store's cache deduplicates.
    ///
    /// Certificates arrive as well-formed plain values, so the
    /// malformed-handle failure (`InvalidCertificate`) belongs to the
    /// collaborator that constructs them, not to this call.
    pub fn add_cert(&mut self, cert: Certificate) -> (r: Result<(), X509Error>)
        ensures
            r is Ok,
            final(self).staged@ == old(self).staged@.push(X509Object::Certificate(cert)),
            final(self).lookups == old(self).lookups,
            same_policy(*final(self), *old(self)),
    {
        self.staged.push(X509Object::Certificate(cert));
        Ok(())
    }

    /// Sets the maximum number of intermediate CA certificates permitted
    /// in a verified chain. A negative value is rejected with
    /// `InvalidArgument` and nothing changes.
    pub fn set_depth(&mut self, depth: i32) -> (r: Result<(), X509Error>)
        ensures
            depth < 0 ==> r == Err::<(), X509Error>(X509Error::InvalidArgument) && *final(self)
                == *old(self),
            depth >= 0 ==> r is Ok && final(self).max_depth == depth as u32 && final(self).staged
                == old(self).staged && final(self).lookups == old(self).lookups && final(self).purpose == old(self).purpose && final(self).trust == old(self).trust && final(self).flags == old(self).flags,
    {
        if depth < 0 {
            Err(X509Error::InvalidArgument)
        } else {
            self.max_depth = depth as u32;
            Ok(())
        }
    }

    /// Sets the purpose all subsequent verifications against this store
    /// are performed for. Last write wins.
    pub fn set_purpose(&mut self, purpose: X509Purpose) -> (r: Result<(), X509Error>)
        ensures
            r is Ok,
            final(self).purpose == purpose,
            final(self).staged == old(self).staged,
            final(self).lookups == old(self).lookups,
            final(self).max_depth == old(self).max_depth,
            final(self).trust == old(self).trust,
            final(self).flags == old(self).flags,
    {
        self.purpose = purpose;
        Ok(())
    }

    /// Sets the trust category required of anchors. Last write wins.
    pub fn set_trust(&mut self, trust: X509Trust) -> (r: Result<(), X509Error>)
        ensures
            r is Ok,
            final(self).trust == trust,
            final(self).staged == old(self).staged,
            final(self).lookups == old(self).lookups,
            final(self).max_depth == old(self).max_depth,
            final(self).purpose == old(self).purpose,
            final(self).flags == old(self).flags,
    {
        self.trust = trust;
        Ok(())
    }

    /// Adds the given flags to the active flag set. Flags accumulate
    /// across calls — configuration layers calling in turn never lose
    /// each other's bits; there is no getter and no way to clear.
    pub fn set_flags(&mut self, flags: X509VerifyFlags) -> (r: Result<(), X509Error>)
        ensures
            r is Ok,
            final(self).flags.bits == old(self).flags.bits | flags.bits,
            final(self).staged == old(self).staged,
            final(self).lookups == old(self).lookups,
            final(self).max_depth == old(self).max_depth,
            final(self).purpose == old(self).purpose,
            final(self).trust == old(self).trust,
    {
        self.flags = X509VerifyFlags { bits: self.flags.bits | flags.bits };
        Ok(())
    }

    /// Stages a loaded bundle and registers a hashed directory; the
    /// common part of `load_locations` and `set_default_paths`.
    fn absorb_sources(&mut self, file: FileSource, dir: DirSource) -> (r: Result<(), X509Error>)
        ensures
            (file matches FileSource::Unreadable || dir matches DirSource::Unreadable) ==> r
                == Err::<(), X509Error>(X509Error::IoError) && *final(self) == *old(self),
            (file matches FileSource::Malformed && !(dir matches DirSource::Unreadable)) ==> r
                == Err::<(), X509Error>(X509Error::ParseError) && *final(self) == *old(self),
            (file_usable(file) && dir_usable(dir)) ==> r is Ok && final(self).staged@ == old(self).staged@ + bundle_of(file) && same_policy(*final(self), *old(self)),
            (file_usable(file) && dir matches DirSource::Absent) ==> final(self).lookups == old(self).lookups,
            dir matches DirSource::Present(p) ==> (file_usable(file) ==> final(self).lookups@.len()
                == old(self).lookups@.len() + 1 && hash_dir_registered(
                final(self).lookups@.last(),
                p,
                SslFiletype::Pem,
            ) && final(self).lookups@.take(old(self).lookups@.len() as int) == old(self).lookups@),
    {
        if matches!(file, FileSource::Unreadable) || matches!(dir, DirSource::Unreadable) {
            return Err(X509Error::IoError);
        }
        if matches!(file, FileSource::Malformed) {
            return Err(X509Error::ParseError);
        }
        let ghost staged0 = self.staged@;
        if let FileSource::Bundle(v) = file {
            let mut v = v;
            self.staged.append(&mut v);
        }
        proof {
            assert(self.staged@ =~= staged0 + bundle_of(file));
        }
        if let DirSource::Present(p) = dir {
            let ghost lookups0 = self.lookups@;
            let mut dirs: Vec<LookupDir> = Vec::new();
            dirs.push(LookupDir { path: p, file_type: SslFiletype::Pem });
            self.lookups.push(X509Lookup { method: X509LookupMethod::HashDir, dirs });
            proof {
                assert(self.lookups@.last().dirs@ =~= seq![
                    (LookupDir {
                        path: self.lookups@.last().dirs@[0].path,
                        file_type: SslFiletype::Pem,
                    }),
                ]);
                assert(self.lookups@.take(lookups0.len() as int) =~= lookups0);
            }
        }
        Ok(())
    }

    /// Loads parsed bundle objects and registers a directory as a
    /// hashed-lookup source. At least one of the two must be named:
    /// both absent is rejected with `InvalidArgument`. An unreadable
    /// path is rejected with `IoError`, malformed bundle contents with
    /// `ParseError`; any failure leaves the builder unchanged
    /// (fail-fast).
    pub fn load_locations(&mut self, file: FileSource, dir: DirSource) -> (r: Result<
        (),
        X509Error,
    >)
        ensures
            (file matches FileSource::Absent && dir matches DirSource::Absent) ==> r == Err::<
                (),
                X509Error,
            >(X509Error::InvalidArgument) && *final(self) == *old(self),
            (file matches FileSource::Unreadable || dir matches DirSource::Unreadable) ==> r
                == Err::<(), X509Error>(X509Error::IoError) && *final(self) == *old(self),
            (file matches FileSource::Malformed && !(dir matches DirSource::Unreadable)) ==> r
                == Err::<(), X509Error>(X509Error::ParseError) && *final(self) == *old(self),
            (file_usable(file) && dir_usable(dir) && !(file matches FileSource::Absent
                && dir matches DirSource::Absent)) ==> r is Ok && final(self).staged@ == old(self).staged@ + bundle_of(file) && same_policy(*final(self), *old(self)),
            (file matches FileSource::Bundle(_) && dir matches DirSource::Absent) ==> final(self).lookups == old(self).lookups,
            dir matches DirSource::Present(p) ==> (file_usable(file) ==> final(self).lookups@.len()
                == old(self).lookups@.len() + 1 && hash_dir_registered(
                final(self).lookups@.last(),
                p,
                SslFiletype::Pem,
            ) && final(self).lookups@.take(old(self).lookups@.len() as int) == old(self).lookups@),
    {
        if matches!(file, FileSource::Absent) && matches!(dir, DirSource::Absent) {
            return Err(X509Error::InvalidArgument);
        }
        self.absorb_sources(file, dir)
    }

    /// Loads trust material from the caller's default locations — an
    /// environment variable naming a bundle file and one naming a hashed
    /// directory, read by the caller. With neither configured this
    /// succeeds as a no-op with zero objects loaded; a configured but
    /// unreadable default is rejected with `IoError`, malformed bundle
    /// contents with `ParseError`; any failure leaves the builder
    /// unchanged.
    pub fn set_default_paths(&mut self, file: FileSource, dir: DirSource) -> (r: Result<
        (),
        X509Error,
    >)
        ensures
            (file matches FileSource::Unreadable || dir matches DirSource::Unreadable) ==> r
                == Err::<(), X509Error>(X509Error::IoError) && *final(self) == *old(self),
            (file matches FileSource::Malformed && !(dir matches DirSource::Unreadable)) ==> r
                == Err::<(), X509Error>(X509Error::ParseError) && *final(self) == *old(self),
            (file_usable(file) && dir_usable(dir)) ==> r is Ok && final(self).staged@ == old(self).staged@ + bundle_of(file) && same_policy(*final(self), *old(self)),
            (file_usable(file) && dir matches DirSource::Absent) ==> final(self).lookups == old(self).lookups,
            dir matches DirSource::Present(p) ==> (file_usable(file) ==> final(self).lookups@.len()
                == old(self).lookups@.len() + 1 && hash_dir_registered(
                final(self).lookups@.last(),
                p,
                SslFiletype::Pem,
            ) && final(self).lookups@.take(old(self).lookups@.len() as int) == old(self).lookups@),
    {
        self.absorb_sources(file, dir)
    }

    /// Allocates a new lookup instance of the given method, attached to
    /// this builder, and returns its slot; configure it through
    /// `lookup_mut`. Fails with `ResourceExhausted` when no further slot
    /// can be allocated.
    pub fn add_lookup(&mut self, method: X509LookupMethod) -> (r: Result<usize, X509Error>)
        ensures
            old(self).lookups@.len() >= MAX_LOOKUPS ==> r == Err::<usize, X509Error>(
                X509Error::ResourceExhausted,
            ) && *final(self) == *old(self),
            old(self).lookups@.len() < MAX_LOOKUPS ==> r == Ok::<usize, X509Error>(
                old(self).lookups@.len() as usize,
            ) && final(self).lookups@.len() == old(self).lookups@.len() + 1 && final(self).lookups@.last().method == method && final(self).lookups@.last().dirs@.len() == 0
                && final(self).lookups@.take(old(self).lookups@.len() as int) == old(self).lookups@
                && final(self).staged == old(self).staged && same_policy(
                *final(self),
                *old(self),
            ),
    {
        if self.lookups.len() >= MAX_LOOKUPS {
            return Err(X509Error::ResourceExhausted);
        }
        let slot = self.lookups.len();
        self.lookups.push(X509Lookup::new(method));
        proof {
            assert(self.lookups@.take(old(self).lookups@.len() as int) =~= old(self).lookups@);
        }
        Ok(slot)
    }

    /// Borrows the lookup in the given slot for configuration.
    pub fn lookup_mut(&mut self, slot: usize) -> (r: &mut X509Lookup)
        requires
            slot < old(self).lookups@.len(),
        ensures
            *r == old(self).lookups@[slot as int],
            final(self).lookups@ == old(self).lookups@.update(slot as int, *final(r)),
            final(self).staged == old(self).staged,
            same_policy(*final(self), *old(self)),
    {
        &mut self.lookups[slot]
    }

    /// Constructs the store: the cache is seeded with the staged
    /// objects in order, deduplicated by identity; the lookups and the
    /// policy carry over. Consumes the builder — no builder method can
    /// be called afterwards.
    pub fn build(self) -> (r: X509Store)
        ensures
            r.cache@ == insert_seq(Seq::empty(), self.staged@),
            r.cache.wf(),
            r.lookups == self.lookups,
            r.max_depth == self.max_depth,
            r.purpose == self.purpose,
            r.trust == self.trust,
            r.flags == self.flags,
    {
        let mut cache = ObjectCache::new();
        cache.insert_all(&self.staged);
        proof {
            crate::cache::lemma_insert_seq_wf(Seq::empty(), self.staged@);
        }
        X509Store {
            cache,
            lookups: self.lookups,
            max_depth: self.max_depth,
            purpose: self.purpose,
            trust: self.trust,
            flags: self.flags,
        }
    }
}

/// Round trip through finalization: an object staged into a builder —
/// alone among the staged objects in carrying its identity — appears in
/// the built store's cache exactly once, and a query by its name hash
/// finds it exactly once.
pub proof fn lemma_build_round_trip(b: X509StoreBuilder, s: X509Store, o: X509Object)
    requires
        s.cache@ == insert_seq(Seq::empty(), b.staged@),
        b.staged@.contains(o),
        sole_carrier(b.staged@, o),
    ensures
        count_of(s.cache@, o) == 1,
        count_of(matching(s.cache@, o.lookup_hash_spec()), o) == 1,
{
    lemma_round_trip(b.staged@, o);
}

} // verus!
