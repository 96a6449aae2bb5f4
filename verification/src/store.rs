//! The finalized store: trust anchors, lookups and policy, shared
//! read-only by verification operations. The only mutation after
//! finalization is on-demand growth of the object cache — existing
//! entries never move or change.

use vstd::prelude::*;

use crate::cache::{
    has_id, insert_seq, lemma_has_id_iff, lemma_insert_seq_ids, matching, no_duplicate_ids,
    seq_ids, ObjectCache,
};
use crate::lookup::{multi_scan, DirListing, X509Lookup};
use crate::object::{obj_id, Crl, X509Object};
use crate::policy::{X509Purpose, X509Trust, X509VerifyFlags};

verus! {

/// The newer of two CRLs: by CRL number first, then by date.
pub open spec fn crl_newer(a: Crl, b: Crl) -> bool {
    a.number > b.number || (a.number == b.number && a.next_update > b.next_update)
}

/// The best CRL for issuer hash `h` among the entries of `s`: the
/// newest, and the earliest-inserted among equally new ones.
pub open spec fn best_crl(s: Seq<X509Object>, h: u32) -> Option<Crl>
    decreases s.len(),
{
    if s.len() == 0 {
        Option::None
    } else {
        let rest = best_crl(s.drop_last(), h);
        match s.last() {
            X509Object::Crl(c) => if c.issuer_hash == h {
                match rest {
                    Option::None => Option::Some(c),
                    Option::Some(b) => if crl_newer(c, b) {
                        Option::Some(c)
                    } else {
                        Option::Some(b)
                    },
                }
            } else {
                rest
            },
            _ => rest,
        }
    }
}

/// What [`best_crl`] selects: nothing exactly when no entry is a CRL for
/// `h`; otherwise a CRL for `h` from the entries, with no newer one
/// among them.
pub proof fn lemma_best_crl_props(s: Seq<X509Object>, h: u32)
    ensures
        best_crl(s, h) is None ==> forall|d: Crl|
            d.issuer_hash == h ==> !(#[trigger] s.contains(X509Object::Crl(d))),
        best_crl(s, h) matches Some(c) ==> c.issuer_hash == h && s.contains(X509Object::Crl(c)) && (
        forall|d: Crl|
            d.issuer_hash == h && #[trigger] s.contains(X509Object::Crl(d)) ==> !crl_newer(d, c)),
    decreases s.len(),
{
    if s.len() > 0 {
        let rest = s.drop_last();
        lemma_best_crl_props(rest, h);
        assert forall|d: Crl| #[trigger] s.contains(X509Object::Crl(d)) implies rest.contains(
            X509Object::Crl(d),
        ) || s.last() == X509Object::Crl(d) by {
            let i = choose|i: int| 0 <= i < s.len() && s[i] == X509Object::Crl(d);
            if i < s.len() - 1 {
                assert(rest[i] == X509Object::Crl(d));
            }
        }
        assert forall|d: Crl| #[trigger] rest.contains(X509Object::Crl(d)) implies s.contains(
            X509Object::Crl(d),
        ) by {
            let i = choose|i: int| 0 <= i < rest.len() && rest[i] == X509Object::Crl(d);
            assert(s[i] == X509Object::Crl(d));
        }
        match best_crl(s, h) {
            Option::None => {},
            Option::Some(c) => {
                if s.last() == X509Object::Crl(c) {
                    assert(s[s.len() - 1] == s.last());
                }
            },
        }
    }
}

/// Freshness law for a rescan: once the objects found on disk have
/// joined the cache, a CRL is served, and no CRL for the requested
/// issuer found on disk is newer-numbered than the one served. Together
/// with `find_crl`'s contract — a stale cached CRL always forces the
/// rescan — the lookup never serves a CRL while a newer-numbered one
/// sits in a registered directory.
pub proof fn lemma_no_newer_on_disk(
    cache0: Seq<X509Object>,
    found: Seq<X509Object>,
    h: u32,
    d: Crl,
)
    requires
        found.contains(X509Object::Crl(d)),
        d.issuer_hash == h,
    ensures
        best_crl(insert_seq(cache0, found), h) matches Some(c) && c.number >= d.number,
{
    let s = insert_seq(cache0, found);
    let id = obj_id(X509Object::Crl(d));
    lemma_insert_seq_ids(cache0, found);
    lemma_has_id_iff(found, id);
    assert(has_id(found, id)) by {
        let k = choose|k: int| 0 <= k < found.len() && found[k] == X509Object::Crl(d);
        assert(obj_id(found[k]) == id);
    }
    assert(seq_ids(s).contains(id));
    lemma_has_id_iff(s, id);
    let i = choose|i: int| 0 <= i < s.len() && obj_id(s[i]) == id;
    lemma_best_crl_props(s, h);
    match s[i] {
        X509Object::Crl(twin) => {
            assert(twin.issuer_hash == h && twin.number == d.number);
            assert(s.contains(X509Object::Crl(twin)));
            match best_crl(s, h) {
                Option::Some(c) => {
                    assert(!crl_newer(twin, c));
                },
                Option::None => {
                    assert(false);
                },
            }
        },
        X509Object::Certificate(_) => {
            assert(false);
        },
    }
}

/// Whether the entries hold a CRL for issuer hash `h` that is still
/// fresh at `now` and is the best one.
pub open spec fn fresh_best(s: Seq<X509Object>, h: u32, now: u64) -> bool {
    best_crl(s, h) matches Some(c) && c.fresh_spec(now)
}

/// The finalized trust store: the object cache, the lookup instances,
/// and the policy a verifier enforces.
#[derive(Debug)]
pub struct X509Store {
    /// The object cache, seeded from the builder and grown by lookups.
    pub cache: ObjectCache,
    /// The lookup instances, owned by this store.
    pub lookups: Vec<X509Lookup>,
    /// Maximum number of intermediate CA certificates in a chain.
    pub max_depth: u32,
    /// The purpose chains are verified for.
    pub purpose: X509Purpose,
    /// The trust category required of anchors.
    pub trust: X509Trust,
    /// The chain-validation behavior toggles.
    pub flags: X509VerifyFlags,
}

impl X509Store {
    /// Well-formedness: the cache holds no duplicate identity.
    pub open spec fn wf(self) -> bool {
        no_duplicate_ids(self.cache@)
    }

    /// Returns the cache of certificates and CRLs in this store,
    /// read-only.
    pub fn objects(&self) -> (r: &ObjectCache)
        ensures
            *r == self.cache,
    {
        &self.cache
    }

    /// Returns the lookup instances, in allocation order.
    pub fn lookups(&self) -> (r: &Vec<X509Lookup>)
        ensures
            *r == self.lookups,
    {
        &self.lookups
    }

    /// Returns the maximum number of intermediate CA certificates.
    pub fn max_depth(&self) -> (r: u32)
        ensures
            r == self.max_depth,
    {
        self.max_depth
    }

    /// Returns the purpose chains are verified for.
    pub fn purpose(&self) -> (r: X509Purpose)
        ensures
            r == self.purpose,
    {
        self.purpose
    }

    /// Returns the trust category required of anchors.
    pub fn trust(&self) -> (r: X509Trust)
        ensures
            r == self.trust,
    {
        self.trust
    }

    /// Returns the chain-validation behavior toggles.
    pub fn flags(&self) -> (r: X509VerifyFlags)
        ensures
            r == self.flags,
    {
        self.flags
    }

    /// Returns the cached objects filed under hash `h`, in cache order —
    /// chain building prefers earlier-discovered candidates.
    pub fn cached_by_hash(&self, h: u32) -> (r: Vec<X509Object>)
        ensures
            r@ == matching(self.cache@, h),
    {
        self.cache.find_by_hash(h)
    }

    /// Queries the given directory listings (the registered directories,
    /// in registration order) for objects filed under hash `h`, inserts
    /// the first-seen ones into the cache, and returns the candidates.
    ///
    /// The cache only grows: every previously returned entry stays at
    /// its position.
    pub fn lookup_by_hash(&mut self, listings: &Vec<DirListing>, h: u32) -> (found: Vec<
        X509Object,
    >)
        requires
            old(self).wf(),
        ensures
            found@ == multi_scan(listings@, h),
            final(self).cache@ == insert_seq(old(self).cache@, found@),
            final(self).wf(),
            final(self).cache@.len() >= old(self).cache@.len(),
            forall|k: int|
                0 <= k < old(self).cache@.len() ==> final(self).cache@[k] == old(self).cache@[k],
            final(self).lookups == old(self).lookups,
            final(self).max_depth == old(self).max_depth,
            final(self).purpose == old(self).purpose,
            final(self).trust == old(self).trust,
            final(self).flags == old(self).flags,
    {
        let found = crate::lookup::hashed_lookup_all(listings, h);
        self.cache.insert_all(&found);
        proof {
            crate::cache::lemma_insert_seq_wf(old(self).cache@, found@);
            crate::cache::lemma_insert_seq_prefix(old(self).cache@, found@);
        }
        found
    }

    /// Returns the best CRL for issuer hash `h`, never serving a stale
    /// one while a fresher might exist on disk: a fresh cached CRL is
    /// served as is; with none, the registered directories are re-read
    /// (through the given listings), newly found objects join the cache,
    /// and the newest candidate overall is returned.
    pub fn find_crl(&mut self, listings: &Vec<DirListing>, h: u32, now: u64) -> (r: Option<Crl>)
        requires
            old(self).wf(),
        ensures
            fresh_best(old(self).cache@, h, now) ==> r == best_crl(old(self).cache@, h)
                && *final(self) == *old(self),
            !fresh_best(old(self).cache@, h, now) ==> final(self).cache@ == insert_seq(
                old(self).cache@,
                multi_scan(listings@, h),
            ) && r == best_crl(final(self).cache@, h),
            final(self).wf(),
            final(self).lookups == old(self).lookups,
            final(self).max_depth == old(self).max_depth,
            final(self).purpose == old(self).purpose,
            final(self).trust == old(self).trust,
            final(self).flags == old(self).flags,
    {
        let cached = best_cached_crl(&self.cache, h);
        if let Some(c) = cached {
            if c.is_fresh(now) {
                return Some(c);
            }
        }
        let _found = self.lookup_by_hash(listings, h);
        best_cached_crl(&self.cache, h)
    }
}

/// Returns the best CRL for issuer hash `h` among the cached entries.
fn best_cached_crl(cache: &ObjectCache, h: u32) -> (r: Option<Crl>)
    ensures
        r == best_crl(cache@, h),
{
    let n = cache.len();
    let mut best: Option<Crl> = None;
    let mut i: usize = 0;
    proof {
        assert(cache@.take(0) =~= Seq::<X509Object>::empty());
    }
    while i < n
        invariant
            n == cache@.len(),
            0 <= i <= n,
            best == best_crl(cache@.take(i as int), h),
        decreases n - i,
    {
        let o = *cache.get(i);
        proof {
            assert(cache@.take(i + 1).drop_last() =~= cache@.take(i as int));
            assert(cache@.take(i + 1).last() == cache@[i as int]);
        }
        if let X509Object::Crl(c) = o {
            if c.issuer_hash == h {
                best = match best {
                    None => Some(c),
                    Some(b) => {
                        if c.number > b.number || (c.number == b.number && c.next_update
                            > b.next_update) {
                            Some(c)
                        } else {
                            Some(b)
                        }
                    },
                };
            }
        }
        i += 1;
    }
    proof {
        assert(cache@.take(n as int) =~= cache@);
    }
    best
}

} // verus!
