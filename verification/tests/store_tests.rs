use x509_store::builder::{FileSource, X509StoreBuilder, DEFAULT_MAX_DEPTH, MAX_LOOKUPS};
use x509_store::errors::X509Error;
use x509_store::lookup::{
    hashed_lookup, hashed_name, DirFile, DirListing, DirSource, SslFiletype, X509Lookup,
    X509LookupMethod,
};
use x509_store::object::{Certificate, Crl, X509Object};
use x509_store::policy::{
    trust_compatible, X509Purpose, X509Trust, X509VerifyFlags, FLAG_CRL_CHECK, FLAG_CRL_CHECK_ALL,
    FLAG_PARTIAL_CHAIN, FLAG_X509_STRICT,
};
use x509_store::verify::verify_chain;

fn cert(subject: u32, issuer: u32, serial: u64) -> Certificate {
    Certificate {
        subject_hash: subject,
        issuer_hash: issuer,
        serial,
    }
}

fn crl(issuer: u32, number: u64, next_update: u64) -> Crl {
    Crl {
        issuer_hash: issuer,
        number,
        next_update,
    }
}

fn fresh_builder() -> X509StoreBuilder {
    X509StoreBuilder::new().unwrap()
}

#[test]
fn new_builder_defaults() {
    let b = fresh_builder();
    let store = b.build();
    assert_eq!(store.max_depth(), DEFAULT_MAX_DEPTH);
    assert_eq!(store.purpose(), X509Purpose::Any);
    assert_eq!(store.trust(), X509Trust::Default);
    assert_eq!(store.flags().bits(), 0);
    assert_eq!(store.objects().len(), 0);
}

#[test]
fn round_trip_added_cert_found_once_by_subject() {
    let root = cert(5, 5, 1);
    let mut b = fresh_builder();
    b.add_cert(root).unwrap();
    b.add_cert(root).unwrap(); // duplicate insert is allowed here
    let store = b.build();
    // deduplicated in the finalized store, found by its subject hash
    assert_eq!(store.objects().len(), 1);
    let found = store.cached_by_hash(5);
    assert_eq!(found.len(), 1);
    assert_eq!(found[0], X509Object::Certificate(root));
}

#[test]
fn cache_insert_reports_duplicates() {
    let mut b = fresh_builder();
    b.add_cert(cert(1, 1, 7)).unwrap();
    let mut store = b.build();
    // same identity (subject + serial), different issuer field
    let dup = X509Object::Certificate(cert(1, 9, 7));
    let distinct = X509Object::Certificate(cert(1, 1, 8));
    assert_eq!(store.cache.insert(dup), false);
    assert_eq!(store.cache.insert(distinct), true);
    assert_eq!(store.cache.len(), 2);
}

#[test]
fn insert_count_independent_of_arrival_order() {
    let a = X509Object::Certificate(cert(1, 1, 1));
    let b = X509Object::Certificate(cert(2, 2, 2));
    let c = X509Object::Crl(crl(3, 1, 10));
    // five arrivals, three distinct identities, two orders
    let batch1 = vec![a, b, a, c, b];
    let batch2 = vec![c, b, b, a, a];
    let mut store1 = fresh_builder().build();
    for o in batch1 {
        store1.cache.insert(o);
    }
    let mut store2 = fresh_builder().build();
    for o in batch2 {
        store2.cache.insert(o);
    }
    assert_eq!(store1.cache.len(), 3);
    assert_eq!(store2.cache.len(), 3);
}

#[test]
fn cache_preserves_insertion_order() {
    let first = X509Object::Certificate(cert(4, 4, 1));
    let second = X509Object::Certificate(cert(4, 4, 2));
    let mut b = fresh_builder();
    b.add_cert(cert(4, 4, 1)).unwrap();
    b.add_cert(cert(4, 4, 2)).unwrap();
    let store = b.build();
    let found = store.cached_by_hash(4);
    assert_eq!(found, vec![first, second]);
}

#[test]
fn set_depth_rejects_negative() {
    let mut b = fresh_builder();
    assert_eq!(b.set_depth(-1), Err(X509Error::InvalidArgument));
    assert_eq!(b.set_depth(3), Ok(()));
    let store = b.build();
    assert_eq!(store.max_depth(), 3);
}

#[test]
fn purpose_and_trust_codes_round_trip() {
    for raw in 1..=9 {
        let p = X509Purpose::from_raw(raw).unwrap();
        assert_eq!(p.as_raw(), raw);
    }
    for raw in 0..=8 {
        let t = X509Trust::from_raw(raw).unwrap();
        assert_eq!(t.as_raw(), raw);
    }
    assert_eq!(
        X509Purpose::from_raw(0),
        Err(X509Error::UnsupportedPolicyValue)
    );
    assert_eq!(
        X509Purpose::from_raw(10),
        Err(X509Error::UnsupportedPolicyValue)
    );
    assert_eq!(
        X509Trust::from_raw(-1),
        Err(X509Error::UnsupportedPolicyValue)
    );
    assert_eq!(
        X509Trust::from_raw(9),
        Err(X509Error::UnsupportedPolicyValue)
    );
    assert_eq!(X509Purpose::from_raw(2), Ok(X509Purpose::SslServer));
    assert_eq!(X509Trust::from_raw(1), Ok(X509Trust::Compat));
}

#[test]
fn flags_accumulate_across_calls() {
    let mut b = fresh_builder();
    b.set_flags(X509VerifyFlags::from_bits(FLAG_CRL_CHECK)).unwrap();
    b.set_flags(X509VerifyFlags::from_bits(FLAG_PARTIAL_CHAIN)).unwrap();
    let store = b.build();
    assert_eq!(store.flags().bits(), FLAG_CRL_CHECK | FLAG_PARTIAL_CHAIN);
    assert!(store
        .flags()
        .contains(X509VerifyFlags::from_bits(FLAG_CRL_CHECK)));
    assert!(!store
        .flags()
        .contains(X509VerifyFlags::from_bits(FLAG_CRL_CHECK_ALL)));
    assert_eq!(X509VerifyFlags::empty().bits(), 0);
    let both = X509VerifyFlags::from_bits(FLAG_CRL_CHECK)
        .union(X509VerifyFlags::from_bits(FLAG_X509_STRICT));
    assert_eq!(both.bits(), FLAG_CRL_CHECK | FLAG_X509_STRICT);
}

#[test]
fn load_locations_both_absent_is_invalid_argument() {
    let mut b = fresh_builder();
    assert_eq!(
        b.load_locations(FileSource::Absent, DirSource::Absent),
        Err(X509Error::InvalidArgument)
    );
}

#[test]
fn load_locations_errors() {
    let mut b = fresh_builder();
    assert_eq!(
        b.load_locations(FileSource::Unreadable, DirSource::Absent),
        Err(X509Error::IoError)
    );
    assert_eq!(
        b.load_locations(FileSource::Absent, DirSource::Unreadable),
        Err(X509Error::IoError)
    );
    assert_eq!(
        b.load_locations(FileSource::Malformed, DirSource::Absent),
        Err(X509Error::ParseError)
    );
    // failures leave the builder unchanged
    let store = b.build();
    assert_eq!(store.objects().len(), 0);
    assert_eq!(store.lookups().len(), 0);
}

#[test]
fn load_locations_stages_bundle_and_registers_directory() {
    let objs = vec![
        X509Object::Certificate(cert(1, 1, 1)),
        X509Object::Crl(crl(1, 1, 50)),
    ];
    let mut b = fresh_builder();
    b.load_locations(
        FileSource::Bundle(objs),
        DirSource::Present("certs".to_string()),
    )
    .unwrap();
    let store = b.build();
    assert_eq!(store.objects().len(), 2);
    assert_eq!(store.lookups().len(), 1);
    let lk = &store.lookups()[0];
    assert_eq!(lk.method, X509LookupMethod::HashDir);
    assert_eq!(lk.dirs.len(), 1);
    assert_eq!(lk.dirs[0].path, "certs");
    assert_eq!(lk.dirs[0].file_type, SslFiletype::Pem);
}

#[test]
fn set_default_paths_unset_is_silent_no_op() {
    let mut b = fresh_builder();
    assert_eq!(
        b.set_default_paths(FileSource::Absent, DirSource::Absent),
        Ok(())
    );
    let store = b.build();
    assert_eq!(store.objects().len(), 0);
    assert_eq!(store.lookups().len(), 0);
}

#[test]
fn set_default_paths_configured_but_unreadable_fails() {
    let mut b = fresh_builder();
    assert_eq!(
        b.set_default_paths(FileSource::Unreadable, DirSource::Absent),
        Err(X509Error::IoError)
    );
    assert_eq!(
        b.set_default_paths(FileSource::Malformed, DirSource::Absent),
        Err(X509Error::ParseError)
    );
}

#[test]
fn add_lookup_until_exhausted() {
    let mut b = fresh_builder();
    for expected_slot in 0..MAX_LOOKUPS {
        assert_eq!(
            b.add_lookup(X509Lookup::hash_dir()),
            Ok(expected_slot)
        );
    }
    assert_eq!(
        b.add_lookup(X509Lookup::hash_dir()),
        Err(X509Error::ResourceExhausted)
    );
}

#[test]
fn add_dir_rejects_missing_target() {
    let mut b = fresh_builder();
    let slot = b.add_lookup(X509Lookup::hash_dir()).unwrap();
    let lk = b.lookup_mut(slot);
    assert_eq!(
        lk.add_dir(DirSource::Absent, SslFiletype::Pem),
        Err(X509Error::IoError)
    );
    assert_eq!(
        lk.add_dir(DirSource::Unreadable, SslFiletype::Pem),
        Err(X509Error::IoError)
    );
    assert_eq!(
        lk.add_dir(DirSource::Present("a".to_string()), SslFiletype::Pem),
        Ok(())
    );
    assert_eq!(
        lk.add_dir(DirSource::Present("b".to_string()), SslFiletype::Asn1),
        Ok(())
    );
    assert_eq!(lk.dirs.len(), 2);
    assert_eq!(lk.dirs[0].path, "a");
    assert_eq!(lk.dirs[1].path, "b");
}

#[test]
fn hashed_name_format() {
    assert_eq!(hashed_name(0xdeadbeef, 0), b"deadbeef.0".to_vec());
    assert_eq!(hashed_name(0x2a, 1), b"0000002a.1".to_vec());
    assert_eq!(hashed_name(0, 12), b"00000000.12".to_vec());
}

fn listing(entries: Vec<(&[u8], X509Object)>) -> DirListing {
    DirListing {
        files: entries
            .into_iter()
            .map(|(name, object)| DirFile {
                name: name.to_vec(),
                object,
            })
            .collect(),
    }
}

#[test]
fn hashed_directory_returns_collisions_in_index_order() {
    let first = X509Object::Certificate(cert(0x2a, 7, 1));
    let second = X509Object::Certificate(cert(0x2a, 8, 2));
    let dir = listing(vec![
        (b"0000002a.1", second),
        (b"unrelated.txt", X509Object::Certificate(cert(9, 9, 9))),
        (b"0000002a.0", first),
    ]);
    let found = hashed_lookup(&dir.files, 0x2a);
    assert_eq!(found, vec![first, second]);
    // a query for an absent hash returns an empty sequence without error
    let absent = hashed_lookup(&dir.files, 0x2b);
    assert_eq!(absent, Vec::new());
}

#[test]
fn hashed_directory_stops_at_first_gap() {
    let zero = X509Object::Certificate(cert(1, 1, 1));
    let two = X509Object::Certificate(cert(1, 1, 3));
    let dir = listing(vec![(b"00000001.0", zero), (b"00000001.2", two)]);
    // index 1 is missing, so the walk stops after index 0
    let found = hashed_lookup(&dir.files, 1);
    assert_eq!(found, vec![zero]);
}

#[test]
fn multiple_directories_searched_in_registration_order() {
    let a = X509Object::Certificate(cert(7, 1, 1));
    let b = X509Object::Certificate(cert(7, 2, 2));
    let first_dir = listing(vec![(b"00000007.0", a)]);
    let second_dir = listing(vec![(b"00000007.0", b)]);
    let mut store = fresh_builder().build();
    let found = store.lookup_by_hash(&vec![first_dir, second_dir], 7);
    assert_eq!(found, vec![a, b]);
}

#[test]
fn crl_is_fresh_until_next_update_passes() {
    let c = crl(1, 1, 100);
    assert!(c.is_fresh(99));
    assert!(c.is_fresh(100));
    assert!(!c.is_fresh(101));
}

#[test]
fn store_lookup_caches_first_seen_objects() {
    let root = cert(5, 5, 1);
    let discovered = X509Object::Certificate(cert(6, 5, 2));
    let mut b = fresh_builder();
    b.add_cert(root).unwrap();
    let mut store = b.build();
    let dir = listing(vec![(b"00000006.0", discovered)]);
    let listings = vec![dir];
    let found = store.lookup_by_hash(&listings, 6);
    assert_eq!(found, vec![discovered]);
    // the cache grew, earlier entries unchanged
    assert_eq!(store.objects().len(), 2);
    assert_eq!(*store.objects().get(0), X509Object::Certificate(root));
    assert_eq!(*store.objects().get(1), discovered);
    // a second query finds the same file; the cache does not grow again
    let again = store.lookup_by_hash(&listings, 6);
    assert_eq!(again, vec![discovered]);
    assert_eq!(store.objects().len(), 2);
}

#[test]
fn find_crl_serves_fresh_cached_without_rescanning() {
    let cached = crl(3, 5, 100);
    let newer_on_disk = X509Object::Crl(crl(3, 6, 200));
    let mut store = fresh_builder().build();
    store.cache.insert(X509Object::Crl(cached));
    let listings = vec![listing(vec![(b"00000003.0", newer_on_disk)])];
    // still fresh at 90: served as is, no directory read is reflected
    let r = store.find_crl(&listings, 3, 90);
    assert_eq!(r, Some(cached));
    assert_eq!(store.objects().len(), 1);
}

#[test]
fn find_crl_rescans_when_cached_is_stale() {
    let stale = crl(3, 5, 100);
    let newer = crl(3, 6, 300);
    let mut store = fresh_builder().build();
    store.cache.insert(X509Object::Crl(stale));
    let listings = vec![listing(vec![(b"00000003.0", X509Object::Crl(newer))])];
    // stale at 150: the directory is re-read and the newest wins
    let r = store.find_crl(&listings, 3, 150);
    assert_eq!(r, Some(newer));
    assert_eq!(store.objects().len(), 2);
    // no candidate at all
    let none = store.find_crl(&Vec::new(), 9, 150);
    assert_eq!(none, None);
}

#[test]
fn verify_rejects_empty_chain() {
    let store = fresh_builder().build();
    assert_eq!(
        verify_chain(&store, &Vec::new()),
        Err(X509Error::InvalidArgument)
    );
}

#[test]
fn depth_enforcement() {
    let root = cert(1, 1, 1);
    let inter_a = cert(2, 1, 2);
    let inter_b = cert(3, 2, 3);
    let leaf_via_b = cert(4, 3, 4);
    let leaf_via_a = cert(4, 2, 4);
    let mut b = fresh_builder();
    b.add_cert(root).unwrap();
    b.set_depth(1).unwrap();
    let store = b.build();
    // two intermediates against max depth 1: rejected for length
    let long = vec![leaf_via_b, inter_b, inter_a, root];
    assert_eq!(verify_chain(&store, &long), Err(X509Error::ChainTooLong));
    // exactly one intermediate: not rejected for length alone
    let exact = vec![leaf_via_a, inter_a, root];
    assert_eq!(verify_chain(&store, &exact), Ok(()));
}

#[test]
fn verify_rejects_broken_link_and_unknown_anchor() {
    let root = cert(1, 1, 1);
    let other_root = cert(8, 8, 9);
    let mut b = fresh_builder();
    b.add_cert(root).unwrap();
    let store = b.build();
    // leaf's issuer does not match the anchor's subject
    let broken = vec![cert(4, 9, 4), root];
    assert_eq!(verify_chain(&store, &broken), Err(X509Error::UntrustedChain));
    // well-linked, but the anchor is not in the store
    let unknown = vec![cert(4, 8, 4), other_root];
    assert_eq!(
        verify_chain(&store, &unknown),
        Err(X509Error::UntrustedChain)
    );
}

#[test]
fn partial_chain_flag_allows_intermediate_anchor() {
    // an intermediate (not self-signed) present in the store
    let inter = cert(2, 1, 2);
    let leaf = cert(4, 2, 4);
    let mut b = fresh_builder();
    b.add_cert(inter).unwrap();
    let store = b.build();
    let chain = vec![leaf, inter];
    assert_eq!(verify_chain(&store, &chain), Err(X509Error::UntrustedChain));
    let mut b = fresh_builder();
    b.add_cert(inter).unwrap();
    b.set_flags(X509VerifyFlags::from_bits(FLAG_PARTIAL_CHAIN)).unwrap();
    let store = b.build();
    assert_eq!(verify_chain(&store, &chain), Ok(()));
}

fn verdict_for(purpose: X509Purpose, trust: X509Trust) -> Result<(), X509Error> {
    let root = cert(1, 1, 1);
    let leaf = cert(4, 1, 4);
    let mut b = fresh_builder();
    b.add_cert(root).unwrap();
    b.set_purpose(purpose).unwrap();
    b.set_trust(trust).unwrap();
    let store = b.build();
    verify_chain(&store, &vec![leaf, root])
}

#[test]
fn trust_purpose_compatibility_table() {
    let purposes = [
        X509Purpose::SslClient,
        X509Purpose::SslServer,
        X509Purpose::NsSslServer,
        X509Purpose::SmimeSign,
        X509Purpose::SmimeEncrypt,
        X509Purpose::CrlSign,
        X509Purpose::Any,
        X509Purpose::OcspHelper,
        X509Purpose::TimestampSign,
    ];
    let trusts = [
        X509Trust::Default,
        X509Trust::Compat,
        X509Trust::SslClient,
        X509Trust::SslServer,
        X509Trust::Email,
        X509Trust::ObjectSign,
        X509Trust::OcspSign,
        X509Trust::OcspRequest,
        X509Trust::Tsa,
    ];
    for &p in &purposes {
        for &t in &trusts {
            let expected = if trust_compatible(p, t) {
                Ok(())
            } else {
                Err(X509Error::UntrustedChain)
            };
            assert_eq!(verdict_for(p, t), expected, "purpose {:?} trust {:?}", p, t);
        }
    }
    // spot checks of the fixed table itself
    assert!(trust_compatible(X509Purpose::SslServer, X509Trust::SslServer));
    assert!(trust_compatible(X509Purpose::SslServer, X509Trust::Compat));
    assert!(trust_compatible(X509Purpose::SslServer, X509Trust::Default));
    assert!(!trust_compatible(X509Purpose::SslServer, X509Trust::Email));
    assert!(!trust_compatible(X509Purpose::SslServer, X509Trust::SslClient));
    assert!(trust_compatible(X509Purpose::NsSslServer, X509Trust::SslServer));
    assert!(trust_compatible(X509Purpose::SmimeSign, X509Trust::Email));
    assert!(!trust_compatible(X509Purpose::SmimeSign, X509Trust::Tsa));
    assert!(trust_compatible(X509Purpose::TimestampSign, X509Trust::Tsa));
    assert!(trust_compatible(X509Purpose::Any, X509Trust::OcspSign));
    assert!(!trust_compatible(X509Purpose::SslClient, X509Trust::SslServer));
}

#[test]
fn add_cert_reports_success() {
    let mut b = fresh_builder();
    assert_eq!(b.add_cert(cert(1, 1, 1)), Ok(()));
}
