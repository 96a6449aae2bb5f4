//! The object cache: an ordered, identity-deduplicated collection of
//! certificates and CRLs, seeded at store construction and grown by
//! on-demand lookups.
//!
//! Iteration order is insertion order, and an insertion never moves or
//! replaces an existing entry; chain building may therefore use "first
//! found" as a deterministic tie-break.

use vstd::prelude::*;

use crate::object::{obj_id, same_identity, X509Object};

verus! {

/// Whether some entry of `s` has identity `id`.
pub open spec fn has_id(s: Seq<X509Object>, id: (bool, u32, u64)) -> bool {
    exists|i: int| 0 <= i < s.len() && obj_id(s[i]) == id
}

/// Well-formedness of a cache's contents: no two entries share an
/// identity.
pub open spec fn no_duplicate_ids(s: Seq<X509Object>) -> bool {
    forall|i: int, j: int| 0 <= i < j < s.len() ==> obj_id(s[i]) != obj_id(s[j])
}

/// The contents after one deduplicating insertion: unchanged when an
/// entry with the same identity is present, else extended at the end.
pub open spec fn insert_one(s: Seq<X509Object>, o: X509Object) -> Seq<X509Object> {
    if has_id(s, obj_id(o)) {
        s
    } else {
        s.push(o)
    }
}

/// The contents after deduplicating insertion of every element of `v`,
/// in order.
pub open spec fn insert_seq(init: Seq<X509Object>, v: Seq<X509Object>) -> Seq<X509Object>
    decreases v.len(),
{
    if v.len() == 0 {
        init
    } else {
        insert_one(insert_seq(init, v.drop_last()), v.last())
    }
}

/// The set of identities occurring in `s`.
pub open spec fn seq_ids(s: Seq<X509Object>) -> Set<(bool, u32, u64)>
    decreases s.len(),
{
    if s.len() == 0 {
        Set::empty()
    } else {
        seq_ids(s.drop_last()).insert(obj_id(s.last()))
    }
}

/// The subsequence of entries whose lookup hash is `h`, in cache order.
pub open spec fn matching(s: Seq<X509Object>, h: u32) -> Seq<X509Object>
    decreases s.len(),
{
    if s.len() == 0 {
        Seq::empty()
    } else {
        let rest = matching(s.drop_last(), h);
        if s.last().lookup_hash_spec() == h {
            rest.push(s.last())
        } else {
            rest
        }
    }
}

/// How many entries of `s` equal `o`.
pub open spec fn count_of(s: Seq<X509Object>, o: X509Object) -> nat
    decreases s.len(),
{
    if s.len() == 0 {
        0
    } else {
        count_of(s.drop_last(), o) + if s.last() == o {
            1nat
        } else {
            0nat
        }
    }
}

/// Identity sets are finite.
pub proof fn lemma_ids_finite(s: Seq<X509Object>)
    ensures
        seq_ids(s).finite(),
    decreases s.len(),
{
    if s.len() > 0 {
        lemma_ids_finite(s.drop_last());
    }
}

/// An identity occurs in `s` exactly when it is in `s`'s identity set.
pub proof fn lemma_has_id_iff(s: Seq<X509Object>, id: (bool, u32, u64))
    ensures
        has_id(s, id) <==> seq_ids(s).contains(id),
    decreases s.len(),
{
    if s.len() > 0 {
        lemma_has_id_iff(s.drop_last(), id);
        if has_id(s.drop_last(), id) {
            let i = choose|i: int| 0 <= i < s.drop_last().len() && obj_id(s.drop_last()[i]) == id;
            assert(obj_id(s[i]) == id);
        }
        if has_id(s, id) && obj_id(s.last()) != id {
            let i = choose|i: int| 0 <= i < s.len() && obj_id(s[i]) == id;
            assert(obj_id(s.drop_last()[i]) == id);
        }
    }
}

/// One deduplicating insertion adds exactly the inserted identity.
pub proof fn lemma_insert_one_ids(s: Seq<X509Object>, o: X509Object)
    ensures
        seq_ids(insert_one(s, o)) == seq_ids(s).insert(obj_id(o)),
{
    lemma_has_id_iff(s, obj_id(o));
    if has_id(s, obj_id(o)) {
        assert(seq_ids(s) =~= seq_ids(s).insert(obj_id(o)));
    } else {
        assert(s.push(o).drop_last() =~= s);
        assert(s.push(o).last() == o);
    }
}

/// One deduplicating insertion keeps well-formedness.
pub proof fn lemma_insert_one_wf(s: Seq<X509Object>, o: X509Object)
    requires
        no_duplicate_ids(s),
    ensures
        no_duplicate_ids(insert_one(s, o)),
{
    if !has_id(s, obj_id(o)) {
        let t = s.push(o);
        assert forall|i: int, j: int| 0 <= i < j < t.len() implies obj_id(t[i]) != obj_id(t[j]) by {
            if j == s.len() {
                assert(t[j] == o);
                assert(obj_id(t[i]) != obj_id(o));
            }
        }
    }
}

/// One deduplicating insertion keeps every existing entry in place.
pub proof fn lemma_insert_one_prefix(s: Seq<X509Object>, o: X509Object)
    ensures
        insert_one(s, o).len() >= s.len(),
        forall|k: int| 0 <= k < s.len() ==> insert_one(s, o)[k] == s[k],
{
}

/// Inserting a sequence keeps well-formedness.
pub proof fn lemma_insert_seq_wf(init: Seq<X509Object>, v: Seq<X509Object>)
    requires
        no_duplicate_ids(init),
    ensures
        no_duplicate_ids(insert_seq(init, v)),
    decreases v.len(),
{
    if v.len() > 0 {
        lemma_insert_seq_wf(init, v.drop_last());
        lemma_insert_one_wf(insert_seq(init, v.drop_last()), v.last());
    }
}

/// Inserting a sequence keeps every existing entry in place: the cache
/// only grows, and previously returned entries never change.
pub proof fn lemma_insert_seq_prefix(init: Seq<X509Object>, v: Seq<X509Object>)
    ensures
        insert_seq(init, v).len() >= init.len(),
        forall|k: int| 0 <= k < init.len() ==> insert_seq(init, v)[k] == init[k],
    decreases v.len(),
{
    if v.len() > 0 {
        lemma_insert_seq_prefix(init, v.drop_last());
        lemma_insert_one_prefix(insert_seq(init, v.drop_last()), v.last());
    }
}

/// Inserting a sequence yields exactly the union of the identities.
pub proof fn lemma_insert_seq_ids(init: Seq<X509Object>, v: Seq<X509Object>)
    ensures
        seq_ids(insert_seq(init, v)) == seq_ids(init).union(seq_ids(v)),
    decreases v.len(),
{
    if v.len() == 0 {
        assert(seq_ids(init) =~= seq_ids(init).union(seq_ids(v)));
    } else {
        lemma_insert_seq_ids(init, v.drop_last());
        lemma_insert_one_ids(insert_seq(init, v.drop_last()), v.last());
        assert(seq_ids(init).union(seq_ids(v.drop_last())).insert(obj_id(v.last())) =~= seq_ids(
            init,
        ).union(seq_ids(v)));
    }
}

/// Every entry produced by insertion came from the initial contents or
/// from the inserted sequence.
pub proof fn lemma_insert_seq_elems(init: Seq<X509Object>, v: Seq<X509Object>)
    ensures
        forall|k: int|
            0 <= k < insert_seq(init, v).len() ==> init.contains(#[trigger] insert_seq(init, v)[k])
                || v.contains(insert_seq(init, v)[k]),
    decreases v.len(),
{
    if v.len() > 0 {
        let s = insert_seq(init, v.drop_last());
        lemma_insert_seq_elems(init, v.drop_last());
        assert forall|k: int| 0 <= k < insert_seq(init, v).len() implies init.contains(
            #[trigger] insert_seq(init, v)[k],
        ) || v.contains(insert_seq(init, v)[k]) by {
            if k < s.len() {
                assert(insert_seq(init, v)[k] == s[k]);
                if s.contains(s[k]) && !init.contains(s[k]) {
                    let j = choose|j: int| 0 <= j < v.drop_last().len() && v.drop_last()[j] == s[k];
                    assert(v[j] == s[k]);
                }
            } else {
                assert(insert_seq(init, v)[k] == v.last());
                assert(v[v.len() - 1] == v.last());
            }
        }
    }
}

/// A well-formed cache has as many entries as distinct identities.
pub proof fn lemma_wf_len_is_id_count(s: Seq<X509Object>)
    requires
        no_duplicate_ids(s),
    ensures
        s.len() == seq_ids(s).len(),
    decreases s.len(),
{
    lemma_ids_finite(s);
    if s.len() > 0 {
        let rest = s.drop_last();
        assert(no_duplicate_ids(rest)) by {
            assert(forall|i: int, j: int|
                0 <= i < j < rest.len() ==> obj_id(rest[i]) == obj_id(s[i]) && obj_id(rest[j])
                    == obj_id(s[j]));
        }
        lemma_wf_len_is_id_count(rest);
        lemma_ids_finite(rest);
        lemma_has_id_iff(rest, obj_id(s.last()));
        assert(!has_id(rest, obj_id(s.last()))) by {
            if has_id(rest, obj_id(s.last())) {
                let i = choose|i: int| 0 <= i < rest.len() && obj_id(rest[i]) == obj_id(s.last());
                assert(obj_id(s[i]) == obj_id(s[s.len() - 1]));
            }
        }
    }
}

/// An identity absent from `s` means no entry equals an object carrying
/// that identity.
pub proof fn lemma_absent_id_count_zero(s: Seq<X509Object>, o: X509Object)
    requires
        !has_id(s, obj_id(o)),
    ensures
        count_of(s, o) == 0,
    decreases s.len(),
{
    if s.len() > 0 {
        assert(!has_id(s.drop_last(), obj_id(o))) by {
            if has_id(s.drop_last(), obj_id(o)) {
                let i = choose|i: int|
                    0 <= i < s.drop_last().len() && obj_id(s.drop_last()[i]) == obj_id(o);
                assert(obj_id(s[i]) == obj_id(o));
            }
        }
        lemma_absent_id_count_zero(s.drop_last(), o);
        assert(obj_id(s[s.len() - 1]) != obj_id(o));
    }
}

/// In a well-formed cache, a contained object occurs exactly once.
pub proof fn lemma_wf_contains_count_one(s: Seq<X509Object>, o: X509Object)
    requires
        no_duplicate_ids(s),
        s.contains(o),
    ensures
        count_of(s, o) == 1,
    decreases s.len(),
{
    let rest = s.drop_last();
    assert(no_duplicate_ids(rest)) by {
        assert(forall|i: int, j: int|
            0 <= i < j < rest.len() ==> obj_id(rest[i]) == obj_id(s[i]) && obj_id(rest[j]) == obj_id(
                s[j],
            ));
    }
    if s.last() == o {
        assert(!has_id(rest, obj_id(o))) by {
            if has_id(rest, obj_id(o)) {
                let i = choose|i: int| 0 <= i < rest.len() && obj_id(rest[i]) == obj_id(o);
                assert(obj_id(s[i]) == obj_id(s[s.len() - 1]));
            }
        }
        lemma_absent_id_count_zero(rest, o);
    } else {
        let i = choose|i: int| 0 <= i < s.len() && s[i] == o;
        assert(rest[i] == o);
        lemma_wf_contains_count_one(rest, o);
    }
}

/// Filtering by lookup hash keeps each occurrence of an object carrying
/// that hash.
pub proof fn lemma_matching_count(s: Seq<X509Object>, h: u32, o: X509Object)
    requires
        o.lookup_hash_spec() == h,
    ensures
        count_of(matching(s, h), o) == count_of(s, o),
    decreases s.len(),
{
    if s.len() > 0 {
        lemma_matching_count(s.drop_last(), h, o);
        let rest = matching(s.drop_last(), h);
        if s.last().lookup_hash_spec() == h {
            assert(rest.push(s.last()).drop_last() =~= rest);
        } else {
            assert(s.last() != o);
        }
    }
}

/// Every entry selected by `matching` carries the requested hash, and
/// comes from the cache.
pub proof fn lemma_matching_elems(s: Seq<X509Object>, h: u32)
    ensures
        forall|k: int|
            0 <= k < matching(s, h).len() ==> (#[trigger] matching(s, h)[k]).lookup_hash_spec() == h
                && s.contains(matching(s, h)[k]),
    decreases s.len(),
{
    if s.len() > 0 {
        lemma_matching_elems(s.drop_last(), h);
        let rest = matching(s.drop_last(), h);
        assert forall|k: int| 0 <= k < matching(s, h).len() implies (#[trigger] matching(
            s,
            h,
        )[k]).lookup_hash_spec() == h && s.contains(matching(s, h)[k]) by {
            if k < rest.len() {
                assert(matching(s, h)[k] == rest[k]);
                let j = choose|j: int| 0 <= j < s.drop_last().len() && s.drop_last()[j] == rest[k];
                assert(s[j] == rest[k]);
            } else {
                assert(matching(s, h)[k] == s.last());
                assert(s[s.len() - 1] == s.last());
            }
        }
    }
}

/// An ordered collection of certificates and CRLs, deduplicated by
/// identity, preserving insertion order.
#[derive(Clone, Debug)]
pub struct ObjectCache {
    objects: Vec<X509Object>,
}

impl View for ObjectCache {
    type V = Seq<X509Object>;

    closed spec fn view(&self) -> Seq<X509Object> {
        self.objects@
    }
}

impl ObjectCache {
    /// Well-formedness: no two entries share an identity.
    pub open spec fn wf(self) -> bool {
        no_duplicate_ids(self@)
    }

    /// The empty cache.
    pub fn new() -> (r: ObjectCache)
        ensures
            r@ == Seq::<X509Object>::empty(),
            r.wf(),
    {
        ObjectCache { objects: Vec::new() }
    }

    /// Returns the number of cached objects.
    pub fn len(&self) -> (r: usize)
        ensures
            r == self@.len(),
    {
        self.objects.len()
    }

    /// Returns the cached object at position `i`, in insertion order.
    pub fn get(&self, i: usize) -> (r: &X509Object)
        requires
            i < self@.len(),
        ensures
            *r == self@[i as int],
    {
        &self.objects[i]
    }

    /// Returns all cached objects, in insertion order.
    pub fn entries(&self) -> (r: &Vec<X509Object>)
        ensures
            r@ == self@,
    {
        &self.objects
    }

    /// Decides whether some entry shares `o`'s identity.
    pub fn contains_identity(&self, o: &X509Object) -> (r: bool)
        ensures
            r == has_id(self@, obj_id(*o)),
    {
        let n = self.objects.len();
        let mut i: usize = 0;
        while i < n
            invariant
                n == self@.len(),
                0 <= i <= n,
                forall|j: int| 0 <= j < i ==> obj_id(self@[j]) != obj_id(*o),
            decreases n - i,
        {
            if same_identity(&self.objects[i], o) {
                assert(obj_id(self@[i as int]) == obj_id(*o));
                return true;
            }
            i += 1;
        }
        false
    }

    /// Adds `o` unless an entry with the same identity is present;
    /// returns whether insertion occurred. Existing entries never move.
    pub fn insert(&mut self, o: X509Object) -> (r: bool)
        ensures
            final(self)@ == insert_one(old(self)@, o),
            r == !has_id(old(self)@, obj_id(o)),
    {
        if self.contains_identity(&o) {
            false
        } else {
            self.objects.push(o);
            true
        }
    }

    /// Adds every element of `v` in order, deduplicating by identity.
    pub fn insert_all(&mut self, v: &Vec<X509Object>)
        ensures
            final(self)@ == insert_seq(old(self)@, v@),
    {
        let n = v.len();
        let mut i: usize = 0;
        while i < n
            invariant
                n == v@.len(),
                0 <= i <= n,
                self@ == insert_seq(old(self)@, v@.take(i as int)),
            decreases n - i,
        {
            let ghost prev = self@;
            self.insert(v[i]);
            proof {
                assert(v@.take(i + 1).drop_last() =~= v@.take(i as int));
                assert(v@.take(i + 1).last() == v@[i as int]);
            }
            i += 1;
        }
        proof {
            assert(v@.take(n as int) =~= v@);
        }
    }

    /// Returns the entries whose lookup hash is `h`, in cache order.
    pub fn find_by_hash(&self, h: u32) -> (r: Vec<X509Object>)
        ensures
            r@ == matching(self@, h),
    {
        let n = self.objects.len();
        let mut r: Vec<X509Object> = Vec::new();
        let mut i: usize = 0;
        while i < n
            invariant
                n == self@.len(),
                0 <= i <= n,
                r@ == matching(self@.take(i as int), h),
            decreases n - i,
        {
            let o = self.objects[i];
            proof {
                assert(self@.take(i + 1).drop_last() =~= self@.take(i as int));
                assert(self@.take(i + 1).last() == self@[i as int]);
            }
            if o.lookup_hash() == h {
                r.push(o);
            }
            i += 1;
        }
        proof {
            assert(self@.take(n as int) =~= self@);
        }
        r
    }
}

/// Inserting objects with `m` distinct identities into the empty cache
/// yields exactly `m` entries, however many duplicates the input holds.
pub proof fn lemma_insert_count_is_distinct_ids(v: Seq<X509Object>)
    ensures
        insert_seq(Seq::empty(), v).len() == seq_ids(v).len(),
{
    let s = insert_seq(Seq::<X509Object>::empty(), v);
    lemma_insert_seq_wf(Seq::empty(), v);
    lemma_wf_len_is_id_count(s);
    lemma_insert_seq_ids(Seq::empty(), v);
    assert(seq_ids(Seq::<X509Object>::empty()).union(seq_ids(v)) =~= seq_ids(v));
}

/// The number of cache entries after inserting a batch does not depend
/// on the batch's arrival order: any two batches carrying the same
/// identities fill an empty cache to the same size.
pub proof fn lemma_insert_order_independent(v1: Seq<X509Object>, v2: Seq<X509Object>)
    requires
        seq_ids(v1) == seq_ids(v2),
    ensures
        insert_seq(Seq::empty(), v1).len() == insert_seq(Seq::empty(), v2).len(),
{
    lemma_insert_count_is_distinct_ids(v1);
    lemma_insert_count_is_distinct_ids(v2);
}

/// `o` is the only object of `v` carrying its identity.
pub open spec fn sole_carrier(v: Seq<X509Object>, o: X509Object) -> bool {
    forall|k: int| 0 <= k < v.len() && obj_id(#[trigger] v[k]) == obj_id(o) ==> v[k] == o
}

/// Round trip: an object inserted into the empty cache — alone among the
/// batch in carrying its identity — appears in the result exactly once,
/// and is found exactly once when queried by its lookup hash.
pub proof fn lemma_round_trip(v: Seq<X509Object>, o: X509Object)
    requires
        v.contains(o),
        sole_carrier(v, o),
    ensures
        count_of(insert_seq(Seq::empty(), v), o) == 1,
        count_of(matching(insert_seq(Seq::empty(), v), o.lookup_hash_spec()), o) == 1,
{
    let s = insert_seq(Seq::<X509Object>::empty(), v);
    lemma_insert_seq_wf(Seq::empty(), v);
    lemma_insert_seq_ids(Seq::empty(), v);
    lemma_has_id_iff(v, obj_id(o));
    assert(has_id(v, obj_id(o))) by {
        let i = choose|i: int| 0 <= i < v.len() && v[i] == o;
        assert(obj_id(v[i]) == obj_id(o));
    }
    lemma_has_id_iff(s, obj_id(o));
    assert(seq_ids(s) =~= seq_ids(Seq::<X509Object>::empty()).union(seq_ids(v)));
    assert(has_id(s, obj_id(o)));
    let i = choose|i: int| 0 <= i < s.len() && obj_id(s[i]) == obj_id(o);
    lemma_insert_seq_elems(Seq::empty(), v);
    assert(v.contains(s[i]));
    let k = choose|k: int| 0 <= k < v.len() && v[k] == s[i];
    assert(s[i] == o);
    assert(s.contains(o));
    lemma_wf_contains_count_one(s, o);
    lemma_matching_count(s, o.lookup_hash_spec(), o);
}

} // verus!
