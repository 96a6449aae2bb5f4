//! On-demand discovery of certificates and CRLs from hashed directories.
//!
//! A hashed directory holds each object in a file named
//! `<8-hex-digit-name-hash>.<index>`, the index starting at 0 and
//! increasing while further objects share the hash. A query computes the
//! file names for a requested hash and walks the indices until the first
//! one with no file; directory contents are handed in as plain listings
//! (name and parsed object per file), so the scan itself — which names
//! are probed, in which order, and when the walk stops — is verified.

use vstd::arithmetic::div_mod::lemma_fundamental_div_mod;
use vstd::prelude::*;

use crate::errors::X509Error;
use crate::object::X509Object;

verus! {

/// The byte of one lowercase hexadecimal digit.
pub open spec fn hex_digit(n: nat) -> u8 {
    if n < 10 {
        (48 + n) as u8
    } else {
        (87 + n) as u8
    }
}

/// The byte of one decimal digit.
pub open spec fn dec_digit(n: nat) -> u8 {
    (48 + n) as u8
}

/// The last `k` hexadecimal digits of `h`, most significant first.
pub open spec fn hex_rep(h: nat, k: nat) -> Seq<u8>
    decreases k,
{
    if k == 0 {
        Seq::empty()
    } else {
        hex_rep(h / 16, (k - 1) as nat).push(hex_digit(h % 16))
    }
}

/// The decimal digits of `n`, most significant first, no leading zeros.
pub open spec fn dec_rep(n: nat) -> Seq<u8>
    decreases n,
{
    if n < 10 {
        seq![dec_digit(n)]
    } else {
        dec_rep(n / 10).push(dec_digit(n % 10))
    }
}

/// The value read back from a sequence of decimal digit bytes.
pub open spec fn dec_val(s: Seq<u8>) -> int
    decreases s.len(),
{
    if s.len() == 0 {
        0
    } else {
        dec_val(s.drop_last()) * 10 + (s.last() - 48)
    }
}

/// A hexadecimal rendering has exactly the requested width.
pub proof fn lemma_hex_rep_len(h: nat, k: nat)
    ensures
        hex_rep(h, k).len() == k,
    decreases k,
{
    if k > 0 {
        lemma_hex_rep_len(h / 16, (k - 1) as nat);
    }
}

/// Reading the decimal rendering of `n` gives back `n`.
pub proof fn lemma_dec_val_rep(n: nat)
    ensures
        dec_val(dec_rep(n)) == n,
    decreases n,
{
    if n < 10 {
        let s = dec_rep(n);
        assert(s.len() == 1);
        assert(s.last() == dec_digit(n));
        assert(dec_digit(n) == 48 + n);
        assert(s.drop_last() =~= Seq::<u8>::empty());
        assert(dec_val(Seq::<u8>::empty()) == 0);
        assert(dec_val(s) == dec_val(s.drop_last()) * 10 + (s.last() - 48));
    } else {
        lemma_dec_val_rep(n / 10);
        let s = dec_rep(n);
        assert(s.drop_last() =~= dec_rep(n / 10));
        assert(s.last() == dec_digit(n % 10));
        assert(dec_digit(n % 10) == 48 + n % 10);
        assert(dec_val(s) == dec_val(s.drop_last()) * 10 + (s.last() - 48));
        lemma_fundamental_div_mod(n as int, 10);
    }
}

/// Distinct numbers have distinct decimal renderings.
pub proof fn lemma_dec_rep_injective(a: nat, b: nat)
    requires
        dec_rep(a) == dec_rep(b),
    ensures
        a == b,
{
    lemma_dec_val_rep(a);
    lemma_dec_val_rep(b);
}

/// The file name probed for hash `h` at collision index `i`:
/// eight lowercase hexadecimal digits, a dot, the decimal index.
pub open spec fn name_spec(h: u32, i: nat) -> Seq<u8> {
    hex_rep(h as nat, 8) + seq![46u8] + dec_rep(i)
}

/// For one hash, distinct collision indices probe distinct file names.
pub proof fn lemma_name_injective(h: u32, i: nat, j: nat)
    requires
        name_spec(h, i) == name_spec(h, j),
    ensures
        i == j,
{
    let prefix = hex_rep(h as nat, 8) + seq![46u8];
    lemma_hex_rep_len(h as nat, 8);
    let di = dec_rep(i);
    let dj = dec_rep(j);
    assert(name_spec(h, i) == prefix + di);
    assert(name_spec(h, j) == prefix + dj);
    assert(prefix.len() == 9);
    assert((prefix + di).len() == 9 + di.len());
    assert((prefix + dj).len() == 9 + dj.len());
    assert(di.len() == dj.len());
    assert forall|t: int| 0 <= t < di.len() implies di[t] == dj[t] by {
        assert((prefix + di)[9 + t] == di[t]);
        assert((prefix + dj)[9 + t] == dj[t]);
    }
    assert(di =~= dj);
    lemma_dec_rep_injective(i, j);
}

/// Appends the last `k` hexadecimal digits of `h` to `out`.
fn push_hex(out: &mut Vec<u8>, h: u32, k: usize)
    ensures
        final(out)@ == old(out)@ + hex_rep(h as nat, k as nat),
    decreases k,
{
    if k == 0 {
        proof {
            assert(old(out)@ + hex_rep(h as nat, 0) =~= old(out)@);
        }
    } else {
        push_hex(out, h / 16, k - 1);
        let d = h % 16;
        let b: u8 = if d < 10 {
            (d as u8) + 48
        } else {
            (d as u8) + 87
        };
        out.push(b);
        proof {
            assert(b == hex_digit((h % 16) as nat));
            assert(old(out)@ + hex_rep(h as nat, k as nat) =~= (old(out)@ + hex_rep(
                (h / 16) as nat,
                (k - 1) as nat,
            )).push(b));
        }
    }
}

/// Appends the decimal digits of `n` to `out`.
fn push_dec(out: &mut Vec<u8>, n: usize)
    ensures
        final(out)@ == old(out)@ + dec_rep(n as nat),
    decreases n,
{
    if n < 10 {
        out.push((n as u8) + 48);
        proof {
            assert(old(out)@ + dec_rep(n as nat) =~= old(out)@.push(dec_digit(n as nat)));
        }
    } else {
        push_dec(out, n / 10);
        out.push(((n % 10) as u8) + 48);
        proof {
            assert(old(out)@ + dec_rep(n as nat) =~= (old(out)@ + dec_rep((n / 10) as nat)).push(
                dec_digit((n % 10) as nat),
            ));
        }
    }
}

/// Builds the file name probed for hash `h` at collision index `i`.
pub fn hashed_name(h: u32, i: usize) -> (r: Vec<u8>)
    ensures
        r@ == name_spec(h, i as nat),
{
    let mut r: Vec<u8> = Vec::new();
    push_hex(&mut r, h, 8);
    r.push(46);
    push_dec(&mut r, i);
    proof {
        assert(r@ =~= name_spec(h, i as nat));
    }
    r
}

/// One file of a directory listing: its name and the certificate or CRL
/// parsed from it. Parsing (per the registered encoding hint) is owned by
/// the collaborator that produces the listing.
#[derive(Clone, Debug)]
pub struct DirFile {
    /// The file's name within its directory.
    pub name: Vec<u8>,
    /// The object the file holds.
    pub object: X509Object,
}

/// A snapshot of one registered directory's readable files.
#[derive(Clone, Debug)]
pub struct DirListing {
    /// The files, in directory order.
    pub files: Vec<DirFile>,
}

/// The object of the first file named `name`, if any.
pub open spec fn file_at(files: Seq<DirFile>, name: Seq<u8>) -> Option<X509Object>
    decreases files.len(),
{
    if files.len() == 0 {
        Option::None
    } else if files[0].name@ == name {
        Option::Some(files[0].object)
    } else {
        file_at(files.drop_first(), name)
    }
}

/// Whether some file is named `name`.
pub open spec fn has_file(files: Seq<DirFile>, name: Seq<u8>) -> bool {
    exists|p: int| 0 <= p < files.len() && files[p].name@ == name
}

/// A name is found exactly when some file carries it.
pub proof fn lemma_file_at_iff_has(files: Seq<DirFile>, name: Seq<u8>)
    ensures
        file_at(files, name) is Some <==> has_file(files, name),
    decreases files.len(),
{
    if files.len() > 0 {
        if files[0].name@ == name {
        } else {
            let rest = files.drop_first();
            lemma_file_at_iff_has(rest, name);
            if has_file(rest, name) {
                let p = choose|p: int| 0 <= p < rest.len() && rest[p].name@ == name;
                assert(files[p + 1].name@ == name);
            }
            if has_file(files, name) {
                let p = choose|p: int| 0 <= p < files.len() && files[p].name@ == name;
                assert(p >= 1);
                assert(rest[p - 1].name@ == name);
            }
        }
    }
}

/// If every collision index below `n` has a file, the directory holds at
/// least `n` files: the probed names are pairwise distinct.
pub proof fn lemma_found_bound(files: Seq<DirFile>, h: u32, n: nat)
    requires
        forall|j: nat| j < n ==> has_file(files, #[trigger] name_spec(h, j)),
    ensures
        n <= files.len(),
    decreases n,
{
    if n > 0 {
        let last_name = name_spec(h, (n - 1) as nat);
        assert(has_file(files, last_name));
        let p = choose|p: int| 0 <= p < files.len() && files[p].name@ == last_name;
        let rest = files.remove(p);
        assert forall|j: nat| j < (n - 1) as nat implies has_file(
            rest,
            #[trigger] name_spec(h, j),
        ) by {
            assert(has_file(files, name_spec(h, j)));
            let q = choose|q: int| 0 <= q < files.len() && files[q].name@ == name_spec(h, j);
            if q == p {
                lemma_name_injective(h, j, (n - 1) as nat);
            } else if q < p {
                assert(rest[q] == files[q]);
            } else {
                assert(rest[q - 1] == files[q]);
            }
        }
        lemma_found_bound(rest, h, (n - 1) as nat);
    }
}

/// The walk of collision indices for hash `h`, starting at index `i`,
/// bounded by `fuel` steps: each found object in turn, stopping at the
/// first index with no file.
pub open spec fn scan_from(files: Seq<DirFile>, h: u32, i: nat, fuel: nat) -> Seq<X509Object>
    decreases fuel,
{
    if fuel == 0 {
        Seq::empty()
    } else {
        match file_at(files, name_spec(h, i)) {
            Option::None => Seq::empty(),
            Option::Some(o) => seq![o] + scan_from(files, h, i + 1, (fuel - 1) as nat),
        }
    }
}

/// What a hashed-directory query for hash `h` returns: the objects of the
/// files `<hash>.0`, `<hash>.1`, …, in index order, up to the first index
/// with no file. (One more step of fuel than the directory has files is
/// always enough: see [`lemma_scan_props`].)
pub open spec fn scan(files: Seq<DirFile>, h: u32) -> Seq<X509Object> {
    scan_from(files, h, 0, files.len() + 1)
}

proof fn lemma_scan_from_props(files: Seq<DirFile>, h: u32, start: nat, fuel: nat)
    ensures
        scan_from(files, h, start, fuel).len() <= fuel,
        forall|k: int|
            0 <= k < scan_from(files, h, start, fuel).len() ==> file_at(
                files,
                name_spec(h, (start + k) as nat),
            ) == Option::Some(scan_from(files, h, start, fuel)[k]),
        scan_from(files, h, start, fuel).len() < fuel ==> file_at(
            files,
            name_spec(h, (start + scan_from(files, h, start, fuel).len()) as nat),
        ) is None,
    decreases fuel,
{
    if fuel > 0 {
        match file_at(files, name_spec(h, start)) {
            Option::None => {},
            Option::Some(o) => {
                lemma_scan_from_props(files, h, start + 1, (fuel - 1) as nat);
                let rec = scan_from(files, h, start + 1, (fuel - 1) as nat);
                let s = scan_from(files, h, start, fuel);
                assert(s == seq![o] + rec);
                assert forall|k: int| 0 <= k < s.len() implies file_at(
                    files,
                    name_spec(h, (start + k) as nat),
                ) == Option::Some(s[k]) by {
                    if k == 0 {
                        assert(s[0] == o);
                    } else {
                        assert(s[k] == rec[k - 1]);
                        assert((start + 1 + (k - 1)) as nat == (start + k) as nat);
                    }
                }
            },
        }
    }
}

/// The properties of a hashed-directory query's result: position `k`
/// holds the object of the file `<hash>.<k>`, every probed index below
/// the result's length was found, and the index right after the result
/// has no file.
pub proof fn lemma_scan_props(files: Seq<DirFile>, h: u32)
    ensures
        scan(files, h).len() <= files.len(),
        forall|k: int|
            0 <= k < scan(files, h).len() ==> file_at(files, name_spec(h, k as nat))
                == Option::Some(scan(files, h)[k]),
        file_at(files, name_spec(h, scan(files, h).len())) is None,
{
    let fuel = files.len() + 1;
    lemma_scan_from_props(files, h, 0, fuel);
    let s = scan(files, h);
    assert forall|j: nat| j < s.len() implies has_file(files, #[trigger] name_spec(h, j)) by {
        assert(file_at(files, name_spec(h, (0 + j as int) as nat)) == Option::Some(s[j as int]));
        lemma_file_at_iff_has(files, name_spec(h, j));
    }
    lemma_found_bound(files, h, s.len());
    assert(s.len() < fuel);
    assert(file_at(files, name_spec(h, (0 + s.len() as int) as nat)) is None);
}

/// Decides whether `a` and `b` hold the same bytes.
fn bytes_eq(a: &Vec<u8>, b: &Vec<u8>) -> (r: bool)
    ensures
        r == (a@ == b@),
{
    if a.len() != b.len() {
        return false;
    }
    let n = a.len();
    let mut i: usize = 0;
    while i < n
        invariant
            n == a@.len(),
            n == b@.len(),
            0 <= i <= n,
            forall|j: int| 0 <= j < i ==> a@[j] == b@[j],
        decreases n - i,
    {
        if a[i] != b[i] {
            return false;
        }
        i += 1;
    }
    proof {
        assert(a@ =~= b@);
    }
    true
}

/// Returns the object of the first file named `name`, if any.
fn find_file(files: &Vec<DirFile>, name: &Vec<u8>) -> (r: Option<X509Object>)
    ensures
        r == file_at(files@, name@),
{
    let n = files.len();
    let mut p: usize = 0;
    proof {
        assert(files@.skip(0) =~= files@);
    }
    while p < n
        invariant
            n == files@.len(),
            0 <= p <= n,
            file_at(files@, name@) == file_at(files@.skip(p as int), name@),
        decreases n - p,
    {
        if bytes_eq(&files[p].name, name) {
            proof {
                assert(files@.skip(p as int)[0] == files@[p as int]);
            }
            return Some(files[p].object);
        }
        proof {
            assert(files@.skip(p as int)[0] == files@[p as int]);
            assert(files@.skip(p as int).drop_first() =~= files@.skip(p + 1));
        }
        p += 1;
    }
    proof {
        assert(files@.skip(n as int).len() == 0);
    }
    None
}

/// Queries one directory listing for the objects filed under hash `h`:
/// probes `<hash>.0`, `<hash>.1`, … and collects each object until the
/// first index with no file. An absent hash yields an empty result.
pub fn hashed_lookup(files: &Vec<DirFile>, h: u32) -> (r: Vec<X509Object>)
    ensures
        r@ == scan(files@, h),
{
    let n = files.len();
    let mut r: Vec<X509Object> = Vec::new();
    let mut i: usize = 0;
    proof {
        assert(r@ + scan_from(files@, h, 0, (n + 1) as nat) =~= scan(files@, h));
    }
    loop
        invariant
            n == files@.len(),
            i == r@.len(),
            i <= n,
            scan(files@, h) == r@ + scan_from(files@, h, i as nat, (n + 1 - i) as nat),
            forall|j: int|
                0 <= j < i ==> file_at(files@, name_spec(h, j as nat)) == Option::Some(r@[j]),
        decreases n + 1 - i,
    {
        let name = hashed_name(h, i);
        match find_file(files, &name) {
            Option::None => {
                proof {
                    assert(scan_from(files@, h, i as nat, (n + 1 - i) as nat) =~= Seq::<
                        X509Object,
                    >::empty());
                    assert(scan(files@, h) =~= r@);
                }
                return r;
            },
            Option::Some(o) => {
                r.push(o);
                proof {
                    let fuel = (n + 1 - i) as nat;
                    assert(scan_from(files@, h, i as nat, fuel) == seq![o] + scan_from(
                        files@,
                        h,
                        i as nat + 1,
                        (fuel - 1) as nat,
                    ));
                    assert(scan(files@, h) =~= r@ + scan_from(
                        files@,
                        h,
                        (i + 1) as nat,
                        (n + 1 - (i + 1)) as nat,
                    ));
                    assert forall|j: nat| j < i + 1 implies has_file(
                        files@,
                        #[trigger] name_spec(h, j),
                    ) by {
                        if j < i as nat {
                            let jj = j as int;
                            assert(file_at(files@, name_spec(h, jj as nat)) == Option::Some(
                                r@[jj],
                            ));
                        } else {
                            assert(name@ == name_spec(h, i as nat));
                            assert(file_at(files@, name_spec(h, i as nat)) == Option::Some(o));
                        }
                        lemma_file_at_iff_has(files@, name_spec(h, j));
                    }
                    lemma_found_bound(files@, h, (i + 1) as nat);
                }
                i += 1;
            },
        }
    }
}

/// What querying several directories in registration order returns: the
/// per-directory results, concatenated.
pub open spec fn multi_scan(ls: Seq<DirListing>, h: u32) -> Seq<X509Object>
    decreases ls.len(),
{
    if ls.len() == 0 {
        Seq::empty()
    } else {
        multi_scan(ls.drop_last(), h) + scan(ls.last().files@, h)
    }
}

/// Queries the given directory listings in order and concatenates their
/// results, earlier directories first.
pub fn hashed_lookup_all(ls: &Vec<DirListing>, h: u32) -> (r: Vec<X509Object>)
    ensures
        r@ == multi_scan(ls@, h),
{
    let n = ls.len();
    let mut r: Vec<X509Object> = Vec::new();
    let mut i: usize = 0;
    proof {
        assert(r@ =~= multi_scan(ls@.take(0), h));
    }
    while i < n
        invariant
            n == ls@.len(),
            0 <= i <= n,
            r@ == multi_scan(ls@.take(i as int), h),
        decreases n - i,
    {
        let mut part = hashed_lookup(&ls[i].files, h);
        r.append(&mut part);
        proof {
            assert(ls@.take(i + 1).drop_last() =~= ls@.take(i as int));
            assert(ls@.take(i + 1).last() == ls@[i as int]);
        }
        i += 1;
    }
    proof {
        assert(ls@.take(n as int) =~= ls@);
    }
    r
}

/// The encoding a registered directory's files are expected in.
#[derive(Clone, Copy, Debug, PartialEq, Eq, Structural)]
pub enum SslFiletype {
    /// PEM-encoded files.
    Pem,
    /// DER-encoded files.
    Asn1,
    /// Try both encodings.
    Auto,
}

/// Marker naming the hashed-directory lookup strategy.
#[derive(Clone, Copy, Debug, PartialEq, Eq, Structural)]
pub struct HashDir;

/// A process-wide, stateless descriptor of a lookup strategy. New
/// strategies are new variants.
#[derive(Clone, Copy, Debug, PartialEq, Eq, Structural)]
pub enum X509LookupMethod {
    /// Hashed-directory discovery; see [`HashDir`].
    HashDir,
}

/// What a directory registration hands the builder: the path of a target
/// that exists, or the reason it cannot be used. Probing the filesystem
/// is owned by the caller; the decision is made here.
#[derive(Clone, Debug)]
pub enum DirSource {
    /// No such directory exists.
    Absent,
    /// The directory exists but cannot be read.
    Unreadable,
    /// A readable directory at the given path.
    Present(String),
}

/// One directory registered on a lookup, with its encoding hint.
#[derive(Clone, Debug)]
pub struct LookupDir {
    /// The directory's path.
    pub path: String,
    /// The encoding its files are expected in.
    pub file_type: SslFiletype,
}

/// A store-owned instance of a lookup method, holding the method-specific
/// configuration: for hashed directories, the registered directories in
/// registration order.
#[derive(Clone, Debug)]
pub struct X509Lookup {
    /// The strategy this instance follows.
    pub method: X509LookupMethod,
    /// The registered directories, searched in registration order.
    pub dirs: Vec<LookupDir>,
}

impl X509Lookup {
    /// Returns the hashed-directory lookup method: objects are loaded on
    /// demand from registered directories and cached once found.
    pub fn hash_dir() -> (m: X509LookupMethod)
        ensures
            m == X509LookupMethod::HashDir,
    {
        X509LookupMethod::HashDir
    }

    /// A fresh instance of `method` with no directory registered.
    pub fn new(method: X509LookupMethod) -> (r: X509Lookup)
        ensures
            r.method == method,
            r.dirs@.len() == 0,
    {
        X509Lookup { method, dirs: Vec::new() }
    }

    /// Registers a directory to scan, with an encoding hint. Directories
    /// are searched in registration order. A target that is absent or
    /// unreadable at registration time is rejected with `IoError` and
    /// nothing is registered.
    pub fn add_dir(&mut self, dir: DirSource, file_type: SslFiletype) -> (r: Result<
        (),
        X509Error,
    >)
        ensures
            dir matches DirSource::Present(p) ==> r is Ok && final(self).method == old(
                self,
            ).method && final(self).dirs@ == old(self).dirs@.push(
                (LookupDir { path: p, file_type }),
            ),
            !(dir matches DirSource::Present(_)) ==> r == Err::<(), X509Error>(X509Error::IoError)
                && *final(self) == *old(self),
    {
        match dir {
            DirSource::Present(path) => {
                self.dirs.push(LookupDir { path, file_type });
                Ok(())
            },
            _ => Err(X509Error::IoError),
        }
    }
}

} // verus!
