//! The key store: records addressed by public key, kept in byte order of
//! their keys, with at most one record per key.
use vstd::prelude::*;
use crate::address::{address_spec, lock_args_spec, lock_hash_spec, NetworkTag};
use crate::keys::{derive_public_key, parse_public_key, parsed_public_key, public_key_of};
use crate::order::{
    bytes_equal, bytes_less, bytes_lt, lemma_lt_irreflexive, lemma_lt_total, lemma_lt_transitive,
};

verus! {

/// Where an in-memory record came from.
pub enum KeyOrigin {
    /// Read from a private-key file at this path.
    Imported(String),
    /// Read back from the store.
    Stored,
}

/// A private key together with the public key that identifies it.
pub struct KeyRecord {
    pub public_key: Vec<u8>,
    pub private_key: Vec<u8>,
    pub origin: KeyOrigin,
}

/// Why a store operation failed.
#[derive(Debug, Clone, Copy, PartialEq, Eq, Structural)]
pub enum StoreError {
    /// The private key is malformed or does not give the record's public key.
    InvalidKeyMaterial,
    /// The public key text is not hex of a compressed curve point.
    InvalidPublicKey,
    /// A record for this public key is already stored.
    DuplicateKey,
    /// No record for this public key is stored.
    NotFound,
    /// The underlying database could not be read or written.
    StorageIO,
}

/// The (public key, private key) pairs of a sequence of records.
pub open spec fn pairs(v: Seq<KeyRecord>) -> Seq<(Seq<u8>, Seq<u8>)> {
    Seq::new(v.len(), |i: int| (v[i].public_key@, v[i].private_key@))
}

/// Each key sorts strictly before the next, so no key appears twice.
pub open spec fn strictly_sorted(s: Seq<(Seq<u8>, Seq<u8>)>) -> bool {
    forall|i: int, j: int| 0 <= i < j < s.len() ==> bytes_lt(#[trigger] s[i].0, #[trigger] s[j].0)
}

/// `s` is a listing of the store contents `m`: every record of `m`, once,
/// in byte order of the public keys.
pub open spec fn lists(s: Seq<(Seq<u8>, Seq<u8>)>, m: Map<Seq<u8>, Seq<u8>>) -> bool {
    &&& strictly_sorted(s)
    &&& forall|i: int| 0 <= i < s.len() ==> m.contains_key(#[trigger] s[i].0) && m[s[i].0] == s[i].1
    &&& forall|k: Seq<u8>| m.contains_key(k) ==> exists|i: int| 0 <= i < s.len() && #[trigger] s[i].0 == k
}

/// What adding the key pair (`public_key`, `private_key`) to the contents `m`
/// gives: the new contents, or the error.
pub open spec fn added(m: Map<Seq<u8>, Seq<u8>>, public_key: Seq<u8>, private_key: Seq<u8>) -> Result<
    Map<Seq<u8>, Seq<u8>>,
    StoreError,
> {
    if public_key_of(private_key) != Some(public_key) {
        Err(StoreError::InvalidKeyMaterial)
    } else if m.contains_key(public_key) {
        Err(StoreError::DuplicateKey)
    } else {
        Ok(m.insert(public_key, private_key))
    }
}

/// What removing `public_key` from the contents `m` gives: the private key
/// it held and the new contents, or the error.
pub open spec fn removed(m: Map<Seq<u8>, Seq<u8>>, public_key: Seq<u8>) -> Result<
    (Seq<u8>, Map<Seq<u8>, Seq<u8>>),
    StoreError,
> {
    if m.contains_key(public_key) {
        Ok((m[public_key], m.remove(public_key)))
    } else {
        Err(StoreError::NotFound)
    }
}

/// Every record of the sequence was read back from the store.
pub open spec fn all_stored(v: Seq<KeyRecord>) -> bool {
    forall|i: int| 0 <= i < v.len() ==> (#[trigger] v[i]).origin is Stored
}

/// In a listing, the first key that does not sort before `k` is `k` itself
/// exactly when `k` is stored.
proof fn lemma_position_finds(s: Seq<(Seq<u8>, Seq<u8>)>, m: Map<Seq<u8>, Seq<u8>>, p: int, k: Seq<u8>)
    requires
        lists(s, m),
        0 <= p <= s.len(),
        forall|i: int| 0 <= i < p ==> bytes_lt(#[trigger] s[i].0, k),
        p < s.len() ==> !bytes_lt(s[p].0, k),
    ensures
        m.contains_key(k) <==> (p < s.len() && s[p].0 == k),
{
    if m.contains_key(k) {
        let i = choose|i: int| 0 <= i < s.len() && #[trigger] s[i].0 == k;
        if i < p {
            lemma_lt_irreflexive(k);
        } else if i > p {
            assert(bytes_lt(s[p].0, s[i].0));
        }
    }
}

proof fn lemma_insert_lists(
    s: Seq<(Seq<u8>, Seq<u8>)>,
    m: Map<Seq<u8>, Seq<u8>>,
    p: int,
    k: Seq<u8>,
    v: Seq<u8>,
)
    requires
        lists(s, m),
        !m.contains_key(k),
        0 <= p <= s.len(),
        forall|i: int| 0 <= i < p ==> bytes_lt(#[trigger] s[i].0, k),
        p < s.len() ==> !bytes_lt(s[p].0, k),
    ensures
        lists(s.insert(p, (k, v)), m.insert(k, v)),
{
    let t = s.insert(p, (k, v));
    let m2 = m.insert(k, v);
    if p < s.len() {
        lemma_lt_total(s[p].0, k);
    }
    assert forall|j: int| p < j < t.len() implies bytes_lt(k, #[trigger] t[j].0) by {
        if j - 1 > p {
            lemma_lt_transitive(k, s[p].0, s[j - 1].0);
        }
    }
    assert forall|i: int, j: int| 0 <= i < j < t.len() implies bytes_lt(#[trigger] t[i].0, #[trigger] t[j].0) by {
        if i < p && j > p {
            assert(bytes_lt(k, t[j].0));
            lemma_lt_transitive(t[i].0, k, t[j].0);
        } else if i < p && j < p {
        } else if i > p {
            assert(t[i] == s[i - 1] && t[j] == s[j - 1]);
        }
    }
    assert forall|i: int| 0 <= i < t.len() implies m2.contains_key(#[trigger] t[i].0) && m2[t[i].0] == t[i].1 by {
        if i < p {
            assert(t[i] == s[i]);
        } else if i > p {
            assert(t[i] == s[i - 1]);
        }
    }
    assert forall|q: Seq<u8>| m2.contains_key(q) implies exists|i: int| 0 <= i < t.len() && #[trigger] t[i].0 == q by {
        if q == k {
            assert(t[p].0 == q);
        } else {
            let i = choose|i: int| 0 <= i < s.len() && #[trigger] s[i].0 == q;
            if i < p {
                assert(t[i].0 == q);
            } else {
                assert(t[i + 1].0 == q);
            }
        }
    }
}

proof fn lemma_remove_lists(s: Seq<(Seq<u8>, Seq<u8>)>, m: Map<Seq<u8>, Seq<u8>>, p: int)
    requires
        lists(s, m),
        0 <= p < s.len(),
    ensures
        lists(s.remove(p), m.remove(s[p].0)),
{
    let t = s.remove(p);
    let k = s[p].0;
    let m2 = m.remove(k);
    assert forall|i: int, j: int| 0 <= i < j < t.len() implies bytes_lt(#[trigger] t[i].0, #[trigger] t[j].0) by {
        let i2 = if i < p { i } else { i + 1 };
        let j2 = if j < p { j } else { j + 1 };
        assert(t[i] == s[i2] && t[j] == s[j2]);
    }
    assert forall|i: int| 0 <= i < t.len() implies m2.contains_key(#[trigger] t[i].0) && m2[t[i].0] == t[i].1 by {
        let i2 = if i < p { i } else { i + 1 };
        assert(t[i] == s[i2]);
        if i2 < p {
            assert(bytes_lt(s[i2].0, s[p].0));
        } else {
            assert(bytes_lt(s[p].0, s[i2].0));
        }
        lemma_lt_irreflexive(k);
    }
    assert forall|q: Seq<u8>| m2.contains_key(q) implies exists|i: int| 0 <= i < t.len() && #[trigger] t[i].0 == q by {
        let i = choose|i: int| 0 <= i < s.len() && #[trigger] s[i].0 == q;
        if i < p {
            assert(t[i].0 == q);
        } else {
            assert(t[i - 1].0 == q);
        }
    }
}

/// Once a key pair has been added, adding any record for the same public key
/// is refused as a duplicate, and the private key first stored is kept.
pub proof fn lemma_add_unique(
    m: Map<Seq<u8>, Seq<u8>>,
    public_key: Seq<u8>,
    first: Seq<u8>,
    second: Seq<u8>,
)
    requires
        added(m, public_key, first) is Ok,
        public_key_of(second) == Some(public_key),
    ensures
        added(m, public_key, first) matches Ok(m2) && added(m2, public_key, second) == Err::<
            Map<Seq<u8>, Seq<u8>>,
            StoreError,
        >(StoreError::DuplicateKey) && m2[public_key] == first,
{
}

/// After a key pair is added, a listing of the store holds exactly one
/// record with that public key, and it carries the private key added; the
/// address, lock script and lock hash computed from the listed key are those
/// of the key added.
pub proof fn lemma_add_then_list(
    m: Map<Seq<u8>, Seq<u8>>,
    public_key: Seq<u8>,
    private_key: Seq<u8>,
    listing: Seq<(Seq<u8>, Seq<u8>)>,
)
    requires
        added(m, public_key, private_key) matches Ok(m2) && lists(listing, m2),
    ensures
        exists|i: int|
            #![trigger listing[i]]
            0 <= i < listing.len() && listing[i].0 == public_key && listing[i].1 == private_key
                && (forall|j: int| 0 <= j < listing.len() && listing[j].0 == public_key ==> j == i)
                && (forall|n: NetworkTag| address_spec(n, listing[i].0) == address_spec(n, public_key))
                && lock_args_spec(listing[i].0) == lock_args_spec(public_key)
                && lock_hash_spec(listing[i].0) == lock_hash_spec(public_key),
{
    let m2 = m.insert(public_key, private_key);
    assert(m2.contains_key(public_key));
    let i = choose|i: int| 0 <= i < listing.len() && #[trigger] listing[i].0 == public_key;
    assert forall|j: int| 0 <= j < listing.len() && listing[j].0 == public_key implies j == i by {
        if j < i {
            assert(bytes_lt(listing[j].0, listing[i].0));
            lemma_lt_irreflexive(public_key);
        } else if j > i {
            assert(bytes_lt(listing[i].0, listing[j].0));
            lemma_lt_irreflexive(public_key);
        }
    }
}

/// Removing a stored key succeeds with its private key; a listing afterwards
/// holds no record with that key, and removing it again is refused as not
/// found.
pub proof fn lemma_remove_complete(
    m: Map<Seq<u8>, Seq<u8>>,
    public_key: Seq<u8>,
    listing: Seq<(Seq<u8>, Seq<u8>)>,
)
    requires
        m.contains_key(public_key),
        lists(listing, m.remove(public_key)),
    ensures
        removed(m, public_key) matches Ok((private_key, m2)) && private_key == m[public_key]
            && removed(m2, public_key) == Err::<(Seq<u8>, Map<Seq<u8>, Seq<u8>>), StoreError>(
            StoreError::NotFound,
        ),
        forall|i: int| 0 <= i < listing.len() ==> #[trigger] listing[i].0 != public_key,
{
}

/// A listing of an empty store is empty.
pub proof fn lemma_empty_lists_nothing(listing: Seq<(Seq<u8>, Seq<u8>)>)
    requires
        lists(listing, Map::empty()),
    ensures
        listing.len() == 0,
{
    if listing.len() > 0 {
        assert(Map::<Seq<u8>, Seq<u8>>::empty().contains_key(listing[0].0));
    }
}

pub(crate) fn copy_bytes(b: &Vec<u8>) -> (r: Vec<u8>)
    ensures
        r@ == b@,
{
    let mut r: Vec<u8> = Vec::new();
    let mut i: usize = 0;
    while i < b.len()
        invariant
            i <= b.len(),
            r@ == b@.subrange(0, i as int),
        decreases b.len() - i,
    {
        r.push(b[i]);
        i = i + 1;
    }
    assert(b@.subrange(0, b@.len() as int) =~= b@);
    r
}

impl KeyRecord {
    /// Builds the record of a private key read from `path`, with the public
    /// key derived from it.
    pub fn import(private_key: Vec<u8>, path: String) -> (r: Result<KeyRecord, StoreError>)
        ensures
            match public_key_of(private_key@) {
                Some(k) => r matches Ok(rec) && rec.public_key@ == k && rec.private_key@
                    == private_key@ && rec.origin == KeyOrigin::Imported(path),
                None => r == Err::<KeyRecord, StoreError>(StoreError::InvalidKeyMaterial),
            },
    {
        match derive_public_key(&private_key) {
            Some(public_key) => Ok(KeyRecord { public_key, private_key, origin: KeyOrigin::Imported(path) }),
            None => Err(StoreError::InvalidKeyMaterial),
        }
    }

    fn stored_copy(&self) -> (r: KeyRecord)
        ensures
            r.public_key@ == self.public_key@,
            r.private_key@ == self.private_key@,
            r.origin is Stored,
    {
        KeyRecord {
            public_key: copy_bytes(&self.public_key),
            private_key: copy_bytes(&self.private_key),
            origin: KeyOrigin::Stored,
        }
    }
}

/// The stored records, with the map from public key to private key that
/// they hold.
pub struct KeyStore {
    entries: Vec<KeyRecord>,
    contents: Ghost<Map<Seq<u8>, Seq<u8>>>,
}

impl View for KeyStore {
    type V = Map<Seq<u8>, Seq<u8>>;

    closed spec fn view(&self) -> Map<Seq<u8>, Seq<u8>> {
        self.contents@
    }
}

impl KeyStore {
    /// The records are listed in key order, each stored, and hold exactly
    /// the contents.
    pub closed spec fn wf(&self) -> bool {
        &&& lists(pairs(self.entries@), self.contents@)
        &&& all_stored(self.entries@)
    }

    /// An empty store.
    pub fn new() -> (r: KeyStore)
        ensures
            r.wf(),
            r@ == Map::<Seq<u8>, Seq<u8>>::empty(),
    {
        KeyStore { entries: Vec::new(), contents: Ghost(Map::empty()) }
    }

    /// All records, in byte order of their public keys.
    pub fn list(&self) -> (r: Vec<KeyRecord>)
        requires
            self.wf(),
        ensures
            lists(pairs(r@), self@),
            all_stored(r@),
    {
        let mut out: Vec<KeyRecord> = Vec::new();
        let mut i: usize = 0;
        while i < self.entries.len()
            invariant
                self.wf(),
                i <= self.entries@.len(),
                out@.len() == i,
                pairs(out@) =~= pairs(self.entries@).subrange(0, i as int),
                all_stored(out@),
            decreases self.entries@.len() - i,
        {
            out.push(self.entries[i].stored_copy());
            i = i + 1;
            assert(pairs(out@) =~= pairs(self.entries@).subrange(0, i as int));
        }
        assert(pairs(out@) =~= pairs(self.entries@));
        out
    }


    /// Stores a record under its public key, after checking that its
    /// private key gives that public key. Returns the record as given.
    pub fn add(&mut self, record: KeyRecord) -> (r: Result<KeyRecord, StoreError>)
        requires
            old(self).wf(),
        ensures
            final(self).wf(),
            match added(old(self)@, record.public_key@, record.private_key@) {
                Ok(m) => r == Ok::<KeyRecord, StoreError>(record) && final(self)@ == m,
                Err(e) => r == Err::<KeyRecord, StoreError>(e) && final(self)@ == old(self)@,
            },
    {
        match derive_public_key(&record.private_key) {
            Some(derived) => {
                if !bytes_equal(&derived, &record.public_key) {
                    return Err(StoreError::InvalidKeyMaterial);
                }
            },
            None => {
                return Err(StoreError::InvalidKeyMaterial);
            },
        }
        let p = self.position(&record.public_key);
        proof {
            lemma_position_finds(pairs(self.entries@), self.contents@, p as int, record.public_key@);
        }
        if p < self.entries.len() && bytes_equal(&self.entries[p].public_key, &record.public_key) {
            return Err(StoreError::DuplicateKey);
        }
        let copy = record.stored_copy();
        proof {
            lemma_insert_lists(
                pairs(self.entries@),
                self.contents@,
                p as int,
                record.public_key@,
                record.private_key@,
            );
        }
        let ghost old_entries = self.entries@;
        self.entries.insert(p, copy);
        self.contents = Ghost(self.contents@.insert(record.public_key@, record.private_key@));
        proof {
            assert(pairs(self.entries@) =~= pairs(old_entries).insert(
                p as int,
                (record.public_key@, record.private_key@),
            ));
        }
        Ok(record)
    }

    /// Deletes the record of a public key and returns it.
    pub fn remove(&mut self, public_key: &Vec<u8>) -> (r: Result<KeyRecord, StoreError>)
        requires
            old(self).wf(),
        ensures
            final(self).wf(),
            match removed(old(self)@, public_key@) {
                Ok((private_key, m)) => r matches Ok(rec) && rec.public_key@ == public_key@
                    && rec.private_key@ == private_key && rec.origin is Stored && final(self)@ == m,
                Err(e) => r == Err::<KeyRecord, StoreError>(e) && final(self)@ == old(self)@,
            },
    {
        let p = self.position(public_key);
        proof {
            lemma_position_finds(pairs(self.entries@), self.contents@, p as int, public_key@);
        }
        if p < self.entries.len() && bytes_equal(&self.entries[p].public_key, public_key) {
            proof {
                lemma_remove_lists(pairs(self.entries@), self.contents@, p as int);
                assert(pairs(self.entries@)[p as int].0 == public_key@);
            }
            let ghost old_entries = self.entries@;
            let rec = self.entries.remove(p);
            self.contents = Ghost(self.contents@.remove(public_key@));
            proof {
                assert(pairs(self.entries@) =~= pairs(old_entries).remove(p as int));
                assert(old_entries[p as int] == rec);
            }
            Ok(rec)
        } else {
            Err(StoreError::NotFound)
        }
    }

    /// Deletes the record of a public key given in hex. Text that is not hex
    /// of a compressed curve point is refused before the store is looked at.
    pub fn remove_hex(&mut self, public_key: &str) -> (r: Result<KeyRecord, StoreError>)
        requires
            old(self).wf(),
        ensures
            final(self).wf(),
            match parsed_public_key(public_key@) {
                None => r == Err::<KeyRecord, StoreError>(StoreError::InvalidPublicKey)
                    && final(self)@ == old(self)@,
                Some(k) => match removed(old(self)@, k) {
                    Ok((private_key, m)) => r matches Ok(rec) && rec.public_key@ == k
                        && rec.private_key@ == private_key && rec.origin is Stored && final(self)@ == m,
                    Err(e) => r == Err::<KeyRecord, StoreError>(e) && final(self)@ == old(self)@,
                },
            },
    {
        match parse_public_key(public_key) {
            Some(k) => self.remove(&k),
            None => Err(StoreError::InvalidPublicKey),
        }
    }

    /// The first position whose key does not sort before `key`.
    fn position(&self, key: &Vec<u8>) -> (p: usize)
        requires
            self.wf(),
        ensures
            p <= self.entries@.len(),
            forall|i: int| 0 <= i < p ==> bytes_lt(#[trigger] self.entries@[i].public_key@, key@),
            p < self.entries@.len() ==> !bytes_lt(self.entries@[p as int].public_key@, key@),
    {
        let mut p: usize = 0;
        while p < self.entries.len() && bytes_less(&self.entries[p].public_key, key)
            invariant
                p <= self.entries@.len(),
                forall|i: int| 0 <= i < p ==> bytes_lt(#[trigger] self.entries@[i].public_key@, key@),
            decreases self.entries@.len() - p,
        {
            p = p + 1;
        }
        p
    }
}

} // verus!
