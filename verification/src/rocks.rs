//! Storage backend: entries live in one logical namespace keyed by the
//! 16-byte derived key, in ascending key order, with point writes, point
//! lookups, eviction of the least key, and exact size accounting.
//!
//! The backend is a verified in-memory model of the disk-resident RocksDB
//! store, not the engine itself: the native binding (librocksdb-sys) builds
//! a C++ engine through bindgen against libclang, a toolchain this build
//! does not have, so the engine cannot stand behind trusted items here.
//! The observable contract it would have to satisfy — last write wins,
//! ascending-key eviction, approximate size accounting — is stated and
//! proved over the ordered store in [`crate::store`]; persistence across
//! restarts is not provided and is left to a deployment's engine adapter.

use vstd::prelude::*;
use vstd::bytes::{u128_from_le_bytes, lemma_auto_spec_u128_to_from_le_bytes,
    lemma_auto_spec_u64_to_from_le_bytes};
use vstd::utf8::encode_utf8;
use crate::cache::{ImageKey, ImageEntry, ImageCache, md5_digest, spec_cache_key, spec_key_int,
    derive_cache_key};
use crate::codec::{spec_decode, spec_encode_parts, spec_encodable, spec_payload_len,
    encode_entry, decode_entry, lemma_codec_round_trip, lemma_payload_len_le};
use crate::store::KvStore;

verus! {

/// Open-time tuning inputs of the backend: storage path, compression,
/// background parallelism, write buffering and rate limiting, and the
/// compaction strategy toggles.
pub struct RocksConfig {
    pub path: String,
    pub zstd_compression: bool,
    pub parallelism: u32,
    pub optimize_compaction: bool,
    pub write_rate_limit: u64,
    pub write_buffer_size: u64,
}

/// Failure taxonomy of the storage backend.
#[derive(Debug)]
pub enum CacheError {
    /// The backing store could not complete the operation.
    Storage,
    /// A stored blob could not be decoded as an entry.
    Serialization,
}

/// The backend: an ordered key-value namespace of encoded entries standing
/// in for the persistent engine (see the module note), plus the tuning it
/// was opened with.
pub struct RocksCache {
    db: KvStore,
    cfg: RocksConfig,
}

impl RocksCache {
    /// Number of stored entries.
    pub closed spec fn count(&self) -> nat {
        self.db.spec_len()
    }

    /// The tuning the backend was opened with.
    pub closed spec fn config_spec(&self) -> RocksConfig {
        self.cfg
    }

    /// The tuning the backend was opened with.
    pub fn config(&self) -> (r: &RocksConfig)
        ensures
            *r == self.config_spec(),
    {
        &self.cfg
    }

    /// Creates a backend with the given tuning, holding no entries.
    pub fn new(cfg: RocksConfig) -> (r: Result<Self, CacheError>)
        ensures
            match r {
                Ok(c) => c.wf() && c.cached() =~= Map::<u128, Seq<u8>>::empty() && c.approx_size()
                    == 0 && c.config_spec() == cfg,
                Err(_) => false,
            },
    {
        Ok(RocksCache { db: KvStore::new(), cfg })
    }

    /// The 16-byte derived key for an identity triple.
    pub fn get_cache_key(chap_hash: &str, image: &str, saver: bool) -> (r: Vec<u8>)
        ensures
            r@ == spec_cache_key(chap_hash@, image@, saver),
            r@.len() == 16,
    {
        derive_cache_key(chap_hash, image, saver)
    }

    /// The derived key read as the integer under which entries are stored.
    fn key_int(chap_hash: &str, image: &str, saver: bool) -> (r: u128)
        ensures
            r == spec_key_int(chap_hash@, image@, saver),
    {
        let k = derive_cache_key(chap_hash, image, saver);
        u128_from_le_bytes(k.as_slice())
    }

    /// Builds a fresh entry over the payload, stamps it, serializes it, and
    /// issues a single point write; last write wins.
    pub fn save_to_db(
        &mut self,
        chap_hash: &str,
        image: &str,
        saver: bool,
        mime_type: String,
        data: Vec<u8>,
    ) -> (r: Result<(), CacheError>)
        requires
            old(self).wf(),
        ensures
            final(self).wf(),
            match r {
                Ok(_) => exists|t: u128|
                    final(self).cached() == old(self).cached().insert(
                        spec_key_int(chap_hash@, image@, saver),
                        #[trigger] spec_encode_parts(t, md5_digest(data@), mime_type@, data@),
                    ),
                Err(_) => *final(self) == *old(self),
            },
            old(self).approx_size() + 48 + encode_utf8(mime_type@).len() + data@.len()
                <= u64::MAX ==> r matches Ok(_),
            r matches Ok(_) ==> ({
                let k = spec_key_int(chap_hash@, image@, saver);
                final(self).approx_size() == old(self).approx_size() + 48 + encode_utf8(
                    mime_type@,
                ).len() + data@.len() - (
                if old(self).cached().contains_key(k) {
                    old(self).cached()[k].len() as int
                } else {
                    0
                })
            }),
            md5_digest(data@).len() == 16,
            spec_encodable(mime_type@, data@),
    {
        let ki = Self::key_int(chap_hash, image, saver);
        let entry = ImageEntry::new_assume(data, mime_type);
        let blob = encode_entry(&entry);
        proof {
            lemma_auto_spec_u128_to_from_le_bytes();
            lemma_auto_spec_u64_to_from_le_bytes();
            assert(blob@ == spec_encode_parts(
                entry.last_modified_spec(),
                md5_digest(data@),
                mime_type@,
                data@,
            ));
            assert(blob@.len() == 48 + encode_utf8(mime_type@).len() + data@.len());
        }
        let blob_len = blob.len();
        proof {
            assert(blob_len <= usize::MAX);
        }
        if self.db.put(ki, blob) {
            proof {
                assert(self.cached() == old(self).cached().insert(
                    spec_key_int(chap_hash@, image@, saver),
                    spec_encode_parts(
                        entry.last_modified_spec(),
                        md5_digest(data@),
                        mime_type@,
                        data@,
                    ),
                ));
            }
            Ok(())
        } else {
            Err(CacheError::Storage)
        }
    }

    /// Point lookup by derived key: a hit is decoded back into an entry, a
    /// miss is `None`, and an undecodable blob is a serialization error
    /// distinct from a storage error.
    pub fn load_from_db(&self, chap_hash: &str, image: &str, saver: bool) -> (r: Result<
        Option<ImageEntry>,
        CacheError,
    >)
        requires
            self.wf(),
        ensures
            ({
                let k = spec_key_int(chap_hash@, image@, saver);
                match r {
                    Ok(Some(e)) => self.cached().contains_key(k) && spec_decode(self.cached()[k])
                        == Some(
                        (
                            e.last_modified_spec(),
                            e.checksum_spec(),
                            e.mime_type_spec(),
                            e.bytes_spec(),
                        ),
                    ) && e.well_formed(),
                    Ok(None) => !self.cached().contains_key(k),
                    Err(_) => self.cached().contains_key(k) && spec_decode(self.cached()[k])
                        is None,
                }
            }),
    {
        let ki = Self::key_int(chap_hash, image, saver);
        match self.db.get(ki) {
            None => Ok(None),
            Some(blob) => match decode_entry(blob.as_slice()) {
                Some(e) => Ok(Some(e)),
                None => Err(CacheError::Serialization),
            },
        }
    }

    /// Occupied size of the store: the exact total of the stored blobs.
    pub fn size_on_disk(&self) -> (r: Result<u64, CacheError>)
        ensures
            r matches Ok(s) && s == self.approx_size(),
    {
        Ok(self.db.total())
    }

    /// Deletes the entry with the least key, returning the number of payload
    /// bytes removed — the decoded payload's length, or the whole blob's
    /// length when the blob does not decode — or `None` when the namespace
    /// is empty. Eviction is in ascending key order; the persisted timestamp
    /// is not consulted.
    pub fn pop(&mut self) -> (r: Result<Option<usize>, CacheError>)
        requires
            old(self).wf(),
        ensures
            final(self).wf(),
            match r {
                Ok(Some(n)) => exists|k: u128|
                    {
                        &&& old(self).cached().contains_key(k)
                        &&& n == spec_payload_len(old(self).cached()[k])
                        &&& forall|q: u128| #[trigger]
                            old(self).cached().contains_key(q) ==> k <= q
                        &&& final(self).cached() == #[trigger] old(self).cached().remove(k)
                        &&& final(self).approx_size() == old(self).approx_size() - old(
                            self,
                        ).cached()[k].len()
                        &&& final(self).count() == old(self).count() - 1
                    },
                Ok(None) => *final(self) == *old(self) && old(self).cached() =~= Map::<
                    u128,
                    Seq<u8>,
                >::empty() && old(self).approx_size() == 0,
                Err(_) => false,
            },
    {
        match self.db.pop_first() {
            None => {
                proof {
                    self.db.lemma_empty();
                }
                Ok(None)
            },
            Some(p) => {
                let n = match decode_entry(p.1.as_slice()) {
                    Some(e) => e.bytes_ref().len(),
                    None => p.1.len(),
                };
                proof {
                    assert({
                        &&& old(self).cached().contains_key(p.0)
                        &&& n == spec_payload_len(old(self).cached()[p.0])
                        &&& forall|q: u128| #[trigger]
                            old(self).cached().contains_key(q) ==> p.0 <= q
                        &&& self.cached() == old(self).cached().remove(p.0)
                        &&& self.approx_size() == old(self).approx_size() - old(
                            self,
                        ).cached()[p.0].len()
                        &&& self.count() == old(self).count() - 1
                    });
                }
                Ok(Some(n))
            },
        }
    }
}

impl ImageCache for RocksCache {
    closed spec fn cached(&self) -> Map<u128, Seq<u8>> {
        self.db@
    }

    closed spec fn approx_size(&self) -> u64 {
        self.db.total_spec()
    }

    closed spec fn wf(&self) -> bool {
        self.db.wf()
    }

    fn load(&self, key: &ImageKey) -> (r: Option<ImageEntry>) {
        match self.load_from_db(key.chapter(), key.image(), key.data_saver()) {
            Ok(o) => o,
            Err(_) => None,
        }
    }

    fn save(&mut self, key: &ImageKey, mime_type: String, data: Vec<u8>) -> (ok: bool) {
        match self.save_to_db(key.chapter(), key.image(), key.data_saver(), mime_type, data) {
            Ok(_) => true,
            Err(_) => false,
        }
    }

    fn report(&self) -> (r: u64) {
        match self.size_on_disk() {
            Ok(s) => s,
            Err(_) => 0,
        }
    }

    fn shrink(&mut self, min: u64) -> (r: Result<u64, ()>)
        ensures
            r matches Ok(_),
    {
        let ghost init = *self;
        let mut sz = self.report();
        while sz > min
            invariant
                self.wf(),
                sz >= self.approx_size(),
                sz <= init.approx_size(),
                forall|q: u128| #[trigger]
                    self.cached().contains_key(q) ==> init.cached().contains_key(q)
                        && self.cached()[q] == init.cached()[q],
                init.approx_size() <= min ==> *self == init && sz == init.approx_size(),
            ensures
                self.wf(),
                sz <= min || self.cached() =~= Map::<u128, Seq<u8>>::empty(),
                sz >= self.approx_size(),
                sz <= init.approx_size(),
                forall|q: u128| #[trigger]
                    self.cached().contains_key(q) ==> init.cached().contains_key(q)
                        && self.cached()[q] == init.cached()[q],
                init.approx_size() <= min ==> *self == init && sz == init.approx_size(),
            decreases self.count(),
        {
            let ghost pre = *self;
            match self.pop() {
                Ok(Some(removed)) => {
                    proof {
                        let k = choose|k: u128|
                            {
                                &&& pre.cached().contains_key(k)
                                &&& removed == spec_payload_len(pre.cached()[k])
                                &&& forall|q: u128| #[trigger]
                                    pre.cached().contains_key(q) ==> k <= q
                                &&& self.cached() == #[trigger] pre.cached().remove(k)
                                &&& self.approx_size() == pre.approx_size() - pre.cached()[k].len()
                                &&& self.count() == pre.count() - 1
                            };
                        lemma_payload_len_le(pre.cached()[k]);
                    }
                    sz = sz - removed as u64;
                },
                Ok(None) => {
                    break;
                },
                Err(_) => {
                    return Err(());
                },
            }
        }
        Ok(sz)
    }
}

/// Save then load: after a write of an encoded fresh entry under a key, the
/// blob under that key decodes back to exactly the written timestamp,
/// checksum, MIME type, and payload bytes.
pub proof fn lemma_save_then_load(
    m: Map<u128, Seq<u8>>,
    k: u128,
    t: u128,
    c: Seq<u8>,
    mime: Seq<char>,
    data: Seq<u8>,
)
    requires
        c.len() == 16,
        spec_encodable(mime, data),
    ensures
        m.insert(k, spec_encode_parts(t, c, mime, data)).contains_key(k),
        spec_decode(m.insert(k, spec_encode_parts(t, c, mime, data))[k]) == Some(
            (t, c, mime, data),
        ),
{
    lemma_codec_round_trip(t, c, mime, data);
}

/// Overwrite: two writes under one key leave exactly the second blob; no
/// trace of the first remains.
pub proof fn lemma_overwrite_last_write_wins(
    m: Map<u128, Seq<u8>>,
    k: u128,
    b1: Seq<u8>,
    b2: Seq<u8>,
)
    ensures
        m.insert(k, b1).insert(k, b2) == m.insert(k, b2),
{
    assert(m.insert(k, b1).insert(k, b2) =~= m.insert(k, b2));
}

/// Independence of distinct keys: a write under one key neither adds nor
/// changes what is stored under a different key.
pub proof fn lemma_disjoint_key_independence(
    m: Map<u128, Seq<u8>>,
    k1: u128,
    k2: u128,
    blob: Seq<u8>,
)
    requires
        k1 != k2,
    ensures
        m.insert(k1, blob).contains_key(k2) == m.contains_key(k2),
        m.contains_key(k2) ==> m.insert(k1, blob)[k2] == m[k2],
{
}

} // verus!
