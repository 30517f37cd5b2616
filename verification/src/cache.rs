//! Addressing and entry model: the identity of a cached image and the
//! derived 16-byte storage key computed from it.

use vstd::prelude::*;
use vstd::string::StringExecFns;
use vstd::utf8::encode_utf8;
use crate::codec::{spec_decode, spec_encode_parts, spec_encodable};

verus! {

/// MD5 digest of a byte sequence. The digest is a pure function of the
/// input; its definition is supplied by the `md5` crate and left abstract.
pub uninterp spec fn md5_digest(bytes: Seq<u8>) -> Seq<u8>;

/// Whether a character sequence parses as a MIME type. Parsing is a pure
/// function of the input; its definition is supplied by the `mime` crate
/// and left abstract.
pub uninterp spec fn mime_parses(s: Seq<char>) -> bool;

/// Relies on `md5::compute`: the digest depends on the input bytes alone
/// and is 16 bytes long.
#[verifier::external_body]
pub(crate) fn make_checksum(bytes: &[u8]) -> (r: Vec<u8>)
    ensures
        r@ == md5_digest(bytes@),
        r@.len() == 16,
{
    md5::compute(bytes).0.to_vec()
}

/// Relies on `mime::Mime`'s `FromStr` impl: whether a string parses as a
/// MIME type depends on the characters alone.
#[verifier::external_body]
pub(crate) fn mime_is_valid(s: &str) -> (r: bool)
    ensures
        r == mime_parses(s@),
{
    s.parse::<mime::Mime>().is_ok()
}

/// Relies on `std::time::SystemTime::now`: milliseconds since the epoch,
/// or zero when the clock reads earlier than the epoch. Nothing can be
/// promised of the clock's value.
#[verifier::external_body]
pub(crate) fn now_millis() -> u128 {
    std::time::SystemTime::now()
        .duration_since(std::time::UNIX_EPOCH)
        .map(|d| d.as_millis())
        .unwrap_or_default()
}

/// Lowercase hexadecimal digit for a value below 16.
pub open spec fn spec_hex_digit(n: u8) -> char
    recommends
        n < 16,
{
    if n < 10 {
        (48 + n) as char
    } else {
        (87 + n) as char
    }
}

/// Lowercase hexadecimal rendering of a byte sequence, high nibble first.
pub open spec fn spec_hex(bytes: Seq<u8>) -> Seq<char>
    decreases bytes.len(),
{
    if bytes.len() == 0 {
        Seq::empty()
    } else {
        spec_hex(bytes.drop_last()) + seq![
            spec_hex_digit(bytes.last() / 16),
            spec_hex_digit(bytes.last() % 16),
        ]
    }
}

/// Relies on `hex::encode`: each input byte becomes two lowercase
/// hexadecimal digits, high nibble first.
#[verifier::external_body]
pub(crate) fn hex_encode(bytes: &[u8]) -> (r: String)
    ensures
        r@ == spec_hex(bytes@),
{
    hex::encode(bytes)
}

/// The 16-byte derived storage key for an identity triple: the MD5 digest
/// of the fidelity flag byte followed by the chapter and image names in
/// UTF-8. Equal triples always yield equal keys.
pub open spec fn spec_cache_key(chapter: Seq<char>, image: Seq<char>, saver: bool) -> Seq<u8> {
    md5_digest(
        seq![if saver { 1u8 } else { 0u8 }] + encode_utf8(chapter) + encode_utf8(image),
    )
}

/// Computes the derived storage key of an identity triple.
pub fn derive_cache_key(chapter: &str, image: &str, saver: bool) -> (r: Vec<u8>)
    ensures
        r@ == spec_cache_key(chapter@, image@, saver),
        r@.len() == 16,
{
    let mut buf: Vec<u8> = Vec::new();
    buf.push(if saver { 1 } else { 0 });
    buf.extend_from_slice(chapter.as_bytes());
    buf.extend_from_slice(image.as_bytes());
    proof {
        assert(buf@ =~= seq![if saver { 1u8 } else { 0u8 }] + encode_utf8(chapter@)
            + encode_utf8(image@));
    }
    make_checksum(buf.as_slice())
}

/// Relies on `str`'s `PartialEq`: string slices compare equal exactly when
/// their characters do.
#[verifier::external_body]
fn str_eq(a: &str, b: &str) -> (r: bool)
    ensures
        r == (a@ == b@),
{
    a == b
}

/// The fidelity flag an archive path segment stands for: exactly `data` or
/// `data-saver`; anything else is an addressing error.
pub open spec fn spec_parse_archive_type(s: Seq<char>) -> Option<bool> {
    if s == "data"@ {
        Some(false)
    } else if s == "data-saver"@ {
        Some(true)
    } else {
        None
    }
}

/// Validates the archive segment of a request path and yields the fidelity
/// flag; `None` is answered as not-found.
pub fn parse_archive_type(s: &str) -> (r: Option<bool>)
    ensures
        r == spec_parse_archive_type(s@),
{
    if str_eq(s, "data") {
        Some(false)
    } else if str_eq(s, "data-saver") {
        Some(true)
    } else {
        None
    }
}

/// The three components of an image path: the chapter hash, the image name,
/// and whether the image is the reduced-fidelity (`data-saver`) variant.
#[derive(Debug, Clone)]
pub struct ImageKey {
    chapter: String,
    image: String,
    data_saver: bool,
}

/// Archive segment of the canonical path for a fidelity flag.
pub open spec fn spec_archive_name(data_saver: bool) -> Seq<char> {
    if data_saver {
        "data-saver"@
    } else {
        "data"@
    }
}

impl ImageKey {
    /// The chapter hash, as a sequence of characters.
    pub closed spec fn chapter_spec(&self) -> Seq<char> {
        self.chapter@
    }

    /// The image name, as a sequence of characters.
    pub closed spec fn image_spec(&self) -> Seq<char> {
        self.image@
    }

    /// Whether the key addresses the reduced-fidelity variant.
    pub closed spec fn data_saver_spec(&self) -> bool {
        self.data_saver
    }

    /// Canonical textual form `/{"data"|"data-saver"}/{chapter}/{image}`.
    pub open spec fn path_spec(&self) -> Seq<char> {
        "/"@ + spec_archive_name(self.data_saver_spec()) + "/"@ + self.chapter_spec() + "/"@
            + self.image_spec()
    }

    /// Creates a new key from the given components.
    pub fn new(chapter: String, image: String, data_saver: bool) -> (k: Self)
        ensures
            k.chapter_spec() == chapter@,
            k.image_spec() == image@,
            k.data_saver_spec() == data_saver,
    {
        ImageKey { chapter, image, data_saver }
    }

    /// Creates a new key, copying borrowed string components.
    pub fn from_str_like(chapter: &str, image: &str, data_saver: bool) -> (k: Self)
        ensures
            k.chapter_spec() == chapter@,
            k.image_spec() == image@,
            k.data_saver_spec() == data_saver,
    {
        Self::new(chapter.to_owned(), image.to_owned(), data_saver)
    }

    /// The chapter hash associated with the key.
    pub fn chapter(&self) -> (r: &str)
        ensures
            r@ == self.chapter_spec(),
    {
        self.chapter.as_str()
    }

    /// The image name associated with the key.
    pub fn image(&self) -> (r: &str)
        ensures
            r@ == self.image_spec(),
    {
        self.image.as_str()
    }

    /// Whether the key is for the data-saver variant.
    pub fn data_saver(&self) -> (r: bool)
        ensures
            r == self.data_saver_spec(),
    {
        self.data_saver
    }

    /// The archive segment of the canonical path.
    pub fn archive_name(&self) -> (r: &'static str)
        ensures
            r@ == spec_archive_name(self.data_saver_spec()),
    {
        if self.data_saver {
            "data-saver"
        } else {
            "data"
        }
    }

    /// Renders the canonical textual form of the key.
    pub fn path_string(&self) -> (r: String)
        ensures
            r@ == self.path_spec(),
    {
        let mut s = String::new();
        s.append("/");
        s.append(self.archive_name());
        s.append("/");
        s.append(self.chapter.as_str());
        s.append("/");
        s.append(self.image.as_str());
        s
    }
}

/// The MIME type reported for an entry whose stored type is invalid.
pub open spec fn spec_effective_mime(m: Seq<char>) -> Seq<char> {
    if mime_parses(m) {
        m
    } else {
        "image/png"@
    }
}

/// The cached unit: creation timestamp, a 16-byte checksum computed over
/// the payload at creation time (never recomputed on load), the recorded
/// MIME type, and the payload bytes.
#[derive(Debug, Clone)]
pub struct ImageEntry {
    last_modified: u128,
    checksum: Vec<u8>,
    mime_type: String,
    bytes: Vec<u8>,
}

impl ImageEntry {
    /// Milliseconds since the epoch at which the entry was created.
    pub closed spec fn last_modified_spec(&self) -> u128 {
        self.last_modified
    }

    /// The stored checksum bytes.
    pub closed spec fn checksum_spec(&self) -> Seq<u8> {
        self.checksum@
    }

    /// The stored MIME type text.
    pub closed spec fn mime_type_spec(&self) -> Seq<char> {
        self.mime_type@
    }

    /// The payload bytes.
    pub closed spec fn bytes_spec(&self) -> Seq<u8> {
        self.bytes@
    }

    /// A well-formed entry carries a 16-byte checksum.
    pub open spec fn well_formed(&self) -> bool {
        self.checksum_spec().len() == 16
    }

    /// Creates an entry at the given creation time, computing the checksum
    /// over the payload.
    pub fn new(bytes: Vec<u8>, mime_type: String, last_modified_millis: u128) -> (e: Self)
        ensures
            e.last_modified_spec() == last_modified_millis,
            e.checksum_spec() == md5_digest(bytes@),
            e.mime_type_spec() == mime_type@,
            e.bytes_spec() == bytes@,
            e.well_formed(),
    {
        let checksum = make_checksum(bytes.as_slice());
        ImageEntry { last_modified: last_modified_millis, checksum, mime_type, bytes }
    }

    /// Creates an entry stamped with the current wall-clock time.
    pub fn new_assume(bytes: Vec<u8>, mime_type: String) -> (e: Self)
        ensures
            e.checksum_spec() == md5_digest(bytes@),
            e.mime_type_spec() == mime_type@,
            e.bytes_spec() == bytes@,
            e.well_formed(),
    {
        let stamp = now_millis();
        Self::new(bytes, mime_type, stamp)
    }

    /// Reconstructs an entry from already-stored fields; the checksum is
    /// taken as recorded, not recomputed.
    pub(crate) fn from_parts(
        last_modified: u128,
        checksum: Vec<u8>,
        mime_type: String,
        bytes: Vec<u8>,
    ) -> (e: Self)
        ensures
            e.last_modified_spec() == last_modified,
            e.checksum_spec() == checksum@,
            e.mime_type_spec() == mime_type@,
            e.bytes_spec() == bytes@,
    {
        ImageEntry { last_modified, checksum, mime_type, bytes }
    }

    /// A copy of the payload bytes.
    pub fn get_bytes(&self) -> (r: Vec<u8>)
        ensures
            r@ == self.bytes_spec(),
    {
        vstd::slice::slice_to_vec(self.bytes.as_slice())
    }

    /// Lowercase hexadecimal rendering of the stored checksum.
    pub fn get_checksum_hex(&self) -> (r: String)
        ensures
            r@ == spec_hex(self.checksum_spec()),
    {
        hex_encode(self.checksum.as_slice())
    }

    /// The stored MIME type, defaulting to `image/png` when the stored
    /// text is not a valid MIME type.
    pub fn get_mime(&self) -> (r: String)
        ensures
            r@ == spec_effective_mime(self.mime_type_spec()),
    {
        if mime_is_valid(self.mime_type.as_str()) {
            self.mime_type.clone()
        } else {
            String::from_str("image/png")
        }
    }

    /// Borrow of the stored checksum bytes.
    pub(crate) fn checksum_ref(&self) -> (r: &Vec<u8>)
        ensures
            r@ == self.checksum_spec(),
    {
        &self.checksum
    }

    /// Borrow of the stored MIME type text.
    pub(crate) fn mime_type_ref(&self) -> (r: &str)
        ensures
            r@ == self.mime_type_spec(),
    {
        self.mime_type.as_str()
    }

    /// Borrow of the payload bytes.
    pub(crate) fn bytes_ref(&self) -> (r: &Vec<u8>)
        ensures
            r@ == self.bytes_spec(),
    {
        &self.bytes
    }

    /// The creation timestamp in milliseconds since the epoch.
    pub fn get_last_modified(&self) -> (r: u128)
        ensures
            r == self.last_modified_spec(),
    {
        self.last_modified
    }
}

/// The derived storage key read as an unsigned 128-bit integer in
/// little-endian byte order, the form under which entries are addressed.
pub open spec fn spec_key_int(chapter: Seq<char>, image: Seq<char>, saver: bool) -> u128 {
    vstd::bytes::spec_u128_from_le_bytes(spec_cache_key(chapter, image, saver))
}

/// Distinct 16-byte derived keys are stored under distinct integers: the
/// little-endian reading of 16-byte sequences is injective, so two entries
/// collide in the store only if their derived keys already collide.
pub proof fn lemma_distinct_keys_distinct_ints(a: Seq<u8>, b: Seq<u8>)
    requires
        a.len() == 16,
        b.len() == 16,
        a != b,
    ensures
        vstd::bytes::spec_u128_from_le_bytes(a) != vstd::bytes::spec_u128_from_le_bytes(b),
{
    vstd::bytes::lemma_auto_spec_u128_to_from_le_bytes();
    assert(vstd::bytes::spec_u128_to_le_bytes(vstd::bytes::spec_u128_from_le_bytes(a)) == a);
    assert(vstd::bytes::spec_u128_to_le_bytes(vstd::bytes::spec_u128_from_le_bytes(b)) == b);
}

/// Key determinism: equal identity triples always yield an equal derived
/// storage key.
pub proof fn lemma_key_determinism(
    chapter1: Seq<char>,
    image1: Seq<char>,
    saver1: bool,
    chapter2: Seq<char>,
    image2: Seq<char>,
    saver2: bool,
)
    requires
        chapter1 == chapter2,
        image1 == image2,
        saver1 == saver2,
    ensures
        spec_cache_key(chapter1, image1, saver1) == spec_cache_key(chapter2, image2, saver2),
        spec_key_int(chapter1, image1, saver1) == spec_key_int(chapter2, image2, saver2),
{
}

/// The cache-engine contract: the four operations a storage backend must
/// provide. A backend holds encoded entries under the integer form of the
/// derived key and accounts approximately for its occupied bytes.
pub trait ImageCache: Sized + Send + Sync {
    /// Stored blobs by derived key.
    spec fn cached(&self) -> Map<u128, Seq<u8>>;

    /// Approximate occupied size in bytes.
    spec fn approx_size(&self) -> u64;

    /// The backend's internal invariant.
    spec fn wf(&self) -> bool;

    /// Loads a cached image. Absent keys and undecodable blobs both come
    /// back as `None`: a caller cannot distinguish "never cached" from
    /// "cached but corrupted".
    fn load(&self, key: &ImageKey) -> (r: Option<ImageEntry>)
        requires
            self.wf(),
        ensures
            ({
                let k = spec_key_int(key.chapter_spec(), key.image_spec(), key.data_saver_spec());
                match r {
                    Some(e) => self.cached().contains_key(k) && spec_decode(self.cached()[k])
                        == Some(
                        (
                            e.last_modified_spec(),
                            e.checksum_spec(),
                            e.mime_type_spec(),
                            e.bytes_spec(),
                        ),
                    ),
                    None => !self.cached().contains_key(k) || spec_decode(self.cached()[k])
                        is None,
                }
            }),
    ;

    /// Saves an image, building a fresh entry whose checksum is the digest
    /// of the payload and whose timestamp is taken at the call. A failed
    /// save changes nothing and is only reported through the flag.
    fn save(&mut self, key: &ImageKey, mime_type: String, data: Vec<u8>) -> (ok: bool)
        requires
            old(self).wf(),
        ensures
            final(self).wf(),
            ok ==> exists|t: u128|
                final(self).cached() == old(self).cached().insert(
                    spec_key_int(key.chapter_spec(), key.image_spec(), key.data_saver_spec()),
                    #[trigger] spec_encode_parts(t, md5_digest(data@), mime_type@, data@),
                ),
            !ok ==> *final(self) == *old(self),
            old(self).approx_size() + 48 + encode_utf8(mime_type@).len() + data@.len()
                <= u64::MAX ==> ok,
            ok ==> ({
                let k = spec_key_int(key.chapter_spec(), key.image_spec(), key.data_saver_spec());
                final(self).approx_size() == old(self).approx_size() + 48 + encode_utf8(
                    mime_type@,
                ).len() + data@.len() - (
                if old(self).cached().contains_key(k) {
                    old(self).cached()[k].len() as int
                } else {
                    0
                })
            }),
            md5_digest(data@).len() == 16,
            spec_encodable(mime_type@, data@),
    ;

    /// Reports the approximate occupied size without scanning the keyspace.
    fn report(&self) -> (r: u64)
        requires
            self.wf(),
        ensures
            r == self.approx_size(),
    ;

    /// Evicts entries until the occupied size is at most `min` or nothing
    /// remains. On success the returned size is computed incrementally by
    /// subtracting the evicted payload bytes, not re-measured, so it may
    /// overcount — never undercount — the size still occupied. Shrinking
    /// never grows the store, and a store already within the bound is left
    /// untouched.
    fn shrink(&mut self, min: u64) -> (r: Result<u64, ()>)
        requires
            old(self).wf(),
        ensures
            final(self).wf(),
            match r {
                Ok(s) => {
                    &&& s <= min || final(self).cached() =~= Map::<u128, Seq<u8>>::empty()
                    &&& s <= old(self).approx_size()
                    &&& final(self).approx_size() <= s
                    &&& final(self).approx_size() <= old(self).approx_size()
                    &&& forall|q: u128| #[trigger]
                        final(self).cached().contains_key(q) ==> old(
                            self,
                        ).cached().contains_key(q) && final(self).cached()[q] == old(
                            self,
                        ).cached()[q]
                    &&& old(self).approx_size() <= min ==> *final(self) == *old(self) && s == old(
                        self,
                    ).approx_size()
                },
                Err(_) => final(self).approx_size() <= old(self).approx_size() && forall|
                    q: u128,
                | #[trigger]
                    final(self).cached().contains_key(q) ==> old(self).cached().contains_key(q)
                        && final(self).cached()[q] == old(self).cached()[q],
            },
    ;
}

} // verus!
