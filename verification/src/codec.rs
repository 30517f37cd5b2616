//! On-disk entry codec: a fixed, self-describing binary layout that
//! round-trips every entry field byte-for-byte.
//!
//! Layout: 16 bytes little-endian creation time, 16 checksum bytes, 8 bytes
//! little-endian MIME length, the MIME text in UTF-8, 8 bytes little-endian
//! payload length, then the payload.

use vstd::prelude::*;
use vstd::bytes::*;
use vstd::utf8::{encode_utf8, decode_utf8, valid_utf8, encode_utf8_valid_utf8,
    encode_utf8_decode_utf8};
use vstd::slice::{slice_subrange, slice_to_vec};
use crate::cache::ImageEntry;

verus! {

/// The encoded form of an entry given as its four fields.
pub open spec fn spec_encode_parts(t: u128, c: Seq<u8>, m: Seq<char>, b: Seq<u8>) -> Seq<u8> {
    spec_u128_to_le_bytes(t) + c + spec_u64_to_le_bytes(encode_utf8(m).len() as u64)
        + encode_utf8(m) + spec_u64_to_le_bytes(b.len() as u64) + b
}

/// The encoded form of an entry.
pub open spec fn spec_encode(e: ImageEntry) -> Seq<u8> {
    spec_encode_parts(e.last_modified_spec(), e.checksum_spec(), e.mime_type_spec(), e.bytes_spec())
}

/// The fields read back from an encoded entry, or `None` when the bytes do
/// not carry the layout.
pub open spec fn spec_decode(bytes: Seq<u8>) -> Option<(u128, Seq<u8>, Seq<char>, Seq<u8>)> {
    let n = bytes.len() as int;
    if n < 48 {
        None
    } else {
        let t = spec_u128_from_le_bytes(bytes.subrange(0, 16));
        let c = bytes.subrange(16, 32);
        let mlen = spec_u64_from_le_bytes(bytes.subrange(32, 40)) as int;
        if n < 48 + mlen {
            None
        } else {
            let mb = bytes.subrange(40, 40 + mlen);
            if !valid_utf8(mb) {
                None
            } else {
                let m = decode_utf8(mb);
                let plen = spec_u64_from_le_bytes(bytes.subrange(40 + mlen, 48 + mlen)) as int;
                if n != 48 + mlen + plen {
                    None
                } else {
                    Some((t, c, m, bytes.subrange(48 + mlen, n)))
                }
            }
        }
    }
}

/// Whether fields of an entry are small enough to encode: the two length
/// prefixes are 64-bit.
pub open spec fn spec_encodable(m: Seq<char>, b: Seq<u8>) -> bool {
    &&& encode_utf8(m).len() <= u64::MAX
    &&& b.len() <= u64::MAX
}

/// Round trip: decoding an encoded entry yields the entry again, field for
/// field, including the exact payload bytes.
pub proof fn lemma_codec_round_trip(t: u128, c: Seq<u8>, m: Seq<char>, b: Seq<u8>)
    requires
        c.len() == 16,
        spec_encodable(m, b),
    ensures
        spec_decode(spec_encode_parts(t, c, m, b)) == Some((t, c, m, b)),
{
    lemma_auto_spec_u128_to_from_le_bytes();
    lemma_auto_spec_u64_to_from_le_bytes();
    encode_utf8_valid_utf8(m);
    encode_utf8_decode_utf8(m);
    let enc = spec_encode_parts(t, c, m, b);
    let mlen = encode_utf8(m).len() as int;
    let plen = b.len() as int;
    assert(enc.len() == 48 + mlen + plen);
    assert(enc.subrange(0, 16) =~= spec_u128_to_le_bytes(t));
    assert(enc.subrange(16, 32) =~= c);
    assert(enc.subrange(32, 40) =~= spec_u64_to_le_bytes(encode_utf8(m).len() as u64));
    assert(enc.subrange(40, 40 + mlen) =~= encode_utf8(m));
    assert(enc.subrange(40 + mlen, 48 + mlen) =~= spec_u64_to_le_bytes(b.len() as u64));
    assert(enc.subrange(48 + mlen, enc.len() as int) =~= b);
}

/// Number of payload bytes a stored blob carries: the decoded payload's
/// length, or the whole blob's length when the blob does not decode.
pub open spec fn spec_payload_len(blob: Seq<u8>) -> int {
    match spec_decode(blob) {
        Some(f) => f.3.len() as int,
        None => blob.len() as int,
    }
}

/// A blob never carries more payload bytes than it is long.
pub proof fn lemma_payload_len_le(blob: Seq<u8>)
    ensures
        0 <= spec_payload_len(blob) <= blob.len(),
{
}

/// Round trip over entries: decoding an encoded valid entry yields the
/// entry, field for field.
pub proof fn lemma_entry_round_trip(e: ImageEntry)
    requires
        e.well_formed(),
        spec_encodable(e.mime_type_spec(), e.bytes_spec()),
    ensures
        spec_decode(spec_encode(e)) == Some(
            (e.last_modified_spec(), e.checksum_spec(), e.mime_type_spec(), e.bytes_spec()),
        ),
{
    lemma_codec_round_trip(
        e.last_modified_spec(),
        e.checksum_spec(),
        e.mime_type_spec(),
        e.bytes_spec(),
    );
}

/// Serializes an entry into the fixed binary layout.
pub fn encode_entry(e: &ImageEntry) -> (r: Vec<u8>)
    ensures
        r@ == spec_encode(*e),
{
    let mut out = u128_to_le_bytes(e.get_last_modified());
    out.extend_from_slice(e.checksum_ref().as_slice());
    let mime_bytes = e.mime_type_ref().as_bytes();
    let mut mlen = u64_to_le_bytes(mime_bytes.len() as u64);
    out.append(&mut mlen);
    out.extend_from_slice(mime_bytes);
    let mut plen = u64_to_le_bytes(e.bytes_ref().len() as u64);
    out.append(&mut plen);
    out.extend_from_slice(e.bytes_ref().as_slice());
    proof {
        assert(out@ =~= spec_encode(*e));
    }
    out
}

/// Relies on `String::from_utf8`: succeeds exactly on valid UTF-8 and then
/// returns the string those bytes encode.
#[verifier::external_body]
fn string_from_utf8(v: Vec<u8>) -> (r: Option<String>)
    ensures
        match r {
            Some(s) => valid_utf8(v@) && s@ == decode_utf8(v@),
            None => !valid_utf8(v@),
        },
{
    String::from_utf8(v).ok()
}

/// Reads an entry back from the fixed binary layout; `None` when the bytes
/// do not carry it.
pub fn decode_entry(bytes: &[u8]) -> (r: Option<ImageEntry>)
    ensures
        match r {
            Some(e) => spec_decode(bytes@) == Some(
                (e.last_modified_spec(), e.checksum_spec(), e.mime_type_spec(), e.bytes_spec()),
            ) && e.well_formed(),
            None => spec_decode(bytes@) is None,
        },
{
    let n = bytes.len();
    if n < 48 {
        return None;
    }
    let t = u128_from_le_bytes(slice_subrange(bytes, 0, 16));
    let c = slice_to_vec(slice_subrange(bytes, 16, 32));
    let mlen64 = u64_from_le_bytes(slice_subrange(bytes, 32, 40));
    if mlen64 > (n - 48) as u64 {
        return None;
    }
    let mlen = mlen64 as usize;
    let mb = slice_to_vec(slice_subrange(bytes, 40, 40 + mlen));
    let ms = match string_from_utf8(mb) {
        Some(s) => s,
        None => {
            return None;
        },
    };
    let plen64 = u64_from_le_bytes(slice_subrange(bytes, 40 + mlen, 48 + mlen));
    if plen64 != (n - 48 - mlen) as u64 {
        return None;
    }
    let b = slice_to_vec(slice_subrange(bytes, 48 + mlen, n));
    Some(crate::cache::ImageEntry::from_parts(t, c, ms, b))
}

} // verus!
