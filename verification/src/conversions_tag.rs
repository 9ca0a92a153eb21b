use vstd::prelude::*;
use vstd::utf8::*;
use vstd::bytes::{spec_u64_to_le_bytes, spec_u64_from_le_bytes, u64_to_le_bytes, u64_from_le_bytes};
use crate::types::{LinkTag, HoloHash, Timestamp};
use crate::error::ZomeUtilsError;
use crate::conversions;
use crate::conversions::{holo_hash_encoding, holo_hash_decoding, hash_text_decodable, hash_decode_error};

verus! {

/// The hash that a link tag holds: its UTF-8 text, decoded as a hash.
pub open spec fn tag_hash(tag: Seq<u8>) -> Option<Seq<u8>> {
    if valid_utf8(tag) {
        holo_hash_decoding(decode_utf8(tag))
    } else {
        None
    }
}

/// The link tag that holds a hash: the UTF-8 bytes of the hash's text.
pub open spec fn hash_tag(hash: Seq<u8>) -> Seq<u8> {
    encode_utf8(holo_hash_encoding(hash))
}

/// The microseconds that an 8-byte little-endian tag holds.
pub open spec fn tag_micros(tag: Seq<u8>) -> i64 {
    spec_u64_from_le_bytes(tag) as i64
}

/// The 8 little-endian bytes of a timestamp's microseconds.
pub open spec fn micros_tag(micros: i64) -> Seq<u8> {
    spec_u64_to_le_bytes(micros as u64)
}

/// Convert a string to a link tag holding its UTF-8 bytes.
pub fn str2tag(tag_str: &str) -> (tag: LinkTag)
    ensures
        tag@ == encode_utf8(tag_str@),
{
    conversions::str2tag(tag_str)
}

/// Convert a link tag holding UTF-8 text back to that text.
pub fn tag2str(tag: &LinkTag) -> (res: Result<String, ZomeUtilsError>)
    ensures
        res is Ok <==> valid_utf8(tag@),
        res matches Ok(s) ==> s@ == decode_utf8(tag@),
        res matches Err(e) ==> e is TagNotUtf8,
{
    conversions::tag2str(tag)
}

/// Store a hash in a link tag: the UTF-8 bytes of its text (`u` and the
/// URL-safe base64 of its 39 bytes). Reading it back with `tag2hash` gives
/// the hash, wherever the hash's text decodes at all.
pub fn hash2tag(hash: &HoloHash) -> (tag: LinkTag)
    ensures
        tag@ == hash_tag(hash@),
        valid_utf8(tag@) && hash_text_decodable(decode_utf8(tag@)),
        holo_hash_decoding(holo_hash_encoding(hash@)) is Some ==> tag_hash(tag@) == Some(hash@),
{
    let text = conversions::holo_hash_encode(hash.0.as_slice());
    let tag = conversions::str2tag(text.as_str());
    proof {
        conversions::lemma_str_tag_roundtrip(text@);
        conversions::lemma_hash_text_shaped(hash@);
    }
    tag
}

/// Read the hash that a link tag holds. The tag must be UTF-8 text that is
/// the encoding of a hash; the hash's type prefix is not checked here.
pub fn tag2hash(tag: &LinkTag) -> (res: Result<HoloHash, ZomeUtilsError>)
    requires
        valid_utf8(tag@) ==> hash_text_decodable(decode_utf8(tag@)),
    ensures
        res is Ok <==> tag_hash(tag@) is Some,
        res matches Ok(h) ==> Some(h@) == tag_hash(tag@),
        res matches Ok(h) ==> h@.len() == 39 && hash_tag(h@) == tag@,
        !valid_utf8(tag@) ==> res matches Err(ZomeUtilsError::TagNotUtf8),
        valid_utf8(tag@) && res is Err ==> (res matches Err(ZomeUtilsError::Deserialize(m))
            && m@ == hash_decode_error(decode_utf8(tag@))),
{
    let text = match conversions::tag2str(tag) {
        Ok(t) => t,
        Err(e) => return Err(e),
    };
    match conversions::holo_hash_decode_unchecked(text.as_str()) {
        Ok(raw) => {
            proof {
                conversions::lemma_tag_str_roundtrip(tag@);
            }
            Ok(HoloHash(raw))
        },
        Err(m) => Err(ZomeUtilsError::Deserialize(m)),
    }
}

/// Read the timestamp stored in an 8-byte tag: little-endian microseconds.
#[allow(non_snake_case)]
pub fn tag2Ts(tag: LinkTag) -> (ts: Timestamp)
    requires
        tag@.len() == 8,
    ensures
        ts.0 == tag_micros(tag@),
{
    let bits = u64_from_le_bytes(tag.0.as_slice());
    Timestamp(bits as i64)
}

/// Store a timestamp in a tag: its microseconds as 8 little-endian bytes.
#[allow(non_snake_case)]
pub fn ts2Tag(ts: Timestamp) -> (tag: LinkTag)
    ensures
        tag@ == micros_tag(ts.0),
        tag@.len() == 8,
{
    LinkTag(u64_to_le_bytes(ts.0 as u64))
}

/// A timestamp stored in a tag reads back unchanged.
pub proof fn lemma_ts_tag_roundtrip(micros: i64)
    ensures
        micros_tag(micros).len() == 8,
        tag_micros(micros_tag(micros)) == micros,
{
    vstd::bytes::lemma_auto_spec_u64_to_from_le_bytes();
    let u = micros as u64;
    assert((u as i64) == micros) by (bit_vector)
        requires
            u == micros as u64,
    ;
}

/// An 8-byte tag read as a timestamp and stored again gives the same tag.
pub proof fn lemma_tag_ts_roundtrip(tag: Seq<u8>)
    requires
        tag.len() == 8,
    ensures
        micros_tag(tag_micros(tag)) == tag,
{
    vstd::bytes::lemma_auto_spec_u64_to_from_le_bytes();
    let u = spec_u64_from_le_bytes(tag);
    let m = u as i64;
    assert((m as u64) == u) by (bit_vector)
        requires
            m == u as i64,
    ;
}

/// A timestamp's tag is its microseconds' own little-endian bytes: the
/// `k`-th byte is bits `8k` to `8k + 7` of the microseconds as an unsigned
/// 64-bit number; and reading an 8-byte tag gives the microseconds whose
/// bytes those are.
pub proof fn lemma_tag_bytes_are_little_endian(micros: i64, tag: Seq<u8>)
    ensures
        micros_tag(micros).len() == 8,
        forall|k: int| 0 <= k < 8 ==> #[trigger] micros_tag(micros)[k] == (((micros as u64) >> ((8 * k) as u64)) & 0xff) as u8,
        tag.len() == 8 ==> forall|k: int| 0 <= k < 8 ==>
            #[trigger] tag[k] == (((tag_micros(tag) as u64) >> ((8 * k) as u64)) & 0xff) as u8,
{
    let u = micros as u64;
    vstd::bytes::spec_u64_to_le_bytes_to_open(u);
    let bytes = micros_tag(micros);
    assert forall|k: int| 0 <= k < 8 implies #[trigger] bytes[k] == ((u >> ((8 * k) as u64)) & 0xff) as u8 by {
        if k == 0 {
            assert(u >> 0u64 == u) by (bit_vector);
        }
    }
    if tag.len() == 8 {
        lemma_tag_ts_roundtrip(tag);
        let m = tag_micros(tag);
        let w = m as u64;
        vstd::bytes::spec_u64_to_le_bytes_to_open(w);
        assert forall|k: int| 0 <= k < 8 implies #[trigger] tag[k] == ((w >> ((8 * k) as u64)) & 0xff) as u8 by {
            assert(tag[k] == micros_tag(m)[k]);
            if k == 0 {
                assert(w >> 0u64 == w) by (bit_vector);
            }
        }
    }
}

} // verus!
