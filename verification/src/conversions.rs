use vstd::prelude::*;
use vstd::utf8::*;
use vstd::bytes::{spec_u32_to_le_bytes, spec_u32_from_le_bytes};
use vstd::slice::slice_to_vec;
use crate::types::{LinkTag, Component, Path, HoloHash};
use crate::error::{ZomeUtilsError, decimal};

verus! {

// ---------------------------------------------------------------------------
// Text as UTF-8 and as UTF-32
// ---------------------------------------------------------------------------

/// The UTF-32 little-endian encoding of a text: four bytes per character.
pub open spec fn encode_utf32(chars: Seq<char>) -> Seq<u8>
    decreases chars.len(),
{
    if chars.len() == 0 {
        seq![]
    } else {
        spec_u32_to_le_bytes(chars[0] as u32) + encode_utf32(chars.drop_first())
    }
}

/// True when the bytes are a whole number of 4-byte little-endian words,
/// each a Unicode scalar value.
pub open spec fn valid_utf32(bytes: Seq<u8>) -> bool
    decreases bytes.len(),
{
    if bytes.len() == 0 {
        true
    } else if bytes.len() < 4 {
        false
    } else {
        is_scalar(spec_u32_from_le_bytes(bytes.take(4))) && valid_utf32(bytes.skip(4))
    }
}

/// The first 4-byte little-endian word of the bytes that is not a Unicode
/// scalar value (0 where every whole word is one).
pub open spec fn first_non_scalar(bytes: Seq<u8>) -> u32
    decreases bytes.len(),
{
    if bytes.len() < 4 {
        0
    } else if !is_scalar(spec_u32_from_le_bytes(bytes.take(4))) {
        spec_u32_from_le_bytes(bytes.take(4))
    } else {
        first_non_scalar(bytes.skip(4))
    }
}

/// The message with which bytes that are not UTF-32 text are refused: the
/// length where it is not a multiple of 4, else the first word that is not
/// a Unicode scalar value, in decimal.
pub open spec fn utf32_error(bytes: Seq<u8>) -> Seq<char> {
    if bytes.len() % 4 != 0 {
        "attempted to create u32s from utf8 bytes of length not a factor of 4: length "@ + decimal(bytes.len())
    } else {
        "unknown char for u32: "@ + decimal(first_non_scalar(bytes) as nat)
    }
}

/// The characters that UTF-32 little-endian bytes spell.
pub open spec fn decode_utf32(bytes: Seq<u8>) -> Seq<char>
    decreases bytes.len(),
{
    if bytes.len() < 4 {
        seq![]
    } else {
        seq![spec_u32_from_le_bytes(bytes.take(4)) as char] + decode_utf32(bytes.skip(4))
    }
}

/// Decoding the UTF-32 encoding of a text gives the text back.
pub proof fn lemma_utf32_roundtrip(chars: Seq<char>)
    ensures
        valid_utf32(encode_utf32(chars)),
        decode_utf32(encode_utf32(chars)) == chars,
        encode_utf32(chars).len() == 4 * chars.len(),
    decreases chars.len(),
{
    vstd::bytes::lemma_auto_spec_u32_to_from_le_bytes();
    if chars.len() > 0 {
        let c = chars[0];
        let head = spec_u32_to_le_bytes(c as u32);
        let rest = encode_utf32(chars.drop_first());
        lemma_utf32_roundtrip(chars.drop_first());
        let all = head + rest;
        assert(all.take(4) =~= head);
        assert(all.skip(4) =~= rest);
        char_is_scalar(c);
        char_u32_cast(c, c as u32);
        assert(decode_utf32(all) =~= seq![c] + chars.drop_first());
        assert(chars =~= seq![c] + chars.drop_first());
    }
}

/// Encoding the characters that valid UTF-32 bytes spell gives the bytes back.
pub proof fn lemma_utf32_decode_roundtrip(bytes: Seq<u8>)
    requires
        valid_utf32(bytes),
    ensures
        encode_utf32(decode_utf32(bytes)) == bytes,
        decode_utf32(bytes).len() * 4 == bytes.len(),
    decreases bytes.len(),
{
    vstd::bytes::lemma_auto_spec_u32_to_from_le_bytes();
    if bytes.len() > 0 {
        let head = bytes.take(4);
        let v = spec_u32_from_le_bytes(head);
        let c = v as char;
        lemma_utf32_decode_roundtrip(bytes.skip(4));
        let chars = decode_utf32(bytes);
        assert(chars[0] == c);
        assert(chars.drop_first() =~= decode_utf32(bytes.skip(4)));
        assert((c as u32) == v);
        assert(spec_u32_to_le_bytes(v) == head);
        assert(bytes =~= head + bytes.skip(4));
    }
}

/// True when a text can be handed to the hash decoder without it panicking:
/// where its UTF-8 form has 53 bytes, its first character is ASCII.
pub open spec fn hash_text_decodable(text: Seq<char>) -> bool {
    encode_utf8(text).len() == 53 ==> (text[0] as u32) < 0x80
}

/// True when a character is one of the URL-safe base64 alphabet:
/// `A`-`Z`, `a`-`z`, `0`-`9`, `-` and `_`.
pub open spec fn is_base64url_char(c: char) -> bool {
    let v = c as u32;
    ||| 0x41 <= v <= 0x5a
    ||| 0x61 <= v <= 0x7a
    ||| 0x30 <= v <= 0x39
    ||| v == 0x2d
    ||| v == 0x5f
}

/// True when a text has the shape of a hash's text: 53 bytes of UTF-8, `u`
/// first, and URL-safe base64 characters after it.
pub open spec fn hash_text_shaped(text: Seq<char>) -> bool {
    &&& encode_utf8(text).len() == 53
    &&& text[0] == 'u'
    &&& forall|i: int| 1 <= i < text.len() ==> is_base64url_char(#[trigger] text[i])
}

/// The message with which the hash decoder refuses a text: a UTF-8 length
/// other than 53 bytes first, then a first character other than `u`, then a
/// character outside the URL-safe base64 alphabet, and else a checksum that
/// does not match.
pub open spec fn hash_decode_error(text: Seq<char>) -> Seq<char> {
    if encode_utf8(text).len() != 53 {
        "Holo Hash has incorrect size"@
    } else if text[0] != 'u' {
        "Holo Hash missing 'u' prefix"@
    } else if !(forall|i: int| 1 <= i < text.len() ==> is_base64url_char(#[trigger] text[i])) {
        "Holo Hash has invalid base64 encoding"@
    } else {
        "Holo Hash checksum validation failed"@
    }
}

// ---------------------------------------------------------------------------
// Calls into std and hdk
// ---------------------------------------------------------------------------

/// `std::str::from_utf8`: `Some` exactly when the bytes are valid UTF-8, and
/// then the text that they encode.
#[verifier::external_body]
fn str_from_utf8(bytes: &[u8]) -> (res: Option<&str>)
    ensures
        res is Some <==> valid_utf8(bytes@),
        res matches Some(s) ==> s@ == decode_utf8(bytes@),
{
    match std::str::from_utf8(bytes) {
        Ok(s) => Some(s),
        Err(_) => None,
    }
}

/// `String::try_from(&Component)` of hdk: the component's bytes read as
/// UTF-32 little-endian. It fails when the length is not a multiple of 4 or
/// a word is not a Unicode scalar value; it then returns a `Deserialize`
/// error, whose message this hands back: the length, or the first word
/// that is not a scalar value.
#[verifier::external_body]
fn component_to_string(comp: &Component) -> (res: Result<String, String>)
    ensures
        res is Ok <==> valid_utf32(comp@),
        res matches Ok(s) ==> s@ == decode_utf32(comp@),
        res matches Err(m) ==> m@ == utf32_error(comp@),
{
    let outside = hdk::prelude::Component::from(comp.0.clone());
    match String::try_from(&outside) {
        Ok(s) => Ok(s),
        Err(e) => Err(String::from(e)),
    }
}

/// `Component::from(&str)` of hdk: the UTF-32 little-endian bytes of the text.
#[verifier::external_body]
fn component_from_str(s: &str) -> (comp: Component)
    ensures
        comp@ == encode_utf32(s@),
{
    let outside = hdk::prelude::Component::from(s);
    Component(outside.as_ref().to_vec())
}

/// The character of a 6-bit value in the URL-safe base64 alphabet:
/// `A`-`Z`, `a`-`z`, `0`-`9`, `-`, `_`.
pub open spec fn base64url_digit(v: int) -> char {
    if v < 26 {
        (0x41 + v) as char
    } else if v < 52 {
        (0x61 + (v - 26)) as char
    } else if v < 62 {
        (0x30 + (v - 52)) as char
    } else if v == 62 {
        '-'
    } else {
        '_'
    }
}

/// URL-safe base64 without padding: every 3 bytes become 4 characters of 6
/// bits each; a last single byte becomes 2 characters, a last pair 3.
pub open spec fn base64url(data: Seq<u8>) -> Seq<char>
    decreases data.len(),
{
    let b0 = data[0] as int;
    let b1 = data[1] as int;
    let b2 = data[2] as int;
    if data.len() == 0 {
        seq![]
    } else if data.len() == 1 {
        seq![base64url_digit(b0 / 4), base64url_digit((b0 % 4) * 16)]
    } else if data.len() == 2 {
        seq![
            base64url_digit(b0 / 4),
            base64url_digit((b0 % 4) * 16 + b1 / 16),
            base64url_digit((b1 % 16) * 4),
        ]
    } else {
        seq![
            base64url_digit(b0 / 4),
            base64url_digit((b0 % 4) * 16 + b1 / 16),
            base64url_digit((b1 % 16) * 4 + b2 / 64),
            base64url_digit(b2 % 64),
        ] + base64url(data.skip(3))
    }
}

/// The text of a hash's bytes: `u` followed by their URL-safe unpadded
/// base64 encoding.
pub open spec fn holo_hash_encoding(data: Seq<u8>) -> Seq<char> {
    seq!['u'] + base64url(data)
}

/// Each base64 digit is an ASCII character of the URL-safe alphabet.
proof fn lemma_base64url_digit(v: int)
    requires
        0 <= v < 64,
    ensures
        is_base64url_char(base64url_digit(v)),
        '\0' <= base64url_digit(v) <= '\u{7f}',
{
}

/// The URL-safe base64 text of `n` bytes has `(4n + 2) / 3` characters, all
/// of the URL-safe alphabet.
proof fn lemma_base64url_form(data: Seq<u8>)
    ensures
        base64url(data).len() == (4 * data.len() + 2) / 3,
        forall|i: int| 0 <= i < base64url(data).len() ==> is_base64url_char(#[trigger] base64url(data)[i]),
        is_ascii_chars(base64url(data)),
    decreases data.len(),
{
    let t = base64url(data);
    let b0 = data[0] as int;
    let b1 = data[1] as int;
    let b2 = data[2] as int;
    if data.len() == 0 {
    } else if data.len() <= 2 {
        assert forall|i: int| 0 <= i < t.len() implies is_base64url_char(#[trigger] t[i]) && '\0' <= t[i] <= '\u{7f}' by {
            lemma_base64url_digit(b0 / 4);
            lemma_base64url_digit((b0 % 4) * 16);
            if data.len() == 2 {
                lemma_base64url_digit((b0 % 4) * 16 + b1 / 16);
                lemma_base64url_digit((b1 % 16) * 4);
            }
        }
    } else {
        let rest = base64url(data.skip(3));
        lemma_base64url_form(data.skip(3));
        let head = seq![
            base64url_digit(b0 / 4),
            base64url_digit((b0 % 4) * 16 + b1 / 16),
            base64url_digit((b1 % 16) * 4 + b2 / 64),
            base64url_digit(b2 % 64),
        ];
        assert(t == head + rest);
        assert forall|i: int| 0 <= i < t.len() implies is_base64url_char(#[trigger] t[i]) && '\0' <= t[i] <= '\u{7f}' by {
            if i < 4 {
                lemma_base64url_digit(b0 / 4);
                lemma_base64url_digit((b0 % 4) * 16 + b1 / 16);
                lemma_base64url_digit((b1 % 16) * 4 + b2 / 64);
                lemma_base64url_digit(b2 % 64);
            } else {
                assert(t[i] == rest[i - 4]);
            }
        }
    }
}

/// The text of a hash starts with `u`, has `1 + (4n + 2) / 3` characters for
/// `n` bytes, and is ASCII, with URL-safe base64 characters after the `u`.
pub proof fn lemma_hash_text_form(data: Seq<u8>)
    ensures
        holo_hash_encoding(data).len() == 1 + (4 * data.len() + 2) / 3,
        holo_hash_encoding(data)[0] == 'u',
        is_ascii_chars(holo_hash_encoding(data)),
        forall|i: int| 1 <= i < holo_hash_encoding(data).len() ==> is_base64url_char(#[trigger] holo_hash_encoding(data)[i]),
{
    let b = base64url(data);
    let t = holo_hash_encoding(data);
    lemma_base64url_form(data);
    assert forall|i: int| 1 <= i < t.len() implies is_base64url_char(#[trigger] t[i]) by {
        assert(t[i] == b[i - 1]);
    }
    assert forall|i: int| 0 <= i < t.len() implies '\0' <= #[trigger] t[i] <= '\u{7f}' by {
        if i > 0 {
            assert(t[i] == b[i - 1]);
        }
    }
}

/// The text of 39 bytes has the shape that the hash decoder checks first
/// (53 bytes, `u`, base64), so that only the checksum can refuse it; and
/// any hash's text can be handed to the decoder.
pub proof fn lemma_hash_text_shaped(data: Seq<u8>)
    ensures
        hash_text_decodable(holo_hash_encoding(data)),
        data.len() == 39 ==> hash_text_shaped(holo_hash_encoding(data)),
{
    let t = holo_hash_encoding(data);
    lemma_hash_text_form(data);
    is_ascii_chars_encode_utf8(t);
    assert('\0' <= t[0] <= '\u{7f}');
}

/// The bytes that `holo_hash_decode_unchecked` gives back for a text, or
/// `None` where it fails.
pub uninterp spec fn holo_hash_decoding(text: Seq<char>) -> Option<Seq<u8>>;

/// `holo_hash_encode` of holo_hash: `u` and the URL-safe unpadded base64
/// encoding of the bytes (base64's `URL_SAFE_NO_PAD` engine). Stated: the
/// result is that text; decoding it, where that succeeds, gives the bytes
/// back.
#[verifier::external_body]
pub(crate) fn holo_hash_encode(data: &[u8]) -> (res: String)
    ensures
        res@ == holo_hash_encoding(data@),
        holo_hash_decoding(res@) matches Some(d) ==> d == data@,
{
    hdk::prelude::holo_hash::holo_hash_encode(data)
}

/// `holo_hash_decode_unchecked` of holo_hash: checks that the text has 53
/// bytes, starts with `u`, is URL-safe base64 of 39 bytes and that the 4
/// location bytes match the core; it does not check the type prefix.
/// Stated: it succeeds exactly when the name says so, with those bytes, which
/// are 39 and whose encoding is the text; it fails for a wrong size, a
/// missing `u` or a character outside base64, and the error's text says
/// which check failed. Which text passes the checksum is left to the name.
/// The call slices off the first byte of a 53-byte text, which panics where
/// the first character is not ASCII; `requires` leaves that input out.
#[verifier::external_body]
pub(crate) fn holo_hash_decode_unchecked(s: &str) -> (res: Result<Vec<u8>, String>)
    requires
        hash_text_decodable(s@),
    ensures
        res is Ok <==> holo_hash_decoding(s@) is Some,
        res matches Ok(d) ==> holo_hash_decoding(s@) == Some(d@),
        res matches Ok(d) ==> d@.len() == 39 && holo_hash_encoding(d@) == s@,
        res matches Err(m) ==> m@ == hash_decode_error(s@),
        res is Ok ==> hash_text_shaped(s@),
{
    match hdk::prelude::holo_hash::holo_hash_decode_unchecked(s) {
        Ok(d) => Ok(d),
        Err(e) => Err(e.to_string()),
    }
}

// ---------------------------------------------------------------------------
// What the conversions compute, over plain values
// ---------------------------------------------------------------------------

/// The hash that a component holds: its UTF-32 text, decoded as a hash.
pub open spec fn component_hash(comp: Seq<u8>) -> Option<Seq<u8>> {
    if valid_utf32(comp) {
        holo_hash_decoding(decode_utf32(comp))
    } else {
        None
    }
}

/// The component that holds a hash: the UTF-32 bytes of its text.
pub open spec fn hash_component(hash: Seq<u8>) -> Seq<u8> {
    encode_utf32(holo_hash_encoding(hash))
}

/// The text of a component: its bytes read as UTF-32, where they are
/// UTF-32 text.
pub open spec fn component_text(comp: Seq<u8>) -> Option<Seq<char>> {
    if valid_utf32(comp) {
        Some(decode_utf32(comp))
    } else {
        None
    }
}

/// The anchor text of a path: the texts of its components separated by the
/// delimiter `.`, or `None` where a component is not UTF-32 text.
pub open spec fn anchor_of(comps: Seq<Seq<u8>>) -> Option<Seq<char>>
    decreases comps.len(),
{
    if comps.len() == 0 {
        Some(seq![])
    } else {
        match anchor_of(comps.drop_last()) {
            Some(prefix) => match component_text(comps.last()) {
                Some(text) => if comps.len() == 1 {
                    Some(text)
                } else {
                    Some(prefix + seq!['.'] + text)
                },
                None => None,
            },
            None => None,
        }
    }
}

/// The message with which a path without anchor is refused: that of its
/// first component that is not UTF-32 text.
pub open spec fn anchor_error(comps: Seq<Seq<u8>>) -> Seq<char>
    decreases comps.len(),
{
    if comps.len() == 0 {
        seq![]
    } else if !valid_utf32(comps[0]) {
        utf32_error(comps[0])
    } else {
        anchor_error(comps.drop_first())
    }
}

/// The texts joined into one anchor, separated by the delimiter `.`.
pub open spec fn join_anchor(texts: Seq<Seq<char>>) -> Seq<char>
    decreases texts.len(),
{
    if texts.len() == 0 {
        seq![]
    } else if texts.len() == 1 {
        texts[0]
    } else {
        join_anchor(texts.drop_last()) + seq!['.'] + texts.last()
    }
}

/// The pieces of a text between its delimiters `.`, empty ones included:
/// a text with `n` delimiters has `n + 1` pieces.
pub open spec fn split_anchor(text: Seq<char>) -> Seq<Seq<char>>
    decreases text.len(),
{
    if text.len() == 0 {
        seq![seq![]]
    } else {
        let rest = split_anchor(text.drop_first());
        if text[0] == '.' {
            seq![seq![]] + rest
        } else {
            rest.update(0, seq![text[0]] + rest[0])
        }
    }
}

/// True when a text holds no delimiter `.`.
pub open spec fn no_delimiter(text: Seq<char>) -> bool {
    forall|i: int| 0 <= i < text.len() ==> text[i] != '.'
}

/// The text of a component stored in a link tag: the tag minus its 2-byte
/// header, read as UTF-32.
pub open spec fn tag_component(tag: Seq<u8>) -> Seq<u8> {
    tag.subrange(2, tag.len() as int)
}

/// The text that `compTag2str` reads from a tag: `None` for a tag of 2 bytes
/// or fewer, else the text of the tag's component.
pub open spec fn comp_tag_text(tag: Seq<u8>) -> Option<Seq<char>> {
    if tag.len() <= 2 {
        None
    } else {
        component_text(tag_component(tag))
    }
}

// ---------------------------------------------------------------------------
// Tags, components, anchors
// ---------------------------------------------------------------------------

/// Convert a string to a link tag holding its UTF-8 bytes.
pub fn str2tag(tag_str: &str) -> (tag: LinkTag)
    ensures
        tag@ == encode_utf8(tag_str@),
{
    LinkTag(slice_to_vec(tag_str.as_bytes()))
}

/// Convert a link tag holding UTF-8 text back to that text.
pub fn tag2str(tag: &LinkTag) -> (res: Result<String, ZomeUtilsError>)
    ensures
        res is Ok <==> valid_utf8(tag@),
        res matches Ok(s) ==> s@ == decode_utf8(tag@),
        res matches Err(e) ==> e is TagNotUtf8,
{
    match str_from_utf8(tag.0.as_slice()) {
        Some(s) => Ok(String::from_str(s)),
        None => Err(ZomeUtilsError::TagNotUtf8),
    }
}

/// Read the hash that a component holds: the component's UTF-32 text must
/// be the encoding of a hash (`u`, base64 of 39 bytes with matching
/// location bytes). The hash's type prefix is not checked here.
pub fn comp2hash(comp: &Component) -> (res: Result<HoloHash, ZomeUtilsError>)
    requires
        valid_utf32(comp@) ==> hash_text_decodable(decode_utf32(comp@)),
    ensures
        res is Ok <==> component_hash(comp@) is Some,
        res matches Ok(h) ==> Some(h@) == component_hash(comp@),
        res matches Ok(h) ==> h@.len() == 39 && hash_component(h@) == comp@,
        !valid_utf32(comp@) ==> (res matches Err(ZomeUtilsError::ComponentText(m)) && m@ == utf32_error(comp@)),
        valid_utf32(comp@) && res is Err ==> (res matches Err(ZomeUtilsError::Deserialize(m))
            && m@ == hash_decode_error(decode_utf32(comp@))),
{
    let text = match component_to_string(comp) {
        Ok(t) => t,
        Err(m) => return Err(ZomeUtilsError::ComponentText(m)),
    };
    match holo_hash_decode_unchecked(text.as_str()) {
        Ok(raw) => {
            proof {
                lemma_utf32_decode_roundtrip(comp@);
            }
            Ok(HoloHash(raw))
        },
        Err(m) => Err(ZomeUtilsError::Deserialize(m)),
    }
}

/// The component that holds a hash: the UTF-32 bytes of the hash's text.
/// Reading it back with `comp2hash` gives the hash, wherever the hash's text
/// decodes at all.
pub fn hash2comp(hash: &HoloHash) -> (comp: Component)
    ensures
        comp@ == hash_component(hash@),
        valid_utf32(comp@) && hash_text_decodable(decode_utf32(comp@)),
        holo_hash_decoding(holo_hash_encoding(hash@)) is Some ==> component_hash(comp@) == Some(hash@),
{
    let text = holo_hash_encode(hash.0.as_slice());
    let comp = component_from_str(text.as_str());
    proof {
        lemma_utf32_roundtrip(text@);
        lemma_hash_text_shaped(hash@);
    }
    comp
}

/// Convert a path to its anchor text: the components' texts separated by
/// the delimiter `.`.
pub fn path2anchor(path: &Path) -> (res: Result<String, ZomeUtilsError>)
    ensures
        res is Ok <==> anchor_of(path@) is Some,
        res matches Ok(s) ==> Some(s@) == anchor_of(path@),
        res matches Err(e) ==> (e matches ZomeUtilsError::ComponentText(m) && m@ == anchor_error(path@)),
{
    let mut res = String::new();
    let comps = &path.0;
    let mut i: usize = 0;
    while i < comps.len()
        invariant
            0 <= i <= comps.len(),
            comps@.len() == path@.len(),
            path@ == comps@.map_values(|c: Component| c@),
            anchor_of(path@.take(i as int)) == Some(res@),
            forall|j: int| 0 <= j < i ==> valid_utf32(#[trigger] path@[j]),
        decreases comps.len() - i,
    {
        assert(path@.take(i + 1).drop_last() =~= path@.take(i as int));
        match component_to_string(&comps[i]) {
            Ok(text) => {
                if i > 0 {
                    res.append(".");
                    proof {
                        reveal_strlit(".");
                    }
                }
                res.append(text.as_str());
            },
            Err(m) => {
                proof {
                    lemma_anchor_prefix_fails(path@, i as int + 1);
                    lemma_anchor_error_at(path@, i as int);
                }
                return Err(ZomeUtilsError::ComponentText(m));
            },
        }
        i = i + 1;
    }
    assert(path@.take(i as int) =~= path@);
    Ok(res)
}

/// The message for a path is that of the first component that is not
/// UTF-32 text.
proof fn lemma_anchor_error_at(comps: Seq<Seq<u8>>, i: int)
    requires
        0 <= i < comps.len(),
        forall|j: int| 0 <= j < i ==> valid_utf32(#[trigger] comps[j]),
        !valid_utf32(comps[i]),
    ensures
        anchor_error(comps) == utf32_error(comps[i]),
    decreases i,
{
    if i > 0 {
        let rest = comps.drop_first();
        assert(valid_utf32(comps[0]));
        assert forall|j: int| 0 <= j < i - 1 implies valid_utf32(#[trigger] rest[j]) by {
            assert(rest[j] == comps[j + 1]);
        }
        assert(rest[i - 1] == comps[i]);
        lemma_anchor_error_at(rest, i - 1);
    }
}

/// Where a prefix of a path has no anchor, the whole path has none.
proof fn lemma_anchor_prefix_fails(comps: Seq<Seq<u8>>, n: int)
    requires
        0 <= n <= comps.len(),
        anchor_of(comps.take(n)) is None,
    ensures
        anchor_of(comps) is None,
    decreases comps.len() - n,
{
    if n < comps.len() {
        assert(comps.take(n + 1).drop_last() =~= comps.take(n));
        lemma_anchor_prefix_fails(comps, n + 1);
    } else {
        assert(comps.take(n) =~= comps);
    }
}

/// Read the text of a component stored in a link tag, after the tag's 2-byte
/// header. A tag of 2 bytes or fewer is refused as not a component.
#[allow(non_snake_case)]
pub fn compTag2str(tag: &LinkTag) -> (res: Result<String, ZomeUtilsError>)
    ensures
        res is Ok <==> comp_tag_text(tag@) is Some,
        res matches Ok(s) ==> Some(s@) == comp_tag_text(tag@),
        tag@.len() <= 2 ==> (res matches Err(ZomeUtilsError::Deserialize(m)) && m@ == "LinkTag not a Component"@),
        tag@.len() > 2 && res is Err ==> (res matches Err(ZomeUtilsError::ComponentText(m))
            && m@ == utf32_error(tag_component(tag@))),
{
    if tag.0.len() <= 2 {
        return Err(ZomeUtilsError::Deserialize(String::from_str("LinkTag not a Component")));
    }
    let comp = compTag2tag(tag);
    match component_to_string(&comp) {
        Ok(s) => Ok(s),
        Err(m) => Err(ZomeUtilsError::ComponentText(m)),
    }
}

/// The component stored in a link tag: the tag minus its 2-byte header.
#[allow(non_snake_case)]
pub fn compTag2tag(tag: &LinkTag) -> (comp: Component)
    requires
        tag@.len() >= 2,
    ensures
        comp@ == tag_component(tag@),
{
    let mut bytes = tag.0.clone();
    let rest = bytes.split_off(2);
    Component(rest)
}

// ---------------------------------------------------------------------------
// Laws
// ---------------------------------------------------------------------------

/// A string stored in a link tag reads back as the same string: the tag of
/// any text is valid UTF-8, and decoding it gives the text.
pub proof fn lemma_str_tag_roundtrip(text: Seq<char>)
    ensures
        valid_utf8(encode_utf8(text)),
        decode_utf8(encode_utf8(text)) == text,
{
    encode_utf8_valid_utf8(text);
    encode_utf8_decode_utf8(text);
}

/// A link tag that reads as a string is exactly the tag of that string.
pub proof fn lemma_tag_str_roundtrip(tag: Seq<u8>)
    requires
        valid_utf8(tag),
    ensures
        encode_utf8(decode_utf8(tag)) == tag,
{
    decode_utf8_encode_utf8(tag);
}

/// A path has an anchor exactly when each of its components is UTF-32 text.
pub proof fn lemma_anchor_exists(comps: Seq<Seq<u8>>)
    ensures
        anchor_of(comps) is Some <==> forall|i: int| 0 <= i < comps.len() ==> valid_utf32(#[trigger] comps[i]),
    decreases comps.len(),
{
    if comps.len() > 0 {
        let init = comps.drop_last();
        lemma_anchor_exists(init);
        if forall|i: int| 0 <= i < comps.len() ==> valid_utf32(#[trigger] comps[i]) {
            assert forall|i: int| 0 <= i < init.len() implies valid_utf32(#[trigger] init[i]) by {
                assert(init[i] == comps[i]);
            }
            assert(valid_utf32(comps[comps.len() - 1]));
            assert(anchor_of(comps) is Some);
        } else {
            let k = choose|k: int| 0 <= k < comps.len() && !valid_utf32(#[trigger] comps[k]);
            if k == comps.len() - 1 {
                assert(component_text(comps.last()) is None);
            } else {
                assert(init[k] == comps[k]);
                assert(!valid_utf32(init[k]));
                assert(anchor_of(init) is None);
            }
            assert(anchor_of(comps) is None);
        }
    }
}

/// The anchor of a path built from texts is those texts joined, separated
/// by the delimiter `.`.
pub proof fn lemma_anchor_of_texts(texts: Seq<Seq<char>>)
    ensures
        anchor_of(texts.map_values(|t: Seq<char>| encode_utf32(t))) == Some(join_anchor(texts)),
    decreases texts.len(),
{
    let comps = texts.map_values(|t: Seq<char>| encode_utf32(t));
    if texts.len() > 0 {
        lemma_anchor_of_texts(texts.drop_last());
        assert(comps.drop_last() =~= texts.drop_last().map_values(|t: Seq<char>| encode_utf32(t)));
        lemma_utf32_roundtrip(texts.last());
        if texts.len() == 1 {
            assert(texts.last() == texts[0]);
        }
    }
}

/// Appending a component to a non-empty path appends the delimiter and that
/// component's text to its anchor.
pub proof fn lemma_anchor_push(comps: Seq<Seq<u8>>, comp: Seq<u8>)
    requires
        comps.len() > 0,
        anchor_of(comps) is Some,
        valid_utf32(comp),
    ensures
        anchor_of(comps.push(comp)) == Some(anchor_of(comps).unwrap() + seq!['.'] + decode_utf32(comp)),
{
    assert(comps.push(comp).drop_last() =~= comps);
}

/// Every split of a text has at least one piece.
proof fn lemma_split_nonempty(text: Seq<char>)
    ensures
        split_anchor(text).len() >= 1,
    decreases text.len(),
{
    if text.len() > 0 {
        lemma_split_nonempty(text.drop_first());
    }
}

/// A text without delimiters is a single piece.
proof fn lemma_split_plain(text: Seq<char>)
    requires
        no_delimiter(text),
    ensures
        split_anchor(text) == seq![text],
    decreases text.len(),
{
    if text.len() == 0 {
        assert(text =~= Seq::<char>::empty());
        assert(split_anchor(text) =~= seq![text]);
    } else {
        let rest = text.drop_first();
        assert(no_delimiter(rest)) by {
            assert forall|i: int| 0 <= i < rest.len() implies rest[i] != '.' by {
                assert(rest[i] == text[i + 1]);
            }
        }
        lemma_split_plain(rest);
        assert(seq![text[0]] + rest =~= text);
        assert(split_anchor(text) =~= seq![text]);
    }
}

/// Splitting two texts joined by a delimiter gives the pieces of the first
/// followed by those of the second.
proof fn lemma_split_join(a: Seq<char>, b: Seq<char>)
    ensures
        split_anchor(a + seq!['.'] + b) == split_anchor(a) + split_anchor(b),
    decreases a.len(),
{
    let whole = a + seq!['.'] + b;
    if a.len() == 0 {
        assert(whole.drop_first() =~= b);
        assert(split_anchor(whole) =~= split_anchor(a) + split_anchor(b));
    } else {
        let tail = a.drop_first();
        assert(whole.drop_first() =~= tail + seq!['.'] + b);
        lemma_split_join(tail, b);
        lemma_split_nonempty(tail);
        if a[0] == '.' {
            assert(split_anchor(whole) =~= split_anchor(a) + split_anchor(b));
        } else {
            let rest = split_anchor(tail);
            assert(split_anchor(whole) =~= (rest + split_anchor(b)).update(0, seq![a[0]] + rest[0]));
            assert((rest + split_anchor(b)).update(0, seq![a[0]] + rest[0]) =~= rest.update(0, seq![a[0]] + rest[0]) + split_anchor(b));
        }
    }
}

/// An anchor reads back as the texts it was built from: splitting the anchor
/// of one or more texts without delimiters at its delimiters gives the texts.
pub proof fn lemma_anchor_split(texts: Seq<Seq<char>>)
    requires
        texts.len() >= 1,
        forall|i: int| 0 <= i < texts.len() ==> no_delimiter(#[trigger] texts[i]),
    ensures
        split_anchor(join_anchor(texts)) == texts,
    decreases texts.len(),
{
    if texts.len() == 1 {
        lemma_split_plain(texts[0]);
        assert(seq![texts[0]] =~= texts);
    } else {
        let init = texts.drop_last();
        assert forall|i: int| 0 <= i < init.len() implies no_delimiter(#[trigger] init[i]) by {
            assert(init[i] == texts[i]);
        }
        lemma_anchor_split(init);
        lemma_split_join(join_anchor(init), texts.last());
        lemma_split_plain(texts.last());
        assert(init + seq![texts.last()] =~= texts);
    }
}

/// Reading the text of a tag's component is reading the text of the
/// component that `compTag2tag` takes from the tag.
pub proof fn lemma_comp_tag_text(tag: Seq<u8>)
    requires
        tag.len() > 2,
    ensures
        comp_tag_text(tag) == component_text(tag_component(tag)),
{
}

} // verus!
