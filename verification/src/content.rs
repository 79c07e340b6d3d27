//! What `write` stores: the content as it is given, or what a data URL carries.

use vstd::prelude::*;
use crate::text::{
    chars_of, copy_of, decode_text, first_where, lemma_first_where_is, only, text_of,
    text_of_bytes,
};

verus! {

/// A data URL taken apart: whether its head ends in `;base64`, and what follows the
/// comma.
pub struct DataUrl {
    pub base64: bool,
    pub payload: Seq<char>,
}

/// The head that every data URL starts with.
pub open spec fn scheme() -> Seq<char> {
    seq!['d', 'a', 't', 'a', ':']
}

/// The end of the head of a data URL whose payload is base64.
pub open spec fn marker() -> Seq<char> {
    seq![';', 'b', 'a', 's', 'e', '6', '4']
}

/// A content read as a data URL: `data:`, then a head that runs up to the first
/// comma and holds no line feed, then the payload. The head may name a media type
/// and a character set, which are not looked at. A content of any other shape is no
/// data URL.
pub open spec fn data_url(content: Seq<char>) -> Option<DataUrl> {
    let comma = first_where(content, only(','));
    let line_feed = first_where(content, only('\n'));
    if content.len() >= 5 && content.take(5) == scheme() && comma < content.len() && comma
        < line_feed {
        Some(
            DataUrl {
                base64: comma >= 12 && content.subrange(comma - 7, comma) == marker(),
                payload: content.skip(comma + 1),
            },
        )
    } else {
        None
    }
}

/// The error of `base64::Engine::decode`, which is handed on and never looked into.
#[verifier::external_type_specification]
#[verifier::external_body]
pub struct ExDecodeError(base64::DecodeError);

/// The bytes that the standard base64 alphabet, with padding, decodes a text to;
/// nothing where the text is no such encoding.
pub uninterp spec fn base64_decoded(text: Seq<char>) -> Option<Seq<u8>>;

/// `base64::Engine::decode` of the engine `base64::prelude::BASE64_STANDARD`. Nothing
/// is claimed of the result but that it depends on the text alone.
#[verifier::external_body]
fn base64_decode(text: &str) -> (decoded: Result<Vec<u8>, base64::DecodeError>)
    ensures
        decoded is Ok <==> base64_decoded(text@) is Some,
        decoded matches Ok(bytes) ==> base64_decoded(text@) == Some(bytes@),
{
    base64::Engine::decode(&base64::prelude::BASE64_STANDARD, text)
}

/// The text that decoded bytes stand for, if the decoding succeeded and gave
/// well-formed UTF-8.
pub open spec fn payload_text(decoded: Option<Seq<u8>>) -> Option<Seq<char>> {
    match decoded {
        Some(bytes) => text_of_bytes(bytes),
        None => None,
    }
}

/// What is stored for a content: the payload of a data URL, decoded where the URL
/// says that it is base64, and any other content as it is. Nothing can be stored
/// for a payload that does not decode to text.
pub open spec fn stored(content: Seq<char>) -> Option<Seq<char>> {
    match data_url(content) {
        None => Some(content),
        Some(url) => if url.base64 {
            payload_text(base64_decoded(url.payload))
        } else {
            Some(url.payload)
        },
    }
}

/// Turns the bytes of a decoded payload into text.
pub fn text_of_payload(decoded: Option<Vec<u8>>) -> (text: Option<String>)
    ensures
        match text {
            Some(text) => decoded matches Some(bytes) && text_of_bytes(bytes@) == Some(text@),
            None => decoded matches Some(bytes) ==> text_of_bytes(bytes@) is None,
        },
{
    match decoded {
        Some(bytes) => decode_text(bytes),
        None => None,
    }
}

/// Decodes a base64 payload to text.
pub fn decode_payload(payload: &str) -> (text: Option<String>)
    ensures
        match text {
            Some(text) => payload_text(base64_decoded(payload@)) == Some(text@),
            None => payload_text(base64_decoded(payload@)) is None,
        },
{
    let decoded = match base64_decode(payload) {
        Ok(bytes) => Some(bytes),
        Err(_) => None,
    };
    text_of_payload(decoded)
}

/// Whether `chars[from..]` starts with `wanted`.
fn starts_with(chars: &Vec<char>, from: usize, wanted: &[char]) -> (found: bool)
    requires
        from <= chars.len(),
    ensures
        found == (from + wanted@.len() <= chars.len() && chars@.subrange(
            from as int,
            from + wanted@.len(),
        ) == wanted@),
{
    if chars.len() - from < wanted.len() {
        return false;
    }
    let mut at: usize = 0;
    while at < wanted.len()
        invariant
            at <= wanted@.len(),
            from + wanted@.len() <= chars.len(),
            chars@.subrange(from as int, from + at) == wanted@.take(at as int),
        decreases wanted.len() - at,
    {
        if chars[from + at] != wanted[at] {
            assert(chars@.subrange(from as int, from + wanted@.len())[at as int]
                != wanted@[at as int]);
            return false;
        }
        assert(chars@.subrange(from as int, from + at + 1) == chars@.subrange(
            from as int,
            from + at,
        ).push(chars@[from + at]));
        assert(wanted@.take(at + 1) == wanted@.take(at as int).push(wanted@[at as int]));
        at += 1;
    }
    assert(wanted@.take(at as int) == wanted@);
    true
}

/// The content that `write` stores for the content that it is given.
pub fn content_to_store(content: &str) -> (text: Option<String>)
    ensures
        match text {
            Some(text) => stored(content@) == Some(text@),
            None => stored(content@) is None,
        },
{
    let chars = chars_of(content);
    let scheme_chars: [char; 5] = ['d', 'a', 't', 'a', ':'];
    let marker_chars: [char; 7] = [';', 'b', 'a', 's', 'e', '6', '4'];
    assert(scheme_chars@ == scheme());
    assert(marker_chars@ == marker());
    let mut comma: usize = 0;
    let mut clear: bool = true;
    while comma < chars.len() && chars[comma] != ','
        invariant
            comma <= chars.len(),
            forall|i: int| 0 <= i < comma ==> !only(',')(#[trigger] chars@[i]),
            clear <==> forall|i: int| 0 <= i < comma ==> !only('\n')(#[trigger] chars@[i]),
        decreases chars.len() - comma,
    {
        if chars[comma] == '\n' {
            clear = false;
        }
        comma += 1;
    }
    proof {
        lemma_first_where_is(chars@, only(','), comma as int);
        crate::text::lemma_first_where(chars@, only('\n'));
        let line_feed = first_where(chars@, only('\n'));
        if clear {
            if line_feed < comma {
                assert(only('\n')(chars@[line_feed]));
            }
            if comma < chars.len() {
                assert(!only('\n')(chars@[comma as int]));
            }
        } else {
            let i = choose|i: int| 0 <= i < comma && only('\n')(#[trigger] chars@[i]);
            if line_feed > i {
                assert(!only('\n')(chars@[i]));
            }
        }
        assert(chars@.take(5) == chars@.subrange(0, 5));
    }
    if !starts_with(&chars, 0, scheme_chars.as_slice()) || comma >= chars.len() || !clear {
        return Some(copy_of(content));
    }
    let payload = text_of(&chars, comma + 1, chars.len());
    assert(chars@.subrange(comma + 1, chars.len() as int) == content@.skip(comma + 1));
    if comma >= 12 && starts_with(&chars, comma - 7, marker_chars.as_slice()) {
        decode_payload(payload.as_str())
    } else {
        Some(payload)
    }
}

} // verus!
