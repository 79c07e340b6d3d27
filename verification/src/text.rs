//! Text as sequences of characters: the few operations on `String` and `&str`
//! that the rest of the library is built from.

use vstd::prelude::*;
use vstd::utf8::{decode_utf8, encode_utf8, encode_utf8_decode_utf8, valid_utf8};

verus! {

/// What `str::to_lowercase` makes of a text: its lowercase form by the Unicode tables.
pub uninterp spec fn lowercase_of(text: Seq<char>) -> Seq<char>;

/// Whether `char::is_alphanumeric` holds of a character: a letter or a number by the
/// Unicode tables.
pub uninterp spec fn alphanumeric(c: char) -> bool;

/// Whether a character is white space: one of the characters that Unicode gives the
/// property `White_Space`.
pub open spec fn whitespace(c: char) -> bool {
    ||| '\u{9}' <= c <= '\u{d}'
    ||| c == ' '
    ||| c == '\u{85}'
    ||| c == '\u{a0}'
    ||| c == '\u{1680}'
    ||| '\u{2000}' <= c <= '\u{200a}'
    ||| c == '\u{2028}'
    ||| c == '\u{2029}'
    ||| c == '\u{202f}'
    ||| c == '\u{205f}'
    ||| c == '\u{3000}'
}

/// The error of `String::from_utf8`, which is handed on and never looked into.
#[verifier::external_type_specification]
#[verifier::external_body]
pub struct ExFromUtf8Error(std::string::FromUtf8Error);

/// `String::push`: the character is appended at the end, the rest stays.
#[verifier::external_body]
pub(crate) fn push_char(text: &mut String, c: char)
    ensures
        final(text)@ == old(text)@.push(c),
{
    text.push(c)
}

/// `str::to_lowercase`. Nothing is claimed of the result but that it depends on the
/// text alone.
#[verifier::external_body]
pub(crate) fn to_lowercase(text: &str) -> (lowered: String)
    ensures
        lowered@ == lowercase_of(text@),
{
    text.to_lowercase()
}

/// `char::is_alphanumeric`. Nothing is claimed of the answer but that it depends on the
/// character alone.
#[verifier::external_body]
pub(crate) fn is_alphanumeric(c: char) -> (answer: bool)
    ensures
        answer == alphanumeric(c),
{
    c.is_alphanumeric()
}

/// `char::is_whitespace`: whether the character has the property `White_Space` of
/// Unicode, which the characters that `whitespace` lists have, and no others.
#[verifier::external_body]
pub(crate) fn is_whitespace(c: char) -> (answer: bool)
    ensures
        answer == whitespace(c),
{
    c.is_whitespace()
}

/// `String::from_utf8`: succeeds exactly on well-formed UTF-8, and the string then
/// holds the very bytes it was given.
#[verifier::external_body]
pub(crate) fn from_utf8(bytes: Vec<u8>) -> (decoded: Result<String, std::string::FromUtf8Error>)
    ensures
        decoded is Ok <==> valid_utf8(bytes@),
        decoded matches Ok(text) ==> encode_utf8(text@) == bytes@,
{
    String::from_utf8(bytes)
}

/// The text that a sequence of bytes encodes, if it is well-formed UTF-8.
pub open spec fn text_of_bytes(bytes: Seq<u8>) -> Option<Seq<char>> {
    if valid_utf8(bytes) {
        Some(decode_utf8(bytes))
    } else {
        None
    }
}

/// Decodes UTF-8.
pub fn decode_text(bytes: Vec<u8>) -> (decoded: Option<String>)
    ensures
        decoded is Some <==> text_of_bytes(bytes@) is Some,
        decoded matches Some(text) ==> text_of_bytes(bytes@) == Some(text@),
{
    match from_utf8(bytes) {
        Ok(text) => {
            proof {
                encode_utf8_decode_utf8(text@);
            }
            Some(text)
        },
        Err(_) => None,
    }
}

/// The characters of a text, one by one.
pub fn chars_of(text: &str) -> (chars: Vec<char>)
    ensures
        chars@ == text@,
{
    let mut chars: Vec<char> = Vec::new();
    let source = text.chars();
    for c in walk: source
        invariant
            chars@ == text@.take(walk.index()),
            walk.seq() == text@,
    {
        chars.push(c);
    }
    chars
}

/// The text made of the characters `chars[from..to]`.
pub fn text_of(chars: &Vec<char>, from: usize, to: usize) -> (text: String)
    requires
        from <= to <= chars.len(),
    ensures
        text@ == chars@.subrange(from as int, to as int),
{
    let mut text = String::new();
    let mut at: usize = from;
    while at < to
        invariant
            from <= at <= to <= chars.len(),
            text@ == chars@.subrange(from as int, at as int),
        decreases to - at,
    {
        push_char(&mut text, chars[at]);
        at += 1;
    }
    text
}

/// Whether two texts are the same, character by character.
pub fn same_text(left: &str, right: &str) -> (same: bool)
    ensures
        same == (left@ == right@),
{
    let a = left.as_bytes();
    let b = right.as_bytes();
    proof {
        encode_utf8_decode_utf8(left@);
        encode_utf8_decode_utf8(right@);
    }
    if a.len() != b.len() {
        return false;
    }
    let mut at: usize = 0;
    while at < a.len()
        invariant
            a.len() == b.len(),
            at <= a.len(),
            a@ == encode_utf8(left@),
            b@ == encode_utf8(right@),
            a@.take(at as int) == b@.take(at as int),
        decreases a.len() - at,
    {
        if a[at] != b[at] {
            assert(a@[at as int] != b@[at as int]);
            return false;
        }
        assert(a@.take(at + 1) == a@.take(at as int).push(a@[at as int]));
        assert(b@.take(at + 1) == b@.take(at as int).push(b@[at as int]));
        at += 1;
    }
    assert(a@ == a@.take(at as int));
    assert(b@ == b@.take(at as int));
    true
}

/// The first position of `items` whose item satisfies `hit`, or the length of `items`
/// if none does.
pub open spec fn first_where<T>(items: Seq<T>, hit: spec_fn(T) -> bool) -> int
    decreases items.len(),
{
    if items.len() == 0 || hit(items[0]) {
        0
    } else {
        1 + first_where(items.skip(1), hit)
    }
}

/// The predicate that holds of `wanted` alone.
pub open spec fn only<T>(wanted: T) -> spec_fn(T) -> bool {
    |item: T| item == wanted
}

/// `first_where` stops at the first hit and nowhere before it.
pub proof fn lemma_first_where<T>(items: Seq<T>, hit: spec_fn(T) -> bool)
    ensures
        0 <= first_where(items, hit) <= items.len(),
        first_where(items, hit) < items.len() ==> hit(items[first_where(items, hit)]),
        forall|i: int| 0 <= i < first_where(items, hit) ==> !hit(#[trigger] items[i]),
    decreases items.len(),
{
    if items.len() == 0 || hit(items[0]) {
    } else {
        let rest = items.skip(1);
        lemma_first_where(rest, hit);
        assert forall|i: int| 0 <= i < first_where(items, hit) implies !hit(
            #[trigger] items[i],
        ) by {
            if i > 0 {
                assert(items[i] == rest[i - 1]);
            }
        }
    }
}

/// A position that no hit precedes, and that is itself a hit or the end, is the one
/// that `first_where` finds.
pub proof fn lemma_first_where_is<T>(items: Seq<T>, hit: spec_fn(T) -> bool, at: int)
    requires
        0 <= at <= items.len(),
        forall|i: int| 0 <= i < at ==> !hit(#[trigger] items[i]),
        at == items.len() || hit(items[at]),
    ensures
        first_where(items, hit) == at,
{
    lemma_first_where(items, hit);
    let found = first_where(items, hit);
    if found < at {
        assert(!hit(items[found]));
    }
}

/// A list of pairs of texts, each text as its characters.
pub open spec fn pairs(entries: Seq<(String, String)>) -> Seq<(Seq<char>, Seq<char>)> {
    Seq::new(entries.len(), |i: int| (entries[i].0@, entries[i].1@))
}

/// A list of texts, each as its characters.
pub open spec fn texts(entries: Seq<String>) -> Seq<Seq<char>> {
    Seq::new(entries.len(), |i: int| entries[i]@)
}

/// A copy of a text.
pub fn copy_of(text: &str) -> (copy: String)
    ensures
        copy@ == text@,
{
    text.to_owned()
}

} // verus!
