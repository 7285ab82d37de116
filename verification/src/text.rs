//! Byte-level helpers: little-endian fields, NUL-terminated names, UTF-8 text.

use vstd::prelude::*;
use vstd::string::StringSliceAdditionalSpecFns;
use vstd::utf8::{decode_utf8, encode_utf8, valid_utf8};

verus! {

/// Value of a 32-bit little-endian field made of the four given bytes.
pub open spec fn le_u32(b0: u8, b1: u8, b2: u8, b3: u8) -> int {
    b0 as int + 256 * (b1 as int) + 65536 * (b2 as int) + 16777216 * (b3 as int)
}

/// The 32-bit little-endian value stored at `at` in `bytes`.
pub open spec fn le_u32_at(bytes: Seq<u8>, at: int) -> int
    recommends
        0 <= at,
        at + 4 <= bytes.len(),
{
    le_u32(bytes[at], bytes[at + 1], bytes[at + 2], bytes[at + 3])
}

/// Reads the 32-bit little-endian value stored at `at`.
pub(crate) fn read_le_u32(bytes: &[u8], at: usize) -> (value: u32)
    requires
        at + 4 <= bytes.len(),
    ensures
        value as int == le_u32_at(bytes@, at as int),
{
    let b0: u32 = bytes[at] as u32;
    let b1: u32 = bytes[at + 1] as u32;
    let b2: u32 = bytes[at + 2] as u32;
    let b3: u32 = bytes[at + 3] as u32;
    b0 + 256 * b1 + 65536 * b2 + 16777216 * b3
}

/// No byte of `bytes` is NUL.
pub open spec fn nul_free(bytes: Seq<u8>) -> bool {
    forall|i: int| 0 <= i < bytes.len() ==> bytes[i] != 0
}

/// `at` is the position of the first NUL of `bytes` within `[from, end)`.
pub open spec fn is_first_nul(bytes: Seq<u8>, from: int, end: int, at: int) -> bool {
    &&& from <= at < end
    &&& bytes[at] == 0
    &&& forall|i: int| from <= i < at ==> bytes[i] != 0
}

/// Position of the first NUL of `bytes` at or after `from`, or the length of
/// `bytes` where none follows.
pub open spec fn first_nul(bytes: Seq<u8>, from: int) -> int
    recommends
        0 <= from,
    decreases bytes.len() - from,
{
    if from >= bytes.len() {
        bytes.len() as int
    } else if bytes[from] == 0 {
        from
    } else {
        first_nul(bytes, from + 1)
    }
}

/// What `first_nul` returns: it lies between `from` and the end, no NUL comes
/// before it, and where it lies inside `bytes` it holds a NUL.
pub proof fn lemma_first_nul(bytes: Seq<u8>, from: int)
    requires
        0 <= from <= bytes.len(),
    ensures
        from <= first_nul(bytes, from) <= bytes.len(),
        forall|i: int| from <= i < first_nul(bytes, from) ==> bytes[i] != 0,
        first_nul(bytes, from) < bytes.len() ==> bytes[first_nul(bytes, from)] == 0,
    decreases bytes.len() - from,
{
    if from < bytes.len() && bytes[from] != 0 {
        lemma_first_nul(bytes, from + 1);
    }
}

/// The first NUL is the only position that holds a NUL and has none before it.
pub proof fn lemma_first_nul_unique(bytes: Seq<u8>, from: int, at: int)
    requires
        0 <= from <= at < bytes.len(),
        bytes[at] == 0,
        forall|i: int| from <= i < at ==> bytes[i] != 0,
    ensures
        first_nul(bytes, from) == at,
{
    lemma_first_nul(bytes, from);
}

/// The name that `window` starts with: the bytes before its first NUL. A
/// window without a NUL starts with no name.
pub open spec fn leading_name(window: Seq<u8>) -> Option<Seq<u8>> {
    let nul = first_nul(window, 0);
    if 0 <= nul < window.len() {
        Some(window.take(nul))
    } else {
        None
    }
}

/// A leading name holds no NUL, and a NUL follows it in the window.
pub proof fn lemma_leading_name(window: Seq<u8>)
    ensures
        match leading_name(window) {
            Some(name) => {
                &&& name.len() < window.len()
                &&& nul_free(name)
                &&& window[name.len() as int] == 0
                &&& name == window.take(name.len() as int)
            },
            None => nul_free(window),
        },
{
    lemma_first_nul(window, 0);
}

/// A window that starts with NUL-free bytes and then a NUL has those bytes
/// as its leading name.
pub proof fn lemma_leading_name_of(window: Seq<u8>, name: Seq<u8>)
    requires
        nul_free(name),
        name.len() < window.len(),
        window.take(name.len() as int) == name,
        window[name.len() as int] == 0,
    ensures
        leading_name(window) == Some(name),
{
    assert forall|i: int| 0 <= i < name.len() implies window[i] != 0 by {
        assert(window[i] == window.take(name.len() as int)[i]);
    }
    lemma_first_nul_unique(window, 0, name.len() as int);
}

/// Finds the first NUL of `bytes` within `[from, end)`.
fn find_nul(bytes: &[u8], from: usize, end: usize) -> (found: Option<usize>)
    requires
        from <= end <= bytes.len(),
    ensures
        match found {
            Some(at) => is_first_nul(bytes@, from as int, end as int, at as int),
            None => forall|i: int| from <= i < end ==> bytes@[i] != 0,
        },
{
    let mut at: usize = from;
    while at < end
        invariant
            from <= at <= end <= bytes.len(),
            forall|i: int| from <= i < at ==> bytes@[i] != 0,
        decreases end - at,
    {
        if bytes[at] == 0 {
            return Some(at);
        }
        at = at + 1;
    }
    None
}

/// Copies the bytes of `[from, to)` out of `bytes`.
pub(crate) fn copy_range(bytes: &[u8], from: usize, to: usize) -> (copy: Vec<u8>)
    requires
        from <= to <= bytes.len(),
    ensures
        copy@ == bytes@.subrange(from as int, to as int),
{
    let mut copy: Vec<u8> = Vec::new();
    let mut at: usize = from;
    while at < to
        invariant
            from <= at <= to <= bytes.len(),
            copy@ == bytes@.subrange(from as int, at as int),
        decreases to - at,
    {
        copy.push(bytes[at]);
        at = at + 1;
    }
    copy
}

/// Reads the name that the window `[from, end)` of `bytes` starts with.
pub(crate) fn read_leading_name(bytes: &[u8], from: usize, end: usize) -> (name: Option<Vec<u8>>)
    requires
        from <= end <= bytes.len(),
    ensures
        match name {
            Some(found) => leading_name(bytes@.subrange(from as int, end as int)) == Some(found@),
            None => leading_name(bytes@.subrange(from as int, end as int)) is None,
        },
{
    let ghost window = bytes@.subrange(from as int, end as int);
    match find_nul(bytes, from, end) {
        None => {
            proof {
                lemma_first_nul(window, 0);
                let nul = first_nul(window, 0);
                if nul < window.len() {
                    assert(window[nul] == bytes@[from + nul]);
                }
            }
            None
        },
        Some(nul) => {
            let found = copy_range(bytes, from, nul);
            proof {
                assert forall|i: int| 0 <= i < nul - from implies window[i] != 0 by {
                    assert(window[i] == bytes@[from + i]);
                }
                assert(window[nul - from] == bytes@[nul as int]);
                lemma_first_nul_unique(window, 0, nul - from);
                assert(window.take(nul - from) == found@);
            }
            Some(found)
        },
    }
}

/// The text that `bytes` spell in UTF-8, where they spell any.
pub open spec fn text_of(bytes: Seq<u8>) -> Option<Seq<char>> {
    if valid_utf8(bytes) {
        Some(decode_utf8(bytes))
    } else {
        None
    }
}

/// The bytes that stand for `text` in an image: its UTF-8 encoding.
pub open spec fn bytes_of(text: Seq<char>) -> Seq<u8> {
    encode_utf8(text)
}

/// What is written for `text`: its bytes, then exactly one NUL.
pub open spec fn terminated(text: Seq<char>) -> Seq<u8> {
    bytes_of(text).push(0u8)
}

/// `String::from_utf8` of std. Its documentation promises the string made of
/// `bytes` where these are valid UTF-8, and an error where they are not; the
/// contract states both over vstd's model of UTF-8.
#[verifier::external_body]
pub(crate) fn decode_text(bytes: Vec<u8>) -> (text: Option<String>)
    ensures
        match text {
            Some(s) => text_of(bytes@) == Some(s@),
            None => text_of(bytes@) is None,
        },
{
    String::from_utf8(bytes).ok()
}

/// The bytes to write for `name`: its UTF-8 bytes followed by one NUL.
pub fn terminated_bytes(name: &String) -> (bytes: Vec<u8>)
    ensures
        bytes@ == terminated(name@),
{
    let text = name.as_str().as_bytes();
    let mut bytes = copy_range(text, 0, text.len());
    assert(text@.subrange(0, text@.len() as int) == text@);
    bytes.push(0u8);
    bytes
}

/// Text survives being stored: the bytes of a text spell that text again.
pub proof fn lemma_text_round_trip(text: Seq<char>)
    ensures
        text_of(bytes_of(text)) == Some(text),
{
    vstd::utf8::encode_utf8_valid_utf8(text);
    vstd::utf8::encode_utf8_decode_utf8(text);
}

} // verus!
