//! Comparing texts by their UTF-8 bytes.

use vstd::prelude::*;
use vstd::slice::*;
use vstd::string::*;
use vstd::utf8::*;

verus! {

/// Texts with the same UTF-8 encoding are the same text.
pub proof fn lemma_same_bytes_same_text(a: Seq<char>, b: Seq<char>)
    requires
        encode_utf8(a) == encode_utf8(b),
    ensures
        a == b,
{
    encode_utf8_decode_utf8(a);
    encode_utf8_decode_utf8(b);
}

/// Whether two byte strings are equal.
pub fn bytes_eq(a: &[u8], b: &[u8]) -> (r: bool)
    ensures
        r == (a@ == b@),
{
    if a.len() != b.len() {
        return false;
    }
    let mut i: usize = 0;
    while i < a.len()
        invariant
            i <= a.len(),
            a.len() == b.len(),
            forall|k: int| 0 <= k < i ==> a@[k] == b@[k],
        decreases a.len() - i,
    {
        if a[i] != b[i] {
            return false;
        }
        i += 1;
    }
    assert(a@ =~= b@);
    true
}

/// Whether two texts are equal.
pub fn text_eq(a: &str, b: &str) -> (r: bool)
    ensures
        r == (a@ == b@),
{
    let r = bytes_eq(a.as_bytes(), b.as_bytes());
    proof {
        if r {
            lemma_same_bytes_same_text(a@, b@);
        }
    }
    r
}

/// The byte that parts the components of a path or a URL.
pub const SLASH: u8 = 0x2f;

/// Where the last component begins among the first `n` bytes of `path`: behind
/// the last slash, or at 0 where there is none.
pub open spec fn name_start(path: Seq<u8>, n: int) -> int
    decreases n,
{
    if n <= 0 {
        0
    } else if path[n - 1] == SLASH {
        n
    } else {
        name_start(path, n - 1)
    }
}

/// Where the last component begins among the first `n` bytes of `path`.
pub fn after_last_slash(path: &[u8], n: usize) -> (start: usize)
    requires
        n <= path.len(),
    ensures
        start == name_start(path@, n as int),
        start <= n,
        start > 0 ==> path@[start - 1] == SLASH,
{
    let mut start: usize = 0;
    let mut i: usize = 0;
    while i < n
        invariant
            i <= n <= path.len(),
            start <= i,
            start > 0 ==> path@[start - 1] == SLASH,
            start == name_start(path@, i as int),
        decreases n - i,
    {
        if path[i] == SLASH {
            start = i + 1;
        }
        i += 1;
    }
    start
}

/// `word` stands in `text` at offset `at`.
pub open spec fn occurs_at(text: Seq<u8>, word: Seq<u8>, at: int) -> bool {
    &&& 0 <= at
    &&& at + word.len() <= text.len()
    &&& text.subrange(at, at + word.len()) =~= word
}

/// `text` ends with `word`.
pub open spec fn ends_with_bytes(text: Seq<u8>, word: Seq<u8>) -> bool {
    occurs_at(text, word, text.len() - word.len())
}

/// Whether `word` stands in `text` at offset `at`.
pub fn stands_at(text: &[u8], word: &[u8], at: usize) -> (r: bool)
    requires
        at + word.len() <= text.len(),
    ensures
        r == occurs_at(text@, word@, at as int),
{
    let mut k: usize = 0;
    while k < word.len()
        invariant
            k <= word.len(),
            at + word.len() <= text.len(),
            forall|j: int| 0 <= j < k ==> text@[at + j] == word@[j],
        decreases word.len() - k,
    {
        if text[at + k] != word[k] {
            assert(text@.subrange(at as int, at + word.len())[k as int] != word@[k as int]);
            return false;
        }
        k += 1;
    }
    true
}

/// Whether `text` ends with `word`.
pub fn ends_with(text: &[u8], word: &[u8]) -> (r: bool)
    ensures
        r == ends_with_bytes(text@, word@),
{
    if word.len() > text.len() {
        return false;
    }
    stands_at(text, word, text.len() - word.len())
}

/// Calls `String::from_utf8`, which gives the text whose UTF-8 encoding is
/// `bytes`, and fails exactly where `bytes` is no valid UTF-8.
#[verifier::external_body]
pub(crate) fn utf8_text(bytes: Vec<u8>) -> (r: Option<String>)
    ensures
        r is Some <==> valid_utf8(bytes@),
        r matches Some(text) ==> encode_utf8(text@) == bytes@,
{
    String::from_utf8(bytes).ok()
}

/// What follows a leading ASCII byte of valid UTF-8 is valid UTF-8.
pub proof fn lemma_valid_after_ascii(bytes: Seq<u8>)
    requires
        valid_utf8(bytes),
        bytes.len() >= 1,
        bytes[0] < 0x80,
    ensures
        valid_utf8(bytes.subrange(1, bytes.len() as int)),
{
    assert(is_leading_byte_width_1(bytes[0]));
    assert(pop_first_scalar(bytes) == bytes.subrange(1, bytes.len() as int));
}

/// The stretch `[from, to)` of valid UTF-8 is valid UTF-8 where an ASCII byte
/// or the text's edge stands before it and behind it.
pub proof fn lemma_valid_between_ascii(bytes: Seq<u8>, from: int, to: int)
    requires
        valid_utf8(bytes),
        0 <= from <= to <= bytes.len(),
        from == 0 || bytes[from - 1] < 0x80,
        to == bytes.len() || bytes[to] < 0x80,
    ensures
        valid_utf8(bytes.subrange(from, to)),
{
    if to == bytes.len() {
        is_char_boundary_start_end_of_seq(bytes);
    } else {
        is_char_boundary_iff_not_is_continuation_byte(bytes, to);
    }
    valid_utf8_split(bytes, to);
    let head = bytes.subrange(0, to);
    if from == 0 {
        assert(head =~= bytes.subrange(from, to));
    } else {
        is_char_boundary_iff_not_is_continuation_byte(head, from - 1);
        valid_utf8_split(head, from - 1);
        let tail = head.subrange(from - 1, to);
        lemma_valid_after_ascii(tail);
        assert(tail.subrange(1, tail.len() as int) =~= bytes.subrange(from, to));
    }
}

/// The text of the stretch `[from, to)` of the UTF-8 bytes `bytes`.
pub fn segment_text(bytes: &[u8], from: usize, to: usize) -> (text: String)
    requires
        valid_utf8(bytes@),
        from <= to <= bytes.len(),
        from == 0 || bytes@[from - 1] < 0x80,
        to == bytes.len() || bytes@[to as int] < 0x80,
    ensures
        text@ == decode_utf8(bytes@.subrange(from as int, to as int)),
{
    proof {
        lemma_valid_between_ascii(bytes@, from as int, to as int);
    }
    match utf8_text(slice_to_vec(slice_subrange(bytes, from, to))) {
        Some(text) => {
            proof {
                encode_utf8_decode_utf8(text@);
            }
            text
        },
        None => String::new(),
    }
}

} // verus!
