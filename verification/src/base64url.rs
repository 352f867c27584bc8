//! Base64 with the URL-safe alphabet and without padding (RFC 4648, section 5).
//!
//! The `base64` crate does the work.  What its two calls are believed to do is stated here over the
//! text that a byte sequence has.
use vstd::prelude::*;

verus! {

/// The character that stands for a six-bit value.
pub open spec fn symbol(value: int) -> char {
    if value < 26 {
        (value + 'A' as int) as char
    } else if value < 52 {
        (value - 26 + 'a' as int) as char
    } else if value < 62 {
        (value - 52 + '0' as int) as char
    } else if value == 62 {
        '-'
    } else {
        '_'
    }
}

/// The byte at `index`, and zero past the end.
pub open spec fn byte_at(bytes: Seq<u8>, index: int) -> int {
    if index < bytes.len() {
        bytes[index] as int
    } else {
        0
    }
}

/// The six bits at `index`: every three bytes are four groups of six bits, highest bits first.
pub open spec fn sextet(bytes: Seq<u8>, index: int) -> int {
    let first = index / 4 * 3;
    if index % 4 == 0 {
        byte_at(bytes, first) / 4
    } else if index % 4 == 1 {
        byte_at(bytes, first) % 4 * 16 + byte_at(bytes, first + 1) / 16
    } else if index % 4 == 2 {
        byte_at(bytes, first + 1) % 16 * 4 + byte_at(bytes, first + 2) / 64
    } else {
        byte_at(bytes, first + 2) % 64
    }
}

/// How many characters the text of `len` bytes has.
pub open spec fn text_len(len: nat) -> nat {
    (len * 4 + 2) / 3
}

/// The text of a byte sequence.
pub open spec fn text(bytes: Seq<u8>) -> Seq<char> {
    Seq::new(text_len(bytes.len()), |i: int| symbol(sextet(bytes, i)))
}

/// `base64::DecodeError`: why a text could not be decoded.  Only that there was one is used.
#[verifier::external_type_specification]
#[verifier::external_body]
pub struct ExDecodeError(base64::DecodeError);

/// Calls `encode` of `base64::engine::general_purpose::URL_SAFE_NO_PAD`.  Believed: the result is
/// the unpadded URL-safe text of the bytes.  The call panics when the text would not fit into
/// memory that one allocation can have, which the precondition leaves out.
#[verifier::external_body]
pub(crate) fn encode(bytes: &[u8]) -> (encoded: String)
    requires
        text_len(bytes@.len()) <= isize::MAX,
    ensures
        encoded@ == text(bytes@),
{
    base64::Engine::encode(&base64::engine::general_purpose::URL_SAFE_NO_PAD, bytes)
}

/// Calls `decode` of `base64::engine::general_purpose::URL_SAFE_NO_PAD`.  Believed: it is strict.
/// It succeeds exactly on the texts that bytes have, and then gives those bytes: a character
/// outside the alphabet, padding, a length that no text has, and bits in the last character that
/// belong to no byte are all errors.
#[verifier::external_body]
pub(crate) fn decode(encoded: &str) -> (decoded: Result<Vec<u8>, base64::DecodeError>)
    ensures
        match decoded {
            Ok(bytes) => text(bytes@) == encoded@,
            Err(_) => forall|bytes: Seq<u8>| text(bytes) != encoded@,
        },
{
    base64::Engine::decode(&base64::engine::general_purpose::URL_SAFE_NO_PAD, encoded)
}

/// Six-bit values have different characters, all of them ASCII and none of them a dot.
proof fn lemma_symbol(a: int, b: int)
    requires
        0 <= a < 64,
        0 <= b < 64,
    ensures
        symbol(a) == symbol(b) ==> a == b,
        symbol(a) != '.',
        (symbol(a) as int) < 128,
{
}

/// A group of six bits is a six-bit value.
proof fn lemma_sextet_range(bytes: Seq<u8>, index: int)
    requires
        0 <= index,
    ensures
        0 <= sextet(bytes, index) < 64,
{
}

/// The text of a byte sequence holds no dot and only ASCII characters.
pub proof fn law_text_is_plain(bytes: Seq<u8>)
    ensures
        forall|i: int|
            0 <= i < text(bytes).len() ==> #[trigger] text(bytes)[i] != '.' && (text(bytes)[i]
                as int) < 128,
{
    assert forall|i: int| 0 <= i < text(bytes).len() implies #[trigger] text(bytes)[i] != '.' && (
    text(bytes)[i] as int) < 128 by {
        lemma_sextet_range(bytes, i);
        lemma_symbol(sextet(bytes, i), 0);
    }
}

/// A byte follows from the two groups of six bits that it is spread over.
proof fn lemma_byte_from_sextets(bytes: Seq<u8>, index: int)
    requires
        0 <= index < bytes.len(),
    ensures
        index % 3 == 0 ==> bytes[index] == sextet(bytes, index / 3 * 4) * 4 + sextet(
            bytes,
            index / 3 * 4 + 1,
        ) / 16,
        index % 3 == 1 ==> bytes[index] == sextet(bytes, index / 3 * 4 + 1) % 16 * 16 + sextet(
            bytes,
            index / 3 * 4 + 2,
        ) / 4,
        index % 3 == 2 ==> bytes[index] == sextet(bytes, index / 3 * 4 + 2) % 4 * 64 + sextet(
            bytes,
            index / 3 * 4 + 3,
        ),
{
    let q = index / 3;
    assert((q * 4) / 4 == q && (q * 4) % 4 == 0);
    assert((q * 4 + 1) / 4 == q && (q * 4 + 1) % 4 == 1);
    assert((q * 4 + 2) / 4 == q && (q * 4 + 2) % 4 == 2);
    assert((q * 4 + 3) / 4 == q && (q * 4 + 3) % 4 == 3);
}

/// Different byte sequences have different texts.
pub proof fn law_text_is_injective(a: Seq<u8>, b: Seq<u8>)
    requires
        text(a) == text(b),
    ensures
        a == b,
{
    assert(text(a).len() == text_len(a.len()));
    assert(text(b).len() == text_len(b.len()));
    assert(a.len() == b.len());
    assert forall|i: int| 0 <= i < text(a).len() implies #[trigger] sextet(a, i) == sextet(
        b,
        i,
    ) by {
        assert(text(a)[i] == symbol(sextet(a, i)));
        assert(text(b)[i] == symbol(sextet(b, i)));
        lemma_sextet_range(a, i);
        lemma_sextet_range(b, i);
        lemma_symbol(sextet(a, i), sextet(b, i));
    }
    assert forall|i: int| 0 <= i < a.len() implies a[i] == b[i] by {
        lemma_byte_from_sextets(a, i);
        lemma_byte_from_sextets(b, i);
        let q = i / 3 * 4;
        assert(q + 1 < text(a).len());
        assert(i % 3 >= 1 ==> q + 2 < text(a).len());
        assert(i % 3 == 2 ==> q + 3 < text(a).len());
    }
    assert(a =~= b);
}

} // verus!
