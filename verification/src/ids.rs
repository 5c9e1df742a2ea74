//! Random identifiers.

use vstd::prelude::*;

use crate::text::hex2;

verus! {

/// Bytes as lower-case hexadecimal digits.
pub open spec fn hex_run(bytes: Seq<u8>) -> Seq<char>
    decreases bytes.len(),
{
    if bytes.len() == 0 {
        Seq::empty()
    } else {
        hex_run(bytes.drop_last()) + hex2(bytes.last(), false)
    }
}

/// Sixteen bytes in the usual form of an identifier: groups of eight, four, four, four and
/// twelve digits.
pub open spec fn uuid_text(b: Seq<u8>) -> Seq<char> {
    hex_run(b.subrange(0, 4)) + "-"@ + hex_run(b.subrange(4, 6)) + "-"@ + hex_run(b.subrange(6, 8))
        + "-"@ + hex_run(b.subrange(8, 10)) + "-"@ + hex_run(b.subrange(10, 16))
}

/// Whether sixteen bytes are a random identifier (version 4).
pub open spec fn is_random_uuid(b: Seq<u8>) -> bool {
    b.len() == 16 && 0x40 <= b[6] <= 0x4f && 0x80 <= b[8] <= 0xbf
}

/// Whether a text is that of a random identifier.
pub open spec fn is_random_id(text: Seq<char>) -> bool {
    exists|b: Seq<u8>| is_random_uuid(b) && text == #[trigger] uuid_text(b)
}

/// `uuid::Uuid::new_v4`, by its bytes: sixteen random ones but for the bits that mark the
/// version and the variant. Nothing is said of the random bits.
#[verifier::external_body]
pub(crate) fn random_uuid() -> (r: Vec<u8>)
    ensures
        is_random_uuid(r@),
{
    uuid::Uuid::new_v4().as_bytes().to_vec()
}

/// `uuid::Uuid::to_string` of the identifier with these bytes: its lower-case hyphenated form.
#[verifier::external_body]
pub(crate) fn uuid_string(bytes: &[u8]) -> (r: String)
    requires
        bytes@.len() == 16,
    ensures
        r@ == uuid_text(bytes@),
{
    uuid::Uuid::from_slice(bytes).unwrap_or_default().to_string()
}

/// A new random identifier.
pub fn new_id() -> (r: String)
    ensures
        is_random_id(r@),
{
    let bytes = random_uuid();
    uuid_string(&bytes)
}

proof fn lemma_hex_run(bytes: Seq<u8>, c: char)
    requires
        hex_run(bytes).contains(c),
    ensures
        '0' <= c <= '9' || 'a' <= c <= 'f',
    decreases bytes.len(),
{
    if bytes.len() > 0 {
        let head = hex_run(bytes.drop_last());
        let s = hex_run(bytes);
        let i = choose|i: int| 0 <= i < s.len() && s[i] == c;
        if i < head.len() {
            assert(head.contains(c));
            lemma_hex_run(bytes.drop_last(), c);
        } else {
            assert(s[i] == hex2(bytes.last(), false)[i - head.len()]);
        }
    }
}

/// The text of an identifier is never empty and has no bar in it.
pub proof fn law_id_is_a_plain_field(text: Seq<char>)
    requires
        is_random_id(text),
    ensures
        text.len() > 0,
        !text.contains('|'),
{
    let b = choose|b: Seq<u8>| is_random_uuid(b) && text == #[trigger] uuid_text(b);
    reveal_strlit("-");
    let g0 = hex_run(b.subrange(0, 4));
    let g1 = hex_run(b.subrange(4, 6));
    let g2 = hex_run(b.subrange(6, 8));
    let g3 = hex_run(b.subrange(8, 10));
    let g4 = hex_run(b.subrange(10, 16));
    let n0 = g0.len() as int;
    let n1 = n0 + 1 + g1.len();
    let n2 = n1 + 1 + g2.len();
    let n3 = n2 + 1 + g3.len();
    if text.contains('|') {
        let i = choose|i: int| 0 <= i < text.len() && text[i] == '|';
        if i < n0 {
            assert(g0[i] == '|');
            lemma_hex_run(b.subrange(0, 4), '|');
        } else if n0 < i < n1 {
            assert(g1[i - n0 - 1] == '|');
            lemma_hex_run(b.subrange(4, 6), '|');
        } else if n1 < i < n2 {
            assert(g2[i - n1 - 1] == '|');
            lemma_hex_run(b.subrange(6, 8), '|');
        } else if n2 < i < n3 {
            assert(g3[i - n2 - 1] == '|');
            lemma_hex_run(b.subrange(8, 10), '|');
        } else if n3 < i {
            assert(g4[i - n3 - 1] == '|');
            lemma_hex_run(b.subrange(10, 16), '|');
        }
    }
}

} // verus!
