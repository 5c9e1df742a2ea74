//! Bytes as text in the URL-safe base64 alphabet, without padding.

use base64::{engine::general_purpose::URL_SAFE_NO_PAD, Engine as _};
use vstd::prelude::*;

verus! {

/// The symbol for six bits.
pub open spec fn symbol(n: int) -> char {
    if n < 26 {
        ('A' as int + n) as char
    } else if n < 52 {
        ('a' as int + (n - 26)) as char
    } else if n < 62 {
        ('0' as int + (n - 52)) as char
    } else if n == 62 {
        '-'
    } else {
        '_'
    }
}

/// A byte of a list; zero behind its end.
pub open spec fn byte_at(v: Seq<u8>, i: int) -> int {
    if 0 <= i < v.len() {
        v[i] as int
    } else {
        0
    }
}

/// The `i`-th six bits of a list of bytes, counted from its first bit.
pub open spec fn six_bits(v: Seq<u8>, i: int) -> int {
    let pair = byte_at(v, 6 * i / 8) * 256 + byte_at(v, 6 * i / 8 + 1);
    let skip = 6 * i % 8;
    if skip == 0 {
        pair / 1024 % 64
    } else if skip == 2 {
        pair / 256 % 64
    } else if skip == 4 {
        pair / 64 % 64
    } else {
        pair / 16 % 64
    }
}

/// The text for a list of bytes: a symbol for every six bits.
pub open spec fn base64url_text(v: Seq<u8>) -> Seq<char> {
    Seq::new(((4 * v.len() + 2) / 3) as nat, |i: int| symbol(six_bits(v, i)))
}

/// The bytes that a text stands for, if it stands for any.
pub open spec fn base64url_bytes(text: Seq<char>) -> Option<Seq<u8>> {
    if exists|v: Seq<u8>| #[trigger] base64url_text(v) == text {
        Some(choose|v: Seq<u8>| #[trigger] base64url_text(v) == text)
    } else {
        None
    }
}

/// `base64::Engine::encode` of the engine `URL_SAFE_NO_PAD`: the symbols of the URL-safe
/// alphabet for every six bits, the last ones filled up with zero bits, and no padding. It
/// needs room for its result.
#[verifier::external_body]
pub(crate) fn encode(bytes: &[u8]) -> (r: String)
    requires
        bytes@.len() <= isize::MAX / 2,
    ensures
        r@ == base64url_text(bytes@),
{
    URL_SAFE_NO_PAD.encode(bytes)
}

/// `base64::Engine::decode` of the engine `URL_SAFE_NO_PAD`: it takes exactly the texts that
/// the encoding gives (no padding, no other symbols, no bits left over), and gives the bytes
/// that are encoded so. Which error it reports for any other text is not stated.
#[verifier::external_body]
pub(crate) fn decode(text: &str) -> (r: Option<Vec<u8>>)
    ensures
        match r {
            Some(v) => base64url_text(v@) == text@,
            None => forall|v: Seq<u8>| #[trigger] base64url_text(v) != text@,
        },
{
    URL_SAFE_NO_PAD.decode(text).ok()
}

proof fn lemma_symbol_injective(a: int, b: int)
    requires
        0 <= a < 64,
        0 <= b < 64,
        symbol(a) == symbol(b),
    ensures
        a == b,
{
}

proof fn lemma_six_bits_range(v: Seq<u8>, i: int)
    ensures
        0 <= six_bits(v, i) < 64,
{
}

proof fn lemma_length(n: int, m: int)
    requires
        0 <= n,
        0 <= m,
        (4 * n + 2) / 3 == (4 * m + 2) / 3,
    ensures
        n == m,
{
}

proof fn lemma_first_of_three(b: u32, c: u32)
    requires
        b < 256,
        c < 256,
    ensures
        (b * 256 + c) / 1024 % 64 * 4 + (b * 256 + c) / 16 % 64 / 16 == b,
{
    assert((b * 256 + c) / 1024 % 64 * 4 + (b * 256 + c) / 16 % 64 / 16 == b) by (bit_vector)
        requires
            b < 256,
            c < 256,
    ;
}

proof fn lemma_second_of_three(a: u32, b: u32, c: u32)
    requires
        a < 256,
        b < 256,
        c < 256,
    ensures
        (a * 256 + b) / 16 % 64 % 16 * 16 + (b * 256 + c) / 64 % 64 / 4 == b,
{
    assert((a * 256 + b) / 16 % 64 % 16 * 16 + (b * 256 + c) / 64 % 64 / 4 == b) by (bit_vector)
        requires
            a < 256,
            b < 256,
            c < 256,
    ;
}

proof fn lemma_third_of_three(a: u32, b: u32, c: u32)
    requires
        a < 256,
        b < 256,
        c < 256,
    ensures
        (a * 256 + b) / 64 % 64 % 4 * 64 + (b * 256 + c) / 256 % 64 == b,
{
    assert((a * 256 + b) / 64 % 64 % 4 * 64 + (b * 256 + c) / 256 % 64 == b) by (bit_vector)
        requires
            a < 256,
            b < 256,
            c < 256,
    ;
}

/// Where the six bits of a byte lie.
proof fn lemma_positions(k: int, i: int)
    requires
        0 <= k,
        i == 8 * k / 6,
    ensures
        k % 3 == 0 ==> 6 * i / 8 == k && 6 * i % 8 == 0 && 6 * (i + 1) / 8 == k && 6 * (i + 1) % 8
            == 6,
        k % 3 == 1 ==> 6 * i / 8 == k - 1 && 6 * i % 8 == 6 && 6 * (i + 1) / 8 == k && 6 * (i + 1)
            % 8 == 4,
        k % 3 == 2 ==> 6 * i / 8 == k - 1 && 6 * i % 8 == 4 && 6 * (i + 1) / 8 == k && 6 * (i + 1)
            % 8 == 2,
{
}

/// The byte at `k`, put together from the six bits in which it lies.
pub open spec fn byte_of_bits(k: int, x: int, y: int) -> int {
    if k % 3 == 0 {
        x * 4 + y / 16
    } else if k % 3 == 1 {
        x % 16 * 16 + y / 4
    } else {
        x % 4 * 64 + y
    }
}

proof fn lemma_byte_from_bits(v: Seq<u8>, k: int)
    requires
        0 <= k < v.len(),
    ensures
        v[k] as int == byte_of_bits(k, six_bits(v, 8 * k / 6), six_bits(v, 8 * k / 6 + 1)),
{
    let i = 8 * k / 6;
    lemma_positions(k, i);
    let a = byte_at(v, k - 1) as u32;
    let b = byte_at(v, k) as u32;
    let c = byte_at(v, k + 1) as u32;
    if k % 3 == 0 {
        lemma_first_of_three(b, c);
    } else if k % 3 == 1 {
        lemma_second_of_three(a, b, c);
    } else {
        lemma_third_of_three(a, b, c);
    }
}

/// Two lists of bytes with the same text are the same.
pub proof fn law_base64url_injective(v: Seq<u8>, w: Seq<u8>)
    requires
        base64url_text(v) == base64url_text(w),
    ensures
        v == w,
{
    let t = base64url_text(v);
    assert(t.len() == base64url_text(w).len());
    lemma_length(v.len() as int, w.len() as int);
    assert forall|k: int| 0 <= k < v.len() implies v[k] == w[k] by {
        lemma_byte_from_bits(v, k);
        lemma_byte_from_bits(w, k);
        let i = 8 * k / 6;
        assert(i + 1 < t.len());
        lemma_six_bits_range(v, i);
        lemma_six_bits_range(w, i);
        lemma_six_bits_range(v, i + 1);
        lemma_six_bits_range(w, i + 1);
        assert(t[i] == symbol(six_bits(v, i)));
        assert(base64url_text(w)[i] == symbol(six_bits(w, i)));
        assert(t[i + 1] == symbol(six_bits(v, i + 1)));
        assert(base64url_text(w)[i + 1] == symbol(six_bits(w, i + 1)));
        lemma_symbol_injective(six_bits(v, i), six_bits(w, i));
        lemma_symbol_injective(six_bits(v, i + 1), six_bits(w, i + 1));
    }
    assert(v =~= w);
}

/// What is encoded reads back.
pub proof fn law_base64url_reads_back(v: Seq<u8>)
    ensures
        base64url_bytes(base64url_text(v)) == Some(v),
{
    let w = base64url_bytes(base64url_text(v))->0;
    law_base64url_injective(v, w);
}

/// An encoded text has no bar in it.
pub(crate) proof fn lemma_no_bar(v: Seq<u8>)
    ensures
        !base64url_text(v).contains('|'),
{
    assert forall|i: int| 0 <= i < base64url_text(v).len() implies base64url_text(v)[i] != '|' by {
        lemma_six_bits_range(v, i);
    }
}

} // verus!
