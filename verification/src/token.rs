//! The signed text of a ticket's QR code, and the secret that signs it.

use hmac::{Hmac, Mac};
use sha2::Sha256;
use vstd::prelude::*;
use vstd::string::*;
use vstd::utf8::encode_utf8;

use crate::base64url::{
    base64url_bytes, base64url_text, decode, encode, law_base64url_reads_back, lemma_no_bar,
};
use crate::ids::{is_random_uuid, random_uuid};
use crate::models::{ErrorView, KioskError, KioskResult};
use crate::text::{
    bytes_of, decimal, decimal_i64, decimal_u64, join, join_fields, law_decimal_reads_back,
    law_fields_join_back, lemma_decimal_chars, lemma_split_append, lemma_split_count,
    lemma_split_len, lemma_split_plain, lemma_split_several, parse_i64, parsed_i64, same_text,
    split, split_fields, texts,
};

verus! {

/// The mask under which the secret is stored.
pub const APP_MASK: [u8; 32] = [
    0x6d, 0x21, 0xa7, 0x4c, 0x93, 0x18, 0xe2, 0x5f, 0xb4, 0x70, 0x0d, 0xc8, 0x36, 0xfa, 0x81, 0x2b,
    0x57, 0xde, 0x09, 0x64, 0xbb, 0x42, 0xf1, 0x7a, 0x15, 0x8c, 0xd3, 0x20, 0x9e, 0x4a, 0x76, 0xcd,
];

/// What a ticket claims.
#[derive(Debug, Clone, PartialEq, Eq)]
pub struct TicketClaims {
    pub id: String,
    pub type_code: String,
    pub price_rsd: i64,
    pub issued_at: i64,
}

pub struct ClaimsView {
    pub id: Seq<char>,
    pub type_code: Seq<char>,
    pub price_rsd: i64,
    pub issued_at: i64,
}

impl View for TicketClaims {
    type V = ClaimsView;

    open spec fn view(&self) -> ClaimsView {
        ClaimsView {
            id: self.id@,
            type_code: self.type_code@,
            price_rsd: self.price_rsd,
            issued_at: self.issued_at,
        }
    }
}

/// The HMAC-SHA256 of a message under a key.
pub uninterp spec fn hmac_sha256(key: Seq<u8>, message: Seq<u8>) -> Seq<u8>;

/// `hmac::Hmac<sha2::Sha256>` over one message: `new_from_slice` (which takes a key of any
/// length), `update` and `finalize`. What it computes is named, not stated; its length is that
/// of a SHA-256 digest.
#[verifier::external_body]
pub(crate) fn mac_of(secret: &[u8], message: &[u8]) -> (r: Vec<u8>)
    ensures
        r@ == hmac_sha256(secret@, message@),
        r@.len() == 32,
{
    let mut mac = Hmac::<Sha256>::new_from_slice(secret).expect("a key of any length");
    mac.update(message);
    mac.finalize().into_bytes().to_vec()
}

// ---------------------------------------------------------------------------
// Signing
// ---------------------------------------------------------------------------

/// The part of a token that is signed.
pub open spec fn prefix_text(c: ClaimsView) -> Seq<char> {
    "MMM|v1|"@ + c.id + "|"@ + c.type_code + "|"@ + decimal(c.price_rsd as int) + "|"@ + decimal(
        c.issued_at as int,
    )
}

/// A token: what is signed, a bar, and the code over it.
pub open spec fn token_text(prefix: Seq<char>, mac: Seq<u8>) -> Seq<char> {
    prefix + "|"@ + base64url_text(mac)
}

/// The token for these claims.
pub open spec fn signed(secret: Seq<u8>, c: ClaimsView) -> Seq<char> {
    token_text(prefix_text(c), hmac_sha256(secret, encode_utf8(prefix_text(c))))
}

/// The part of a token that is signed.
pub fn signed_prefix(c: &TicketClaims) -> (r: String)
    ensures
        r@ == prefix_text(c@),
{
    "MMM|v1|".to_string().concat(c.id.as_str()).concat("|").concat(c.type_code.as_str()).concat(
        "|",
    ).concat(decimal_i64(c.price_rsd).as_str()).concat("|").concat(
        decimal_i64(c.issued_at).as_str(),
    )
}

/// A token out of what is signed and the code over it.
pub fn attach_mac(prefix: &str, mac: &[u8]) -> (r: String)
    requires
        mac@.len() <= isize::MAX / 2,
    ensures
        r@ == token_text(prefix@, mac@),
{
    prefix.to_string().concat("|").concat(encode(mac).as_str())
}

/// The token for these claims.
pub fn sign(secret: &[u8], c: &TicketClaims) -> (r: String)
    ensures
        r@ == signed(secret@, c@),
{
    let prefix = signed_prefix(c);
    let mac = mac_of(secret, &bytes_of(prefix.as_str()));
    attach_mac(prefix.as_str(), &mac)
}

// ---------------------------------------------------------------------------
// Verifying
// ---------------------------------------------------------------------------

/// A token taken apart: what it claims, the text that is signed, and the code it carries.
pub struct ParsedToken {
    pub claims: TicketClaims,
    pub prefix: String,
    pub mac: Vec<u8>,
}

pub struct ParsedView {
    pub claims: ClaimsView,
    pub prefix: Seq<char>,
    pub mac: Seq<u8>,
}

impl View for ParsedToken {
    type V = ParsedView;

    open spec fn view(&self) -> ParsedView {
        ParsedView { claims: self.claims@, prefix: self.prefix@, mac: self.mac@ }
    }
}

pub open spec fn token_error(message: Seq<char>) -> ErrorView {
    ErrorView::Token(message)
}

/// What a token says, or what is wrong with its form. The order of the tests decides which
/// error is reported.
pub open spec fn parsed_token(token: Seq<char>) -> Result<ParsedView, ErrorView> {
    let f = split_fields(token, '|');
    if f.len() != 7 {
        Err(
            token_error(
                "neispravan format: očekivano 7 polja, dobijeno "@ + decimal(f.len() as int),
            ),
        )
    } else if f[0] != "MMM"@ {
        Err(token_error("neispravan prefiks tokena"@))
    } else if f[1] != "v1"@ {
        Err(token_error("nepodržana verzija tokena"@))
    } else if f[2].len() == 0 {
        Err(token_error("identifikator tiketa je prazan"@))
    } else if f[3].len() == 0 {
        Err(token_error("tip tiketa je prazan"@))
    } else if parsed_i64(f[4]) is None {
        Err(token_error("cena nije ispravan i64 broj"@))
    } else if parsed_i64(f[5]) is None {
        Err(token_error("vreme izdavanja nije ispravan i64 broj"@))
    } else if base64url_bytes(f[6]) is None {
        Err(token_error("MAC nije ispravan base64url bez dopune"@))
    } else {
        Ok(
            ParsedView {
                claims: ClaimsView {
                    id: f[2],
                    type_code: f[3],
                    price_rsd: parsed_i64(f[4])->0,
                    issued_at: parsed_i64(f[5])->0,
                },
                prefix: join_fields(f.take(6), "|"@),
                mac: base64url_bytes(f[6])->0,
            },
        )
    }
}

/// What a token that was taken apart claims, if its code is the expected one.
pub open spec fn accepted(p: ParsedView, expected: Seq<u8>) -> Result<ClaimsView, ErrorView> {
    if p.mac == expected {
        Ok(p.claims)
    } else {
        Err(token_error("MAC provera nije uspela"@))
    }
}

/// What a token claims, or why it is refused.
pub open spec fn verified(secret: Seq<u8>, token: Seq<char>) -> Result<ClaimsView, ErrorView> {
    match parsed_token(token) {
        Err(e) => Err(e),
        Ok(p) => accepted(p, hmac_sha256(secret, encode_utf8(p.prefix))),
    }
}

fn refuse(message: &str) -> (e: KioskError)
    ensures
        e@ == token_error(message@),
{
    KioskError::Token(message.to_string())
}

/// Takes a token apart.
pub fn parse_token(token: &str) -> (r: KioskResult<ParsedToken>)
    ensures
        match parsed_token(token@) {
            Ok(v) => r matches Ok(p) && p@ == v,
            Err(t) => r matches Err(e) && e@ == t,
        },
{
    let mut fields = split(token, '|');
    let ghost f = split_fields(token@, '|');
    assert(texts(fields@).len() == fields@.len());
    if fields.len() != 7 {
        return Err(
            KioskError::Token(
                "neispravan format: očekivano 7 polja, dobijeno ".to_string().concat(
                    decimal_u64(fields.len() as u64).as_str(),
                ),
            ),
        );
    }
    assert forall|i: int| 0 <= i < 7 implies #[trigger] fields@[i]@ == f[i] by {
        assert(texts(fields@)[i] == fields@[i]@);
    }
    if !same_text(fields[0].as_str(), "MMM") {
        return Err(refuse("neispravan prefiks tokena"));
    }
    if !same_text(fields[1].as_str(), "v1") {
        return Err(refuse("nepodržana verzija tokena"));
    }
    if is_blank(fields[2].as_str()) {
        return Err(refuse("identifikator tiketa je prazan"));
    }
    if is_blank(fields[3].as_str()) {
        return Err(refuse("tip tiketa je prazan"));
    }
    let price_rsd = match parse_i64(fields[4].as_str()) {
        Some(n) => n,
        None => return Err(refuse("cena nije ispravan i64 broj")),
    };
    let issued_at = match parse_i64(fields[5].as_str()) {
        Some(n) => n,
        None => return Err(refuse("vreme izdavanja nije ispravan i64 broj")),
    };
    let mac = match decode(fields[6].as_str()) {
        Some(v) => {
            proof {
                assert(base64url_text(v@) == f[6]);
                law_base64url_reads_back(v@);
            }
            v
        },
        None => return Err(refuse("MAC nije ispravan base64url bez dopune")),
    };
    let claims = TicketClaims {
        id: fields[2].clone(),
        type_code: fields[3].clone(),
        price_rsd,
        issued_at,
    };
    let ghost all = fields@;
    let _ = fields.pop();
    assert(fields@ =~= all.take(6));
    assert(texts(fields@) =~= f.take(6));
    let prefix = join(&fields, "|");
    Ok(ParsedToken { claims, prefix, mac })
}

fn is_blank(s: &str) -> (r: bool)
    ensures
        r == (s@.len() == 0),
{
    s.unicode_len() == 0
}

/// What a token that was taken apart claims, if its code is the expected one.
pub fn accept(p: ParsedToken, expected: &[u8]) -> (r: KioskResult<TicketClaims>)
    ensures
        match accepted(p@, expected@) {
            Ok(v) => r matches Ok(c) && c@ == v,
            Err(t) => r matches Err(e) && e@ == t,
        },
{
    if constant_time_eq(expected, &p.mac) {
        Ok(p.claims)
    } else {
        Err(refuse("MAC provera nije uspela"))
    }
}

/// Checks a token without any further data: what it claims, or why it is refused.
pub fn verify(secret: &[u8], token: &str) -> (r: KioskResult<TicketClaims>)
    ensures
        match verified(secret@, token@) {
            Ok(v) => r matches Ok(c) && c@ == v,
            Err(t) => r matches Err(e) && e@ == t,
        },
{
    let parsed = match parse_token(token) {
        Ok(p) => p,
        Err(e) => return Err(e),
    };
    let expected = mac_of(secret, &bytes_of(parsed.prefix.as_str()));
    accept(parsed, &expected)
}

/// Whether two lists of bytes are the same. Every byte is looked at, wherever they differ.
pub fn constant_time_eq(left: &[u8], right: &[u8]) -> (r: bool)
    ensures
        r == (left@ == right@),
{
    if left.len() != right.len() {
        return false;
    }
    let mut difference: u8 = 0;
    let mut i: usize = 0;
    while i < left.len()
        invariant
            left@.len() == right@.len(),
            i <= left@.len(),
            difference == 0 <==> forall|k: int| 0 <= k < i ==> left@[k] == right@[k],
        decreases left@.len() - i,
    {
        let a = left[i];
        let b = right[i];
        assert(difference | (a ^ b) == 0 <==> difference == 0 && a == b) by (bit_vector);
        difference = difference | (a ^ b);
        i = i + 1;
    }
    if difference == 0 {
        assert(left@ =~= right@);
    }
    difference == 0
}

// ---------------------------------------------------------------------------
// The secret
// ---------------------------------------------------------------------------

/// Bytes under the mask, which starts again every thirty-two bytes.
pub open spec fn masked(v: Seq<u8>) -> Seq<u8> {
    Seq::new(v.len(), |i: int| v[i] ^ APP_MASK@[i % 32])
}

/// Bytes under the mask.
pub fn xor_mask(input: &[u8]) -> (r: Vec<u8>)
    ensures
        r@ == masked(input@),
{
    let mut out: Vec<u8> = Vec::new();
    let mut i: usize = 0;
    while i < input.len()
        invariant
            i <= input@.len(),
            out@ == masked(input@).take(i as int),
        decreases input@.len() - i,
    {
        out.push(input[i] ^ APP_MASK[i % 32]);
        assert(out@ =~= masked(input@).take(i + 1));
        i = i + 1;
    }
    assert(out@ =~= masked(input@));
    out
}

/// A secret as it is stored.
pub fn obfuscate(raw: &[u8]) -> (r: Vec<u8>)
    ensures
        r@ == masked(raw@),
{
    xor_mask(raw)
}

/// A secret out of what is stored.
pub fn deobfuscate(stored: &[u8]) -> (r: Vec<u8>)
    ensures
        r@ == masked(stored@),
{
    xor_mask(stored)
}

/// A secret out of two random identifiers.
pub fn secret_of(first: &[u8], second: &[u8]) -> (r: Vec<u8>)
    ensures
        r@ == first@ + second@,
{
    let mut out: Vec<u8> = Vec::new();
    out.extend_from_slice(first);
    out.extend_from_slice(second);
    assert(out@ =~= first@ + second@);
    out
}

/// A new random secret of thirty-two bytes.
pub fn new_secret() -> (r: Vec<u8>)
    ensures
        r@.len() == 32,
        is_random_uuid(r@.take(16)),
        is_random_uuid(r@.skip(16)),
{
    let first = random_uuid();
    let second = random_uuid();
    let out = secret_of(&first, &second);
    assert(out@.take(16) =~= first@);
    assert(out@.skip(16) =~= second@);
    out
}

// ---------------------------------------------------------------------------
// Laws
// ---------------------------------------------------------------------------

/// What is obfuscated comes back: the mask undoes itself.
pub proof fn law_deobfuscate_undoes_obfuscate(v: Seq<u8>)
    ensures
        masked(masked(v)) == v,
{
    assert forall|i: int| 0 <= i < v.len() implies masked(masked(v))[i] == v[i] by {
        let a = v[i];
        let m = APP_MASK@[i % 32];
        assert(a ^ m ^ m == a) by (bit_vector);
    }
    assert(masked(masked(v)) =~= v);
}

/// Claims that fit into a token: neither text is empty or has a bar in it.
pub open spec fn fits_token(c: ClaimsView) -> bool {
    &&& c.id.len() > 0
    &&& c.type_code.len() > 0
    &&& !c.id.contains('|')
    &&& !c.type_code.contains('|')
}

proof fn lemma_prefix_fields(c: ClaimsView)
    requires
        !c.id.contains('|'),
        !c.type_code.contains('|'),
    ensures
        split_fields(prefix_text(c), '|') == seq![
            "MMM"@,
            "v1"@,
            c.id,
            c.type_code,
            decimal(c.price_rsd as int),
            decimal(c.issued_at as int),
        ],
{
    reveal_strlit("MMM|v1|");
    reveal_strlit("MMM");
    reveal_strlit("v1");
    reveal_strlit("|");
    let bar = seq!['|'];
    assert("|"@ =~= bar);
    let price = decimal(c.price_rsd as int);
    let issued = decimal(c.issued_at as int);
    let a1 = "MMM"@ + bar + "v1"@;
    let a2 = a1 + bar + c.id;
    let a3 = a2 + bar + c.type_code;
    let a4 = a3 + bar + price;
    let a5 = a4 + bar + issued;
    assert(!"MMM"@.contains('|'));
    assert(!"v1"@.contains('|'));
    lemma_decimal_chars(c.price_rsd as int, '|');
    lemma_decimal_chars(c.issued_at as int, '|');
    lemma_split_plain("MMM"@, '|');
    lemma_split_append("MMM"@, "v1"@, '|');
    lemma_split_append(a1, c.id, '|');
    lemma_split_append(a2, c.type_code, '|');
    lemma_split_append(a3, price, '|');
    lemma_split_append(a4, issued, '|');
    assert(prefix_text(c) =~= a5);
    assert(split_fields(prefix_text(c), '|') =~= seq![
        "MMM"@,
        "v1"@,
        c.id,
        c.type_code,
        price,
        issued,
    ]);
}

/// A token that was signed is verified under the same secret, and claims what was signed.
/// (Claims with an empty text or with a bar in one are left out: see
/// `law_unfit_claims_are_refused`.)
pub proof fn law_signed_token_verifies(secret: Seq<u8>, c: ClaimsView)
    requires
        fits_token(c),
    ensures
        verified(secret, signed(secret, c)) == Ok::<ClaimsView, ErrorView>(c),
{
    let prefix = prefix_text(c);
    let mac = hmac_sha256(secret, encode_utf8(prefix));
    let token = signed(secret, c);
    let bar = seq!['|'];
    reveal_strlit("|");
    assert("|"@ =~= bar);
    lemma_prefix_fields(c);
    lemma_no_bar(mac);
    lemma_split_append(prefix, base64url_text(mac), '|');
    assert(token =~= prefix + bar + base64url_text(mac));
    let head = split_fields(prefix, '|');
    let f = split_fields(token, '|');
    assert(f == head.push(base64url_text(mac)));
    law_decimal_reads_back(c.price_rsd);
    law_decimal_reads_back(c.issued_at);
    law_base64url_reads_back(mac);
    assert(f.take(6) =~= head);
    law_fields_join_back(prefix, '|');
    assert(f[0] == "MMM"@);
    assert(f[1] == "v1"@);
    assert(f[2] == c.id);
    assert(f[3] == c.type_code);
    assert(parsed_i64(f[4]) == Some(c.price_rsd));
    assert(parsed_i64(f[5]) == Some(c.issued_at));
    assert(f[6] == base64url_text(mac));
}

proof fn lemma_prefix_field_count(c: ClaimsView)
    ensures
        split_fields(prefix_text(c), '|').len() == 4 + split_fields(c.id, '|').len()
            + split_fields(c.type_code, '|').len(),
{
    reveal_strlit("MMM|v1|");
    reveal_strlit("MMM");
    reveal_strlit("v1");
    reveal_strlit("|");
    let bar = seq!['|'];
    assert("|"@ =~= bar);
    let price = decimal(c.price_rsd as int);
    let issued = decimal(c.issued_at as int);
    let a1 = "MMM"@ + bar + "v1"@;
    let a2 = a1 + bar + c.id;
    let a3 = a2 + bar + c.type_code;
    let a4 = a3 + bar + price;
    assert(!"MMM"@.contains('|'));
    assert(!"v1"@.contains('|'));
    lemma_decimal_chars(c.price_rsd as int, '|');
    lemma_decimal_chars(c.issued_at as int, '|');
    lemma_split_plain("MMM"@, '|');
    lemma_split_append("MMM"@, "v1"@, '|');
    lemma_split_count(a1, c.id, '|');
    lemma_split_count(a2, c.type_code, '|');
    lemma_split_append(a3, price, '|');
    lemma_split_append(a4, issued, '|');
    assert(prefix_text(c) =~= a4 + bar + issued);
}

/// The token of claims that do not fit is refused, under the secret that signed it as under any
/// other. A bar in a text gives it too many fields; without one, the empty text is what is
/// found.
pub proof fn law_unfit_claims_are_refused(secret: Seq<u8>, other: Seq<u8>, c: ClaimsView)
    requires
        !fits_token(c),
    ensures
        verified(other, signed(secret, c)) == Err::<ClaimsView, ErrorView>(
            token_error(
                if c.id.contains('|') || c.type_code.contains('|') {
                    "neispravan format: očekivano 7 polja, dobijeno "@ + decimal(
                        (5 + split_fields(c.id, '|').len() + split_fields(
                            c.type_code,
                            '|',
                        ).len()) as int,
                    )
                } else if c.id.len() == 0 {
                    "identifikator tiketa je prazan"@
                } else {
                    "tip tiketa je prazan"@
                },
            ),
        ),
{
    let prefix = prefix_text(c);
    let mac = hmac_sha256(secret, encode_utf8(prefix));
    let token = signed(secret, c);
    let bar = seq!['|'];
    reveal_strlit("|");
    assert("|"@ =~= bar);
    lemma_no_bar(mac);
    lemma_split_append(prefix, base64url_text(mac), '|');
    assert(token =~= prefix + bar + base64url_text(mac));
    let head = split_fields(prefix, '|');
    let f = split_fields(token, '|');
    assert(f == head.push(base64url_text(mac)));
    if c.id.contains('|') || c.type_code.contains('|') {
        lemma_prefix_field_count(c);
        lemma_split_len(c.id, '|');
        lemma_split_len(c.type_code, '|');
        if c.id.contains('|') {
            lemma_split_several(c.id, '|');
        } else {
            lemma_split_several(c.type_code, '|');
        }
        assert(f.len() > 7);
    } else {
        lemma_prefix_fields(c);
        assert(f.len() == 7);
        assert(f[0] == "MMM"@);
        assert(f[1] == "v1"@);
        assert(f[2] == c.id);
        assert(f[3] == c.type_code);
    }
}

/// A token that is verified carries the code over exactly the text in front of it, and claims
/// what that text says.
pub proof fn law_verified_token_is_genuine(secret: Seq<u8>, token: Seq<char>)
    requires
        verified(secret, token) is Ok,
    ensures
        ({
            let prefix = parsed_token(token)->Ok_0.prefix;
            let c = verified(secret, token)->Ok_0;
            let f = split_fields(token, '|');
            &&& token == token_text(prefix, hmac_sha256(secret, encode_utf8(prefix)))
            &&& f.len() == 7
            &&& c.id == f[2]
            &&& c.type_code == f[3]
            &&& parsed_i64(f[4]) == Some(c.price_rsd)
            &&& parsed_i64(f[5]) == Some(c.issued_at)
        }),
{
    let f = split_fields(token, '|');
    reveal_strlit("|");
    assert("|"@ =~= seq!['|']);
    law_fields_join_back(token, '|');
    assert(f.drop_last() =~= f.take(6));
}

/// Different tickets have different tokens.
pub proof fn law_tokens_tell_tickets_apart(secret: Seq<u8>, a: ClaimsView, b: ClaimsView)
    requires
        fits_token(a),
        fits_token(b),
        signed(secret, a) == signed(secret, b),
    ensures
        a == b,
{
    law_signed_token_verifies(secret, a);
    law_signed_token_verifies(secret, b);
}

/// Under another secret a token is verified only where both secrets give the same code.
pub proof fn law_other_secret_refuses(secret: Seq<u8>, other: Seq<u8>, c: ClaimsView)
    requires
        fits_token(c),
        hmac_sha256(secret, encode_utf8(prefix_text(c))) != hmac_sha256(
            other,
            encode_utf8(prefix_text(c)),
        ),
    ensures
        verified(other, signed(secret, c)) == Err::<ClaimsView, ErrorView>(
            token_error("MAC provera nije uspela"@),
        ),
{
    law_signed_token_verifies(secret, c);
    let prefix = prefix_text(c);
    let token = signed(secret, c);
    let p = parsed_token(token)->Ok_0;
    law_verified_token_is_genuine(secret, token);
    let mac = hmac_sha256(secret, encode_utf8(prefix));
    reveal_strlit("|");
    assert("|"@ =~= seq!['|']);
    lemma_no_bar(mac);
    lemma_split_append(prefix, base64url_text(mac), '|');
    assert(token =~= prefix + seq!['|'] + base64url_text(mac));
    let f = split_fields(token, '|');
    assert(f.take(6) =~= split_fields(prefix, '|'));
    law_fields_join_back(prefix, '|');
    assert(p.prefix == prefix);
}

/// A token is the seven fields of its format: the name and the version, the id, the type, the
/// price, the time of issue, and the code over everything before it, in the URL form of base64.
pub proof fn law_a_token_has_its_format(secret: Seq<u8>, c: ClaimsView)
    ensures
        ({
            let front = "MMM|v1|"@ + c.id + "|"@ + c.type_code + "|"@ + decimal(
                c.price_rsd as int,
            ) + "|"@ + decimal(c.issued_at as int);
            signed(secret, c) == front + "|"@ + base64url_text(
                hmac_sha256(secret, encode_utf8(front)),
            )
        }),
{
}

/// A token is verified exactly if it has seven fields, the first two are name and version, id and
/// type are not empty, price and time are numbers, and the last is the code over the text before
/// it; and then it claims what its fields say.
pub proof fn law_a_token_is_verified_exactly_if_it_is_good(secret: Seq<u8>, token: Seq<char>)
    ensures
        ({
            let f = split_fields(token, '|');
            let code = hmac_sha256(secret, encode_utf8(join_fields(f.take(6), "|"@)));
            let good = f.len() == 7 && f[0] == "MMM"@ && f[1] == "v1"@ && f[2].len() > 0
                && f[3].len() > 0 && parsed_i64(f[4]) is Some && parsed_i64(f[5]) is Some && f[6]
                == base64url_text(code);
            &&& verified(secret, token) is Ok <==> good
            &&& good ==> verified(secret, token) == Ok::<ClaimsView, ErrorView>(
                ClaimsView {
                    id: f[2],
                    type_code: f[3],
                    price_rsd: parsed_i64(f[4])->0,
                    issued_at: parsed_i64(f[5])->0,
                },
            )
        }),
{
    let f = split_fields(token, '|');
    let code = hmac_sha256(secret, encode_utf8(join_fields(f.take(6), "|"@)));
    law_base64url_reads_back(code);
    if f.len() == 7 && base64url_bytes(f[6]) == Some(code) {
        assert(base64url_text(code) == f[6]);
    }
}

/// Why a token is refused: the first thing that is wrong with it, from the left.
pub proof fn law_a_refused_token_says_why(secret: Seq<u8>, token: Seq<char>)
    ensures
        ({
            let f = split_fields(token, '|');
            let r = verified(secret, token);
            &&& f.len() != 7 ==> r == Err::<ClaimsView, ErrorView>(
                ErrorView::Token(
                    "neispravan format: očekivano 7 polja, dobijeno "@ + decimal(f.len() as int),
                ),
            )
            &&& f.len() == 7 && f[0] != "MMM"@ ==> r == Err::<ClaimsView, ErrorView>(
                ErrorView::Token("neispravan prefiks tokena"@),
            )
            &&& f.len() == 7 && f[0] == "MMM"@ && f[1] != "v1"@ ==> r == Err::<
                ClaimsView,
                ErrorView,
            >(ErrorView::Token("nepodržana verzija tokena"@))
            &&& f.len() == 7 && f[0] == "MMM"@ && f[1] == "v1"@ && f[2].len() > 0 && f[3].len() > 0
                && parsed_i64(f[4]) is None ==> r == Err::<ClaimsView, ErrorView>(
                ErrorView::Token("cena nije ispravan i64 broj"@),
            )
            &&& f.len() == 7 && f[0] == "MMM"@ && f[1] == "v1"@ && f[2].len() > 0 && f[3].len() > 0
                && parsed_i64(f[4]) is Some && parsed_i64(f[5]) is None ==> r == Err::<
                ClaimsView,
                ErrorView,
            >(ErrorView::Token("vreme izdavanja nije ispravan i64 broj"@))
            &&& f.len() == 7 && f[0] == "MMM"@ && f[1] == "v1"@ && f[2].len() > 0 && f[3].len() > 0
                && parsed_i64(f[4]) is Some && parsed_i64(f[5]) is Some ==> {
                &&& (forall|v: Seq<u8>| #[trigger] base64url_text(v) != f[6]) ==> r == Err::<
                    ClaimsView,
                    ErrorView,
                >(ErrorView::Token("MAC nije ispravan base64url bez dopune"@))
                &&& (exists|v: Seq<u8>| #[trigger]
                    base64url_text(v) == f[6] && v != hmac_sha256(
                        secret,
                        encode_utf8(join_fields(f.take(6), "|"@)),
                    )) ==> r == Err::<ClaimsView, ErrorView>(
                    ErrorView::Token("MAC provera nije uspela"@),
                )
            }
        }),
{
    let f = split_fields(token, '|');
    let code = hmac_sha256(secret, encode_utf8(join_fields(f.take(6), "|"@)));
    if exists|v: Seq<u8>| #[trigger] base64url_text(v) == f[6] && v != code {
        let v = choose|v: Seq<u8>| #[trigger] base64url_text(v) == f[6] && v != code;
        law_base64url_reads_back(v);
    }
}

/// A stored secret hides every byte of the secret itself: none of them stands there as it is, and
/// each is the one byte of the mask away from it.
pub proof fn law_a_stored_secret_is_masked(v: Seq<u8>, i: int)
    requires
        0 <= i < v.len(),
    ensures
        masked(v).len() == v.len(),
        masked(v)[i] == v[i] ^ APP_MASK@[i % 32],
        masked(v)[i] != v[i],
{
    let a = v[i];
    let m = APP_MASK@[i % 32];
    assert(m != 0);
    assert(m != 0 ==> a ^ m != a) by (bit_vector);
}

} // verus!
