//! Text in the code page of the printer, CP852 (Central European).

use vstd::prelude::*;
use vstd::utf8::{encode_scalar, encode_utf8};

use crate::text::chars_of;

verus! {

/// The code of a character outside ASCII, where the code page has one.
pub open spec fn cp852_code(c: char) -> Option<u8> {
    match c {
        'Ç' => Some(0x80u8),
        'ü' => Some(0x81u8),
        'é' => Some(0x82u8),
        'â' => Some(0x83u8),
        'ä' => Some(0x84u8),
        'ů' => Some(0x85u8),
        'ć' => Some(0x86u8),
        'ç' => Some(0x87u8),
        'ł' => Some(0x88u8),
        'ë' => Some(0x89u8),
        'Ő' => Some(0x8au8),
        'ő' => Some(0x8bu8),
        'î' => Some(0x8cu8),
        'Ź' => Some(0x8du8),
        'Ä' => Some(0x8eu8),
        'Ć' => Some(0x8fu8),
        'É' => Some(0x90u8),
        'Ĺ' => Some(0x91u8),
        'ĺ' => Some(0x92u8),
        'ô' => Some(0x93u8),
        'ö' => Some(0x94u8),
        'Ľ' => Some(0x95u8),
        'ľ' => Some(0x96u8),
        'Ś' => Some(0x97u8),
        'ś' => Some(0x98u8),
        'Ö' => Some(0x99u8),
        'Ü' => Some(0x9au8),
        'Ť' => Some(0x9bu8),
        'ť' => Some(0x9cu8),
        'Ł' => Some(0x9du8),
        'č' => Some(0x9fu8),
        'á' => Some(0xa0u8),
        'í' => Some(0xa1u8),
        'ó' => Some(0xa2u8),
        'ú' => Some(0xa3u8),
        'Ą' => Some(0xa4u8),
        'ą' => Some(0xa5u8),
        'Ž' => Some(0xa6u8),
        'ž' => Some(0xa7u8),
        'Ę' => Some(0xa8u8),
        'ę' => Some(0xa9u8),
        'ź' => Some(0xabu8),
        'Č' => Some(0xacu8),
        'ş' => Some(0xadu8),
        'Á' => Some(0xb5u8),
        'Â' => Some(0xb6u8),
        'Ě' => Some(0xb7u8),
        'Ş' => Some(0xb8u8),
        'Ż' => Some(0xbdu8),
        'ż' => Some(0xbeu8),
        'Ă' => Some(0xc6u8),
        'ă' => Some(0xc7u8),
        'đ' => Some(0xd0u8),
        'Đ' => Some(0xd1u8),
        'Ď' => Some(0xd2u8),
        'Ë' => Some(0xd3u8),
        'ď' => Some(0xd4u8),
        'Ň' => Some(0xd5u8),
        'Í' => Some(0xd6u8),
        'Î' => Some(0xd7u8),
        'ě' => Some(0xd8u8),
        'Ţ' => Some(0xddu8),
        'Ó' => Some(0xe0u8),
        'ß' => Some(0xe1u8),
        'Ô' => Some(0xe2u8),
        'Ń' => Some(0xe3u8),
        'ń' => Some(0xe4u8),
        'ň' => Some(0xe5u8),
        'Š' => Some(0xe6u8),
        'š' => Some(0xe7u8),
        'Ŕ' => Some(0xe8u8),
        'Ú' => Some(0xe9u8),
        'ŕ' => Some(0xeau8),
        'Ű' => Some(0xebu8),
        'ý' => Some(0xecu8),
        'Ý' => Some(0xedu8),
        'ţ' => Some(0xeeu8),
        'ű' => Some(0xfbu8),
        'Ř' => Some(0xfcu8),
        'ř' => Some(0xfdu8),
        _ => None,
    }
}

/// What is printed in place of a character that the code page does not have.
pub open spec fn ascii_fallback(c: char) -> Seq<u8> {
    match c {
        'à' | 'ã' | 'å' | 'ā' | 'ă' | 'ą' => seq![0x61u8],
        'À' | 'Ã' | 'Å' | 'Ā' | 'Ă' | 'Ą' => seq![0x41u8],
        'æ' => seq![0x61u8, 0x65u8],
        'Æ' => seq![0x41u8, 0x45u8],
        'ĉ' | 'ċ' => seq![0x63u8],
        'Ĉ' | 'Ċ' => seq![0x43u8],
        'ð' | 'ď' => seq![0x64u8],
        'Ð' | 'Ď' => seq![0x44u8],
        'è' | 'ê' | 'ē' | 'ė' | 'ę' | 'ě' => seq![0x65u8],
        'È' | 'Ê' | 'Ē' | 'Ė' | 'Ę' | 'Ě' => seq![0x45u8],
        'ĝ' | 'ğ' | 'ġ' | 'ģ' => seq![0x67u8],
        'Ĝ' | 'Ğ' | 'Ġ' | 'Ģ' => seq![0x47u8],
        'ĥ' | 'ħ' => seq![0x68u8],
        'Ĥ' | 'Ħ' => seq![0x48u8],
        'ì' | 'ï' | 'ĩ' | 'ī' | 'į' => seq![0x69u8],
        'Ì' | 'Ï' | 'Ĩ' | 'Ī' | 'Į' => seq![0x49u8],
        'ĵ' => seq![0x6au8],
        'Ĵ' => seq![0x4au8],
        'ķ' => seq![0x6bu8],
        'Ķ' => seq![0x4bu8],
        'ļ' => seq![0x6cu8],
        'Ļ' => seq![0x4cu8],
        'ñ' | 'ņ' => seq![0x6eu8],
        'Ñ' | 'Ņ' => seq![0x4eu8],
        'ò' | 'õ' | 'ø' | 'ō' => seq![0x6fu8],
        'Ò' | 'Õ' | 'Ø' | 'Ō' => seq![0x4fu8],
        'œ' => seq![0x6fu8, 0x65u8],
        'Œ' => seq![0x4fu8, 0x45u8],
        'ŗ' => seq![0x72u8],
        'Ŗ' => seq![0x52u8],
        'ŝ' | 'ş' | 'ș' => seq![0x73u8],
        'Ŝ' | 'Ş' | 'Ș' => seq![0x53u8],
        'þ' => seq![0x74u8, 0x68u8],
        'Þ' => seq![0x54u8, 0x48u8],
        'ț' => seq![0x74u8],
        'Ț' => seq![0x54u8],
        'ù' | 'û' | 'ũ' | 'ū' | 'ŭ' | 'ų' => seq![0x75u8],
        'Ù' | 'Û' | 'Ũ' | 'Ū' | 'Ŭ' | 'Ů' | 'Ų' => seq![0x55u8],
        'ŷ' | 'ÿ' => seq![0x79u8],
        'Ŷ' | 'Ÿ' => seq![0x59u8],
        'ẑ' => seq![0x7au8],
        'Ẑ' => seq![0x5au8],
        '–' | '—' | '−' => seq![0x2du8],
        '‘' | '’' => seq![0x27u8],
        '“' | '”' => seq![0x22u8],
        '\u{00a0}' => seq![0x20u8],
        _ => seq![0x3fu8],
    }
}

/// The bytes for one character.
pub open spec fn char_bytes(c: char) -> Seq<u8> {
    if (c as int) < 128 {
        seq![c as u8]
    } else {
        match cp852_code(c) {
            Some(b) => seq![b],
            None => ascii_fallback(c),
        }
    }
}

/// The bytes for a text.
pub open spec fn cp852_bytes(text: Seq<char>) -> Seq<u8>
    decreases text.len(),
{
    if text.len() == 0 {
        Seq::empty()
    } else {
        cp852_bytes(text.drop_last()) + char_bytes(text.last())
    }
}

fn cp852_byte(c: char) -> (r: Option<u8>)
    ensures
        r == cp852_code(c),
{
    match c {
        'Ç' => Some(0x80u8),
        'ü' => Some(0x81u8),
        'é' => Some(0x82u8),
        'â' => Some(0x83u8),
        'ä' => Some(0x84u8),
        'ů' => Some(0x85u8),
        'ć' => Some(0x86u8),
        'ç' => Some(0x87u8),
        'ł' => Some(0x88u8),
        'ë' => Some(0x89u8),
        'Ő' => Some(0x8au8),
        'ő' => Some(0x8bu8),
        'î' => Some(0x8cu8),
        'Ź' => Some(0x8du8),
        'Ä' => Some(0x8eu8),
        'Ć' => Some(0x8fu8),
        'É' => Some(0x90u8),
        'Ĺ' => Some(0x91u8),
        'ĺ' => Some(0x92u8),
        'ô' => Some(0x93u8),
        'ö' => Some(0x94u8),
        'Ľ' => Some(0x95u8),
        'ľ' => Some(0x96u8),
        'Ś' => Some(0x97u8),
        'ś' => Some(0x98u8),
        'Ö' => Some(0x99u8),
        'Ü' => Some(0x9au8),
        'Ť' => Some(0x9bu8),
        'ť' => Some(0x9cu8),
        'Ł' => Some(0x9du8),
        'č' => Some(0x9fu8),
        'á' => Some(0xa0u8),
        'í' => Some(0xa1u8),
        'ó' => Some(0xa2u8),
        'ú' => Some(0xa3u8),
        'Ą' => Some(0xa4u8),
        'ą' => Some(0xa5u8),
        'Ž' => Some(0xa6u8),
        'ž' => Some(0xa7u8),
        'Ę' => Some(0xa8u8),
        'ę' => Some(0xa9u8),
        'ź' => Some(0xabu8),
        'Č' => Some(0xacu8),
        'ş' => Some(0xadu8),
        'Á' => Some(0xb5u8),
        'Â' => Some(0xb6u8),
        'Ě' => Some(0xb7u8),
        'Ş' => Some(0xb8u8),
        'Ż' => Some(0xbdu8),
        'ż' => Some(0xbeu8),
        'Ă' => Some(0xc6u8),
        'ă' => Some(0xc7u8),
        'đ' => Some(0xd0u8),
        'Đ' => Some(0xd1u8),
        'Ď' => Some(0xd2u8),
        'Ë' => Some(0xd3u8),
        'ď' => Some(0xd4u8),
        'Ň' => Some(0xd5u8),
        'Í' => Some(0xd6u8),
        'Î' => Some(0xd7u8),
        'ě' => Some(0xd8u8),
        'Ţ' => Some(0xddu8),
        'Ó' => Some(0xe0u8),
        'ß' => Some(0xe1u8),
        'Ô' => Some(0xe2u8),
        'Ń' => Some(0xe3u8),
        'ń' => Some(0xe4u8),
        'ň' => Some(0xe5u8),
        'Š' => Some(0xe6u8),
        'š' => Some(0xe7u8),
        'Ŕ' => Some(0xe8u8),
        'Ú' => Some(0xe9u8),
        'ŕ' => Some(0xeau8),
        'Ű' => Some(0xebu8),
        'ý' => Some(0xecu8),
        'Ý' => Some(0xedu8),
        'ţ' => Some(0xeeu8),
        'ű' => Some(0xfbu8),
        'Ř' => Some(0xfcu8),
        'ř' => Some(0xfdu8),
        _ => None,
    }
}

fn push_one(output: &mut Vec<u8>, a: u8)
    ensures
        final(output)@ == old(output)@ + seq![a],
{
    output.push(a);
    assert(output@ =~= old(output)@ + seq![a]);
}

fn push_two(output: &mut Vec<u8>, a: u8, b: u8)
    ensures
        final(output)@ == old(output)@ + seq![a, b],
{
    output.push(a);
    output.push(b);
    assert(output@ =~= old(output)@ + seq![a, b]);
}

/// Appends what is printed in place of a character that the code page does not have.
pub fn append_ascii_fallback(output: &mut Vec<u8>, character: char)
    ensures
        final(output)@ == old(output)@ + ascii_fallback(character),
{
    match character {
        'à' | 'ã' | 'å' | 'ā' | 'ă' | 'ą' => push_one(output, 0x61),
        'À' | 'Ã' | 'Å' | 'Ā' | 'Ă' | 'Ą' => push_one(output, 0x41),
        'æ' => push_two(output, 0x61, 0x65),
        'Æ' => push_two(output, 0x41, 0x45),
        'ĉ' | 'ċ' => push_one(output, 0x63),
        'Ĉ' | 'Ċ' => push_one(output, 0x43),
        'ð' | 'ď' => push_one(output, 0x64),
        'Ð' | 'Ď' => push_one(output, 0x44),
        'è' | 'ê' | 'ē' | 'ė' | 'ę' | 'ě' => push_one(output, 0x65),
        'È' | 'Ê' | 'Ē' | 'Ė' | 'Ę' | 'Ě' => push_one(output, 0x45),
        'ĝ' | 'ğ' | 'ġ' | 'ģ' => push_one(output, 0x67),
        'Ĝ' | 'Ğ' | 'Ġ' | 'Ģ' => push_one(output, 0x47),
        'ĥ' | 'ħ' => push_one(output, 0x68),
        'Ĥ' | 'Ħ' => push_one(output, 0x48),
        'ì' | 'ï' | 'ĩ' | 'ī' | 'į' => push_one(output, 0x69),
        'Ì' | 'Ï' | 'Ĩ' | 'Ī' | 'Į' => push_one(output, 0x49),
        'ĵ' => push_one(output, 0x6a),
        'Ĵ' => push_one(output, 0x4a),
        'ķ' => push_one(output, 0x6b),
        'Ķ' => push_one(output, 0x4b),
        'ļ' => push_one(output, 0x6c),
        'Ļ' => push_one(output, 0x4c),
        'ñ' | 'ņ' => push_one(output, 0x6e),
        'Ñ' | 'Ņ' => push_one(output, 0x4e),
        'ò' | 'õ' | 'ø' | 'ō' => push_one(output, 0x6f),
        'Ò' | 'Õ' | 'Ø' | 'Ō' => push_one(output, 0x4f),
        'œ' => push_two(output, 0x6f, 0x65),
        'Œ' => push_two(output, 0x4f, 0x45),
        'ŗ' => push_one(output, 0x72),
        'Ŗ' => push_one(output, 0x52),
        'ŝ' | 'ş' | 'ș' => push_one(output, 0x73),
        'Ŝ' | 'Ş' | 'Ș' => push_one(output, 0x53),
        'þ' => push_two(output, 0x74, 0x68),
        'Þ' => push_two(output, 0x54, 0x48),
        'ț' => push_one(output, 0x74),
        'Ț' => push_one(output, 0x54),
        'ù' | 'û' | 'ũ' | 'ū' | 'ŭ' | 'ų' => push_one(output, 0x75),
        'Ù' | 'Û' | 'Ũ' | 'Ū' | 'Ŭ' | 'Ů' | 'Ų' => push_one(output, 0x55),
        'ŷ' | 'ÿ' => push_one(output, 0x79),
        'Ŷ' | 'Ÿ' => push_one(output, 0x59),
        'ẑ' => push_one(output, 0x7a),
        'Ẑ' => push_one(output, 0x5a),
        '–' | '—' | '−' => push_one(output, 0x2d),
        '‘' | '’' => push_one(output, 0x27),
        '“' | '”' => push_one(output, 0x22),
        '\u{00a0}' => push_one(output, 0x20),
        _ => push_one(output, 0x3f),
    }
}

/// The bytes for a text.
pub fn text_to_cp852(text: &str) -> (r: Vec<u8>)
    ensures
        r@ == cp852_bytes(text@),
{
    let chars = chars_of(text);
    let mut output: Vec<u8> = Vec::new();
    let mut i: usize = 0;
    assert(chars@.take(0) =~= Seq::<char>::empty());
    while i < chars.len()
        invariant
            chars@ == text@,
            i <= chars@.len(),
            output@ == cp852_bytes(chars@.take(i as int)),
        decreases chars@.len() - i,
    {
        let ghost longer = chars@.take(i + 1);
        assert(longer.drop_last() =~= chars@.take(i as int));
        assert(longer.last() == chars@[i as int]);
        let c: char = chars[i];
        if c <= '\u{7f}' {
            push_one(&mut output, c as u8);
        } else {
            match cp852_byte(c) {
                Some(b) => push_one(&mut output, b),
                None => append_ascii_fallback(&mut output, c),
            }
        }
        i = i + 1;
    }
    assert(chars@.take(i as int) =~= chars@);
    output
}

/// Texts printed one behind the other give the bytes of the one, then those of the other.
pub proof fn law_texts_are_printed_one_by_one(a: Seq<char>, b: Seq<char>)
    ensures
        cp852_bytes(a + b) == cp852_bytes(a) + cp852_bytes(b),
    decreases b.len(),
{
    if b.len() == 0 {
        assert(a + b =~= a);
        assert(cp852_bytes(a + b) =~= cp852_bytes(a) + cp852_bytes(b));
    } else {
        law_texts_are_printed_one_by_one(a, b.drop_last());
        assert((a + b).drop_last() =~= a + b.drop_last());
        assert(cp852_bytes(a + b) =~= cp852_bytes(a) + cp852_bytes(b));
    }
}

proof fn lemma_one_char(c: char)
    ensures
        cp852_bytes(seq![c]) == char_bytes(c),
{
    let head = seq![c].drop_last();
    assert(head =~= Seq::<char>::empty());
    assert(cp852_bytes(head) =~= Seq::<u8>::empty());
    assert(cp852_bytes(seq![c]) =~= char_bytes(c));
}

/// Every character gives at least one byte, and no text takes more bytes than in UTF-8.
pub proof fn law_printed_length_is_bounded(text: Seq<char>)
    ensures
        text.len() <= cp852_bytes(text).len() <= encode_utf8(text).len(),
    decreases text.len(),
{
    if text.len() > 0 {
        let c = text[0];
        let rest = text.drop_first();
        law_printed_length_is_bounded(rest);
        lemma_one_char(c);
        law_texts_are_printed_one_by_one(seq![c], rest);
        assert(seq![c] + rest =~= text);
        assert(1 <= char_bytes(c).len() <= encode_scalar(c as u32).len());
    }
}

/// Whether a character is a letter of Latin-2 (ISO 8859-2) outside ASCII.
pub open spec fn latin2_letter(c: char) -> bool {
    match c {
        'Ą' | 'Ł' | 'Ľ' | 'Ś' | 'Š' | 'Ş' | 'Ť' | 'Ź' | 'Ž' | 'Ż' | 'ą' | 'ł' | 'ľ' | 'ś'
        | 'š' | 'ş' | 'ť' | 'ź' | 'ž' | 'ż' | 'Ŕ' | 'Á' | 'Â' | 'Ă' | 'Ä' | 'Ĺ' | 'Ć' | 'Ç'
        | 'Č' | 'É' | 'Ę' | 'Ë' | 'Ě' | 'Í' | 'Î' | 'Ď' | 'Đ' | 'Ń' | 'Ň' | 'Ó' | 'Ô' | 'Ő'
        | 'Ö' | 'Ř' | 'Ů' | 'Ú' | 'Ű' | 'Ü' | 'Ý' | 'Ţ' | 'ß' | 'ŕ' | 'á' | 'â' | 'ă' | 'ä'
        | 'ĺ' | 'ć' | 'ç' | 'č' | 'é' | 'ę' | 'ë' | 'ě' | 'í' | 'î' | 'ď' | 'đ' | 'ń' | 'ň'
        | 'ó' | 'ô' | 'ő' | 'ö' | 'ř' | 'ů' | 'ú' | 'ű' | 'ü' | 'ý' | 'ţ' => true,
        _ => false,
    }
}

/// Every letter of Latin-2 is printed: with its code where one is used, or else as ASCII letters
/// that stand for it, and never as a question mark.
pub proof fn law_latin2_letters_are_printed(c: char)
    requires
        latin2_letter(c),
    ensures
        match cp852_code(c) {
            Some(b) => cp852_bytes(seq![c]) == seq![b] && b >= 0x80,
            None => cp852_bytes(seq![c]) == ascii_fallback(c) && ascii_fallback(c).len() == 1 && {
                let b = ascii_fallback(c)[0];
                0x41 <= b <= 0x5a || 0x61 <= b <= 0x7a
            },
        },
        cp852_bytes(seq![c]) != seq![0x3fu8],
{
    lemma_one_char(c);
    assert(seq![0x3fu8][0] == 0x3f);
}

/// A text in ASCII is printed as it is, byte for byte.
pub proof fn law_ascii_is_printed_as_it_is(text: Seq<char>)
    requires
        forall|i: int| 0 <= i < text.len() ==> (#[trigger] text[i] as int) < 128,
    ensures
        cp852_bytes(text) == text.map_values(|c: char| c as u8),
    decreases text.len(),
{
    if text.len() > 0 {
        let head = text.drop_last();
        assert forall|i: int| 0 <= i < head.len() implies (#[trigger] head[i] as int) < 128 by {
            assert(head[i] == text[i]);
        }
        law_ascii_is_printed_as_it_is(head);
        assert((text[text.len() - 1] as int) < 128);
    }
    assert(cp852_bytes(text) =~= text.map_values(|c: char| c as u8));
}

} // verus!
