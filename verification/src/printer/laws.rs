//! What the printer is for: what stands on a ticket, and what the entrance can scan.

use vstd::prelude::*;
use vstd::utf8::encode_utf8;

use crate::models::{ErrorView, TicketView};
use crate::printer::codepage::{ascii_fallback, cp852_bytes, cp852_code, latin2_letter};
use crate::printer::job::{
    dots_for, feed_bytes, gs_k_bytes, is_job_of, job_bytes, job_error, line_bytes, printed_code,
    qr_bytes,
};
use crate::printer::raster::{
    image_byte, image_bytes, image_dots, image_row, image_rows, is_dark, row_length, scale_of,
};
use crate::printer::stamp::is_local_stamp;
use crate::printer::usb::USB_TIMEOUT_MS;
use crate::printer::{
    first_job_error, is_joined, utf16, PRINTER_BAUD, SERIAL_PROBE_TIMEOUT_MS,
    SERIAL_WRITE_TIMEOUT_MS,
};
use crate::text::decimal;

verus! {

// ---------------------------------------------------------------------------
// The QR code
// ---------------------------------------------------------------------------

/// The printer is told to store the whole data and then to print it: what stands behind the
/// store command is the data, byte for byte, under a length that counts all of it. So what is
/// scanned is what was signed. Data that no length can count is refused.
pub proof fn law_the_qr_code_holds_all_of_the_data(data: Seq<u8>)
    ensures
        data.len() + 3 <= 65535 ==> {
            let n = data.len() as int;
            &&& qr_bytes(data) matches Ok(b)
            &&& b.len() == n + 41
            &&& b.take(25) == seq![
                0x1du8, 0x28u8, 0x6bu8, 4u8, 0u8, 0x31u8, 0x41u8, 0x32u8, 0u8,
                0x1du8, 0x28u8, 0x6bu8, 3u8, 0u8, 0x31u8, 0x43u8, 6u8,
                0x1du8, 0x28u8, 0x6bu8, 3u8, 0u8, 0x31u8, 0x45u8, 0x31u8,
            ]
            &&& b.subrange(25, 28) == seq![0x1du8, 0x28u8, 0x6bu8]
            &&& b[28] + 256 * b[29] == n + 3
            &&& b.subrange(30, 33) == seq![0x31u8, 0x50u8, 0x30u8]
            &&& b.subrange(33, 33 + n) == data
            &&& b.skip(33 + n) == seq![
                0x1du8, 0x28u8, 0x6bu8, 3u8, 0u8, 0x31u8, 0x51u8, 0x30u8,
            ]
        },
        65535 < data.len() + 3 <= usize::MAX ==> qr_bytes(data) == Err::<Seq<u8>, ErrorView>(
            ErrorView::Print(
                "ESC/POS GS ( k payload is too large: "@ + decimal(data.len() as int + 3) + " bytes"@,
            ),
        ),
        data.len() + 3 > 65535 ==> qr_bytes(data) is Err,
{
    if data.len() + 3 <= 65535 {
        let n = data.len() as int;
        let b = qr_bytes(data)->Ok_0;
        assert(b.take(25) =~= seq![
            0x1du8, 0x28u8, 0x6bu8, 4u8, 0u8, 0x31u8, 0x41u8, 0x32u8, 0u8,
            0x1du8, 0x28u8, 0x6bu8, 3u8, 0u8, 0x31u8, 0x43u8, 6u8,
            0x1du8, 0x28u8, 0x6bu8, 3u8, 0u8, 0x31u8, 0x45u8, 0x31u8,
        ]);
        assert(b.subrange(25, 28) =~= seq![0x1du8, 0x28u8, 0x6bu8]);
        assert(b.subrange(30, 33) =~= seq![0x31u8, 0x50u8, 0x30u8]);
        assert(b.subrange(33, 33 + n) =~= data);
        assert(b.skip(33 + n) =~= seq![
            0x1du8, 0x28u8, 0x6bu8, 3u8, 0u8, 0x31u8, 0x51u8, 0x30u8,
        ]);
    }
}

/// A command of the QR group carries its parameters whole, under a length that counts them and
/// the two bytes before them.
pub proof fn law_commands_carry_their_parameters(cn: u8, function: u8, params: Seq<u8>)
    ensures
        gs_k_bytes(cn, function, params) is Ok <==> params.len() + 2 <= 65535,
        gs_k_bytes(cn, function, params) matches Ok(b) ==> {
            &&& b.len() == 7 + params.len()
            &&& b.take(3) == seq![0x1du8, 0x28u8, 0x6bu8]
            &&& b[3] + 256 * b[4] == params.len() + 2
            &&& b[5] == cn
            &&& b[6] == function
            &&& b.skip(7) == params
        },
{
    if let Ok(b) = gs_k_bytes(cn, function, params) {
        assert(b.take(3) =~= seq![0x1du8, 0x28u8, 0x6bu8]);
        assert(b.skip(7) =~= params);
    }
}

// ---------------------------------------------------------------------------
// The job
// ---------------------------------------------------------------------------

/// What a ticket looks like: the printer is reset and set to code page 18 and to the width of
/// the paper; the museum stands centred in large bold letters, and below it, each on its line,
/// the label, the price in dinars, the time of issue and the code behind a hash mark; then the
/// QR code of the token, paper, a partial cut and paper again.
pub proof fn law_a_job_prints_the_ticket(
    b: Seq<u8>,
    museum: Seq<char>,
    t: TicketView,
    before_mm: u32,
    after_mm: u32,
    width_mm: u32,
)
    requires
        is_job_of(Ok::<Seq<u8>, ErrorView>(b), museum, t, before_mm, after_mm, width_mm),
    ensures
        qr_bytes(encode_utf8(t.qr_token)) is Ok,
        exists|stamp: Seq<char>| #[trigger]
            is_local_stamp(stamp, t.issued_at as int) && b == (seq![
                0x1bu8, 0x40u8, 0x1bu8, 0x74u8, 0x12u8, 0x1du8, 0x57u8,
            ] + (if width_mm <= 58 {
                seq![0x80u8, 0x01u8]
            } else {
                seq![0x40u8, 0x02u8]
            }) + seq![0x1bu8, 0x61u8, 0x01u8, 0x1du8, 0x21u8, 0x11u8, 0x1bu8, 0x45u8, 0x01u8]
                + cp852_bytes(museum).push(0x0a) + seq![
                0x1du8, 0x21u8, 0x00u8, 0x1bu8, 0x45u8, 0x00u8,
            ] + cp852_bytes(t.label).push(0x0a) + cp852_bytes(
                decimal(t.price_rsd as int) + " RSD"@,
            ).push(0x0a) + cp852_bytes(stamp).push(0x0a) + cp852_bytes(
                "#"@ + printed_code(t.id),
            ).push(0x0a) + seq![0x0au8]) + qr_bytes(encode_utf8(t.qr_token))->Ok_0 + (feed_bytes(
                dots_for(before_mm),
            ) + seq![0x1du8, 0x56u8, 0x01u8] + feed_bytes(dots_for(after_mm))),
{
    let stamp = choose|stamp: Seq<char>|
        is_local_stamp(stamp, t.issued_at as int) && Ok::<Seq<u8>, ErrorView>(b)
            == #[trigger] job_bytes(
            museum,
            t,
            stamp,
            printed_code(t.id),
            before_mm,
            after_mm,
            width_mm,
        );
    assert(is_local_stamp(stamp, t.issued_at as int));
}

/// A ticket can be printed unless its time of issue has no date or its token is too long for a
/// QR command; nothing else stands in its way.
pub proof fn law_tickets_can_be_printed(t: TicketView)
    ensures
        job_error(t) is None <==> -8_334_601_228_800 <= t.issued_at <= 8_210_266_876_799
            && encode_utf8(t.qr_token).len() + 3 <= 65535,
        !(-8_334_601_228_800 <= t.issued_at <= 8_210_266_876_799) ==> job_error(t) == Some(
            ErrorView::Print(
                "ticket "@ + t.id + " has invalid issued_at timestamp "@ + decimal(
                    t.issued_at as int,
                ),
            ),
        ),
{
    law_the_qr_code_holds_all_of_the_data(encode_utf8(t.qr_token));
}

/// The code on a ticket is the end of its id, eight characters at most, with its small letters
/// made capital.
pub proof fn law_the_code_is_the_end_of_the_id(id: Seq<char>, i: int)
    requires
        forall|k: int| 0 <= k < id.len() ==> (#[trigger] id[k] as int) < 128,
        0 <= i < printed_code(id).len(),
    ensures
        printed_code(id).len() == if id.len() < 8 {
            id.len() as int
        } else {
            8
        },
        ({
            let from = id[id.len() - printed_code(id).len() + i];
            let to = printed_code(id)[i];
            if 97 <= from as int <= 122 {
                to as int == from as int - 32
            } else {
                to == from
            }
        }),
{
    let code = if id.len() > 8 {
        id.skip(id.len() - 8)
    } else {
        id
    };
    assert forall|k: int| 0 <= k < code.len() implies (#[trigger] code[k] as int) < 128 by {
        assert(code[k] == id[id.len() - code.len() + k]);
    }
}

/// Paper moves eight dots for a millimetre, in commands of at most 255 dots each.
pub proof fn law_paper_moves_by_millimetres(mm: u32, dots: nat)
    ensures
        mm <= 536_870_911 ==> dots_for(mm) == 8 * mm,
        mm > 536_870_911 ==> dots_for(mm) == 4_294_967_295,
        feed_bytes(0) == Seq::<u8>::empty(),
        1 <= dots <= 255 ==> feed_bytes(dots) == seq![0x1bu8, 0x4au8, dots as u8],
        dots > 255 ==> feed_bytes(dots) == seq![0x1bu8, 0x4au8, 255u8] + feed_bytes(
            (dots - 255) as nat,
        ),
{
}

/// Jobs for the spooler follow one another in the order of the tickets, none left out and none
/// twice, and the first ticket that cannot be printed is what is reported.
pub proof fn law_every_ticket_has_its_job(
    bytes: Seq<u8>,
    museum: Seq<char>,
    tickets: Seq<TicketView>,
    t: TicketView,
    before_mm: u32,
    after_mm: u32,
    width_mm: u32,
)
    ensures
        is_joined(bytes, museum, Seq::empty(), before_mm, after_mm, width_mm) <==> bytes.len() == 0,
        is_joined(bytes, museum, tickets.push(t), before_mm, after_mm, width_mm) <==> exists|n: int|
            0 <= n <= bytes.len() && is_joined(
                #[trigger] bytes.take(n),
                museum,
                tickets,
                before_mm,
                after_mm,
                width_mm,
            ) && is_job_of(
                Ok::<Seq<u8>, ErrorView>(bytes.skip(n)),
                museum,
                t,
                before_mm,
                after_mm,
                width_mm,
            ),
        first_job_error(Seq::empty()) is None,
        first_job_error(tickets.push(t)) == if first_job_error(tickets) is Some {
            first_job_error(tickets)
        } else {
            job_error(t)
        },
{
    assert(tickets.push(t).drop_last() =~= tickets);
    if bytes.len() == 0 {
        assert(bytes =~= Seq::<u8>::empty());
    }
}

// ---------------------------------------------------------------------------
// Letters
// ---------------------------------------------------------------------------

/// The upper half of code page 852, from 0x80 on.
pub open spec fn code_page() -> Seq<char> {
    "ÇüéâäůćçłëŐőîŹÄĆÉĹĺôöĽľŚśÖÜŤťŁ×čáíóúĄąŽžĘę¬źČş«»░▒▓│┤ÁÂĚŞ╣║╗╝Żż┐└┴┬├─┼Ăă╚╔╩╦╠═╬¤đĐĎËďŇÍÎě┘┌█▄ŢŮ▀ÓßÔŃńňŠšŔÚŕŰýÝţ´\u{ad}˝˛ˇ˘§÷¸°¨˙űŘř■\u{a0}"@
}

/// A character that is printed with a code is printed with its own: the one under which it
/// stands in the code page.
#[verifier::rlimit(60)]
pub proof fn law_codes_are_those_of_the_page(c: char, b: u8)
    requires
        cp852_code(c) == Some(b),
    ensures
        b >= 0x80,
        code_page().len() == 128,
        code_page()[b - 0x80] == c,
{
    reveal_strlit("ÇüéâäůćçłëŐőîŹÄĆÉĹĺôöĽľŚśÖÜŤťŁ×čáíóúĄąŽžĘę¬źČş«»░▒▓│┤ÁÂĚŞ╣║╗╝Żż┐└┴┬├─┼Ăă╚╔╩╦╠═╬¤đĐĎËďŇÍÎě┘┌█▄ŢŮ▀ÓßÔŃńňŠšŔÚŕŰýÝţ´\u{ad}˝˛ˇ˘§÷¸°¨˙űŘř■\u{a0}");
}

/// Every letter of Latin-2 is printed with its code, but for the one that is printed as U.
pub proof fn law_letters_keep_their_codes(c: char)
    requires
        latin2_letter(c),
    ensures
        c != 'Ů' ==> cp852_code(c) is Some,
        c == 'Ů' ==> cp852_code(c) is None && ascii_fallback(c) == seq!['U' as u8],
{
}

/// A line is its text in the code page, character by character, and a line feed; what is ASCII
/// stays as it is.
pub proof fn law_a_line_is_its_text(text: Seq<char>, c: char)
    ensures
        line_bytes(text) == cp852_bytes(text) + seq![0x0au8],
        cp852_bytes(Seq::empty()) == Seq::<u8>::empty(),
        cp852_bytes(text.push(c)) == cp852_bytes(text) + if (c as int) < 128 {
            seq![c as u8]
        } else {
            match cp852_code(c) {
                Some(b) => seq![b],
                None => ascii_fallback(c),
            }
        },
{
    assert(text.push(c).drop_last() =~= text);
    assert(line_bytes(text) =~= cp852_bytes(text) + seq![0x0au8]);
}

/// A letter without a code of its own is printed without its accent, and a ligature as its two
/// letters; dashes, quotation marks and the fixed space become their plain forms.
pub proof fn law_accents_are_dropped(c: char)
    ensures
        (c == 'À' || c == 'Ã' || c == 'Å' || c == 'Ā' || c == 'Ă' || c == 'Ą') ==> ascii_fallback(c) == seq!['A' as u8],
        (c == 'Ĉ' || c == 'Ċ') ==> ascii_fallback(c) == seq!['C' as u8],
        (c == 'Ď' || c == 'Ð') ==> ascii_fallback(c) == seq!['D' as u8],
        (c == 'È' || c == 'Ê' || c == 'Ē' || c == 'Ė' || c == 'Ę' || c == 'Ě') ==> ascii_fallback(c) == seq!['E' as u8],
        (c == 'Ĝ' || c == 'Ğ' || c == 'Ġ' || c == 'Ģ') ==> ascii_fallback(c) == seq!['G' as u8],
        (c == 'Ĥ' || c == 'Ħ') ==> ascii_fallback(c) == seq!['H' as u8],
        (c == 'Ì' || c == 'Ï' || c == 'Ĩ' || c == 'Ī' || c == 'Į') ==> ascii_fallback(c) == seq!['I' as u8],
        (c == 'Ĵ') ==> ascii_fallback(c) == seq!['J' as u8],
        (c == 'Ķ') ==> ascii_fallback(c) == seq!['K' as u8],
        (c == 'Ļ') ==> ascii_fallback(c) == seq!['L' as u8],
        (c == 'Ñ' || c == 'Ņ') ==> ascii_fallback(c) == seq!['N' as u8],
        (c == 'Ò' || c == 'Õ' || c == 'Ō' || c == 'Ø') ==> ascii_fallback(c) == seq!['O' as u8],
        (c == 'Ŗ') ==> ascii_fallback(c) == seq!['R' as u8],
        (c == 'Ŝ' || c == 'Ş' || c == 'Ș') ==> ascii_fallback(c) == seq!['S' as u8],
        (c == 'Ț') ==> ascii_fallback(c) == seq!['T' as u8],
        (c == 'Ù' || c == 'Û' || c == 'Ũ' || c == 'Ū' || c == 'Ŭ' || c == 'Ů' || c == 'Ų') ==> ascii_fallback(c) == seq!['U' as u8],
        (c == 'Ŷ' || c == 'Ÿ') ==> ascii_fallback(c) == seq!['Y' as u8],
        (c == 'Ẑ') ==> ascii_fallback(c) == seq!['Z' as u8],
        (c == 'à' || c == 'ã' || c == 'å' || c == 'ā' || c == 'ă' || c == 'ą') ==> ascii_fallback(c) == seq!['a' as u8],
        (c == 'ĉ' || c == 'ċ') ==> ascii_fallback(c) == seq!['c' as u8],
        (c == 'ď' || c == 'ð') ==> ascii_fallback(c) == seq!['d' as u8],
        (c == 'è' || c == 'ê' || c == 'ē' || c == 'ė' || c == 'ę' || c == 'ě') ==> ascii_fallback(c) == seq!['e' as u8],
        (c == 'ĝ' || c == 'ğ' || c == 'ġ' || c == 'ģ') ==> ascii_fallback(c) == seq!['g' as u8],
        (c == 'ĥ' || c == 'ħ') ==> ascii_fallback(c) == seq!['h' as u8],
        (c == 'ì' || c == 'ï' || c == 'ĩ' || c == 'ī' || c == 'į') ==> ascii_fallback(c) == seq!['i' as u8],
        (c == 'ĵ') ==> ascii_fallback(c) == seq!['j' as u8],
        (c == 'ķ') ==> ascii_fallback(c) == seq!['k' as u8],
        (c == 'ļ') ==> ascii_fallback(c) == seq!['l' as u8],
        (c == 'ñ' || c == 'ņ') ==> ascii_fallback(c) == seq!['n' as u8],
        (c == 'ò' || c == 'õ' || c == 'ō' || c == 'ø') ==> ascii_fallback(c) == seq!['o' as u8],
        (c == 'ŗ') ==> ascii_fallback(c) == seq!['r' as u8],
        (c == 'ŝ' || c == 'ş' || c == 'ș') ==> ascii_fallback(c) == seq!['s' as u8],
        (c == 'ț') ==> ascii_fallback(c) == seq!['t' as u8],
        (c == 'ù' || c == 'û' || c == 'ũ' || c == 'ū' || c == 'ŭ' || c == 'ų') ==> ascii_fallback(c) == seq!['u' as u8],
        (c == 'ŷ' || c == 'ÿ') ==> ascii_fallback(c) == seq!['y' as u8],
        (c == 'ẑ') ==> ascii_fallback(c) == seq!['z' as u8],
        c == 'æ' ==> ascii_fallback(c) == seq!['a' as u8, 'e' as u8],
        c == 'Æ' ==> ascii_fallback(c) == seq!['A' as u8, 'E' as u8],
        c == 'œ' ==> ascii_fallback(c) == seq!['o' as u8, 'e' as u8],
        c == 'Œ' ==> ascii_fallback(c) == seq!['O' as u8, 'E' as u8],
        c == 'þ' ==> ascii_fallback(c) == seq!['t' as u8, 'h' as u8],
        c == 'Þ' ==> ascii_fallback(c) == seq!['T' as u8, 'H' as u8],
        (c == '–' || c == '—' || c == '−') ==> ascii_fallback(c) == seq!['-' as u8],
        (c == '‘' || c == '’') ==> ascii_fallback(c) == seq![39u8],
        (c == '“' || c == '”') ==> ascii_fallback(c) == seq![34u8],
        c == '\u{00a0}' ==> ascii_fallback(c) == seq![' ' as u8],
        0x370 <= c as int <= 0x1e8f || c as int > 0x2212 ==> ascii_fallback(c) == seq!['?' as u8]
            && cp852_code(c) is None,
{
}

// ---------------------------------------------------------------------------
// The image of a QR code
// ---------------------------------------------------------------------------

proof fn lemma_rows(width: int, dark: Seq<bool>, n: nat, y: int, j: int)
    requires
        row_length(width) >= 0,
    ensures
        image_rows(width, dark, n).len() == n * row_length(width),
        0 <= y < n && 0 <= j < row_length(width) ==> {
            &&& 0 <= y * row_length(width) + j < n * row_length(width)
            &&& image_rows(width, dark, n)[y * row_length(width) + j] == image_row(
                width,
                dark,
                y,
            )[j]
        },
    decreases n,
{
    let r = row_length(width);
    if n > 0 {
        let less = (n - 1) as nat;
        lemma_rows(width, dark, less, y, j);
        assert(n * r == less * r + r) by (nonlinear_arith)
            requires
                n == less + 1,
        ;
        if 0 <= y < n && 0 <= j < r {
            assert(0 <= y * r) by (nonlinear_arith)
                requires
                    0 <= y,
                    0 <= r,
            ;
            if y == less {
                assert(image_rows(width, dark, n)[less * r + j] == image_row(width, dark, y)[j]);
            }
        }
    } else {
        assert(0 * r == 0);
    }
}

/// The dots that a byte stands for.
proof fn lemma_dots_of_byte(width: int, dark: Seq<bool>, j: int, y: int)
    ensures
        ({
            let v = image_byte(width, dark, j, y);
            &&& v / 128 % 2 == 1 <==> is_dark(width, dark, 8 * j, y)
            &&& v / 64 % 2 == 1 <==> is_dark(width, dark, 8 * j + 1, y)
            &&& v / 32 % 2 == 1 <==> is_dark(width, dark, 8 * j + 2, y)
            &&& v / 16 % 2 == 1 <==> is_dark(width, dark, 8 * j + 3, y)
            &&& v / 8 % 2 == 1 <==> is_dark(width, dark, 8 * j + 4, y)
            &&& v / 4 % 2 == 1 <==> is_dark(width, dark, 8 * j + 5, y)
            &&& v / 2 % 2 == 1 <==> is_dark(width, dark, 8 * j + 6, y)
            &&& v % 2 == 1 <==> is_dark(width, dark, 8 * j + 7, y)
        }),
{
}

/// The image is a picture of the code: every module is a square of dots, as large as fits on the
/// paper and at most four by four, with four modules of white on every side; a dot is black
/// exactly where its module is dark. The dots of a row are packed eight to a byte, the leftmost
/// in the highest bit.
pub proof fn law_the_image_shows_the_code(width: int, dark: Seq<bool>, x: int, y: int)
    requires
        21 <= width <= 177,
        dark.len() == width * width,
        0 <= x,
        0 <= y,
    ensures
        ({
            let fit = 384int / (width + 8);
            let scale = if fit < 1 {
                1
            } else if fit > 4 {
                4
            } else {
                fit
            };
            let dots = (width + 8) * scale;
            let row = (dots + 7) / 8;
            let b = image_bytes(width, dark);
            let mx = x / scale - 4;
            let my = y / scale - 4;
            let weight = if x % 8 == 0 { 128int } else if x % 8 == 1 { 64 } else if x % 8 == 2 { 32 }
                else if x % 8 == 3 { 16 } else if x % 8 == 4 { 8 } else if x % 8 == 5 { 4 }
                else if x % 8 == 6 { 2 } else { 1 };
            &&& b.len() == 8 + dots * row
            &&& b.take(4) == seq![0x1du8, 0x76u8, 0x30u8, 0u8]
            &&& b[4] + 256 * b[5] == row
            &&& b[6] + 256 * b[7] == dots
            &&& x < 8 * row && y < dots ==> {
                &&& 0 <= 8 + y * row + x / 8 < b.len()
                &&& b[8 + y * row + x / 8] as int / weight % 2 == 1 <==> x < dots && 0 <= mx
                    < width && 0 <= my < width && dark[my * width + mx]
            }
        }),
{
    let scale = scale_of(width);
    let across = width + 8;
    let fit = 384int / across;
    assert(fit * across <= 384) by (nonlinear_arith)
        requires
            fit == 384int / across,
            across > 0,
    ;
    assert(29 <= across * scale <= 740) by (nonlinear_arith)
        requires
            29 <= across <= 185,
            1 <= scale <= 4,
    ;
    let dots = image_dots(width);
    let row = row_length(width);
    let b = image_bytes(width, dark);
    let rows = image_rows(width, dark, dots as nat);
    lemma_rows(width, dark, dots as nat, y, x / 8);
    assert(b.take(4) =~= seq![0x1du8, 0x76u8, 0x30u8, 0u8]);
    if x < 8 * row && y < dots {
        let j = x / 8;
        assert(b[8 + y * row + j] == rows[y * row + j]);
        assert(rows[y * row + j] == image_byte(width, dark, j, y));
        lemma_dots_of_byte(width, dark, j, y);
        assert(x == 8 * j + x % 8);
        assert(is_dark(width, dark, x, y) <==> x < dots && 0 <= x / scale - 4 < width && 0 <= y
            / scale - 4 < width && dark[(y / scale - 4) * width + (x / scale - 4)]);
    }
}

// ---------------------------------------------------------------------------
// Names for Windows
// ---------------------------------------------------------------------------

/// A name for Windows is its text in UTF-16, character by character: one unit for a character of
/// the basic plane, and else two that make up its code.
pub proof fn law_names_are_in_utf16(text: Seq<char>, c: char)
    ensures
        utf16(Seq::empty()) == Seq::<u16>::empty(),
        (c as int) < 0x1_0000 ==> utf16(text.push(c)).len() == utf16(text).len() + 1,
        (c as int) < 0x1_0000 ==> utf16(text.push(c)).last() as int == c as int,
        (c as int) >= 0x1_0000 ==> {
            let w = utf16(text.push(c));
            let n = utf16(text).len() as int;
            &&& w.len() == n + 2
            &&& 0xd800 <= w[n] <= 0xdbff
            &&& 0xdc00 <= w[n + 1] <= 0xdfff
            &&& 0x1_0000 + 0x400 * (w[n] - 0xd800) + (w[n + 1] - 0xdc00) == c as int
        },
        utf16(text.push(c)).take(utf16(text).len() as int) == utf16(text),
{
    assert(text.push(c).drop_last() =~= text);
    assert(c as int <= 0x10_ffff);
    assert(utf16(text.push(c)).take(utf16(text).len() as int) =~= utf16(text));
}

/// How fast the printer is talked to, and how long it is waited for.
pub proof fn law_the_printer_is_waited_for()
    ensures
        PRINTER_BAUD == 9600,
        SERIAL_WRITE_TIMEOUT_MS == 5000,
        SERIAL_PROBE_TIMEOUT_MS == 600,
        USB_TIMEOUT_MS == 5000,
{
}

} // verus!
