//! The print job of a ticket, in ESC/POS.

use vstd::prelude::*;
use vstd::string::*;
use vstd::utf8::encode_utf8;

use crate::models::{ErrorView, KioskError, KioskResult, PrintedTicket, TicketView};
use crate::printer::codepage::{cp852_bytes, text_to_cp852};
use crate::printer::stamp::{issue_stamp, is_local_stamp, stamp_range};
use crate::text::{
    bytes_of, chars_of, decimal, decimal_i64, decimal_u64, string_of,
};

verus! {

/// Appends some bytes.
pub(crate) fn append_bytes(output: &mut Vec<u8>, bytes: &[u8])
    ensures
        final(output)@ == old(output)@ + bytes@,
{
    output.extend_from_slice(bytes);
    assert(output@ =~= old(output)@ + bytes@);
}

// ---------------------------------------------------------------------------
// Feeding
// ---------------------------------------------------------------------------

/// A feed of so many dots, at most 255 at a time.
pub open spec fn feed_bytes(dots: nat) -> Seq<u8>
    decreases dots,
{
    if dots == 0 {
        Seq::empty()
    } else if dots <= 255 {
        seq![0x1bu8, 0x4au8, dots as u8]
    } else {
        seq![0x1bu8, 0x4au8, 255u8] + feed_bytes((dots - 255) as nat)
    }
}

/// Eight dots to the millimetre, as many as can be counted.
pub open spec fn dots_for(mm: u32) -> nat {
    if mm * 8 <= u32::MAX {
        (mm * 8) as nat
    } else {
        u32::MAX as nat
    }
}

/// Appends a feed of `mm` millimetres of blank paper.
pub fn append_feed(job: &mut Vec<u8>, mm: u32)
    ensures
        final(job)@ == old(job)@ + feed_bytes(dots_for(mm)),
{
    let all: u32 = if mm <= u32::MAX / 8 {
        mm * 8
    } else {
        u32::MAX
    };
    let mut dots: u32 = all;
    assert(job@ + feed_bytes(dots as nat) == old(job)@ + feed_bytes(dots_for(mm)));
    while dots > 0
        invariant
            job@ + feed_bytes(dots as nat) == old(job)@ + feed_bytes(dots_for(mm)),
        decreases dots,
    {
        let chunk: u8 = if dots > 255 {
            255
        } else {
            dots as u8
        };
        let ghost before = job@;
        job.push(0x1b);
        job.push(0x4a);
        job.push(chunk);
        proof {
            let rest = feed_bytes((dots - chunk) as nat);
            assert(feed_bytes(dots as nat) =~= seq![0x1bu8, 0x4au8, chunk] + rest);
            assert(job@ + rest =~= before + feed_bytes(dots as nat));
        }
        dots = dots - chunk as u32;
    }
    assert(job@ + feed_bytes(0) =~= job@);
}

/// The dots that a feed moves the paper by.
pub open spec fn dots_moved(feed: Seq<u8>) -> int
    decreases feed.len(),
{
    if feed.len() < 3 {
        0
    } else {
        feed[2] + dots_moved(feed.skip(3))
    }
}

/// A feed moves the paper by as many dots as were asked for.
pub proof fn law_feed_moves_the_paper(dots: nat)
    ensures
        dots_moved(feed_bytes(dots)) == dots,
    decreases dots,
{
    let f = feed_bytes(dots);
    if dots > 255 {
        let rest = feed_bytes((dots - 255) as nat);
        law_feed_moves_the_paper((dots - 255) as nat);
        assert(f[2] == 255);
        assert(f.skip(3) =~= rest);
    } else if dots > 0 {
        assert(f[2] == dots);
        assert(f.skip(3) =~= Seq::<u8>::empty());
        assert(dots_moved(Seq::<u8>::empty()) == 0);
    }
}

// ---------------------------------------------------------------------------
// Text and QR code
// ---------------------------------------------------------------------------

/// A printed line.
pub open spec fn line_bytes(text: Seq<char>) -> Seq<u8> {
    cp852_bytes(text).push(0x0a)
}

/// Appends a line.
pub fn append_text_line(output: &mut Vec<u8>, text: &str)
    ensures
        final(output)@ == old(output)@ + line_bytes(text@),
{
    append_bytes(output, &text_to_cp852(text));
    output.push(0x0a);
    assert(output@ =~= old(output)@ + line_bytes(text@));
}

pub open spec fn print_error(message: Seq<char>) -> ErrorView {
    ErrorView::Print(message)
}

/// A command of the printer's QR code functions: its length, then its parameters. The length
/// has to fit into two bytes.
pub open spec fn gs_k_bytes(cn: u8, function: u8, params: Seq<u8>) -> Result<
    Seq<u8>,
    ErrorView,
> {
    let n = params.len() + 2;
    if n > usize::MAX {
        Err(print_error("ESC/POS GS ( k payload length overflow"@))
    } else if n > u16::MAX {
        Err(
            print_error(
                "ESC/POS GS ( k payload is too large: "@ + decimal(n as int) + " bytes"@,
            ),
        )
    } else {
        Ok(
            seq![0x1du8, 0x28u8, 0x6bu8, (n % 256) as u8, (n / 256) as u8, cn, function] + params,
        )
    }
}

/// Appends a command of the printer's QR code functions; nothing where it does not fit.
pub fn append_gs_k(output: &mut Vec<u8>, cn: u8, function: u8, params: &[u8]) -> (r: KioskResult<
    (),
>)
    ensures
        match gs_k_bytes(cn, function, params@) {
            Ok(b) => r is Ok && final(output)@ == old(output)@ + b,
            Err(t) => {
                &&& r matches Err(e)
                &&& e@ == t
                &&& final(output)@ == old(output)@
            },
        },
{
    let n: usize = match params.len().checked_add(2) {
        Some(n) => n,
        None => return Err(
            KioskError::Print("ESC/POS GS ( k payload length overflow".to_string()),
        ),
    };
    if n > 0xffff {
        return Err(
            KioskError::Print(
                "ESC/POS GS ( k payload is too large: ".to_string().concat(
                    decimal_u64(n as u64).as_str(),
                ).concat(" bytes"),
            ),
        );
    }
    output.push(0x1d);
    output.push(0x28);
    output.push(0x6b);
    output.push((n % 256) as u8);
    output.push((n / 256) as u8);
    output.push(cn);
    output.push(function);
    output.extend_from_slice(params);
    assert(output@ =~= old(output)@ + gs_k_bytes(cn, function, params@)->Ok_0);
    Ok(())
}

/// The commands before the data of a QR code: model 2, modules of six dots, error correction of
/// level M.
pub open spec fn qr_setup() -> Seq<u8> {
    seq![
        0x1du8, 0x28u8, 0x6bu8, 4u8, 0u8, 0x31u8, 0x41u8, 0x32u8, 0x00u8,
        0x1du8, 0x28u8, 0x6bu8, 3u8, 0u8, 0x31u8, 0x43u8, 0x06u8,
        0x1du8, 0x28u8, 0x6bu8, 3u8, 0u8, 0x31u8, 0x45u8, 0x31u8,
    ]
}

/// The command that prints the stored QR code.
pub open spec fn qr_print() -> Seq<u8> {
    seq![0x1du8, 0x28u8, 0x6bu8, 3u8, 0u8, 0x31u8, 0x51u8, 0x30u8]
}

/// The commands that print data as a QR code, or what stands against it.
pub open spec fn qr_bytes(data: Seq<u8>) -> Result<Seq<u8>, ErrorView> {
    if data.len() + 1 > usize::MAX {
        Err(print_error("QR token is too large for an ESC/POS QR frame"@))
    } else {
        match gs_k_bytes(0x31, 0x50, seq![0x30u8] + data) {
            Ok(store) => Ok(qr_setup() + store + qr_print()),
            Err(e) => Err(e),
        }
    }
}

fn one(a: u8) -> (r: Vec<u8>)
    ensures
        r@ == seq![a],
{
    let mut v: Vec<u8> = Vec::new();
    v.push(a);
    assert(v@ =~= seq![a]);
    v
}

/// Appends the commands that print data as a QR code. Where the data does not fit, the commands
/// before it stand there.
pub fn append_native_qr(output: &mut Vec<u8>, data: &[u8]) -> (r: KioskResult<()>)
    ensures
        match qr_bytes(data@) {
            Ok(b) => r is Ok && final(output)@ == old(output)@ + b,
            Err(t) => {
                &&& r matches Err(e)
                &&& e@ == t
                &&& final(output)@ == old(output)@ + qr_setup()
            },
        },
{
    let ghost start = output@;
    let mut model = one(0x32);
    model.push(0x00);
    assert(model@ =~= seq![0x32u8, 0x00u8]);
    match append_gs_k(output, 0x31, 0x41, &model) {
        Ok(_) => {},
        Err(e) => return Err(e),
    }
    match append_gs_k(output, 0x31, 0x43, &one(0x06)) {
        Ok(_) => {},
        Err(e) => return Err(e),
    }
    match append_gs_k(output, 0x31, 0x45, &one(0x31)) {
        Ok(_) => {},
        Err(e) => return Err(e),
    }
    assert(output@ =~= start + qr_setup());
    if data.len() == usize::MAX {
        return Err(
            KioskError::Print("QR token is too large for an ESC/POS QR frame".to_string()),
        );
    }
    let mut store = one(0x30);
    append_bytes(&mut store, data);
    assert(store@ =~= seq![0x30u8] + data@);
    match append_gs_k(output, 0x31, 0x50, &store) {
        Ok(_) => {},
        Err(e) => return Err(e),
    }
    let ghost before = output@;
    match append_gs_k(output, 0x31, 0x51, &one(0x30)) {
        Ok(_) => {},
        Err(e) => return Err(e),
    }
    assert(output@ =~= before + qr_print());
    assert(output@ =~= start + qr_bytes(data@)->Ok_0);
    Ok(())
}

// ---------------------------------------------------------------------------
// The job
// ---------------------------------------------------------------------------

/// `str::to_uppercase`.
pub uninterp spec fn uppercased(text: Seq<char>) -> Seq<char>;

/// An ASCII letter in upper case; any other character as it is.
pub open spec fn ascii_upper(c: char) -> char {
    if 'a' <= c <= 'z' {
        (c as u8 - 32) as char
    } else {
        c
    }
}

/// `str::to_uppercase`: of an ASCII text, letter by letter. What it makes of other letters is
/// named, not stated.
#[verifier::external_body]
fn to_upper(text: &String) -> (r: String)
    ensures
        r@ == uppercased(text@),
        (forall|i: int| 0 <= i < text@.len() ==> (#[trigger] text@[i] as int) < 128) ==> r@
            == text@.map_values(|c: char| ascii_upper(c)),
{
    text.to_uppercase()
}

/// The end of an id by which a ticket is called: its last eight characters.
pub open spec fn short_code(id: Seq<char>) -> Seq<char> {
    if id.len() > 8 {
        id.skip(id.len() - 8)
    } else {
        id
    }
}

fn short_code_of(id: &str) -> (r: String)
    ensures
        r@ == short_code(id@),
{
    let chars = chars_of(id);
    let n = chars.len();
    let from: usize = if n > 8 {
        n - 8
    } else {
        0
    };
    let r = string_of(&chars, from, n);
    assert(r@ =~= short_code(id@));
    r
}

/// The code that stands on a ticket: the end of its id in upper case.
pub open spec fn printed_code(id: Seq<char>) -> Seq<char> {
    let code = short_code(id);
    if forall|i: int| 0 <= i < code.len() ==> (#[trigger] code[i] as int) < 128 {
        code.map_values(|c: char| ascii_upper(c))
    } else {
        uppercased(code)
    }
}

/// The job up to the QR code: reset, code page, width of the paper, the museum in large bold
/// letters, and the lines of the ticket.
pub open spec fn job_head(
    museum: Seq<char>,
    t: TicketView,
    stamp: Seq<char>,
    code: Seq<char>,
    width_mm: u32,
) -> Seq<u8> {
    seq![0x1bu8, 0x40u8, 0x1bu8, 0x74u8, 0x12u8, 0x1du8, 0x57u8] + (if width_mm <= 58 {
        seq![0x80u8, 0x01u8]
    } else {
        seq![0x40u8, 0x02u8]
    }) + seq![0x1bu8, 0x61u8, 0x01u8, 0x1du8, 0x21u8, 0x11u8, 0x1bu8, 0x45u8, 0x01u8] + line_bytes(
        museum,
    ) + seq![0x1du8, 0x21u8, 0x00u8, 0x1bu8, 0x45u8, 0x00u8] + line_bytes(t.label) + line_bytes(
        decimal(t.price_rsd as int) + " RSD"@,
    ) + line_bytes(stamp) + line_bytes("#"@ + code) + seq![0x0au8]
}

/// The job behind the QR code: feed, partial cut, feed.
pub open spec fn job_tail(before_mm: u32, after_mm: u32) -> Seq<u8> {
    feed_bytes(dots_for(before_mm)) + seq![0x1du8, 0x56u8, 0x01u8] + feed_bytes(
        dots_for(after_mm),
    )
}

/// The job of a ticket, given the text of its time of issue and its code in upper case.
pub open spec fn job_bytes(
    museum: Seq<char>,
    t: TicketView,
    stamp: Seq<char>,
    code: Seq<char>,
    before_mm: u32,
    after_mm: u32,
    width_mm: u32,
) -> Result<Seq<u8>, ErrorView> {
    match qr_bytes(encode_utf8(t.qr_token)) {
        Err(e) => Err(e),
        Ok(qr) => Ok(
            job_head(museum, t, stamp, code, width_mm) + qr + job_tail(before_mm, after_mm),
        ),
    }
}

fn two(a: u8, b: u8) -> (r: Vec<u8>)
    ensures
        r@ == seq![a, b],
{
    let mut v = one(a);
    v.push(b);
    assert(v@ =~= seq![a, b]);
    v
}

fn three(a: u8, b: u8, c: u8) -> (r: Vec<u8>)
    ensures
        r@ == seq![a, b, c],
{
    let mut v = two(a, b);
    v.push(c);
    assert(v@ =~= seq![a, b, c]);
    v
}

fn head_of_job(museum: &str, ticket: &PrintedTicket, stamp: &str, code: &str, width_mm: u32) -> (r:
    Vec<u8>)
    ensures
        r@ == job_head(museum@, ticket@, stamp@, code@, width_mm),
{
    let mut job = two(0x1b, 0x40);
    append_bytes(&mut job, &three(0x1b, 0x74, 0x12));
    append_bytes(&mut job, &two(0x1d, 0x57));
    assert(job@ =~= seq![0x1bu8, 0x40u8, 0x1bu8, 0x74u8, 0x12u8, 0x1du8, 0x57u8]);
    if width_mm <= 58 {
        append_bytes(&mut job, &two(0x80, 0x01));
    } else {
        append_bytes(&mut job, &two(0x40, 0x02));
    }
    let mut style = three(0x1b, 0x61, 0x01);
    append_bytes(&mut style, &three(0x1d, 0x21, 0x11));
    append_bytes(&mut style, &three(0x1b, 0x45, 0x01));
    assert(style@ =~= seq![0x1bu8, 0x61u8, 0x01u8, 0x1du8, 0x21u8, 0x11u8, 0x1bu8, 0x45u8, 0x01u8]);
    append_bytes(&mut job, &style);
    append_text_line(&mut job, museum);
    let mut plain = three(0x1d, 0x21, 0x00);
    append_bytes(&mut plain, &three(0x1b, 0x45, 0x00));
    assert(plain@ =~= seq![0x1du8, 0x21u8, 0x00u8, 0x1bu8, 0x45u8, 0x00u8]);
    append_bytes(&mut job, &plain);
    append_text_line(&mut job, ticket.label.as_str());
    append_text_line(&mut job, decimal_i64(ticket.price_rsd).concat(" RSD").as_str());
    append_text_line(&mut job, stamp);
    append_text_line(&mut job, "#".to_string().concat(code).as_str());
    append_bytes(&mut job, &one(0x0a));
    job
}

/// The job of a ticket, given the text of its time of issue and its code in upper case.
pub fn ticket_job(
    museum: &str,
    ticket: &PrintedTicket,
    stamp: &str,
    code: &str,
    before_mm: u32,
    after_mm: u32,
    width_mm: u32,
) -> (r: KioskResult<Vec<u8>>)
    ensures
        match job_bytes(museum@, ticket@, stamp@, code@, before_mm, after_mm, width_mm) {
            Ok(b) => r matches Ok(v) && v@ == b,
            Err(t) => r matches Err(e) && e@ == t,
        },
{
    let mut job = head_of_job(museum, ticket, stamp, code, width_mm);
    let ghost head = job@;
    match append_native_qr(&mut job, &bytes_of(ticket.qr_token.as_str())) {
        Ok(_) => {},
        Err(e) => return Err(e),
    }
    append_feed(&mut job, before_mm);
    append_bytes(&mut job, &three(0x1d, 0x56, 0x01));
    append_feed(&mut job, after_mm);
    proof {
        let qr = qr_bytes(encode_utf8(ticket.qr_token@))->Ok_0;
        assert(job@ =~= head + qr + job_tail(before_mm, after_mm));
    }
    Ok(job)
}

/// Why a ticket cannot be printed, if it cannot: its time of issue has no date, or its token
/// does not fit into a QR code command.
pub open spec fn job_error(t: TicketView) -> Option<ErrorView> {
    if !stamp_range(t.issued_at as int) {
        Some(
            print_error(
                "ticket "@ + t.id + " has invalid issued_at timestamp "@ + decimal(
                    t.issued_at as int,
                ),
            ),
        )
    } else {
        match qr_bytes(encode_utf8(t.qr_token)) {
            Err(e) => Some(e),
            Ok(_) => None,
        }
    }
}

/// Whether these are the bytes, or this the error, for a ticket: with the time of issue as
/// local time, and the code in upper case.
pub open spec fn is_job_of(
    r: Result<Seq<u8>, ErrorView>,
    museum: Seq<char>,
    t: TicketView,
    before_mm: u32,
    after_mm: u32,
    width_mm: u32,
) -> bool {
    match job_error(t) {
        Some(e) => r == Err::<Seq<u8>, ErrorView>(e),
        None => exists|stamp: Seq<char>|
            is_local_stamp(stamp, t.issued_at as int) && r == #[trigger] job_bytes(
                museum,
                t,
                stamp,
                printed_code(t.id),
                before_mm,
                after_mm,
                width_mm,
            ),
    }
}

/// The views of a job that was built, or not.
pub open spec fn job_view(r: KioskResult<Vec<u8>>) -> Result<Seq<u8>, ErrorView> {
    match r {
        Ok(v) => Ok(v@),
        Err(e) => Err(e@),
    }
}

/// The job of a ticket. Its time of issue is printed in the time zone of the machine.
pub fn build_ticket_job(
    museum: &str,
    ticket: &PrintedTicket,
    before_mm: u32,
    after_mm: u32,
    width_mm: u32,
) -> (r: KioskResult<Vec<u8>>)
    ensures
        is_job_of(job_view(r), museum@, ticket@, before_mm, after_mm, width_mm),
{
    let stamp = match issue_stamp(ticket.issued_at) {
        Some(s) => s,
        None => return Err(
            KioskError::Print(
                "ticket ".to_string().concat(ticket.id.as_str()).concat(
                    " has invalid issued_at timestamp ",
                ).concat(decimal_i64(ticket.issued_at).as_str()),
            ),
        ),
    };
    let code = to_upper(&short_code_of(ticket.id.as_str()));
    assert(code@ == printed_code(ticket.id@));
    ticket_job(museum, ticket, stamp.as_str(), code.as_str(), before_mm, after_mm, width_mm)
}

} // verus!
