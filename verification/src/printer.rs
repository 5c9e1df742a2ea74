//! The ticket printer: the jobs of a batch, and the ways to the printer.

pub mod codepage;
pub mod job;
pub mod laws;
pub mod raster;
pub mod stamp;
pub mod usb;

use vstd::prelude::*;
use vstd::string::*;

use crate::models::{ticket_views, ErrorView, KioskError, KioskResult, PrintedTicket, TicketView};
use crate::printer::job::{append_bytes, build_ticket_job, is_job_of, job_error, print_error};
use crate::text::{chars_of, hex4, hex_word};

verus! {

/// The baud rate of a printer on a serial port.
pub const PRINTER_BAUD: u32 = 9600;

/// How long a write to the serial port may take.
pub const SERIAL_WRITE_TIMEOUT_MS: u64 = 5000;

/// How long a probe of the serial port may take.
pub const SERIAL_PROBE_TIMEOUT_MS: u64 = 600;

/// Which USB device is the printer; `None` leaves the choice open.
#[derive(Debug, Clone, Copy, PartialEq, Eq, Structural)]
pub struct PrinterTarget {
    pub vendor_id: Option<u16>,
    pub product_id: Option<u16>,
}

/// The jobs of a batch, in order, up to the first ticket whose job could not be built, and the
/// error of that one.
pub struct Batch {
    pub jobs: Vec<Vec<u8>>,
    pub failure: Option<KioskError>,
}

/// The jobs of a batch of tickets. Each job is written before the next ticket is looked at, so
/// what stands before a failure is printed.
pub fn print_tickets(
    museum: &str,
    tickets: &[PrintedTicket],
    before_mm: u32,
    after_mm: u32,
    width_mm: u32,
) -> (r: Batch)
    ensures
        r.jobs@.len() <= tickets@.len(),
        forall|i: int|
            0 <= i < r.jobs@.len() ==> is_job_of(
                Ok::<Seq<u8>, ErrorView>((#[trigger] r.jobs@[i])@),
                museum@,
                tickets@[i]@,
                before_mm,
                after_mm,
                width_mm,
            ),
        match r.failure {
            None => r.jobs@.len() == tickets@.len(),
            Some(e) => r.jobs@.len() < tickets@.len() && job_error(
                tickets@[r.jobs@.len() as int]@,
            ) == Some(e@),
        },
{
    let mut jobs: Vec<Vec<u8>> = Vec::new();
    let mut i: usize = 0;
    while i < tickets.len()
        invariant
            i <= tickets@.len(),
            jobs@.len() == i,
            forall|k: int|
                0 <= k < jobs@.len() ==> is_job_of(
                    Ok::<Seq<u8>, ErrorView>((#[trigger] jobs@[k])@),
                    museum@,
                    tickets@[k]@,
                    before_mm,
                    after_mm,
                    width_mm,
                ),
        decreases tickets@.len() - i,
    {
        match build_ticket_job(
            museum,
            &tickets[i],
            before_mm,
            after_mm,
            width_mm,
        ) {
            Ok(job) => {
                jobs.push(job);
            },
            Err(e) => {
                return Batch { jobs, failure: Some(e) };
            },
        }
        i = i + 1;
    }
    Batch { jobs, failure: None }
}

/// Whether bytes are the jobs of these tickets, one behind the other.
pub open spec fn is_joined(
    bytes: Seq<u8>,
    museum: Seq<char>,
    tickets: Seq<TicketView>,
    before_mm: u32,
    after_mm: u32,
    width_mm: u32,
) -> bool
    decreases tickets.len(),
{
    if tickets.len() == 0 {
        bytes == Seq::<u8>::empty()
    } else {
        exists|n: int|
            0 <= n <= bytes.len() && is_joined(
                #[trigger] bytes.take(n),
                museum,
                tickets.drop_last(),
                before_mm,
                after_mm,
                width_mm,
            ) && is_job_of(
                Ok::<Seq<u8>, ErrorView>(bytes.skip(n)),
                museum,
                tickets.last(),
                before_mm,
                after_mm,
                width_mm,
            )
    }
}

/// Why a batch cannot be printed as one: the error of the first ticket that has one.
pub open spec fn first_job_error(tickets: Seq<TicketView>) -> Option<ErrorView>
    decreases tickets.len(),
{
    if tickets.len() == 0 {
        None
    } else {
        match first_job_error(tickets.drop_last()) {
            Some(e) => Some(e),
            None => job_error(tickets.last()),
        }
    }
}

proof fn lemma_first_job_error(tickets: Seq<TicketView>, n: int)
    requires
        0 <= n <= tickets.len(),
        first_job_error(tickets.take(n)) is Some,
    ensures
        first_job_error(tickets) == first_job_error(tickets.take(n)),
    decreases tickets.len() - n,
{
    if n == tickets.len() {
        assert(tickets.take(n) =~= tickets);
    } else {
        assert(tickets.take(n + 1).drop_last() =~= tickets.take(n));
        lemma_first_job_error(tickets, n + 1);
    }
}

/// The one job that goes to the Windows spooler for a batch of tickets; nothing is printed
/// where the job of one of them could not be built.
pub fn print_tickets_windows(
    museum: &str,
    tickets: &[PrintedTicket],
    before_mm: u32,
    after_mm: u32,
    width_mm: u32,
) -> (r: KioskResult<Vec<u8>>)
    ensures
        match r {
            Ok(bytes) => first_job_error(ticket_views(tickets@)) is None && is_joined(
                bytes@,
                museum@,
                ticket_views(tickets@),
                before_mm,
                after_mm,
                width_mm,
            ),
            Err(e) => first_job_error(ticket_views(tickets@)) == Some(e@),
        },
{
    let ghost all = ticket_views(tickets@);
    let mut bytes: Vec<u8> = Vec::new();
    let mut i: usize = 0;
    assert(all.take(0) =~= Seq::<TicketView>::empty());
    assert(bytes@ =~= Seq::<u8>::empty());
    while i < tickets.len()
        invariant
            all == ticket_views(tickets@),
            i <= tickets@.len(),
            is_joined(bytes@, museum@, all.take(i as int), before_mm, after_mm, width_mm),
            first_job_error(all.take(i as int)) is None,
        decreases tickets@.len() - i,
    {
        let ghost before = bytes@;
        proof {
            let longer = all.take(i + 1);
            assert(longer.drop_last() =~= all.take(i as int));
            assert(longer.last() == tickets@[i as int]@);
        }
        match build_ticket_job(
            museum,
            &tickets[i],
            before_mm,
            after_mm,
            width_mm,
        ) {
            Ok(job) => {
                append_bytes(&mut bytes, &job);
                proof {
                    let n = before.len() as int;
                    assert(bytes@.take(n) =~= before);
                    assert(bytes@.skip(n) =~= job@);
                }
            },
            Err(e) => {
                proof {
                    lemma_first_job_error(all, i + 1);
                }
                return Err(e);
            },
        }
        i = i + 1;
    }
    assert(all.take(i as int) =~= all);
    Ok(bytes)
}

/// Whether the spooler took a whole job.
pub fn check_spooled(accepted: bool, written: u32, length: usize) -> (r: KioskResult<()>)
    ensures
        if accepted && written >= length {
            r is Ok
        } else {
            r matches Err(e) && e@ == print_error("štampač nije primio sve podatke"@)
        },
{
    if !accepted || (written as u64) < length as u64 {
        Err(KioskError::Print("štampač nije primio sve podatke".to_string()))
    } else {
        Ok(())
    }
}

// ---------------------------------------------------------------------------
// Texts of the transports
// ---------------------------------------------------------------------------

/// The report on a USB printer that could be opened.
pub fn probe(vendor_id: u16, product_id: u16) -> (r: String)
    ensures
        r@ == "USB "@ + hex4(vendor_id, false) + ":"@ + hex4(product_id, false)
            + " (bulk OUT ok)"@,
{
    "USB ".to_string().concat(hex_word(vendor_id, false).as_str()).concat(":").concat(
        hex_word(product_id, false).as_str(),
    ).concat(" (bulk OUT ok)")
}

/// The report on a serial port: opened, or what the system said about it.
pub fn probe_serial(port: &str, failure: Option<&str>) -> (r: KioskResult<String>)
    ensures
        match failure {
            None => r matches Ok(t) && t@ == "Serijski printer na "@ + port@ + " (otvoren)"@,
            Some(d) => r matches Err(e) && e@ == print_error(
                "printer port "@ + port@ + " nedostupan: "@ + d@,
            ),
        },
{
    match failure {
        None => Ok(
            "Serijski printer na ".to_string().concat(port).concat(" (otvoren)"),
        ),
        Some(d) => Err(
            KioskError::Print(
                "printer port ".to_string().concat(port).concat(" nedostupan: ").concat(d),
            ),
        ),
    }
}

/// The error for a serial port that does not open for printing.
pub fn serial_open_error(port: &str, detail: &str) -> (e: KioskError)
    ensures
        e@ == print_error("ne mogu da otvorim printer port "@ + port@ + ": "@ + detail@),
{
    KioskError::Print(
        "ne mogu da otvorim printer port ".to_string().concat(port).concat(": ").concat(detail),
    )
}

/// The error for a serial port that does not take a job.
pub fn serial_write_error(port: &str, detail: &str) -> (e: KioskError)
    ensures
        e@ == print_error("greška pri štampi na "@ + port@ + ": "@ + detail@),
{
    KioskError::Print(
        "greška pri štampi na ".to_string().concat(port).concat(": ").concat(detail),
    )
}

/// The report on a printer of the Windows spooler.
pub fn probe_windows(printer_name: &str, opened: bool) -> (r: KioskResult<String>)
    ensures
        if opened {
            r matches Ok(t) && t@ == "Windows štampač '"@ + printer_name@ + "' (spooler ok)"@
        } else {
            r matches Err(e) && e@ == print_error(
                "Windows štampač '"@ + printer_name@ + "' nije dostupan"@,
            )
        },
{
    if opened {
        Ok(
            "Windows štampač '".to_string().concat(printer_name).concat("' (spooler ok)"),
        )
    } else {
        Err(
            KioskError::Print(
                "Windows štampač '".to_string().concat(printer_name).concat("' nije dostupan"),
            ),
        )
    }
}

/// The error for a printer of the Windows spooler that does not open for printing.
pub fn windows_open_error(printer_name: &str) -> (e: KioskError)
    ensures
        e@ == print_error(
            "ne mogu da otvorim Windows štampač '"@ + printer_name@
                + "' (proveri ime i da li je funkcionalan)"@,
        ),
{
    KioskError::Print(
        "ne mogu da otvorim Windows štampač '".to_string().concat(printer_name).concat(
            "' (proveri ime i da li je funkcionalan)",
        ),
    )
}

/// The error for any system other than Windows.
pub fn windows_only() -> (e: KioskError)
    ensures
        e@ == print_error("Windows štampa je dostupna samo na Windows-u"@),
{
    KioskError::Print("Windows štampa je dostupna samo na Windows-u".to_string())
}

/// A character in UTF-16.
pub open spec fn utf16_units(c: char) -> Seq<u16> {
    let u = c as int;
    if u < 0x1_0000 {
        seq![u as u16]
    } else {
        seq![
            (0xd800 + (u - 0x1_0000) / 0x400) as u16,
            (0xdc00 + (u - 0x1_0000) % 0x400) as u16,
        ]
    }
}

/// A text in UTF-16.
pub open spec fn utf16(text: Seq<char>) -> Seq<u16>
    decreases text.len(),
{
    if text.len() == 0 {
        Seq::empty()
    } else {
        utf16(text.drop_last()) + utf16_units(text.last())
    }
}

/// A text in UTF-16 with a zero behind it, as Windows takes it.
pub fn wide(text: &str) -> (r: Vec<u16>)
    ensures
        r@ == utf16(text@).push(0),
{
    let chars = chars_of(text);
    let mut out: Vec<u16> = Vec::new();
    let mut i: usize = 0;
    assert(chars@.take(0) =~= Seq::<char>::empty());
    while i < chars.len()
        invariant
            chars@ == text@,
            i <= chars@.len(),
            out@ == utf16(chars@.take(i as int)),
        decreases chars@.len() - i,
    {
        let ghost longer = chars@.take(i + 1);
        let ghost before = out@;
        assert(longer.drop_last() =~= chars@.take(i as int));
        assert(longer.last() == chars@[i as int]);
        let c: char = chars[i];
        let u: u32 = code_point(c);
        if u < 0x1_0000 {
            out.push(u as u16);
        } else {
            out.push((0xd800 + (u - 0x1_0000) / 0x400) as u16);
            out.push((0xdc00 + (u - 0x1_0000) % 0x400) as u16);
        }
        assert(out@ =~= before + utf16_units(c));
        i = i + 1;
    }
    assert(chars@.take(i as int) =~= chars@);
    out.push(0);
    out
}

fn code_point(c: char) -> (r: u32)
    ensures
        r == c as int,
        r <= 0x10_ffff,
{
    c as u32
}

} // verus!
