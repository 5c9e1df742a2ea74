use kiosk_naplata::models::PrintedTicket;
use kiosk_naplata::printer::codepage::{append_ascii_fallback, text_to_cp852};
use kiosk_naplata::printer::job::{
    append_feed, append_gs_k, append_native_qr, append_text_line, build_ticket_job, ticket_job,
};
use kiosk_naplata::printer::raster::{append_grid, append_raster_qr};
use kiosk_naplata::printer::usb::{
    bulk_chunks, check_written, inspect_endpoints, open_error, open_steps, select_device,
    write_error, Configuration, Endpoint, EndpointSelection, InterfaceSetting, OpenStep, UsbDevice,
    USB_WRITE_CHUNK_SIZE,
};
use kiosk_naplata::printer::{
    check_spooled, print_tickets, print_tickets_windows, probe, probe_serial, probe_windows,
    serial_open_error, serial_write_error, wide, windows_only, windows_open_error, PrinterTarget,
};

fn ticket(id: &str, issued_at: i64, qr_token: &str) -> PrintedTicket {
    PrintedTicket {
        id: id.to_string(),
        type_code: "deca".to_string(),
        label: "Deca".to_string(),
        price_rsd: 200,
        issued_at,
        qr_token: qr_token.to_string(),
    }
}

#[test]
fn text_in_the_code_page() {
    assert_eq!(text_to_cp852("Karta 1"), b"Karta 1".to_vec());
    assert_eq!(text_to_cp852("čćžšđ"), vec![0x9f, 0x86, 0xa7, 0xe7, 0xd0]);
    assert_eq!(text_to_cp852("ČĆŽŠĐ"), vec![0xac, 0x8f, 0xa6, 0xe6, 0xd1]);
    assert_eq!(text_to_cp852("řŘ"), vec![0xfd, 0xfc]);
    assert_eq!(text_to_cp852("Ţţ"), vec![0xdd, 0xee]);
    assert_eq!(text_to_cp852("Æœ—“ ”\u{a0}"), b"AEoe-\" \" ".to_vec());
    assert_eq!(text_to_cp852("Љ\u{1f600}"), b"??".to_vec());
    let mut out = vec![1];
    append_ascii_fallback(&mut out, 'þ');
    append_ascii_fallback(&mut out, 'ñ');
    assert_eq!(out, vec![1, b't', b'h', b'n']);
}

#[test]
fn feeds_are_split() {
    let feed = |mm| {
        let mut job = Vec::new();
        append_feed(&mut job, mm);
        job
    };
    assert!(feed(0).is_empty());
    assert_eq!(feed(1), vec![0x1b, 0x4a, 8]);
    assert_eq!(feed(48), vec![0x1b, 0x4a, 255, 0x1b, 0x4a, 129]);
    let long = feed(200);
    assert_eq!(long.chunks(3).map(|c| c[2] as u32).sum::<u32>(), 1600);
}

#[test]
fn lines_end_with_a_line_feed() {
    let mut out = Vec::new();
    append_text_line(&mut out, "ž");
    assert_eq!(out, vec![0xa7, 0x0a]);
}

#[test]
fn every_letter_of_latin_2_is_printed() {
    let upper = "ĄŁĽŚŠŞŤŹŽŻŔÁÂĂÄĹĆÇČÉĘËĚÍÎĎĐŃŇÓÔŐÖŘŮÚŰÜÝŢ";
    let lower = "ąłľśšşťźžżßŕáâăäĺćçčéęëěíîďđńňóôőöřůúűüýţ";
    for letter in upper.chars().chain(lower.chars()) {
        let bytes = text_to_cp852(&letter.to_string());
        assert_eq!(bytes.len(), 1, "{}", letter);
        assert_ne!(bytes, b"?".to_vec(), "{}", letter);
    }
    assert_eq!(text_to_cp852("Ů"), b"U".to_vec());
}

#[test]
fn texts_are_printed_one_by_one() {
    let texts = ["", "Karta", "čšŽ", "Æþœ", "Љ\u{1f600}", "–“\u{a0}"];
    for a in texts {
        let bytes = text_to_cp852(a);
        assert!(a.chars().count() <= bytes.len());
        assert!(bytes.len() <= a.len());
        for b in texts {
            let joined = text_to_cp852(&format!("{}{}", a, b));
            assert_eq!(joined, [text_to_cp852(a), text_to_cp852(b)].concat());
        }
    }
}

#[test]
fn commands_of_the_qr_code() {
    let mut out = Vec::new();
    append_gs_k(&mut out, 0x31, 0x41, &vec![0x32, 0x00]).unwrap();
    assert_eq!(out, vec![0x1d, 0x28, 0x6b, 4, 0, 0x31, 0x41, 0x32, 0x00]);
    let mut out = Vec::new();
    append_gs_k(&mut out, 1, 2, &vec![7; 300]).unwrap();
    assert_eq!(out[..7], [0x1d, 0x28, 0x6b, 46, 1, 1, 2]);
    assert_eq!(out.len(), 307);
    let e = append_gs_k(&mut out, 1, 2, &vec![0; 65534]).unwrap_err();
    assert_eq!(e.message(), "stampa: ESC/POS GS ( k payload is too large: 65536 bytes");
    assert_eq!(out.len(), 307);
    let mut out = Vec::new();
    append_native_qr(&mut out, &b"AB".to_vec()).unwrap();
    assert_eq!(
        out,
        vec![
            0x1d, 0x28, 0x6b, 4, 0, 0x31, 0x41, 0x32, 0x00, 0x1d, 0x28, 0x6b, 3, 0, 0x31, 0x43,
            0x06, 0x1d, 0x28, 0x6b, 3, 0, 0x31, 0x45, 0x31, 0x1d, 0x28, 0x6b, 5, 0, 0x31, 0x50,
            0x30, 0x41, 0x42, 0x1d, 0x28, 0x6b, 3, 0, 0x31, 0x51, 0x30
        ]
    );
    let mut out = Vec::new();
    append_native_qr(&mut out, &b"A".to_vec()).unwrap();
    assert_eq!(
        out,
        vec![
            0x1d, 0x28, 0x6b, 4, 0, 0x31, 0x41, 0x32, 0, 0x1d, 0x28, 0x6b, 3, 0, 0x31, 0x43, 6,
            0x1d, 0x28, 0x6b, 3, 0, 0x31, 0x45, 0x31, 0x1d, 0x28, 0x6b, 4, 0, 0x31, 0x50, 0x30,
            0x41, 0x1d, 0x28, 0x6b, 3, 0, 0x31, 0x51, 0x30
        ]
    );
    let mut out = Vec::new();
    assert!(append_native_qr(&mut out, &vec![0; 65533]).is_err());
    assert_eq!(out.len(), 25);
}

#[test]
fn the_job_of_a_ticket() {
    let t = ticket("0123456789abcdef", 0, "T");
    let job = ticket_job("Muzej", &t, "01.01.1970 00:00", "89ABCDEF", 1, 2, 58).unwrap();
    let mut expected = vec![0x1b, 0x40, 0x1b, 0x74, 0x12, 0x1d, 0x57, 0x80, 0x01];
    expected.extend_from_slice(&[0x1b, 0x61, 0x01, 0x1d, 0x21, 0x11, 0x1b, 0x45, 0x01]);
    expected.extend_from_slice(b"Muzej\n");
    expected.extend_from_slice(&[0x1d, 0x21, 0x00, 0x1b, 0x45, 0x00]);
    expected.extend_from_slice(b"Deca\n200 RSD\n01.01.1970 00:00\n#89ABCDEF\n\n");
    append_native_qr(&mut expected, &b"T".to_vec()).unwrap();
    expected.extend_from_slice(&[0x1b, 0x4a, 8, 0x1d, 0x56, 0x01, 0x1b, 0x4a, 16]);
    assert_eq!(job, expected);
    let wider = ticket_job("Muzej", &t, "x", "y", 1, 2, 59).unwrap();
    assert_eq!(wider[7..9], [0x40, 0x02]);
}

fn lines_of(job: &[u8]) -> Vec<String> {
    job.split(|b| *b == b'\n').map(|l| String::from_utf8_lossy(l).into_owned()).collect()
}

#[test]
fn the_time_of_issue_and_the_code_are_printed() {
    let t = ticket("aaaa-0123efgh", 1_700_000_000, "T");
    let job = build_ticket_job("Muzej", &t, 0, 0, 80).unwrap();
    let lines = lines_of(&job);
    assert_eq!(lines[4], "#0123EFGH");
    let stamp = lines[3].clone();
    assert_eq!(stamp.len(), 16);
    let near = ["13.11.2023 ", "14.11.2023 ", "15.11.2023 "];
    assert!(near.iter().any(|d| stamp.starts_with(d)), "{}", stamp);
    assert_eq!(&stamp[13..14], ":");
    let short = build_ticket_job("Muzej", &ticket("ab", 0, "T"), 0, 0, 80).unwrap();
    assert_eq!(lines_of(&short)[4], "#AB");
}

#[test]
fn times_of_issue_out_of_range() {
    assert!(build_ticket_job("M", &ticket("a", -8_334_601_228_800, "T"), 0, 0, 80).is_ok());
    assert!(build_ticket_job("M", &ticket("a", 8_210_266_876_799, "T"), 0, 0, 80).is_ok());
    for at in [-8_334_601_228_801, 8_210_266_876_800, i64::MAX, i64::MIN] {
        assert_eq!(
            build_ticket_job("M", &ticket("a", at, "T"), 0, 0, 80).unwrap_err().message(),
            format!("stampa: ticket a has invalid issued_at timestamp {}", at)
        );
    }
}

#[test]
fn batches_of_jobs() {
    let good = ticket("a", 5, "T");
    let bad = ticket("b", i64::MAX, "T");
    let batch = print_tickets("M", &vec![good.clone(), good.clone()], 1, 1, 80);
    assert_eq!(batch.jobs.len(), 2);
    assert!(batch.failure.is_none());
    let joined = print_tickets_windows("M", &vec![good.clone(), good.clone()], 1, 1, 80).unwrap();
    assert_eq!(joined, batch.jobs.concat());
    let batch = print_tickets("M", &vec![good.clone(), bad.clone(), good.clone()], 1, 1, 80);
    assert_eq!(batch.jobs.len(), 1);
    assert!(batch.failure.is_some());
    assert!(print_tickets_windows("M", &vec![good, bad], 1, 1, 80).is_err());
    assert!(print_tickets_windows("M", &Vec::new(), 1, 1, 80).unwrap().is_empty());
    assert!(check_spooled(true, 5, 5).is_ok());
    let text = "stampa: štampač nije primio sve podatke";
    assert_eq!(check_spooled(true, 4, 5).unwrap_err().message(), text);
    assert_eq!(check_spooled(false, 5, 5).unwrap_err().message(), text);
}

#[test]
fn a_grid_as_an_image() {
    let mut dark = vec![false; 21 * 21];
    dark[0] = true;
    dark[22] = true;
    let mut out = Vec::new();
    append_grid(&mut out, 21, &dark);
    assert_eq!(out[..8], [0x1d, 0x76, 0x30, 0x00, 15, 0, 116, 0]);
    let rows: Vec<&[u8]> = out[8..].chunks(15).collect();
    assert_eq!(rows.len(), 116);
    assert!(rows[15].iter().all(|b| *b == 0));
    for y in 16..20 {
        assert_eq!(rows[y][..4], [0, 0, 0xf0, 0]);
    }
    for y in 20..24 {
        assert_eq!(rows[y][..4], [0, 0, 0x0f, 0]);
    }
    assert!(rows[24].iter().all(|b| *b == 0));
}

#[test]
fn data_as_an_image() {
    let mut out = vec![9];
    append_raster_qr(&mut out, &b"MMM|v1".to_vec()).unwrap();
    let code = qrcode::QrCode::new(b"MMM|v1").unwrap();
    let dark: Vec<bool> =
        code.to_colors().into_iter().map(|c| c == qrcode::Color::Dark).collect();
    let mut expected = vec![9];
    append_grid(&mut expected, code.width(), &dark);
    assert_eq!(out, expected);
    assert_eq!(
        append_raster_qr(&mut out, &vec![0xff; 3000]).unwrap_err().message(),
        "stampa: cannot encode QR token: data too long"
    );
    assert_eq!(out, expected);
}

#[test]
fn texts_of_the_transports() {
    assert_eq!(probe(0x1504, 0x61), "USB 1504:0061 (bulk OUT ok)");
    assert_eq!(probe_serial("COM5", None).unwrap(), "Serijski printer na COM5 (otvoren)");
    assert_eq!(
        probe_serial("COM5", Some("x")).unwrap_err().message(),
        "stampa: printer port COM5 nedostupan: x"
    );
    assert_eq!(
        serial_open_error("COM5", "x").message(),
        "stampa: ne mogu da otvorim printer port COM5: x"
    );
    assert_eq!(
        serial_write_error("COM5", "x").message(),
        "stampa: greška pri štampi na COM5: x"
    );
    assert_eq!(probe_windows("B", true).unwrap(), "Windows štampač 'B' (spooler ok)");
    assert_eq!(
        probe_windows("B", false).unwrap_err().message(),
        "stampa: Windows štampač 'B' nije dostupan"
    );
    assert_eq!(
        windows_open_error("B").message(),
        "stampa: ne mogu da otvorim Windows štampač 'B' (proveri ime i da li je funkcionalan)"
    );
    assert_eq!(
        windows_only().message(),
        "stampa: Windows štampa je dostupna samo na Windows-u"
    );
    let text = "B č \u{10348}\u{10ffff}";
    let mut expected: Vec<u16> = text.encode_utf16().collect();
    expected.push(0);
    assert_eq!(wide(text), expected);
}

fn bulk(address: u8) -> Endpoint {
    Endpoint { address, bulk: true, out: true }
}

fn setting(interface: u8, class: u8, endpoints: Vec<Endpoint>) -> InterfaceSetting {
    InterfaceSetting { interface, setting: 0, class, endpoints }
}

fn device(vendor_id: u16, configurations: Vec<Configuration>) -> UsbDevice {
    UsbDevice::Read { vendor_id, product_id: 1, configurations }
}

fn read(settings: Vec<InterfaceSetting>) -> Configuration {
    Configuration::Read { number: 1, settings }
}

fn any() -> PrinterTarget {
    PrinterTarget { vendor_id: None, product_id: None }
}

fn exact(vendor_id: u16) -> PrinterTarget {
    PrinterTarget { vendor_id: Some(vendor_id), product_id: Some(1) }
}

#[test]
fn endpoints_of_a_device() {
    let input = Endpoint { address: 0x81, bulk: true, out: false };
    let interrupt = Endpoint { address: 0x03, bulk: false, out: true };
    let o = inspect_endpoints(
        1,
        1,
        &vec![read(vec![
            setting(0, 3, vec![input, interrupt]),
            setting(1, 8, vec![input, bulk(0x02)]),
            setting(2, 7, vec![bulk(0x04)]),
            setting(3, 7, vec![bulk(0x05)]),
        ])],
        false,
    )
    .unwrap();
    assert_eq!(o.bulk_out.unwrap().endpoint, 0x02);
    assert_eq!(o.printer.unwrap().endpoint, 0x04);
    let o = inspect_endpoints(
        1,
        1,
        &vec![read(vec![setting(2, 7, vec![bulk(0x04)]), setting(3, 7, vec![bulk(0x05)])])],
        false,
    )
    .unwrap();
    assert_eq!(o.bulk_out.unwrap().endpoint, 0x05);
    let broken = || vec![Configuration::Unread("io".to_string()), read(vec![])];
    let text = "stampa: cannot read configuration 0 for USB 0001:0002: io";
    assert_eq!(inspect_endpoints(1, 2, &broken(), true).unwrap_err().message(), text);
    assert_eq!(inspect_endpoints(1, 2, &broken(), false).unwrap_err().message(), text);
    let half = vec![
        Configuration::Unread("io".to_string()),
        read(vec![setting(0, 7, vec![bulk(1)])]),
    ];
    assert!(inspect_endpoints(1, 2, &half, false).unwrap().printer.is_some());
}

#[test]
fn the_printer_interface_is_preferred() {
    let devices = vec![
        UsbDevice::Unread("x".to_string()),
        device(1, vec![read(vec![setting(0, 8, vec![bulk(2)])])]),
        device(2, vec![read(vec![setting(4, 7, vec![bulk(3)])])]),
    ];
    let c = select_device(&devices, &any()).unwrap();
    assert_eq!((c.device, c.vendor_id, c.product_id), (2, 2, 1));
    assert_eq!(
        c.endpoint,
        EndpointSelection { configuration: 1, interface: 4, alternate_setting: 0, endpoint: 3 }
    );
    let only_id = PrinterTarget { vendor_id: Some(1), product_id: None };
    assert_eq!(select_device(&devices, &only_id).unwrap().device, 2);
    let c = select_device(&devices[..2], &any()).unwrap();
    assert_eq!((c.device, c.endpoint.endpoint), (1, 2));
    let c = select_device(&devices, &exact(1)).unwrap();
    assert_eq!((c.device, c.endpoint.endpoint), (1, 2));
}

#[test]
fn printers_that_are_not_found() {
    let text = |d: &Vec<UsbDevice>, t| select_device(d, &t).unwrap_err().message();
    let none = Vec::new();
    assert_eq!(
        text(&none, any()),
        "stampa: no USB printer-class interface or bulk OUT endpoint found"
    );
    assert_eq!(text(&none, exact(0x1504)), "stampa: USB printer 1504:0001 not found");
    let unread = vec![UsbDevice::Unread("a".to_string()), UsbDevice::Unread("b".to_string())];
    assert_eq!(
        text(&unread, any()),
        "stampa: no USB printer-class interface or bulk OUT endpoint found; last USB error: \
         cannot read USB device descriptor: b"
    );
    assert_eq!(
        text(&unread, exact(0x1504)),
        "stampa: USB printer 1504:0001 not found; last USB error: cannot read USB device \
         descriptor: b"
    );
    let broken = vec![
        device(7, vec![Configuration::Unread("io".to_string())]),
        UsbDevice::Unread("a".to_string()),
    ];
    assert_eq!(
        text(&broken, any()),
        "stampa: no USB printer-class interface or bulk OUT endpoint found; last USB error: \
         stampa: cannot read configuration 0 for USB 0007:0001: io"
    );
    assert_eq!(
        text(&broken, exact(7)),
        "stampa: cannot read configuration 0 for USB 0007:0001: io"
    );
    let empty = vec![device(7, vec![read(vec![])])];
    assert_eq!(text(&empty, exact(7)), "stampa: USB 0007:0001 has no bulk OUT endpoint");
}

#[test]
fn steps_to_an_open_printer() {
    let s =
        EndpointSelection { configuration: 2, interface: 1, alternate_setting: 3, endpoint: 4 };
    assert_eq!(
        open_steps(1, &s, true),
        vec![
            OpenStep::SetConfiguration(2),
            OpenStep::AutoDetach,
            OpenStep::ClaimInterface(1),
            OpenStep::SetAlternate { interface: 1, setting: 3 },
        ]
    );
    let s = EndpointSelection { alternate_setting: 0, ..s };
    assert_eq!(open_steps(2, &s, false), vec![OpenStep::ClaimInterface(1)]);
    let text = |step| open_error(step, 0x1504, 0x61, "x").message();
    assert_eq!(text(OpenStep::Open), "stampa: cannot open USB 1504:0061: x");
    assert_eq!(
        text(OpenStep::ReadConfiguration),
        "stampa: cannot read active configuration for USB 1504:0061: x"
    );
    assert_eq!(
        text(OpenStep::SetConfiguration(2)),
        "stampa: cannot select configuration 2 on USB 1504:0061: x"
    );
    assert_eq!(
        text(OpenStep::AutoDetach),
        "stampa: cannot enable kernel-driver auto-detach for USB 1504:0061: x"
    );
    assert_eq!(
        text(OpenStep::ClaimInterface(1)),
        "stampa: cannot claim interface 1 on USB 1504:0061: x"
    );
    assert_eq!(
        text(OpenStep::SetAlternate { interface: 1, setting: 3 }),
        "stampa: cannot select alternate setting 3 on interface 1 of USB 1504:0061: x"
    );
}

#[test]
fn jobs_are_written_in_parts() {
    let data: Vec<u8> = (0..USB_WRITE_CHUNK_SIZE * 2 + 5).map(|i| i as u8).collect();
    let parts = bulk_chunks(&data);
    assert_eq!(parts.iter().map(|p| p.len()).collect::<Vec<_>>(), vec![16384, 16384, 5]);
    assert_eq!(parts.concat(), data);
    assert_eq!(bulk_chunks(&data[..16384].to_vec()).len(), 1);
    assert!(bulk_chunks(&Vec::new()).is_empty());
    assert!(check_written(2, 1, 1, 5, 5).is_ok());
    assert_eq!(
        check_written(0x02, 0x1504, 0x61, 3, 5).unwrap_err().message(),
        "stampa: short bulk write to endpoint 0x02 on USB 1504:0061: wrote 3 of 5 bytes"
    );
    assert_eq!(
        write_error(0x02, 0x1504, 0x61, "x").message(),
        "stampa: bulk write to endpoint 0x02 on USB 1504:0061 failed: x"
    );
}
