use kiosk_naplata::models::{KioskError, PaymentEvent};
use kiosk_naplata::nv9::driver::DecisionWait;
use kiosk_naplata::nv9::frame::{
    crc16_ssp, encode_packet, within_deadline, Exchange, ExchangeStep, FrameReader, FrameStep,
    COMMAND_RETRIES, MAX_LEADING_NOISE_BYTES,
};
use kiosk_naplata::nv9::probe::{list_ports, probe, probe_start, ProbeStage, ProbeStep};
use kiosk_naplata::nv9::setup::{inhibit_masks, parse_setup_response, u24_be};
use kiosk_naplata::nv9::simulator::Simulator;
use kiosk_naplata::nv9::{
    acknowledge_or_notice, link_error, open_error, response_description, LinkFault,
    CMD_GET_SERIAL, CMD_SETUP_REQUEST, CMD_SYNC,
};

fn read(bytes: &[u8]) -> Result<(u8, Vec<u8>), String> {
    let mut reader = FrameReader::new();
    for b in bytes {
        match reader.push(*b) {
            FrameStep::More => {}
            FrameStep::Done { sequence, data } => return Ok((sequence, data)),
            FrameStep::Failed(e) => return Err(e.message()),
        }
    }
    Err("nepotpuno".to_string())
}

#[test]
fn checksum_values() {
    assert_eq!(crc16_ssp(&Vec::new()), 0xffff);
    assert_eq!(crc16_ssp(&b"123456789".to_vec()), 0xaee7);
}

#[test]
fn a_checksum_cancels_itself() {
    for text in ["", "1", "123456789", "\u{7f}\0x"] {
        let mut bytes = text.as_bytes().to_vec();
        let crc = crc16_ssp(&bytes);
        bytes.push((crc / 256) as u8);
        bytes.push((crc % 256) as u8);
        assert_eq!(crc16_ssp(&bytes), 0);
    }
}

#[test]
fn packets_on_the_wire() {
    assert_eq!(
        encode_packet(0x80, 0x11, &Vec::new()).unwrap(),
        vec![0x7f, 0x80, 0x01, 0x11, 0x65, 0x82]
    );
    assert_eq!(
        encode_packet(0x00, 0x02, &vec![0x7f, 0xff]).unwrap(),
        vec![0x7f, 0x00, 0x03, 0x02, 0x7f, 0x7f, 0xff, 0x2f, 0x98]
    );
}

#[test]
fn packet_data_has_a_limit() {
    assert!(encode_packet(0, 1, &vec![0; 254]).is_ok());
    let e = encode_packet(0, 1, &vec![0; 255]).unwrap_err();
    assert_eq!(e.message(), "hardver: NV9 SSP command data exceeds 255 bytes");
}

#[test]
fn packets_read_back() {
    for params in [vec![], vec![0x7f], vec![0x7f, 0x7f, 1], vec![9; 254]] {
        let wire = encode_packet(0x80, 0x05, &params).unwrap();
        let mut data = vec![0x05];
        data.extend_from_slice(&params);
        assert_eq!(read(&wire), Ok((0x80, data.clone())));
        let mut noisy = vec![0x00, 0xff, 0x33];
        noisy.extend_from_slice(&wire);
        assert_eq!(read(&noisy), Ok((0x80, data)));
    }
}

#[test]
fn noise_is_bounded() {
    let wire = encode_packet(0, 0x07, &Vec::new()).unwrap();
    let mut most = vec![0x01; MAX_LEADING_NOISE_BYTES - 1];
    most.extend_from_slice(&wire);
    assert!(read(&most).is_ok());
    assert_eq!(
        read(&vec![0x01; MAX_LEADING_NOISE_BYTES]),
        Err("hardver: NV9 SSP response did not contain STX".to_string())
    );
}

#[test]
fn damaged_packets_are_refused() {
    let mut wire = encode_packet(0, 0x07, &Vec::new()).unwrap();
    wire[3] = 0x08;
    assert_eq!(
        read(&wire),
        Err("hardver: NV9 SSP CRC mismatch: expected 0x8833, received 0x8811".to_string())
    );
    assert_eq!(
        read(&[0x7f, 0x00, 0x7f, 0x01]),
        Err("hardver: malformed NV9 SSP byte stuffing: 0x7F followed by 0x01".to_string())
    );
}

#[test]
fn frames_have_a_deadline() {
    assert!(within_deadline(1999, 2000).is_ok());
    assert_eq!(
        within_deadline(2000, 2000).unwrap_err().message(),
        "hardver: NV9 SSP frame read timed out"
    );
}

#[test]
fn exchanges_are_repeated_unchanged_and_then_given_up() {
    let mut x = Exchange::new(0x80, 0x07, &Vec::new()).unwrap();
    let frame = x.frame.clone();
    for _ in 0..COMMAND_RETRIES {
        let r = x.attempted(Err(link_error(LinkFault::Read, "nema")));
        assert!(matches!(r, ExchangeStep::Retransmit));
        assert_eq!(x.frame, frame);
    }
    match x.attempted(Ok((0x00, vec![0xf0]))) {
        ExchangeStep::GiveUp(e) => assert_eq!(
            e.message(),
            "hardver: NV9 SSP command 0x07 failed after 3 attempts: hardver: NV9 SSP sequence \
             mismatch: sent 0x80, received 0x00"
        ),
        _ => panic!("nije odustao"),
    }
    let mut x = Exchange::new(0x80, 0x07, &Vec::new()).unwrap();
    match x.attempted(Ok((0x80, vec![0xf0, 0x01]))) {
        ExchangeStep::Reply(d) => assert_eq!(d, vec![0xf0, 0x01]),
        _ => panic!("nema odgovora"),
    }
}

#[test]
fn link_errors_carry_the_detail() {
    assert_eq!(link_error(LinkFault::Write, "x").message(), "hardver: NV9 serial write failed: x");
    assert_eq!(link_error(LinkFault::Flush, "x").message(), "hardver: NV9 serial flush failed: x");
    assert_eq!(link_error(LinkFault::Read, "x").message(), "hardver: NV9 serial read failed: x");
    assert_eq!(open_error("COM3", "x").message(), "hardver: cannot open NV9 port COM3: x");
}

fn classic_setup(values: &[u8], multiplier: [u8; 3], real: [u8; 3]) -> Vec<u8> {
    let mut r = vec![0xf0, 0x00, b'0', b'3', b'3', b'0', b'R', b'S', b'D'];
    r.extend_from_slice(&multiplier);
    r.push(values.len() as u8);
    r.extend_from_slice(values);
    r.extend_from_slice(&vec![0x02; values.len()]);
    r.extend_from_slice(&real);
    r.push(0x06);
    r
}

#[test]
fn setup_values_come_from_the_multiplier() {
    let r = classic_setup(&[1, 2, 5], [0, 0, 100], [0, 0, 7]);
    assert_eq!(parse_setup_response(&r).unwrap().channel_values, vec![100, 200, 500]);
    let r = classic_setup(&[1, 2], [0, 0, 0], [0, 1, 0]);
    assert_eq!(parse_setup_response(&r).unwrap().channel_values, vec![256, 512]);
    let r = classic_setup(&[3], [0, 0, 0], [0, 0, 0]);
    assert_eq!(parse_setup_response(&r).unwrap().channel_values, vec![3]);
}

#[test]
fn setup_values_come_from_the_expanded_block() {
    let mut r = classic_setup(&[1, 2], [0, 0, 100], [0, 0, 100]);
    r.extend_from_slice(b"RSDRSD");
    r.extend_from_slice(&10_u32.to_le_bytes());
    r.extend_from_slice(&5000_u32.to_le_bytes());
    assert_eq!(parse_setup_response(&r).unwrap().channel_values, vec![10, 5000]);
    r.pop();
    assert_eq!(parse_setup_response(&r).unwrap().channel_values, vec![100, 200]);
}

#[test]
fn malformed_setup_replies() {
    let text = |r: &Vec<u8>| parse_setup_response(r).unwrap_err().message();
    assert_eq!(text(&vec![]), "hardver: NV9 Setup Request returned an empty response");
    assert_eq!(text(&vec![0xf2]), "hardver: NV9 Setup Request returned SSP response 0xF2");
    assert_eq!(
        text(&vec![0xf0; 12]),
        "hardver: malformed NV9 Setup Request response (fixed header is incomplete)"
    );
    let mut r = classic_setup(&[1, 2], [0, 0, 1], [0, 0, 1]);
    r[12] = 0;
    assert_eq!(
        text(&r),
        "hardver: malformed NV9 Setup Request response (invalid channel count 0)"
    );
    r[12] = 17;
    assert_eq!(
        text(&r),
        "hardver: malformed NV9 Setup Request response (invalid channel count 17)"
    );
    r[12] = 3;
    assert_eq!(
        text(&r),
        "hardver: malformed NV9 Setup Request response (expected at least 23 bytes)"
    );
}

#[test]
fn three_bytes_are_big_endian() {
    assert_eq!(u24_be(&[0x01, 0x02, 0x03]), 0x010203);
    assert_eq!(u24_be(&[0xff, 0xff, 0xff]), 0xffffff);
}

#[test]
fn masks_enable_channels_with_a_value() {
    assert_eq!(inhibit_masks(&vec![10, 0, 50, -1, 100]), (0b0001_0101, 0));
    let mut many = vec![0; 16];
    many[7] = 1;
    many[8] = 1;
    many[15] = 1;
    assert_eq!(inhibit_masks(&many), (0x80, 0x81));
    assert_eq!(inhibit_masks(&Vec::new()), (0, 0));
}

#[test]
fn answers_are_described() {
    assert_eq!(response_description(0xf2), "unknown command");
    assert_eq!(response_description(0xf5), "parameter out of range");
    assert_eq!(response_description(0xf6), "command cannot be processed");
    assert_eq!(response_description(0xf8), "software error");
    assert_eq!(response_description(0x12), "unrecognized negative response");
    assert!(matches!(acknowledge_or_notice(&vec![0xf0], "Enable"), Ok(None)));
    match acknowledge_or_notice(&vec![0xf5], "Enable") {
        Ok(Some(PaymentEvent::Notice { message })) => {
            assert_eq!(message, "NV9 Enable: SSP response 0xF5 (parameter out of range)")
        }
        _ => panic!("nema obaveštenja"),
    }
    assert_eq!(
        acknowledge_or_notice(&vec![], "Enable").unwrap_err().message(),
        "hardver: NV9 Enable returned an empty response"
    );
}

fn report(step: ProbeStep) -> Result<String, String> {
    match step {
        ProbeStep::Report(r) => r.map_err(|e| e.message()),
        ProbeStep::Send { .. } => panic!("nema izveštaja"),
    }
}

#[test]
fn probe_of_a_validator() {
    match probe_start() {
        ProbeStep::Send { sequence, command, stage } => {
            assert_eq!((sequence, command, stage), (0, CMD_SYNC, ProbeStage::Sync))
        }
        _ => panic!("nema paketa"),
    }
    match probe("COM3", ProbeStage::Sync, Ok(vec![0xf0])) {
        ProbeStep::Send { sequence, command, stage } => {
            assert_eq!((sequence, command, stage), (0, CMD_GET_SERIAL, ProbeStage::Serial))
        }
        _ => panic!("nema paketa"),
    }
    match probe("COM3", ProbeStage::Serial, Ok(vec![0xf0, 0x00, 0x12, 0xd6, 0x87])) {
        ProbeStep::Send { sequence, command, stage } => assert_eq!(
            (sequence, command, stage),
            (0x80, CMD_SETUP_REQUEST, ProbeStage::Setup { number: 1234567 })
        ),
        _ => panic!("nema paketa"),
    }
    let setup = classic_setup(&[1, 2], [0, 0, 100], [0, 0, 100]);
    assert_eq!(
        report(probe("COM3", ProbeStage::Setup { number: 1234567 }, Ok(setup))),
        Ok("NV9 serial 1234567 on COM3 | kanali: k1=100 k2=200 | setup: F0 00 30 33 33 30 52 53 \
            44 00 00 64 02 01 02 02 02 00 00 64 06"
            .to_string())
    );
    assert_eq!(
        report(probe(
            "COM3",
            ProbeStage::Setup { number: 5 },
            Err(link_error(LinkFault::Read, "x"))
        )),
        Ok("NV9 serial 5 on COM3 | kanali: parse: hardver: NV9 Setup Request returned an empty \
            response | setup: "
            .to_string())
    );
}

#[test]
fn probe_of_a_reluctant_validator() {
    assert_eq!(
        report(probe("COM3", ProbeStage::Sync, Ok(vec![0xf8]))),
        Err("hardver: NV9 SYNC returned SSP response 0xF8".to_string())
    );
    assert_eq!(
        report(probe("COM3", ProbeStage::Sync, Ok(vec![]))),
        Err("hardver: NV9 SYNC returned an empty response".to_string())
    );
    assert_eq!(
        report(probe("COM3", ProbeStage::Sync, Err(KioskError::Hardware("x".to_string())))),
        Err("hardver: x".to_string())
    );
    assert_eq!(
        report(probe("COM3", ProbeStage::Serial, Ok(vec![]))),
        Err("hardver: NV9 Get Serial Number returned an empty response".to_string())
    );
    assert_eq!(
        report(probe("COM3", ProbeStage::Serial, Ok(vec![0xf2]))),
        Ok("NV9 on COM3 (serial-number command unsupported by firmware)".to_string())
    );
    assert_eq!(
        report(probe("COM3", ProbeStage::Serial, Ok(vec![0xf5]))),
        Ok("NV9 on COM3 (serial unavailable: SSP 0xF5)".to_string())
    );
    assert_eq!(
        report(probe("COM3", ProbeStage::Serial, Ok(vec![0xf0, 1, 2, 3]))),
        Err("hardver: malformed NV9 Get Serial Number response (expected four bytes)".to_string())
    );
}

#[test]
fn ports_are_offered_once_and_in_order() {
    let names: Vec<String> = ["COM7", "COM1", "COM7"].iter().map(|s| s.to_string()).collect();
    assert_eq!(list_ports(&names), vec!["COM1", "COM7"]);
}

#[test]
fn simulator_rotates_its_notes() {
    let mut s = Simulator::new();
    let mut total = 0;
    for value in [100, 200, 500, 1000, 100] {
        assert_eq!(s.insert(), value);
        total += value;
        match s.decided(value, DecisionWait::Accept) {
            Ok(Some(PaymentEvent::Credited { value_rsd, total_inserted_rsd })) => {
                assert_eq!((value_rsd, total_inserted_rsd), (value, total))
            }
            _ => panic!("nije proknjiženo"),
        }
    }
    assert!(matches!(
        s.decided(200, DecisionWait::Reject),
        Ok(Some(PaymentEvent::NoteReturned { value_rsd: 200 }))
    ));
    assert!(matches!(s.decided(200, DecisionWait::Stop), Ok(None)));
    assert_eq!(s.total_inserted_rsd, total);
    s.total_inserted_rsd = i64::MAX;
    assert_eq!(
        s.decided(1, DecisionWait::Accept).unwrap_err().message(),
        "hardver: NV9 simulator inserted-total overflow"
    );
}
