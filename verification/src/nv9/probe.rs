//! The availability check of a validator: synchronise, ask for its serial number, and report
//! how its set-up reply is read.

use vstd::prelude::*;
use vstd::string::*;

use crate::models::{error_text, hardware, ErrorView, KioskResult};
use crate::nv9::driver::{check_sync, reply_view, sync_error, SSP_ADDRESS, SSP_SEQUENCE_BIT};
use crate::nv9::setup::{parse_setup_response, setup_values};
use crate::nv9::{
    CMD_GET_SERIAL, CMD_SETUP_REQUEST, CMD_SYNC, RESPONSE_OK, RESPONSE_UNKNOWN_COMMAND,
};
use crate::order::{distinct_in_order, ordered_texts};
use crate::text::{
    decimal, decimal_i64, decimal_u64, hex2, hex_byte, join, join_fields, texts,
};

verus! {

/// The baud rate at which a validator is looked for.
pub const PROBE_BAUD: u32 = 9600;

/// Which reply of the check is awaited.
#[derive(Debug, Clone, Copy, PartialEq, Eq, Structural)]
pub enum ProbeStage {
    Sync,
    Serial,
    Setup { number: u32 },
}

/// What comes next in the check: another packet, or the report.
pub enum ProbeStep {
    Send { sequence: u8, command: u8, stage: ProbeStage },
    Report(KioskResult<String>),
}

pub enum ProbeView {
    Send { sequence: u8, command: u8, stage: ProbeStage },
    Report(Result<Seq<char>, ErrorView>),
}

impl View for ProbeStep {
    type V = ProbeView;

    open spec fn view(&self) -> ProbeView {
        match *self {
            ProbeStep::Send { sequence, command, stage } => ProbeView::Send {
                sequence,
                command,
                stage,
            },
            ProbeStep::Report(Ok(text)) => ProbeView::Report(Ok(text@)),
            ProbeStep::Report(Err(e)) => ProbeView::Report(Err(e@)),
        }
    }
}

/// Four bytes, the most significant first.
pub open spec fn u32_be(b: Seq<u8>) -> int {
    b[0] * 0x100_0000 + b[1] * 0x1_0000 + b[2] * 0x100 + b[3]
}

/// The channels as the report names them, counted from one: `k1=10 k2=20`.
pub open spec fn channel_list(values: Seq<i64>) -> Seq<Seq<char>> {
    Seq::new(
        values.len(),
        |i: int| "k"@ + decimal(i + 1) + "="@ + decimal(values[i] as int),
    )
}

/// Bytes as pairs of upper-case hexadecimal digits.
pub open spec fn hex_list(bytes: Seq<u8>) -> Seq<Seq<char>> {
    Seq::new(bytes.len(), |i: int| hex2(bytes[i], true))
}

/// The report on a validator that told its serial number.
pub open spec fn probe_text(port: Seq<char>, number: int, setup: Seq<u8>) -> Seq<char> {
    let channels = match setup_values(setup) {
        Ok(values) => join_fields(channel_list(values), " "@),
        Err(text) => "parse: "@ + error_text(ErrorView::Hardware(text)),
    };
    "NV9 serial "@ + decimal(number) + " on "@ + port + " | kanali: "@ + channels + " | setup: "@
        + join_fields(hex_list(setup), " "@)
}

/// What a reply of the check leads to. A set-up reply that never came is read as an empty one.
pub open spec fn probe_next(
    port: Seq<char>,
    stage: ProbeStage,
    reply: Result<Seq<u8>, ErrorView>,
) -> ProbeView {
    match stage {
        ProbeStage::Sync => match reply {
            Err(e) => ProbeView::Report(Err(e)),
            Ok(r) => match sync_error(r) {
                Some(e) => ProbeView::Report(Err(e)),
                None => ProbeView::Send {
                    sequence: SSP_ADDRESS,
                    command: CMD_GET_SERIAL,
                    stage: ProbeStage::Serial,
                },
            },
        },
        ProbeStage::Serial => match reply {
            Err(e) => ProbeView::Report(Err(e)),
            Ok(r) => if r.len() == 0 {
                ProbeView::Report(
                    Err(ErrorView::Hardware("NV9 Get Serial Number returned an empty response"@)),
                )
            } else if r[0] == RESPONSE_UNKNOWN_COMMAND {
                ProbeView::Report(
                    Ok("NV9 on "@ + port + " (serial-number command unsupported by firmware)"@),
                )
            } else if r[0] != RESPONSE_OK {
                ProbeView::Report(
                    Ok(
                        "NV9 on "@ + port + " (serial unavailable: SSP 0x"@ + hex2(r[0], true)
                            + ")"@,
                    ),
                )
            } else if r.len() < 5 {
                ProbeView::Report(
                    Err(
                        ErrorView::Hardware(
                            "malformed NV9 Get Serial Number response (expected four bytes)"@,
                        ),
                    ),
                )
            } else {
                ProbeView::Send {
                    sequence: SSP_SEQUENCE_BIT,
                    command: CMD_SETUP_REQUEST,
                    stage: ProbeStage::Setup { number: u32_be(r.skip(1)) as u32 },
                }
            },
        },
        ProbeStage::Setup { number } => {
            let setup = match reply {
                Ok(r) => r,
                Err(_) => Seq::<u8>::empty(),
            };
            ProbeView::Report(Ok(probe_text(port, number as int, setup)))
        },
    }
}

fn channels_text(values: &[i64]) -> (r: String)
    ensures
        r@ == join_fields(channel_list(values@), " "@),
{
    let mut parts: Vec<String> = Vec::new();
    let mut i: usize = 0;
    while i < values.len()
        invariant
            i <= values@.len(),
            texts(parts@) == channel_list(values@).take(i as int),
        decreases values@.len() - i,
    {
        let ghost before = texts(parts@);
        let part = "k".to_string().concat(decimal_u64(i as u64 + 1).as_str()).concat("=").concat(
            decimal_i64(values[i]).as_str(),
        );
        parts.push(part);
        assert(texts(parts@) =~= before.push(part@));
        assert(texts(parts@) =~= channel_list(values@).take(i + 1));
        i = i + 1;
    }
    assert(channel_list(values@).take(i as int) =~= channel_list(values@));
    join(&parts, " ")
}

fn hex_text(bytes: &[u8]) -> (r: String)
    ensures
        r@ == join_fields(hex_list(bytes@), " "@),
{
    let mut parts: Vec<String> = Vec::new();
    let mut i: usize = 0;
    while i < bytes.len()
        invariant
            i <= bytes@.len(),
            texts(parts@) == hex_list(bytes@).take(i as int),
        decreases bytes@.len() - i,
    {
        let ghost before = texts(parts@);
        let part = hex_byte(bytes[i], true);
        parts.push(part);
        assert(texts(parts@) =~= before.push(part@));
        assert(texts(parts@) =~= hex_list(bytes@).take(i + 1));
        i = i + 1;
    }
    assert(hex_list(bytes@).take(i as int) =~= hex_list(bytes@));
    join(&parts, " ")
}

fn probe_report(port: &str, number: u32, setup: &[u8]) -> (r: String)
    ensures
        r@ == probe_text(port@, number as int, setup@),
{
    let channels = match parse_setup_response(setup) {
        Ok(data) => channels_text(&data.channel_values),
        Err(e) => "parse: ".to_string().concat(e.message().as_str()),
    };
    "NV9 serial ".to_string().concat(decimal_u64(number as u64).as_str()).concat(" on ").concat(
        port,
    ).concat(" | kanali: ").concat(channels.as_str()).concat(" | setup: ").concat(
        hex_text(setup).as_str(),
    )
}

/// The first packet of the check.
pub fn probe_start() -> (r: ProbeStep)
    ensures
        r@ == (ProbeView::Send {
            sequence: SSP_ADDRESS,
            command: CMD_SYNC,
            stage: ProbeStage::Sync,
        }),
{
    ProbeStep::Send { sequence: SSP_ADDRESS, command: CMD_SYNC, stage: ProbeStage::Sync }
}

/// What a reply of the check leads to.
pub fn probe(port: &str, stage: ProbeStage, reply: KioskResult<Vec<u8>>) -> (r: ProbeStep)
    ensures
        r@ == probe_next(port@, stage, reply_view(reply)),
{
    match stage {
        ProbeStage::Sync => match reply {
            Err(e) => ProbeStep::Report(Err(e)),
            Ok(r) => match check_sync(&r) {
                Err(e) => ProbeStep::Report(Err(e)),
                Ok(_) => ProbeStep::Send {
                    sequence: SSP_ADDRESS,
                    command: CMD_GET_SERIAL,
                    stage: ProbeStage::Serial,
                },
            },
        },
        ProbeStage::Serial => {
            let r = match reply {
                Err(e) => return ProbeStep::Report(Err(e)),
                Ok(r) => r,
            };
            if r.len() == 0 {
                return ProbeStep::Report(
                    Err(hardware("NV9 Get Serial Number returned an empty response".to_string())),
                );
            }
            if r[0] == RESPONSE_UNKNOWN_COMMAND {
                return ProbeStep::Report(
                    Ok(
                        "NV9 on ".to_string().concat(port).concat(
                            " (serial-number command unsupported by firmware)",
                        ),
                    ),
                );
            }
            if r[0] != RESPONSE_OK {
                return ProbeStep::Report(
                    Ok(
                        "NV9 on ".to_string().concat(port).concat(
                            " (serial unavailable: SSP 0x",
                        ).concat(hex_byte(r[0], true).as_str()).concat(")"),
                    ),
                );
            }
            if r.len() < 5 {
                return ProbeStep::Report(
                    Err(
                        hardware(
                            "malformed NV9 Get Serial Number response (expected four bytes)".to_string(),
                        ),
                    ),
                );
            }
            let number: u32 = r[1] as u32 * 0x100_0000 + r[2] as u32 * 0x1_0000 + r[3] as u32
                * 0x100 + r[4] as u32;
            assert(number == u32_be(r@.skip(1)));
            ProbeStep::Send {
                sequence: SSP_SEQUENCE_BIT,
                command: CMD_SETUP_REQUEST,
                stage: ProbeStage::Setup { number },
            }
        },
        ProbeStage::Setup { number } => {
            let setup: Vec<u8> = match reply {
                Ok(r) => r,
                Err(_) => Vec::new(),
            };
            ProbeStep::Report(Ok(probe_report(port, number, &setup)))
        },
    }
}

/// The serial device names to offer: in order, each of them once.
pub fn list_ports(names: &[String]) -> (r: Vec<String>)
    ensures
        texts(r@) == ordered_texts(texts(names@)),
{
    distinct_in_order(names)
}

} // verus!
