//! NV9 banknote validator on the plain (unencrypted) Smiley Secure Protocol, SSP.

pub mod driver;
pub mod frame;
pub mod laws;
pub mod poll;
pub mod probe;
pub mod setup;
pub mod simulator;

use vstd::prelude::*;
use vstd::string::*;

use crate::models::{hardware, ErrorView, EventView, KioskError, KioskResult, PaymentEvent};
use crate::text::{hex2, hex_byte};

verus! {

pub const CMD_SET_INHIBITS: u8 = 0x02;

pub const CMD_SETUP_REQUEST: u8 = 0x05;

pub const CMD_POLL: u8 = 0x07;

pub const CMD_REJECT: u8 = 0x08;

pub const CMD_DISABLE: u8 = 0x09;

pub const CMD_ENABLE: u8 = 0x0a;

pub const CMD_GET_SERIAL: u8 = 0x0c;

pub const CMD_SYNC: u8 = 0x11;

pub const RESPONSE_OK: u8 = 0xf0;

pub const RESPONSE_UNKNOWN_COMMAND: u8 = 0xf2;

/// Serial link of the validator.
pub struct Nv9Config {
    pub port: String,
    pub baud: u32,
}

/// What the payment session decides about a note held in escrow.
#[derive(Debug, Clone, Copy, PartialEq, Eq, Structural)]
pub enum EscrowDecision {
    Accept,
    Reject,
}

/// The meaning of a negative response code.
pub open spec fn description(code: u8) -> Seq<char> {
    if code == RESPONSE_UNKNOWN_COMMAND {
        "unknown command"@
    } else if code == 0xf5 {
        "parameter out of range"@
    } else if code == 0xf6 {
        "command cannot be processed"@
    } else if code == 0xf8 {
        "software error"@
    } else {
        "unrecognized negative response"@
    }
}

/// The meaning of a negative response code.
pub fn response_description(code: u8) -> (r: &'static str)
    ensures
        r@ == description(code),
{
    if code == RESPONSE_UNKNOWN_COMMAND {
        "unknown command"
    } else if code == 0xf5 {
        "parameter out of range"
    } else if code == 0xf6 {
        "command cannot be processed"
    } else if code == 0xf8 {
        "software error"
    } else {
        "unrecognized negative response"
    }
}

/// The notice on a negative response to an operation.
pub open spec fn negative_text(operation: Seq<char>, code: u8) -> Seq<char> {
    "NV9 "@ + operation + ": SSP response 0x"@ + hex2(code, true) + " ("@ + description(code)
        + ")"@
}

/// The notice on a negative response to an operation.
pub fn negative_notice(operation: &str, code: u8) -> (e: PaymentEvent)
    ensures
        e@ == (EventView::Notice { message: negative_text(operation@, code) }),
{
    let message = "NV9 ".to_string().concat(operation).concat(": SSP response 0x").concat(
        hex_byte(code, true).as_str(),
    ).concat(" (").concat(response_description(code)).concat(")");
    PaymentEvent::Notice { message }
}

/// The answer to an operation that is either acknowledged or refused with a code.
pub open spec fn acknowledgement(response: Seq<u8>, operation: Seq<char>) -> Result<
    Option<EventView>,
    ErrorView,
> {
    if response.len() == 0 {
        Err(ErrorView::Hardware("NV9 "@ + operation + " returned an empty response"@))
    } else if response[0] == RESPONSE_OK {
        Ok(None)
    } else {
        Ok(Some(EventView::Notice { message: negative_text(operation, response[0]) }))
    }
}

/// The answer to an operation that is either acknowledged or refused with a code: `None`
/// where it was acknowledged, a notice where it was refused.
pub fn acknowledge_or_notice(response: &[u8], operation: &str) -> (r: KioskResult<
    Option<PaymentEvent>,
>)
    ensures
        match acknowledgement(response@, operation@) {
            Ok(Some(v)) => r matches Ok(Some(e)) && e@ == v,
            Ok(None) => r matches Ok(None),
            Err(v) => r matches Err(e) && e@ == v,
        },
{
    if response.len() == 0 {
        return Err(
            hardware("NV9 ".to_string().concat(operation).concat(" returned an empty response")),
        );
    }
    if response[0] == RESPONSE_OK {
        Ok(None)
    } else {
        Ok(Some(negative_notice(operation, response[0])))
    }
}

/// What can go wrong on the serial link itself.
#[derive(Debug, Clone, Copy, PartialEq, Eq, Structural)]
pub enum LinkFault {
    Write,
    Flush,
    Read,
}

/// The error for a fault of the serial link, with what the system said about it.
pub open spec fn link_text(fault: LinkFault, detail: Seq<char>) -> Seq<char> {
    match fault {
        LinkFault::Write => "NV9 serial write failed: "@ + detail,
        LinkFault::Flush => "NV9 serial flush failed: "@ + detail,
        LinkFault::Read => "NV9 serial read failed: "@ + detail,
    }
}

/// The error for a fault of the serial link.
pub fn link_error(fault: LinkFault, detail: &str) -> (e: KioskError)
    ensures
        e@ == ErrorView::Hardware(link_text(fault, detail@)),
{
    hardware(
        match fault {
            LinkFault::Write => "NV9 serial write failed: ".to_string().concat(detail),
            LinkFault::Flush => "NV9 serial flush failed: ".to_string().concat(detail),
            LinkFault::Read => "NV9 serial read failed: ".to_string().concat(detail),
        },
    )
}

/// The error for a port that does not open.
pub fn open_error(port: &str, detail: &str) -> (e: KioskError)
    ensures
        e@ == ErrorView::Hardware("cannot open NV9 port "@ + port@ + ": "@ + detail@),
{
    hardware("cannot open NV9 port ".to_string().concat(port).concat(": ").concat(detail))
}

} // verus!
