//! What the validator's protocol is for: what becomes of every note, how the channels are read,
//! and what a packet looks like on the line.

use vstd::prelude::*;


use crate::models::{ErrorView, EventView};
use crate::nv9::driver::{
    sync_error, ESCROW_WAIT_SLICE_MS, POLL_INTERVAL_MS, SSP_ADDRESS, SSP_SEQUENCE_BIT,
};
use crate::nv9::frame::{
    attempt_error, crc_bits, crc_of, fresh_reader, packet, reader_step, stuffed,
    FrameStepView, ReaderView, COMMAND_RETRIES, FRAME_READ_TIMEOUT_MS,
};
use crate::nv9::poll::{
    credited_sum, effect, effect_events, escrow_sum, held, lemma_sums_add, payload_len, poll_from,
    poll_trace, returned_sum, PollStepView, PollTrace, ValidatorView,
};
use crate::nv9::probe::{channel_list, hex_list, probe_next, ProbeStage, ProbeView, PROBE_BAUD};
use crate::nv9::setup::{law_mask_bit_enables_channel, mask_of, setup_values, u24};
use crate::nv9::simulator::{denomination, NOTE_INTERVAL_MS};
use crate::nv9::{acknowledgement, description, link_text, LinkFault};
use crate::text::{decimal, hex2, hex4, join_fields};

verus! {

// ---------------------------------------------------------------------------
// What becomes of a note
// ---------------------------------------------------------------------------

/// A note that is stacked is credited, with its whole value and on top of whatever was inserted
/// before; then the rest of the reply is read, with nothing in escrow.
pub proof fn law_a_stacked_note_is_credited(st: ValidatorView, response: Seq<u8>, i: int, v: i64)
    requires
        0 <= i < response.len(),
        response[i] == 0xeb,
        st.escrow == Some(v),
    ensures
        i64::MIN <= st.inserted + v <= i64::MAX ==> {
            let total = (st.inserted + v) as i64;
            let after = ValidatorView { channels: st.channels, escrow: None, inserted: total };
            let rest = poll_from(after, response, i + 1);
            &&& poll_from(st, response, i).events == seq![
                EventView::Credited { value_rsd: v, total_inserted_rsd: total },
            ] + rest.events
            &&& poll_from(st, response, i).state == rest.state
            &&& poll_from(st, response, i).step == rest.step
        },
        !(i64::MIN <= st.inserted + v <= i64::MAX) ==> {
            &&& poll_from(st, response, i).events.len() == 0
            &&& poll_from(st, response, i).state.inserted == st.inserted
            &&& poll_from(st, response, i).step == PollStepView::Failed(
                ErrorView::Hardware("NV9 inserted-total overflow"@),
            )
        },
{
}

/// A note that comes back (rejected, or cleared from the front) is reported as returned with its
/// value, and nothing is credited for it.
pub proof fn law_a_returned_note_is_reported(st: ValidatorView, response: Seq<u8>, i: int, v: i64)
    requires
        0 <= i < response.len(),
        response[i] == 0xec || (response[i] == 0xe1 && i + 1 < response.len()),
        st.escrow == Some(v),
    ensures
        ({
            let next = if response[i] == 0xec {
                i + 1
            } else {
                i + 2
            };
            let rest = poll_from(ValidatorView { escrow: None, ..st }, response, next);
            &&& poll_from(st, response, i).events == seq![EventView::NoteReturned { value_rsd: v }]
                + rest.events
            &&& poll_from(st, response, i).state == rest.state
            &&& poll_from(st, response, i).step == rest.step
        }),
{
}

/// Without a note in escrow, a stacked or returned note gives a notice and moves no money.
pub proof fn law_an_untracked_note_is_a_notice(st: ValidatorView, response: Seq<u8>, i: int)
    requires
        0 <= i < response.len(),
        response[i] == 0xeb || response[i] == 0xec || (response[i] == 0xe1 && i + 1
            < response.len()),
        st.escrow is None,
    ensures
        ({
            let (next, message) = if response[i] == 0xeb {
                (i + 1, "NV9 reported Note Stacked without tracked escrow"@)
            } else if response[i] == 0xec {
                (i + 1, "NV9 reported Note Rejected without tracked escrow"@)
            } else {
                (i + 2, "NV9 cleared a note from the front path"@)
            };
            let rest = poll_from(st, response, next);
            &&& poll_from(st, response, i).events == seq![EventView::Notice { message }]
                + rest.events
            &&& poll_from(st, response, i).state == rest.state
            &&& poll_from(st, response, i).step == rest.step
        }),
{
}

/// A note of a channel that has a value is held: it is reported with that value, and the rest of
/// the reply waits for the decision. Without a value, or while another note is held, it is only
/// mentioned; on its way in it is not even that.
pub proof fn law_a_read_note_is_held(st: ValidatorView, response: Seq<u8>, i: int)
    requires
        0 <= i < response.len() - 1,
        response[i] == 0xef,
    ensures
        ({
            let channel = response[i + 1] as int;
            let t = poll_from(st, response, i);
            let rest = poll_from(st, response, i + 2);
            if channel == 0 {
                t == rest
            } else if channel > st.channels.len() || st.channels[channel - 1] <= 0 {
                &&& t.events == seq![
                    EventView::Notice {
                        message: "NV9 reported unknown or inhibited channel "@ + decimal(channel),
                    },
                ] + rest.events
                &&& t.state == rest.state
                &&& t.step == rest.step
            } else if st.escrow is Some {
                &&& t.events == seq![
                    EventView::Notice {
                        message: "NV9 reported a second escrow note while one is pending"@,
                    },
                ] + rest.events
                &&& t.state == rest.state
                &&& t.step == rest.step
            } else {
                &&& t.events == seq![
                    EventView::NoteInEscrow { value_rsd: st.channels[channel - 1] },
                ]
                &&& t.state == (ValidatorView {
                    escrow: Some(st.channels[channel - 1]),
                    channels: st.channels,
                    inserted: st.inserted,
                })
                &&& t.step == (PollStepView::AwaitDecision { resume: i + 2 })
            }
        }),
{
    assert(Seq::<EventView>::empty() + poll_from(st, response, i + 2).events =~= poll_from(
        st,
        response,
        i + 2,
    ).events);
}

/// A note that went into the cash box without credit ends the session with an error for the
/// staff; a reset of the validator gives the note up and asks for a new set-up.
pub proof fn law_a_lost_note_is_no_credit(st: ValidatorView, response: Seq<u8>, i: int)
    requires
        0 <= i < response.len(),
    ensures
        response[i] == 0xe2 && i + 1 < response.len() ==> {
            let rest = poll_from(ValidatorView { escrow: None, ..st }, response, i + 2);
            &&& poll_from(st, response, i).events == seq![
                EventView::Error {
                    message: "Novčanica povučena u kasu bez naplate — pozvati osoblje"@,
                },
            ] + rest.events
            &&& poll_from(st, response, i).state == rest.state
            &&& poll_from(st, response, i).step == rest.step
        },
        response[i] == 0xf1 ==> {
            &&& poll_from(st, response, i).events == seq![
                EventView::Notice { message: "NV9 slave reset; reinitializing validator"@ },
            ]
            &&& poll_from(st, response, i).state == (ValidatorView { escrow: None, ..st })
            &&& poll_from(st, response, i).step == PollStepView::Reinitialize
        },
{
}

/// Every other code moves no money: an idle or an informational credit code says nothing, and the
/// rest give one notice each.
pub proof fn law_other_codes_only_tell(st: ValidatorView, response: Seq<u8>, i: int)
    requires
        0 <= i < response.len(),
        response[i] != 0xeb && response[i] != 0xec && response[i] != 0xe1 && response[i] != 0xef
            && response[i] != 0xe2 && response[i] != 0xf1,
    ensures
        response[i] == 0x00 ==> poll_from(st, response, i) == poll_from(st, response, i + 1),
        response[i] == 0xee && i + 1 < response.len() ==> poll_from(st, response, i) == poll_from(
            st,
            response,
            i + 2,
        ),
        response[i] == 0xe6 && i + 1 < response.len() ==> {
            let rest = poll_from(st, response, i + 2);
            &&& poll_from(st, response, i).events == seq![
                EventView::Notice {
                    message: "NV9 fraud-attempt/unsafe-jam warning on channel "@ + decimal(
                        response[i + 1] as int,
                    ),
                },
            ] + rest.events
            &&& poll_from(st, response, i).state == rest.state
            &&& poll_from(st, response, i).step == rest.step
        },
        response[i] != 0x00 && response[i] != 0xee && response[i] != 0xe6 ==> {
            let code = response[i];
            let message = if code == 0xed {
                "NV9 note rejecting"@
            } else if code == 0xcc {
                "NV9 note stacking"@
            } else if code == 0xe3 {
                "NV9 cash box removed; stacking unavailable"@
            } else if code == 0xe4 {
                "NV9 cash box replaced"@
            } else if code == 0xe8 {
                "NV9 validator disabled"@
            } else if code == 0xe7 {
                "NV9 stacker full; empty cash box"@
            } else if code == 0xe0 {
                "NV9 note-path warning (event 0xE0)"@
            } else if code == 0xe9 {
                "NV9 path warning (event 0xE9)"@
            } else {
                "NV9 unrecognized Poll event 0x"@ + hex2(code, true)
            };
            let rest = poll_from(st, response, i + 1);
            &&& poll_from(st, response, i).events == seq![EventView::Notice { message }]
                + rest.events
            &&& poll_from(st, response, i).state == rest.state
            &&& poll_from(st, response, i).step == rest.step
        },
{
    assert(Seq::<EventView>::empty() + poll_from(st, response, i + 1).events =~= poll_from(
        st,
        response,
        i + 1,
    ).events);
    assert(Seq::<EventView>::empty() + poll_from(st, response, i + 2).events =~= poll_from(
        st,
        response,
        i + 2,
    ).events);
}

/// A reply is used up at its end; a code whose channel is cut off fails it, and nothing is lost
/// or credited by that.
pub proof fn law_a_reply_ends(st: ValidatorView, response: Seq<u8>, i: int)
    requires
        0 <= i,
    ensures
        i >= response.len() ==> poll_from(st, response, i) == (PollTrace {
            state: st,
            events: Seq::empty(),
            step: PollStepView::Finished,
        }),
        i == response.len() - 1 && (response[i] == 0xef || response[i] == 0xee || response[i]
            == 0xe1 || response[i] == 0xe2 || response[i] == 0xe6) ==> poll_from(st, response, i)
            == (PollTrace {
            state: st,
            events: Seq::empty(),
            step: PollStepView::Failed(
                ErrorView::Hardware(
                    "malformed NV9 Poll: event 0x"@ + hex2(response[i], true) + " missing "@
                        + decimal(1) + "-byte payload"@,
                ),
            ),
        }),
{
}

/// A poll reply that is acknowledged is read behind its first byte; one that is refused gives a
/// notice, and an empty one is an error.
pub proof fn law_a_poll_reply_is_read_behind_its_status(st: ValidatorView, response: Seq<u8>)
    ensures
        response.len() > 0 && response[0] == 0xf0 ==> poll_trace(st, response) == poll_from(
            st,
            response,
            1,
        ),
        response.len() > 0 && response[0] != 0xf0 ==> poll_trace(st, response) == (PollTrace {
            state: st,
            events: seq![
                EventView::Notice {
                    message: "NV9 "@ + "Poll"@ + ": SSP response 0x"@ + hex2(response[0], true)
                        + " ("@ + description(response[0]) + ")"@,
                },
            ],
            step: PollStepView::Finished,
        }),
        response.len() == 0 ==> poll_trace(st, response) == (PollTrace {
            state: st,
            events: Seq::empty(),
            step: PollStepView::Failed(ErrorView::Hardware("NV9 Poll returned an empty response"@)),
        }),
{
}

proof fn lemma_nothing()
    ensures
        credited_sum(Seq::<EventView>::empty()) == 0,
        returned_sum(Seq::<EventView>::empty()) == 0,
        escrow_sum(Seq::<EventView>::empty()) == 0,
{
}

proof fn lemma_effect_balance(st: ValidatorView, code: u8, channel: u8)
    requires
        effect(st, code, channel).flow is Next || effect(st, code, channel).flow is Decide,
        !(effect(st, code, channel).event is Some && effect(st, code, channel).event->0 is Error),
    ensures
        ({
            let e = effect(st, code, channel);
            let ev = effect_events(e);
            credited_sum(ev) + returned_sum(ev) + held(e.state) == held(st) + escrow_sum(ev)
        }),
{
    let ev = effect_events(effect(st, code, channel));
    lemma_nothing();
    if ev.len() > 0 {
        assert(ev.drop_last() =~= Seq::<EventView>::empty());
    }
}

proof fn lemma_balance(st: ValidatorView, response: Seq<u8>, i: int)
    requires
        poll_from(st, response, i).step is Finished || poll_from(st, response, i).step
            is AwaitDecision,
        forall|k: int|
            0 <= k < poll_from(st, response, i).events.len() ==> !(#[trigger] poll_from(
                st,
                response,
                i,
            ).events[k] is Error),
    ensures
        ({
            let t = poll_from(st, response, i);
            credited_sum(t.events) + returned_sum(t.events) + held(t.state) == held(st)
                + escrow_sum(t.events)
        }),
    decreases response.len() - i,
{
    let t = poll_from(st, response, i);
    lemma_nothing();
    if 0 <= i < response.len() {
        let code = response[i];
        let next = i + 1 + payload_len(code);
        if next <= response.len() {
            let channel = if payload_len(code) == 1 {
                response[i + 1]
            } else {
                0u8
            };
            let e = effect(st, code, channel);
            let ev = effect_events(e);
            if ev.len() > 0 {
                assert(t.events[0] == ev[0]);
            }
            lemma_effect_balance(st, code, channel);
            if e.flow is Next {
                let rest = poll_from(e.state, response, next);
                assert forall|k: int| 0 <= k < rest.events.len() implies !(
                #[trigger] rest.events[k] is Error) by {
                    assert(t.events[k + ev.len()] == rest.events[k]);
                }
                lemma_balance(e.state, response, next);
                lemma_sums_add(ev, rest.events);
            }
        }
    }
}

/// No note gets lost over a poll reply: what was in escrow before and what came into it is, to
/// the last dinar, credited, handed back, or still held. (Left out are a reset, a note that is
/// reported as captured without credit, and a reply that fails.)
pub proof fn law_no_note_gets_lost(st: ValidatorView, response: Seq<u8>)
    requires
        poll_trace(st, response).step is Finished || poll_trace(st, response).step
            is AwaitDecision,
        forall|k: int|
            0 <= k < poll_trace(st, response).events.len() ==> !(#[trigger] poll_trace(
                st,
                response,
            ).events[k] is Error),
    ensures
        ({
            let t = poll_trace(st, response);
            credited_sum(t.events) + returned_sum(t.events) + held(t.state) == held(st)
                + escrow_sum(t.events)
        }),
{
    let t = poll_trace(st, response);
    if response.len() > 0 && response[0] == 0xf0 {
        lemma_balance(st, response, 1);
    } else {
        lemma_nothing();
        assert(t.events.drop_last() =~= Seq::<EventView>::empty());
    }
}

// ---------------------------------------------------------------------------
// Replies
// ---------------------------------------------------------------------------

/// A command is acknowledged by the byte 0xF0 and by no other; any other first byte is a notice
/// that names the operation and the code, and an empty reply is an error.
pub proof fn law_only_f0_acknowledges(response: Seq<u8>, operation: Seq<char>)
    ensures
        acknowledgement(response, operation) == Ok::<Option<EventView>, ErrorView>(None)
            <==> response.len() > 0 && response[0] == 0xf0,
        response.len() == 0 ==> acknowledgement(response, operation) == Err::<
            Option<EventView>,
            ErrorView,
        >(ErrorView::Hardware("NV9 "@ + operation + " returned an empty response"@)),
        response.len() > 0 && response[0] != 0xf0 ==> acknowledgement(response, operation) == Ok::<
            Option<EventView>,
            ErrorView,
        >(
            Some(
                EventView::Notice {
                    message: "NV9 "@ + operation + ": SSP response 0x"@ + hex2(response[0], true)
                        + " ("@ + description(response[0]) + ")"@,
                },
            ),
        ),
        sync_error(response) is None <==> response.len() > 0 && response[0] == 0xf0,
        response.len() == 0 ==> sync_error(response) == Some(
            ErrorView::Hardware("NV9 SYNC returned an empty response"@),
        ),
        response.len() > 0 && response[0] != 0xf0 ==> sync_error(response) == Some(
            ErrorView::Hardware("NV9 SYNC returned SSP response 0x"@ + hex2(response[0], true)),
        ),
{
}

/// What the negative replies are called.
pub proof fn law_negative_replies_have_names(code: u8)
    ensures
        description(0xf2) == "unknown command"@,
        description(0xf5) == "parameter out of range"@,
        description(0xf6) == "command cannot be processed"@,
        description(0xf8) == "software error"@,
        code != 0xf2 && code != 0xf5 && code != 0xf6 && code != 0xf8 ==> description(code)
            == "unrecognized negative response"@,
{
}

/// A fault of the line is reported with what went wrong and the detail behind it.
pub proof fn law_link_faults_are_told_apart(detail: Seq<char>)
    ensures
        link_text(LinkFault::Write, detail) == "NV9 serial write failed: "@ + detail,
        link_text(LinkFault::Flush, detail) == "NV9 serial flush failed: "@ + detail,
        link_text(LinkFault::Read, detail) == "NV9 serial read failed: "@ + detail,
{
}

// ---------------------------------------------------------------------------
// Channels
// ---------------------------------------------------------------------------

/// A set-up reply gives a value for each of its channels. Where the block of real values is
/// there, each is four bytes, the lowest first; otherwise each is the byte of the channel times
/// the multiplier of the unit: the first that is not zero, or one.
pub proof fn law_channels_have_their_values(r: Seq<u8>, i: int)
    requires
        r.len() >= 13,
        r[0] == 0xf0,
        1 <= r[12] <= 16,
        r.len() >= 17 + 2 * r[12],
        0 <= i < r[12],
    ensures
        setup_values(r) is Ok,
        setup_values(r)->Ok_0.len() == r[12],
        r.len() >= 17 + 9 * r[12] ==> {
            let at = 17 + 5 * r[12] + 4 * i;
            setup_values(r)->Ok_0[i] == r[at] + 256 * r[at + 1] + 65536 * r[at + 2] + 16777216
                * r[at + 3]
        },
        r.len() < 17 + 9 * r[12] ==> {
            let first = 65536 * r[9] + 256 * r[10] + r[11];
            let at = 13 + 2 * r[12];
            let second = 65536 * r[at] + 256 * r[at + 1] + r[at + 2];
            setup_values(r)->Ok_0[i] == r[13 + i] * (if first != 0 {
                first
            } else if second != 0 {
                second
            } else {
                1
            })
        },
{
    let n = r[12] as int;
    let first = 65536 * r[9] + 256 * r[10] + r[11];
    let at = 13 + 2 * n;
    let second = 65536 * r[at] + 256 * r[at + 1] + r[at + 2];
    let m = if first != 0 {
        first
    } else if second != 0 {
        second
    } else {
        1int
    };
    let b = r[13 + i] as int;
    assert(0 <= b * m <= 255 * 16777216) by (nonlinear_arith)
        requires
            0 <= b <= 255,
            0 <= m <= 16777216,
    ;
}

/// Any other set-up reply is refused, and says why.
pub proof fn law_bad_set_up_replies_are_refused(r: Seq<u8>)
    ensures
        r.len() == 0 ==> setup_values(r) == Err::<Seq<i64>, Seq<char>>(
            "NV9 Setup Request returned an empty response"@,
        ),
        r.len() > 0 && r[0] != 0xf0 ==> setup_values(r) == Err::<Seq<i64>, Seq<char>>(
            "NV9 Setup Request returned SSP response 0x"@ + hex2(r[0], true),
        ),
        0 < r.len() < 13 && r[0] == 0xf0 ==> setup_values(r) == Err::<Seq<i64>, Seq<char>>(
            "malformed NV9 Setup Request response (fixed header is incomplete)"@,
        ),
        r.len() >= 13 && r[0] == 0xf0 && !(1 <= r[12] <= 16) ==> setup_values(r) == Err::<
            Seq<i64>,
            Seq<char>,
        >(
            "malformed NV9 Setup Request response (invalid channel count "@ + decimal(
                r[12] as int,
            ) + ")"@,
        ),
        13 <= r.len() < 17 + 2 * r[12] && r[0] == 0xf0 && 1 <= r[12] <= 16 ==> setup_values(r)
            == Err::<Seq<i64>, Seq<char>>(
            "malformed NV9 Setup Request response (expected at least "@ + decimal(
                17 + 2 * r[12],
            ) + " bytes)"@,
        ),
{
}

/// The inhibit masks name exactly the channels that have a value: bit by bit, the first channel
/// of a mask in its lowest bit.
pub proof fn law_masks_name_the_channels(values: Seq<i64>, first: int, k: u8)
    requires
        k < 8,
        first >= 0,
    ensures
        (mask_of(values, first) >> k) & 1 == 1 <==> first + k < values.len() && values[first + k]
            > 0,
{
    law_mask_bit_enables_channel(values, first, k);
}

// ---------------------------------------------------------------------------
// Packets
// ---------------------------------------------------------------------------

/// The checksum begins at 0xFFFF, and a byte takes the register through eight shifts, each with
/// the polynomial 0x8005 where a bit falls out at the top.
pub proof fn law_checksum_takes_each_byte_through_eight_shifts(bytes: Seq<u8>, byte: u8, s: Seq<
    u16,
>)
    requires
        s.len() == 9,
        s[0] == crc_of(bytes) ^ ((byte as u16) << 8),
        forall|k: int|
            1 <= k <= 8 ==> #[trigger] s[k] == if s[k - 1] >= 0x8000 {
                (s[k - 1] << 1) ^ 0x8005
            } else {
                s[k - 1] << 1
            },
    ensures
        crc_of(Seq::empty()) == 0xffff,
        crc_of(bytes.push(byte)) == s[8],
{
    assert(bytes.push(byte).drop_last() =~= bytes);
    reveal_with_fuel(crc_bits, 9);
    assert(forall|x: u16| x >= 0x8000 <==> (#[trigger] (x & 0x8000)) != 0) by (bit_vector);
    assert(s[1] == crc_bits(s[0], 1));
    assert(s[2] == crc_bits(s[0], 2));
    assert(s[3] == crc_bits(s[0], 3));
    assert(s[4] == crc_bits(s[0], 4));
    assert(s[5] == crc_bits(s[0], 5));
    assert(s[6] == crc_bits(s[0], 6));
    assert(s[7] == crc_bits(s[0], 7));
    assert(s[8] == crc_bits(s[0], 8));
}

/// On the line a packet is the start byte, then sequence byte, length, data and checksum (low
/// byte first), in which every start byte is doubled and nothing else is.
pub proof fn law_a_packet_on_the_line(sequence: u8, data: Seq<u8>, bytes: Seq<u8>, byte: u8)
    requires
        data.len() <= 255,
    ensures
        ({
            let covered = seq![sequence, data.len() as u8] + data;
            let crc = crc_of(covered);
            packet(sequence, data) == seq![0x7fu8] + stuffed(
                covered + seq![(crc % 256) as u8, (crc / 256) as u8],
            )
        }),
        stuffed(Seq::empty()) == Seq::<u8>::empty(),
        stuffed(bytes.push(byte)) == stuffed(bytes) + if byte == 0x7f {
            seq![0x7fu8, 0x7fu8]
        } else {
            seq![byte]
        },
{
    assert(bytes.push(byte).drop_last() =~= bytes);
    assert(stuffed(bytes).push(byte) =~= stuffed(bytes) + seq![byte]);
}

/// A reader outside a packet takes up to sixty-three bytes of noise and fails at the
/// sixty-fourth; a start byte begins the packet.
pub proof fn law_a_reader_waits_for_the_start(v: ReaderView, byte: u8)
    requires
        !v.in_packet,
    ensures
        byte == 0x7f ==> reader_step(v, byte) == (
            ReaderView { in_packet: true, ..v },
            FrameStepView::More,
        ),
        byte != 0x7f && v.noise < 63 ==> reader_step(v, byte) == (
            ReaderView { noise: v.noise + 1, ..v },
            FrameStepView::More,
        ),
        byte != 0x7f && v.noise >= 63 ==> reader_step(v, byte).1 == FrameStepView::Failed(
            ErrorView::Hardware("NV9 SSP response did not contain STX"@),
        ),
{
}

/// A reader inside a packet collects its bytes, each doubled start byte as one; a start byte
/// with anything else behind it fails. Complete is a packet with as many data bytes as its
/// second byte says and two more for the checksum, and it is good if that is the checksum of
/// what stands before it.
pub proof fn law_a_reader_collects_the_packet(v: ReaderView, byte: u8)
    requires
        v.in_packet,
    ensures
        byte == 0x7f && !v.escaped ==> reader_step(v, byte) == (
            ReaderView { escaped: true, ..v },
            FrameStepView::More,
        ),
        byte != 0x7f && v.escaped ==> reader_step(v, byte).1 == FrameStepView::Failed(
            ErrorView::Hardware(
                "malformed NV9 SSP byte stuffing: 0x7F followed by 0x"@ + hex2(byte, true),
            ),
        ),
        (byte == 0x7f) == v.escaped ==> {
            let body = v.body.push(byte);
            let n = body.len();
            let crc = crc_of(body.take(n - 2));
            let received = (body[n - 2] + 256 * body[n - 1]) as u16;
            &&& reader_step(v, byte).0 == (ReaderView { escaped: false, body, ..v })
            &&& reader_step(v, byte).1 == if n < 2 || n != body[1] + 4 {
                FrameStepView::More
            } else if received == crc {
                FrameStepView::Done { sequence: body[0], data: body.subrange(2, n - 2) }
            } else {
                FrameStepView::Failed(
                    ErrorView::Hardware(
                        "NV9 SSP CRC mismatch: expected 0x"@ + hex4(crc, true) + ", received 0x"@
                            + hex4(received, true),
                    ),
                )
            }
        },
{
}

/// A reader begins outside a packet, and a reply is the one to a packet exactly if it carries the
/// same sequence byte.
pub proof fn law_a_reply_carries_the_sequence_byte(
    sequence: u8,
    received: u8,
    data: Seq<u8>,
    e: ErrorView,
)
    ensures
        !fresh_reader().in_packet && fresh_reader().noise == 0,
        attempt_error(sequence, Ok((received, data))) is None <==> received == sequence,
        received != sequence ==> attempt_error(sequence, Ok((received, data))) == Some(
            ErrorView::Hardware(
                "NV9 SSP sequence mismatch: sent 0x"@ + hex2(sequence, true) + ", received 0x"@
                    + hex2(received, true),
            ),
        ),
        attempt_error(sequence, Err(e)) == Some(e),
{
}

// ---------------------------------------------------------------------------
// The availability check and the stand-in
// ---------------------------------------------------------------------------

/// The check synchronises, asks for the serial number, then for the set-up, each only after the
/// step before succeeded; the serial number is four bytes, the highest first.
pub proof fn law_the_check_goes_step_by_step(port: Seq<char>, r: Seq<u8>, e: ErrorView, number: u32)
    ensures
        r.len() > 0 && r[0] == 0xf0 ==> probe_next(port, ProbeStage::Sync, Ok(r)) == (
        ProbeView::Send { sequence: 0, command: 0x0c, stage: ProbeStage::Serial }),
        r.len() == 0 || r[0] != 0xf0 ==> probe_next(port, ProbeStage::Sync, Ok(r))
            matches ProbeView::Report(Err(_)),
        probe_next(port, ProbeStage::Sync, Err(e)) == ProbeView::Report(Err(e)),
        probe_next(port, ProbeStage::Serial, Err(e)) == ProbeView::Report(Err(e)),
        r.len() >= 5 && r[0] == 0xf0 ==> probe_next(port, ProbeStage::Serial, Ok(r)) == (
        ProbeView::Send {
            sequence: 0x80,
            command: 0x05,
            stage: ProbeStage::Setup {
                number: (16777216 * r[1] + 65536 * r[2] + 256 * r[3] + r[4]) as u32,
            },
        }),
        r.len() == 0 ==> probe_next(port, ProbeStage::Serial, Ok(r)) == ProbeView::Report(
            Err(ErrorView::Hardware("NV9 Get Serial Number returned an empty response"@)),
        ),
        0 < r.len() < 5 && r[0] == 0xf0 ==> probe_next(port, ProbeStage::Serial, Ok(r))
            == ProbeView::Report(
            Err(
                ErrorView::Hardware(
                    "malformed NV9 Get Serial Number response (expected four bytes)"@,
                ),
            ),
        ),
        r.len() > 0 && r[0] == 0xf2 ==> probe_next(port, ProbeStage::Serial, Ok(r))
            == ProbeView::Report(
            Ok("NV9 on "@ + port + " (serial-number command unsupported by firmware)"@),
        ),
        r.len() > 0 && r[0] != 0xf2 && r[0] != 0xf0 ==> probe_next(
            port,
            ProbeStage::Serial,
            Ok(r),
        ) == ProbeView::Report(
            Ok("NV9 on "@ + port + " (serial unavailable: SSP 0x"@ + hex2(r[0], true) + ")"@),
        ),
        probe_next(port, ProbeStage::Setup { number }, Err(e)) == probe_next(
            port,
            ProbeStage::Setup { number },
            Ok(Seq::empty()),
        ),
{
}

/// The report of the check names the serial number, the port, the value of every channel, counted
/// from one, and every byte of the set-up reply in hexadecimal.
pub proof fn law_the_check_reports_what_it_read(
    port: Seq<char>,
    number: u32,
    r: Seq<u8>,
    channels: Seq<Seq<char>>,
    bytes: Seq<Seq<char>>,
)
    requires
        bytes.len() == r.len(),
        forall|i: int| 0 <= i < r.len() ==> #[trigger] bytes[i] == hex2(r[i], true),
        setup_values(r) is Ok ==> channels.len() == setup_values(r)->Ok_0.len() && forall|i: int|
            0 <= i < channels.len() ==> #[trigger] channels[i] == "k"@ + decimal(i + 1) + "="@
                + decimal(setup_values(r)->Ok_0[i] as int),
    ensures
        probe_next(port, ProbeStage::Setup { number }, Ok(r)) == ProbeView::Report(
            Ok(
                "NV9 serial "@ + decimal(number as int) + " on "@ + port + " | kanali: "@ + (
                match setup_values(r) {
                    Ok(_) => join_fields(channels, " "@),
                    Err(text) => "parse: "@ + ("hardver: "@ + text),
                }) + " | setup: "@ + join_fields(bytes, " "@),
            ),
        ),
{
    assert(bytes =~= hex_list(r));
    if setup_values(r) is Ok {
        assert(channels =~= channel_list(setup_values(r)->Ok_0));
    }
}

/// The stand-in inserts notes of 100, 200, 500 and 1000 dinars in turn.
pub proof fn law_the_stand_in_cycles(i: int)
    requires
        i >= 0,
    ensures
        denomination(4 * i) == 100,
        denomination(4 * i + 1) == 200,
        denomination(4 * i + 2) == 500,
        denomination(4 * i + 3) == 1000,
{
}

/// How often a command is sent, how long a reply may take, and how often the validator is looked
/// at: three times, two seconds, and five times a second.
pub proof fn law_the_validator_is_waited_for()
    ensures
        COMMAND_RETRIES + 1 == 3,
        FRAME_READ_TIMEOUT_MS == 2000,
        POLL_INTERVAL_MS == 200,
        ESCROW_WAIT_SLICE_MS == 100,
        NOTE_INTERVAL_MS == 2000,
        PROBE_BAUD == 9600,
        SSP_ADDRESS == 0,
        SSP_SEQUENCE_BIT == 0x80,
{
}

/// Three bytes, the highest first, are the number that they spell.
pub proof fn law_three_bytes_spell_a_number(b: Seq<u8>, at: int)
    ensures
        u24(b, at) == 256 * (256 * b[at] + b[at + 1]) + b[at + 2],
{
}

} // verus!
