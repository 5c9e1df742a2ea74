//! What a poll reply of the validator means for the money in its path.

use vstd::prelude::*;
use vstd::string::*;

use crate::models::{event_views, hardware, ErrorView, EventView, KioskError, PaymentEvent};
use crate::nv9::{negative_notice, negative_text, RESPONSE_OK};
use crate::text::{decimal, decimal_u64, hex2, hex_byte};

verus! {

/// The validator as the host tracks it: the value of each channel, the note held in escrow,
/// and the cash stacked since the session began.
pub struct ValidatorState {
    pub channel_values: Vec<i64>,
    pub escrow_value: Option<i64>,
    pub total_inserted_rsd: i64,
}

pub struct ValidatorView {
    pub channels: Seq<i64>,
    pub escrow: Option<i64>,
    pub inserted: i64,
}

impl View for ValidatorState {
    type V = ValidatorView;

    open spec fn view(&self) -> ValidatorView {
        ValidatorView {
            channels: self.channel_values@,
            escrow: self.escrow_value,
            inserted: self.total_inserted_rsd,
        }
    }
}

/// Where the processing of a poll reply stopped.
pub enum PollStep {
    /// The reply is used up.
    Finished,
    /// The validator was reset and has to be set up again.
    Reinitialize,
    /// A note is in escrow; what follows in the reply waits for the decision on it.
    AwaitDecision { resume: usize },
    /// The reply cannot be used; the session is over.
    Failed(KioskError),
}

pub enum PollStepView {
    Finished,
    Reinitialize,
    AwaitDecision { resume: int },
    Failed(ErrorView),
}

impl View for PollStep {
    type V = PollStepView;

    open spec fn view(&self) -> PollStepView {
        match *self {
            PollStep::Finished => PollStepView::Finished,
            PollStep::Reinitialize => PollStepView::Reinitialize,
            PollStep::AwaitDecision { resume } => PollStepView::AwaitDecision {
                resume: resume as int,
            },
            PollStep::Failed(e) => PollStepView::Failed(e@),
        }
    }
}

/// The events that a poll reply gives rise to, and where its processing stopped.
pub struct PollRun {
    pub events: Vec<PaymentEvent>,
    pub step: PollStep,
}

/// A poll run as values: the state after it, its events, and where it stopped.
pub struct PollTrace {
    pub state: ValidatorView,
    pub events: Seq<EventView>,
    pub step: PollStepView,
}

/// What one event code does next.
pub enum Flow {
    /// On to the next code.
    Next,
    /// Wait for the decision on the note now in escrow.
    Decide,
    /// Set the validator up again.
    Reset,
    /// The running total does not fit.
    Overflow,
}

/// The effect of one event code: the state after it, the event that it gives rise to, and
/// what comes next.
pub struct Effect {
    pub state: ValidatorView,
    pub event: Option<EventView>,
    pub flow: Flow,
}

/// How many payload bytes follow an event code: the channel of a read, a credit, a cleared
/// note or a fraud attempt; nothing else carries a payload.
pub open spec fn payload_len(code: u8) -> int {
    if code == 0xef || code == 0xee || code == 0xe1 || code == 0xe2 || code == 0xe6 {
        1
    } else {
        0
    }
}

/// How many payload bytes follow an event code.
pub fn poll_event_payload_len(code: u8) -> (r: usize)
    ensures
        r == payload_len(code),
{
    if code == 0xef || code == 0xee || code == 0xe1 || code == 0xe2 || code == 0xe6 {
        1
    } else {
        0
    }
}

/// The value of a channel (counted from one), or zero where there is no such channel.
pub open spec fn channel_value(channels: Seq<i64>, channel: u8) -> i64 {
    if 1 <= channel <= channels.len() {
        channels[channel - 1]
    } else {
        0
    }
}

pub open spec fn notice(message: Seq<char>) -> Option<EventView> {
    Some(EventView::Notice { message })
}

/// The state without a tracked escrow note.
pub open spec fn cleared(st: ValidatorView) -> ValidatorView {
    ValidatorView { escrow: None, ..st }
}

/// A note came back to the visitor.
pub open spec fn returned(st: ValidatorView, otherwise: Seq<char>) -> Effect {
    Effect {
        state: cleared(st),
        event: match st.escrow {
            Some(v) => Some(EventView::NoteReturned { value_rsd: v }),
            None => notice(otherwise),
        },
        flow: Flow::Next,
    }
}

/// A note was read into escrow. Channel zero means that the note is still on its way.
pub open spec fn read_note(st: ValidatorView, channel: u8) -> Effect {
    let value = channel_value(st.channels, channel);
    if channel == 0 {
        Effect { state: st, event: None, flow: Flow::Next }
    } else if value <= 0 {
        Effect {
            state: st,
            event: notice(
                "NV9 reported unknown or inhibited channel "@ + decimal(channel as int),
            ),
            flow: Flow::Next,
        }
    } else if st.escrow is Some {
        Effect {
            state: st,
            event: notice("NV9 reported a second escrow note while one is pending"@),
            flow: Flow::Next,
        }
    } else {
        Effect {
            state: ValidatorView { escrow: Some(value), ..st },
            event: Some(EventView::NoteInEscrow { value_rsd: value }),
            flow: Flow::Decide,
        }
    }
}

/// A note was stacked: the only point at which money is credited.
pub open spec fn stacked(st: ValidatorView) -> Effect {
    match st.escrow {
        Some(v) => if i64::MIN <= st.inserted + v <= i64::MAX {
            let total = (st.inserted + v) as i64;
            Effect {
                state: ValidatorView { escrow: None, inserted: total, ..st },
                event: Some(EventView::Credited { value_rsd: v, total_inserted_rsd: total }),
                flow: Flow::Next,
            }
        } else {
            Effect { state: cleared(st), event: None, flow: Flow::Overflow }
        },
        None => Effect {
            state: st,
            event: notice("NV9 reported Note Stacked without tracked escrow"@),
            flow: Flow::Next,
        },
    }
}

/// The notice on an event code that moves no money.
pub open spec fn warning(code: u8, channel: u8) -> Seq<char> {
    if code == 0xed {
        "NV9 note rejecting"@
    } else if code == 0xcc {
        "NV9 note stacking"@
    } else if code == 0xe3 {
        "NV9 cash box removed; stacking unavailable"@
    } else if code == 0xe4 {
        "NV9 cash box replaced"@
    } else if code == 0xe8 {
        "NV9 validator disabled"@
    } else if code == 0xe6 {
        "NV9 fraud-attempt/unsafe-jam warning on channel "@ + decimal(channel as int)
    } else if code == 0xe7 {
        "NV9 stacker full; empty cash box"@
    } else if code == 0xe0 {
        "NV9 note-path warning (event 0xE0)"@
    } else if code == 0xe9 {
        "NV9 path warning (event 0xE9)"@
    } else {
        "NV9 unrecognized Poll event 0x"@ + hex2(code, true)
    }
}

/// What an event code, with the channel behind it where it carries one, means.
pub open spec fn effect(st: ValidatorView, code: u8, channel: u8) -> Effect {
    if code == 0x00 || code == 0xee {
        Effect { state: st, event: None, flow: Flow::Next }
    } else if code == 0xf1 {
        Effect {
            state: cleared(st),
            event: notice("NV9 slave reset; reinitializing validator"@),
            flow: Flow::Reset,
        }
    } else if code == 0xef {
        read_note(st, channel)
    } else if code == 0xec {
        returned(st, "NV9 reported Note Rejected without tracked escrow"@)
    } else if code == 0xe1 {
        returned(st, "NV9 cleared a note from the front path"@)
    } else if code == 0xeb {
        stacked(st)
    } else if code == 0xe2 {
        Effect {
            state: cleared(st),
            event: Some(
                EventView::Error {
                    message: "Novčanica povučena u kasu bez naplate — pozvati osoblje"@,
                },
            ),
            flow: Flow::Next,
        }
    } else {
        Effect { state: st, event: notice(warning(code, channel)), flow: Flow::Next }
    }
}

/// The events of an effect: none or one.
pub open spec fn effect_events(e: Effect) -> Seq<EventView> {
    match e.event {
        Some(v) => seq![v],
        None => Seq::<EventView>::empty(),
    }
}

/// The error on an event code whose payload is cut off.
pub open spec fn truncated_text(code: u8) -> Seq<char> {
    "malformed NV9 Poll: event 0x"@ + hex2(code, true) + " missing "@ + decimal(payload_len(code))
        + "-byte payload"@
}

/// The event codes of a reply from position `i` on, up to the first that stops.
pub open spec fn poll_from(st: ValidatorView, response: Seq<u8>, i: int) -> PollTrace
    decreases response.len() - i,
{
    if i < 0 || i >= response.len() {
        PollTrace { state: st, events: Seq::empty(), step: PollStepView::Finished }
    } else {
        let code = response[i];
        let next = i + 1 + payload_len(code);
        if next > response.len() {
            PollTrace {
                state: st,
                events: Seq::empty(),
                step: PollStepView::Failed(ErrorView::Hardware(truncated_text(code))),
            }
        } else {
            let channel = if payload_len(code) == 1 {
                response[i + 1]
            } else {
                0u8
            };
            let e = effect(st, code, channel);
            match e.flow {
                Flow::Next => {
                    let rest = poll_from(e.state, response, next);
                    PollTrace { events: effect_events(e) + rest.events, ..rest }
                },
                Flow::Decide => PollTrace {
                    state: e.state,
                    events: effect_events(e),
                    step: PollStepView::AwaitDecision { resume: next },
                },
                Flow::Reset => PollTrace {
                    state: e.state,
                    events: effect_events(e),
                    step: PollStepView::Reinitialize,
                },
                Flow::Overflow => PollTrace {
                    state: e.state,
                    events: effect_events(e),
                    step: PollStepView::Failed(
                        ErrorView::Hardware("NV9 inserted-total overflow"@),
                    ),
                },
            }
        }
    }
}

/// A whole poll reply: its status byte, then its event codes.
pub open spec fn poll_trace(st: ValidatorView, response: Seq<u8>) -> PollTrace {
    if response.len() == 0 {
        PollTrace {
            state: st,
            events: Seq::empty(),
            step: PollStepView::Failed(ErrorView::Hardware("NV9 Poll returned an empty response"@)),
        }
    } else if response[0] != RESPONSE_OK {
        PollTrace {
            state: st,
            events: seq![EventView::Notice { message: negative_text("Poll"@, response[0]) }],
            step: PollStepView::Finished,
        }
    } else {
        poll_from(st, response, 1)
    }
}

enum Next {
    Next,
    Decide,
    Reset,
    Overflow,
}

spec fn flow_of(n: Next) -> Flow {
    match n {
        Next::Next => Flow::Next,
        Next::Decide => Flow::Decide,
        Next::Reset => Flow::Reset,
        Next::Overflow => Flow::Overflow,
    }
}

spec fn opt_event(o: Option<PaymentEvent>) -> Option<EventView> {
    match o {
        Some(e) => Some(e@),
        None => None,
    }
}

fn say(message: &str) -> (r: Option<PaymentEvent>)
    ensures
        opt_event(r) == notice(message@),
{
    Some(PaymentEvent::Notice { message: message.to_string() })
}

fn warn(code: u8, channel: u8) -> (r: Option<PaymentEvent>)
    ensures
        opt_event(r) == notice(warning(code, channel)),
{
    if code == 0xed {
        say("NV9 note rejecting")
    } else if code == 0xcc {
        say("NV9 note stacking")
    } else if code == 0xe3 {
        say("NV9 cash box removed; stacking unavailable")
    } else if code == 0xe4 {
        say("NV9 cash box replaced")
    } else if code == 0xe8 {
        say("NV9 validator disabled")
    } else if code == 0xe6 {
        Some(
            PaymentEvent::Notice {
                message: "NV9 fraud-attempt/unsafe-jam warning on channel ".to_string().concat(
                    decimal_u64(channel as u64).as_str(),
                ),
            },
        )
    } else if code == 0xe7 {
        say("NV9 stacker full; empty cash box")
    } else if code == 0xe0 {
        say("NV9 note-path warning (event 0xE0)")
    } else if code == 0xe9 {
        say("NV9 path warning (event 0xE9)")
    } else {
        Some(
            PaymentEvent::Notice {
                message: "NV9 unrecognized Poll event 0x".to_string().concat(
                    hex_byte(code, true).as_str(),
                ),
            },
        )
    }
}

fn apply(state: &mut ValidatorState, code: u8, channel: u8) -> (r: (Option<PaymentEvent>, Next))
    ensures
        effect(old(state)@, code, channel) == (Effect {
            state: final(state)@,
            event: opt_event(r.0),
            flow: flow_of(r.1),
        }),
{
    if code == 0x00 || code == 0xee {
        (None, Next::Next)
    } else if code == 0xf1 {
        state.escrow_value = None;
        (say("NV9 slave reset; reinitializing validator"), Next::Reset)
    } else if code == 0xef {
        if channel == 0 {
            return (None, Next::Next);
        }
        let slot: usize = channel as usize - 1;
        let value: i64 = if slot < state.channel_values.len() {
            state.channel_values[slot]
        } else {
            0
        };
        if value <= 0 {
            let message = "NV9 reported unknown or inhibited channel ".to_string().concat(
                decimal_u64(channel as u64).as_str(),
            );
            return (Some(PaymentEvent::Notice { message }), Next::Next);
        }
        if state.escrow_value.is_some() {
            return (say("NV9 reported a second escrow note while one is pending"), Next::Next);
        }
        state.escrow_value = Some(value);
        (Some(PaymentEvent::NoteInEscrow { value_rsd: value }), Next::Decide)
    } else if code == 0xec || code == 0xe1 {
        match state.escrow_value {
            Some(value) => {
                state.escrow_value = None;
                (Some(PaymentEvent::NoteReturned { value_rsd: value }), Next::Next)
            },
            None => if code == 0xec {
                (say("NV9 reported Note Rejected without tracked escrow"), Next::Next)
            } else {
                (say("NV9 cleared a note from the front path"), Next::Next)
            },
        }
    } else if code == 0xeb {
        match state.escrow_value {
            Some(value) => {
                state.escrow_value = None;
                match state.total_inserted_rsd.checked_add(value) {
                    Some(total) => {
                        state.total_inserted_rsd = total;
                        (
                            Some(
                                PaymentEvent::Credited {
                                    value_rsd: value,
                                    total_inserted_rsd: total,
                                },
                            ),
                            Next::Next,
                        )
                    },
                    None => (None, Next::Overflow),
                }
            },
            None => (say("NV9 reported Note Stacked without tracked escrow"), Next::Next),
        }
    } else if code == 0xe2 {
        state.escrow_value = None;
        let message = "Novčanica povučena u kasu bez naplate — pozvati osoblje".to_string();
        (Some(PaymentEvent::Error { message }), Next::Next)
    } else {
        (warn(code, channel), Next::Next)
    }
}

proof fn lemma_events_push(events: Seq<PaymentEvent>, e: PaymentEvent)
    ensures
        event_views(events.push(e)) == event_views(events).push(e@),
{
    assert(event_views(events.push(e)) =~= event_views(events).push(e@));
}

/// Processes the event codes of a poll reply from position `index` on, up to the first one
/// that needs a decision or ends the poll.
pub fn resume_poll(state: &mut ValidatorState, response: &[u8], index: usize) -> (r: PollRun)
    ensures
        poll_from(old(state)@, response@, index as int) == (PollTrace {
            state: final(state)@,
            events: event_views(r.events@),
            step: r.step@,
        }),
{
    let mut events: Vec<PaymentEvent> = Vec::new();
    let mut i: usize = index;
    let ghost whole = poll_from(state@, response@, index as int);
    proof {
        assert(event_views(events@) =~= Seq::<EventView>::empty());
        let rest = poll_from(state@, response@, i as int);
        assert(Seq::<EventView>::empty() + rest.events =~= rest.events);
    }
    while i < response.len()
        invariant
            whole == poll_from(old(state)@, response@, index as int),
            ({
                let rest = poll_from(state@, response@, i as int);
                whole == PollTrace { events: event_views(events@) + rest.events, ..rest }
            }),
        decreases response@.len() - i,
    {
        let code = response[i];
        let n = poll_event_payload_len(code);
        let ghost before = event_views(events@);
        if n > response.len() - i - 1 {
            let message = "malformed NV9 Poll: event 0x".to_string().concat(
                hex_byte(code, true).as_str(),
            ).concat(" missing ").concat(decimal_u64(n as u64).as_str()).concat("-byte payload");
            assert(before + Seq::<EventView>::empty() =~= before);
            return PollRun { events, step: PollStep::Failed(hardware(message)) };
        }
        let channel: u8 = if n == 1 {
            response[i + 1]
        } else {
            0
        };
        let ghost e = effect(state@, code, channel);
        let (event, flow) = apply(state, code, channel);
        i = i + 1 + n;
        match event {
            Some(event) => {
                proof {
                    lemma_events_push(events@, event);
                    assert(before.push(event@) =~= before + effect_events(e));
                }
                events.push(event);
            },
            None => {
                assert(before =~= before + effect_events(e));
            },
        }
        match flow {
            Next::Next => {
                proof {
                    let rest = poll_from(state@, response@, i as int);
                    assert(before + (effect_events(e) + rest.events) =~= (before + effect_events(e))
                        + rest.events);
                }
            },
            Next::Decide => {
                return PollRun { events, step: PollStep::AwaitDecision { resume: i } };
            },
            Next::Reset => {
                return PollRun { events, step: PollStep::Reinitialize };
            },
            Next::Overflow => {
                let error = hardware("NV9 inserted-total overflow".to_string());
                return PollRun { events, step: PollStep::Failed(error) };
            },
        }
    }
    proof {
        let rest = poll_from(state@, response@, i as int);
        assert(event_views(events@) + rest.events =~= event_views(events@));
    }
    PollRun { events, step: PollStep::Finished }
}

/// Processes a poll reply up to the first event code that needs a decision or ends the poll.
pub fn process_poll(state: &mut ValidatorState, response: &[u8]) -> (r: PollRun)
    ensures
        poll_trace(old(state)@, response@) == (PollTrace {
            state: final(state)@,
            events: event_views(r.events@),
            step: r.step@,
        }),
{
    let mut events: Vec<PaymentEvent> = Vec::new();
    if response.len() == 0 {
        assert(event_views(events@) =~= Seq::<EventView>::empty());
        let error = hardware("NV9 Poll returned an empty response".to_string());
        return PollRun { events, step: PollStep::Failed(error) };
    }
    if response[0] != RESPONSE_OK {
        events.push(negative_notice("Poll", response[0]));
        assert(event_views(events@) =~= poll_trace(state@, response@).events);
        return PollRun { events, step: PollStep::Finished };
    }
    resume_poll(state, response, 1)
}

// ---------------------------------------------------------------------------
// What every poll keeps
// ---------------------------------------------------------------------------

/// The tracked note, if there is one, is worth something.
pub open spec fn well_tracked(st: ValidatorView) -> bool {
    st.escrow matches Some(v) ==> v > 0
}

/// The value of the note held in escrow.
pub open spec fn held(st: ValidatorView) -> int {
    match st.escrow {
        Some(v) => v as int,
        None => 0,
    }
}

/// The money that the events credit.
pub open spec fn credited_sum(events: Seq<EventView>) -> int
    decreases events.len(),
{
    if events.len() == 0 {
        0
    } else {
        credited_sum(events.drop_last()) + match events.last() {
            EventView::Credited { value_rsd, .. } => value_rsd as int,
            _ => 0,
        }
    }
}

/// The money that the events hand back.
pub open spec fn returned_sum(events: Seq<EventView>) -> int
    decreases events.len(),
{
    if events.len() == 0 {
        0
    } else {
        returned_sum(events.drop_last()) + match events.last() {
            EventView::NoteReturned { value_rsd } => value_rsd as int,
            _ => 0,
        }
    }
}

/// The money that the events put into escrow.
pub open spec fn escrow_sum(events: Seq<EventView>) -> int
    decreases events.len(),
{
    if events.len() == 0 {
        0
    } else {
        escrow_sum(events.drop_last()) + match events.last() {
            EventView::NoteInEscrow { value_rsd } => value_rsd as int,
            _ => 0,
        }
    }
}

pub proof fn lemma_sums_add(a: Seq<EventView>, b: Seq<EventView>)
    ensures
        credited_sum(a + b) == credited_sum(a) + credited_sum(b),
        returned_sum(a + b) == returned_sum(a) + returned_sum(b),
        escrow_sum(a + b) == escrow_sum(a) + escrow_sum(b),
    decreases b.len(),
{
    if b.len() == 0 {
        assert(a + b =~= a);
    } else {
        lemma_sums_add(a, b.drop_last());
        assert((a + b).drop_last() =~= a + b.drop_last());
    }
}

/// Whether every credit among the events carries the running total that it leads to, counted
/// from `start`.
pub open spec fn counts_up(start: int, events: Seq<EventView>) -> bool
    decreases events.len(),
{
    events.len() > 0 ==> counts_up(start, events.drop_last()) && (events.last() matches
        EventView::Credited { value_rsd, total_inserted_rsd } ==> total_inserted_rsd == start
        + credited_sum(events.drop_last()) + value_rsd)
}

/// Lists of events that count up, one from where the other ends, count up together.
pub proof fn lemma_counts_up_add(start: int, a: Seq<EventView>, b: Seq<EventView>)
    requires
        counts_up(start, a),
        counts_up(start + credited_sum(a), b),
    ensures
        counts_up(start, a + b),
    decreases b.len(),
{
    if b.len() == 0 {
        assert(a + b =~= a);
    } else {
        lemma_counts_up_add(start, a, b.drop_last());
        assert((a + b).drop_last() =~= a + b.drop_last());
        lemma_sums_add(a, b.drop_last());
    }
}

/// Whether every credit among the events is for a note that is worth something.
pub open spec fn credits_pay(events: Seq<EventView>) -> bool {
    forall|i: int|
        0 <= i < events.len() ==> (#[trigger] events[i] matches EventView::Credited {
            value_rsd,
            ..
        } ==> value_rsd > 0)
}

pub proof fn lemma_credits_pay_add(a: Seq<EventView>, b: Seq<EventView>)
    requires
        credits_pay(a),
        credits_pay(b),
    ensures
        credits_pay(a + b),
{
    let all = a + b;
    assert forall|i: int| 0 <= i < all.len() implies (#[trigger] all[i] matches EventView::Credited {
        value_rsd,
        ..
    } ==> value_rsd > 0) by {
        assert(all[i] == if i < a.len() {
            a[i]
        } else {
            b[i - a.len()]
        });
    }
}

proof fn lemma_effect_credits(st: ValidatorView, code: u8, channel: u8)
    ensures
        ({
            let e = effect(st, code, channel);
            &&& e.state.channels == st.channels
            &&& credited_sum(effect_events(e)) == e.state.inserted - st.inserted
            &&& counts_up(st.inserted as int, effect_events(e))
        }),
{
    let ev = effect_events(effect(st, code, channel));
    if ev.len() > 0 {
        assert(ev.drop_last() =~= Seq::<EventView>::empty());
    }
    assert(credited_sum(Seq::<EventView>::empty()) == 0);
    assert(counts_up(st.inserted as int, Seq::<EventView>::empty()));
}

proof fn lemma_poll_from_credits(st: ValidatorView, response: Seq<u8>, i: int)
    ensures
        ({
            let t = poll_from(st, response, i);
            &&& t.state.channels == st.channels
            &&& credited_sum(t.events) == t.state.inserted - st.inserted
            &&& counts_up(st.inserted as int, t.events)
        }),
    decreases response.len() - i,
{
    assert(credited_sum(Seq::<EventView>::empty()) == 0);
    assert(counts_up(st.inserted as int, Seq::<EventView>::empty()));
    if 0 <= i < response.len() {
        let code = response[i];
        let next = i + 1 + payload_len(code);
        if next <= response.len() {
            let channel = if payload_len(code) == 1 {
                response[i + 1]
            } else {
                0u8
            };
            let e = effect(st, code, channel);
            lemma_effect_credits(st, code, channel);
            if e.flow is Next {
                let rest = poll_from(e.state, response, next);
                lemma_poll_from_credits(e.state, response, next);
                lemma_sums_add(effect_events(e), rest.events);
                lemma_counts_up_add(st.inserted as int, effect_events(e), rest.events);
            }
        }
    }
}

/// Whatever state a poll reply meets, the running total changes by exactly what is reported as
/// credited, every credit carries the running total that it leads to, and the channel values
/// stay as they were. The same holds of the rest of a reply, from any position on.
pub proof fn law_poll_totals_are_its_credits(st: ValidatorView, response: Seq<u8>, i: int)
    ensures
        ({
            let t = poll_trace(st, response);
            &&& t.state.channels == st.channels
            &&& t.state.inserted - st.inserted == credited_sum(t.events)
            &&& counts_up(st.inserted as int, t.events)
        }),
        ({
            let t = poll_from(st, response, i);
            &&& t.state.channels == st.channels
            &&& t.state.inserted - st.inserted == credited_sum(t.events)
            &&& counts_up(st.inserted as int, t.events)
        }),
{
    lemma_poll_from_credits(st, response, i);
    lemma_poll_from_credits(st, response, 1);
    let t = poll_trace(st, response);
    if response.len() > 0 && response[0] != RESPONSE_OK {
        assert(t.events.drop_last() =~= Seq::<EventView>::empty());
    }
    assert(credited_sum(Seq::<EventView>::empty()) == 0);
    assert(counts_up(st.inserted as int, Seq::<EventView>::empty()));
}

proof fn lemma_effect_sums(st: ValidatorView, code: u8, channel: u8)
    requires
        well_tracked(st),
    ensures
        ({
            let e = effect(st, code, channel);
            let ev = effect_events(e);
            &&& well_tracked(e.state)
            &&& credits_pay(ev)
            &&& credited_sum(ev) >= 0
            &&& credited_sum(ev) + returned_sum(ev) + held(e.state) <= held(st) + escrow_sum(ev)
        }),
{
    let e = effect(st, code, channel);
    let ev = effect_events(e);
    if ev.len() > 0 {
        assert(ev.drop_last() =~= Seq::<EventView>::empty());
    }
    assert(credited_sum(Seq::<EventView>::empty()) == 0);
    assert(returned_sum(Seq::<EventView>::empty()) == 0);
    assert(escrow_sum(Seq::<EventView>::empty()) == 0);
}

proof fn lemma_poll_from_sums(st: ValidatorView, response: Seq<u8>, i: int)
    requires
        well_tracked(st),
    ensures
        ({
            let t = poll_from(st, response, i);
            &&& well_tracked(t.state)
            &&& credits_pay(t.events)
            &&& credited_sum(t.events) >= 0
            &&& credited_sum(t.events) + returned_sum(t.events) + held(t.state) <= held(st)
                + escrow_sum(t.events)
        }),
    decreases response.len() - i,
{
    if 0 <= i < response.len() {
        let code = response[i];
        let next = i + 1 + payload_len(code);
        if next <= response.len() {
            let channel = if payload_len(code) == 1 {
                response[i + 1]
            } else {
                0u8
            };
            let e = effect(st, code, channel);
            lemma_effect_sums(st, code, channel);
            if e.flow is Next {
                let rest = poll_from(e.state, response, next);
                lemma_poll_from_sums(e.state, response, next);
                lemma_sums_add(effect_events(e), rest.events);
                lemma_credits_pay_add(effect_events(e), rest.events);
            }
        }
    }
}

/// Money is accounted for: where the tracked note is worth something, so is every note that is
/// credited over a poll reply. The running total never shrinks, and nothing is credited or
/// handed back beyond the notes that were in escrow.
pub proof fn law_poll_accounts_for_money(st: ValidatorView, response: Seq<u8>)
    requires
        well_tracked(st),
    ensures
        ({
            let t = poll_trace(st, response);
            &&& well_tracked(t.state)
            &&& credits_pay(t.events)
            &&& t.state.inserted >= st.inserted
            &&& credited_sum(t.events) + returned_sum(t.events) + held(t.state) <= held(st)
                + escrow_sum(t.events)
        }),
{
    lemma_poll_from_sums(st, response, 1);
    law_poll_totals_are_its_credits(st, response, 1);
    let t = poll_trace(st, response);
    if response.len() > 0 && response[0] != RESPONSE_OK {
        assert(t.events.drop_last() =~= Seq::<EventView>::empty());
    }
    assert(credited_sum(Seq::<EventView>::empty()) == 0);
    assert(returned_sum(Seq::<EventView>::empty()) == 0);
    assert(escrow_sum(Seq::<EventView>::empty()) == 0);
}

/// The same holds of the rest of a reply that is taken up again behind a decision.
pub proof fn law_resumed_poll_accounts_for_money(st: ValidatorView, response: Seq<u8>, i: int)
    requires
        well_tracked(st),
    ensures
        ({
            let t = poll_from(st, response, i);
            &&& well_tracked(t.state)
            &&& credits_pay(t.events)
            &&& t.state.inserted >= st.inserted
            &&& credited_sum(t.events) + returned_sum(t.events) + held(t.state) <= held(st)
                + escrow_sum(t.events)
        }),
{
    lemma_poll_from_sums(st, response, i);
    law_poll_totals_are_its_credits(st, response, i);
}

/// A poll that stops for a decision holds exactly the note that it reported last, and
/// continues inside the reply.
pub proof fn law_decision_is_on_the_held_note(st: ValidatorView, response: Seq<u8>, i: int)
    ensures
        poll_from(st, response, i).step matches PollStepView::AwaitDecision { resume } ==> {
            let t = poll_from(st, response, i);
            &&& i < resume <= response.len()
            &&& t.events.len() > 0
            &&& t.state.escrow matches Some(v)
            &&& v > 0
            &&& t.events.last() == (EventView::NoteInEscrow { value_rsd: v })
        },
    decreases response.len() - i,
{
    if 0 <= i < response.len() {
        let code = response[i];
        let next = i + 1 + payload_len(code);
        if next <= response.len() {
            let channel = if payload_len(code) == 1 {
                response[i + 1]
            } else {
                0u8
            };
            let e = effect(st, code, channel);
            if e.flow is Next {
                law_decision_is_on_the_held_note(e.state, response, next);
                let rest = poll_from(e.state, response, next);
                if rest.events.len() > 0 {
                    assert((effect_events(e) + rest.events).last() == rest.events.last());
                }
            }
        }
    }
}

} // verus!
