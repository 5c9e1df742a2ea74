//! The validator driver: what is sent next, and what is reported, after every reply.
//!
//! The driver performs nothing itself. Each step returns the events to report and the one
//! thing to do next; the caller does it and hands the outcome to the matching method.

pub mod laws;

use vstd::prelude::*;
use vstd::string::*;

use crate::models::{
    error_text, event_views, hardware, ErrorView, EventView, KioskError, KioskResult, PaymentEvent,
};
use crate::nv9::poll::{
    poll_from, poll_trace, process_poll, resume_poll, PollRun, PollStep, PollStepView, PollTrace,
    ValidatorState, ValidatorView,
};
use crate::nv9::setup::{inhibit_masks, mask_of, parse_setup_response, setup_values, SetupData};
use crate::nv9::{
    acknowledge_or_notice, acknowledgement, EscrowDecision, CMD_DISABLE, CMD_ENABLE, CMD_POLL,
    CMD_REJECT, CMD_SETUP_REQUEST, CMD_SET_INHIBITS, CMD_SYNC, RESPONSE_OK,
};
use crate::text::{hex2, hex_byte};

verus! {

/// The address of the validator, which is also the sequence byte with the bit cleared.
pub const SSP_ADDRESS: u8 = 0x00;

/// The bit of the sequence byte that toggles with every successful command.
pub const SSP_SEQUENCE_BIT: u8 = 0x80;

/// Pause between two polls.
pub const POLL_INTERVAL_MS: u64 = 200;

/// How long one wait for an escrow decision lasts before the stop flag is looked at again.
pub const ESCROW_WAIT_SLICE_MS: u64 = 100;

/// Why the validator is being set up.
#[derive(Debug, Clone, Copy, PartialEq, Eq, Structural)]
pub enum Origin {
    /// The session begins.
    First,
    /// A poll failed.
    PollFailure,
    /// The validator reported that it was reset.
    AfterReset,
}

/// Which reply of the set-up sequence is awaited.
pub enum InitStage {
    Sync,
    Setup,
    Inhibits(SetupData),
    Enable(SetupData),
}

pub enum InitStageView {
    Sync,
    Setup,
    Inhibits(Seq<i64>),
    Enable(Seq<i64>),
}

impl View for InitStage {
    type V = InitStageView;

    open spec fn view(&self) -> InitStageView {
        match *self {
            InitStage::Sync => InitStageView::Sync,
            InitStage::Setup => InitStageView::Setup,
            InitStage::Inhibits(d) => InitStageView::Inhibits(d.channel_values@),
            InitStage::Enable(d) => InitStageView::Enable(d.channel_values@),
        }
    }
}

/// Which reply of a rejection is awaited: of the command, of the synchronisation after it
/// failed, or of the command sent once more.
#[derive(Debug, Clone, Copy, PartialEq, Eq, Structural)]
pub enum RejectStage {
    First,
    Resync,
    Second,
}

/// What the driver is waiting for.
pub enum Phase {
    /// A reply of the set-up sequence.
    Init { stage: InitStage, origin: Origin },
    /// The go-ahead for the first poll.
    Connected,
    /// The go-ahead for the next poll.
    Ready,
    /// The reply to a poll.
    Polling,
    /// The decision on the note in escrow; the poll reply goes on at `index`.
    Deciding { response: Vec<u8>, index: usize },
    /// A reply of a rejection; the poll reply goes on at `index`.
    Rejecting { response: Vec<u8>, index: usize, stage: RejectStage },
    /// The reply to the rejection with which a stopped session hands its note back.
    StopRejecting,
    /// The reply to the final disable, how the session failed, if it did, and whether it was
    /// the recovery from a failed poll that did.
    Disabling { failure: Option<KioskError>, recovery: bool },
    /// Nothing more.
    Done,
}

pub enum PhaseView {
    Init { stage: InitStageView, origin: Origin },
    Connected,
    Ready,
    Polling,
    Deciding { response: Seq<u8>, index: int },
    Rejecting { response: Seq<u8>, index: int, stage: RejectStage },
    StopRejecting,
    Disabling { failure: Option<ErrorView>, recovery: bool },
    Done,
}

pub open spec fn opt_error(o: Option<KioskError>) -> Option<ErrorView> {
    match o {
        Some(e) => Some(e@),
        None => None,
    }
}

impl View for Phase {
    type V = PhaseView;

    open spec fn view(&self) -> PhaseView {
        match *self {
            Phase::Init { stage, origin } => PhaseView::Init { stage: stage@, origin },
            Phase::Connected => PhaseView::Connected,
            Phase::Ready => PhaseView::Ready,
            Phase::Polling => PhaseView::Polling,
            Phase::Deciding { response, index } => PhaseView::Deciding {
                response: response@,
                index: index as int,
            },
            Phase::Rejecting { response, index, stage } => PhaseView::Rejecting {
                response: response@,
                index: index as int,
                stage,
            },
            Phase::StopRejecting => PhaseView::StopRejecting,
            Phase::Disabling { failure, recovery } => PhaseView::Disabling {
                failure: opt_error(failure),
                recovery,
            },
            Phase::Done => PhaseView::Done,
        }
    }
}

/// The driver of one session: the sequence byte of the next command (while the reply to a
/// command is awaited, the byte that it was sent with), the validator as tracked, and what is
/// awaited.
pub struct Driver {
    pub next_sequence: u8,
    pub validator: ValidatorState,
    pub phase: Phase,
}

pub struct DriverView {
    pub next_sequence: u8,
    pub validator: ValidatorView,
    pub phase: PhaseView,
}

impl View for Driver {
    type V = DriverView;

    open spec fn view(&self) -> DriverView {
        DriverView {
            next_sequence: self.next_sequence,
            validator: self.validator@,
            phase: self.phase@,
        }
    }
}

/// The one thing to do after the events of a step were reported.
pub enum Action {
    /// Exchange a packet, then call `replied`.
    Send { sequence: u8, command: u8, params: Vec<u8> },
    /// Wait for the escrow decision, then call `decided` or `decisions_closed`.
    AwaitDecision,
    /// Sleep for the poll interval unless the session is stopped, then call `resume`.
    Pause,
    /// Call `resume` at once.
    Resume,
    /// Close the port: the session is over.
    Finish(KioskResult<()>),
}

pub enum ActionView {
    Send { sequence: u8, command: u8, params: Seq<u8> },
    AwaitDecision,
    Pause,
    Resume,
    Finish(Option<ErrorView>),
}

impl View for Action {
    type V = ActionView;

    open spec fn view(&self) -> ActionView {
        match *self {
            Action::Send { sequence, command, params } => ActionView::Send {
                sequence,
                command,
                params: params@,
            },
            Action::AwaitDecision => ActionView::AwaitDecision,
            Action::Pause => ActionView::Pause,
            Action::Resume => ActionView::Resume,
            Action::Finish(r) => ActionView::Finish(
                match r {
                    Ok(_) => None,
                    Err(e) => Some(e@),
                },
            ),
        }
    }
}

/// What a step gives: the driver after it, the events to report in order, what to report
/// after them even if nobody listens any more, and what to do.
pub struct Step {
    pub driver: Driver,
    pub events: Vec<PaymentEvent>,
    pub farewell: Vec<PaymentEvent>,
    pub action: Action,
}

pub struct StepView {
    pub driver: DriverView,
    pub events: Seq<EventView>,
    pub farewell: Seq<EventView>,
    pub action: ActionView,
}

impl View for Step {
    type V = StepView;

    open spec fn view(&self) -> StepView {
        StepView {
            driver: self.driver@,
            events: event_views(self.events@),
            farewell: event_views(self.farewell@),
            action: self.action@,
        }
    }
}

/// How the wait for an escrow decision ended.
#[derive(Debug, Clone, Copy, PartialEq, Eq, Structural)]
pub enum DecisionWait {
    Accept,
    Reject,
    /// The session was stopped while the note was held.
    Stop,
}

/// What one look at the stop flag and at the decisions gives: a stop comes before a decision
/// that has arrived, and without either the wait goes on.
pub fn wait_for_decision(stop: bool, decision: Option<EscrowDecision>) -> (r: Option<DecisionWait>)
    ensures
        r == if stop {
            Some(DecisionWait::Stop)
        } else {
            match decision {
                Some(EscrowDecision::Accept) => Some(DecisionWait::Accept),
                Some(EscrowDecision::Reject) => Some(DecisionWait::Reject),
                None => None,
            }
        },
{
    if stop {
        return Some(DecisionWait::Stop);
    }
    match decision {
        Some(EscrowDecision::Accept) => Some(DecisionWait::Accept),
        Some(EscrowDecision::Reject) => Some(DecisionWait::Reject),
        None => None,
    }
}

// ---------------------------------------------------------------------------
// The transitions
// ---------------------------------------------------------------------------

/// Sends a new command. The sequence byte stays until its reply is in.
pub open spec fn sending(
    d: DriverView,
    command: u8,
    params: Seq<u8>,
    phase: PhaseView,
    events: Seq<EventView>,
) -> StepView {
    StepView {
        driver: DriverView { phase, ..d },
        events,
        farewell: Seq::empty(),
        action: ActionView::Send { sequence: d.next_sequence, command, params },
    }
}

/// Sends a synchronisation, which goes out with the bit cleared whatever the next command
/// would carry.
pub open spec fn syncing(d: DriverView, phase: PhaseView, events: Seq<EventView>) -> StepView {
    StepView {
        driver: DriverView { phase, ..d },
        events,
        farewell: Seq::empty(),
        action: ActionView::Send {
            sequence: SSP_ADDRESS,
            command: CMD_SYNC,
            params: Seq::<u8>::empty(),
        },
    }
}

/// Ends the session without touching the validator.
pub open spec fn finishing(
    d: DriverView,
    events: Seq<EventView>,
    farewell: Seq<EventView>,
    failure: Option<ErrorView>,
) -> StepView {
    StepView {
        driver: DriverView { phase: PhaseView::Done, ..d },
        events,
        farewell,
        action: ActionView::Finish(failure),
    }
}

/// Starts the set-up sequence.
pub open spec fn starting(d: DriverView, origin: Origin, events: Seq<EventView>) -> StepView {
    syncing(d, PhaseView::Init { stage: InitStageView::Sync, origin }, events)
}

/// Disables the validator, the last command of a session.
pub open spec fn disabling(
    d: DriverView,
    failure: Option<ErrorView>,
    events: Seq<EventView>,
) -> StepView {
    sending(
        d,
        CMD_DISABLE,
        Seq::empty(),
        PhaseView::Disabling { failure, recovery: false },
        events,
    )
}

/// The error of a session that a failed poll ended, from the error of its recovery.
pub open spec fn unrecovered(error: ErrorView) -> ErrorView {
    ErrorView::Hardware("NV9 Poll failed and resync was unsuccessful: "@ + error_text(error))
}

/// The report of a fatal error.
pub open spec fn fatal(e: ErrorView) -> EventView {
    EventView::Error { message: error_text(e) }
}

/// What a reply to a synchronisation means.
pub open spec fn sync_error(response: Seq<u8>) -> Option<ErrorView> {
    if response.len() == 0 {
        Some(ErrorView::Hardware("NV9 SYNC returned an empty response"@))
    } else if response[0] != RESPONSE_OK {
        Some(
            ErrorView::Hardware("NV9 SYNC returned SSP response 0x"@ + hex2(response[0], true)),
        )
    } else {
        None
    }
}

/// The set-up sequence failed.
pub open spec fn init_failed(
    d: DriverView,
    origin: Origin,
    error: ErrorView,
    events: Seq<EventView>,
) -> StepView {
    match origin {
        Origin::First => finishing(d, events, seq![fatal(error)], Some(error)),
        Origin::PollFailure => sending(
            d,
            CMD_DISABLE,
            Seq::empty(),
            PhaseView::Disabling { failure: Some(unrecovered(error)), recovery: true },
            events,
        ),
        Origin::AfterReset => disabling(d, Some(error), events),
    }
}

/// The set-up sequence is complete. A poll that failed leaves no note tracked.
pub open spec fn init_done(d: DriverView, origin: Origin, values: Seq<i64>) -> StepView {
    match origin {
        Origin::First => StepView {
            driver: DriverView {
                validator: ValidatorView { channels: values, escrow: None, inserted: 0 },
                phase: PhaseView::Connected,
                ..d
            },
            events: seq![EventView::Connected],
            farewell: Seq::empty(),
            action: ActionView::Resume,
        },
        Origin::PollFailure => StepView {
            driver: DriverView {
                validator: ValidatorView { channels: values, escrow: None, ..d.validator },
                phase: PhaseView::Ready,
                ..d
            },
            events: Seq::empty(),
            farewell: Seq::empty(),
            action: ActionView::Resume,
        },
        Origin::AfterReset => StepView {
            driver: DriverView {
                validator: ValidatorView { channels: values, ..d.validator },
                phase: PhaseView::Ready,
                ..d
            },
            events: Seq::empty(),
            farewell: Seq::empty(),
            action: ActionView::Pause,
        },
    }
}

/// A reply to an acknowledged command of the set-up sequence: on success `next` follows.
pub open spec fn init_acknowledged(
    d: DriverView,
    origin: Origin,
    response: Seq<u8>,
    operation: Seq<char>,
    refusal: Seq<char>,
    next: StepView,
) -> StepView {
    match acknowledgement(response, operation) {
        Ok(None) => next,
        Ok(Some(n)) => init_failed(d, origin, ErrorView::Hardware(refusal), seq![n]),
        Err(e) => init_failed(d, origin, e, Seq::empty()),
    }
}

/// A reply of the set-up sequence: synchronise, read the channel values, enable the channels
/// that have one, enable the validator.
pub open spec fn init_replied(
    d: DriverView,
    stage: InitStageView,
    origin: Origin,
    reply: Result<Seq<u8>, ErrorView>,
) -> StepView {
    match reply {
        Err(e) => init_failed(d, origin, e, Seq::empty()),
        Ok(response) => match stage {
            InitStageView::Sync => match sync_error(response) {
                Some(e) => init_failed(d, origin, e, Seq::empty()),
                None => sending(
                    d,
                    CMD_SETUP_REQUEST,
                    Seq::empty(),
                    PhaseView::Init { stage: InitStageView::Setup, origin },
                    Seq::empty(),
                ),
            },
            InitStageView::Setup => match setup_values(response) {
                Err(text) => init_failed(d, origin, ErrorView::Hardware(text), Seq::empty()),
                Ok(values) => sending(
                    d,
                    CMD_SET_INHIBITS,
                    seq![mask_of(values, 0), mask_of(values, 8)],
                    PhaseView::Init { stage: InitStageView::Inhibits(values), origin },
                    Seq::empty(),
                ),
            },
            InitStageView::Inhibits(values) => init_acknowledged(
                d,
                origin,
                response,
                "Set Channel Inhibits"@,
                "NV9 Set Channel Inhibits was rejected"@,
                sending(
                    d,
                    CMD_ENABLE,
                    Seq::empty(),
                    PhaseView::Init { stage: InitStageView::Enable(values), origin },
                    Seq::empty(),
                ),
            ),
            InitStageView::Enable(values) => init_acknowledged(
                d,
                origin,
                response,
                "Enable"@,
                "NV9 Enable was rejected"@,
                init_done(d, origin, values),
            ),
        },
    }
}

/// What follows a poll run.
pub open spec fn polled(
    d: DriverView,
    response: Seq<u8>,
    lead: Seq<EventView>,
    t: PollTrace,
) -> StepView {
    let after = DriverView { validator: t.state, ..d };
    let events = lead + t.events;
    match t.step {
        PollStepView::Finished => StepView {
            driver: DriverView { phase: PhaseView::Ready, ..after },
            events,
            farewell: Seq::empty(),
            action: ActionView::Pause,
        },
        PollStepView::Reinitialize => starting(after, Origin::AfterReset, events),
        PollStepView::AwaitDecision { resume } => StepView {
            driver: DriverView {
                phase: PhaseView::Deciding { response, index: resume },
                ..after
            },
            events,
            farewell: Seq::empty(),
            action: ActionView::AwaitDecision,
        },
        PollStepView::Failed(e) => disabling(after, Some(e), events),
    }
}

/// The rest of a poll reply.
pub open spec fn continued(
    d: DriverView,
    response: Seq<u8>,
    index: int,
    lead: Seq<EventView>,
) -> StepView {
    polled(d, response, lead, poll_from(d.validator, response, index))
}

/// The reply to a rejection: acknowledged, or refused with a notice; the poll reply goes on.
pub open spec fn rejected(
    d: DriverView,
    response: Seq<u8>,
    index: int,
    reply: Seq<u8>,
) -> StepView {
    match acknowledgement(reply, "Reject"@) {
        Ok(None) => continued(d, response, index, Seq::empty()),
        Ok(Some(n)) => continued(d, response, index, seq![n]),
        Err(e) => disabling(d, Some(e), Seq::empty()),
    }
}

/// The reply to the final disable.
pub open spec fn disabled(
    d: DriverView,
    failure: Option<ErrorView>,
    reply: Result<Seq<u8>, ErrorView>,
) -> StepView {
    let outcome = match reply {
        Ok(response) => acknowledgement(response, "Disable"@),
        Err(e) => Err(e),
    };
    let lead = match outcome {
        Ok(Some(n)) => seq![n],
        _ => Seq::<EventView>::empty(),
    };
    match failure {
        Some(e) => finishing(
            d,
            Seq::empty(),
            lead.push(fatal(e)).push(EventView::Disconnected),
            Some(e),
        ),
        None => match outcome {
            Err(e) => finishing(
                d,
                Seq::empty(),
                seq![fatal(e), EventView::Disconnected],
                Some(e),
            ),
            Ok(_) => finishing(d, lead.push(EventView::Disconnected), Seq::empty(), None),
        },
    }
}

/// Whether the driver waits for the reply to a synchronisation.
pub open spec fn synchronising(p: PhaseView) -> bool {
    match p {
        PhaseView::Init { stage, .. } => stage is Sync,
        PhaseView::Rejecting { stage, .. } => stage == RejectStage::Resync,
        _ => false,
    }
}

/// The sequence byte of the next command once the reply to the last packet is in: the bit
/// toggles per successful command, a command that failed after all attempts leaves it, and a
/// synchronisation clears it.
pub open spec fn sequence_after(d: DriverView, reply: Result<Seq<u8>, ErrorView>) -> u8 {
    if synchronising(d.phase) {
        SSP_ADDRESS
    } else if reply is Ok {
        d.next_sequence ^ SSP_SEQUENCE_BIT
    } else {
        d.next_sequence
    }
}

/// Whether the driver waits for the reply to a packet.
pub open spec fn awaits_reply(p: PhaseView) -> bool {
    p is Init || p is Polling || p is Rejecting || p is StopRejecting || p is Disabling
}

/// What the reply to the last packet leads to.
pub open spec fn after_reply(d0: DriverView, reply: Result<Seq<u8>, ErrorView>) -> StepView {
    let d = DriverView { next_sequence: sequence_after(d0, reply), ..d0 };
    match d.phase {
        PhaseView::Init { stage, origin } => init_replied(d, stage, origin, reply),
        PhaseView::Polling => match reply {
            Ok(response) => polled(
                d,
                response,
                Seq::empty(),
                poll_trace(d.validator, response),
            ),
            Err(e) => starting(
                d,
                Origin::PollFailure,
                seq![
                    EventView::Notice {
                        message: "NV9 Poll failed; attempting resync: "@ + error_text(e),
                    },
                ],
            ),
        },
        PhaseView::Rejecting { response, index, stage } => match stage {
            RejectStage::First => match reply {
                Ok(r) => rejected(d, response, index, r),
                Err(_) => syncing(
                    d,
                    PhaseView::Rejecting { response, index, stage: RejectStage::Resync },
                    Seq::empty(),
                ),
            },
            RejectStage::Resync => match reply {
                Ok(r) => match sync_error(r) {
                    None => sending(
                        d,
                        CMD_REJECT,
                        Seq::empty(),
                        PhaseView::Rejecting { response, index, stage: RejectStage::Second },
                        Seq::empty(),
                    ),
                    Some(e) => disabling(d, Some(e), Seq::empty()),
                },
                Err(e) => disabling(d, Some(e), Seq::empty()),
            },
            RejectStage::Second => match reply {
                Ok(r) => rejected(d, response, index, r),
                Err(e) => disabling(d, Some(e), Seq::empty()),
            },
        },
        PhaseView::StopRejecting => disabling(d, None, Seq::empty()),
        PhaseView::Disabling { failure, .. } => disabled(d, failure, reply),
        _ => finishing(d, Seq::empty(), Seq::empty(), None),
    }
}

/// What the decision on the note in escrow leads to. A note that is accepted is credited
/// only when the validator reports it stacked.
pub open spec fn after_decision(d: DriverView, wait: DecisionWait) -> StepView {
    match d.phase {
        PhaseView::Deciding { response, index } => match wait {
            DecisionWait::Accept => continued(d, response, index, Seq::empty()),
            DecisionWait::Reject => sending(
                d,
                CMD_REJECT,
                Seq::empty(),
                PhaseView::Rejecting { response, index, stage: RejectStage::First },
                Seq::empty(),
            ),
            DecisionWait::Stop => sending(
                d,
                CMD_REJECT,
                Seq::empty(),
                PhaseView::StopRejecting,
                Seq::empty(),
            ),
        },
        _ => finishing(d, Seq::empty(), Seq::empty(), None),
    }
}

/// What follows when nobody will decide on the note in escrow any more.
pub open spec fn after_closed_decisions(d: DriverView) -> StepView {
    disabling(
        d,
        Some(
            ErrorView::Hardware(
                "NV9 escrow decision channel disconnected while a note was held"@,
            ),
        ),
        Seq::empty(),
    )
}

/// A session on an open port begins.
pub open spec fn session_start() -> StepView {
    starting(
        DriverView {
            next_sequence: SSP_ADDRESS,
            validator: ValidatorView { channels: Seq::empty(), escrow: None, inserted: 0 },
            phase: PhaseView::Done,
        },
        Origin::First,
        Seq::empty(),
    )
}

/// What the go-ahead leads to.
pub open spec fn after_resume(d: DriverView, stop: bool) -> StepView {
    if stop {
        disabling(d, None, Seq::empty())
    } else {
        sending(d, CMD_POLL, Seq::empty(), PhaseView::Polling, Seq::empty())
    }
}

/// The error that ends a session whose events nobody receives any more.
pub open spec fn receiver_gone() -> ErrorView {
    ErrorView::Hardware("NV9 payment-event receiver disconnected"@)
}

/// What follows when the events of a step could not be reported: its packet is not sent. Where
/// it was the recovery from a failed poll that had them to report, the recovery has failed.
pub open spec fn after_closed_events(d: DriverView) -> StepView {
    let e = match d.phase {
        PhaseView::Disabling { recovery: true, .. } => unrecovered(receiver_gone()),
        _ => receiver_gone(),
    };
    let alone = match d.phase {
        PhaseView::Init { origin, .. } => origin == Origin::First,
        PhaseView::Connected => true,
        PhaseView::Done => true,
        _ => false,
    };
    if alone {
        finishing(d, Seq::empty(), seq![fatal(e)], Some(e))
    } else {
        disabling(d, Some(e), Seq::empty())
    }
}

// ---------------------------------------------------------------------------
// The driver
// ---------------------------------------------------------------------------

/// The views of what came back for a packet.
pub open spec fn reply_view(reply: KioskResult<Vec<u8>>) -> Result<Seq<u8>, ErrorView> {
    match reply {
        Ok(r) => Ok(r@),
        Err(e) => Err(e@),
    }
}

fn no_events() -> (r: Vec<PaymentEvent>)
    ensures
        event_views(r@) == Seq::<EventView>::empty(),
{
    let r: Vec<PaymentEvent> = Vec::new();
    assert(event_views(r@) =~= Seq::<EventView>::empty());
    r
}

fn one_event(e: PaymentEvent) -> (r: Vec<PaymentEvent>)
    ensures
        event_views(r@) == seq![e@],
{
    let mut r: Vec<PaymentEvent> = Vec::new();
    r.push(e);
    assert(event_views(r@) =~= seq![e@]);
    r
}

fn add_event(events: &mut Vec<PaymentEvent>, e: PaymentEvent)
    ensures
        event_views(final(events)@) == event_views(old(events)@).push(e@),
{
    let ghost before = event_views(events@);
    events.push(e);
    assert(event_views(events@) =~= before.push(e@));
}

fn add_events(events: &mut Vec<PaymentEvent>, more: Vec<PaymentEvent>)
    ensures
        event_views(final(events)@) == event_views(old(events)@) + event_views(more@),
{
    let ghost before = events@;
    let mut more = more;
    let ghost tail = more@;
    events.append(&mut more);
    assert(event_views(events@) =~= event_views(before) + event_views(tail));
}

fn no_params() -> (r: Vec<u8>)
    ensures
        r@ == Seq::<u8>::empty(),
{
    Vec::new()
}

fn fatal_event(e: &KioskError) -> (r: PaymentEvent)
    ensures
        r@ == fatal(e@),
{
    PaymentEvent::Error { message: e.message() }
}

fn unrecovered_error(error: &KioskError) -> (r: KioskError)
    ensures
        r@ == unrecovered(error@),
{
    hardware(
        "NV9 Poll failed and resync was unsuccessful: ".to_string().concat(
            error.message().as_str(),
        ),
    )
}

/// Whether a reply to a synchronisation acknowledges it.
pub fn check_sync(response: &[u8]) -> (r: KioskResult<()>)
    ensures
        match sync_error(response@) {
            None => r is Ok,
            Some(v) => r matches Err(e) && e@ == v,
        },
{
    if response.len() == 0 {
        Err(hardware("NV9 SYNC returned an empty response".to_string()))
    } else if response[0] != RESPONSE_OK {
        Err(
            hardware(
                "NV9 SYNC returned SSP response 0x".to_string().concat(
                    hex_byte(response[0], true).as_str(),
                ),
            ),
        )
    } else {
        Ok(())
    }
}

impl Driver {
    fn send(self, command: u8, params: Vec<u8>, phase: Phase, events: Vec<PaymentEvent>) -> (r:
        Step)
        ensures
            r@ == sending(self@, command, params@, phase@, event_views(events@)),
    {
        let sequence = self.next_sequence;
        let driver = Driver {
            next_sequence: sequence,
            validator: self.validator,
            phase,
        };
        Step {
            driver,
            events,
            farewell: no_events(),
            action: Action::Send { sequence, command, params },
        }
    }

    fn sync(self, phase: Phase, events: Vec<PaymentEvent>) -> (r: Step)
        ensures
            r@ == syncing(self@, phase@, event_views(events@)),
    {
        let driver = Driver {
            next_sequence: self.next_sequence,
            validator: self.validator,
            phase,
        };
        Step {
            driver,
            events,
            farewell: no_events(),
            action: Action::Send { sequence: SSP_ADDRESS, command: CMD_SYNC, params: no_params() },
        }
    }

    fn finish(
        self,
        events: Vec<PaymentEvent>,
        farewell: Vec<PaymentEvent>,
        result: KioskResult<()>,
    ) -> (r: Step)
        ensures
            r@ == finishing(
                self@,
                event_views(events@),
                event_views(farewell@),
                match result {
                    Ok(_) => None,
                    Err(e) => Some(e@),
                },
            ),
    {
        let driver = Driver {
            next_sequence: self.next_sequence,
            validator: self.validator,
            phase: Phase::Done,
        };
        Step { driver, events, farewell, action: Action::Finish(result) }
    }

    fn start(self, origin: Origin, events: Vec<PaymentEvent>) -> (r: Step)
        ensures
            r@ == starting(self@, origin, event_views(events@)),
    {
        self.sync(Phase::Init { stage: InitStage::Sync, origin }, events)
    }

    fn disable(self, failure: Option<KioskError>, events: Vec<PaymentEvent>) -> (r: Step)
        ensures
            r@ == disabling(self@, opt_error(failure), event_views(events@)),
    {
        self.send(
            CMD_DISABLE,
            no_params(),
            Phase::Disabling { failure, recovery: false },
            events,
        )
    }

    fn fail_init(self, origin: Origin, error: KioskError, events: Vec<PaymentEvent>) -> (r: Step)
        ensures
            r@ == init_failed(self@, origin, error@, event_views(events@)),
    {
        match origin {
            Origin::First => {
                let farewell = one_event(fatal_event(&error));
                self.finish(events, farewell, Err(error))
            },
            Origin::PollFailure => self.send(
                CMD_DISABLE,
                no_params(),
                Phase::Disabling { failure: Some(unrecovered_error(&error)), recovery: true },
                events,
            ),
            Origin::AfterReset => self.disable(Some(error), events),
        }
    }

    fn finish_init(self, origin: Origin, data: SetupData) -> (r: Step)
        ensures
            r@ == init_done(self@, origin, data.channel_values@),
    {
        let next_sequence = self.next_sequence;
        match origin {
            Origin::First => {
                let validator = ValidatorState {
                    channel_values: data.channel_values,
                    escrow_value: None,
                    total_inserted_rsd: 0,
                };
                Step {
                    driver: Driver {
                        next_sequence,
                        validator,
                        phase: Phase::Connected,
                    },
                    events: one_event(PaymentEvent::Connected),
                    farewell: no_events(),
                    action: Action::Resume,
                }
            },
            Origin::PollFailure => {
                let validator = ValidatorState {
                    channel_values: data.channel_values,
                    escrow_value: None,
                    total_inserted_rsd: self.validator.total_inserted_rsd,
                };
                Step {
                    driver: Driver {
                        next_sequence,
                        validator,
                        phase: Phase::Ready,
                    },
                    events: no_events(),
                    farewell: no_events(),
                    action: Action::Resume,
                }
            },
            Origin::AfterReset => {
                let validator = ValidatorState {
                    channel_values: data.channel_values,
                    escrow_value: self.validator.escrow_value,
                    total_inserted_rsd: self.validator.total_inserted_rsd,
                };
                Step {
                    driver: Driver {
                        next_sequence,
                        validator,
                        phase: Phase::Ready,
                    },
                    events: no_events(),
                    farewell: no_events(),
                    action: Action::Pause,
                }
            },
        }
    }

    fn continue_init(self, stage: InitStage, origin: Origin, reply: KioskResult<Vec<u8>>) -> (r:
        Step)
        ensures
            r@ == init_replied(self@, stage@, origin, reply_view(reply)),
    {
        let response = match reply {
            Ok(response) => response,
            Err(e) => return self.fail_init(origin, e, no_events()),
        };
        match stage {
            InitStage::Sync => match check_sync(&response) {
                Ok(_) => self.send(
                    CMD_SETUP_REQUEST,
                    no_params(),
                    Phase::Init { stage: InitStage::Setup, origin },
                    no_events(),
                ),
                Err(e) => self.fail_init(origin, e, no_events()),
            },
            InitStage::Setup => match parse_setup_response(&response) {
                Ok(data) => {
                    let (low, high) = inhibit_masks(&data.channel_values);
                    let mut params: Vec<u8> = Vec::new();
                    params.push(low);
                    params.push(high);
                    assert(params@ =~= seq![low, high]);
                    self.send(
                        CMD_SET_INHIBITS,
                        params,
                        Phase::Init { stage: InitStage::Inhibits(data), origin },
                        no_events(),
                    )
                },
                Err(e) => self.fail_init(origin, e, no_events()),
            },
            InitStage::Inhibits(data) => match acknowledge_or_notice(
                &response,
                "Set Channel Inhibits",
            ) {
                Ok(None) => self.send(
                    CMD_ENABLE,
                    no_params(),
                    Phase::Init { stage: InitStage::Enable(data), origin },
                    no_events(),
                ),
                Ok(Some(n)) => self.fail_init(
                    origin,
                    hardware("NV9 Set Channel Inhibits was rejected".to_string()),
                    one_event(n),
                ),
                Err(e) => self.fail_init(origin, e, no_events()),
            },
            InitStage::Enable(data) => match acknowledge_or_notice(&response, "Enable") {
                Ok(None) => self.finish_init(origin, data),
                Ok(Some(n)) => self.fail_init(
                    origin,
                    hardware("NV9 Enable was rejected".to_string()),
                    one_event(n),
                ),
                Err(e) => self.fail_init(origin, e, no_events()),
            },
        }
    }

    fn after_poll(self, response: Vec<u8>, lead: Vec<PaymentEvent>, run: PollRun) -> (r: Step)
        ensures
            r@ == polled(
                self@,
                response@,
                event_views(lead@),
                (PollTrace {
                    state: self.validator@,
                    events: event_views(run.events@),
                    step: run.step@,
                }),
            ),
    {
        let mut events = lead;
        add_events(&mut events, run.events);
        match run.step {
            PollStep::Finished => Step {
                driver: Driver {
                    next_sequence: self.next_sequence,
                    validator: self.validator,
                    phase: Phase::Ready,
                },
                events,
                farewell: no_events(),
                action: Action::Pause,
            },
            PollStep::Reinitialize => self.start(Origin::AfterReset, events),
            PollStep::AwaitDecision { resume } => Step {
                driver: Driver {
                    next_sequence: self.next_sequence,
                    validator: self.validator,
                    phase: Phase::Deciding { response, index: resume },
                },
                events,
                farewell: no_events(),
                action: Action::AwaitDecision,
            },
            PollStep::Failed(e) => self.disable(Some(e), events),
        }
    }

    fn go_on(self, response: Vec<u8>, index: usize, lead: Vec<PaymentEvent>) -> (r: Step)
        ensures
            r@ == continued(self@, response@, index as int, event_views(lead@)),
    {
        let mut d = self;
        let run = resume_poll(&mut d.validator, &response, index);
        d.after_poll(response, lead, run)
    }

    fn after_reject(self, response: Vec<u8>, index: usize, reply: &[u8]) -> (r: Step)
        ensures
            r@ == rejected(self@, response@, index as int, reply@),
    {
        match acknowledge_or_notice(reply, "Reject") {
            Ok(None) => self.go_on(response, index, no_events()),
            Ok(Some(n)) => self.go_on(response, index, one_event(n)),
            Err(e) => self.disable(Some(e), no_events()),
        }
    }

    fn after_disable(self, failure: Option<KioskError>, reply: KioskResult<Vec<u8>>) -> (r: Step)
        ensures
            r@ == disabled(self@, opt_error(failure), reply_view(reply)),
    {
        let outcome = match reply {
            Ok(response) => acknowledge_or_notice(&response, "Disable"),
            Err(e) => Err(e),
        };
        match failure {
            Some(e) => {
                let mut farewell = match outcome {
                    Ok(Some(n)) => one_event(n),
                    _ => no_events(),
                };
                add_event(&mut farewell, fatal_event(&e));
                add_event(&mut farewell, PaymentEvent::Disconnected);
                self.finish(no_events(), farewell, Err(e))
            },
            None => match outcome {
                Err(e) => {
                    let mut farewell = one_event(fatal_event(&e));
                    add_event(&mut farewell, PaymentEvent::Disconnected);
                    assert(event_views(farewell@) =~= seq![fatal(e@), EventView::Disconnected]);
                    self.finish(no_events(), farewell, Err(e))
                },
                Ok(notice) => {
                    let mut events = match notice {
                        Some(n) => one_event(n),
                        None => no_events(),
                    };
                    add_event(&mut events, PaymentEvent::Disconnected);
                    self.finish(events, no_events(), Ok(()))
                },
            },
        }
    }

    /// The sequence byte of the next command, once a reply or the failure of the last packet
    /// is in.
    fn settled_sequence(&self, success: bool) -> (r: u8)
        ensures
            forall|reply: Result<Seq<u8>, ErrorView>|
                reply is Ok == success ==> r == #[trigger] sequence_after(self@, reply),
    {
        let synchronising = match &self.phase {
            Phase::Init { stage: InitStage::Sync, .. } => true,
            Phase::Rejecting { stage: RejectStage::Resync, .. } => true,
            _ => false,
        };
        if synchronising {
            SSP_ADDRESS
        } else if success {
            self.next_sequence ^ SSP_SEQUENCE_BIT
        } else {
            self.next_sequence
        }
    }

    /// A session on an open port: the first packet of the set-up sequence.
    pub fn begin() -> (r: Step)
        ensures
            r@ == session_start(),
    {
        let validator = ValidatorState {
            channel_values: Vec::new(),
            escrow_value: None,
            total_inserted_rsd: 0,
        };
        let driver = Driver {
            next_sequence: SSP_ADDRESS,
            validator,
            phase: Phase::Done,
        };
        assert(driver@.validator.channels =~= Seq::<i64>::empty());
        driver.start(Origin::First, no_events())
    }

    /// Whether the driver waits for the reply to a packet.
    pub fn awaits_reply(&self) -> (r: bool)
        ensures
            r == awaits_reply(self@.phase),
    {
        match self.phase {
            Phase::Init { .. } => true,
            Phase::Polling => true,
            Phase::Rejecting { .. } => true,
            Phase::StopRejecting => true,
            Phase::Disabling { .. } => true,
            _ => false,
        }
    }

    /// Whether the driver waits for a decision.
    pub fn awaits_decision(&self) -> (r: bool)
        ensures
            r == self.phase is Deciding,
    {
        match self.phase {
            Phase::Deciding { .. } => true,
            _ => false,
        }
    }

    /// Whether the driver waits for the go-ahead.
    pub fn awaits_go_ahead(&self) -> (r: bool)
        ensures
            r == (self.phase is Connected || self.phase is Ready),
    {
        match self.phase {
            Phase::Connected => true,
            Phase::Ready => true,
            _ => false,
        }
    }

    /// What came back for the last packet: its data, or the error after all attempts.
    pub fn replied(self, reply: KioskResult<Vec<u8>>) -> (r: Step)
        requires
            awaits_reply(self@.phase),
        ensures
            r@ == after_reply(self@, reply_view(reply)),
    {
        let next_sequence = self.settled_sequence(reply.is_ok());
        let Driver { next_sequence: _, validator, phase } = self;
        let mut d = Driver { next_sequence, validator, phase: Phase::Done };
        match phase {
            Phase::Init { stage, origin } => d.continue_init(stage, origin, reply),
            Phase::Polling => match reply {
                Ok(response) => {
                    let run = process_poll(&mut d.validator, &response);
                    d.after_poll(response, no_events(), run)
                },
                Err(e) => {
                    let message = "NV9 Poll failed; attempting resync: ".to_string().concat(
                        e.message().as_str(),
                    );
                    d.start(Origin::PollFailure, one_event(PaymentEvent::Notice { message }))
                },
            },
            Phase::Rejecting { response, index, stage } => match stage {
                RejectStage::First => match reply {
                    Ok(r) => d.after_reject(response, index, &r),
                    Err(_) => d.sync(
                        Phase::Rejecting { response, index, stage: RejectStage::Resync },
                        no_events(),
                    ),
                },
                RejectStage::Resync => match reply {
                    Ok(r) => match check_sync(&r) {
                        Ok(_) => d.send(
                            CMD_REJECT,
                            no_params(),
                            Phase::Rejecting { response, index, stage: RejectStage::Second },
                            no_events(),
                        ),
                        Err(e) => d.disable(Some(e), no_events()),
                    },
                    Err(e) => d.disable(Some(e), no_events()),
                },
                RejectStage::Second => match reply {
                    Ok(r) => d.after_reject(response, index, &r),
                    Err(e) => d.disable(Some(e), no_events()),
                },
            },
            Phase::StopRejecting => d.disable(None, no_events()),
            Phase::Disabling { failure, recovery: _ } => d.after_disable(failure, reply),
            _ => d.finish(no_events(), no_events(), Ok(())),
        }
    }

    /// The decision on the note in escrow.
    pub fn decided(self, wait: DecisionWait) -> (r: Step)
        requires
            self.phase is Deciding,
        ensures
            r@ == after_decision(self@, wait),
    {
        let Driver { next_sequence, validator, phase } = self;
        let d = Driver { next_sequence, validator, phase: Phase::Done };
        match phase {
            Phase::Deciding { response, index } => match wait {
                DecisionWait::Accept => d.go_on(response, index, no_events()),
                DecisionWait::Reject => d.send(
                    CMD_REJECT,
                    no_params(),
                    Phase::Rejecting { response, index, stage: RejectStage::First },
                    no_events(),
                ),
                DecisionWait::Stop => d.send(
                    CMD_REJECT,
                    no_params(),
                    Phase::StopRejecting,
                    no_events(),
                ),
            },
            _ => d.finish(no_events(), no_events(), Ok(())),
        }
    }

    /// Nobody will decide on the note in escrow any more.
    pub fn decisions_closed(self) -> (r: Step)
        requires
            self.phase is Deciding,
        ensures
            r@ == after_closed_decisions(self@),
    {
        self.disable(
            Some(
                hardware(
                    "NV9 escrow decision channel disconnected while a note was held".to_string(),
                ),
            ),
            no_events(),
        )
    }

    /// The go-ahead for the next poll, or the end of the session.
    pub fn resume(self, stop: bool) -> (r: Step)
        requires
            self.phase is Connected || self.phase is Ready,
        ensures
            r@ == after_resume(self@, stop),
    {
        if stop {
            self.disable(None, no_events())
        } else {
            self.send(CMD_POLL, no_params(), Phase::Polling, no_events())
        }
    }

    /// The events of the last step could not be reported; its action was not performed.
    pub fn events_closed(self) -> (r: Step)
        ensures
            r@ == after_closed_events(self@),
    {
        let gone = hardware("NV9 payment-event receiver disconnected".to_string());
        let e = match self.phase {
            Phase::Disabling { failure: _, recovery: true } => unrecovered_error(&gone),
            _ => gone,
        };
        let alone = match self.phase {
            Phase::Init { stage: _, origin } => origin == Origin::First,
            Phase::Connected => true,
            Phase::Done => true,
            _ => false,
        };
        if alone {
            let farewell = one_event(fatal_event(&e));
            self.finish(no_events(), farewell, Err(e))
        } else {
            self.disable(Some(e), no_events())
        }
    }
}

} // verus!
