//! What holds of a session, step by step and as a whole.

use vstd::prelude::*;

use crate::models::{error_text, ErrorView, EventView};
use crate::nv9::driver::{
    after_closed_decisions, after_closed_events, after_decision, after_reply, after_resume,
    awaits_reply, polled, sequence_after, session_start, synchronising, ActionView,
    DecisionWait, DriverView, InitStageView, Origin, PhaseView, RejectStage, StepView,
    SSP_SEQUENCE_BIT,
};
use crate::nv9::poll::{
    counts_up, credited_sum, credits_pay, law_decision_is_on_the_held_note,
    law_poll_accounts_for_money, law_poll_totals_are_its_credits,
    law_resumed_poll_accounts_for_money, lemma_counts_up_add, lemma_credits_pay_add,
    lemma_sums_add, poll_from, poll_trace, well_tracked, PollStepView, PollTrace, ValidatorView,
};
use crate::nv9::setup::{mask_of, setup_values};
use crate::nv9::{acknowledgement, CMD_DISABLE, CMD_POLL, CMD_REJECT, CMD_SYNC};
use crate::text::hex2;

verus! {

/// What can happen to a driver.
pub enum Input {
    Reply(Result<Seq<u8>, ErrorView>),
    Decided(DecisionWait),
    DecisionsClosed,
    Resumed { stop: bool },
    EventsClosed,
}

/// Whether the driver is waiting for such an input.
pub open spec fn fits(p: PhaseView, input: Input) -> bool {
    match input {
        Input::Reply(_) => awaits_reply(p),
        Input::Decided(_) => p is Deciding,
        Input::DecisionsClosed => p is Deciding,
        Input::Resumed { .. } => p is Connected || p is Ready,
        Input::EventsClosed => true,
    }
}

/// What an input leads to.
pub open spec fn driven(d: DriverView, input: Input) -> StepView {
    match input {
        Input::Reply(reply) => after_reply(d, reply),
        Input::Decided(wait) => after_decision(d, wait),
        Input::DecisionsClosed => after_closed_decisions(d),
        Input::Resumed { stop } => after_resume(d, stop),
        Input::EventsClosed => after_closed_events(d),
    }
}

/// Whether the session has not polled yet.
pub open spec fn unpolled(p: PhaseView) -> bool {
    match p {
        PhaseView::Init { origin, .. } => origin == Origin::First,
        PhaseView::Connected => true,
        _ => false,
    }
}

/// What holds of a driver throughout a session: its sequence byte is the address of the
/// validator, with the sequence bit or without it, a decision is about a note in escrow, and
/// before the first poll there is no money.
pub open spec fn sound(d: DriverView) -> bool {
    &&& d.next_sequence == 0 || d.next_sequence == 0x80
    &&& well_tracked(d.validator)
    &&& unpolled(d.phase) ==> d.validator.inserted == 0 && d.validator.escrow is None
    &&& d.phase is Deciding || d.phase is Rejecting ==> d.validator.escrow is Some
}

/// The action of a step asks for an input that the driver then waits for.
pub open spec fn asks_for_what_it_awaits(s: StepView) -> bool {
    match s.action {
        ActionView::Send { .. } => awaits_reply(s.driver.phase),
        ActionView::AwaitDecision => s.driver.phase is Deciding,
        ActionView::Pause => s.driver.phase is Ready,
        ActionView::Resume => s.driver.phase is Connected || s.driver.phase is Ready,
        ActionView::Finish(_) => s.driver.phase is Done,
    }
}

proof fn lemma_sequence_bit()
    ensures
        0u8 ^ SSP_SEQUENCE_BIT == 0x80,
        0x80u8 ^ SSP_SEQUENCE_BIT == 0,
{
    assert(0u8 ^ 0x80u8 == 0x80) by (bit_vector);
    assert(0x80u8 ^ 0x80u8 == 0) by (bit_vector);
}

proof fn lemma_polled_is_sound(
    d: DriverView,
    response: Seq<u8>,
    lead: Seq<EventView>,
    t: PollTrace,
)
    requires
        sound(d),
        well_tracked(t.state),
        t.step is AwaitDecision ==> t.state.escrow is Some,
    ensures
        sound(polled(d, response, lead, t).driver),
        asks_for_what_it_awaits(polled(d, response, lead, t)),
{
    lemma_sequence_bit();
}

proof fn lemma_no_money(events: Seq<EventView>)
    requires
        forall|i: int| 0 <= i < events.len() ==> !(#[trigger] events[i] is Credited),
    ensures
        credited_sum(events) == 0,
    decreases events.len(),
{
    if events.len() > 0 {
        assert(!(events[events.len() - 1] is Credited));
        assert forall|i: int| 0 <= i < events.drop_last().len() implies !(
        #[trigger] events.drop_last()[i] is Credited) by {
            assert(events.drop_last()[i] == events[i]);
        }
        lemma_no_money(events.drop_last());
    }
}

/// A session begins soundly, with its first packet.
pub proof fn law_session_starts_soundly()
    ensures
        sound(session_start().driver),
        asks_for_what_it_awaits(session_start()),
        session_start().driver.validator.inserted == 0,
{
}

/// Every step of a session keeps it sound, and asks for an input that the driver then waits
/// for, so a caller that does what it is told never meets a driver that cannot go on.
pub proof fn law_steps_stay_sound(d: DriverView, input: Input)
    requires
        sound(d),
        fits(d.phase, input),
    ensures
        sound(driven(d, input).driver),
        asks_for_what_it_awaits(driven(d, input)),
{
    lemma_sequence_bit();
    match input {
        Input::Reply(reply) => {
            let b = DriverView { next_sequence: sequence_after(d, reply), ..d };
            match d.phase {
                PhaseView::Polling => if let Ok(response) = reply {
                    law_poll_accounts_for_money(d.validator, response);
                    law_decision_is_on_the_held_note(d.validator, response, 1);
                    lemma_polled_is_sound(
                        b,
                        response,
                        Seq::empty(),
                        poll_trace(d.validator, response),
                    );
                },
                PhaseView::Rejecting { response, index, .. } => {
                    law_resumed_poll_accounts_for_money(d.validator, response, index);
                    law_decision_is_on_the_held_note(d.validator, response, index);
                    let t = poll_from(d.validator, response, index);
                    lemma_polled_is_sound(b, response, Seq::empty(), t);
                    if let Ok(r) = reply {
                        if let Ok(Some(n)) = acknowledgement(r, "Reject"@) {
                            lemma_polled_is_sound(b, response, seq![n], t);
                        }
                    }
                },
                _ => {},
            }
        },
        Input::Decided(_) => if let PhaseView::Deciding { response, index } = d.phase {
            law_resumed_poll_accounts_for_money(d.validator, response, index);
            law_decision_is_on_the_held_note(d.validator, response, index);
            lemma_polled_is_sound(
                d,
                response,
                Seq::empty(),
                poll_from(d.validator, response, index),
            );
        },
        _ => {},
    }
}

/// Over a whole session the running total is exactly what was reported as credited: every
/// step raises it by the credits among its own events, each for a note that is worth something,
/// and nothing lowers it.
pub proof fn law_steps_account_for_money(d: DriverView, input: Input)
    requires
        sound(d),
        fits(d.phase, input),
    ensures
        driven(d, input).driver.validator.inserted - d.validator.inserted == credited_sum(
            driven(d, input).events,
        ),
        driven(d, input).driver.validator.inserted >= d.validator.inserted,
        credits_pay(driven(d, input).events),
{
    let s = driven(d, input);
    assert(credited_sum(Seq::<EventView>::empty()) == 0);
    match input {
        Input::Reply(reply) => match d.phase {
            PhaseView::Polling => match reply {
                Ok(response) => {
                    let t = poll_trace(d.validator, response);
                    law_poll_accounts_for_money(d.validator, response);
                    law_poll_totals_are_its_credits(d.validator, response, 1);
                    assert(Seq::<EventView>::empty() + t.events =~= t.events);
                    assert(s.events == t.events);
                },
                Err(_) => lemma_no_money(s.events),
            },
            PhaseView::Rejecting { response, index, .. } => {
                let t = poll_from(d.validator, response, index);
                law_resumed_poll_accounts_for_money(d.validator, response, index);
                law_poll_totals_are_its_credits(d.validator, response, index);
                assert(Seq::<EventView>::empty() + t.events =~= t.events);
                if let Ok(r) = reply {
                    if let Ok(Some(n)) = acknowledgement(r, "Reject"@) {
                        lemma_no_money(seq![n]);
                        lemma_sums_add(seq![n], t.events);
                        lemma_credits_pay_add(seq![n], t.events);
                    }
                }
            },
            _ => lemma_no_money(s.events),
        },
        Input::Decided(_) => if let PhaseView::Deciding { response, index } = d.phase {
            let t = poll_from(d.validator, response, index);
            law_resumed_poll_accounts_for_money(d.validator, response, index);
            law_poll_totals_are_its_credits(d.validator, response, index);
            assert(Seq::<EventView>::empty() + t.events =~= t.events);
        },
        _ => lemma_no_money(s.events),
    }
}

/// Every credit that a step reports carries the running total that it leads to.
pub proof fn law_steps_count_up(d: DriverView, input: Input)
    requires
        fits(d.phase, input),
    ensures
        counts_up(d.validator.inserted as int, driven(d, input).events),
{
    let s = driven(d, input);
    let start = d.validator.inserted as int;
    assert(counts_up(start, Seq::<EventView>::empty()));
    match input {
        Input::Reply(reply) => match d.phase {
            PhaseView::Polling => match reply {
                Ok(response) => {
                    let t = poll_trace(d.validator, response);
                    law_poll_totals_are_its_credits(d.validator, response, 1);
                    assert(Seq::<EventView>::empty() + t.events =~= t.events);
                },
                Err(_) => lemma_no_credit(start, s.events),
            },
            PhaseView::Rejecting { response, index, .. } => {
                let t = poll_from(d.validator, response, index);
                law_poll_totals_are_its_credits(d.validator, response, index);
                assert(Seq::<EventView>::empty() + t.events =~= t.events);
                if let Ok(r) = reply {
                    if let Ok(Some(n)) = acknowledgement(r, "Reject"@) {
                        lemma_no_credit(start, seq![n]);
                        lemma_no_money(seq![n]);
                        lemma_counts_up_add(start, seq![n], t.events);
                    }
                }
            },
            _ => lemma_no_credit(start, s.events),
        },
        Input::Decided(_) => if let PhaseView::Deciding { response, index } = d.phase {
            let t = poll_from(d.validator, response, index);
            law_poll_totals_are_its_credits(d.validator, response, index);
            assert(Seq::<EventView>::empty() + t.events =~= t.events);
        },
        _ => lemma_no_credit(start, s.events),
    }
}

proof fn lemma_no_credit(start: int, events: Seq<EventView>)
    requires
        forall|i: int| 0 <= i < events.len() ==> !(#[trigger] events[i] is Credited),
    ensures
        counts_up(start, events),
    decreases events.len(),
{
    if events.len() > 0 {
        assert(!(events[events.len() - 1] is Credited));
        assert forall|i: int| 0 <= i < events.drop_last().len() implies !(
        #[trigger] events.drop_last()[i] is Credited) by {
            assert(events.drop_last()[i] == events[i]);
        }
        lemma_no_credit(start, events.drop_last());
    }
}

/// A session after a list of inputs: the driver, and everything that was reported.
pub struct Course {
    pub driver: DriverView,
    pub reported: Seq<EventView>,
}

/// A session from its start over a list of inputs.
pub open spec fn course(inputs: Seq<Input>) -> Course
    decreases inputs.len(),
{
    if inputs.len() == 0 {
        Course { driver: session_start().driver, reported: session_start().events }
    } else {
        let before = course(inputs.drop_last());
        let s = driven(before.driver, inputs.last());
        Course { driver: s.driver, reported: before.reported + s.events }
    }
}

/// Whether every input of a list was waited for when it came.
pub open spec fn all_fit(inputs: Seq<Input>) -> bool
    decreases inputs.len(),
{
    inputs.len() > 0 ==> all_fit(inputs.drop_last()) && fits(
        course(inputs.drop_last()).driver.phase,
        inputs.last(),
    )
}

/// From its start to any point, a session is sound, its running total is the sum of the
/// credits that were reported, and each of these is for a note that is worth something and
/// carries the total that it led to.
pub proof fn law_a_session_accounts_for_its_money(inputs: Seq<Input>)
    requires
        all_fit(inputs),
    ensures
        sound(course(inputs).driver),
        course(inputs).driver.validator.inserted == credited_sum(course(inputs).reported),
        counts_up(0, course(inputs).reported),
        credits_pay(course(inputs).reported),
    decreases inputs.len(),
{
    if inputs.len() == 0 {
        assert(credited_sum(Seq::<EventView>::empty()) == 0);
    } else {
        let before = course(inputs.drop_last());
        let input = inputs.last();
        law_a_session_accounts_for_its_money(inputs.drop_last());
        law_steps_stay_sound(before.driver, input);
        law_steps_account_for_money(before.driver, input);
        law_steps_count_up(before.driver, input);
        let s = driven(before.driver, input);
        lemma_sums_add(before.reported, s.events);
        lemma_counts_up_add(0, before.reported, s.events);
        lemma_credits_pay_add(before.reported, s.events);
    }
}

/// The sequence bit toggles per successful command. A command goes out with the byte that the
/// driver then keeps until the reply is in: a reply toggles the bit for the next command, and a
/// command that failed after all attempts leaves it. A synchronisation goes out with the bit
/// cleared, and so does the command after it. Nothing but the reply to a packet moves the byte.
pub proof fn law_sequence_toggles_per_successful_command(d: DriverView, input: Input)
    requires
        sound(d),
        fits(d.phase, input),
    ensures
        driven(d, input).driver.next_sequence == match input {
            Input::Reply(reply) => if synchronising(d.phase) {
                0u8
            } else if reply is Ok {
                d.next_sequence ^ SSP_SEQUENCE_BIT
            } else {
                d.next_sequence
            },
            _ => d.next_sequence,
        },
        d.next_sequence ^ SSP_SEQUENCE_BIT != d.next_sequence,
        driven(d, input).action matches ActionView::Send { sequence, command, .. } ==> {
            let after = driven(d, input).driver;
            if command == CMD_SYNC {
                sequence == 0 && synchronising(after.phase)
            } else {
                sequence == after.next_sequence && !synchronising(after.phase)
            }
        },
{
    lemma_sequence_bit();
}

/// A session that has polled ends only behind a disable command: until its reply (or the
/// failure of it) is in, nothing finishes the session.
pub proof fn law_finish_follows_disable(d: DriverView, input: Input)
    requires
        fits(d.phase, input),
        driven(d, input).action is Finish,
    ensures
        d.phase is Disabling || unpolled(d.phase) || d.phase is Done,
{
}

/// A session that is stopped sends no further poll: it is disabled at once, and a note held
/// in escrow is handed back first, whatever comes of that.
pub proof fn law_stop_hands_the_note_back_and_disables(d: DriverView)
    ensures
        d.phase is Connected || d.phase is Ready ==> {
            driven(d, Input::Resumed { stop: true }).action matches ActionView::Send {
                command,
                ..
            } && command == CMD_DISABLE
        },
        d.phase is Deciding ==> {
            let first = driven(d, Input::Decided(DecisionWait::Stop));
            &&& first.action matches ActionView::Send { command, .. } && command == CMD_REJECT
            &&& forall|reply: Result<Seq<u8>, ErrorView>|
                #[trigger] driven(first.driver, Input::Reply(reply)).action matches ActionView::Send {
                    command,
                    ..
                } && command == CMD_DISABLE
        },
{
}

/// A poll is sent only at a go-ahead without a stop.
pub proof fn law_polls_need_the_go_ahead(d: DriverView, input: Input)
    requires
        fits(d.phase, input),
        driven(d, input).action matches ActionView::Send { command, .. } && command == CMD_POLL,
    ensures
        input == (Input::Resumed { stop: false }),
{
}

// ---------------------------------------------------------------------------
// Step by step
// ---------------------------------------------------------------------------

/// A session begins with a synchronisation, knowing nothing of the validator.
pub proof fn law_a_session_begins_with_a_synchronisation()
    ensures
        session_start().action == (ActionView::Send {
            sequence: 0,
            command: 0x11,
            params: Seq::empty(),
        }),
        session_start().events.len() == 0,
        session_start().farewell.len() == 0,
        session_start().driver.phase == (PhaseView::Init {
            stage: InitStageView::Sync,
            origin: Origin::First,
        }),
        session_start().driver.validator == (ValidatorView {
            channels: Seq::empty(),
            escrow: None,
            inserted: 0,
        }),
        session_start().driver.next_sequence == 0,
{
}

/// A step that only sends a command and goes on to a phase.
pub open spec fn only_sends(
    s: StepView,
    d: DriverView,
    command: u8,
    params: Seq<u8>,
    phase: PhaseView,
) -> bool {
    &&& s.events.len() == 0
    &&& s.farewell.len() == 0
    &&& s.driver.validator == d.validator
    &&& s.driver.phase == phase
    &&& s.action matches ActionView::Send { command: c, params: p, .. } && c == command && p
        == params
}

/// The set-up goes through its four commands in order: synchronise, ask for the channels, enable
/// exactly those that have a value, enable the validator.
pub proof fn law_the_set_up_goes_in_order(d: DriverView, origin: Origin, r: Seq<u8>, values: Seq<i64>)
    requires
        r.len() > 0,
        r[0] == 0xf0,
    ensures
        d.phase == (PhaseView::Init { stage: InitStageView::Sync, origin }) ==> only_sends(
            driven(d, Input::Reply(Ok(r))),
            d,
            0x05,
            Seq::empty(),
            PhaseView::Init { stage: InitStageView::Setup, origin },
        ),
        d.phase == (PhaseView::Init { stage: InitStageView::Setup, origin }) && setup_values(r)
            == Ok::<Seq<i64>, Seq<char>>(values) ==> only_sends(
            driven(d, Input::Reply(Ok(r))),
            d,
            0x02,
            seq![mask_of(values, 0), mask_of(values, 8)],
            PhaseView::Init { stage: InitStageView::Inhibits(values), origin },
        ),
        d.phase == (PhaseView::Init { stage: InitStageView::Inhibits(values), origin })
            ==> only_sends(
            driven(d, Input::Reply(Ok(r))),
            d,
            0x0a,
            Seq::empty(),
            PhaseView::Init { stage: InitStageView::Enable(values), origin },
        ),
{
}

/// A set-up that is complete knows the channels. The first one reports the validator as connected
/// and starts from nothing; one after a failed poll gives up the note that was tracked and polls
/// at once; one after a reset goes on as before. The cash counted so far is kept.
pub proof fn law_a_set_up_is_complete(d: DriverView, origin: Origin, r: Seq<u8>, values: Seq<i64>)
    requires
        r.len() > 0,
        r[0] == 0xf0,
        d.phase == (PhaseView::Init { stage: InitStageView::Enable(values), origin }),
    ensures
        ({
            let s = driven(d, Input::Reply(Ok(r)));
            &&& s.farewell.len() == 0
            &&& s.driver.validator.channels == values
            &&& match origin {
                Origin::First => {
                    &&& s.events == seq![EventView::Connected]
                    &&& s.action == ActionView::Resume
                    &&& s.driver.phase == PhaseView::Connected
                    &&& s.driver.validator.escrow is None
                    &&& s.driver.validator.inserted == 0
                },
                Origin::PollFailure => {
                    &&& s.events.len() == 0
                    &&& s.action == ActionView::Resume
                    &&& s.driver.phase == PhaseView::Ready
                    &&& s.driver.validator.escrow is None
                    &&& s.driver.validator.inserted == d.validator.inserted
                },
                Origin::AfterReset => {
                    &&& s.events.len() == 0
                    &&& s.action == ActionView::Pause
                    &&& s.driver.phase == PhaseView::Ready
                    &&& s.driver.validator.escrow == d.validator.escrow
                    &&& s.driver.validator.inserted == d.validator.inserted
                },
            }
        }),
{
}

/// A step that disables the validator, as the last command of a session.
pub open spec fn disables(
    s: StepView,
    d: DriverView,
    failure: Option<ErrorView>,
    recovery: bool,
    events: Seq<EventView>,
) -> bool {
    &&& s.events == events
    &&& s.farewell.len() == 0
    &&& s.driver.validator == d.validator
    &&& s.driver.phase == (PhaseView::Disabling { failure, recovery })
    &&& s.action matches ActionView::Send { command, params, .. } && command == 0x09 && params.len()
        == 0
}

/// A step that gives a set-up up: the first one ends the session with the error; one after a failed
/// poll disables the validator and says that the recovery failed; one after a reset disables it
/// with the error as it is.
pub open spec fn gives_up(
    s: StepView,
    d: DriverView,
    origin: Origin,
    e: ErrorView,
    events: Seq<EventView>,
) -> bool {
    &&& s.driver.validator == d.validator
    &&& match origin {
        Origin::First => {
            &&& s.events == events
            &&& s.farewell == seq![EventView::Error { message: error_text(e) }]
            &&& s.action == ActionView::Finish(Some(e))
            &&& s.driver.phase == PhaseView::Done
        },
        Origin::PollFailure => disables(
            s,
            d,
            Some(
                ErrorView::Hardware(
                    "NV9 Poll failed and resync was unsuccessful: "@ + error_text(e),
                ),
            ),
            true,
            events,
        ),
        Origin::AfterReset => disables(s, d, Some(e), false, events),
    }
}

/// A set-up is given up with the error of the line; with what is wrong with the reply to the
/// synchronisation or to the request for the channels; and where a command is refused, after that
/// was reported.
pub proof fn law_a_set_up_is_given_up(
    d: DriverView,
    stage: InitStageView,
    origin: Origin,
    e: ErrorView,
    r: Seq<u8>,
)
    requires
        d.phase == (PhaseView::Init { stage, origin }),
    ensures
        gives_up(driven(d, Input::Reply(Err(e))), d, origin, e, Seq::empty()),
        stage is Sync && r.len() == 0 ==> gives_up(
            driven(d, Input::Reply(Ok(r))),
            d,
            origin,
            ErrorView::Hardware("NV9 SYNC returned an empty response"@),
            Seq::empty(),
        ),
        stage is Sync && r.len() > 0 && r[0] != 0xf0 ==> gives_up(
            driven(d, Input::Reply(Ok(r))),
            d,
            origin,
            ErrorView::Hardware("NV9 SYNC returned SSP response 0x"@ + hex2(r[0], true)),
            Seq::empty(),
        ),
        stage is Setup ==> (setup_values(r) matches Err(text) ==> gives_up(
            driven(d, Input::Reply(Ok(r))),
            d,
            origin,
            ErrorView::Hardware(text),
            Seq::empty(),
        )),
        stage is Inhibits && r.len() > 0 && r[0] != 0xf0 ==> (acknowledgement(
            r,
            "Set Channel Inhibits"@,
        ) matches Ok(Some(n)) && gives_up(
            driven(d, Input::Reply(Ok(r))),
            d,
            origin,
            ErrorView::Hardware("NV9 Set Channel Inhibits was rejected"@),
            seq![n],
        )),
        stage is Enable && r.len() > 0 && r[0] != 0xf0 ==> (acknowledgement(r, "Enable"@)
            matches Ok(Some(n)) && gives_up(
            driven(d, Input::Reply(Ok(r))),
            d,
            origin,
            ErrorView::Hardware("NV9 Enable was rejected"@),
            seq![n],
        )),
        stage is Inhibits && r.len() == 0 ==> gives_up(
            driven(d, Input::Reply(Ok(r))),
            d,
            origin,
            ErrorView::Hardware(
                "NV9 "@ + "Set Channel Inhibits"@ + " returned an empty response"@,
            ),
            Seq::empty(),
        ),
        stage is Enable && r.len() == 0 ==> gives_up(
            driven(d, Input::Reply(Ok(r))),
            d,
            origin,
            ErrorView::Hardware("NV9 "@ + "Enable"@ + " returned an empty response"@),
            Seq::empty(),
        ),
{
}

/// A step that follows a poll reply up to where it stopped: the events are reported, the validator
/// is tracked as the reply left it, and a reply that is used up pauses, a reset sets up again, a
/// note in escrow waits for its decision, and a failure disables.
pub open spec fn follows(
    s: StepView,
    response: Seq<u8>,
    lead: Seq<EventView>,
    t: PollTrace,
) -> bool {
    &&& s.events == lead + t.events
    &&& s.farewell.len() == 0
    &&& s.driver.validator == t.state
    &&& match t.step {
        PollStepView::Finished => s.action == ActionView::Pause && s.driver.phase
            == PhaseView::Ready,
        PollStepView::Reinitialize => {
            &&& s.action == (ActionView::Send {
                sequence: 0,
                command: 0x11,
                params: Seq::empty(),
            })
            &&& s.driver.phase == (PhaseView::Init {
                stage: InitStageView::Sync,
                origin: Origin::AfterReset,
            })
        },
        PollStepView::AwaitDecision { resume } => s.action == ActionView::AwaitDecision
            && s.driver.phase == (PhaseView::Deciding { response, index: resume }),
        PollStepView::Failed(e) => {
            &&& s.driver.phase == (PhaseView::Disabling { failure: Some(e), recovery: false })
            &&& s.action matches ActionView::Send { command, params, .. } && command == 0x09
                && params.len() == 0
        },
    }
}

/// The reply to a poll is followed code by code; a poll without a reply is reported, and the
/// validator set up again from the synchronisation on.
pub proof fn law_a_poll_is_followed(d: DriverView, response: Seq<u8>, e: ErrorView)
    requires
        d.phase is Polling,
    ensures
        follows(
            driven(d, Input::Reply(Ok(response))),
            response,
            Seq::empty(),
            poll_trace(d.validator, response),
        ),
        ({
            let s = driven(d, Input::Reply(Err(e)));
            &&& s.events == seq![
                EventView::Notice {
                    message: "NV9 Poll failed; attempting resync: "@ + error_text(e),
                },
            ]
            &&& s.farewell.len() == 0
            &&& s.driver.validator == d.validator
            &&& s.driver.phase == (PhaseView::Init {
                stage: InitStageView::Sync,
                origin: Origin::PollFailure,
            })
            &&& s.action == (ActionView::Send { sequence: 0, command: 0x11, params: Seq::empty() })
        }),
{
}

/// A decision on the note in escrow: accepted, the rest of the reply is followed and nothing is
/// sent; rejected, or the session stopped, the note is handed back.
pub proof fn law_a_decision_is_carried_out(d: DriverView, response: Seq<u8>, index: int)
    requires
        d.phase == (PhaseView::Deciding { response, index }),
    ensures
        follows(
            driven(d, Input::Decided(DecisionWait::Accept)),
            response,
            Seq::empty(),
            poll_from(d.validator, response, index),
        ),
        only_sends(
            driven(d, Input::Decided(DecisionWait::Reject)),
            d,
            0x08,
            Seq::empty(),
            PhaseView::Rejecting { response, index, stage: RejectStage::First },
        ),
        only_sends(
            driven(d, Input::Decided(DecisionWait::Stop)),
            d,
            0x08,
            Seq::empty(),
            PhaseView::StopRejecting,
        ),
        disables(
            driven(d, Input::DecisionsClosed),
            d,
            Some(
                ErrorView::Hardware(
                    "NV9 escrow decision channel disconnected while a note was held"@,
                ),
            ),
            false,
            Seq::empty(),
        ),
{
}

/// A rejection is tried twice: where the line fails the first time, the validator is synchronised
/// and told again. After its reply, a refusal reported, the rest of the poll reply is followed;
/// where it cannot be carried out, the session ends.
pub proof fn law_a_rejection_is_tried_twice(
    d: DriverView,
    response: Seq<u8>,
    index: int,
    stage: RejectStage,
    r: Seq<u8>,
    e: ErrorView,
)
    requires
        d.phase == (PhaseView::Rejecting { response, index, stage }),
    ensures
        stage != RejectStage::Resync && r.len() > 0 && r[0] == 0xf0 ==> follows(
            driven(d, Input::Reply(Ok(r))),
            response,
            Seq::empty(),
            poll_from(d.validator, response, index),
        ),
        stage != RejectStage::Resync && r.len() > 0 && r[0] != 0xf0 ==> (acknowledgement(
            r,
            "Reject"@,
        ) matches Ok(Some(n)) && follows(
            driven(d, Input::Reply(Ok(r))),
            response,
            seq![n],
            poll_from(d.validator, response, index),
        )),
        stage != RejectStage::Resync && r.len() == 0 ==> disables(
            driven(d, Input::Reply(Ok(r))),
            d,
            Some(ErrorView::Hardware("NV9 "@ + "Reject"@ + " returned an empty response"@)),
            false,
            Seq::empty(),
        ),
        stage == RejectStage::First ==> only_sends(
            driven(d, Input::Reply(Err(e))),
            d,
            0x11,
            Seq::empty(),
            PhaseView::Rejecting { response, index, stage: RejectStage::Resync },
        ),
        stage == RejectStage::Resync && r.len() > 0 && r[0] == 0xf0 ==> only_sends(
            driven(d, Input::Reply(Ok(r))),
            d,
            0x08,
            Seq::empty(),
            PhaseView::Rejecting { response, index, stage: RejectStage::Second },
        ),
        stage == RejectStage::Resync && r.len() > 0 && r[0] != 0xf0 ==> disables(
            driven(d, Input::Reply(Ok(r))),
            d,
            Some(ErrorView::Hardware("NV9 SYNC returned SSP response 0x"@ + hex2(r[0], true))),
            false,
            Seq::empty(),
        ),
        stage != RejectStage::First ==> disables(
            driven(d, Input::Reply(Err(e))),
            d,
            Some(e),
            false,
            Seq::empty(),
        ),
{
}

/// The go-ahead polls, or disables where the session is stopped; and a note that a stopped session
/// handed back is followed by the disable whatever came of it.
pub proof fn law_the_go_ahead_polls_or_disables(
    d: DriverView,
    reply: Result<Seq<u8>, ErrorView>,
)
    ensures
        d.phase is Connected || d.phase is Ready ==> only_sends(
            driven(d, Input::Resumed { stop: false }),
            d,
            0x07,
            Seq::empty(),
            PhaseView::Polling,
        ),
        d.phase is Connected || d.phase is Ready ==> disables(
            driven(d, Input::Resumed { stop: true }),
            d,
            None,
            false,
            Seq::empty(),
        ),
        d.phase is StopRejecting ==> disables(
            driven(d, Input::Reply(reply)),
            d,
            None,
            false,
            Seq::empty(),
        ),
{
}

/// The last reply ends the session: with the error that it had, or with that of the disable
/// itself, each reported before the validator is reported as gone; and without one as a success.
/// That a disable was refused is reported, and is no failure.
pub proof fn law_the_disable_ends_the_session(
    d: DriverView,
    failure: Option<ErrorView>,
    recovery: bool,
    r: Seq<u8>,
    e: ErrorView,
)
    requires
        d.phase == (PhaseView::Disabling { failure, recovery }),
    ensures
        ({
            let s = driven(d, Input::Reply(Ok(r)));
            &&& s.driver.phase == PhaseView::Done
            &&& s.action matches ActionView::Finish(_)
            &&& r.len() > 0 && r[0] == 0xf0 ==> match failure {
                None => {
                    &&& s.action == ActionView::Finish(None)
                    &&& s.events == seq![EventView::Disconnected]
                    &&& s.farewell.len() == 0
                },
                Some(f) => {
                    &&& s.action == ActionView::Finish(Some(f))
                    &&& s.events.len() == 0
                    &&& s.farewell == seq![
                        EventView::Error { message: error_text(f) },
                        EventView::Disconnected,
                    ]
                },
            }
            &&& r.len() > 0 && r[0] != 0xf0 ==> (acknowledgement(r, "Disable"@) matches Ok(Some(n))
                && match failure {
                None => {
                    &&& s.action == ActionView::Finish(None)
                    &&& s.events == seq![n, EventView::Disconnected]
                    &&& s.farewell.len() == 0
                },
                Some(f) => {
                    &&& s.action == ActionView::Finish(Some(f))
                    &&& s.events.len() == 0
                    &&& s.farewell == seq![
                        n,
                        EventView::Error { message: error_text(f) },
                        EventView::Disconnected,
                    ]
                },
            })
            &&& r.len() == 0 ==> {
                let f = match failure {
                    Some(f) => f,
                    None => ErrorView::Hardware(
                        "NV9 "@ + "Disable"@ + " returned an empty response"@,
                    ),
                };
                &&& s.action == ActionView::Finish(Some(f))
                &&& s.events.len() == 0
                &&& s.farewell == seq![
                    EventView::Error { message: error_text(f) },
                    EventView::Disconnected,
                ]
            }
        }),
        ({
            let s = driven(d, Input::Reply(Err(e)));
            let f = match failure {
                Some(f) => f,
                None => e,
            };
            &&& s.action == ActionView::Finish(Some(f))
            &&& s.driver.phase == PhaseView::Done
            &&& s.events.len() == 0
            &&& s.farewell == seq![
                EventView::Error { message: error_text(f) },
                EventView::Disconnected,
            ]
        }),
        driven(d, Input::Reply(Ok(r))).driver.validator == d.validator,
{
    let none = Seq::<EventView>::empty();
    if let Some(f) = failure {
        let end = EventView::Error { message: error_text(f) };
        assert(none.push(end).push(EventView::Disconnected) =~= seq![end, EventView::Disconnected]);
        if let Ok(Some(n)) = acknowledgement(r, "Disable"@) {
            assert(seq![n].push(end).push(EventView::Disconnected) =~= seq![
                n,
                end,
                EventView::Disconnected,
            ]);
        }
    } else {
        assert(none.push(EventView::Disconnected) =~= seq![EventView::Disconnected]);
        if let Ok(Some(n)) = acknowledgement(r, "Disable"@) {
            assert(seq![n].push(EventView::Disconnected) =~= seq![n, EventView::Disconnected]);
        }
    }
}

/// A session whose events nobody receives ends: before the first poll and behind the last reply at
/// once, else by disabling the validator; and where it was the recovery from a failed poll that
/// had them to report, as one that failed.
pub proof fn law_a_session_ends_when_nobody_listens(d: DriverView)
    ensures
        ({
            let s = driven(d, Input::EventsClosed);
            let gone = ErrorView::Hardware("NV9 payment-event receiver disconnected"@);
            &&& s.driver.validator == d.validator
            &&& s.events.len() == 0
            &&& (d.phase matches PhaseView::Init { origin, .. } && origin == Origin::First)
                || d.phase is Connected || d.phase is Done ==> {
                &&& s.action == ActionView::Finish(Some(gone))
                &&& s.farewell == seq![EventView::Error { message: error_text(gone) }]
                &&& s.driver.phase == PhaseView::Done
            }
            &&& d.phase matches PhaseView::Disabling { recovery, .. } ==> disables(
                s,
                d,
                Some(
                    if recovery {
                        ErrorView::Hardware(
                            "NV9 Poll failed and resync was unsuccessful: "@ + error_text(gone),
                        )
                    } else {
                        gone
                    },
                ),
                false,
                Seq::empty(),
            )
            &&& d.phase is Ready || d.phase is Polling || d.phase is Deciding || d.phase
                is Rejecting || d.phase is StopRejecting || (d.phase matches PhaseView::Init {
                origin,
                ..
            } && origin != Origin::First) ==> disables(s, d, Some(gone), false, Seq::empty())
        }),
{
}

} // verus!
