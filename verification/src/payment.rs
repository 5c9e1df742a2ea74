//! A payment session: which notes are taken, what the visitor sees, what has to be stored,
//! and how the session ends.
//!
//! Time is passed in as milliseconds of any clock that does not run backwards.

use vstd::prelude::*;

use crate::models::{
    ErrorView, EventView, KioskError, PaymentEvent, PaymentProgress, ProgressView,
};
use crate::nv9::poll::{counts_up, credited_sum};
use crate::nv9::EscrowDecision;

verus! {

/// A session that has taken no cash for this long is given up.
pub const INACTIVITY_TIMEOUT_MS: u64 = 120_000;

/// How long a cancelled session still listens, so that a note already on its way to the
/// stacker is recorded.
pub const CANCEL_DRAIN_MS: u64 = 3_000;

/// How long one wait for an event lasts.
pub const EVENT_WAIT_MS: u64 = 100;

/// How a payment session ended. Every variant carries the cash actually taken.
pub enum PaymentEnd {
    Paid(i64),
    Cancelled(i64),
    Failed(KioskError, i64),
}

pub enum EndView {
    Paid(i64),
    Cancelled(i64),
    Failed(ErrorView, i64),
}

impl View for PaymentEnd {
    type V = EndView;

    open spec fn view(&self) -> EndView {
        match *self {
            PaymentEnd::Paid(n) => EndView::Paid(n),
            PaymentEnd::Cancelled(n) => EndView::Cancelled(n),
            PaymentEnd::Failed(e, n) => EndView::Failed(e@, n),
        }
    }
}

/// The cash that an end carries.
pub open spec fn end_inserted(e: EndView) -> i64 {
    match e {
        EndView::Paid(n) => n,
        EndView::Cancelled(n) => n,
        EndView::Failed(_, n) => n,
    }
}

pub open spec fn opt_end(e: Option<PaymentEnd>) -> Option<EndView> {
    match e {
        Some(v) => Some(v@),
        None => None,
    }
}

pub open spec fn opt_progress(p: Option<PaymentProgress>) -> Option<ProgressView> {
    match p {
        Some(v) => Some(v@),
        None => None,
    }
}

/// A running session: the price, the cash taken, when cash was last taken (at first, when the
/// session began), until when it is drained, and whether it takes no more notes.
#[derive(Debug, Clone, Copy, PartialEq, Eq, Structural)]
pub struct Session {
    pub total_rsd: i64,
    pub inserted_rsd: i64,
    pub last_activity_ms: u64,
    pub draining_until_ms: Option<u64>,
    pub cancelled: bool,
}

/// What a session does before it waits for the next event.
pub struct Tick {
    /// A note that may be in escrow has to be rejected, and no further one is taken.
    pub reject: bool,
    pub end: Option<PaymentEnd>,
}

/// What an event leads to, in this order: the decision on a note, the amount to store, the
/// progress to show, the end of the session.
pub struct Response {
    pub decision: Option<EscrowDecision>,
    pub persist: Option<i64>,
    pub progress: Option<PaymentProgress>,
    pub end: Option<PaymentEnd>,
}

pub struct ResponseView {
    pub decision: Option<EscrowDecision>,
    pub persist: Option<i64>,
    pub progress: Option<ProgressView>,
    pub end: Option<EndView>,
}

impl View for Response {
    type V = ResponseView;

    open spec fn view(&self) -> ResponseView {
        ResponseView {
            decision: self.decision,
            persist: self.persist,
            progress: opt_progress(self.progress),
            end: opt_end(self.end),
        }
    }
}

/// The clock time `span` after `now`; the end of the clock where there is none.
pub open spec fn later(now: u64, span: u64) -> u64 {
    if now + span <= u64::MAX {
        (now + span) as u64
    } else {
        u64::MAX
    }
}

/// Whether no cash has been taken for too long.
pub open spec fn inactive(s: Session, now: u64) -> bool {
    now - s.last_activity_ms >= INACTIVITY_TIMEOUT_MS
}

/// Whether a session starts to drain now.
pub open spec fn starts_draining(s: Session, cancel: bool, now: u64) -> bool {
    s.draining_until_ms is None && (s.cancelled || cancel || inactive(s, now))
}

/// The session after it has looked at the clock and at the wish to cancel.
pub open spec fn ticked(s: Session, cancel: bool, now: u64) -> Session {
    if starts_draining(s, cancel, now) {
        Session {
            cancelled: true,
            draining_until_ms: Some(later(now, CANCEL_DRAIN_MS)),
            ..s
        }
    } else {
        Session { cancelled: s.cancelled || cancel, ..s }
    }
}

/// The end of a session whose draining is over.
pub open spec fn tick_end(s: Session, now: u64) -> Option<EndView> {
    match s.draining_until_ms {
        Some(until) => if now >= until {
            Some(EndView::Cancelled(s.inserted_rsd))
        } else {
            None
        },
        None => None,
    }
}

/// The progress of a session, with a note for the visitor.
pub open spec fn progress_of(s: Session, note: Option<Seq<char>>) -> Option<ProgressView> {
    Some(
        ProgressView {
            inserted_rsd: s.inserted_rsd,
            total_rsd: s.total_rsd,
            complete: false,
            note,
        },
    )
}

/// A response that only shows progress.
pub open spec fn showing(s: Session, note: Option<Seq<char>>) -> ResponseView {
    ResponseView { decision: None, persist: None, progress: progress_of(s, note), end: None }
}

/// The sum, held at the ends of the range.
pub open spec fn saturated_sum(a: i64, b: i64) -> int {
    if a + b > i64::MAX {
        i64::MAX as int
    } else if a + b < i64::MIN {
        i64::MIN as int
    } else {
        a + b
    }
}

/// Whether a note is taken: not in a cancelled session, and never beyond the price, since
/// there is no change.
pub open spec fn takes(s: Session, value: i64) -> bool {
    !s.cancelled && saturated_sum(s.inserted_rsd, value) <= s.total_rsd
}

/// What an event does to a session, and what it leads to. A note that is only read or handed
/// back is no cash taken: the time of the session runs on.
pub open spec fn on_event_view(
    s0: Session,
    event: EventView,
    cancel: bool,
    now: u64,
) -> (Session, ResponseView) {
    let s = Session { cancelled: s0.cancelled || cancel, ..s0 };
    match event {
        EventView::Connected => (s, showing(s, Some("Uređaj povezan"@))),
        EventView::Disconnected => (s, showing(s, Some("Uređaj nije povezan"@))),
        EventView::Notice { message } => (s, showing(s, Some(message))),
        EventView::NoteInEscrow { value_rsd } => (
            s,
            ResponseView {
                decision: Some(
                    if takes(s, value_rsd) {
                        EscrowDecision::Accept
                    } else {
                        EscrowDecision::Reject
                    },
                ),
                persist: None,
                progress: None,
                end: None,
            },
        ),
        EventView::Credited { total_inserted_rsd, .. } => {
            let credited = Session {
                inserted_rsd: total_inserted_rsd,
                last_activity_ms: now,
                ..s
            };
            (
                credited,
                ResponseView {
                    decision: None,
                    persist: Some(total_inserted_rsd),
                    progress: progress_of(credited, None),
                    end: if total_inserted_rsd >= s.total_rsd {
                        Some(EndView::Paid(total_inserted_rsd))
                    } else {
                        None
                    },
                },
            )
        },
        EventView::NoteReturned { .. } => (
            s,
            showing(s, Some("Novčanica vraćena (nema kusura)"@)),
        ),
        EventView::Error { message } => (
            s,
            ResponseView {
                decision: None,
                persist: None,
                progress: None,
                end: Some(EndView::Failed(ErrorView::Hardware(message), s.inserted_rsd)),
            },
        ),
    }
}

/// A session that begins: nothing taken yet.
pub open spec fn fresh(total: i64, now: u64) -> Session {
    Session {
        total_rsd: total,
        inserted_rsd: 0,
        last_activity_ms: now,
        draining_until_ms: None,
        cancelled: false,
    }
}

/// The end of a session whose validator is gone.
pub open spec fn disconnect_end(s: Session, cancel: bool) -> EndView {
    if s.cancelled || cancel {
        EndView::Cancelled(s.inserted_rsd)
    } else {
        EndView::Failed(ErrorView::Hardware("veza sa uređajem prekinuta"@), s.inserted_rsd)
    }
}

/// The last progress of a session: shown only when it was paid.
pub open spec fn closing_view(total: i64, end: EndView) -> Option<ProgressView> {
    match end {
        EndView::Paid(n) => Some(
            ProgressView { inserted_rsd: n, total_rsd: total, complete: true, note: None },
        ),
        _ => None,
    }
}

impl Session {
    /// A session over `total_rsd` that begins now.
    pub fn new(total_rsd: i64, now_ms: u64) -> (r: Session)
        ensures
            r == fresh(total_rsd, now_ms),
    {
        Session {
            total_rsd,
            inserted_rsd: 0,
            last_activity_ms: now_ms,
            draining_until_ms: None,
            cancelled: false,
        }
    }

    fn show(&self, note: Option<String>) -> (r: Response)
        ensures
            r@ == showing(
                *self,
                match note {
                    Some(t) => Some(t@),
                    None => None,
                },
            ),
    {
        Response {
            decision: None,
            persist: None,
            progress: Some(
                PaymentProgress {
                    inserted_rsd: self.inserted_rsd,
                    total_rsd: self.total_rsd,
                    complete: false,
                    note,
                },
            ),
            end: None,
        }
    }

    /// Looks at the clock and at the wish to cancel: a cancel, or too long without cash, starts
    /// the draining once; when the draining is over the session ends.
    pub fn tick(&mut self, cancel: bool, now_ms: u64) -> (r: Tick)
        ensures
            *final(self) == ticked(*old(self), cancel, now_ms),
            r.reject == starts_draining(*old(self), cancel, now_ms),
            opt_end(r.end) == tick_end(*final(self), now_ms),
    {
        self.cancelled = self.cancelled || cancel;
        let mut reject = false;
        if self.draining_until_ms.is_none() {
            let idle = now_ms >= self.last_activity_ms && now_ms - self.last_activity_ms
                >= INACTIVITY_TIMEOUT_MS;
            if self.cancelled || idle {
                self.cancelled = true;
                self.draining_until_ms = Some(now_ms.saturating_add(CANCEL_DRAIN_MS));
                reject = true;
            }
        }
        let end = match self.draining_until_ms {
            Some(until) => if now_ms >= until {
                Some(PaymentEnd::Cancelled(self.inserted_rsd))
            } else {
                None
            },
            None => None,
        };
        Tick { reject, end }
    }

    /// An event of the validator.
    pub fn on_event(&mut self, event: PaymentEvent, cancel: bool, now_ms: u64) -> (r: Response)
        ensures
            (*final(self), r@) == on_event_view(*old(self), event@, cancel, now_ms),
    {
        self.cancelled = self.cancelled || cancel;
        match event {
            PaymentEvent::Connected => self.show(Some("Uređaj povezan".to_string())),
            PaymentEvent::Disconnected => self.show(Some("Uređaj nije povezan".to_string())),
            PaymentEvent::Notice { message } => self.show(Some(message)),
            PaymentEvent::NoteInEscrow { value_rsd } => {
                let sum: i64 = match self.inserted_rsd.checked_add(value_rsd) {
                    Some(n) => n,
                    None => if value_rsd > 0 {
                        i64::MAX
                    } else {
                        i64::MIN
                    },
                };
                let decision = if self.cancelled || sum > self.total_rsd {
                    EscrowDecision::Reject
                } else {
                    EscrowDecision::Accept
                };
                Response { decision: Some(decision), persist: None, progress: None, end: None }
            },
            PaymentEvent::Credited { value_rsd: _, total_inserted_rsd } => {
                self.inserted_rsd = total_inserted_rsd;
                self.last_activity_ms = now_ms;
                let mut r = self.show(None);
                r.persist = Some(total_inserted_rsd);
                if total_inserted_rsd >= self.total_rsd {
                    r.end = Some(PaymentEnd::Paid(total_inserted_rsd));
                }
                r
            },
            PaymentEvent::NoteReturned { value_rsd: _ } => self.show(
                Some("Novčanica vraćena (nema kusura)".to_string()),
            ),
            PaymentEvent::Error { message } => Response {
                decision: None,
                persist: None,
                progress: None,
                end: Some(PaymentEnd::Failed(KioskError::Hardware(message), self.inserted_rsd)),
            },
        }
    }

    /// The validator is gone.
    pub fn on_disconnect(&self, cancel: bool) -> (r: PaymentEnd)
        ensures
            r@ == disconnect_end(*self, cancel),
    {
        if self.cancelled || cancel {
            PaymentEnd::Cancelled(self.inserted_rsd)
        } else {
            PaymentEnd::Failed(
                KioskError::Hardware("veza sa uređajem prekinuta".to_string()),
                self.inserted_rsd,
            )
        }
    }

    /// The last progress to show, once the session has ended.
    pub fn closing_progress(&self, end: &PaymentEnd) -> (r: Option<PaymentProgress>)
        ensures
            opt_progress(r) == closing_view(self.total_rsd, end@),
    {
        match end {
            PaymentEnd::Paid(n) => Some(
                PaymentProgress {
                    inserted_rsd: *n,
                    total_rsd: self.total_rsd,
                    complete: true,
                    note: None,
                },
            ),
            _ => None,
        }
    }
}

// ---------------------------------------------------------------------------
// Laws
// ---------------------------------------------------------------------------

/// A note is accepted only if the price is not exceeded with it, and never once the session
/// was cancelled. (A price at the very top of the range is left out: there the held sum
/// cannot exceed it.)
pub proof fn law_no_change_is_owed(s: Session, value: i64, cancel: bool, now: u64)
    requires
        s.total_rsd < i64::MAX,
        on_event_view(s, EventView::NoteInEscrow { value_rsd: value }, cancel, now).1.decision
            == Some(EscrowDecision::Accept),
    ensures
        s.inserted_rsd + value <= s.total_rsd,
        !s.cancelled,
        !cancel,
{
}

/// A note in escrow is accepted exactly where it can be taken: neither the session nor this
/// moment is cancelled, and the cash with it stays within the price. So the note that makes the
/// price exact is never handed back. (At a price at the very top of the range every note fits.)
pub proof fn law_a_note_that_fits_is_accepted(s: Session, value: i64, cancel: bool, now: u64)
    ensures
        on_event_view(s, EventView::NoteInEscrow { value_rsd: value }, cancel, now).1.decision
            == Some(EscrowDecision::Accept) <==> !s.cancelled && !cancel && (s.inserted_rsd + value
            <= s.total_rsd || s.total_rsd == i64::MAX),
        !(s.cancelled || cancel) && s.inserted_rsd + value <= s.total_rsd ==> on_event_view(
            s,
            EventView::NoteInEscrow { value_rsd: value },
            cancel,
            now,
        ).1.decision == Some(EscrowDecision::Accept),
        on_event_view(s, EventView::NoteInEscrow { value_rsd: value }, cancel, now).1.decision
            is Some,
{
}

/// What an event leaves of a session: the price and the draining stay, a wish to cancel is kept,
/// and only a credit changes the cash taken and the time at which it was.
pub proof fn law_events_leave_the_rest_alone(s: Session, event: EventView, cancel: bool, now: u64)
    ensures
        ({
            let after = on_event_view(s, event, cancel, now).0;
            &&& after.total_rsd == s.total_rsd
            &&& after.draining_until_ms == s.draining_until_ms
            &&& after.cancelled == (s.cancelled || cancel)
            &&& event matches EventView::Credited { total_inserted_rsd, .. } ==> {
                after.inserted_rsd == total_inserted_rsd && after.last_activity_ms == now
            }
            &&& !(event is Credited) ==> {
                after.inserted_rsd == s.inserted_rsd && after.last_activity_ms
                    == s.last_activity_ms
            }
        }),
{
}

/// What the visitor sees of an event: the cash taken by then against the price, with the words
/// for it. A note in escrow and an error show nothing; an event never shows the sale as complete.
pub proof fn law_progress_shows_the_cash(s: Session, event: EventView, cancel: bool, now: u64)
    ensures
        ({
            let (after, r) = on_event_view(s, event, cancel, now);
            &&& r.progress is None <==> event is NoteInEscrow || event is Error
            &&& r.progress matches Some(p) ==> {
                &&& p.inserted_rsd == after.inserted_rsd
                &&& p.total_rsd == s.total_rsd
                &&& !p.complete
                &&& p.note == match event {
                    EventView::Connected => Some("Uređaj povezan"@),
                    EventView::Disconnected => Some("Uređaj nije povezan"@),
                    EventView::Notice { message } => Some(message),
                    EventView::NoteReturned { .. } => Some("Novčanica vraćena (nema kusura)"@),
                    _ => None,
                }
            }
        }),
{
}

/// A session ends by an event in two ways only: as paid with the credit that covers the price,
/// and as failed with the error and the cash taken before it.
pub proof fn law_events_end_a_session(s: Session, event: EventView, cancel: bool, now: u64)
    ensures
        on_event_view(s, event, cancel, now).1.end == match event {
            EventView::Credited { total_inserted_rsd, .. } => if total_inserted_rsd
                >= s.total_rsd {
                Some(EndView::Paid(total_inserted_rsd))
            } else {
                None
            },
            EventView::Error { message } => Some(
                EndView::Failed(ErrorView::Hardware(message), s.inserted_rsd),
            ),
            _ => None,
        },
{
}

/// A look at the clock starts the draining exactly once: at a wish to cancel, or when no cash has
/// been taken for two minutes. It lasts three seconds, takes no further note, and its end ends
/// the session as cancelled. Nothing else changes.
pub proof fn law_the_clock_drains_and_ends(s: Session, cancel: bool, now: u64)
    ensures
        starts_draining(s, cancel, now) <==> s.draining_until_ms is None && (s.cancelled || cancel
            || now >= s.last_activity_ms + 120_000),
        ({
            let after = ticked(s, cancel, now);
            &&& after.total_rsd == s.total_rsd
            &&& after.inserted_rsd == s.inserted_rsd
            &&& after.last_activity_ms == s.last_activity_ms
            &&& after.cancelled <==> s.cancelled || cancel || starts_draining(s, cancel, now)
            &&& !starts_draining(s, cancel, now) ==> after.draining_until_ms
                == s.draining_until_ms
            &&& starts_draining(s, cancel, now) ==> {
                &&& after.draining_until_ms is Some
                &&& after.draining_until_ms->0 == if now + 3_000 <= u64::MAX {
                    now + 3_000
                } else {
                    u64::MAX as int
                }
            }
        }),
        tick_end(s, now) == if s.draining_until_ms is Some && s.draining_until_ms->0 <= now {
            Some(EndView::Cancelled(s.inserted_rsd))
        } else {
            None
        },
{
}

/// A session begins with the price, no cash, and its own time; a validator that goes away fails
/// it unless it was being cancelled; and it is shown as complete exactly where it was paid.
pub proof fn law_sessions_begin_and_close(total: i64, now: u64, s: Session, cancel: bool, n: i64)
    ensures
        fresh(total, now).total_rsd == total,
        fresh(total, now).inserted_rsd == 0,
        fresh(total, now).last_activity_ms == now,
        fresh(total, now).draining_until_ms is None,
        !fresh(total, now).cancelled,
        s.cancelled || cancel ==> disconnect_end(s, cancel) == EndView::Cancelled(s.inserted_rsd),
        !s.cancelled && !cancel ==> disconnect_end(s, cancel) == EndView::Failed(
            ErrorView::Hardware("veza sa uređajem prekinuta"@),
            s.inserted_rsd,
        ),
        closing_view(total, EndView::Paid(n)) == Some(
            ProgressView { inserted_rsd: n, total_rsd: total, complete: true, note: None },
        ),
        closing_view(total, EndView::Cancelled(n)) is None,
        forall|e: ErrorView| #[trigger]
            closing_view(total, EndView::Failed(e, n)) is None,
{
}

/// Every note in escrow gets exactly one decision, and nothing else does.
pub proof fn law_every_note_is_decided(s: Session, event: EventView, cancel: bool, now: u64)
    ensures
        on_event_view(s, event, cancel, now).1.decision is Some <==> event is NoteInEscrow,
{
}

/// A cancelled session stays cancelled, whatever happens.
pub proof fn law_cancel_is_final(s: Session, event: EventView, cancel: bool, now: u64)
    requires
        s.cancelled || cancel,
    ensures
        ticked(s, cancel, now).cancelled,
        on_event_view(s, event, cancel, now).0.cancelled,
        on_event_view(s, event, cancel, now).1.decision != Some(EscrowDecision::Accept),
{
}

/// Every credit is stored, with the running total, and nothing else is.
pub proof fn law_every_credit_is_stored(s: Session, event: EventView, cancel: bool, now: u64)
    ensures
        on_event_view(s, event, cancel, now).1.persist == match event {
            EventView::Credited { total_inserted_rsd, .. } => Some(total_inserted_rsd),
            _ => None,
        },
        on_event_view(s, event, cancel, now).0.inserted_rsd == match event {
            EventView::Credited { total_inserted_rsd, .. } => total_inserted_rsd,
            _ => s.inserted_rsd,
        },
{
}

/// Whatever way a session ends, the end carries the cash taken so far.
pub proof fn law_end_carries_the_cash(s: Session, event: EventView, cancel: bool, now: u64)
    ensures
        tick_end(ticked(s, cancel, now), now) matches Some(e) ==> end_inserted(e)
            == s.inserted_rsd,
        on_event_view(s, event, cancel, now).1.end matches Some(e) ==> end_inserted(e)
            == on_event_view(s, event, cancel, now).0.inserted_rsd,
        end_inserted(disconnect_end(s, cancel)) == s.inserted_rsd,
{
}

/// A session ends as paid exactly when a credit brings the cash to the price.
pub proof fn law_paid_means_covered(s: Session, event: EventView, cancel: bool, now: u64)
    ensures
        on_event_view(s, event, cancel, now).1.end is Some && on_event_view(
            s,
            event,
            cancel,
            now,
        ).1.end->0 is Paid <==> (event matches EventView::Credited { total_inserted_rsd, .. }
            && total_inserted_rsd >= s.total_rsd),
{
}

/// What reaches a session.
pub enum SessionInput {
    Tick { cancel: bool, now: u64 },
    Event { event: EventView, cancel: bool, now: u64 },
}

/// A session together with the note that it has accepted and that is not stacked yet.
pub struct Held {
    pub session: Session,
    pub accepted: Option<i64>,
}

/// The session after an input.
pub open spec fn fed(h: Held, input: SessionInput) -> Held {
    match input {
        SessionInput::Tick { cancel, now } => Held {
            session: ticked(h.session, cancel, now),
            ..h
        },
        SessionInput::Event { event, cancel, now } => {
            let (session, response) = on_event_view(h.session, event, cancel, now);
            let accepted = match event {
                EventView::NoteInEscrow { value_rsd } => if response.decision == Some(
                    EscrowDecision::Accept,
                ) {
                    Some(value_rsd)
                } else {
                    None
                },
                EventView::Credited { .. } => None,
                EventView::NoteReturned { .. } => None,
                _ => h.accepted,
            };
            Held { session, accepted }
        },
    }
}

/// The session after a list of inputs.
pub open spec fn fed_all(h: Held, inputs: Seq<SessionInput>) -> Held
    decreases inputs.len(),
{
    if inputs.len() == 0 {
        h
    } else {
        fed(fed_all(h, inputs.drop_last()), inputs.last())
    }
}

proof fn lemma_draining_goes_on(h: Held, inputs: Seq<SessionInput>)
    requires
        h.session.draining_until_ms is Some,
        h.session.cancelled,
    ensures
        fed_all(h, inputs).session.draining_until_ms == h.session.draining_until_ms,
        fed_all(h, inputs).session.cancelled,
    decreases inputs.len(),
{
    if inputs.len() > 0 {
        lemma_draining_goes_on(h, inputs.drop_last());
    }
}

/// A session that starts to drain ends, and never takes longer than the draining: whatever
/// reaches it in between, no note is accepted, the draining does not start again, and the first
/// look at the clock after its end ends the session as cancelled, with the cash taken by then.
pub proof fn law_draining_is_bounded(
    h: Held,
    cancel: bool,
    now: u64,
    inputs: Seq<SessionInput>,
    again: bool,
    then: u64,
)
    requires
        starts_draining(h.session, cancel, now),
        then >= now + CANCEL_DRAIN_MS,
    ensures
        ({
            let s = fed_all(fed(h, SessionInput::Tick { cancel, now }), inputs).session;
            &&& forall|value: i64| !(#[trigger] takes(s, value))
            &&& !starts_draining(s, again, then)
            &&& tick_end(ticked(s, again, then), then) == Some(
                EndView::Cancelled(s.inserted_rsd),
            )
        }),
{
    lemma_draining_goes_on(fed(h, SessionInput::Tick { cancel, now }), inputs);
}

/// When cash was last taken: the time of the last credit, or of the start where there is none.
pub open spec fn last_credit(start: u64, inputs: Seq<SessionInput>) -> u64
    decreases inputs.len(),
{
    if inputs.len() == 0 {
        start
    } else {
        match inputs.last() {
            SessionInput::Event { event: EventView::Credited { .. }, now, .. } => now,
            _ => last_credit(start, inputs.drop_last()),
        }
    }
}

/// A session that has taken no cash for long enough starts to drain by itself, and one that has
/// taken some since does not: only credits count, however many notes are read or handed back.
pub proof fn law_no_cash_starts_draining(
    total: i64,
    start: u64,
    inputs: Seq<SessionInput>,
    now: u64,
)
    ensures
        ({
            let s = fed_all(Held { session: fresh(total, start), accepted: None }, inputs).session;
            &&& s.last_activity_ms == last_credit(start, inputs)
            &&& !s.cancelled && s.draining_until_ms is None ==> (starts_draining(s, false, now)
                <==> now - last_credit(start, inputs) >= INACTIVITY_TIMEOUT_MS)
        }),
    decreases inputs.len(),
{
    if inputs.len() > 0 {
        law_no_cash_starts_draining(total, start, inputs.drop_last(), now);
    }
}

/// Whether an input is what a validator does that obeys: it holds one note at a time, stacks
/// only an accepted one, and counts what it has stacked.
pub open spec fn obedient(h: Held, input: SessionInput) -> bool {
    match input {
        SessionInput::Event { event: EventView::NoteInEscrow { value_rsd }, .. } => h.accepted
            is None && value_rsd > 0,
        SessionInput::Event {
            event: EventView::Credited { value_rsd, total_inserted_rsd },
            ..
        } => h.accepted == Some(value_rsd) && total_inserted_rsd == h.session.inserted_rsd
            + value_rsd,
        _ => true,
    }
}

/// Whether every input of a list is what an obedient validator does.
pub open spec fn all_obedient(h: Held, inputs: Seq<SessionInput>) -> bool
    decreases inputs.len(),
{
    inputs.len() > 0 ==> all_obedient(h, inputs.drop_last()) && obedient(
        fed_all(h, inputs.drop_last()),
        inputs.last(),
    )
}

/// With a validator that obeys, a session never takes more than the price: at every point the
/// cash taken, with the accepted note that is still on its way, is within the price.
pub proof fn law_session_never_overcharges(total: i64, start: u64, inputs: Seq<SessionInput>)
    requires
        0 <= total < i64::MAX,
        all_obedient(Held { session: fresh(total, start), accepted: None }, inputs),
    ensures
        ({
            let h = fed_all(Held { session: fresh(total, start), accepted: None }, inputs);
            &&& h.session.total_rsd == total
            &&& 0 <= h.session.inserted_rsd <= total
            &&& h.accepted matches Some(v) ==> v > 0 && h.session.inserted_rsd + v <= total
        }),
    decreases inputs.len(),
{
    if inputs.len() > 0 {
        law_session_never_overcharges(total, start, inputs.drop_last());
    }
}

/// With a validator that obeys, a session that ends as paid has taken the price exactly.
pub proof fn law_paid_is_exact(
    total: i64,
    start: u64,
    inputs: Seq<SessionInput>,
    event: EventView,
    cancel: bool,
    now: u64,
)
    requires
        0 <= total < i64::MAX,
        all_obedient(
            Held { session: fresh(total, start), accepted: None },
            inputs.push(SessionInput::Event { event, cancel, now }),
        ),
    ensures
        ({
            let h = fed_all(Held { session: fresh(total, start), accepted: None }, inputs);
            on_event_view(h.session, event, cancel, now).1.end matches Some(EndView::Paid(n))
                ==> n == total
        }),
{
    let all = inputs.push(SessionInput::Event { event, cancel, now });
    assert(all.drop_last() =~= inputs);
    law_session_never_overcharges(total, start, all);
}

/// The events among the inputs.
pub open spec fn events_among(inputs: Seq<SessionInput>) -> Seq<EventView>
    decreases inputs.len(),
{
    if inputs.len() == 0 {
        Seq::empty()
    } else {
        match inputs.last() {
            SessionInput::Event { event, .. } => events_among(inputs.drop_last()).push(event),
            SessionInput::Tick { .. } => events_among(inputs.drop_last()),
        }
    }
}

/// A session holds, at every point, what the validator has credited: the amount that it
/// stores and ends with is the cash in the box.
pub proof fn law_session_holds_what_was_credited(total: i64, start: u64, inputs: Seq<SessionInput>)
    requires
        counts_up(0, events_among(inputs)),
    ensures
        fed_all(
            Held { session: fresh(total, start), accepted: None },
            inputs,
        ).session.inserted_rsd == credited_sum(events_among(inputs)),
    decreases inputs.len(),
{
    if inputs.len() > 0 {
        let before = inputs.drop_last();
        let events = events_among(inputs);
        if inputs.last() is Event {
            assert(events.drop_last() =~= events_among(before));
        }
        law_session_holds_what_was_credited(total, start, before);
    }
}

} // verus!
