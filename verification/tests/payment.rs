use kiosk_naplata::models::{PaymentEvent, PaymentProgress};
use kiosk_naplata::nv9::EscrowDecision;
use kiosk_naplata::payment::{
    PaymentEnd, Session, CANCEL_DRAIN_MS, INACTIVITY_TIMEOUT_MS,
};

fn escrow(s: &mut Session, value_rsd: i64, cancel: bool) -> Option<EscrowDecision> {
    s.on_event(PaymentEvent::NoteInEscrow { value_rsd }, cancel, 10).decision
}

fn note(p: &Option<PaymentProgress>) -> Option<String> {
    p.as_ref().and_then(|p| p.note.clone())
}

#[test]
fn notes_are_taken_up_to_the_price() {
    let mut s = Session::new(700, 0);
    assert_eq!(escrow(&mut s, 500, false), Some(EscrowDecision::Accept));
    let r = s.on_event(
        PaymentEvent::Credited { value_rsd: 500, total_inserted_rsd: 500 },
        false,
        20,
    );
    assert_eq!(r.persist, Some(500));
    assert!(r.end.is_none());
    let p = r.progress.unwrap();
    assert_eq!((p.inserted_rsd, p.total_rsd, p.complete, p.note), (500, 700, false, None));
    assert_eq!(escrow(&mut s, 500, false), Some(EscrowDecision::Reject));
    assert_eq!(escrow(&mut s, 200, false), Some(EscrowDecision::Accept));
    let r = s.on_event(
        PaymentEvent::Credited { value_rsd: 200, total_inserted_rsd: 700 },
        false,
        30,
    );
    let end = r.end.unwrap();
    assert!(matches!(end, PaymentEnd::Paid(700)));
    let p = s.closing_progress(&end).unwrap();
    assert_eq!((p.inserted_rsd, p.total_rsd, p.complete), (700, 700, true));
    assert!(s.closing_progress(&PaymentEnd::Cancelled(1)).is_none());
}

#[test]
fn the_sum_of_notes_is_held_at_the_top() {
    let mut s = Session::new(i64::MAX - 1, 0);
    s.inserted_rsd = i64::MAX - 2;
    assert_eq!(escrow(&mut s, 5, false), Some(EscrowDecision::Reject));
    assert_eq!(escrow(&mut s, 1, false), Some(EscrowDecision::Accept));
}

#[test]
fn a_cancelled_session_takes_no_note_and_drains() {
    let mut s = Session::new(700, 0);
    assert_eq!(escrow(&mut s, 100, true), Some(EscrowDecision::Reject));
    assert_eq!(escrow(&mut s, 100, false), Some(EscrowDecision::Reject));
    let t = s.tick(false, 50);
    assert!(t.reject);
    assert!(t.end.is_none());
    let t = s.tick(true, 50 + CANCEL_DRAIN_MS - 1);
    assert!(!t.reject);
    assert!(t.end.is_none());
    let r = s.on_event(
        PaymentEvent::Credited { value_rsd: 100, total_inserted_rsd: 100 },
        true,
        60,
    );
    assert_eq!(r.persist, Some(100));
    let t = s.tick(true, 50 + CANCEL_DRAIN_MS);
    assert!(matches!(t.end, Some(PaymentEnd::Cancelled(100))));
}

#[test]
fn a_session_without_cash_is_given_up() {
    let mut s = Session::new(700, 1_000);
    assert!(!s.tick(false, 1_000 + INACTIVITY_TIMEOUT_MS - 1).reject);
    assert!(s.tick(false, 1_000 + INACTIVITY_TIMEOUT_MS).reject);
    assert!(s.cancelled);
    let mut s = Session::new(700, 1_000);
    s.on_event(
        PaymentEvent::Credited { value_rsd: 100, total_inserted_rsd: 100 },
        false,
        5_000,
    );
    assert!(!s.tick(false, 1_000 + INACTIVITY_TIMEOUT_MS).reject);
    assert!(!s.tick(false, 5_000 + INACTIVITY_TIMEOUT_MS - 1).reject);
    assert!(s.tick(false, 5_000 + INACTIVITY_TIMEOUT_MS).reject);
}

#[test]
fn notes_that_are_handed_back_do_not_keep_a_session_open() {
    let mut s = Session::new(700, 0);
    for now in [60_000, 119_000] {
        assert!(!s.tick(false, now).reject);
        let r = s.on_event(PaymentEvent::NoteInEscrow { value_rsd: 1_000 }, false, now);
        assert_eq!(r.decision, Some(EscrowDecision::Reject));
        s.on_event(PaymentEvent::NoteReturned { value_rsd: 1_000 }, false, now);
        assert_eq!(s.last_activity_ms, 0);
    }
    assert!(s.tick(false, INACTIVITY_TIMEOUT_MS).reject);
    let t = s.tick(false, INACTIVITY_TIMEOUT_MS + CANCEL_DRAIN_MS - 1);
    assert!(t.end.is_none());
    let t = s.tick(false, INACTIVITY_TIMEOUT_MS + CANCEL_DRAIN_MS);
    assert!(matches!(t.end, Some(PaymentEnd::Cancelled(0))));
}

#[test]
fn the_visitor_is_told_what_happens() {
    let mut s = Session::new(700, 0);
    let mut said = |e: PaymentEvent| note(&s.on_event(e, false, 1).progress);
    assert_eq!(said(PaymentEvent::Connected), Some("Uređaj povezan".to_string()));
    assert_eq!(said(PaymentEvent::Disconnected), Some("Uređaj nije povezan".to_string()));
    assert_eq!(said(PaymentEvent::Notice { message: "x".to_string() }), Some("x".to_string()));
    assert_eq!(
        said(PaymentEvent::NoteReturned { value_rsd: 100 }),
        Some("Novčanica vraćena (nema kusura)".to_string())
    );
}

#[test]
fn failures_carry_the_cash() {
    let mut s = Session::new(700, 0);
    s.inserted_rsd = 200;
    match s.on_event(PaymentEvent::Error { message: "kvar".to_string() }, false, 1).end {
        Some(PaymentEnd::Failed(e, 200)) => assert_eq!(e.message(), "hardver: kvar"),
        _ => panic!("nema greške"),
    }
    match s.on_disconnect(false) {
        PaymentEnd::Failed(e, 200) => {
            assert_eq!(e.message(), "hardver: veza sa uređajem prekinuta")
        }
        _ => panic!("nema greške"),
    }
    assert!(matches!(s.on_disconnect(true), PaymentEnd::Cancelled(200)));
}

#[test]
fn a_whole_session_takes_exactly_the_price() {
    let mut s = Session::new(1_500, 0);
    let mut inserted = 0;
    for value in [1_000, 1_000, 200, 500, 200, 100] {
        if escrow(&mut s, value, false) == Some(EscrowDecision::Accept) {
            inserted += value;
            let r = s.on_event(
                PaymentEvent::Credited { value_rsd: value, total_inserted_rsd: inserted },
                false,
                1,
            );
            assert!(inserted <= 1_500);
            if let Some(PaymentEnd::Paid(n)) = r.end {
                assert_eq!(n, 1_500);
                return;
            }
        }
    }
    panic!("nije plaćeno");
}

#[test]
fn a_session_holds_what_was_credited() {
    let mut s = Session::new(5_000, 0);
    s.tick(false, 1);
    for (value_rsd, total_inserted_rsd) in [(100, 100), (200, 300), (1_000, 1_300)] {
        s.on_event(PaymentEvent::Credited { value_rsd, total_inserted_rsd }, false, 2);
        s.on_event(PaymentEvent::Notice { message: "x".to_string() }, false, 3);
        s.tick(false, 4);
        assert_eq!(s.inserted_rsd, total_inserted_rsd);
    }
}
