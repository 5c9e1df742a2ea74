use kiosk_naplata::models::{KioskError, PaymentEvent};
use kiosk_naplata::nv9::driver::{
    check_sync, wait_for_decision, Action, DecisionWait, Driver, Step,
};
use kiosk_naplata::nv9::poll::{
    poll_event_payload_len, process_poll, resume_poll, PollStep, ValidatorState,
};
use kiosk_naplata::nv9::{
    EscrowDecision, CMD_DISABLE, CMD_ENABLE, CMD_POLL, CMD_REJECT, CMD_SETUP_REQUEST,
    CMD_SET_INHIBITS, CMD_SYNC,
};

fn state() -> ValidatorState {
    ValidatorState { channel_values: vec![100, 200, 0], escrow_value: None, total_inserted_rsd: 0 }
}

fn shown(events: &[PaymentEvent]) -> Vec<String> {
    events
        .iter()
        .map(|e| match e {
            PaymentEvent::Connected => "connected".to_string(),
            PaymentEvent::Disconnected => "disconnected".to_string(),
            PaymentEvent::NoteInEscrow { value_rsd } => format!("escrow {}", value_rsd),
            PaymentEvent::Credited { value_rsd, total_inserted_rsd } => {
                format!("credited {} {}", value_rsd, total_inserted_rsd)
            }
            PaymentEvent::NoteReturned { value_rsd } => format!("returned {}", value_rsd),
            PaymentEvent::Notice { message } => format!("notice {}", message),
            PaymentEvent::Error { message } => format!("error {}", message),
        })
        .collect()
}

#[test]
fn payloads_of_poll_events() {
    for code in [0xef, 0xee, 0xe1, 0xe2, 0xe6] {
        assert_eq!(poll_event_payload_len(code), 1);
    }
    for code in [0x00, 0xf1, 0xed, 0xec, 0xcc, 0xeb, 0xe0, 0xe3, 0xe4, 0xe7, 0xe8, 0xe9, 0x55] {
        assert_eq!(poll_event_payload_len(code), 0);
    }
}

#[test]
fn a_note_is_held_and_credited_when_stacked() {
    let mut s = state();
    let run = process_poll(&mut s, &vec![0xf0, 0xef, 0x00, 0xef, 0x02, 0xcc]);
    assert_eq!(shown(&run.events), vec!["escrow 200"]);
    let resume = match run.step {
        PollStep::AwaitDecision { resume } => resume,
        _ => panic!("nema odluke"),
    };
    assert_eq!(resume, 5);
    let run = resume_poll(&mut s, &vec![0xf0, 0xef, 0x00, 0xef, 0x02, 0xcc], resume);
    assert_eq!(shown(&run.events), vec!["notice NV9 note stacking"]);
    let run = process_poll(&mut s, &vec![0xf0, 0xee, 0x02, 0xeb]);
    assert_eq!(shown(&run.events), vec!["credited 200 200"]);
    assert_eq!(s.total_inserted_rsd, 200);
    assert_eq!(s.escrow_value, None);
}

#[test]
fn a_rejected_note_is_handed_back() {
    let mut s = state();
    s.escrow_value = Some(100);
    let run = process_poll(&mut s, &vec![0xf0, 0xed, 0xec]);
    assert_eq!(shown(&run.events), vec!["notice NV9 note rejecting", "returned 100"]);
    s.escrow_value = Some(100);
    let run = process_poll(&mut s, &vec![0xf0, 0xe1, 0x01]);
    assert_eq!(shown(&run.events), vec!["returned 100"]);
    let run = process_poll(&mut s, &vec![0xf0, 0xec, 0xe1, 0x01, 0xeb]);
    assert_eq!(
        shown(&run.events),
        vec![
            "notice NV9 reported Note Rejected without tracked escrow",
            "notice NV9 cleared a note from the front path",
            "notice NV9 reported Note Stacked without tracked escrow",
        ]
    );
    assert_eq!(s.total_inserted_rsd, 0);
}

#[test]
fn odd_poll_events_are_reported() {
    let mut s = state();
    let run = process_poll(
        &mut s,
        &vec![
            0xf0, 0x00, 0xe3, 0xe4, 0xe8, 0xe6, 0x04, 0xe7, 0xe0, 0xe9, 0xb5, 0xef, 0x03, 0xef,
            0x09,
        ],
    );
    assert_eq!(
        shown(&run.events),
        vec![
            "notice NV9 cash box removed; stacking unavailable",
            "notice NV9 cash box replaced",
            "notice NV9 validator disabled",
            "notice NV9 fraud-attempt/unsafe-jam warning on channel 4",
            "notice NV9 stacker full; empty cash box",
            "notice NV9 note-path warning (event 0xE0)",
            "notice NV9 path warning (event 0xE9)",
            "notice NV9 unrecognized Poll event 0xB5",
            "notice NV9 reported unknown or inhibited channel 3",
            "notice NV9 reported unknown or inhibited channel 9",
        ]
    );
    assert!(matches!(run.step, PollStep::Finished));
    s.escrow_value = Some(100);
    let run = process_poll(&mut s, &vec![0xf0, 0xef, 0x01, 0xe2, 0x01, 0xf1, 0xeb]);
    assert_eq!(
        shown(&run.events),
        vec![
            "notice NV9 reported a second escrow note while one is pending",
            "error Novčanica povučena u kasu bez naplate — pozvati osoblje",
            "notice NV9 slave reset; reinitializing validator",
        ]
    );
    assert!(matches!(run.step, PollStep::Reinitialize));
}

#[test]
fn bad_poll_replies() {
    let mut s = state();
    match process_poll(&mut s, &vec![]).step {
        PollStep::Failed(e) => {
            assert_eq!(e.message(), "hardver: NV9 Poll returned an empty response")
        }
        _ => panic!("nema greške"),
    }
    let run = process_poll(&mut s, &vec![0xf6]);
    assert_eq!(
        shown(&run.events),
        vec!["notice NV9 Poll: SSP response 0xF6 (command cannot be processed)"]
    );
    match process_poll(&mut s, &vec![0xf0, 0xef]).step {
        PollStep::Failed(e) => assert_eq!(
            e.message(),
            "hardver: malformed NV9 Poll: event 0xEF missing 1-byte payload"
        ),
        _ => panic!("nema greške"),
    }
    s.escrow_value = Some(1);
    s.total_inserted_rsd = i64::MAX;
    match process_poll(&mut s, &vec![0xf0, 0xeb]).step {
        PollStep::Failed(e) => assert_eq!(e.message(), "hardver: NV9 inserted-total overflow"),
        _ => panic!("nema greške"),
    }
    assert_eq!(s.total_inserted_rsd, i64::MAX);
}

fn sent(step: &Step) -> (u8, u8, Vec<u8>) {
    match &step.action {
        Action::Send { sequence, command, params } => (*sequence, *command, params.clone()),
        _ => panic!("nema paketa"),
    }
}

fn setup_reply() -> Vec<u8> {
    let mut r = vec![0xf0, 0, 0, 0, 0, 0, b'R', b'S', b'D', 0, 0, 100, 3, 1, 2, 0];
    r.extend_from_slice(&[2, 2, 2, 0, 0, 100, 6]);
    r
}

fn connected() -> Step {
    let s = Driver::begin();
    assert_eq!(sent(&s), (0x00, CMD_SYNC, vec![]));
    let s = s.driver.replied(Ok(vec![0xf0]));
    assert_eq!(sent(&s), (0x00, CMD_SETUP_REQUEST, vec![]));
    let s = s.driver.replied(Ok(setup_reply()));
    assert_eq!(sent(&s), (0x80, CMD_SET_INHIBITS, vec![0b011, 0]));
    let s = s.driver.replied(Ok(vec![0xf0]));
    assert_eq!(sent(&s), (0x00, CMD_ENABLE, vec![]));
    let s = s.driver.replied(Ok(vec![0xf0]));
    assert_eq!(shown(&s.events), vec!["connected"]);
    assert!(matches!(s.action, Action::Resume));
    s
}

fn finish(step: &Step) -> Result<(), String> {
    match &step.action {
        Action::Finish(Ok(())) => Ok(()),
        Action::Finish(Err(e)) => Err(e.message()),
        _ => panic!("sesija nije gotova"),
    }
}

#[test]
fn a_session_from_start_to_stop() {
    let s = connected();
    let s = s.driver.resume(false);
    assert_eq!(sent(&s), (0x80, CMD_POLL, vec![]));
    let s = s.driver.replied(Ok(vec![0xf0, 0xef, 0x01]));
    assert_eq!(shown(&s.events), vec!["escrow 100"]);
    assert!(matches!(s.action, Action::AwaitDecision));
    let s = s.driver.decided(DecisionWait::Accept);
    assert!(matches!(s.action, Action::Pause));
    let s = s.driver.resume(false);
    assert_eq!(sent(&s), (0x00, CMD_POLL, vec![]));
    let s = s.driver.replied(Ok(vec![0xf0, 0xeb]));
    assert_eq!(shown(&s.events), vec!["credited 100 100"]);
    assert_eq!(s.driver.validator.total_inserted_rsd, 100);
    let s = s.driver.resume(true);
    assert_eq!(sent(&s), (0x80, CMD_DISABLE, vec![]));
    let s = s.driver.replied(Ok(vec![0xf0]));
    assert_eq!(shown(&s.events), vec!["disconnected"]);
    assert!(s.farewell.is_empty());
    assert_eq!(finish(&s), Ok(()));
}

#[test]
fn a_session_that_cannot_be_set_up() {
    let s = Driver::begin();
    let s = s.driver.replied(Ok(vec![0xf8]));
    assert_eq!(shown(&s.farewell), vec!["error hardver: NV9 SYNC returned SSP response 0xF8"]);
    assert_eq!(finish(&s), Err("hardver: NV9 SYNC returned SSP response 0xF8".to_string()));
    let s = Driver::begin();
    let s = s.driver.replied(Ok(vec![0xf0]));
    let s = s.driver.replied(Ok(setup_reply()));
    let s = s.driver.replied(Ok(vec![0xf5]));
    assert_eq!(
        shown(&s.events),
        vec!["notice NV9 Set Channel Inhibits: SSP response 0xF5 (parameter out of range)"]
    );
    assert_eq!(finish(&s), Err("hardver: NV9 Set Channel Inhibits was rejected".to_string()));
    let s = Driver::begin();
    let s = s.driver.replied(Ok(vec![0xf0]));
    let s = s.driver.replied(Ok(setup_reply()));
    let s = s.driver.replied(Ok(vec![0xf0]));
    let s = s.driver.replied(Ok(vec![0xf6]));
    assert_eq!(finish(&s), Err("hardver: NV9 Enable was rejected".to_string()));
}

#[test]
fn a_lost_poll_is_followed_by_another_set_up() {
    let s = connected().driver.resume(false);
    let s = s.driver.replied(Err(KioskError::Hardware("tišina".to_string())));
    assert_eq!(
        shown(&s.events),
        vec!["notice NV9 Poll failed; attempting resync: hardver: tišina"]
    );
    assert_eq!(sent(&s), (0x00, CMD_SYNC, vec![]));
    let s = s.driver.replied(Err(KioskError::Hardware("tišina".to_string())));
    assert_eq!(sent(&s), (0x00, CMD_DISABLE, vec![]));
    let s = s.driver.replied(Err(KioskError::Hardware("tišina".to_string())));
    let text = "hardver: NV9 Poll failed and resync was unsuccessful: hardver: tišina";
    assert_eq!(shown(&s.farewell), vec![format!("error {}", text), "disconnected".to_string()]);
    assert_eq!(finish(&s), Err(text.to_string()));
}

#[test]
fn a_reset_validator_is_set_up_again() {
    let s = connected().driver.resume(false);
    let s = s.driver.replied(Ok(vec![0xf0, 0xf1]));
    assert_eq!(sent(&s), (0x00, CMD_SYNC, vec![]));
    let s = s.driver.replied(Ok(vec![0xf0]));
    let s = s.driver.replied(Ok(setup_reply()));
    let s = s.driver.replied(Ok(vec![0xf0]));
    let s = s.driver.replied(Ok(vec![0xf0]));
    assert!(s.events.is_empty());
    assert!(matches!(s.action, Action::Pause));
}

#[test]
fn a_note_is_rejected_even_over_a_bad_link() {
    let held = || connected().driver.resume(false).driver.replied(Ok(vec![0xf0, 0xef, 0x02]));
    let s = held().driver.decided(DecisionWait::Reject);
    assert_eq!(sent(&s), (0x00, CMD_REJECT, vec![]));
    let s = s.driver.replied(Err(KioskError::Hardware("x".to_string())));
    assert_eq!(sent(&s), (0x00, CMD_SYNC, vec![]));
    let s = s.driver.replied(Ok(vec![0xf0]));
    assert_eq!(sent(&s), (0x00, CMD_REJECT, vec![]));
    let s = s.driver.replied(Ok(vec![0xf6]));
    assert_eq!(
        shown(&s.events),
        vec!["notice NV9 Reject: SSP response 0xF6 (command cannot be processed)"]
    );
    assert_eq!(s.driver.validator.escrow_value, Some(200));
    let s = held().driver.decided(DecisionWait::Stop);
    assert_eq!(sent(&s), (0x00, CMD_REJECT, vec![]));
    let s = s.driver.replied(Err(KioskError::Hardware("x".to_string())));
    assert_eq!(sent(&s), (0x00, CMD_DISABLE, vec![]));
}

#[test]
fn the_sequence_bit_toggles_per_successful_command() {
    let silent = || KioskError::Hardware("x".to_string());
    let s = connected().driver.resume(false);
    assert_eq!(sent(&s), (0x80, CMD_POLL, vec![]));
    let s = s.driver.replied(Ok(vec![0xf6]));
    let s = s.driver.resume(false);
    assert_eq!(sent(&s), (0x00, CMD_POLL, vec![]));
    let s = s.driver.replied(Err(silent()));
    let s = s.driver.replied(Ok(vec![0xf0]));
    assert_eq!(sent(&s), (0x00, CMD_SETUP_REQUEST, vec![]));
    let s = s.driver.replied(Ok(setup_reply()));
    assert_eq!(sent(&s), (0x80, CMD_SET_INHIBITS, vec![0b011, 0]));
    let s = s.driver.replied(Err(silent()));
    assert_eq!(sent(&s), (0x80, CMD_DISABLE, vec![]));
}

#[test]
fn a_session_ends_when_nobody_decides_or_listens() {
    let s = connected().driver.resume(false).driver.replied(Ok(vec![0xf0, 0xef, 0x02]));
    let s = s.driver.decisions_closed();
    assert_eq!(sent(&s), (0x00, CMD_DISABLE, vec![]));
    let s = s.driver.replied(Ok(vec![0xf0]));
    assert_eq!(
        finish(&s),
        Err("hardver: NV9 escrow decision channel disconnected while a note was held".to_string())
    );
    let s = connected().driver.events_closed();
    assert_eq!(
        finish(&s),
        Err("hardver: NV9 payment-event receiver disconnected".to_string())
    );
    let s = connected().driver.resume(false);
    let s = s.driver.replied(Err(KioskError::Hardware("x".to_string())));
    let s = s.driver.events_closed();
    assert_eq!(sent(&s), (0x80, CMD_DISABLE, vec![]));
    let s = s.driver.replied(Ok(vec![0xf0]));
    assert_eq!(
        finish(&s),
        Err("hardver: NV9 payment-event receiver disconnected".to_string())
    );
}

#[test]
fn a_recovery_that_cannot_report_has_failed() {
    let s = connected().driver.resume(false);
    let s = s.driver.replied(Err(KioskError::Hardware("x".to_string())));
    let s = s.driver.replied(Ok(vec![0xf0]));
    let s = s.driver.replied(Ok(setup_reply()));
    let s = s.driver.replied(Ok(vec![0xf5]));
    assert_eq!(
        shown(&s.events),
        vec!["notice NV9 Set Channel Inhibits: SSP response 0xF5 (parameter out of range)"]
    );
    let s = s.driver.events_closed();
    assert_eq!(sent(&s), (0x00, CMD_DISABLE, vec![]));
    let s = s.driver.replied(Ok(vec![0xf0]));
    let text = "hardver: NV9 Poll failed and resync was unsuccessful: \
                hardver: NV9 payment-event receiver disconnected";
    assert_eq!(shown(&s.farewell), vec![format!("error {}", text), "disconnected".to_string()]);
    assert_eq!(finish(&s), Err(text.to_string()));

    // A validator that was reset is another matter: nothing is put before the error.
    let s = connected().driver.resume(false);
    let s = s.driver.replied(Ok(vec![0xf0, 0xf1]));
    let s = s.driver.replied(Ok(vec![0xf0]));
    let s = s.driver.replied(Ok(setup_reply()));
    let s = s.driver.replied(Ok(vec![0xf5]));
    let s = s.driver.events_closed().driver.replied(Ok(vec![0xf0]));
    assert_eq!(
        finish(&s),
        Err("hardver: NV9 payment-event receiver disconnected".to_string())
    );
}

#[test]
fn waiting_for_a_decision() {
    assert_eq!(wait_for_decision(true, Some(EscrowDecision::Accept)), Some(DecisionWait::Stop));
    assert_eq!(wait_for_decision(false, Some(EscrowDecision::Accept)), Some(DecisionWait::Accept));
    assert_eq!(wait_for_decision(false, Some(EscrowDecision::Reject)), Some(DecisionWait::Reject));
    assert_eq!(wait_for_decision(false, None), None);
    assert!(check_sync(&vec![0xf0]).is_ok());
}
