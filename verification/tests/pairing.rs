use opc_desktop::camera::pairing::{
    PairState, PairStep, Pairing, PairingFlow, Reply, PAIR_DEADLINE_MS, STEP_RETRY_MS,
};

// Times are milliseconds on the caller's clock.

fn reply(cmd_set: u8, cmd_id: u8, payload: &[u8]) -> Reply {
    Reply {
        cmd_set,
        cmd_id,
        seq: 0x1234,
        is_request: false,
        payload: payload.to_vec(),
    }
}

fn request(cmd_set: u8, cmd_id: u8, seq: u16) -> Reply {
    Reply {
        cmd_set,
        cmd_id,
        seq,
        is_request: true,
        payload: Vec::new(),
    }
}

/// Walks a camera that already knows this client all the way to credentials.
fn known_camera() -> Pairing {
    let mut pairing = Pairing::new(0);
    assert_eq!(pairing.tick(0), Some(PairStep::Wake));
    assert_eq!(pairing.tick(100), Some(PairStep::SetPin));
    pairing.receive(200, &reply(0x07, 0x45, &[0x00, 0x01]), None);
    assert_eq!(pairing.tick(200), Some(PairStep::WakeAccessPoint));
    pairing.receive(300, &reply(0x53, 0x10, &[0x01, 0, 0, 0]), None);
    assert_eq!(pairing.tick(300), Some(PairStep::AskSsid));
    pairing
}

#[test]
fn a_known_camera_hands_over_credentials_without_a_human() {
    let mut pairing = known_camera();
    pairing.receive(400, &reply(0x07, 0x07, &[]), Some("OsmoPocket4-ABCDEF"));
    assert_eq!(pairing.tick(400), Some(PairStep::AskPassword));
    pairing.receive(500, &reply(0x07, 0x0E, &[]), Some("hunter2hunter2"));

    assert!(pairing.is_finished());
    assert_eq!(
        pairing.credentials(),
        Some(("OsmoPocket4-ABCDEF", "hunter2hunter2"))
    );
    assert_eq!(
        pairing.tick(1000),
        None,
        "a finished pairing sends nothing more"
    );
}

#[test]
fn a_new_camera_waits_for_the_operator_to_approve() {
    let mut pairing = Pairing::new(0);
    pairing.tick(0);
    pairing.tick(100);
    // `00 02`: a human has to press approve on the body.
    pairing.receive(200, &reply(0x07, 0x45, &[0x00, 0x02]), None);
    assert_eq!(pairing.state(), &PairState::AwaitingApproval);

    // Nothing is retried while waiting on a person — the camera has already been asked.
    assert_eq!(pairing.tick(10000), None);
    assert_eq!(pairing.tick(30000), None);

    // They press it; the camera asks us to confirm.
    pairing.receive(31000, &request(0x07, 0x46, 0x0042), None);
    assert_eq!(pairing.tick(31000), Some(PairStep::ApproveWith(0x0042)));
    assert_eq!(pairing.state(), &PairState::WakingAccessPoint);
}

#[test]
fn an_unanswered_pin_is_retried_rather_than_abandoned() {
    let mut pairing = Pairing::new(0);
    assert_eq!(pairing.tick(0), Some(PairStep::Wake));
    assert_eq!(pairing.tick(100), Some(PairStep::SetPin));
    assert_eq!(pairing.tick(500), None, "too soon");
    assert_eq!(
        pairing.tick(2100),
        Some(PairStep::SetPin),
        "retry after the pause"
    );
    assert_eq!(pairing.tick(4200), Some(PairStep::SetPin));
}

#[test]
fn each_step_follows_the_one_before_it_immediately() {
    let mut pairing = Pairing::new(0);
    pairing.tick(0);
    // Not held back by the retry pause: the session wake is fire-and-forget.
    assert_eq!(pairing.tick(100), Some(PairStep::SetPin));
}

#[test]
fn a_camera_that_never_finishes_is_given_up_on() {
    let mut pairing = Pairing::new(0);
    pairing.tick(0);
    assert!(!pairing.is_finished());
    pairing.tick(PAIR_DEADLINE_MS + 1000);
    assert!(matches!(pairing.state(), PairState::Failed(_)));
    assert!(pairing.credentials().is_none());
}

#[test]
fn a_refused_pin_fails_rather_than_hanging() {
    let mut pairing = Pairing::new(0);
    pairing.tick(0);
    pairing.tick(100);
    pairing.receive(200, &reply(0x07, 0x45, &[0x00, 0xFF]), None);
    assert!(matches!(pairing.state(), PairState::Failed(_)));
}

#[test]
fn an_empty_credential_is_a_failure_not_an_empty_password() {
    let mut pairing = known_camera();
    pairing.receive(400, &reply(0x07, 0x07, &[]), Some(""));
    assert!(matches!(pairing.state(), PairState::Failed(_)));

    let mut pairing = known_camera();
    pairing.receive(400, &reply(0x07, 0x07, &[]), Some("OsmoPocket4-ABCDEF"));
    pairing.tick(400);
    pairing.receive(500, &reply(0x07, 0x0E, &[]), None);
    assert!(matches!(pairing.state(), PairState::Failed(_)));
}

#[test]
fn a_frame_that_does_not_belong_to_this_step_is_ignored() {
    let mut pairing = Pairing::new(0);
    pairing.tick(0);
    // Telemetry, a stray reply for another step — none of it moves the flow.
    pairing.receive(100, &reply(0x02, 0xA5, &[0x00]), None);
    pairing.receive(100, &reply(0x07, 0x0E, &[]), Some("nope"));
    assert_eq!(pairing.state(), &PairState::Pinning);
}

#[test]
fn the_pause_and_the_deadline_are_given_to_the_tick_as_facts() {
    let mut pairing = PairingFlow::new();
    assert_eq!(pairing.tick(false, false), Some(PairStep::Wake));
    assert_eq!(pairing.tick(false, false), Some(PairStep::SetPin));
    assert!(pairing.awaiting_retry());
    assert_eq!(pairing.tick(false, false), None, "the pause has not passed");
    assert_eq!(pairing.tick(false, true), Some(PairStep::SetPin));
    assert_eq!(pairing.tick(true, true), None);
    assert!(matches!(pairing.state(), PairState::Failed(_)));
}

#[test]
fn the_deadline_and_the_pause_are_kept_to_the_millisecond() {
    let mut pairing = Pairing::new(1_000);
    assert_eq!(pairing.tick(1_000), Some(PairStep::Wake));
    assert_eq!(pairing.tick(1_000), Some(PairStep::SetPin));
    assert_eq!(pairing.tick(1_000 + STEP_RETRY_MS - 1), None);
    assert_eq!(pairing.tick(1_000 + STEP_RETRY_MS), Some(PairStep::SetPin));
    assert_eq!(pairing.tick(1_000 + PAIR_DEADLINE_MS - 1), Some(PairStep::SetPin));
    assert!(!pairing.is_finished());
    assert_eq!(pairing.tick(1_000 + PAIR_DEADLINE_MS), None);
    assert!(matches!(pairing.state(), PairState::Failed(_)));
}
