use glam::{Quat, Vec3};
use packet::parser::Parser;
use packet::run::{Mode, Outcome, Run, Status, SAMPLE_CAP, SILENCE_MS};
use packet::wire::{Bits3, Calibration, FitStatus, Orientation, Packet, RunState};

fn bits(v: Vec3) -> Bits3 {
    Bits3 {
        x: v.x.to_bits(),
        y: v.y.to_bits(),
        z: v.z.to_bits(),
    }
}

fn packet(state: RunState, fit: FitStatus) -> Calibration {
    Calibration {
        sample: bits(Vec3::new(21_000.0, -14_915.0, -33_100.0)),
        offset: bits(Vec3::new(9265.5, -28_189.5, -11_732.9)),
        radius: 46_917.9f32.to_bits(),
        residual: 1158.5f32.to_bits(),
        spread: 0.1234f32.to_bits(),
        samples: 1512,
        sectors: 0b1110_1111,
        state,
        fit,
    }
}

fn idle() -> Calibration {
    packet(RunState::Idle, FitStatus::Fitted)
}

fn collecting() -> Calibration {
    packet(RunState::Collecting, FitStatus::TooFewSamples)
}

/// Drive a run up to but not including its ending. Returns the clock.
fn a_run_in_progress(run: &mut Run) -> i64 {
    let mut now = 1000;
    run.push(idle(), now);
    for _ in 0..40 {
        now += 20;
        run.push(collecting(), now);
    }
    now
}

fn text(run: &Run) -> &'static str {
    run.status().unwrap().fixed_text().unwrap()
}

#[test]
fn an_idle_board_does_not_put_the_page_into_calibration_mode() {
    let mut run = Run::default();
    for tick in 0..20 {
        run.push(idle(), 1000 + tick as i64 * 500);
    }

    assert_eq!(run.mode(), Mode::Model);
    assert_eq!(run.status(), None);
    assert!(run.samples().is_empty());
}

#[test]
fn a_run_starts_on_the_first_packet_that_is_not_idle() {
    let mut run = Run::default();
    run.push(idle(), 1000);
    assert_eq!(run.mode(), Mode::Model);

    run.push(collecting(), 1020);
    assert_eq!(run.mode(), Mode::Calibrating);
    assert_eq!(run.samples().len(), 1);
}

#[test]
fn solving_lands_with_the_offset() {
    let mut run = Run::default();
    let now = a_run_in_progress(&mut run);

    let solved = packet(RunState::Solved, FitStatus::Fitted);
    run.push(solved, now + 20);

    assert_eq!(run.mode(), Mode::Landed);
    assert_eq!(run.outcome(), Some(Outcome::Solved(solved)));
    assert_eq!(run.samples().len(), 41);
    assert_eq!(run.status(), Some(Status::Solved(solved)));
}

#[test]
fn a_refusal_lands_with_its_reason_and_never_claims_the_offset_changed() {
    let mut run = Run::default();
    let now = a_run_in_progress(&mut run);

    run.push(packet(RunState::Refused, FitStatus::Coplanar), now + 20);

    assert_eq!(run.mode(), Mode::Landed);
    assert_eq!(run.outcome(), Some(Outcome::Refused(FitStatus::Coplanar)));

    let status = text(&run);
    assert!(status.contains("flat"), "{status}");
    assert!(status.contains("Old correction kept"), "{status}");
    assert!(!status.contains("solved ·"), "{status}");
}

#[test]
fn a_lost_terminal_packet_ends_the_run_without_naming_a_reason() {
    let mut run = Run::default();
    let now = a_run_in_progress(&mut run);

    run.push(idle(), now + 500);

    assert_eq!(run.mode(), Mode::Landed);
    assert_eq!(run.outcome(), Some(Outcome::Ended));

    let status = text(&run);
    assert!(status.contains("without an answer"), "{status}");
    assert!(!status.contains("flat"), "{status}");
    assert!(!status.contains("too few"), "{status}");
}

#[test]
fn a_board_that_stops_talking_ends_the_run() {
    let mut run = Run::default();
    let now = a_run_in_progress(&mut run);

    run.tick(now + SILENCE_MS - 1);
    assert_eq!(run.mode(), Mode::Calibrating);

    run.tick(now + SILENCE_MS + 1);
    assert_eq!(run.mode(), Mode::Landed);
    assert_eq!(run.outcome(), Some(Outcome::Ended));
}

#[test]
fn the_silence_timer_cannot_fire_before_a_run_has_started() {
    let mut run = Run::default();
    run.tick(1000);
    run.tick(i64::MAX);

    assert_eq!(run.mode(), Mode::Model);
    assert_eq!(run.outcome(), None);
}

#[test]
fn closing_the_port_ends_a_run_but_leaves_a_finished_one_alone() {
    let mut run = Run::default();
    let now = a_run_in_progress(&mut run);
    run.disconnected();
    assert_eq!(run.outcome(), Some(Outcome::Ended));

    let mut solved_run = Run::default();
    let now = now.max(a_run_in_progress(&mut solved_run));
    let solved = packet(RunState::Solved, FitStatus::Fitted);
    solved_run.push(solved, now + 20);
    solved_run.disconnected();

    assert_eq!(solved_run.outcome(), Some(Outcome::Solved(solved)));
}

#[test]
fn a_second_run_clears_the_first_ones_cloud() {
    let mut run = Run::default();
    let mut now = a_run_in_progress(&mut run);
    run.push(packet(RunState::Solved, FitStatus::Fitted), now + 20);
    assert_eq!(run.samples().len(), 41);

    now += 1000;
    run.push(collecting(), now);

    assert_eq!(run.mode(), Mode::Calibrating);
    assert_eq!(run.samples().len(), 1, "the previous cloud was kept");
    assert_eq!(run.outcome(), None, "the previous answer was kept");
}

#[test]
fn joining_a_stream_that_is_already_calibrating_still_works() {
    let mut run = Run::default();
    run.push(collecting(), 1000);

    assert_eq!(run.mode(), Mode::Calibrating);
    assert!(matches!(run.status(), Some(Status::Calibrating { .. })));
}

#[test]
fn the_cloud_stops_growing_at_the_cap_rather_than_dropping_its_oldest() {
    let mut run = Run::default();
    let mut now = 1000;

    for _ in 0..SAMPLE_CAP + 100 {
        now += 1;
        run.push(collecting(), now);
    }

    assert_eq!(run.samples().len(), SAMPLE_CAP);
    assert!(run.truncated());
    assert_eq!(run.samples()[0], collecting().sample);
}

#[test]
fn a_run_survives_the_trip_through_raw_bytes() {
    let mut stream = Vec::new();
    let mut expected_samples = 0;

    stream.extend_from_slice(&idle().encode());
    for _ in 0..30 {
        stream.extend_from_slice(&collecting().encode());
        expected_samples += 1;
        for _ in 0..3 {
            let q = Quat::IDENTITY;
            stream.extend_from_slice(
                &Orientation {
                    w: q.w.to_bits(),
                    x: q.x.to_bits(),
                    y: q.y.to_bits(),
                    z: q.z.to_bits(),
                }
                .encode(),
            );
        }
    }
    stream.extend_from_slice(&packet(RunState::Refused, FitStatus::Coplanar).encode());
    expected_samples += 1;
    stream.extend_from_slice(&idle().encode());

    let mut parser = Parser::default();
    let mut run = Run::default();
    let mut now = 1000;

    for chunk in stream.chunks(7) {
        now += 1;
        for decoded in parser.feed(chunk) {
            if let Packet::Calibration(c) = decoded {
                run.push(c, now);
            }
        }
    }

    assert_eq!(parser.bad, 0, "a good stream was rejected");
    assert_eq!(run.mode(), Mode::Landed);
    assert_eq!(run.outcome(), Some(Outcome::Refused(FitStatus::Coplanar)));
    assert_eq!(run.samples().len(), expected_samples);

    assert!(text(&run).contains("flat"));
}

#[test]
fn every_run_state_is_handled() {
    for state in [
        RunState::Idle,
        RunState::Collecting,
        RunState::Ready,
        RunState::Solved,
        RunState::Refused,
    ] {
        let mut run = Run::default();
        run.push(packet(state, FitStatus::Fitted), 1000);

        let expected = match state {
            RunState::Idle => Mode::Model,
            RunState::Collecting | RunState::Ready => Mode::Calibrating,
            RunState::Solved | RunState::Refused => Mode::Landed,
        };
        assert_eq!(run.mode(), expected, "{state:?} went to the wrong mode");
    }
}

// --- further cases ----------------------------------------------------------

#[test]
fn every_refusal_says_the_old_correction_is_kept() {
    for fit in [
        FitStatus::Fitted,
        FitStatus::TooFewSamples,
        FitStatus::Coplanar,
        FitStatus::Singular,
        FitStatus::Scattered,
    ] {
        let line = Status::Refused(fit).fixed_text().unwrap();
        assert!(line.starts_with("not solved"), "{line}");
        assert!(line.ends_with("Old correction kept"), "{line}");
    }
    assert!(Status::Refused(FitStatus::Scattered).fixed_text().unwrap().contains("barely moved"));
    assert!(Status::Refused(FitStatus::TooFewSamples).fixed_text().unwrap().contains("too few"));
    assert_eq!(Status::Solved(idle()).fixed_text(), None);
}

#[test]
fn a_ready_packet_is_reported_as_ready() {
    let mut run = Run::new();
    let ready = packet(RunState::Ready, FitStatus::Fitted);
    run.push(ready, 5);
    assert_eq!(
        run.status(),
        Some(Status::Calibrating {
            samples: 1512,
            spread: 0.1234f32.to_bits(),
            ready: true
        })
    );
    assert_eq!(run.latest(), Some(ready));
}

#[test]
fn silence_is_measured_from_the_last_packet_of_any_kind() {
    let mut run = Run::new();
    run.push(collecting(), 0);
    // An idle packet mid-run ends it, so keep it going with collecting ones.
    run.push(collecting(), 1500);
    run.tick(3000);
    assert_eq!(run.mode(), Mode::Calibrating);
    run.tick(3501);
    assert_eq!(run.mode(), Mode::Landed);
    assert_eq!(run.status(), Some(Status::Ended));
}
