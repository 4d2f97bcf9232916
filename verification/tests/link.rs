use packet::link::Link;
use packet::parser::Parser;
use packet::run::{Mode, Outcome};
use packet::wire::{Bits3, Calibration, FitStatus, Orientation, RunState};

fn cal(state: RunState) -> Calibration {
    Calibration {
        sample: Bits3 { x: 1, y: 2, z: 3 },
        offset: Bits3 { x: 0, y: 0, z: 0 },
        radius: 0,
        residual: 0,
        spread: 0,
        samples: 0,
        sectors: 0,
        state,
        fit: FitStatus::TooFewSamples,
    }
}

#[test]
fn the_link_keeps_the_newest_orientation_and_the_whole_run() {
    let first = Orientation { w: 1, x: 2, y: 3, z: 4 };
    let second = Orientation { w: 5, x: 6, y: 7, z: 8 };
    let mut stream = first.encode().to_vec();
    stream.extend_from_slice(&cal(RunState::Collecting).encode());
    stream.extend_from_slice(&second.encode());
    stream.extend_from_slice(&cal(RunState::Collecting).encode());

    let mut link = Link::new();
    let mut parser = Parser::new();
    let (front, back) = stream.split_at(30);
    link.take_in(&mut parser, front, 10);
    assert_eq!(link.orientation, Some(first));
    link.take_in(&mut parser, back, 20);
    assert_eq!(link.orientation, Some(second));
    assert_eq!(link.run.mode(), Mode::Calibrating);
    assert_eq!(link.run.samples().len(), 2);
    assert_eq!(link.good, 4);
    assert_eq!(link.bad, 0);

    link.closed();
    assert_eq!(link.run.outcome(), Some(Outcome::Ended));
}
