use glam::Vec3;
use packet::parser::Parser;
use packet::wire::{Bits3, Calibration, FitStatus, Packet, RunState, MAX_FRAME_LEN};

fn sample(i: u32) -> Calibration {
    let v = Vec3::new(i as f32, -2.5, 1e4);
    Calibration {
        sample: Bits3 {
            x: v.x.to_bits(),
            y: v.y.to_bits(),
            z: v.z.to_bits(),
        },
        offset: Bits3 { x: 0, y: 0, z: 0 },
        radius: 0,
        residual: 0,
        spread: 0,
        samples: i,
        sectors: 0,
        state: RunState::Collecting,
        fit: FitStatus::TooFewSamples,
    }
}

#[test]
fn any_chunking_of_a_stream_finds_the_same_packets() {
    let mut stream = vec![0x13, 0xAA];
    for i in 0..12 {
        stream.extend_from_slice(&sample(i).encode());
    }
    stream.extend_from_slice(&[0xAA, 0x56, 0x00]);

    let mut whole = Parser::new();
    let expected = whole.feed(&stream);
    assert_eq!(expected.len(), 12);

    for size in [1usize, 2, 3, 7, 19, 46, 50, 1000] {
        let mut parser = Parser::default();
        let mut found = Vec::new();
        for chunk in stream.chunks(size) {
            found.extend(parser.feed(chunk));
        }
        assert_eq!(found, expected, "chunks of {size}");
        assert_eq!(parser.good, whole.good);
        assert_eq!(parser.bad, whole.bad);
    }
}

#[test]
fn garbage_is_never_held_for_long() {
    let mut parser = Parser::new();
    let garbage: Vec<u8> = (0..20_000u32).map(|i| (i * 37 % 251) as u8).collect();
    assert!(parser.feed(&garbage).is_empty());
    // Whatever is kept is shorter than a frame, however much garbage went in.
    let tail = parser.feed(&[]);
    assert!(tail.is_empty());
    let packet = sample(3).encode();
    let found = parser.feed(&packet);
    assert_eq!(found, vec![Packet::Calibration(sample(3))]);
    assert!(MAX_FRAME_LEN == 46);
}

#[test]
fn a_corrupt_frame_counts_as_bad_and_the_next_one_still_arrives() {
    let mut stream = sample(1).encode().to_vec();
    stream[10] ^= 0x40;
    stream.extend_from_slice(&sample(2).encode());
    let mut parser = Parser::new();
    let found = parser.feed(&stream);
    assert_eq!(found, vec![Packet::Calibration(sample(2))]);
    assert_eq!(parser.good(), 1);
    assert_eq!(parser.bad(), 1);
}
