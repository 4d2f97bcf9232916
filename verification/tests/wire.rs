use glam::{Quat, Vec3};
use packet::scan::Scan;
use packet::wire::{
    crc8, decode, frame_len, Bits3, Calibration, FitStatus, Orientation, Packet, RunState,
    CALIBRATION_LEN, ORIENTATION_LEN,
};

fn orientation(q: Quat) -> Orientation {
    Orientation {
        w: q.w.to_bits(),
        x: q.x.to_bits(),
        y: q.y.to_bits(),
        z: q.z.to_bits(),
    }
}

fn bits(v: Vec3) -> Bits3 {
    Bits3 {
        x: v.x.to_bits(),
        y: v.y.to_bits(),
        z: v.z.to_bits(),
    }
}

fn a_calibration() -> Calibration {
    Calibration {
        sample: bits(Vec3::new(21_000.0, -14_915.5, -33_100.25)),
        offset: bits(Vec3::new(9265.5, -28_189.5, -11_732.9)),
        radius: 46_917.9f32.to_bits(),
        residual: 1158.5f32.to_bits(),
        spread: 0.1234f32.to_bits(),
        samples: 1512,
        sectors: 0b1110_1111,
        state: RunState::Ready,
        fit: FitStatus::Fitted,
    }
}

fn every_run_state() -> Vec<RunState> {
    (0..=u8::MAX).filter_map(RunState::from_byte).collect()
}

fn every_fit_status() -> Vec<FitStatus> {
    (0..=u8::MAX).filter_map(FitStatus::from_byte).collect()
}

#[test]
fn an_orientation_survives_the_round_trip() {
    let sent = orientation(Quat::from_xyzw(0.1, -0.2, 0.3, 0.9).normalize());

    let frame = sent.encode();
    assert_eq!(frame.len(), ORIENTATION_LEN);
    assert_eq!(decode(&frame), Some(Packet::Orientation(sent)));
}

#[test]
fn a_calibration_survives_the_round_trip() {
    let sent = a_calibration();

    let frame = sent.encode();
    assert_eq!(frame.len(), CALIBRATION_LEN);
    assert_eq!(decode(&frame), Some(Packet::Calibration(sent)));
}

#[test]
fn the_two_packets_are_told_apart_by_their_marker() {
    assert_eq!(
        frame_len(&orientation(Quat::IDENTITY).encode()),
        Some(ORIENTATION_LEN)
    );
    assert_eq!(frame_len(&a_calibration().encode()), Some(CALIBRATION_LEN));
    assert_eq!(frame_len(&[0xAA, 0x57]), None);
    assert_eq!(frame_len(&[0xAA]), None);
    assert_eq!(frame_len(&[]), None);
}

#[test]
fn every_single_bit_flip_is_caught() {
    for state in every_run_state() {
        let frame = Calibration {
            state,
            ..a_calibration()
        }
        .encode();

        for byte in 0..frame.len() {
            for bit in 0..8 {
                let mut corrupted = frame;
                corrupted[byte] ^= 1 << bit;

                if byte < 2 && frame_len(&corrupted) != Some(CALIBRATION_LEN) {
                    continue;
                }

                assert_eq!(
                    decode(&corrupted),
                    None,
                    "{state:?}: byte {byte} bit {bit} got through"
                );
            }
        }
    }
}

#[test]
fn a_frame_of_the_wrong_length_is_refused() {
    let frame = a_calibration().encode();

    assert_eq!(decode(&frame[..CALIBRATION_LEN - 1]), None);
    assert_eq!(decode(&orientation(Quat::IDENTITY).encode()[..18]), None);
}

#[test]
fn the_status_enums_are_the_size_this_module_thinks_they_are() {
    assert_eq!(every_run_state().len(), 5, "RunState gained or lost a variant");
    assert_eq!(every_fit_status().len(), 5, "FitStatus gained or lost a variant");
}

#[test]
fn every_state_and_fit_combination_survives_the_round_trip() {
    for state in every_run_state() {
        for fit in every_fit_status() {
            let sent = Calibration {
                state,
                fit,
                ..a_calibration()
            };

            assert_eq!(
                decode(&sent.encode()),
                Some(Packet::Calibration(sent)),
                "{state:?} with {fit:?} did not survive"
            );
        }
    }
}

#[test]
fn a_status_byte_from_a_newer_firmware_is_refused_rather_than_guessed() {
    for byte in 0..=u8::MAX {
        for at in [43usize, 44] {
            let mut frame = a_calibration().encode();
            frame[at] = byte;
            frame[45] = crc8(&frame[2..45]);

            let known = if at == 43 {
                RunState::from_byte(byte).is_some()
            } else {
                FitStatus::from_byte(byte).is_some()
            };

            assert_eq!(
                decode(&frame).is_some(),
                known,
                "byte {byte} at offset {at} was read wrongly"
            );
        }
    }
}

#[test]
fn the_status_bytes_land_where_the_layout_says() {
    for (state, byte) in [
        (RunState::Idle, 0),
        (RunState::Collecting, 1),
        (RunState::Ready, 2),
        (RunState::Solved, 3),
        (RunState::Refused, 4),
    ] {
        let frame = Calibration {
            state,
            ..a_calibration()
        }
        .encode();
        assert_eq!(frame[43], byte, "{state:?} moved on the wire");
        assert_eq!(RunState::from_byte(byte), Some(state));
    }

    for (fit, byte) in [
        (FitStatus::Fitted, 0),
        (FitStatus::TooFewSamples, 1),
        (FitStatus::Coplanar, 2),
        (FitStatus::Singular, 3),
        (FitStatus::Scattered, 4),
    ] {
        let frame = Calibration {
            fit,
            ..a_calibration()
        }
        .encode();
        assert_eq!(frame[44], byte, "{fit:?} moved on the wire");
        assert_eq!(FitStatus::from_byte(byte), Some(fit));
    }
}

#[test]
fn a_refusal_reaches_the_far_end_with_its_reason_and_the_old_offset() {
    let kept = bits(Vec3::new(9265.5, -28_189.5, -11_732.9));
    let sent = Calibration {
        offset: kept,
        radius: 0.0f32.to_bits(),
        residual: 0.0f32.to_bits(),
        state: RunState::Refused,
        fit: FitStatus::Coplanar,
        ..a_calibration()
    };

    let Some(Packet::Calibration(got)) = decode(&sent.encode()) else {
        panic!("a refusal did not decode as a calibration packet");
    };

    assert_eq!(got.state, RunState::Refused);
    assert_eq!(got.fit, FitStatus::Coplanar);
    assert_eq!(got.offset, kept);
    assert_eq!(f32::from_bits(got.radius), 0.0);
    assert_eq!(f32::from_bits(got.residual), 0.0);
}

#[test]
fn a_refusal_is_not_mistakeable_for_an_idle_packet() {
    let refused = Calibration {
        state: RunState::Refused,
        fit: FitStatus::Coplanar,
        radius: 0.0f32.to_bits(),
        residual: 0.0f32.to_bits(),
        samples: 0,
        sectors: 0,
        ..a_calibration()
    };
    let idle = Calibration {
        state: RunState::Idle,
        ..refused
    };

    assert_ne!(refused.encode(), idle.encode());
    assert_ne!(refused, idle);
}

#[test]
fn a_scan_finds_packets_in_a_stream_it_joined_late() {
    let mut stream = vec![0x8F, 0xFF];
    stream.extend_from_slice(&a_calibration().encode());
    stream.extend_from_slice(&orientation(Quat::IDENTITY).encode());
    let tail = a_calibration().encode();
    stream.extend_from_slice(&tail[..10]);

    let mut scan = Scan::new(&stream);
    let found: Vec<_> = scan.collect();

    assert_eq!(found.len(), 2);
    assert_eq!(found[0], Packet::Calibration(a_calibration()));
    assert_eq!(scan.rejected(), 0);

    assert_eq!(scan.consumed(), stream.len() - 10);
}

#[test]
fn a_whole_run_comes_back_out_of_a_scan_in_order() {
    for ending in [RunState::Solved, RunState::Refused] {
        let run = [
            RunState::Idle,
            RunState::Collecting,
            RunState::Collecting,
            RunState::Ready,
            ending,
            RunState::Idle,
        ];

        let mut stream = Vec::new();
        for state in run {
            stream.extend_from_slice(
                &Calibration {
                    state,
                    ..a_calibration()
                }
                .encode(),
            );
            stream.extend_from_slice(&orientation(Quat::IDENTITY).encode());
        }

        let mut scan = Scan::new(&stream);
        let states: Vec<RunState> = scan
            .collect()
            .into_iter()
            .filter_map(|p| match p {
                Packet::Calibration(c) => Some(c.state),
                Packet::Orientation(_) => None,
            })
            .collect();

        assert_eq!(states, run, "a run ending in {ending:?} did not survive");
        assert_eq!(scan.rejected(), 0);
        assert_eq!(scan.consumed(), stream.len());
    }
}

#[test]
fn a_marker_inside_a_payload_does_not_swallow_the_packet_behind_it() {
    let real = orientation(Quat::from_xyzw(0.0, 0.0, 0.6, 0.8)).encode();

    let mut stream = vec![0xAA, 0x55, 0x01, 0x02];
    stream.extend_from_slice(&real);

    let mut scan = Scan::new(&stream);
    let found: Vec<_> = scan.collect();

    assert_eq!(found.len(), 1, "the real packet was skipped over");
    assert_eq!(scan.rejected(), 1);
}

#[test]
fn the_crc_matches_the_routine_the_firmware_has_always_run() {
    assert_eq!(crc8(&[]), 0x00);
    assert_eq!(crc8(&[0x00]), 0x00);
    assert_eq!(crc8(b"123456789"), 0xF4);
}

// --- further cases ----------------------------------------------------------

#[test]
fn an_orientation_frame_has_its_fields_where_the_layout_says() {
    // w first, then x y z, each little-endian, and the checksum over the
    // payload alone.
    let o = Orientation {
        w: 0x0403_0201,
        x: 0x0807_0605,
        y: 0x0C0B_0A09,
        z: 0x100F_0E0D,
    };
    let frame = o.encode();
    assert_eq!(&frame[0..2], &[0xAA, 0x55]);
    assert_eq!(&frame[2..18], &(1u8..=16).collect::<Vec<u8>>()[..]);
    assert_eq!(frame[18], crc8(&frame[2..18]));
}

#[test]
fn a_single_changed_byte_anywhere_is_refused() {
    // Stronger than a bit flip: any value at any position.
    let frame = orientation(Quat::from_xyzw(0.5, 0.5, 0.5, 0.5)).encode();
    for at in 0..frame.len() {
        for value in [0x00u8, 0x55, 0x56, 0xAA, 0xFF] {
            if frame[at] == value {
                continue;
            }
            let mut changed = frame;
            changed[at] = value;
            assert_eq!(decode(&changed), None, "byte {at} set to {value:#04x} got through");
        }
    }
}

#[test]
fn unknown_markers_and_truncated_inputs_decode_to_nothing() {
    assert_eq!(decode(&[]), None);
    assert_eq!(decode(&[0xAA]), None);
    assert_eq!(decode(&[0xAA, 0x57, 0, 0]), None);
    let mut longer = a_calibration().encode().to_vec();
    longer.push(0);
    assert_eq!(decode(&longer), None);
}

#[test]
fn to_byte_and_from_byte_agree() {
    for state in every_run_state() {
        assert_eq!(RunState::from_byte(state.to_byte()), Some(state));
    }
    for fit in every_fit_status() {
        assert_eq!(FitStatus::from_byte(fit.to_byte()), Some(fit));
    }
    assert_eq!(RunState::from_byte(5), None);
    assert_eq!(FitStatus::from_byte(255), None);
}

#[test]
fn a_scan_of_nothing_finds_nothing_and_consumes_nothing() {
    let mut scan = Scan::new(&[]);
    assert_eq!(scan.next(), None);
    assert_eq!(scan.consumed(), 0);

    // One stray byte is left for the next chunk, since it may be half a marker.
    let mut scan = Scan::new(&[0xAA]);
    assert_eq!(scan.next(), None);
    assert_eq!(scan.consumed(), 0);
}

#[test]
fn a_scan_hands_packets_out_one_at_a_time() {
    let mut stream = orientation(Quat::IDENTITY).encode().to_vec();
    stream.extend_from_slice(&a_calibration().encode());
    let mut scan = Scan::new(&stream);
    assert_eq!(scan.next(), Some(Packet::Orientation(orientation(Quat::IDENTITY))));
    assert_eq!(scan.consumed(), ORIENTATION_LEN);
    assert_eq!(scan.next(), Some(Packet::Calibration(a_calibration())));
    assert_eq!(scan.consumed(), ORIENTATION_LEN + CALIBRATION_LEN);
    assert_eq!(scan.next(), None);
}
