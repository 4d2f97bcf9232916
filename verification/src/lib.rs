//! The wire between the board and the page, and the logic on either end of it
//! that is not arithmetic on floating-point numbers.
//!
//! | Module | What it owns |
//! |---|---|
//! | [`wire`] | The two packets, byte by byte, and the CRC-8 over them |
//! | [`scan`] | Finding whole packets in a run of bytes joined at any point |
//! | [`parser`] | Holding an unfinished frame over to the next chunk |
//! | [`link`] | Routing decoded packets: the newest orientation, the whole run |
//! | [`run`] | A calibration run as the page follows it, from start to landing |
//! | [`report`] | What the board puts on the wire about a run |
//! | [`board`] | When the board starts and ends a run, blinks, and reports |
//! | [`ring`] | The eight LEDs as one byte, and the debounced button |
//! | [`cloud`] | Reading the sector mask of a calibration packet |
//! | [`keys`] | The page's two shortcut keys |
//!
//! Every `f32` that travels on the wire is held here as its bit pattern: the
//! format only ever moves those bits, and nothing here computes with them.

pub mod board;
pub mod cloud;
pub mod keys;
pub mod link;
pub mod parser;
pub mod report;
pub mod ring;
pub mod run;
pub mod scan;
pub mod wire;

pub use keys::{take_keys, Keys};
pub use link::Link;
pub use parser::Parser;
pub use report::{FitError, Progress, Solved};
pub use run::{Mode, Outcome, Run, Status};
pub use scan::Scan;
pub use wire::{
    crc8, decode, frame_len, Bits3, Calibration, FitStatus, Orientation, Packet, RunState,
    CALIBRATION_LEN, CALIBRATION_MARKER, MARKER, MAX_FRAME_LEN, ORIENTATION_LEN,
    ORIENTATION_MARKER,
};
