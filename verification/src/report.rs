//! What the board says on the wire about a calibration run: the packet for
//! every tick, and the one packet for each way a run can end.
//!
//! The fit itself is floating-point arithmetic done elsewhere; what arrives
//! here is what the fit reported, every `f32` as its bit pattern.

use vstd::prelude::*;

use crate::wire::{Bits3, Calibration, FitStatus, Packet, RunState, CALIBRATION_LEN};

verus! {

/// Why a fit could not be turned into an answer.
#[derive(Clone, Copy, Debug, PartialEq, Eq, Structural)]
pub enum FitError {
    /// Not enough samples yet.
    TooFewSamples,
    /// The samples lie in a plane, or close enough to one: the flat spin.
    Coplanar,
    /// The system would not eliminate.
    Singular,
    /// A sphere was found and the samples are nowhere near it.
    Scattered,
}

/// A solved fit: the offset, field strength, scatter and spread as bit
/// patterns, and how many samples went into it.
#[derive(Clone, Copy, Debug, PartialEq, Eq, Structural)]
pub struct Solved {
    pub offset: Bits3,
    pub radius: u32,
    pub residual: u32,
    pub samples: u32,
    pub spread: u32,
}

/// What a fit in progress reports on one tick: whether it is ready to
/// finish, its sample count, visited sectors and spread, and what solving it
/// now gives — an answer and whether that answer is believable, or the error.
#[derive(Clone, Copy, Debug, PartialEq, Eq)]
pub struct Progress {
    pub ready: bool,
    pub samples: u32,
    pub sectors: u8,
    pub spread: u32,
    pub estimate: Result<(Solved, bool), FitError>,
}

/// The fit's error, as the status that goes on the wire.
pub open spec fn wire_status_spec(error: FitError) -> FitStatus {
    match error {
        FitError::TooFewSamples => FitStatus::TooFewSamples,
        FitError::Coplanar => FitStatus::Coplanar,
        FitError::Singular => FitStatus::Singular,
        FitError::Scattered => FitStatus::Scattered,
    }
}

/// The fit's error, as the status that goes on the wire.
pub fn wire_status(error: FitError) -> (status: FitStatus)
    ensures
        status == wire_status_spec(error),
{
    match error {
        FitError::TooFewSamples => FitStatus::TooFewSamples,
        FitError::Coplanar => FitStatus::Coplanar,
        FitError::Singular => FitStatus::Singular,
        FitError::Scattered => FitStatus::Scattered,
    }
}

/// An error never goes on the wire as a fit that solved, and two different
/// errors never go on it as the same status.
pub proof fn wire_status_keeps_errors_apart(a: FitError, b: FitError)
    ensures
        wire_status_spec(a) != FitStatus::Fitted,
        wire_status_spec(a) == wire_status_spec(b) ==> a == b,
{
}

/// The packet announcing a solved run, with the answer in it.
pub open spec fn solved_spec(sample: Bits3, solution: Solved) -> Calibration {
    Calibration {
        sample,
        offset: solution.offset,
        radius: solution.radius,
        residual: solution.residual,
        spread: solution.spread,
        samples: solution.samples,
        sectors: 0xFF,
        state: RunState::Solved,
        fit: FitStatus::Fitted,
    }
}

/// The packet announcing a refused run: the offset still in use, no field or
/// scatter (zero), the fit's real spread, samples and sectors, and the reason.
pub open spec fn refused_spec(sample: Bits3, in_use: Bits3, fit: Progress, error: FitError) -> Calibration {
    Calibration {
        sample,
        offset: in_use,
        radius: 0,
        residual: 0,
        spread: fit.spread,
        samples: fit.samples,
        sectors: fit.sectors,
        state: RunState::Refused,
        fit: wire_status_spec(error),
    }
}

/// The packet for an ordinary tick.
///
/// With no run going it reports the offset in use and, if a run has solved
/// before, what that run found. During a run it reports the fit's progress and
/// its current estimate: an estimate that solves is shown with its status
/// saying whether it is believable; one that does not keeps the offset in use
/// and says why.
pub open spec fn tick_spec(
    sample: Bits3,
    in_use: Bits3,
    fit: Option<Progress>,
    solved: Option<Solved>,
) -> Calibration {
    let idle = Calibration {
        sample,
        offset: in_use,
        radius: 0,
        residual: 0,
        spread: 0,
        samples: 0,
        sectors: 0,
        state: RunState::Idle,
        fit: FitStatus::TooFewSamples,
    };
    let reported = match solved {
        Some(s) => Calibration {
            radius: s.radius,
            residual: s.residual,
            spread: s.spread,
            samples: s.samples,
            fit: FitStatus::Fitted,
            ..idle
        },
        None => idle,
    };
    match fit {
        None => reported,
        Some(f) => {
            let progress = Calibration {
                state: if f.ready {
                    RunState::Ready
                } else {
                    RunState::Collecting
                },
                samples: f.samples,
                sectors: f.sectors,
                spread: f.spread,
                ..reported
            };
            match f.estimate {
                Ok((s, believable)) => Calibration {
                    offset: s.offset,
                    radius: s.radius,
                    residual: s.residual,
                    fit: if believable {
                        FitStatus::Fitted
                    } else {
                        FitStatus::Scattered
                    },
                    ..progress
                },
                Err(e) => Calibration {
                    radius: 0,
                    residual: 0,
                    fit: wire_status_spec(e),
                    ..progress
                },
            }
        },
    }
}

/// The one packet that says a run just finished, with the answer in it.
pub fn solved_packet(sample: Bits3, solution: &Solved) -> (frame: [u8; CALIBRATION_LEN])
    ensures
        frame@ == Packet::Calibration(solved_spec(sample, *solution)).frame(),
{
    Calibration {
        sample,
        offset: solution.offset,
        radius: solution.radius,
        residual: solution.residual,
        spread: solution.spread,
        samples: solution.samples,
        sectors: 0xFF,
        state: RunState::Solved,
        fit: FitStatus::Fitted,
    }.encode()
}

/// The other end a run can come to, announced the same way.
pub fn refused_packet(sample: Bits3, in_use: Bits3, fit: &Progress, error: FitError) -> (frame: [u8; CALIBRATION_LEN])
    ensures
        frame@ == Packet::Calibration(refused_spec(sample, in_use, *fit, error)).frame(),
{
    Calibration {
        sample,
        offset: in_use,
        radius: 0,
        residual: 0,
        spread: fit.spread,
        samples: fit.samples,
        sectors: fit.sectors,
        state: RunState::Refused,
        fit: wire_status(error),
    }.encode()
}

/// Build the calibration packet for this tick. `fit` is `None` when no run is
/// going; `solved` is the last run that solved, if any.
pub fn calibration_packet(
    sample: Bits3,
    in_use: Bits3,
    fit: Option<&Progress>,
    solved: Option<&Solved>,
) -> (frame: [u8; CALIBRATION_LEN])
    ensures
        frame@ == Packet::Calibration(
            tick_spec(
                sample,
                in_use,
                match fit {
                    Some(f) => Some(*f),
                    None => None,
                },
                match solved {
                    Some(s) => Some(*s),
                    None => None,
                },
            ),
        ).frame(),
{
    let mut out = Calibration {
        sample,
        offset: in_use,
        radius: 0,
        residual: 0,
        spread: 0,
        samples: 0,
        sectors: 0,
        state: RunState::Idle,
        fit: FitStatus::TooFewSamples,
    };
    if let Some(solution) = solved {
        out.radius = solution.radius;
        out.residual = solution.residual;
        out.spread = solution.spread;
        out.samples = solution.samples;
        out.fit = FitStatus::Fitted;
    }
    if let Some(fit) = fit {
        out.state = if fit.ready {
            RunState::Ready
        } else {
            RunState::Collecting
        };
        out.samples = fit.samples;
        out.sectors = fit.sectors;
        out.spread = fit.spread;
        match fit.estimate {
            Ok((solution, believable)) => {
                out.offset = solution.offset;
                out.radius = solution.radius;
                out.residual = solution.residual;
                out.fit = if believable {
                    FitStatus::Fitted
                } else {
                    FitStatus::Scattered
                };
            },
            Err(error) => {
                out.radius = 0;
                out.residual = 0;
                out.fit = wire_status(error);
            },
        }
    }
    out.encode()
}

/// A refusal reaches the far end as a finished run that failed, saying why,
/// with the board's old offset and no field strength: never as a solve, and
/// never as an idle packet.
pub proof fn a_refusal_says_why_and_keeps_the_old_offset(
    sample: Bits3,
    in_use: Bits3,
    fit: Progress,
    error: FitError,
)
    ensures
        ({
            let c = refused_spec(sample, in_use, fit, error);
            &&& c.state == RunState::Refused
            &&& c.fit != FitStatus::Fitted
            &&& c.offset == in_use
            &&& c.radius == 0 && c.residual == 0
        }),
{
}

/// During a run the tick packet carries the fit's own progress — its sample
/// count, visited sectors and spread — and its current estimate: a solved
/// estimate with its offset, field and scatter, marked fitted exactly when it
/// is believable; an estimate that failed keeps the offset in use, reports no
/// field or scatter, and names the fit's own reason.
pub proof fn a_run_reports_the_fit_as_it_stands(
    sample: Bits3,
    in_use: Bits3,
    fit: Progress,
    solved: Option<Solved>,
)
    ensures
        ({
            let c = tick_spec(sample, in_use, Some(fit), solved);
            &&& c.sample == sample
            &&& c.samples == fit.samples
            &&& c.sectors == fit.sectors
            &&& c.spread == fit.spread
            &&& (c.state == RunState::Ready <==> fit.ready)
            &&& c.state != RunState::Idle
            &&& (fit.estimate matches Ok((s, believable)) ==> {
                &&& c.offset == s.offset
                &&& c.radius == s.radius
                &&& c.residual == s.residual
                &&& (c.fit == FitStatus::Fitted <==> believable)
                &&& (!believable ==> c.fit == FitStatus::Scattered)
            })
            &&& (fit.estimate matches Err(e) ==> {
                &&& c.offset == in_use
                &&& c.radius == 0
                &&& c.residual == 0
                &&& c.fit == match e {
                    FitError::TooFewSamples => FitStatus::TooFewSamples,
                    FitError::Coplanar => FitStatus::Coplanar,
                    FitError::Singular => FitStatus::Singular,
                    FitError::Scattered => FitStatus::Scattered,
                }
            })
        }),
{
}

/// With no run going the tick packet is idle and shows the offset in use,
/// with no sectors visited; it carries the last solved run's field, scatter,
/// spread and sample count if there was one, and otherwise nothing at all.
pub proof fn an_idle_tick_shows_the_offset_in_use(sample: Bits3, in_use: Bits3, solved: Option<Solved>)
    ensures
        ({
            let c = tick_spec(sample, in_use, None, solved);
            &&& c.sample == sample
            &&& c.offset == in_use
            &&& c.state == RunState::Idle
            &&& c.sectors == 0
            &&& (solved matches Some(s) ==> {
                &&& c.radius == s.radius
                &&& c.residual == s.residual
                &&& c.spread == s.spread
                &&& c.samples == s.samples
                &&& c.fit == FitStatus::Fitted
            })
            &&& (solved is None ==> {
                &&& c.radius == 0
                &&& c.residual == 0
                &&& c.spread == 0
                &&& c.samples == 0
                &&& c.fit == FitStatus::TooFewSamples
            })
        }),
{
}

/// The packet that ends a run with an answer carries that answer whole: its
/// offset, field, scatter, spread and sample count, every sector marked, and
/// the solved state; a refusal carries the fit's own spread, samples, sectors
/// and reason.
pub proof fn the_terminal_packets_carry_the_run(
    sample: Bits3,
    in_use: Bits3,
    solution: Solved,
    fit: Progress,
    error: FitError,
)
    ensures
        ({
            let c = solved_spec(sample, solution);
            &&& c.sample == sample
            &&& c.offset == solution.offset
            &&& c.radius == solution.radius
            &&& c.residual == solution.residual
            &&& c.spread == solution.spread
            &&& c.samples == solution.samples
            &&& c.sectors == 0xFF
            &&& c.state == RunState::Solved
            &&& c.fit == FitStatus::Fitted
        }),
        ({
            let c = refused_spec(sample, in_use, fit, error);
            &&& c.sample == sample
            &&& c.spread == fit.spread
            &&& c.samples == fit.samples
            &&& c.sectors == fit.sectors
            &&& c.fit == match error {
                FitError::TooFewSamples => FitStatus::TooFewSamples,
                FitError::Coplanar => FitStatus::Coplanar,
                FitError::Singular => FitStatus::Singular,
                FitError::Scattered => FitStatus::Scattered,
            }
        }),
{
}

/// During a run the tick packet is never idle and never terminal: it says
/// collecting, or ready exactly when the fit says so.
pub proof fn a_run_in_progress_is_never_reported_as_ended(
    sample: Bits3,
    in_use: Bits3,
    fit: Progress,
    solved: Option<Solved>,
)
    ensures
        tick_spec(sample, in_use, Some(fit), solved).state == (if fit.ready {
            RunState::Ready
        } else {
            RunState::Collecting
        }),
{
}

} // verus!
