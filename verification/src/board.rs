//! The decisions the board's main loop makes on each tick: when a calibration
//! run starts and ends, when the ring blinks, when a calibration packet goes
//! out. The sensors, the fit's arithmetic, the LEDs and the serial port stay
//! with the loop; it hands in what it read and acts on what comes back.

use vstd::prelude::*;

verus! {

/// Stage 7 ticks at 200 Hz; a run lasts at least thirty seconds of ticks.
pub const FUSED_MIN_RUN_TICKS: u32 = 6000;

/// Stage 7's blink half-period while the fit still needs more, in ticks.
pub const FUSED_BLINK_TICKS: u32 = 32;

/// Stage 3 steps every 20 ms; a run lasts at least thirty seconds of steps.
pub const COMPASS_MIN_RUN_STEPS: u32 = 1500;

/// Stage 3's blink half-period, in steps.
pub const COMPASS_BLINK_STEPS: u32 = 8;

/// A calibration packet every this many ticks during a run (50 Hz).
pub const CAL_EVERY_TICKS: u32 = 4;

/// And this often when there is no run (2 Hz).
pub const IDLE_CAL_EVERY_TICKS: u32 = 100;

/// What the board is doing.
#[derive(Clone, Copy, Debug, PartialEq, Eq, Structural)]
pub enum BoardMode {
    /// Pointing: the compass, or the fusion.
    Pointing,
    /// Collecting samples for a new offset, since tick `started`.
    Calibrating { started: u32 },
}

/// What one tick decided.
#[derive(Clone, Copy, Debug, PartialEq, Eq, Structural)]
pub struct Decision {
    /// The mode for the next tick.
    pub next: BoardMode,
    /// A run began this tick, with a fresh fit.
    pub start: bool,
    /// A run ends this tick: solve the fit for use, adopt or refuse it.
    pub finish: bool,
    /// Ticks since the run began (zero when not calibrating).
    pub elapsed: u32,
    /// The run is old enough and the fit says it is ready.
    pub ready: bool,
    /// The ring is in the dark half of its blink.
    pub blank: bool,
}

/// Ticks since `started`, on a counter that wraps.
pub open spec fn elapsed_since(ticks: u32, started: u32) -> u32 {
    if ticks >= started {
        (ticks - started) as u32
    } else {
        (ticks + 0x1_0000_0000 - started) as u32
    }
}

/// The decision for one tick in `mode`, at tick count `ticks`, given whether
/// the button was just pressed and whether the fit says it is ready. A run
/// may finish on its own only once it has lasted `min_run` ticks; a press
/// always ends it. While not ready the ring blinks with half-period `blink`.
pub open spec fn decide_spec(
    mode: BoardMode,
    ticks: u32,
    press: bool,
    fit_ready: bool,
    min_run: u32,
    blink: u32,
) -> Decision {
    match mode {
        BoardMode::Pointing => Decision {
            next: if press {
                BoardMode::Calibrating { started: ticks }
            } else {
                BoardMode::Pointing
            },
            start: press,
            finish: false,
            elapsed: 0,
            ready: false,
            blank: false,
        },
        BoardMode::Calibrating { started } => {
            let elapsed = elapsed_since(ticks, started);
            let ready = elapsed >= min_run && fit_ready;
            let finish = ready || press;
            Decision {
                next: if finish {
                    BoardMode::Pointing
                } else {
                    mode
                },
                start: false,
                finish,
                elapsed,
                ready,
                blank: !ready && (ticks / blink) % 2 == 0,
            }
        },
    }
}

/// Decide one tick. See [`decide_spec`].
pub fn decide(
    mode: BoardMode,
    ticks: u32,
    press: bool,
    fit_ready: bool,
    min_run: u32,
    blink: u32,
) -> (decision: Decision)
    requires
        blink > 0,
    ensures
        decision == decide_spec(mode, ticks, press, fit_ready, min_run, blink),
{
    match mode {
        BoardMode::Pointing => Decision {
            next: if press {
                BoardMode::Calibrating { started: ticks }
            } else {
                BoardMode::Pointing
            },
            start: press,
            finish: false,
            elapsed: 0,
            ready: false,
            blank: false,
        },
        BoardMode::Calibrating { started } => {
            let elapsed = ticks.wrapping_sub(started);
            let ready = elapsed >= min_run && fit_ready;
            let finish = ready || press;
            Decision {
                next: if finish {
                    BoardMode::Pointing
                } else {
                    mode
                },
                start: false,
                finish,
                elapsed,
                ready,
                blank: !ready && (ticks / blink) % 2 == 0,
            }
        },
    }
}

/// Whether a calibration packet goes out on this tick: every
/// [`CAL_EVERY_TICKS`] during a run, every [`IDLE_CAL_EVERY_TICKS`] otherwise.
pub fn calibration_due(mode: BoardMode, ticks: u32) -> (due: bool)
    ensures
        due == match mode {
            BoardMode::Pointing => ticks % IDLE_CAL_EVERY_TICKS == 0,
            BoardMode::Calibrating { .. } => ticks % CAL_EVERY_TICKS == 0,
        },
{
    match mode {
        BoardMode::Pointing => ticks % IDLE_CAL_EVERY_TICKS == 0,
        BoardMode::Calibrating { .. } => ticks % CAL_EVERY_TICKS == 0,
    }
}

/// A run never ends on its own before it has lasted `min_run` ticks, however
/// good the fit already looks; a press ends it at any point.
pub proof fn a_run_is_held_open_for_its_minimum(
    started: u32,
    ticks: u32,
    press: bool,
    fit_ready: bool,
    min_run: u32,
    blink: u32,
)
    ensures
        ({
            let d = decide_spec(
                BoardMode::Calibrating { started },
                ticks,
                press,
                fit_ready,
                min_run,
                blink,
            );
            &&& (d.finish && !press) ==> d.elapsed >= min_run
            &&& press ==> d.finish
            &&& d.finish <==> d.next == BoardMode::Pointing
        }),
{
}

/// A run ends only when it is ready or the button is pressed, and it is ready
/// exactly when it has lasted `min_run` ticks on the wrapping counter and the
/// fit says it is ready. However long a run lasts, a fit that is not ready
/// keeps it open until the button ends it.
pub proof fn a_run_ends_only_when_ready_or_pressed(
    started: u32,
    ticks: u32,
    press: bool,
    fit_ready: bool,
    min_run: u32,
    blink: u32,
)
    ensures
        ({
            let d = decide_spec(
                BoardMode::Calibrating { started },
                ticks,
                press,
                fit_ready,
                min_run,
                blink,
            );
            &&& d.elapsed as int == (ticks as int - started as int) % 0x1_0000_0000
            &&& d.ready <==> (d.elapsed >= min_run && fit_ready)
            &&& d.finish <==> (d.ready || press)
            &&& (d.finish && !press) ==> fit_ready
            &&& (!fit_ready && !press) ==> d.next == BoardMode::Calibrating { started }
            &&& !d.start
        }),
{
    if ticks >= started {
        assert((ticks as int - started as int) % 0x1_0000_0000 == ticks as int - started as int);
    } else {
        assert((ticks as int - started as int) % 0x1_0000_0000 == ticks as int - started as int
            + 0x1_0000_0000);
    }
}

/// While a run is not ready the ring blinks: one half-period later its dark
/// half has turned light, or the other way round. Outside a run it never goes
/// dark.
pub proof fn an_unready_run_blinks(
    started: u32,
    ticks: u32,
    press: bool,
    min_run: u32,
    blink: u32,
)
    requires
        blink > 0,
        ticks + blink <= u32::MAX,
    ensures
        decide_spec(BoardMode::Calibrating { started }, ticks, press, false, min_run, blink).blank
            != decide_spec(
            BoardMode::Calibrating { started },
            (ticks + blink) as u32,
            press,
            false,
            min_run,
            blink,
        ).blank,
        !decide_spec(BoardMode::Pointing, ticks, press, false, min_run, blink).blank,
{
    vstd::arithmetic::div_mod::lemma_div_plus_one(ticks as int, blink as int);
    assert(((ticks + blink) as u32) as int == blink as int + ticks as int);
}

/// Only a press starts a run, and the run remembers the tick it started on.
pub proof fn only_a_press_starts_a_run(ticks: u32, press: bool, fit_ready: bool, min_run: u32, blink: u32)
    ensures
        ({
            let d = decide_spec(BoardMode::Pointing, ticks, press, fit_ready, min_run, blink);
            &&& d.start == press
            &&& !d.finish
            &&& d.next == (if press {
                BoardMode::Calibrating { started: ticks }
            } else {
                BoardMode::Pointing
            })
        }),
{
}

/// A ready run is shown solid: the ring only blinks while there is work left.
pub proof fn the_ring_is_solid_when_ready(
    mode: BoardMode,
    ticks: u32,
    press: bool,
    fit_ready: bool,
    min_run: u32,
    blink: u32,
)
    ensures
        decide_spec(mode, ticks, press, fit_ready, min_run, blink).ready ==> !decide_spec(
            mode,
            ticks,
            press,
            fit_ready,
            min_run,
            blink,
        ).blank,
{
}

} // verus!
