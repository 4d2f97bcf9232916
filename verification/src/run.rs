//! A calibration run, from the first packet that is not idle to whatever ended
//! it.
//!
//! A run has three exits and only two of them are announcements: the board
//! sends exactly one `Solved` or `Refused` packet when a run ends. A lost
//! terminal packet, a reset board or a closed port end the run too, and that
//! third exit says nothing about why.
//!
//! Time is a parameter: the caller passes whole milliseconds on one clock.

use vstd::prelude::*;

use crate::wire::{Bits3, Calibration, FitStatus, RunState};

verus! {

/// Stop accumulating past this many samples. Past the cap the cloud stops
/// growing rather than dropping its oldest.
pub const SAMPLE_CAP: usize = 8192;

/// How long a gap in the calibration stream means the run is over, in
/// milliseconds.
pub const SILENCE_MS: i64 = 2000;

/// Which view the page should be showing.
#[derive(Clone, Copy, Debug, PartialEq, Eq, Structural)]
pub enum Mode {
    /// The board model. The ordinary state.
    Model,
    /// A run is going: the point cloud.
    Calibrating,
    /// A run has finished, with the outcome held.
    Landed,
}

/// How a run finished.
#[derive(Clone, Copy, Debug, PartialEq, Eq, Structural)]
pub enum Outcome {
    /// The board solved and adopted the offset in the packet.
    Solved(Calibration),
    /// The board refused the fit and kept its old offset. The status says why.
    Refused(FitStatus),
    /// The run stopped without a terminal packet. Deliberately says nothing
    /// about why.
    Ended,
}

/// What the line under the canvas should say about the run.
#[derive(Clone, Copy, Debug, PartialEq, Eq, Structural)]
pub enum Status {
    /// A run is going: its sample count and spread (an `f32` bit pattern), and
    /// whether the board says it is ready to finish.
    Calibrating { samples: u32, spread: u32, ready: bool },
    /// The run solved; the packet carries the offset, field and scatter.
    Solved(Calibration),
    /// The run was refused, for this reason.
    Refused(FitStatus),
    /// The run ended without an answer.
    Ended,
}

impl Status {
    /// The whole line, for the statuses that carry no numbers: every refusal
    /// says why and that the old correction is kept, and a run that ended
    /// without an answer says only that. `None` for the two statuses whose
    /// line is built from the packet's numbers.
    pub fn fixed_text(&self) -> (text: Option<&'static str>)
        ensures
            match *self {
                Status::Calibrating { .. } | Status::Solved(_) => text is None,
                Status::Refused(FitStatus::Coplanar) => text == Some(
                    "not solved — the samples are flat. Tip and roll it, not just turn it. Old correction kept",
                ),
                Status::Refused(FitStatus::Scattered) => text == Some(
                    "not solved — the samples are not on a sphere. It barely moved. Old correction kept",
                ),
                Status::Refused(FitStatus::TooFewSamples) => text == Some(
                    "not solved — too few samples. Old correction kept",
                ),
                Status::Refused(_) => text == Some(
                    "not solved — the fit would not solve. Old correction kept",
                ),
                Status::Ended => text == Some("the run ended without an answer — check the board"),
            },
    {
        match *self {
            Status::Calibrating { .. } | Status::Solved(_) => None,
            Status::Refused(FitStatus::Coplanar) => Some(
                "not solved — the samples are flat. Tip and roll it, not just turn it. Old correction kept",
            ),
            Status::Refused(FitStatus::Scattered) => Some(
                "not solved — the samples are not on a sphere. It barely moved. Old correction kept",
            ),
            Status::Refused(FitStatus::TooFewSamples) => Some(
                "not solved — too few samples. Old correction kept",
            ),
            Status::Refused(_) => Some("not solved — the fit would not solve. Old correction kept"),
            Status::Ended => Some("the run ended without an answer — check the board"),
        }
    }
}

/// The abstract state of a [`Run`].
pub struct RunView {
    pub mode: Mode,
    pub samples: Seq<Bits3>,
    pub latest: Option<Calibration>,
    pub outcome: Option<Outcome>,
    pub last_seen: Option<i64>,
    pub truncated: bool,
}

impl RunView {
    /// A fresh run: the model on screen, nothing heard yet.
    pub open spec fn initial() -> RunView {
        RunView {
            mode: Mode::Model,
            samples: Seq::empty(),
            latest: None,
            outcome: None,
            last_seen: None,
            truncated: false,
        }
    }

    /// A new run starts: the previous cloud and answer are dropped.
    pub open spec fn begin(self) -> RunView {
        RunView {
            samples: Seq::empty(),
            outcome: None,
            truncated: false,
            mode: Mode::Calibrating,
            ..self
        }
    }

    /// The run lands with this outcome.
    pub open spec fn finish(self, outcome: Outcome) -> RunView {
        RunView { outcome: Some(outcome), mode: Mode::Landed, ..self }
    }

    /// One sample joins the cloud, unless the cloud is full.
    pub open spec fn record(self, sample: Bits3) -> RunView {
        if self.samples.len() < SAMPLE_CAP {
            RunView { samples: self.samples.push(sample), ..self }
        } else {
            RunView { truncated: true, ..self }
        }
    }

    /// One calibration packet arrives at `now`.
    ///
    /// An idle packet is the heartbeat: ignored outside a run, and inside one it
    /// is the third exit. Collecting or ready begins a run if none is going.
    /// Solved and refused are recorded and then land the run.
    pub open spec fn push(self, packet: Calibration, now: i64) -> RunView {
        let heard = RunView { last_seen: Some(now), ..self };
        match packet.state {
            RunState::Idle => {
                if heard.mode == Mode::Calibrating {
                    heard.finish(Outcome::Ended)
                } else {
                    heard
                }
            },
            RunState::Collecting | RunState::Ready => {
                let going = if heard.mode != Mode::Calibrating {
                    heard.begin()
                } else {
                    heard
                };
                RunView { latest: Some(packet), ..going.record(packet.sample) }
            },
            RunState::Solved => RunView {
                latest: Some(packet),
                ..heard.record(packet.sample)
            }.finish(Outcome::Solved(packet)),
            RunState::Refused => RunView {
                latest: Some(packet),
                ..heard.record(packet.sample)
            }.finish(Outcome::Refused(packet.fit)),
        }
    }

    /// Whether more than [`SILENCE_MS`] have passed since the last packet.
    pub open spec fn silent_at(self, now: i64) -> bool {
        match self.last_seen {
            None => true,
            Some(seen) => now - seen > SILENCE_MS,
        }
    }

    /// A frame goes by at `now`: a run that has gone quiet ends.
    pub open spec fn tick(self, now: i64) -> RunView {
        if self.mode == Mode::Calibrating && self.silent_at(now) {
            self.finish(Outcome::Ended)
        } else {
            self
        }
    }

    /// The port closed: a run still going is over.
    pub open spec fn disconnected(self) -> RunView {
        if self.mode == Mode::Calibrating {
            self.finish(Outcome::Ended)
        } else {
            self
        }
    }

    /// What the status line says, or `None` to leave the packet counter alone.
    pub open spec fn status(self) -> Option<Status> {
        match self.mode {
            Mode::Model => None,
            Mode::Calibrating => match self.latest {
                None => None,
                Some(p) => Some(
                    Status::Calibrating {
                        samples: p.samples,
                        spread: p.spread,
                        ready: p.state == RunState::Ready,
                    },
                ),
            },
            Mode::Landed => match self.outcome {
                None => None,
                Some(Outcome::Solved(p)) => Some(Status::Solved(p)),
                Some(Outcome::Refused(fit)) => Some(Status::Refused(fit)),
                Some(Outcome::Ended) => Some(Status::Ended),
            },
        }
    }
}

/// The accumulated state of the current or most recent run.
pub struct Run {
    mode: Mode,
    samples: Vec<Bits3>,
    latest: Option<Calibration>,
    outcome: Option<Outcome>,
    last_seen: Option<i64>,
    truncated: bool,
}

impl View for Run {
    type V = RunView;

    closed spec fn view(&self) -> RunView {
        RunView {
            mode: self.mode,
            samples: self.samples@,
            latest: self.latest,
            outcome: self.outcome,
            last_seen: self.last_seen,
            truncated: self.truncated,
        }
    }
}

impl Run {
    /// A fresh run: the model on screen, nothing heard yet.
    pub fn new() -> (run: Run)
        ensures
            run@ == RunView::initial(),
    {
        Run {
            mode: Mode::Model,
            samples: Vec::new(),
            latest: None,
            outcome: None,
            last_seen: None,
            truncated: false,
        }
    }

    /// Which view the page should be showing.
    pub fn mode(&self) -> (mode: Mode)
        ensures
            mode == self@.mode,
    {
        self.mode
    }

    /// The raw samples of this run, oldest first.
    pub fn samples(&self) -> (samples: &[Bits3])
        ensures
            samples@ == self@.samples,
    {
        self.samples.as_slice()
    }

    /// How the last run finished.
    pub fn outcome(&self) -> (outcome: Option<Outcome>)
        ensures
            outcome == self@.outcome,
    {
        self.outcome
    }

    /// Whether the cloud is only the first [`SAMPLE_CAP`] samples of the run.
    pub fn truncated(&self) -> (truncated: bool)
        ensures
            truncated == self@.truncated,
    {
        self.truncated
    }

    /// The newest calibration packet of a run.
    pub fn latest(&self) -> (latest: Option<Calibration>)
        ensures
            latest == self@.latest,
    {
        self.latest
    }

    /// Take in one calibration packet, heard at `now` milliseconds.
    pub fn push(&mut self, packet: Calibration, now: i64)
        ensures
            final(self)@ == old(self)@.push(packet, now),
    {
        self.last_seen = Some(now);
        match packet.state {
            RunState::Idle => {
                if self.mode == Mode::Calibrating {
                    self.finish(Outcome::Ended);
                }
                return;
            },
            RunState::Collecting | RunState::Ready => {
                if self.mode != Mode::Calibrating {
                    self.begin();
                }
            },
            RunState::Solved | RunState::Refused => {},
        }
        self.record(packet.sample);
        self.latest = Some(packet);
        match packet.state {
            RunState::Solved => self.finish(Outcome::Solved(packet)),
            RunState::Refused => self.finish(Outcome::Refused(packet.fit)),
            _ => {},
        }
    }

    /// Called every frame at `now` milliseconds. Ends a run that has gone quiet.
    pub fn tick(&mut self, now: i64)
        ensures
            final(self)@ == old(self)@.tick(now),
    {
        if self.mode == Mode::Calibrating {
            let quiet = match self.last_seen {
                None => true,
                Some(seen) => (now as i128) - (seen as i128) > (SILENCE_MS as i128),
            };
            if quiet {
                self.finish(Outcome::Ended);
            }
        }
    }

    /// The port closed. Faster and more certain than waiting for the silence
    /// timer, and the same conclusion.
    pub fn disconnected(&mut self)
        ensures
            final(self)@ == old(self)@.disconnected(),
    {
        if self.mode == Mode::Calibrating {
            self.finish(Outcome::Ended);
        }
    }

    /// What the line under the canvas should say, or `None` to leave the
    /// packet counter alone.
    pub fn status(&self) -> (status: Option<Status>)
        ensures
            status == self@.status(),
    {
        match self.mode {
            Mode::Model => None,
            Mode::Calibrating => match self.latest {
                None => None,
                Some(p) => Some(
                    Status::Calibrating {
                        samples: p.samples,
                        spread: p.spread,
                        ready: p.state == RunState::Ready,
                    },
                ),
            },
            Mode::Landed => match self.outcome {
                None => None,
                Some(Outcome::Solved(p)) => Some(Status::Solved(p)),
                Some(Outcome::Refused(fit)) => Some(Status::Refused(fit)),
                Some(Outcome::Ended) => Some(Status::Ended),
            },
        }
    }

    fn begin(&mut self)
        ensures
            final(self)@ == old(self)@.begin(),
    {
        self.samples = Vec::new();
        self.outcome = None;
        self.truncated = false;
        self.mode = Mode::Calibrating;
    }

    fn finish(&mut self, outcome: Outcome)
        ensures
            final(self)@ == old(self)@.finish(outcome),
    {
        self.outcome = Some(outcome);
        self.mode = Mode::Landed;
    }

    fn record(&mut self, sample: Bits3)
        ensures
            final(self)@ == old(self)@.record(sample),
    {
        if self.samples.len() < SAMPLE_CAP {
            self.samples.push(sample);
        } else {
            self.truncated = true;
        }
    }
}

impl Default for Run {
    fn default() -> (run: Run)
        ensures
            run@ == RunView::initial(),
    {
        Run::new()
    }
}

/// Every calibration packet, whatever its state, refreshes the silence clock:
/// after a packet at `now` the run is heard at `now`, and no frame within
/// [`SILENCE_MS`] of it ends the run. A packet that is not idle becomes the
/// newest one held, and during a run with room in the cloud its sample joins
/// the end of the cloud.
pub proof fn every_packet_is_heard(v: RunView, p: Calibration, now: i64, later: i64)
    ensures
        v.push(p, now).last_seen == Some(now),
        p.state != RunState::Idle ==> v.push(p, now).latest == Some(p),
        (later - now <= SILENCE_MS) ==> v.push(p, now).tick(later) == v.push(p, now),
        (v.mode == Mode::Calibrating && p.state != RunState::Idle && v.samples.len() < SAMPLE_CAP)
            ==> v.push(p, now).samples == v.samples.push(p.sample),
        v.tick(later).last_seen == v.last_seen,
        v.disconnected().last_seen == v.last_seen,
{
}

/// The status line says what the run is doing: nothing over the model; the
/// newest packet's sample count, spread and readiness during a run; and once
/// a run has landed, its outcome — the solved packet, the board's own reason
/// for a refusal, or that it ended without an answer.
pub proof fn the_status_line_tells_the_run(v: RunView)
    ensures
        v.mode == Mode::Model ==> v.status() is None,
        v.mode == Mode::Calibrating ==> (v.latest matches Some(p) ==> v.status() == Some(
            Status::Calibrating { samples: p.samples, spread: p.spread, ready: p.state == RunState::Ready },
        )),
        v.mode == Mode::Landed ==> (v.outcome matches Some(Outcome::Solved(p)) ==> v.status() == Some(
            Status::Solved(p),
        )),
        v.mode == Mode::Landed ==> (v.outcome matches Some(Outcome::Refused(fit)) ==> v.status() == Some(
            Status::Refused(fit),
        )),
        (v.mode == Mode::Landed && v.outcome == Some(Outcome::Ended)) ==> v.status() == Some(Status::Ended),
{
}

/// An idle packet never puts the page into calibration mode: outside a run,
/// the heartbeat changes nothing but the time last heard.
pub proof fn an_idle_board_never_starts_a_run(v: RunView, p: Calibration, now: i64)
    requires
        p.state == RunState::Idle,
        v.mode != Mode::Calibrating,
    ensures
        v.push(p, now) == (RunView { last_seen: Some(now), ..v }),
{
}

/// A run starts on the first packet that is not idle, and a new run forgets
/// the previous cloud and answer.
pub proof fn a_run_starts_on_the_first_packet_that_is_not_idle(v: RunView, p: Calibration, now: i64)
    requires
        p.state == RunState::Collecting || p.state == RunState::Ready,
        v.mode != Mode::Calibrating,
    ensures
        v.push(p, now).mode == Mode::Calibrating,
        v.push(p, now).samples == seq![p.sample],
        v.push(p, now).outcome is None,
        !v.push(p, now).truncated,
{
}

/// The terminal packet lands the run with its own outcome: a solve with its
/// packet, a refusal with its reason.
pub proof fn the_terminal_packet_lands_with_its_outcome(v: RunView, p: Calibration, now: i64)
    requires
        p.state == RunState::Solved || p.state == RunState::Refused,
    ensures
        v.push(p, now).mode == Mode::Landed,
        p.state == RunState::Solved ==> v.push(p, now).outcome == Some(Outcome::Solved(p)),
        p.state == RunState::Refused ==> v.push(p, now).outcome == Some(Outcome::Refused(p.fit)),
{
}

/// A run that stops without its terminal packet — the idle heartbeat
/// resuming, silence, or the port closing — ends without naming a reason.
pub proof fn a_lost_terminal_packet_ends_without_a_reason(v: RunView, p: Calibration, now: i64)
    requires
        v.mode == Mode::Calibrating,
        p.state == RunState::Idle,
    ensures
        v.push(p, now).mode == Mode::Landed,
        v.push(p, now).outcome == Some(Outcome::Ended),
        v.disconnected().outcome == Some(Outcome::Ended),
        v.silent_at(now) ==> v.tick(now).outcome == Some(Outcome::Ended),
{
}

/// Once a run has landed, nothing that is not a new run changes its answer:
/// not the heartbeat, not silence, not the port closing.
pub proof fn a_landed_answer_is_never_overwritten(v: RunView, p: Calibration, now: i64)
    requires
        v.mode == Mode::Landed,
        p.state == RunState::Idle,
    ensures
        v.push(p, now).outcome == v.outcome,
        v.push(p, now).mode == Mode::Landed,
        v.tick(now) == v,
        v.disconnected() == v,
{
}

/// The silence timer only ends a run that is going, and only after more than
/// [`SILENCE_MS`] without a packet.
pub proof fn only_a_quiet_run_times_out(v: RunView, now: i64)
    ensures
        v.mode != Mode::Calibrating ==> v.tick(now) == v,
        (v.last_seen matches Some(seen) && now - seen <= SILENCE_MS) ==> v.tick(now) == v,
{
}

/// The cloud is oldest first: a packet only ever adds its sample at the end,
/// never past [`SAMPLE_CAP`], and a full cloud says it was cut short.
pub proof fn the_cloud_grows_at_its_end_up_to_the_cap(v: RunView, p: Calibration, now: i64)
    requires
        v.mode == Mode::Calibrating,
        v.samples.len() <= SAMPLE_CAP,
    ensures
        v.push(p, now).samples.len() <= SAMPLE_CAP,
        v.samples.is_prefix_of(v.push(p, now).samples),
        (p.state != RunState::Idle && v.samples.len() == SAMPLE_CAP) ==> v.push(p, now).truncated,
{
    assert(v.samples.is_prefix_of(v.samples));
    assert(v.samples.is_prefix_of(v.samples.push(p.sample)));
}

/// However packets arrive, the cloud never holds more than [`SAMPLE_CAP`].
pub proof fn the_cloud_never_passes_the_cap(v: RunView, p: Calibration, now: i64)
    requires
        v.samples.len() <= SAMPLE_CAP,
    ensures
        v.push(p, now).samples.len() <= SAMPLE_CAP,
        v.tick(now).samples.len() <= SAMPLE_CAP,
        v.disconnected().samples.len() <= SAMPLE_CAP,
{
}

impl Default for Mode {
    /// The board model: the ordinary state, and the one older firmware never
    /// leaves.
    fn default() -> (mode: Mode)
        ensures
            mode == Mode::Model,
    {
        Mode::Model
    }
}

} // verus!
