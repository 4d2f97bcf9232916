//! What the serial reader hands to the render loop: the newest orientation,
//! and the calibration run, which accumulates.

use vstd::prelude::*;

use crate::parser::Parser;
use crate::run::{Run, RunView};
use crate::scan::{sweep, wrapped_add};
use crate::wire::{Orientation, Packet};

verus! {

/// The latest of everything the board has said, except the run, which keeps
/// its history.
pub struct Link {
    /// The newest orientation. Only the newest: drawing one the board has
    /// already left would be worse than skipping it.
    pub orientation: Option<Orientation>,
    /// The calibration run. Fed here, packet by packet, because the packet
    /// that ends a run is sent once.
    pub run: Run,
    pub good: u32,
    pub bad: u32,
}

/// Hand each packet to where it belongs, in order: an orientation replaces
/// the one held, a calibration packet goes into the run at `now`.
pub open spec fn route(
    orientation: Option<Orientation>,
    run: RunView,
    packets: Seq<Packet>,
    now: i64,
) -> (Option<Orientation>, RunView)
    decreases packets.len(),
{
    if packets.len() == 0 {
        (orientation, run)
    } else {
        let (o, r) = route(orientation, run, packets.drop_last(), now);
        match packets.last() {
            Packet::Orientation(x) => (Some(x), r),
            Packet::Calibration(c) => (o, r.push(c, now)),
        }
    }
}

/// Routing keeps only the newest orientation: when the packets hold one, the
/// orientation held afterwards is the last of them, whatever came before it.
pub proof fn routing_keeps_the_newest_orientation(
    orientation: Option<Orientation>,
    run: RunView,
    packets: Seq<Packet>,
    now: i64,
    k: int,
)
    requires
        0 <= k < packets.len(),
        packets[k] is Orientation,
        forall|j: int| k < j < packets.len() ==> #[trigger] packets[j] is Calibration,
    ensures
        route(orientation, run, packets, now).0 == Some(packets[k]->Orientation_0),
    decreases packets.len(),
{
    if k < packets.len() - 1 {
        assert(packets.drop_last()[k] == packets[k]);
        assert forall|j: int| k < j < packets.drop_last().len() implies #[trigger] packets.drop_last()[j] is Calibration by {
            assert(packets.drop_last()[j] == packets[j]);
        }
        routing_keeps_the_newest_orientation(orientation, run, packets.drop_last(), now, k);
        assert(packets[packets.len() - 1] is Calibration);
    }
}

/// Packets that hold no orientation leave the held orientation as it was.
pub proof fn routing_without_orientations_keeps_the_held_one(
    orientation: Option<Orientation>,
    run: RunView,
    packets: Seq<Packet>,
    now: i64,
)
    requires
        forall|j: int| 0 <= j < packets.len() ==> #[trigger] packets[j] is Calibration,
    ensures
        route(orientation, run, packets, now).0 == orientation,
    decreases packets.len(),
{
    if packets.len() > 0 {
        assert forall|j: int| 0 <= j < packets.drop_last().len() implies #[trigger] packets.drop_last()[j] is Calibration by {
            assert(packets.drop_last()[j] == packets[j]);
        }
        routing_without_orientations_keeps_the_held_one(orientation, run, packets.drop_last(), now);
        assert(packets[packets.len() - 1] is Calibration);
    }
}

/// Orientation packets never touch the run, and the orientation held
/// beforehand never changes what the run makes of its packets.
pub proof fn orientations_never_touch_the_run(
    orientation: Option<Orientation>,
    other: Option<Orientation>,
    run: RunView,
    packets: Seq<Packet>,
    now: i64,
)
    ensures
        route(orientation, run, packets, now).1 == route(other, run, packets, now).1,
        (forall|j: int| 0 <= j < packets.len() ==> #[trigger] packets[j] is Orientation) ==> route(
            orientation,
            run,
            packets,
            now,
        ).1 == run,
    decreases packets.len(),
{
    if packets.len() > 0 {
        orientations_never_touch_the_run(orientation, other, run, packets.drop_last(), now);
        if forall|j: int| 0 <= j < packets.len() ==> #[trigger] packets[j] is Orientation {
            assert forall|j: int| 0 <= j < packets.drop_last().len() implies #[trigger] packets.drop_last()[j] is Orientation by {
                assert(packets.drop_last()[j] == packets[j]);
            }
            assert(packets[packets.len() - 1] is Orientation);
        }
    }
}

impl Link {
    /// Nothing heard yet.
    pub fn new() -> (link: Link)
        ensures
            link.orientation is None,
            link.run@ == RunView::initial(),
            link.good == 0,
            link.bad == 0,
    {
        Link { orientation: None, run: Run::new(), good: 0, bad: 0 }
    }

    /// One chunk read off the port at `now`: feed it to the parser and route
    /// every packet it completes, then copy the parser's counts across.
    pub fn take_in(&mut self, parser: &mut Parser, chunk: &[u8], now: i64)
        ensures
            ({
                let found = sweep(old(parser).buffered() + chunk@).packets;
                let (o, r) = route(old(self).orientation, old(self).run@, found, now);
                &&& final(self).orientation == o
                &&& final(self).run@ == r
                &&& final(self).good == final(parser).good_count()
                &&& final(self).bad == final(parser).bad_count()
            }),
            ({
                let joined = old(parser).buffered() + chunk@;
                let s = sweep(joined);
                &&& final(parser).buffered() == joined.subrange(s.consumed as int, joined.len() as int)
                &&& final(parser).good_count() == wrapped_add(old(parser).good_count(), s.packets.len())
                &&& final(parser).bad_count() == wrapped_add(old(parser).bad_count(), s.rejects)
            }),
    {
        let found = parser.feed(chunk);
        let mut i: usize = 0;
        while i < found.len()
            invariant
                i <= found@.len(),
                (self.orientation, self.run@) == route(
                    old(self).orientation,
                    old(self).run@,
                    found@.take(i as int),
                    now,
                ),
            decreases found@.len() - i,
        {
            proof {
                assert(found@.take(i + 1).drop_last() =~= found@.take(i as int));
            }
            match found[i] {
                Packet::Orientation(orientation) => {
                    self.orientation = Some(orientation);
                },
                Packet::Calibration(calibration) => {
                    self.run.push(calibration, now);
                },
            }
            i = i + 1;
        }
        proof {
            assert(found@.take(i as int) =~= found@);
        }
        self.good = parser.good();
        self.bad = parser.bad();
    }

    /// The port closed: a run still going is over.
    pub fn closed(&mut self)
        ensures
            final(self).run@ == old(self).run@.disconnected(),
            final(self).orientation == old(self).orientation,
            final(self).good == old(self).good,
            final(self).bad == old(self).bad,
    {
        self.run.disconnected();
    }
}

} // verus!
