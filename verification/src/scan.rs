//! Walking a run of bytes and handing back every whole packet in it.

use vstd::prelude::*;

use crate::wire::{decode, frame_len, frame_len_spec, lemma_frame_shape, Packet};

verus! {

/// What one hunt from the front of `rest` finds: how many bytes it stepped
/// over one at a time, how many of those were markers whose frame failed, and
/// the packet it stopped on together with its frame length, if any.
pub struct Hunt {
    pub skipped: nat,
    pub rejects: nat,
    pub found: Option<(Packet, nat)>,
}

/// Whether `frame` is the frame of some packet.
pub open spec fn is_frame(frame: Seq<u8>) -> bool {
    exists|p: Packet| #[trigger] p.frame() == frame
}

/// Bytes that cannot be judged yet: too few to hold a marker, or a marker
/// whose frame has not fully arrived.
pub open spec fn unfinished(rest: Seq<u8>) -> bool {
    ||| rest.len() < 2
    ||| (frame_len_spec(rest) matches Some(len) && rest.len() < len)
}

/// The hunt: look for a marker at the front; a marker whose frame decodes is a
/// packet; anything else steps one byte, never a whole frame, because a real
/// packet can start inside what a bigger step would skip.
pub open spec fn hunt(rest: Seq<u8>) -> Hunt
    decreases rest.len(),
{
    if unfinished(rest) {
        Hunt { skipped: 0, rejects: 0, found: None }
    } else {
        match frame_len_spec(rest) {
            None => {
                let h = hunt(rest.drop_first());
                Hunt { skipped: h.skipped + 1, ..h }
            },
            Some(len) => {
                if is_frame(rest.subrange(0, len as int)) {
                    let p = choose|p: Packet| #[trigger] p.frame() == rest.subrange(0, len as int);
                    Hunt { skipped: 0, rejects: 0, found: Some((p, len as nat)) }
                } else {
                    let h = hunt(rest.drop_first());
                    Hunt { skipped: h.skipped + 1, rejects: h.rejects + 1, ..h }
                }
            },
        }
    }
}

/// A hunt that finds a packet stops on the packet's whole frame, inside `rest`.
pub proof fn lemma_hunt_bounds(rest: Seq<u8>)
    ensures
        hunt(rest).skipped <= rest.len(),
        hunt(rest).found matches Some((p, len)) ==> {
            &&& len == p.frame_len()
            &&& len >= 19
            &&& hunt(rest).skipped + len <= rest.len()
            &&& rest.subrange(hunt(rest).skipped as int, (hunt(rest).skipped + len) as int) == p.frame()
        },
        hunt(rest).found is None ==> unfinished(
            rest.subrange(hunt(rest).skipped as int, rest.len() as int),
        ),
    decreases rest.len(),
{
    if unfinished(rest) {
        assert(rest.subrange(0, rest.len() as int) =~= rest);
    } else {
        let len = frame_len_spec(rest);
        if len is None || !is_frame(rest.subrange(0, len.unwrap() as int)) {
            lemma_hunt_bounds(rest.drop_first());
            let h = hunt(rest.drop_first());
            assert(rest.drop_first().subrange(h.skipped as int, rest.len() - 1) =~= rest.subrange(
                (h.skipped + 1) as int,
                rest.len() as int,
            ));
            if let Some((p, l)) = h.found {
                assert(rest.drop_first().subrange(h.skipped as int, (h.skipped + l) as int)
                    =~= rest.subrange((h.skipped + 1) as int, (h.skipped + 1 + l) as int));
            }
        } else {
            let l = len.unwrap();
            let p = choose|p: Packet| #[trigger] p.frame() == rest.subrange(0, l as int);
            lemma_frame_shape(p);
            assert(rest.subrange(0, l as int).len() == l);
        }
    }
}

/// Everything a scan finds from the front of `rest` until it stops: the
/// packets in order, how many bytes it consumed, how many candidates failed.
pub struct Sweep {
    pub packets: Seq<Packet>,
    pub consumed: nat,
    pub rejects: nat,
}

/// Hunt after hunt until one comes back empty.
pub open spec fn sweep(rest: Seq<u8>) -> Sweep
    decreases rest.len(),
{
    let h = hunt(rest);
    match h.found {
        None => Sweep { packets: seq![], consumed: h.skipped, rejects: h.rejects },
        Some((p, len)) => {
            if len > 0 && h.skipped + len <= rest.len() {
                let s = sweep(rest.subrange((h.skipped + len) as int, rest.len() as int));
                Sweep {
                    packets: seq![p] + s.packets,
                    consumed: h.skipped + len + s.consumed,
                    rejects: h.rejects + s.rejects,
                }
            } else {
                Sweep { packets: seq![p], consumed: h.skipped + len, rejects: h.rejects }
            }
        },
    }
}

/// The bytes of a run of packets sent one after another.
pub open spec fn frames(packets: Seq<Packet>) -> Seq<u8>
    decreases packets.len(),
{
    if packets.len() == 0 {
        seq![]
    } else {
        packets[0].frame() + frames(packets.drop_first())
    }
}

/// A frame at the front is found at once, and nothing is stepped over.
proof fn lemma_hunt_frame_first(p: Packet, rest: Seq<u8>)
    ensures
        hunt(p.frame() + rest) == (Hunt { skipped: 0, rejects: 0, found: Some((p, p.frame_len() as nat)) }),
{
    lemma_frame_shape(p);
    let s = p.frame() + rest;
    let len = p.frame_len();
    assert(s.subrange(0, len as int) =~= p.frame());
    assert(frame_len_spec(s) == Some(len));
    assert(is_frame(s.subrange(0, len as int)));
    let q = choose|q: Packet| #[trigger] q.frame() == s.subrange(0, len as int);
    crate::wire::decode_inverts_encode(p, q);
}

/// Packets sent back to back, followed by the unfinished start of another (or
/// by nothing), come back out of a scan in the order they were sent, with no
/// candidate rejected and every byte of theirs consumed.
pub proof fn a_stream_of_frames_scans_back_in_order(packets: Seq<Packet>, tail: Seq<u8>)
    requires
        unfinished(tail),
    ensures
        sweep(frames(packets) + tail) == (Sweep {
            packets: packets,
            consumed: frames(packets).len(),
            rejects: 0,
        }),
    decreases packets.len(),
{
    if packets.len() == 0 {
        assert(frames(packets) + tail =~= tail);
        assert(packets =~= seq![]);
    } else {
        let p = packets[0];
        let rest = frames(packets.drop_first()) + tail;
        let s = frames(packets) + tail;
        assert(s =~= p.frame() + rest);
        lemma_hunt_frame_first(p, rest);
        lemma_frame_shape(p);
        assert(s.subrange(p.frame_len() as int, s.len() as int) =~= rest);
        a_stream_of_frames_scans_back_in_order(packets.drop_first(), tail);
        assert(seq![p] + packets.drop_first() =~= packets);
    }
}

/// Adding to a wrapping counter in two goes is adding the sum once.
pub proof fn lemma_wrapped_add_twice(count: u32, a: nat, b: nat)
    ensures
        wrapped_add(wrapped_add(count, a), b) == wrapped_add(count, a + b),
{
    let m = 0x1_0000_0000int;
    let x = (count + a) % m;
    vstd::arithmetic::div_mod::lemma_add_mod_noop(count + a, b as int, m);
    vstd::arithmetic::div_mod::lemma_add_mod_noop(x, b as int, m);
    vstd::arithmetic::div_mod::lemma_mod_twice(count + a, m);
    assert(0 <= x < m);
    assert((x + b) % m == (count + a + b) % m);
}

/// More bytes arriving behind `r` do not change any decision a hunt made
/// inside `r`: a hunt that found a packet in `r` finds the same one, and a hunt
/// that stopped on an unfinished frame carries on from there.
pub proof fn lemma_hunt_append(r: Seq<u8>, b: Seq<u8>)
    ensures
        ({
            let h = hunt(r);
            let whole = hunt(r + b);
            match h.found {
                Some(_) => whole == h,
                None => {
                    let h2 = hunt(r.subrange(h.skipped as int, r.len() as int) + b);
                    whole == Hunt {
                        skipped: h.skipped + h2.skipped,
                        rejects: h.rejects + h2.rejects,
                        found: h2.found,
                    }
                },
            }
        }),
    decreases r.len(),
{
    lemma_hunt_bounds(r);
    let h = hunt(r);
    if unfinished(r) {
        assert(r.subrange(0, r.len() as int) =~= r);
        let h2 = hunt(r + b);
        assert(h2 == Hunt { skipped: 0 + h2.skipped, rejects: 0 + h2.rejects, found: h2.found });
    } else {
        let rb = r + b;
        assert(rb[0] == r[0] && rb[1] == r[1]);
        assert(frame_len_spec(rb) == frame_len_spec(r));
        assert(!unfinished(rb));
        assert(rb.drop_first() =~= r.drop_first() + b);
        let len = frame_len_spec(r);
        if len is Some && is_frame(r.subrange(0, len.unwrap() as int)) {
            assert(rb.subrange(0, len.unwrap() as int) =~= r.subrange(0, len.unwrap() as int));
        } else {
            if let Some(l) = len {
                assert(rb.subrange(0, l as int) =~= r.subrange(0, l as int));
            }
            lemma_hunt_append(r.drop_first(), b);
            let hd = hunt(r.drop_first());
            if hd.found is None {
                assert(r.drop_first().subrange(hd.skipped as int, r.len() - 1) =~= r.subrange(
                    (hd.skipped + 1) as int,
                    r.len() as int,
                ));
            }
        }
    }
}

/// Scanning `a` and then what it left in front of `b` finds what scanning
/// `a ++ b` in one go finds: the same packets in the same order, the same
/// number of rejects, and the same bytes consumed.
pub proof fn lemma_sweep_append(a: Seq<u8>, b: Seq<u8>)
    ensures
        ({
            let first = sweep(a);
            let rest = a.subrange(first.consumed as int, a.len() as int);
            let second = sweep(rest + b);
            let whole = sweep(a + b);
            &&& first.consumed <= a.len()
            &&& whole.packets == first.packets + second.packets
            &&& whole.consumed == first.consumed + second.consumed
            &&& whole.rejects == first.rejects + second.rejects
        }),
    decreases a.len(),
{
    lemma_hunt_bounds(a);
    lemma_hunt_append(a, b);
    let h = hunt(a);
    match h.found {
        None => {
            let rest = a.subrange(h.skipped as int, a.len() as int);
            let h2 = hunt(rest + b);
            lemma_hunt_bounds(rest + b);
            lemma_hunt_bounds(a + b);
            if let Some((p, len)) = h2.found {
                assert((a + b).subrange((h.skipped + h2.skipped + len) as int, (a + b).len() as int)
                    =~= (rest + b).subrange((h2.skipped + len) as int, (rest + b).len() as int));
            }
            assert(seq![] + sweep(rest + b).packets =~= sweep(rest + b).packets);
        },
        Some((p, len)) => {
            let next = a.subrange((h.skipped + len) as int, a.len() as int);
            lemma_sweep_append(next, b);
            lemma_hunt_bounds(a + b);
            assert((a + b).subrange((h.skipped + len) as int, (a + b).len() as int) =~= next + b);
            let c = sweep(next).consumed;
            assert(a.subrange((h.skipped + len + c) as int, a.len() as int) =~= next.subrange(
                c as int,
                next.len() as int,
            ));
            assert(seq![p] + sweep(next).packets + sweep(
                next.subrange(c as int, next.len() as int) + b,
            ).packets =~= seq![p] + (sweep(next).packets + sweep(
                next.subrange(c as int, next.len() as int) + b,
            ).packets));
        },
    }
}

/// Joining a stream late: bytes in front that hold no marker byte are stepped
/// over one at a time, none of them counts as a rejection, and the scan then
/// goes on exactly as it would have from the first byte after them.
pub proof fn a_late_join_skips_what_is_not_a_marker(junk: Seq<u8>, rest: Seq<u8>)
    requires
        forall|i: int| 0 <= i < junk.len() ==> junk[i] != crate::wire::MARKER,
        rest.len() >= 1,
    ensures
        sweep(junk + rest) == (Sweep {
            packets: sweep(rest).packets,
            consumed: junk.len() + sweep(rest).consumed,
            rejects: sweep(rest).rejects,
        }),
    decreases junk.len(),
{
    if junk.len() == 0 {
        assert(junk + rest =~= rest);
    } else {
        let s = junk + rest;
        assert(s.drop_first() =~= junk.drop_first() + rest);
        assert(s[0] == junk[0]);
        assert(frame_len_spec(s) is None);
        a_late_join_skips_what_is_not_a_marker(junk.drop_first(), rest);
        lemma_hunt_bounds(s);
        lemma_hunt_bounds(s.drop_first());
        let h = hunt(s.drop_first());
        if let Some((p, len)) = h.found {
            assert(s.subrange((h.skipped + 1 + len) as int, s.len() as int) =~= s.drop_first().subrange(
                (h.skipped + len) as int,
                s.len() - 1,
            ));
        }
    }
}

/// A counter of 32 bits that has had `n` added to it.
pub open spec fn wrapped_add(count: u32, n: nat) -> u32 {
    ((count + n) % 0x1_0000_0000int) as u32
}

/// Walk a run of bytes, handing back every whole packet in it.
///
/// Call [`next`](Self::next) until it says `None`, then ask
/// [`consumed`](Self::consumed) how much of the input is finished with — the
/// remainder is a partial frame and belongs at the front of the next run.
pub struct Scan<'a> {
    bytes: &'a [u8],
    at: usize,
    rejected: u32,
}

impl<'a> Scan<'a> {
    #[verifier::type_invariant]
    spec fn inv(self) -> bool {
        self.at <= self.bytes@.len()
    }

    /// The bytes being walked.
    pub closed spec fn input(self) -> Seq<u8> {
        self.bytes@
    }

    /// How many bytes from the front are dealt with.
    pub closed spec fn position(self) -> nat {
        self.at as nat
    }

    /// The count of rejected candidates so far.
    pub closed spec fn rejections(self) -> u32 {
        self.rejected
    }

    /// What is left to walk.
    pub open spec fn remaining(self) -> Seq<u8> {
        self.input().subrange(self.position() as int, self.input().len() as int)
    }

    pub fn new(bytes: &'a [u8]) -> (scan: Self)
        ensures
            scan.input() == bytes@,
            scan.position() == 0,
            scan.rejections() == 0,
    {
        Scan { bytes, at: 0, rejected: 0 }
    }

    /// How many bytes from the front are dealt with — decoded, or discarded as
    /// not being the start of anything.
    pub fn consumed(&self) -> (n: usize)
        ensures
            n == self.position(),
            n <= self.input().len(),
    {
        proof {
            use_type_invariant(self);
        }
        self.at
    }

    /// Candidates whose marker matched and whose frame did not decode.
    pub fn rejected(&self) -> (n: u32)
        ensures
            n == self.rejections(),
    {
        self.rejected
    }

    /// The next whole packet, or `None` once only an unfinished frame (or
    /// nothing) is left.
    pub fn next(&mut self) -> (packet: Option<Packet>)
        ensures
            final(self).input() == old(self).input(),
            final(self).position() <= final(self).input().len(),
            ({
                let h = hunt(old(self).remaining());
                &&& final(self).rejections() == wrapped_add(old(self).rejections(), h.rejects)
                &&& match h.found {
                    Some((p, len)) => {
                        &&& packet == Some(p)
                        &&& final(self).position() == old(self).position() + h.skipped + len
                    },
                    None => {
                        &&& packet is None
                        &&& final(self).position() == old(self).position() + h.skipped
                        &&& unfinished(final(self).remaining())
                    },
                }
            }),
    {
        proof {
            use_type_invariant(&*self);
        }
        let ghost start = self.at as int;
        let ghost rej0 = self.rejected;
        let ghost all = self.bytes@;
        let ghost whole = hunt(all.subrange(start, all.len() as int));
        let ghost mut rejects: nat = 0;
        let n = self.bytes.len();
        while self.at < n
            invariant_except_break
                self.bytes@ == all,
                old(self).input() == all,
                old(self).position() == start,
                old(self).rejections() == rej0,
                whole == hunt(all.subrange(start, all.len() as int)),
                n == all.len(),
                start <= self.at <= n,
                ({
                    let h = hunt(all.subrange(self.at as int, n as int));
                    &&& whole.skipped == self.at - start + h.skipped
                    &&& whole.rejects == rejects + h.rejects
                    &&& whole.found == h.found
                }),
                self.rejected == wrapped_add(rej0, rejects),
            ensures
                self.bytes@ == all,
                start <= self.at <= n,
                self.rejected == wrapped_add(rej0, whole.rejects),
                match whole.found {
                    Some((_, len)) => false,
                    None => {
                        &&& self.at == start + whole.skipped
                        &&& unfinished(all.subrange(self.at as int, n as int))
                    },
                },
            decreases n - self.at,
        {
            let rest = &self.bytes[self.at..n];
            let ghost r = rest@;
            match frame_len(rest) {
                None => {
                    if rest.len() < 2 {
                        return None;
                    }
                    proof {
                        assert(r.drop_first() =~= all.subrange(self.at + 1, n as int));
                    }
                    self.at = self.at + 1;
                },
                Some(len) => {
                    if rest.len() < len {
                        return None;
                    }
                    match decode(&rest[0..len]) {
                        Some(decoded) => {
                            proof {
                                assert(is_frame(r.subrange(0, len as int)));
                                let p = choose|p: Packet|
                                    #[trigger] p.frame() == r.subrange(0, len as int);
                                crate::wire::decode_inverts_encode(decoded, p);
                            }
                            self.at = self.at + len;
                            return Some(decoded);
                        },
                        None => {
                            proof {
                                assert(!is_frame(r.subrange(0, len as int)));
                                assert(r.drop_first() =~= all.subrange(self.at + 1, n as int));
                                rejects = rejects + 1;
                            }
                            self.rejected = self.rejected.wrapping_add(1);
                            self.at = self.at + 1;
                        },
                    }
                },
            }
        }
        None
    }

    /// Every whole packet left in the input, in order. Afterwards only an
    /// unfinished frame, or nothing, remains.
    pub fn collect(&mut self) -> (packets: Vec<Packet>)
        ensures
            final(self).input() == old(self).input(),
            ({
                let s = sweep(old(self).remaining());
                &&& packets@ == s.packets
                &&& final(self).position() == old(self).position() + s.consumed
                &&& final(self).rejections() == wrapped_add(old(self).rejections(), s.rejects)
            }),
            unfinished(final(self).remaining()),
    {
        proof {
            use_type_invariant(&*self);
        }
        let mut found: Vec<Packet> = Vec::new();
        let ghost all = sweep(self.remaining());
        let ghost mut rejects: nat = 0;
        loop
            invariant_except_break
                self.input() == old(self).input(),
                all == sweep(old(self).remaining()),
                self.position() <= self.input().len(),
                ({
                    let s = sweep(self.remaining());
                    &&& all.packets == found@ + s.packets
                    &&& all.consumed == self.position() - old(self).position() + s.consumed
                    &&& all.rejects == rejects + s.rejects
                }),
                self.rejections() == wrapped_add(old(self).rejections(), rejects),
            ensures
                self.input() == old(self).input(),
                found@ == all.packets,
                self.position() == old(self).position() + all.consumed,
                self.rejections() == wrapped_add(old(self).rejections(), all.rejects),
                unfinished(self.remaining()),
            decreases self.input().len() - self.position(),
        {
            let ghost before = *self;
            proof {
                lemma_hunt_bounds(before.remaining());
            }
            match self.next() {
                Some(p) => {
                    proof {
                        let h = hunt(before.remaining());
                        let len = h.found.unwrap().1;
                        assert(self.remaining() =~= before.remaining().subrange(
                            (h.skipped + len) as int,
                            before.remaining().len() as int,
                        ));
                        lemma_wrapped_add_twice(old(self).rejections(), rejects, h.rejects);
                        rejects = rejects + h.rejects;
                        assert(found@.push(p) + sweep(self.remaining()).packets =~= found@ + (
                        seq![p] + sweep(self.remaining()).packets));
                    }
                    found.push(p);
                },
                None => {
                    proof {
                        let h = hunt(before.remaining());
                        lemma_wrapped_add_twice(old(self).rejections(), rejects, h.rejects);
                        assert(found@ + seq![] =~= found@);
                    }
                    break;
                },
            }
        }
        found
    }
}

} // verus!
