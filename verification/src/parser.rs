//! Holding the bytes a scan could not finish with, and putting them in front of
//! the next chunk.

use vstd::prelude::*;

use crate::scan::{sweep, unfinished, wrapped_add, Scan};
use crate::wire::{Packet, MAX_FRAME_LEN};

verus! {

/// What one feed leaves behind: the packets it returned, the two counts, and
/// the bytes held for the next chunk.
pub struct Fed {
    pub packets: Seq<Packet>,
    pub good: u32,
    pub bad: u32,
    pub held: Seq<u8>,
}

/// One feed of `chunk` to a parser holding `held` with counts `good` and
/// `bad`: a scan of the held bytes followed by the chunk.
pub open spec fn feed_spec(held: Seq<u8>, good: u32, bad: u32, chunk: Seq<u8>) -> Fed {
    let joined = held + chunk;
    let s = sweep(joined);
    Fed {
        packets: s.packets,
        good: wrapped_add(good, s.packets.len()),
        bad: wrapped_add(bad, s.rejects),
        held: joined.subrange(s.consumed as int, joined.len() as int),
    }
}

/// Feeding `chunks` one after another, in order: the packets of every feed
/// concatenated, and the counts and held bytes after the last.
pub open spec fn feed_each(held: Seq<u8>, good: u32, bad: u32, chunks: Seq<Seq<u8>>) -> Fed
    decreases chunks.len(),
{
    if chunks.len() == 0 {
        Fed { packets: Seq::empty(), good, bad, held }
    } else {
        let before = feed_each(held, good, bad, chunks.drop_last());
        let last = feed_spec(before.held, before.good, before.bad, chunks.last());
        Fed { packets: before.packets + last.packets, good: last.good, bad: last.bad, held: last.held }
    }
}

/// The chunks laid end to end: the stream they were cut from.
pub open spec fn joined_chunks(chunks: Seq<Seq<u8>>) -> Seq<u8>
    decreases chunks.len(),
{
    if chunks.len() == 0 {
        Seq::empty()
    } else {
        joined_chunks(chunks.drop_last()) + chunks.last()
    }
}

/// Give up and resynchronize rather than buffer without bound.
pub const MAX_BUFFERED: usize = 8192;

/// Finds packets in a stream that arrives in chunks unrelated to where packets
/// begin and end.
pub struct Parser {
    buffer: Vec<u8>,
    /// Packets that passed the checksum.
    pub good: u32,
    /// Candidates whose marker matched and whose frame did not decode.
    pub bad: u32,
}

impl Parser {
    /// The bytes held over from earlier chunks.
    pub closed spec fn buffered(self) -> Seq<u8> {
        self.buffer@
    }

    /// The count of packets that passed.
    pub closed spec fn good_count(self) -> u32 {
        self.good
    }

    /// The count of candidates that failed.
    pub closed spec fn bad_count(self) -> u32 {
        self.bad
    }

    /// Packets that passed, so far.
    pub fn good(&self) -> (n: u32)
        ensures
            n == self.good_count(),
    {
        self.good
    }

    /// Candidates that failed, so far.
    pub fn bad(&self) -> (n: u32)
        ensures
            n == self.bad_count(),
    {
        self.bad
    }

    /// A parser that has seen nothing.
    pub fn new() -> (parser: Self)
        ensures
            parser.buffered() == Seq::<u8>::empty(),
            parser.good_count() == 0,
            parser.bad_count() == 0,
    {
        Parser { buffer: Vec::new(), good: 0, bad: 0 }
    }

    /// Feed a chunk in; get back every whole packet it completed, in order.
    ///
    /// The packets are those a scan finds in the held-over bytes followed by
    /// the chunk. What the scan could not finish with is held for next time,
    /// and it is always shorter than the longest frame.
    pub fn feed(&mut self, chunk: &[u8]) -> (found: Vec<Packet>)
        ensures
            ({
                let joined = old(self).buffered() + chunk@;
                let s = sweep(joined);
                &&& found@ == s.packets
                &&& final(self).good_count() == wrapped_add(old(self).good_count(), s.packets.len())
                &&& final(self).bad_count() == wrapped_add(old(self).bad_count(), s.rejects)
                &&& final(self).buffered() == joined.subrange(s.consumed as int, joined.len() as int)
            }),
            final(self).buffered().len() < MAX_FRAME_LEN,
            unfinished(final(self).buffered()),
            feed_spec(old(self).buffered(), old(self).good_count(), old(self).bad_count(), chunk@)
                == (Fed {
                packets: found@,
                good: final(self).good_count(),
                bad: final(self).bad_count(),
                held: final(self).buffered(),
            }),
    {
        append(&mut self.buffer, chunk);
        let ghost joined = self.buffer@;
        let (found, consumed, rejected) = {
            let mut scan = Scan::new(self.buffer.as_slice());
            let found = scan.collect();
            let consumed = scan.consumed();
            let rejected = scan.rejected();
            proof {
                assert(joined.subrange(0, joined.len() as int) =~= joined);
            }
            (found, consumed, rejected)
        };
        let count = (found.len() as u64 % 0x1_0000_0000u64) as u32;
        proof {
            let s = sweep(joined);
            lemma_count_mod(self.good, s.packets.len(), count);
            lemma_count_mod(self.bad, s.rejects, rejected);
        }
        self.good = self.good.wrapping_add(count);
        self.bad = self.bad.wrapping_add(rejected);
        let mut rest = tail_from(&self.buffer, consumed);
        proof {
            crate::wire::lemma_frame_len_at_most_max(rest@);
        }
        // Anything this long has failed to yield a packet for far too long;
        // keeping it would not help. A scan leaves less than one frame behind,
        // so this is a backstop that never fires.
        if rest.len() > MAX_BUFFERED {
            rest.clear();
        }
        self.buffer = rest;
        found
    }
}

/// Adding a count already reduced to 32 bits is adding the count.
proof fn lemma_count_mod(total: u32, n: nat, reduced: u32)
    requires
        reduced as int == (n as int) % 0x1_0000_0000int,
    ensures
        wrapped_add(total, reduced as nat) == wrapped_add(total, n),
{
    let m = 0x1_0000_0000int;
    vstd::arithmetic::div_mod::lemma_add_mod_noop(total as int, n as int, m);
    vstd::arithmetic::div_mod::lemma_add_mod_noop(total as int, reduced as int, m);
    vstd::arithmetic::div_mod::lemma_mod_twice(n as int, m);
}

/// Puts `chunk` on the end of `buffer`.
fn append(buffer: &mut Vec<u8>, chunk: &[u8])
    ensures
        final(buffer)@ == old(buffer)@ + chunk@,
{
    let mut i: usize = 0;
    while i < chunk.len()
        invariant
            i <= chunk@.len(),
            buffer@ == old(buffer)@ + chunk@.subrange(0, i as int),
        decreases chunk@.len() - i,
    {
        buffer.push(chunk[i]);
        proof {
            assert(chunk@.subrange(0, i + 1) =~= chunk@.subrange(0, i as int).push(chunk@[i as int]));
        }
        i = i + 1;
    }
    proof {
        assert(chunk@.subrange(0, i as int) =~= chunk@);
    }
}

/// A copy of `bytes` from `from` to the end.
fn tail_from(bytes: &Vec<u8>, from: usize) -> (rest: Vec<u8>)
    requires
        from <= bytes@.len(),
    ensures
        rest@ == bytes@.subrange(from as int, bytes@.len() as int),
{
    let n = bytes.len();
    let mut rest: Vec<u8> = Vec::new();
    let mut k: usize = from;
    while k < n
        invariant
            from <= k <= n,
            n == bytes@.len(),
            rest@ == bytes@.subrange(from as int, k as int),
        decreases n - k,
    {
        rest.push(bytes[k]);
        proof {
            assert(bytes@.subrange(from as int, k + 1) =~= bytes@.subrange(from as int, k as int).push(
                bytes@[k as int],
            ));
        }
        k = k + 1;
    }
    rest
}

impl Default for Parser {
    fn default() -> (parser: Parser)
        ensures
            parser.buffered() == Seq::<u8>::empty(),
            parser.good_count() == 0,
            parser.bad_count() == 0,
    {
        Parser::new()
    }
}

/// How the bytes are split into chunks does not matter: feeding `a` and then
/// `b` finds the same packets in the same order as feeding `a ++ b` at once,
/// counts the same good and bad totals, and holds the same bytes afterwards.
///
/// `held`, `good` and `bad` are what the parser held and had counted before.
pub proof fn chunking_does_not_matter(held: Seq<u8>, a: Seq<u8>, b: Seq<u8>, good: u32, bad: u32)
    ensures
        ({
            let j1 = held + a;
            let s1 = sweep(j1);
            let kept = j1.subrange(s1.consumed as int, j1.len() as int);
            let j2 = kept + b;
            let s2 = sweep(j2);
            let j = held + (a + b);
            let s = sweep(j);
            &&& s.packets == s1.packets + s2.packets
            &&& wrapped_add(wrapped_add(good, s1.packets.len()), s2.packets.len()) == wrapped_add(
                good,
                s.packets.len(),
            )
            &&& wrapped_add(wrapped_add(bad, s1.rejects), s2.rejects) == wrapped_add(bad, s.rejects)
            &&& j.subrange(s.consumed as int, j.len() as int) == j2.subrange(
                s2.consumed as int,
                j2.len() as int,
            )
        }),
{
    let j1 = held + a;
    let j = held + (a + b);
    assert(j =~= j1 + b);
    crate::scan::lemma_sweep_append(j1, b);
    let s1 = sweep(j1);
    let kept = j1.subrange(s1.consumed as int, j1.len() as int);
    let j2 = kept + b;
    let s2 = sweep(j2);
    let s = sweep(j);
    crate::scan::lemma_sweep_append(j2, Seq::<u8>::empty());
    assert(s2.consumed <= j2.len());
    crate::scan::lemma_wrapped_add_twice(good, s1.packets.len(), s2.packets.len());
    crate::scan::lemma_wrapped_add_twice(bad, s1.rejects, s2.rejects);
    assert(j.subrange(s.consumed as int, j.len() as int) =~= j2.subrange(
        s2.consumed as int,
        j2.len() as int,
    ));
}

/// However a stream is cut into chunks, feeding the chunks in order returns,
/// concatenated, the packets that one feed of the whole stream returns, in the
/// same order, and leaves the same counts and the same held bytes.
pub proof fn any_chunking_is_one_feed(held: Seq<u8>, good: u32, bad: u32, chunks: Seq<Seq<u8>>)
    requires
        unfinished(held),
    ensures
        feed_each(held, good, bad, chunks) == feed_spec(held, good, bad, joined_chunks(chunks)),
    decreases chunks.len(),
{
    if chunks.len() == 0 {
        let j = held + Seq::<u8>::empty();
        assert(j =~= held);
        assert(j.subrange(0, j.len() as int) =~= held);
        assert(wrapped_add(good, 0) == good);
        assert(wrapped_add(bad, 0) == bad);
    } else {
        let front = joined_chunks(chunks.drop_last());
        any_chunking_is_one_feed(held, good, bad, chunks.drop_last());
        chunking_does_not_matter(held, front, chunks.last(), good, bad);
        let whole = feed_spec(held, good, bad, joined_chunks(chunks));
        let each = feed_each(held, good, bad, chunks);
        assert(each.packets =~= whole.packets);
        assert(each.held =~= whole.held);
    }
}

} // verus!
