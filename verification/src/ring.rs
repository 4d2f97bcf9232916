//! The eight LEDs round the board, and the button beside them.
//!
//! All eight LEDs sit on consecutive pins PE8 to PE15 of one port, so the state
//! of the whole ring is one byte. Bit 0 is the NW position and bit 1 is North;
//! positions count clockwise from North.

use vstd::prelude::*;

verus! {

/// How many consecutive reads of the same button level count as real.
pub const DEBOUNCE_STEPS: u8 = 3;

/// The bit of ring position `position` (0 is North, clockwise), wrapping
/// round after eight.
pub open spec fn led_bit_spec(position: nat) -> u8 {
    (1u8 << (((position + 1) % 8) as u8)) as u8
}

/// Ring position — 0 is North, counting clockwise — to its bit in the byte.
pub fn led_bit(position: u32) -> (bit: u8)
    requires
        position < u32::MAX,
    ensures
        bit == led_bit_spec(position as nat),
{
    1u8 << (((position + 1) % 8) as u8)
}

/// The byte that points at one of sixteen directions: sector `2k` lights the
/// LED at position `k`; sector `2k + 1` lights it and the next one clockwise,
/// which reads as "somewhere between these two".
pub open spec fn ring_pattern_spec(sector: int) -> u8 {
    let s = sector % 16;
    let position = (s / 2) as nat;
    if s % 2 == 0 {
        led_bit_spec(position)
    } else {
        led_bit_spec(position) | led_bit_spec((position + 1) % 8)
    }
}

/// The ring pattern for a heading already rounded to a sixteenth of a turn.
///
/// `sector` is the heading in units of 22.5°, rounded; any integer, since
/// the circle wraps.
pub fn ring_pattern_at(sector: i32) -> (pattern: u8)
    ensures
        pattern == ring_pattern_spec(sector as int),
{
    let mut s = sector % 16;
    if s < 0 {
        s = s + 16;
    }
    assert(s as int == (sector as int) % 16);
    let position = (s / 2) as u32;
    if s % 2 == 0 {
        led_bit(position)
    } else {
        led_bit(position) | led_bit((position + 1) % 8)
    }
}

/// The ring's sixteen patterns, sector by sector from North clockwise.
pub open spec fn ring_patterns() -> Seq<u8> {
    seq![
        0x02u8, 0x06, 0x04, 0x0C, 0x08, 0x18, 0x10, 0x30,
        0x20, 0x60, 0x40, 0xC0, 0x80, 0x81, 0x01, 0x03,
    ]
}

/// Eight lights, sixteen things to say: each sector has its own pattern — one
/// LED on an even sector, that LED and its clockwise neighbour on an odd one —
/// and no two sectors of a turn share a pattern.
pub proof fn sixteen_directions_on_eight_lights(sector: int)
    ensures
        ring_pattern_spec(sector) == ring_patterns()[sector % 16],
        forall|i: int, j: int|
            0 <= i < 16 && 0 <= j < 16 && i != j ==> ring_patterns()[i] != ring_patterns()[j],
{
    assert(led_bit_spec(0) == 0x02) by (bit_vector);
    assert(led_bit_spec(1) == 0x04) by (bit_vector);
    assert(led_bit_spec(2) == 0x08) by (bit_vector);
    assert(led_bit_spec(3) == 0x10) by (bit_vector);
    assert(led_bit_spec(4) == 0x20) by (bit_vector);
    assert(led_bit_spec(5) == 0x40) by (bit_vector);
    assert(led_bit_spec(6) == 0x80) by (bit_vector);
    assert(led_bit_spec(7) == 0x01) by (bit_vector);
    assert((0x02u8 | 0x04u8) == 0x06u8 && (0x04u8 | 0x08u8) == 0x0Cu8 && (0x08u8 | 0x10u8) == 0x18u8
        && (0x10u8 | 0x20u8) == 0x30u8 && (0x20u8 | 0x40u8) == 0x60u8 && (0x40u8 | 0x80u8) == 0xC0u8
        && (0x80u8 | 0x01u8) == 0x81u8 && (0x01u8 | 0x02u8) == 0x03u8) by (bit_vector);
}

/// The first `lit` positions from North, clockwise, all lit.
pub open spec fn bar_spec(lit: nat) -> u8
    decreases lit,
{
    if lit == 0 {
        0
    } else {
        bar_spec((lit - 1) as nat) | led_bit_spec((lit - 1) as nat)
    }
}

/// A bar never loses a light as it grows, and eight eighths light the whole
/// ring.
pub proof fn the_bar_only_grows_to_a_full_ring(lit: nat)
    ensures
        bar_spec(lit) | bar_spec(lit + 1) == bar_spec(lit + 1),
        bar_spec(8) == 0xFF,
{
    let a = bar_spec(lit);
    let b = led_bit_spec(lit);
    assert(a | (a | b) == (a | b)) by (bit_vector);
    assert(led_bit_spec(0) == 0x02) by (bit_vector);
    assert(led_bit_spec(1) == 0x04) by (bit_vector);
    assert(led_bit_spec(2) == 0x08) by (bit_vector);
    assert(led_bit_spec(3) == 0x10) by (bit_vector);
    assert(led_bit_spec(4) == 0x20) by (bit_vector);
    assert(led_bit_spec(5) == 0x40) by (bit_vector);
    assert(led_bit_spec(6) == 0x80) by (bit_vector);
    assert(led_bit_spec(7) == 0x01) by (bit_vector);
    reveal_with_fuel(bar_spec, 9);
    assert((((((((0u8 | 0x02u8) | 0x04u8) | 0x08u8) | 0x10u8) | 0x20u8) | 0x40u8) | 0x80u8) | 0x01u8
        == 0xFFu8) by (bit_vector);
}

/// The ring as a progress bar of `lit` eighths, lit clockwise from North.
pub fn progress_lights(lit: u32) -> (pattern: u8)
    ensures
        pattern == bar_spec(lit as nat),
{
    let mut pattern: u8 = 0;
    let mut position: u32 = 0;
    while position < lit
        invariant
            position <= lit,
            pattern == bar_spec(position as nat),
        decreases lit - position,
    {
        pattern = pattern | led_bit(position);
        position = position + 1;
    }
    pattern
}

/// The word for the port's set/reset register that lights exactly the LEDs
/// whose bit is set in `pattern` and darkens the rest, in a single store.
///
/// The low half sets pins, the high half resets them; the ring starts at pin 8.
pub fn bsrr_word(pattern: u8) -> (word: u32)
    ensures
        word == ((pattern as u32) << 8u32) | (((!pattern) as u32) << 24u32),
{
    let set = (pattern as u32) << 8u32;
    let reset = ((!pattern) as u32) << 24u32;
    set | reset
}

/// Every LED of the ring gets exactly one instruction from [`bsrr_word`]: its
/// set bit when its pattern bit is on, its reset bit when it is off, never both
/// and never neither; and no pin outside the ring is touched.
pub proof fn each_led_is_set_or_reset(pattern: u8, i: u32)
    requires
        i < 8,
    ensures
        ({
            let word = ((pattern as u32) << 8u32) | (((!pattern) as u32) << 24u32);
            let on = (pattern >> (i as u8)) & 1 == 1;
            &&& ((word >> (8 + i)) & 1 == 1) == on
            &&& ((word >> (24 + i)) & 1 == 1) == !on
            &&& word & 0x00ff_00ff == 0
        }),
{
    assert(({
        let word = ((pattern as u32) << 8u32) | (((!pattern) as u32) << 24u32);
        let on = (pattern >> (i as u8)) & 1 == 1;
        &&& ((word >> (8 + i)) & 1 == 1) == on
        &&& ((word >> (24 + i)) & 1 == 1) == !on
        &&& word & 0x00ff_00ff == 0
    })) by (bit_vector)
        requires
            i < 8,
    ;
}

/// A button with the bouncing taken out, reporting the moment of pressing.
#[derive(Clone, Copy, Debug, PartialEq, Eq, Structural)]
pub struct Button {
    /// The level the button is believed to be at.
    pub settled: bool,
    /// The level the latest reads agree on.
    pub candidate: bool,
    /// How many reads in a row have agreed on `candidate`, saturating.
    pub agreed: u8,
}

impl Button {
    /// One read of the pin: the button afterwards, and whether this read is
    /// the moment of a press.
    pub open spec fn after(self, level: bool) -> (Button, bool) {
        let (candidate, agreed) = if level == self.candidate {
            (self.candidate, if self.agreed == 255 { 255u8 } else { (self.agreed + 1) as u8 })
        } else {
            (level, 1u8)
        };
        if agreed >= DEBOUNCE_STEPS && candidate != self.settled {
            (Button { settled: candidate, candidate, agreed }, candidate)
        } else {
            (Button { settled: self.settled, candidate, agreed }, false)
        }
    }

    /// A button resting at `level`.
    pub fn new(level: bool) -> (button: Button)
        ensures
            button == (Button { settled: level, candidate: level, agreed: 0 }),
    {
        Button { settled: level, candidate: level, agreed: 0 }
    }

    /// Feed it this tick's reading. `true` exactly once per press.
    pub fn pressed(&mut self, level: bool) -> (press: bool)
        ensures
            (*final(self), press) == old(self).after(level),
    {
        if level == self.candidate {
            self.agreed = self.agreed.saturating_add(1);
        } else {
            self.candidate = level;
            self.agreed = 1;
        }
        if self.agreed >= DEBOUNCE_STEPS && self.candidate != self.settled {
            self.settled = self.candidate;
            return self.settled;
        }
        false
    }
}

/// A press is reported once: while the pin stays high after a reported press,
/// no further read reports one.
pub proof fn a_press_is_reported_once(b: Button, level: bool)
    requires
        b.after(level).1,
    ensures
        level,
        b.after(level).0.settled,
        !b.settled,
        !b.after(level).0.after(true).1,
        b.after(level).0.after(true).0.settled,
{
}

/// A single read that disagrees with the reads before it never changes what
/// the button is believed to be: a bounce is not a press.
pub proof fn one_stray_read_is_not_a_press(b: Button, level: bool)
    requires
        level != b.candidate,
    ensures
        !b.after(level).1,
        b.after(level).0.settled == b.settled,
{
}

/// Holding the button down long enough is always reported: from rest, the
/// third high read in a row is the press.
pub proof fn a_held_press_is_reported(b: Button)
    requires
        !b.settled,
        !b.candidate,
    ensures
        !b.after(true).1,
        !b.after(true).0.after(true).1,
        b.after(true).0.after(true).0.after(true).1,
{
}

} // verus!
