//! Reading the sector mask a calibration packet carries.

use vstd::prelude::*;

verus! {

/// How many bearing sectors a calibration packet reports. They ring the
/// horizontal plane; bit 0 is centred on +X and they count anticlockwise.
pub const SECTORS: u32 = 8;

/// Whether sector `bit` (taken round the ring, so modulo [`SECTORS`]) is set
/// in `mask`.
pub open spec fn visited_spec(mask: u8, bit: u32) -> bool {
    (mask >> ((bit % 8) as u8)) & 1 == 1
}

/// Whether that sector has been visited.
pub fn visited(mask: u8, bit: u32) -> (seen: bool)
    ensures
        seen == visited_spec(mask, bit),
{
    let shift = (bit % SECTORS) as u8;
    let seen = mask & (1u8 << shift) != 0;
    assert(seen == ((mask >> shift) & 1 == 1)) by (bit_vector)
        requires
            shift < 8,
            seen == (mask & (1u8 << shift) != 0),
    ;
    seen
}

/// Each sector is its own bit: a mask with only sector `k` set reports that
/// sector visited, counted round the ring, and no other; and the full mask
/// reports every sector.
pub proof fn each_sector_is_its_own_bit(k: u32, bit: u32)
    requires
        k < SECTORS,
    ensures
        visited_spec((1u8 << (k as u8)) as u8, bit) <==> bit % SECTORS == k,
        visited_spec(0xFFu8, bit),
        !visited_spec(0u8, bit),
{
    let s: u8 = (bit % 8) as u8;
    let kk: u8 = k as u8;
    assert(s < 8);
    assert(((1u8 << kk) >> s) & 1 == 1 <==> s == kk) by (bit_vector)
        requires
            s < 8,
            kk < 8,
    ;
    assert((0xFFu8 >> s) & 1 == 1) by (bit_vector)
        requires
            s < 8,
    ;
    assert((0u8 >> s) & 1 == 0) by (bit_vector);
}

} // verus!
