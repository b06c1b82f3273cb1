//! PTX shuffle control encoding, shared by every shuffled value width.

use vstd::prelude::*;

verus! {

/// `w` is one of the logical warp widths PTX accepts for a shuffle:
/// a power of two no larger than the 32-lane warp.
pub open spec fn is_warp_width(w: u32) -> bool {
    w == 1 || w == 2 || w == 4 || w == 8 || w == 16 || w == 32
}

/// The control word: the upper bits partition the warp into segments of
/// `width` lanes, the low bits hold the clamp lane (0 for UP, 31 otherwise).
pub open spec fn spec_shuffle_control(width: u32, is_up: bool) -> u32 {
    (((32 - width) as u32) << 8u32) | (if is_up { 0u32 } else { 31u32 })
}

/// Encode the `c` operand of `shfl.sync` for a logical warp of `width` lanes.
pub fn shuffle_control(width: u32, is_up: bool) -> (control: u32)
    requires
        is_warp_width(width),
    ensures
        control == spec_shuffle_control(width, is_up),
{
    let clamp: u32 = if is_up { 0 } else { 31 };
    ((32 - width) << 8) | clamp
}

/// The lane bound PTX derives from a control word for `lane`: the segment
/// mask keeps the lane's segment bits, the clamp supplies the rest.
pub open spec fn max_lane(control: u32, lane: u32) -> u32 {
    let mask = (control >> 8u32) & 31u32;
    (lane & mask) | ((control & 31u32) & !mask)
}

proof fn lemma_up_bound(width: u32, lane: u32)
    by (bit_vector)
    requires
        width == 1 || width == 2 || width == 4 || width == 8 || width == 16 || width == 32,
        lane < 32,
    ensures
        max_lane(spec_shuffle_control(width, true), lane) == lane / width * width,
{
}

proof fn lemma_down_bound(width: u32, lane: u32)
    by (bit_vector)
    requires
        width == 1 || width == 2 || width == 4 || width == 8 || width == 16 || width == 32,
        lane < 32,
    ensures
        max_lane(spec_shuffle_control(width, false), lane) == lane / width * width + width - 1,
{
}

/// The control word confines every lane to its logical warp segment: for a
/// shuffle up, the bound is the first lane of the lane's segment (so a lane
/// may read from below exactly when it is not the first of its segment); for
/// the other directions it is the segment's last lane (so a lane may read
/// from above exactly when it is not the last).
pub proof fn law_control_bounds_match_segments(width: u32, lane: u32, is_up: bool)
    requires
        is_warp_width(width),
        lane < 32,
    ensures
        is_up ==> max_lane(spec_shuffle_control(width, true), lane) == lane / width * width,
        !is_up ==> max_lane(spec_shuffle_control(width, false), lane) == lane / width * width
            + width - 1,
        is_up ==> (lane > max_lane(spec_shuffle_control(width, true), lane) <==> lane % width != 0),
        !is_up ==> (lane < max_lane(spec_shuffle_control(width, false), lane) <==> lane % width + 1
            < width),
{
    lemma_up_bound(width, lane);
    lemma_down_bound(width, lane);
    assert(lane == lane / width * width + lane % width) by (nonlinear_arith)
        requires
            width > 0,
    ;
    assert(lane % width < width) by (nonlinear_arith)
        requires
            width > 0,
    ;
}

} // verus!
