use cuda_builder::shuffle_control;

#[test]
fn control_bounds_match_logical_warp_segments() {
    for width in [1, 2, 4, 8, 16, 32] {
        for lane in 0..32_u32 {
            for is_up in [false, true] {
                let control = shuffle_control(width, is_up);
                // Apply the PTX ISA's maxLane expression independently.
                let mask = (control >> 8) & 31;
                let bound = (lane & mask) | ((control & 31) & !mask);
                let segment_start = lane / width * width;
                assert_eq!(
                    bound,
                    if is_up {
                        segment_start
                    } else {
                        segment_start + width - 1
                    }
                );
                if is_up {
                    assert_eq!(lane > bound, lane % width != 0);
                } else {
                    assert_eq!(lane < bound, lane % width + 1 < width);
                }
            }
        }
    }
}

#[test]
fn control_words_for_full_and_half_warps() {
    assert_eq!(shuffle_control(32, false), 0x1f);
    assert_eq!(shuffle_control(32, true), 0);
    assert_eq!(shuffle_control(16, false), 0x101f);
    assert_eq!(shuffle_control(1, true), 0x1f00);
}
