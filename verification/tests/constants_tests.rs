use imgix::constants::{
    srcset_dpr_qualities, srcset_target_dpr_ratios, srcset_target_widths, IMAGE_MAX_WIDTH,
    IMAGE_MIN_WIDTH, SRCSET_WIDTH_TOLERANCE,
};

#[test]
fn test_srcset_target_widths() {
    let widths = srcset_target_widths();
    assert_eq!(widths.len(), 31);
    let mut prev = 100f32;
    let mut index = 0usize;
    while prev <= IMAGE_MAX_WIDTH as f32 && index < widths.len() {
        assert_eq!(widths[index], prev.round() as u32);
        index += 1;
        prev *= 1.0 + (SRCSET_WIDTH_TOLERANCE as f32 / 100.0) * 2.0;
    }

    // Check that we constructed the correct number of widths; the final
    // table entry is the maximum width itself, which the progression
    // overshoots, so the loop stops one short of the table's length.
    assert_eq!(index, widths.len() - 1);
}

#[test]
fn widths_table_strictly_increasing_between_bounds() {
    let widths = srcset_target_widths();
    assert_eq!(widths[0], IMAGE_MIN_WIDTH);
    assert_eq!(widths[30], IMAGE_MAX_WIDTH);
    for i in 0..widths.len() - 1 {
        assert!(widths[i] < widths[i + 1]);
    }
}

#[test]
fn default_ladders() {
    assert_eq!(srcset_target_dpr_ratios(), [1, 2, 3, 4, 5]);
    assert_eq!(srcset_dpr_qualities(), [75, 50, 35, 23, 20]);
}

#[test]
fn lib_version_names_the_implementation() {
    assert_eq!(imgix::lib_version(), "rust=0.1.0");
}
