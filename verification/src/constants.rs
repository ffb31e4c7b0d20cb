//! Compile-time tables for the srcset engine: the default target widths,
//! the device-pixel-ratio ladder and its per-ratio quality ladder, and the
//! identity string of this implementation.

use vstd::prelude::*;

verus! {

use vstd::string::StringExecFns;

/// The smallest default generated image width.
pub const IMAGE_MIN_WIDTH: u32 = 100;

/// The largest default generated image width.
pub const IMAGE_MAX_WIDTH: u32 = 8192;

/// The srcset width tolerance, in percent: the maximum tolerated size
/// difference between an image's downloaded size and its rendered size.
/// Each default target width grows by twice this percentage over the one
/// before it (a factor of 1.16), rounded to the nearest integer.
pub const SRCSET_WIDTH_TOLERANCE: u32 = 8;

/// The default target widths: a geometric progression from
/// `IMAGE_MIN_WIDTH` by a factor of 1.16, rounded to the nearest integer
/// at each step, with the final value replaced by `IMAGE_MAX_WIDTH`.
pub open spec fn target_widths() -> Seq<u32> {
    seq![
        100u32,
        116,
        135,
        156,
        181,
        210,
        244,
        283,
        328,
        380,
        441,
        512,
        594,
        689,
        799,
        927,
        1075,
        1247,
        1446,
        1678,
        1946,
        2257,
        2619,
        3038,
        3524,
        4087,
        4741,
        5500,
        6380,
        7401,
        8192,
    ]
}

/// The default device-pixel ratios.
pub open spec fn target_ratios() -> Seq<u32> {
    seq![1u32, 2, 3, 4, 5]
}

/// The default per-ratio qualities: quality falls as density rises.
pub open spec fn dpr_qualities() -> Seq<u32> {
    seq![75u32, 50, 35, 23, 20]
}

/// The default target widths, as a vector.
pub fn srcset_target_widths() -> (v: Vec<u32>)
    ensures
        v@ == target_widths(),
{
    let v: Vec<u32> = vec![
        100, 116, 135, 156, 181, 210, 244, 283, 328, 380, 441, 512, 594, 689, 799, 927, 1075, 1247,
        1446, 1678, 1946, 2257, 2619, 3038, 3524, 4087, 4741, 5500, 6380, 7401, 8192,
    ];
    proof {
        assert(v@ =~= target_widths());
    }
    v
}

/// The default device-pixel ratios, as an array.
pub fn srcset_target_dpr_ratios() -> (r: [u32; 5])
    ensures
        r@ == target_ratios(),
{
    let r: [u32; 5] = [1, 2, 3, 4, 5];
    proof {
        assert(r@ =~= target_ratios());
    }
    r
}

/// The default per-ratio qualities, as an array.
pub fn srcset_dpr_qualities() -> (r: [u32; 5])
    ensures
        r@ == dpr_qualities(),
{
    let r: [u32; 5] = [75, 50, 35, 23, 20];
    proof {
        assert(r@ =~= dpr_qualities());
    }
    r
}

/// The identity of this implementation, as `<impl-tag>=<semver>`.
pub fn lib_version() -> (r: String)
    ensures
        r@ == "rust=0.1.0"@,
{
    String::from_str("rust=0.1.0")
}

proof fn lemma_increasing_from_adjacent(s: Seq<u32>, i: int, j: int)
    requires
        forall|k: int| 0 <= k < s.len() - 1 ==> #[trigger] s[k] < s[k + 1],
        0 <= i < j < s.len(),
    ensures
        s[i] < s[j],
    decreases j - i,
{
    if i + 1 < j {
        lemma_increasing_from_adjacent(s, i, j - 1);
    }
}

/// The default width table has 31 entries, is strictly increasing, starts
/// at the minimum width and ends at the maximum width.
pub proof fn lemma_target_widths_table()
    ensures
        target_widths().len() == 31,
        target_widths()[0] == IMAGE_MIN_WIDTH,
        target_widths()[30] == IMAGE_MAX_WIDTH,
        forall|i: int, j: int|
            0 <= i < j < target_widths().len() ==> target_widths()[i] < target_widths()[j],
{
    let w = target_widths();
    assert(forall|k: int| 0 <= k < w.len() - 1 ==> #[trigger] w[k] < w[k + 1]) by {
        assert(w[0] < w[1]);
        assert(w[1] < w[2]);
        assert(w[2] < w[3]);
        assert(w[3] < w[4]);
        assert(w[4] < w[5]);
        assert(w[5] < w[6]);
        assert(w[6] < w[7]);
        assert(w[7] < w[8]);
        assert(w[8] < w[9]);
        assert(w[9] < w[10]);
        assert(w[10] < w[11]);
        assert(w[11] < w[12]);
        assert(w[12] < w[13]);
        assert(w[13] < w[14]);
        assert(w[14] < w[15]);
        assert(w[15] < w[16]);
        assert(w[16] < w[17]);
        assert(w[17] < w[18]);
        assert(w[18] < w[19]);
        assert(w[19] < w[20]);
        assert(w[20] < w[21]);
        assert(w[21] < w[22]);
        assert(w[22] < w[23]);
        assert(w[23] < w[24]);
        assert(w[24] < w[25]);
        assert(w[25] < w[26]);
        assert(w[26] < w[27]);
        assert(w[27] < w[28]);
        assert(w[28] < w[29]);
        assert(w[29] < w[30]);
    }
    assert forall|i: int, j: int| 0 <= i < j < w.len() implies w[i] < w[j] by {
        lemma_increasing_from_adjacent(w, i, j);
    }
}

} // verus!
