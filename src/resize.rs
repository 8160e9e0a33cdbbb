//! Target dimensions of a downscale that keeps the aspect ratio.
use vstd::prelude::*;

verus! {

/// `w * t / h` rounded to the nearest integer, halves rounding up.
pub open spec fn rounded_width(w: nat, h: nat, t: nat) -> nat
    recommends
        h > 0,
{
    (2 * w * t + h) / (2 * h)
}

/// Whether an image of height `h` is shrunk for the resize target `t`.
pub open spec fn needs_resize(h: nat, t: nat) -> bool {
    h > 0 && h >= t
}

/// The dimensions an image of `w` by `h` pixels has after the downscale to
/// target `t`: the height becomes `t` and the width follows the aspect ratio;
/// no side drops below one pixel. Images lower than `t` keep their size.
pub open spec fn reduced_dims(w: nat, h: nat, t: nat) -> (nat, nat) {
    if needs_resize(h, t) {
        (
            if rounded_width(w, h, t) >= 1 { rounded_width(w, h, t) } else { 1 },
            if t >= 1 { t } else { 1 },
        )
    } else {
        (w, h)
    }
}

/// Computes `reduced_dims(width, height, target)`.
pub fn resize_plan(width: u32, height: u32, target: u32) -> (r: (u32, u32))
    ensures
        (r.0 as nat, r.1 as nat) == reduced_dims(width as nat, height as nat, target as nat),
{
    if height > 0 && height >= target {
        let w: u128 = width as u128;
        let h: u128 = height as u128;
        let t: u128 = target as u128;
        assert(2 * w * t + h <= 0x1_0000_0000_0000_0000_0000) by (nonlinear_arith)
            requires
                w <= 0xffff_ffff,
                t <= 0xffff_ffff,
                h <= 0xffff_ffff,
        ;
        let q: u128 = (2 * w * t + h) / (2 * h);
        assert(q <= w) by (nonlinear_arith)
            requires
                q == (2 * w * t + h) / (2 * h),
                t <= h,
                h > 0,
        ;
        let nw: u32 = if q >= 1 { q as u32 } else { 1 };
        let nh: u32 = if target >= 1 { target } else { 1 };
        (nw, nh)
    } else {
        (width, height)
    }
}

/// An image at least as high as the target comes out exactly as high as the
/// target, with its width scaled by the same ratio and rounded.
pub proof fn lemma_tall_image_reaches_target(w: nat, h: nat, t: nat)
    requires
        t >= 1,
        h >= t,
        rounded_width(w, h, t) >= 1,
    ensures
        reduced_dims(w, h, t) == (rounded_width(w, h, t), t),
{
}

/// An image lower than the target keeps its dimensions.
pub proof fn lemma_low_image_unchanged(w: nat, h: nat, t: nat)
    requires
        h < t,
    ensures
        reduced_dims(w, h, t) == (w, h),
{
}

} // verus!
