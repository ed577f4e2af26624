use vstd::prelude::*;

verus! {

pub open spec fn clamp_int(v: int, lo: int, hi: int) -> int {
    if v < lo { lo } else if v > hi { hi } else { v }
}

/// The overlay's pixel geometry `(size, x, y)` from its rounded, unclamped values:
/// the size kept between 1 and the smaller frame side, the position kept so the
/// overlay stays inside the frame.
pub open spec fn fitted_overlay(raw_s: i64, raw_x: i64, raw_y: i64, out_w: u32, out_h: u32) -> (int, int, int) {
    let max_s = if out_w < out_h { out_w as int } else { out_h as int };
    let s = clamp_int(raw_s as int, 1, max_s);
    let max_x = if out_w >= s { out_w - s } else { 0 };
    let max_y = if out_h >= s { out_h - s } else { 0 };
    (s, clamp_int(raw_x as int, 0, max_x), clamp_int(raw_y as int, 0, max_y))
}

/// Fits the webcam overlay into an `out_w` x `out_h` frame, given its size and
/// position already scaled to pixels and rounded.
pub fn fit_overlay(raw_s: i64, raw_x: i64, raw_y: i64, out_w: u32, out_h: u32) -> (g: (u32, u32, u32))
    requires
        out_w >= 1,
        out_h >= 1,
    ensures
        (g.0 as int, g.1 as int, g.2 as int) == fitted_overlay(raw_s, raw_x, raw_y, out_w, out_h),
{
    let max_s: u32 = if out_w < out_h { out_w } else { out_h };
    let s: u32 = if raw_s < 1 { 1 } else if raw_s > max_s as i64 { max_s } else { raw_s as u32 };
    let max_x: u32 = out_w.saturating_sub(s);
    let max_y: u32 = out_h.saturating_sub(s);
    let x: u32 = if raw_x < 0 { 0 } else if raw_x > max_x as i64 { max_x } else { raw_x as u32 };
    let y: u32 = if raw_y < 0 { 0 } else if raw_y > max_y as i64 { max_y } else { raw_y as u32 };
    (s, x, y)
}

/// A fitted overlay is at least one pixel, no larger than the frame's smaller side,
/// and lies entirely inside the frame.
pub proof fn lemma_overlay_inside(raw_s: i64, raw_x: i64, raw_y: i64, out_w: u32, out_h: u32)
    requires
        out_w >= 1,
        out_h >= 1,
    ensures
        ({
            let (s, x, y) = fitted_overlay(raw_s, raw_x, raw_y, out_w, out_h);
            &&& 1 <= s <= out_w && s <= out_h
            &&& 0 <= x && x + s <= out_w
            &&& 0 <= y && y + s <= out_h
        }),
{
}

} // verus!
