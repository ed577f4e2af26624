use vstd::prelude::*;

verus! {

/// The timing of one zoom segment, in milliseconds.
#[derive(Debug, Clone, Copy, PartialEq, Eq, Structural)]
pub struct SegmentTiming {
    pub start_ms: u64,
    pub end_ms: u64,
    pub ease_in_ms: u64,
    pub ease_out_ms: u64,
}

/// Which easing applies at a moment inside a segment.
#[derive(Debug, Clone, Copy, PartialEq, Eq, Structural)]
pub enum Ramp {
    /// Within the ease-in ramp only.
    EaseIn,
    /// Within the ease-out ramp only.
    EaseOut,
    /// Within both ramps at once; the smaller factor is taken.
    Overlap,
    /// On the plateau: full scale.
    Full,
}

/// The segment that decides the zoom at a moment, and where in it the moment falls.
#[derive(Debug, Clone, Copy, PartialEq, Eq, Structural)]
pub struct ActiveZoom {
    pub index: usize,
    /// Milliseconds since the segment started.
    pub rel_ms: u64,
    /// Length of the segment in milliseconds.
    pub dur_ms: u64,
    pub ramp: Ramp,
}

/// `s` is showing at `t_ms`: from its start (inclusive) to its end (exclusive).
pub open spec fn covers(s: SegmentTiming, t_ms: u64) -> bool {
    s.start_ms <= t_ms < s.end_ms
}

/// The ramp at `rel` ms into a segment of length `dur`: ease-in while `rel` is
/// shorter than the ease-in, ease-out while fewer than the ease-out ms remain.
pub open spec fn ramp_at(rel: int, dur: int, ease_in: int, ease_out: int) -> Ramp {
    let in_ramp = rel < ease_in;
    let out_ramp = rel > dur - ease_out;
    if in_ramp && out_ramp {
        Ramp::Overlap
    } else if in_ramp {
        Ramp::EaseIn
    } else if out_ramp {
        Ramp::EaseOut
    } else {
        Ramp::Full
    }
}

/// What `active_zoom` returns: the first segment that covers `t_ms`, if any.
pub open spec fn spec_active_zoom(segs: Seq<SegmentTiming>, t_ms: u64, res: Option<ActiveZoom>) -> bool {
    match res {
        None => forall|i: int| 0 <= i < segs.len() ==> !covers(#[trigger] segs[i], t_ms),
        Some(a) => {
            &&& a.index < segs.len()
            &&& covers(segs[a.index as int], t_ms)
            &&& forall|j: int| 0 <= j < a.index ==> !covers(#[trigger] segs[j], t_ms)
            &&& a.rel_ms == t_ms - segs[a.index as int].start_ms
            &&& a.dur_ms == segs[a.index as int].end_ms - segs[a.index as int].start_ms
            &&& a.ramp == ramp_at(
                a.rel_ms as int,
                a.dur_ms as int,
                segs[a.index as int].ease_in_ms as int,
                segs[a.index as int].ease_out_ms as int,
            )
        },
    }
}

/// Finds the segment that decides the zoom at `t_ms`: the first one that covers it.
/// `None` means no zoom (identity view).
pub fn active_zoom(segs: &Vec<SegmentTiming>, t_ms: u64) -> (res: Option<ActiveZoom>)
    ensures
        spec_active_zoom(segs@, t_ms, res),
{
    let mut i: usize = 0;
    while i < segs.len()
        invariant
            i <= segs.len(),
            forall|j: int| 0 <= j < i ==> !covers(#[trigger] segs@[j], t_ms),
        decreases segs.len() - i,
    {
        let s = segs[i];
        if s.start_ms <= t_ms && t_ms < s.end_ms {
            let rel = t_ms - s.start_ms;
            let dur = s.end_ms - s.start_ms;
            let in_ramp = rel < s.ease_in_ms;
            let out_ramp = rel as u128 + s.ease_out_ms as u128 > dur as u128;
            let ramp = if in_ramp && out_ramp {
                Ramp::Overlap
            } else if in_ramp {
                Ramp::EaseIn
            } else if out_ramp {
                Ramp::EaseOut
            } else {
                Ramp::Full
            };
            return Some(ActiveZoom { index: i, rel_ms: rel, dur_ms: dur, ramp });
        }
        i = i + 1;
    }
    None
}

/// Where a moment falls among a segment's targets.
#[derive(Debug, Clone, Copy, PartialEq, Eq, Structural)]
pub enum TargetSpot {
    /// Exactly at the target with this index.
    At(usize),
    /// Between target `index` and target `index + 1`: `offset_ms` past the first,
    /// over a span of `span_ms` (at least 1).
    Between { index: usize, offset_ms: u64, span_ms: u64 },
}

pub open spec fn clamp_time(t: u64, lo: u64, hi: u64) -> u64 {
    if t < lo { lo } else if t > hi { hi } else { t }
}

/// `t` lies in the window from target `i` to target `i + 1`.
pub open spec fn in_window(times: Seq<u64>, i: int, t: u64) -> bool {
    times[i] <= t <= times[i + 1]
}

/// What `locate_target` returns.
pub open spec fn spec_locate_target(times: Seq<u64>, t_ms: u64, spot: TargetSpot) -> bool {
    if times.len() == 1 {
        spot == TargetSpot::At(0)
    } else {
        let t = clamp_time(t_ms, times[0], times[times.len() - 1]);
        match spot {
            TargetSpot::Between { index, offset_ms, span_ms } => {
                &&& index + 1 < times.len()
                &&& in_window(times, index as int, t)
                &&& forall|j: int| 0 <= j < index ==> !#[trigger] in_window(times, j, t)
                &&& offset_ms == t - times[index as int]
                &&& span_ms == if times[index + 1] - times[index as int] < 1 { 1 } else {
                    times[index + 1] - times[index as int]
                }
            },
            TargetSpot::At(i) => {
                &&& i == times.len() - 1
                &&& forall|j: int| 0 <= j < times.len() - 1 ==> !#[trigger] in_window(times, j, t)
            },
        }
    }
}

/// Locates `t_ms` among a segment's target times: the time is first clamped to the
/// span from the first to the last target, then the first window of consecutive
/// targets that holds it is chosen; with one target, that target.
pub fn locate_target(times: &Vec<u64>, t_ms: u64) -> (spot: TargetSpot)
    requires
        times@.len() >= 1,
        times@[0] <= times@[times@.len() - 1],
    ensures
        spec_locate_target(times@, t_ms, spot),
{
    let n = times.len();
    if n == 1 {
        return TargetSpot::At(0);
    }
    let first = times[0];
    let last = times[n - 1];
    let t = if t_ms < first { first } else if t_ms > last { last } else { t_ms };
    let mut i: usize = 0;
    while i + 1 < n
        invariant
            n == times@.len(),
            n >= 2,
            i + 1 <= n,
            t == clamp_time(t_ms, times@[0], times@[n - 1]),
            forall|j: int| 0 <= j < i ==> !#[trigger] in_window(times@, j, t),
        decreases n - i,
    {
        let a = times[i];
        let b = times[i + 1];
        if a <= t && t <= b {
            let span = if b - a < 1 { 1 } else { b - a };
            return TargetSpot::Between { index: i, offset_ms: t - a, span_ms: span };
        }
        i = i + 1;
    }
    TargetSpot::At(n - 1)
}


/// Non-decreasing target times.
pub open spec fn times_ordered(times: Seq<u64>) -> bool {
    forall|i: int, j: int| 0 <= i <= j < times.len() ==> times[i] <= times[j]
}

proof fn lemma_window_exists(times: Seq<u64>, t: u64)
    requires
        times.len() >= 2,
        times_ordered(times),
        times[0] <= t <= times[times.len() - 1],
    ensures
        exists|j: int| 0 <= j < times.len() - 1 && #[trigger] in_window(times, j, t),
    decreases times.len(),
{
    let n = times.len();
    if times[n - 2] <= t {
        assert(in_window(times, n - 2, t));
    } else {
        let init = times.drop_last();
        lemma_window_exists(init, t);
        let j = choose|j: int| 0 <= j < init.len() - 1 && #[trigger] in_window(init, j, t);
        assert(in_window(times, j, t));
    }
}

/// With targets in time order (as generated plans have them), every moment of a
/// segment with two or more targets falls between two consecutive targets: the
/// fallback to the last target is never taken.
pub proof fn lemma_ordered_targets_bracket(times: Seq<u64>, t_ms: u64, spot: TargetSpot)
    requires
        times.len() >= 2,
        times_ordered(times),
        spec_locate_target(times, t_ms, spot),
    ensures
        spot is Between,
{
    let t = clamp_time(t_ms, times[0], times[times.len() - 1]);
    lemma_window_exists(times, t);
}


/// Each segment ends before the next one starts, as generated plans have them.
pub open spec fn segments_apart(segs: Seq<SegmentTiming>) -> bool {
    forall|i: int| 0 <= i < segs.len() - 1 ==> #[trigger] segs[i].end_ms < segs[i + 1].start_ms
}

proof fn lemma_apart_ordered(segs: Seq<SegmentTiming>, i: int, j: int)
    requires
        segments_apart(segs),
        forall|k: int| 0 <= k < segs.len() ==> #[trigger] segs[k].start_ms < segs[k].end_ms,
        0 <= i < j < segs.len(),
    ensures
        segs[i].end_ms < segs[j].start_ms,
    decreases j - i,
{
    if j > i + 1 {
        lemma_apart_ordered(segs, i, j - 1);
        assert(segs[j - 1].start_ms < segs[j - 1].end_ms);
        assert(segs[j - 1].end_ms < segs[j].start_ms);
    }
}

/// When segments are non-empty and follow each other without overlapping, at most
/// one covers any moment, so the segment `active_zoom` finds is the only one showing.
pub proof fn lemma_apart_single_cover(segs: Seq<SegmentTiming>, t_ms: u64, i: int, j: int)
    requires
        segments_apart(segs),
        forall|k: int| 0 <= k < segs.len() ==> #[trigger] segs[k].start_ms < segs[k].end_ms,
        0 <= i < segs.len(),
        0 <= j < segs.len(),
        covers(segs[i], t_ms),
        covers(segs[j], t_ms),
    ensures
        i == j,
{
    if i < j {
        lemma_apart_ordered(segs, i, j);
    } else if j < i {
        lemma_apart_ordered(segs, j, i);
    }
}

} // verus!
