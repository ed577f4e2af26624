use vstd::prelude::*;

use crate::model::metadata::InputEvent;

verus! {

/// A click chosen as a zoom target, in source pixels.
#[derive(Debug, Clone, Copy, PartialEq, Eq, Structural)]
pub struct PlanTarget {
    pub t_ms: u64,
    pub x: i64,
    pub y: i64,
}

/// One zoom segment before its targets are normalised to the source size.
#[derive(Debug, Clone, PartialEq)]
pub struct PlanSegment {
    pub start_ms: u64,
    pub end_ms: u64,
    pub ease_in_ms: u64,
    pub ease_out_ms: u64,
    pub targets: Vec<PlanTarget>,
}

/// The mathematical view of a [`PlanSegment`].
#[verifier::ext_equal]
pub struct SegmentView {
    pub start_ms: int,
    pub end_ms: int,
    pub ease_in_ms: int,
    pub ease_out_ms: int,
    pub targets: Seq<PlanTarget>,
}

impl View for PlanSegment {
    type V = SegmentView;

    open spec fn view(&self) -> SegmentView {
        SegmentView {
            start_ms: self.start_ms as int,
            end_ms: self.end_ms as int,
            ease_in_ms: self.ease_in_ms as int,
            ease_out_ms: self.ease_out_ms as int,
            targets: self.targets@,
        }
    }
}

/// The timing options of automatic zoom generation.
#[derive(Debug, Clone, Copy, PartialEq, Eq, Structural)]
pub struct GenTiming {
    pub ease_in_ms: u64,
    pub hold_ms: u64,
    pub ease_out_ms: u64,
}

impl Default for GenTiming {
    /// 300 ms of ease-in, a 1500 ms hold and 400 ms of ease-out.
    fn default() -> (t: Self)
        ensures
            t == (GenTiming { ease_in_ms: 300, hold_ms: 1500, ease_out_ms: 400 }),
    {
        GenTiming { ease_in_ms: 300, hold_ms: 1500, ease_out_ms: 400 }
    }
}

/// The zoom plan derived from a recording's events: the extent by which target
/// coordinates are normalised, and the segments.
#[derive(Debug, Clone, PartialEq)]
pub struct ZoomPlan {
    pub width: i64,
    pub height: i64,
    pub segments: Vec<PlanSegment>,
}

pub open spec fn is_click(e: InputEvent) -> bool {
    e.kind@ == "click"@
}

pub open spec fn target_of(e: InputEvent) -> PlanTarget {
    PlanTarget { t_ms: e.t_ms, x: e.x, y: e.y }
}

/// The clicks among `events`, in their original order.
pub open spec fn click_targets(events: Seq<InputEvent>) -> Seq<PlanTarget>
    decreases events.len(),
{
    if events.len() == 0 {
        seq![]
    } else {
        let rest = click_targets(events.drop_last());
        if is_click(events.last()) {
            rest.push(target_of(events.last()))
        } else {
            rest
        }
    }
}

/// Inserts `t` into a time-ordered sequence after every target that is not later than it.
pub open spec fn insert_by_time(s: Seq<PlanTarget>, t: PlanTarget) -> Seq<PlanTarget>
    decreases s.len(),
{
    if s.len() == 0 || s.last().t_ms <= t.t_ms {
        s.push(t)
    } else {
        insert_by_time(s.drop_last(), t).push(s.last())
    }
}

/// The stable sort of `s` by time: insertion of each element, in order.
pub open spec fn sort_by_time(s: Seq<PlanTarget>) -> Seq<PlanTarget>
    decreases s.len(),
{
    if s.len() == 0 {
        seq![]
    } else {
        insert_by_time(sort_by_time(s.drop_last()), s.last())
    }
}

pub open spec fn merge_window(opts: GenTiming) -> int {
    opts.hold_ms + opts.ease_out_ms
}

pub open spec fn new_segment(c: PlanTarget, opts: GenTiming) -> SegmentView {
    SegmentView {
        start_ms: c.t_ms as int,
        end_ms: c.t_ms + opts.hold_ms + opts.ease_out_ms,
        ease_in_ms: opts.ease_in_ms as int,
        ease_out_ms: opts.ease_out_ms as int,
        targets: seq![c],
    }
}

pub open spec fn extend_segment(s: SegmentView, c: PlanTarget, opts: GenTiming) -> SegmentView {
    SegmentView {
        end_ms: c.t_ms + opts.hold_ms + opts.ease_out_ms,
        targets: s.targets.push(c),
        ..s
    }
}

/// Groups time-ordered clicks into segments: a click joins the current segment when
/// it comes no later than the hold plus ease-out window after the previous click,
/// and otherwise opens a new one.
pub open spec fn segments_for(ts: Seq<PlanTarget>, opts: GenTiming) -> Seq<SegmentView>
    decreases ts.len(),
{
    if ts.len() == 0 {
        seq![]
    } else {
        let prev = segments_for(ts.drop_last(), opts);
        let c = ts.last();
        if ts.len() > 1 && c.t_ms <= ts[ts.len() - 2].t_ms + merge_window(opts) {
            prev.update(prev.len() - 1, extend_segment(prev.last(), c, opts))
        } else {
            prev.push(new_segment(c, opts))
        }
    }
}

/// The segments generated for a recording's events.
pub open spec fn planned_segments(events: Seq<InputEvent>, opts: GenTiming) -> Seq<SegmentView> {
    segments_for(sort_by_time(click_targets(events)), opts)
}

/// Every click can be extended by the hold and ease-out window without overflow.
pub open spec fn timing_fits(events: Seq<InputEvent>, opts: GenTiming) -> bool {
    &&& opts.hold_ms + opts.ease_out_ms <= u64::MAX
    &&& forall|i: int|
        0 <= i < events.len() && is_click(#[trigger] events[i]) ==> events[i].t_ms
            + opts.hold_ms + opts.ease_out_ms <= u64::MAX
}


/// Every click in `s` is no later than `bound`.
pub open spec fn all_until(s: Seq<PlanTarget>, bound: int) -> bool {
    forall|i: int| 0 <= i < s.len() ==> #[trigger] s[i].t_ms <= bound
}

proof fn lemma_click_targets_bounded(events: Seq<InputEvent>, bound: int)
    requires
        forall|i: int| 0 <= i < events.len() && is_click(#[trigger] events[i]) ==> events[i].t_ms <= bound,
    ensures
        all_until(click_targets(events), bound),
    decreases events.len(),
{
    if events.len() > 0 {
        let init = events.drop_last();
        assert forall|i: int| 0 <= i < init.len() && is_click(#[trigger] init[i]) implies init[i].t_ms <= bound by {
            assert(init[i] == events[i]);
        }
        lemma_click_targets_bounded(init, bound);
        assert(events.last() == events[events.len() - 1]);
    }
}

pub(crate) proof fn lemma_insert_bounded(s: Seq<PlanTarget>, t: PlanTarget, bound: int)
    requires
        all_until(s, bound),
        t.t_ms <= bound,
    ensures
        all_until(insert_by_time(s, t), bound),
    decreases s.len(),
{
    if s.len() > 0 && s.last().t_ms > t.t_ms {
        lemma_insert_bounded(s.drop_last(), t, bound);
    }
}

proof fn lemma_sort_bounded(s: Seq<PlanTarget>, bound: int)
    requires
        all_until(s, bound),
    ensures
        all_until(sort_by_time(s), bound),
    decreases s.len(),
{
    if s.len() > 0 {
        lemma_sort_bounded(s.drop_last(), bound);
        lemma_insert_bounded(sort_by_time(s.drop_last()), s.last(), bound);
    }
}

/// Where `insert_by_time` places `t`: after every element not later than it.
proof fn lemma_insert_at(s: Seq<PlanTarget>, t: PlanTarget, pos: int)
    requires
        0 <= pos <= s.len(),
        pos == 0 || s[pos - 1].t_ms <= t.t_ms,
        forall|j: int| pos <= j < s.len() ==> #[trigger] s[j].t_ms > t.t_ms,
    ensures
        insert_by_time(s, t) == s.insert(pos, t),
    decreases s.len(),
{
    if s.len() == pos {
        assert(s.insert(pos, t) =~= s.push(t));
    } else {
        let init = s.drop_last();
        assert(s.last().t_ms > t.t_ms);
        if pos > 0 {
            assert(init[pos - 1] == s[pos - 1]);
        }
        assert forall|j: int| pos <= j < init.len() implies #[trigger] init[j].t_ms > t.t_ms by {
            assert(init[j] == s[j]);
        }
        lemma_insert_at(init, t, pos);
        assert(init.insert(pos, t).push(s.last()) =~= s.insert(pos, t));
    }
}

proof fn lemma_segments_nonempty(ts: Seq<PlanTarget>, opts: GenTiming)
    ensures
        segments_for(ts, opts).len() <= ts.len(),
        ts.len() > 0 ==> segments_for(ts, opts).len() > 0,
    decreases ts.len(),
{
    if ts.len() > 0 {
        lemma_segments_nonempty(ts.drop_last(), opts);
    }
}

fn insert_sorted(v: &mut Vec<PlanTarget>, t: PlanTarget)
    ensures
        final(v)@ == insert_by_time(old(v)@, t),
{
    let mut pos = v.len();
    while pos > 0 && v[pos - 1].t_ms > t.t_ms
        invariant
            pos <= v.len(),
            forall|j: int| pos <= j < v.len() ==> #[trigger] v@[j].t_ms > t.t_ms,
        decreases pos,
    {
        pos = pos - 1;
    }
    proof {
        lemma_insert_at(v@, t, pos as int);
    }
    v.insert(pos, t);
}

/// Builds the zoom plan of a recording: clicks in time order (stable), grouped
/// into segments as `segments_for` says, with the extent `max(w, 1)` x `max(h, 1)`
/// of the source by which target coordinates are later normalised.
pub fn generate_plan(events: &Vec<InputEvent>, source_rect: [i64; 4], opts: &GenTiming) -> (plan: ZoomPlan)
    requires
        timing_fits(events@, *opts),
    ensures
        plan.width == if source_rect[2] < 1 { 1 } else { source_rect[2] },
        plan.height == if source_rect[3] < 1 { 1 } else { source_rect[3] },
        plan.segments@.len() == planned_segments(events@, *opts).len(),
        forall|j: int| 0 <= j < plan.segments@.len()
            ==> #[trigger] plan.segments@[j]@ == planned_segments(events@, *opts)[j],
{
    let width = if source_rect[2] < 1 { 1 } else { source_rect[2] };
    let height = if source_rect[3] < 1 { 1 } else { source_rect[3] };
    let merge = opts.hold_ms + opts.ease_out_ms;
    let click = String::from_str("click");
    proof {
        reveal_strlit("click");
    }

    let mut sorted: Vec<PlanTarget> = Vec::new();
    let mut i: usize = 0;
    while i < events.len()
        invariant
            i <= events.len(),
            click@ == "click"@,
            sorted@ == sort_by_time(click_targets(events@.take(i as int))),
        decreases events.len() - i,
    {
        let ghost before = click_targets(events@.take(i as int));
        assert(events@.take(i + 1).drop_last() =~= events@.take(i as int));
        assert(events@.take(i + 1).last() == events@[i as int]);
        if events[i].kind == click {
            let t = PlanTarget { t_ms: events[i].t_ms, x: events[i].x, y: events[i].y };
            assert(before.push(t).drop_last() =~= before);
            insert_sorted(&mut sorted, t);
        }
        i = i + 1;
    }
    assert(events@.take(events@.len() as int) =~= events@);
    let ghost ordered = sort_by_time(click_targets(events@));
    proof {
        let bound = u64::MAX - opts.hold_ms - opts.ease_out_ms;
        lemma_click_targets_bounded(events@, bound);
        lemma_sort_bounded(click_targets(events@), bound);
    }

    let mut segments: Vec<PlanSegment> = Vec::new();
    let mut k: usize = 0;
    while k < sorted.len()
        invariant
            k <= sorted.len(),
            sorted@ == ordered,
            all_until(ordered, u64::MAX - opts.hold_ms - opts.ease_out_ms),
            merge == opts.hold_ms + opts.ease_out_ms,
            segments@.len() == segments_for(ordered.take(k as int), *opts).len(),
            forall|j: int| 0 <= j < segments@.len()
                ==> #[trigger] segments@[j]@ == segments_for(ordered.take(k as int), *opts)[j],
        decreases sorted.len() - k,
    {
        let ghost prefix = ordered.take(k + 1);
        let ghost prev = segments_for(ordered.take(k as int), *opts);
        assert(prefix.drop_last() =~= ordered.take(k as int));
        assert(prefix.last() == ordered[k as int]);
        let c = sorted[k];
        assert(c.t_ms <= u64::MAX - opts.hold_ms - opts.ease_out_ms);
        let end = c.t_ms + opts.hold_ms + opts.ease_out_ms;
        if k > 0 && c.t_ms <= sorted[k - 1].t_ms + merge {
            assert(prefix[prefix.len() - 2] == ordered[k - 1]);
            proof {
                lemma_segments_nonempty(ordered.take(k as int), *opts);
            }
            let ghost old_segments = segments@;
            let mut seg = segments.pop().unwrap();
            seg.targets.push(c);
            seg.end_ms = end;
            segments.push(seg);
            proof {
                let spec_now = segments_for(prefix, *opts);
                assert(spec_now == prev.update(prev.len() - 1, extend_segment(prev.last(), c, *opts)));
                assert forall|j: int| 0 <= j < segments@.len() implies #[trigger] segments@[j]@ == spec_now[j] by {
                    if j < segments@.len() - 1 {
                        assert(segments@[j] == old_segments[j]);
                    } else {
                        assert(old_segments[j]@ == prev[j]);
                        assert(segments@[j]@ =~= spec_now[j]);
                    }
                }
            }
        } else {
            let mut targets: Vec<PlanTarget> = Vec::new();
            targets.push(c);
            let seg = PlanSegment {
                start_ms: c.t_ms,
                end_ms: end,
                ease_in_ms: opts.ease_in_ms,
                ease_out_ms: opts.ease_out_ms,
                targets,
            };
            let ghost old_segments = segments@;
            segments.push(seg);
            proof {
                let spec_now = segments_for(prefix, *opts);
                assert(spec_now == prev.push(new_segment(c, *opts)));
                assert forall|j: int| 0 <= j < segments@.len() implies #[trigger] segments@[j]@ == spec_now[j] by {
                    if j < segments@.len() - 1 {
                        assert(segments@[j] == old_segments[j]);
                    } else {
                        assert(segments@[j]@ =~= spec_now[j]);
                    }
                }
            }
        }
        k = k + 1;
    }
    assert(ordered.take(sorted.len() as int) =~= ordered);
    ZoomPlan { width, height, segments }
}

} // verus!
