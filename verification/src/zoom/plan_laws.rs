use vstd::prelude::*;

use crate::model::metadata::InputEvent;
use crate::zoom::generate::{
    all_until, click_targets, extend_segment, lemma_insert_bounded, merge_window, new_segment, planned_segments, segments_for,
    sort_by_time, insert_by_time, GenTiming, PlanTarget, SegmentView,
};

verus! {

broadcast use vstd::seq_lib::group_to_multiset_ensures;

/// `s` is in non-decreasing time order.
pub open spec fn time_ordered(s: Seq<PlanTarget>) -> bool {
    forall|i: int, j: int| 0 <= i <= j < s.len() ==> s[i].t_ms <= s[j].t_ms
}

/// The elements of `s` at time `k`, in their order in `s`.
pub open spec fn at_time(s: Seq<PlanTarget>, k: u64) -> Seq<PlanTarget>
    decreases s.len(),
{
    if s.len() == 0 {
        seq![]
    } else if s.last().t_ms == k {
        at_time(s.drop_last(), k).push(s.last())
    } else {
        at_time(s.drop_last(), k)
    }
}

/// The targets of all segments, segment after segment.
pub open spec fn all_targets(segs: Seq<SegmentView>) -> Seq<PlanTarget>
    decreases segs.len(),
{
    if segs.len() == 0 {
        seq![]
    } else {
        all_targets(segs.drop_last()) + segs.last().targets
    }
}

/// A segment opens at its first click, closes hold plus ease-out after its last
/// click, carries the configured ramps, and holds clicks that are each within the
/// merge window of the one before.
pub open spec fn segment_shape(s: SegmentView, opts: GenTiming) -> bool {
    &&& s.targets.len() > 0
    &&& s.start_ms == s.targets[0].t_ms
    &&& s.end_ms == s.targets.last().t_ms + opts.hold_ms + opts.ease_out_ms
    &&& s.ease_in_ms == opts.ease_in_ms
    &&& s.ease_out_ms == opts.ease_out_ms
    &&& forall|j: int| 0 <= j < s.targets.len() - 1
        ==> #[trigger] s.targets[j + 1].t_ms <= s.targets[j].t_ms + merge_window(opts)
}

/// Every segment is well shaped, and each segment starts with a click later than
/// the merge window after the last click of the segment before.
pub open spec fn segments_shape(segs: Seq<SegmentView>, opts: GenTiming) -> bool {
    &&& forall|i: int| 0 <= i < segs.len() ==> segment_shape(#[trigger] segs[i], opts)
    &&& forall|i: int| 0 <= i < segs.len() - 1
        ==> #[trigger] segs[i + 1].targets[0].t_ms > segs[i].targets.last().t_ms + merge_window(opts)
}

proof fn lemma_insert_ordered(s: Seq<PlanTarget>, t: PlanTarget)
    requires
        time_ordered(s),
    ensures
        time_ordered(insert_by_time(s, t)),
    decreases s.len(),
{
    if s.len() > 0 && s.last().t_ms > t.t_ms {
        let init = s.drop_last();
        lemma_insert_ordered(init, t);
        lemma_insert_bounded(init, t, s.last().t_ms as int);
    }
}

proof fn lemma_insert_multiset(s: Seq<PlanTarget>, t: PlanTarget)
    ensures
        insert_by_time(s, t).to_multiset() =~= s.to_multiset().insert(t),
    decreases s.len(),
{
    if s.len() > 0 && s.last().t_ms > t.t_ms {
        let init = s.drop_last();
        lemma_insert_multiset(init, t);
        assert(init.push(s.last()) =~= s);
    }
}

proof fn lemma_insert_at_time(s: Seq<PlanTarget>, t: PlanTarget, k: u64)
    ensures
        at_time(insert_by_time(s, t), k) == if t.t_ms == k { at_time(s, k).push(t) } else { at_time(s, k) },
    decreases s.len(),
{
    if s.len() == 0 || s.last().t_ms <= t.t_ms {
        assert(s.push(t).drop_last() =~= s);
    } else {
        let init = s.drop_last();
        lemma_insert_at_time(init, t, k);
        let ins = insert_by_time(init, t);
        assert(ins.push(s.last()).drop_last() =~= ins);
    }
}

/// Sorting by time yields a time-ordered rearrangement of the same clicks, and
/// clicks at the same time keep their relative order (the sort is stable).
pub proof fn lemma_sort_by_time(s: Seq<PlanTarget>)
    ensures
        time_ordered(sort_by_time(s)),
        sort_by_time(s).to_multiset() =~= s.to_multiset(),
        forall|k: u64| #[trigger] at_time(sort_by_time(s), k) == at_time(s, k),
    decreases s.len(),
{
    if s.len() > 0 {
        let init = s.drop_last();
        lemma_sort_by_time(init);
        lemma_insert_ordered(sort_by_time(init), s.last());
        lemma_insert_multiset(sort_by_time(init), s.last());
        assert(init.push(s.last()) =~= s);
        assert forall|k: u64| #[trigger] at_time(sort_by_time(s), k) == at_time(s, k) by {
            lemma_insert_at_time(sort_by_time(init), s.last(), k);
        }
    }
}

proof fn lemma_all_targets_update(segs: Seq<SegmentView>, e: SegmentView)
    requires
        segs.len() > 0,
    ensures
        all_targets(segs.update(segs.len() - 1, e)) == all_targets(segs.drop_last()) + e.targets,
{
    assert(segs.update(segs.len() - 1, e).drop_last() =~= segs.drop_last());
}

/// Grouping clicks into segments keeps every click exactly once and in order,
/// and yields well-shaped segments separated by more than the merge window.
pub proof fn lemma_segments_for(ts: Seq<PlanTarget>, opts: GenTiming)
    ensures
        all_targets(segments_for(ts, opts)) =~= ts,
        segments_shape(segments_for(ts, opts), opts),
        ts.len() > 0 ==> segments_for(ts, opts).len() > 0,
        ts.len() > 0 ==> segments_for(ts, opts).last().targets.last() == ts.last(),
    decreases ts.len(),
{
    if ts.len() > 0 {
        let init = ts.drop_last();
        let prev = segments_for(init, opts);
        let c = ts.last();
        lemma_segments_for(init, opts);
        if ts.len() > 1 && c.t_ms <= ts[ts.len() - 2].t_ms + merge_window(opts) {
            let e = extend_segment(prev.last(), c, opts);
            let now = prev.update(prev.len() - 1, e);
            lemma_all_targets_update(prev, e);
            assert(prev.drop_last().push(prev.last()) =~= prev);
            assert(all_targets(prev) == all_targets(prev.drop_last()) + prev.last().targets);
            assert(all_targets(prev.drop_last()) + e.targets =~= all_targets(prev).push(c));
            assert(init.push(c) =~= ts);
            assert(init.last() == ts[ts.len() - 2]);
            assert(segment_shape(prev.last(), opts));
            assert forall|j: int| 0 <= j < e.targets.len() - 1
                implies #[trigger] e.targets[j + 1].t_ms <= e.targets[j].t_ms + merge_window(opts) by {
                if j < e.targets.len() - 2 {
                    assert(e.targets[j + 1] == prev.last().targets[j + 1]);
                    assert(e.targets[j] == prev.last().targets[j]);
                }
            }
            assert(segment_shape(e, opts));
            assert forall|i: int| 0 <= i < now.len() implies segment_shape(#[trigger] now[i], opts) by {
                if i < now.len() - 1 {
                    assert(now[i] == prev[i]);
                }
            }
            assert forall|i: int| 0 <= i < now.len() - 1
                implies #[trigger] now[i + 1].targets[0].t_ms > now[i].targets.last().t_ms + merge_window(opts) by {
                assert(now[i] == prev[i]);
                if i + 1 < now.len() - 1 {
                    assert(now[i + 1] == prev[i + 1]);
                } else {
                    assert(now[i + 1].targets[0] == prev[i + 1].targets[0]);
                }
            }
        } else {
            let e = new_segment(c, opts);
            let now = prev.push(e);
            assert(now.drop_last() =~= prev);
            assert(all_targets(now) == all_targets(prev) + e.targets);
            assert(init.push(c) =~= ts);
            assert forall|i: int| 0 <= i < now.len() implies segment_shape(#[trigger] now[i], opts) by {
                if i < now.len() - 1 {
                    assert(now[i] == prev[i]);
                }
            }
            assert forall|i: int| 0 <= i < now.len() - 1
                implies #[trigger] now[i + 1].targets[0].t_ms > now[i].targets.last().t_ms + merge_window(opts) by {
                assert(now[i] == prev[i]);
                if i + 1 < now.len() - 1 {
                    assert(now[i + 1] == prev[i + 1]);
                } else {
                    assert(init.last() == ts[ts.len() - 2]);
                }
            }
        }
    }
}

/// The laws of zoom generation: the plan holds exactly the recording's clicks, in
/// time order (ties in recording order), each segment is well shaped, and
/// segments follow each other without overlapping.
pub proof fn lemma_plan_laws(events: Seq<InputEvent>, opts: GenTiming)
    ensures
        all_targets(planned_segments(events, opts)) =~= sort_by_time(click_targets(events)),
        time_ordered(all_targets(planned_segments(events, opts))),
        all_targets(planned_segments(events, opts)).to_multiset() =~= click_targets(events).to_multiset(),
        segments_shape(planned_segments(events, opts), opts),
        forall|i: int| 0 <= i < planned_segments(events, opts).len() - 1
            ==> #[trigger] planned_segments(events, opts)[i].end_ms < planned_segments(events, opts)[i + 1].start_ms,
{
    let ts = sort_by_time(click_targets(events));
    lemma_sort_by_time(click_targets(events));
    lemma_segments_for(ts, opts);
    let segs = planned_segments(events, opts);
    assert forall|i: int| 0 <= i < segs.len() - 1 implies #[trigger] segs[i].end_ms < segs[i + 1].start_ms by {
        assert(segment_shape(segs[i], opts));
        assert(segment_shape(segs[i + 1], opts));
    }
}

/// The zoom target an event yields when its kind is "click", whatever its button;
/// no target for any other kind.
pub open spec fn click_point(e: InputEvent) -> Option<PlanTarget> {
    if e.kind@ == "click"@ {
        Some(PlanTarget { t_ms: e.t_ms, x: e.x, y: e.y })
    } else {
        None
    }
}

proof fn lemma_click_targets_filter(events: Seq<InputEvent>)
    ensures
        click_targets(events) == events.filter_map(|e: InputEvent| click_point(e)),
    decreases events.len(),
{
    if events.len() > 0 {
        lemma_click_targets_filter(events.drop_last());
    }
}

/// Every event of kind "click" becomes a zoom target, whatever its button, and
/// nothing else does: the targets of the plan, taken together, are exactly the
/// `(time, x, y)` of the click events (as a multiset), and there are as many.
pub proof fn lemma_plan_targets_are_clicks(events: Seq<InputEvent>, opts: GenTiming)
    ensures
        all_targets(planned_segments(events, opts)).to_multiset()
            =~= events.filter_map(|e: InputEvent| click_point(e)).to_multiset(),
        all_targets(planned_segments(events, opts)).len() == events.filter_map(|e: InputEvent| click_point(e)).len(),
{
    lemma_plan_laws(events, opts);
    lemma_click_targets_filter(events);
    let all = all_targets(planned_segments(events, opts));
    let clicks = events.filter_map(|e: InputEvent| click_point(e));
    assert(all.len() == all.to_multiset().len());
    assert(clicks.len() == clicks.to_multiset().len());
}

} // verus!
