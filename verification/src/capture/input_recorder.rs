use vstd::prelude::*;

use crate::model::coords::{map_to_source, spec_map_to_source};
use crate::model::metadata::{event_views, opt_text, EventView, InputEvent};

verus! {

/// One raw input message from the native listener: `(x, y, kind, button, now_ms)`,
/// with global coordinates and wall-clock milliseconds.
pub type InputMsg = (i64, i64, String, Option<String>, u64);

/// Collects the input events of one recording, relative to its source and start time.
pub struct InputRecorder {
    rect: [i64; 4],
    start_ms: u64,
    events: Vec<InputEvent>,
}

/// The mathematical view of an [`InputRecorder`].
pub struct RecorderView {
    pub rect: [i64; 4],
    pub start_ms: u64,
    pub events: Seq<EventView>,
}

impl View for InputRecorder {
    type V = RecorderView;

    closed spec fn view(&self) -> RecorderView {
        RecorderView { rect: self.rect, start_ms: self.start_ms, events: event_views(self.events@) }
    }
}

/// `now - start`, or 0 when `now` is earlier.
pub open spec fn elapsed(now_ms: u64, start_ms: u64) -> u64 {
    if now_ms >= start_ms { (now_ms - start_ms) as u64 } else { 0 }
}

/// The global point can be shifted into source coordinates without overflow.
pub open spec fn point_fits(rect: [i64; 4], x: i64, y: i64) -> bool {
    &&& i64::MIN <= x - rect[0] <= i64::MAX
    &&& i64::MIN <= y - rect[1] <= i64::MAX
}

/// The events after ingesting one point: unchanged when the point falls outside the
/// source, one more event (position relative to the source, time relative to the
/// start) when it falls inside.
pub open spec fn ingest_one(
    events: Seq<EventView>,
    rect: [i64; 4],
    start_ms: u64,
    x: i64,
    y: i64,
    kind: Seq<char>,
    button: Option<Seq<char>>,
    now_ms: u64,
) -> Seq<EventView> {
    match spec_map_to_source(rect, x, y) {
        None => events,
        Some((rx, ry)) => events.push(
            EventView { t_ms: elapsed(now_ms, start_ms), kind, x: rx, y: ry, button },
        ),
    }
}

/// The events after ingesting the messages `msgs` one after another.
pub open spec fn ingest_seq(
    events: Seq<EventView>,
    rect: [i64; 4],
    start_ms: u64,
    msgs: Seq<InputMsg>,
) -> Seq<EventView>
    decreases msgs.len(),
{
    if msgs.len() == 0 {
        events
    } else {
        let m = msgs.last();
        ingest_one(
            ingest_seq(events, rect, start_ms, msgs.drop_last()),
            rect,
            start_ms,
            m.0,
            m.1,
            m.2@,
            opt_text(m.3),
            m.4,
        )
    }
}

impl InputRecorder {
    pub fn new(rect: [i64; 4], start_ms: u64) -> (r: Self)
        ensures
            r@.rect == rect,
            r@.start_ms == start_ms,
            r@.events == Seq::<EventView>::empty(),
    {
        let r = Self { rect, start_ms, events: Vec::new() };
        assert(r@.events =~= Seq::<EventView>::empty());
        r
    }

    /// Records the event when the point lies inside the source, with its time
    /// relative to the start (saturating at 0); points outside are dropped.
    pub fn ingest(&mut self, x: i64, y: i64, kind: &str, button: Option<String>, now_ms: u64)
        requires
            point_fits(old(self)@.rect, x, y),
        ensures
            final(self)@.rect == old(self)@.rect,
            final(self)@.start_ms == old(self)@.start_ms,
            final(self)@.events == ingest_one(
                old(self)@.events,
                old(self)@.rect,
                old(self)@.start_ms,
                x,
                y,
                kind@,
                opt_text(button),
                now_ms,
            ),
    {
        if let Some((rx, ry)) = map_to_source(self.rect, x, y) {
            let t_ms = now_ms.saturating_sub(self.start_ms);
            let ghost before = self.events@;
            self.events.push(InputEvent { t_ms, kind: String::from_str(kind), x: rx, y: ry, button });
            assert(event_views(self.events@) =~= event_views(before).push(self.events@.last()@));
        }
    }

    /// Ingests a batch of raw messages in order, as the listener forwards them.
    pub fn ingest_all(&mut self, msgs: Vec<InputMsg>)
        requires
            forall|i: int| 0 <= i < msgs@.len() ==> point_fits(old(self)@.rect, #[trigger] msgs@[i].0, msgs@[i].1),
        ensures
            final(self)@.rect == old(self)@.rect,
            final(self)@.start_ms == old(self)@.start_ms,
            final(self)@.events == ingest_seq(old(self)@.events, old(self)@.rect, old(self)@.start_ms, msgs@),
    {
        let ghost rect = self@.rect;
        let ghost start = self@.start_ms;
        let ghost before = self@.events;
        let ghost all = msgs@;
        let mut i: usize = 0;
        while i < msgs.len()
            invariant
                i <= msgs@.len(),
                msgs@ == all,
                self@.rect == rect,
                self@.start_ms == start,
                forall|j: int| 0 <= j < all.len() ==> point_fits(rect, #[trigger] all[j].0, all[j].1),
                self@.events == ingest_seq(before, rect, start, all.take(i as int)),
            decreases msgs@.len() - i,
        {
            let x = msgs[i].0;
            let y = msgs[i].1;
            let now = msgs[i].4;
            let button = msgs[i].3.clone();
            proof {
                if button.is_some() {
                    assert(button.unwrap() == msgs@[i as int].3.unwrap());
                }
                assert(opt_text(button) == opt_text(msgs@[i as int].3));
                assert(all.take(i + 1).drop_last() =~= all.take(i as int));
                assert(all.take(i + 1).last() == all[i as int]);
            }
            self.ingest(x, y, msgs[i].2.as_str(), button, now);
            i = i + 1;
        }
        assert(all.take(all.len() as int) =~= all);
    }

    /// The source rectangle events are recorded against.
    pub fn rect(&self) -> (r: [i64; 4])
        ensures
            r == self@.rect,
    {
        self.rect
    }

    pub fn take_events(self) -> (events: Vec<InputEvent>)
        ensures
            event_views(events@) == self@.events,
    {
        self.events
    }
}


/// Ingesting two batches one after the other is ingesting them as one batch.
pub proof fn lemma_ingest_batches(
    events: Seq<EventView>,
    rect: [i64; 4],
    start_ms: u64,
    first: Seq<InputMsg>,
    second: Seq<InputMsg>,
)
    ensures
        ingest_seq(ingest_seq(events, rect, start_ms, first), rect, start_ms, second)
            == ingest_seq(events, rect, start_ms, first + second),
    decreases second.len(),
{
    if second.len() == 0 {
        assert(first + second =~= first);
    } else {
        lemma_ingest_batches(events, rect, start_ms, first, second.drop_last());
        assert((first + second).drop_last() =~= first + second.drop_last());
        assert((first + second).last() == second.last());
    }
}

/// The event that one message yields: its point shifted into source coordinates and its
/// time made relative to the start, or nothing when the point falls outside the source.
pub open spec fn recorded_of(rect: [i64; 4], start_ms: u64, m: InputMsg) -> Option<EventView> {
    match spec_map_to_source(rect, m.0, m.1) {
        None => None,
        Some((rx, ry)) => Some(
            EventView { t_ms: elapsed(m.4, start_ms), kind: m.2@, x: rx, y: ry, button: opt_text(m.3) },
        ),
    }
}

/// Ingesting messages one after another appends, in call order, exactly the events of
/// the messages whose point lies inside the source; the others leave no trace. Starting
/// from a fresh recorder (no events), `take_events` therefore hands back the filtered
/// list of the messages.
pub proof fn lemma_ingest_list(
    events: Seq<EventView>,
    rect: [i64; 4],
    start_ms: u64,
    msgs: Seq<InputMsg>,
)
    ensures
        ingest_seq(events, rect, start_ms, msgs)
            == events + msgs.filter_map(|m: InputMsg| recorded_of(rect, start_ms, m)),
    decreases msgs.len(),
{
    let f = |m: InputMsg| recorded_of(rect, start_ms, m);
    if msgs.len() == 0 {
        assert(events + msgs.filter_map(f) =~= events);
    } else {
        lemma_ingest_list(events, rect, start_ms, msgs.drop_last());
        let rest = msgs.drop_last().filter_map(f);
        match f(msgs.last()) {
            Some(e) => {
                assert(events + (rest + seq![e]) =~= (events + rest).push(e));
            },
            None => {},
        }
    }
}

/// Every recorded event lies within the source rectangle, with the origin at its
/// top-left corner.
pub open spec fn all_inside(events: Seq<EventView>, rect: [i64; 4]) -> bool {
    forall|i: int| 0 <= i < events.len() ==> {
        &&& 0 <= #[trigger] events[i].x <= rect[2]
        &&& 0 <= events[i].y <= rect[3]
    }
}

/// Ingesting keeps every recorded position inside the source.
pub proof fn lemma_ingest_stays_inside(
    events: Seq<EventView>,
    rect: [i64; 4],
    start_ms: u64,
    msgs: Seq<InputMsg>,
)
    requires
        all_inside(events, rect),
    ensures
        all_inside(ingest_seq(events, rect, start_ms, msgs), rect),
    decreases msgs.len(),
{
    if msgs.len() > 0 {
        lemma_ingest_stays_inside(events, rect, start_ms, msgs.drop_last());
        let prev = ingest_seq(events, rect, start_ms, msgs.drop_last());
        let now = ingest_seq(events, rect, start_ms, msgs);
        assert forall|i: int| 0 <= i < now.len() implies {
            &&& 0 <= #[trigger] now[i].x <= rect[2]
            &&& 0 <= now[i].y <= rect[3]
        } by {
            if i < prev.len() {
                assert(now[i] == prev[i]);
            }
        }
    }
}

} // verus!
