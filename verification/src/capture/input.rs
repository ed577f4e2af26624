use vstd::prelude::*;

use crate::capture::input_recorder::{
    ingest_seq, point_fits, recorded_of, lemma_ingest_list, InputMsg, InputRecorder,
};
use crate::model::metadata::EventView;

verus! {

/// A mouse button, as the native listeners tell them apart.
#[derive(Debug, Clone, Copy)]
pub enum MouseButton {
    Left,
    Right,
    Middle,
    Unknown,
}

/// A native pointer event, its global position already in whole pixels. A press
/// whose listener reports no position carries `(0, 0)`.
#[derive(Debug, Clone, Copy)]
pub enum PointerEvent {
    Moved(i64, i64),
    Pressed(i64, i64, MouseButton),
    Other,
}

/// The label a button is recorded under.
pub open spec fn button_label(b: MouseButton) -> Seq<char> {
    match b {
        MouseButton::Left => "left"@,
        MouseButton::Right => "right"@,
        MouseButton::Middle => "middle"@,
        MouseButton::Unknown => "unknown"@,
    }
}

fn label(b: MouseButton) -> (s: String)
    ensures
        s@ == button_label(b),
{
    match b {
        MouseButton::Left => String::from_str("left"),
        MouseButton::Right => String::from_str("right"),
        MouseButton::Middle => String::from_str("middle"),
        MouseButton::Unknown => String::from_str("unknown"),
    }
}

/// The message the listener forwards for a pointer event at `now_ms`: a move is
/// `(x, y, "move", None, now)`, a press `(x, y, "click", Some(label), now)`; other
/// events are not forwarded.
pub fn input_message(ev: PointerEvent, now_ms: u64) -> (m: Option<InputMsg>)
    ensures
        match ev {
            PointerEvent::Moved(x, y) => {
                &&& m is Some
                &&& m.unwrap().0 == x && m.unwrap().1 == y && m.unwrap().4 == now_ms
                &&& m.unwrap().2@ == "move"@
                &&& m.unwrap().3 is None
            },
            PointerEvent::Pressed(x, y, b) => {
                &&& m is Some
                &&& m.unwrap().0 == x && m.unwrap().1 == y && m.unwrap().4 == now_ms
                &&& m.unwrap().2@ == "click"@
                &&& m.unwrap().3 is Some
                &&& m.unwrap().3.unwrap()@ == button_label(b)
            },
            PointerEvent::Other => m is None,
        },
{
    match ev {
        PointerEvent::Moved(x, y) => Some((x, y, String::from_str("move"), None, now_ms)),
        PointerEvent::Pressed(x, y, b) => Some((x, y, String::from_str("click"), Some(label(b)), now_ms)),
        PointerEvent::Other => None,
    }
}

/// The messages the listener has forwarded and the recorder has not taken yet,
/// oldest first.
pub struct InputQueue {
    pending: Vec<InputMsg>,
}

impl View for InputQueue {
    type V = Seq<InputMsg>;

    closed spec fn view(&self) -> Seq<InputMsg> {
        self.pending@
    }
}

/// Every queued point can be shifted into the source without overflow.
pub open spec fn all_fit(msgs: Seq<InputMsg>, rect: [i64; 4]) -> bool {
    forall|i: int| 0 <= i < msgs.len() ==> point_fits(rect, #[trigger] msgs[i].0, msgs[i].1)
}

impl InputQueue {
    pub fn new() -> (q: Self)
        ensures
            q@ == Seq::<InputMsg>::empty(),
    {
        InputQueue { pending: Vec::new() }
    }

    /// Queues a message behind those already waiting.
    pub fn push(&mut self, m: InputMsg)
        ensures
            final(self)@ == old(self)@.push(m),
    {
        self.pending.push(m);
    }

    /// Discards every waiting message.
    pub fn clear(&mut self)
        ensures
            final(self)@ == Seq::<InputMsg>::empty(),
    {
        self.pending = Vec::new();
    }

    /// Forwards every waiting message to the recorder, oldest first, exactly as
    /// calling `ingest` on each in turn would, and leaves the queue empty.
    pub fn drain(&mut self, rec: &mut InputRecorder)
        requires
            all_fit(old(self)@, old(rec)@.rect),
        ensures
            final(self)@ == Seq::<InputMsg>::empty(),
            final(rec)@.rect == old(rec)@.rect,
            final(rec)@.start_ms == old(rec)@.start_ms,
            final(rec)@.events == ingest_seq(old(rec)@.events, old(rec)@.rect, old(rec)@.start_ms, old(self)@),
    {
        let mut msgs: Vec<InputMsg> = Vec::new();
        std::mem::swap(&mut msgs, &mut self.pending);
        rec.ingest_all(msgs);
    }
}

/// Draining forwards each queued message once, in order: the recorder gains exactly
/// the events of the messages whose point lies inside the source, in queue order.
/// The queue is empty afterwards, so a second drain right after leaves the recorder
/// as it is.
pub proof fn lemma_drain(events: Seq<EventView>, rect: [i64; 4], start_ms: u64, queued: Seq<InputMsg>)
    ensures
        ingest_seq(events, rect, start_ms, queued)
            == events + queued.filter_map(|m: InputMsg| recorded_of(rect, start_ms, m)),
        ingest_seq(ingest_seq(events, rect, start_ms, queued), rect, start_ms, Seq::<InputMsg>::empty())
            == ingest_seq(events, rect, start_ms, queued),
{
    lemma_ingest_list(events, rect, start_ms, queued);
}

} // verus!
