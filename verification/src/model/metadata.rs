use vstd::prelude::*;

verus! {

/// Top-level metadata written next to every recording.
#[derive(Debug, Clone, PartialEq)]
pub struct RecordingMetadata {
    pub version: u32,
    pub recording: RecordingInfo,
    pub source: SourceInfo,
    pub events: Vec<InputEvent>,
}

/// Encoding parameters of a recording.
#[derive(Debug, Clone, Copy, PartialEq, Eq, Structural)]
pub struct RecordingInfo {
    pub width: u32,
    pub height: u32,
    pub fps: u32,
    pub duration_ms: u64,
}

/// The captured source, as recorded in the metadata (`kind` is "display", "window" or "region").
#[derive(Debug, Clone, PartialEq)]
pub struct SourceInfo {
    pub kind: String,
    pub id: String,
    pub rect: [i64; 4],
}

/// One mouse event, with time relative to the start of the recording and
/// coordinates relative to the top-left corner of the source.
#[derive(Debug, Clone, PartialEq)]
pub struct InputEvent {
    pub t_ms: u64,
    pub kind: String,
    pub x: i64,
    pub y: i64,
    pub button: Option<String>,
}


/// The mathematical view of an [`InputEvent`].
pub struct EventView {
    pub t_ms: u64,
    pub kind: Seq<char>,
    pub x: i64,
    pub y: i64,
    pub button: Option<Seq<char>>,
}

pub open spec fn opt_text(o: Option<String>) -> Option<Seq<char>> {
    match o {
        Some(s) => Some(s@),
        None => None,
    }
}

impl View for InputEvent {
    type V = EventView;

    open spec fn view(&self) -> EventView {
        EventView { t_ms: self.t_ms, kind: self.kind@, x: self.x, y: self.y, button: opt_text(self.button) }
    }
}

/// The views of a sequence of events.
pub open spec fn event_views(events: Seq<InputEvent>) -> Seq<EventView> {
    events.map_values(|e: InputEvent| e@)
}

} // verus!
