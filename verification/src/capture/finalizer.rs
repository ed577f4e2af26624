use vstd::prelude::*;

use crate::model::metadata::{RecordingInfo, RecordingMetadata, SourceInfo, InputEvent};
use crate::model::source::{kind_name, CaptureSource};

verus! {

/// Builds the metadata of a finished recording: format version 1, the source's
/// width and height as the frame size, and the source described by kind name, id
/// and rectangle.
pub fn build_metadata(
    source: &CaptureSource,
    fps: u32,
    duration_ms: u64,
    events: Vec<InputEvent>,
) -> (meta: RecordingMetadata)
    ensures
        meta.version == 1,
        meta.recording == (RecordingInfo {
            width: source.rect[2] as u32,
            height: source.rect[3] as u32,
            fps,
            duration_ms,
        }),
        meta.source.kind@ == kind_name(source.kind),
        meta.source.id@ == source.id@,
        meta.source.rect == source.rect,
        meta.events == events,
{
    let x = source.rect[0];
    let y = source.rect[1];
    let w = source.rect[2];
    let h = source.rect[3];
    RecordingMetadata {
        version: 1,
        recording: RecordingInfo { width: w as u32, height: h as u32, fps, duration_ms },
        source: SourceInfo {
            kind: String::from_str(source.kind.as_str()),
            id: source.id.clone(),
            rect: [x, y, w, h],
        },
        events,
    }
}

} // verus!
