use vstd::prelude::*;

use crate::capture::source_enum::SourceOption;
use crate::paths::{path_with_extension, plain_file_path, replaced_extension, with_extension};

verus! {

/// The metadata file written next to a video: `REC-1.mp4` -> `REC-1.metadata.json`.
pub fn metadata_path(video_path: &str) -> (p: String)
    ensures
        p@ == path_with_extension(video_path@, "metadata.json"@),
        plain_file_path(video_path@) ==> p@ == replaced_extension(video_path@, "metadata.json"@),
{
    proof {
        reveal_strlit("metadata.json");
    }
    with_extension(video_path, "metadata.json")
}


/// The sources offered to the frontend.
#[derive(Debug, Clone, PartialEq)]
pub struct SourcesPayload {
    pub displays: Vec<SourceOption>,
    pub windows: Vec<SourceOption>,
}

/// A microphone offered to the frontend.
#[derive(Debug, Clone, PartialEq)]
pub struct MicOption {
    pub id: String,
    pub name: String,
}

/// A camera offered to the frontend.
#[derive(Debug, Clone, PartialEq)]
pub struct CameraOption {
    pub id: String,
    pub name: String,
}

/// Assembles the sources offered to the frontend: failing to list displays fails
/// the whole listing, while failing to list windows only leaves the window list empty.
pub fn sources_payload(
    displays: Result<Vec<SourceOption>, String>,
    windows: Result<Vec<SourceOption>, String>,
) -> (res: Result<SourcesPayload, String>)
    ensures
        match (displays, res) {
            (Err(e), Err(r)) => r == e,
            (Ok(d), Ok(p)) => p.displays == d && match windows {
                Ok(w) => p.windows == w,
                Err(_) => p.windows@.len() == 0,
            },
            _ => false,
        },
{
    let displays = match displays {
        Ok(d) => d,
        Err(e) => return Err(e),
    };
    let windows = match windows {
        Ok(w) => w,
        Err(_) => Vec::new(),
    };
    Ok(SourcesPayload { displays, windows })
}

/// The microphones offered to the frontend, one per `(id, name)` pair, in order.
pub fn mic_options(devices: Vec<(String, String)>) -> (opts: Vec<MicOption>)
    ensures
        opts@.len() == devices@.len(),
        forall|i: int| 0 <= i < opts@.len() ==> #[trigger] opts@[i].id == devices@[i].0 && opts@[i].name == devices@[i].1,
{
    let mut opts: Vec<MicOption> = Vec::new();
    let mut i: usize = 0;
    while i < devices.len()
        invariant
            i <= devices@.len(),
            opts@.len() == i,
            forall|j: int| 0 <= j < i ==> #[trigger] opts@[j].id == devices@[j].0 && opts@[j].name == devices@[j].1,
        decreases devices@.len() - i,
    {
        opts.push(MicOption { id: devices[i].0.clone(), name: devices[i].1.clone() });
        i = i + 1;
    }
    opts
}

/// The cameras offered to the frontend, one per `(id, name)` pair, in order.
pub fn camera_options(devices: Vec<(String, String)>) -> (opts: Vec<CameraOption>)
    ensures
        opts@.len() == devices@.len(),
        forall|i: int| 0 <= i < opts@.len() ==> #[trigger] opts@[i].id == devices@[i].0 && opts@[i].name == devices@[i].1,
{
    let mut opts: Vec<CameraOption> = Vec::new();
    let mut i: usize = 0;
    while i < devices.len()
        invariant
            i <= devices@.len(),
            opts@.len() == i,
            forall|j: int| 0 <= j < i ==> #[trigger] opts@[j].id == devices@[j].0 && opts@[j].name == devices@[j].1,
        decreases devices@.len() - i,
    {
        opts.push(CameraOption { id: devices[i].0.clone(), name: devices[i].1.clone() });
        i = i + 1;
    }
    opts
}

} // verus!
