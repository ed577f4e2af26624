use vstd::prelude::*;

use crate::paths::{path_with_extension, plain_file_path, replaced_extension, with_extension};

verus! {

/// The zoom model stored next to a video: `REC-123.mp4` -> `REC-123.zoom.json`.
pub fn zoom_path(video_path: &str) -> (p: String)
    ensures
        p@ == path_with_extension(video_path@, "zoom.json"@),
        plain_file_path(video_path@) ==> p@ == replaced_extension(video_path@, "zoom.json"@),
{
    proof {
        reveal_strlit("zoom.json");
    }
    with_extension(video_path, "zoom.json")
}

/// The webcam track recorded next to a video: `REC-1.mp4` -> `REC-1.webcam.mp4`.
pub fn webcam_path(video_path: &str) -> (p: String)
    ensures
        p@ == path_with_extension(video_path@, "webcam.mp4"@),
        plain_file_path(video_path@) ==> p@ == replaced_extension(video_path@, "webcam.mp4"@),
{
    proof {
        reveal_strlit("webcam.mp4");
    }
    with_extension(video_path, "webcam.mp4")
}

} // verus!
