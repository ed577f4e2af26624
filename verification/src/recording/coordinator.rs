use vstd::prelude::*;

verus! {

/// The names of a recording's video and metadata files for a timestamp.
pub fn make_filenames(timestamp: &str) -> (names: (String, String))
    ensures
        names.0@ == "REC-"@ + timestamp@ + ".mp4"@,
        names.1@ == "REC-"@ + timestamp@ + ".metadata.json"@,
{
    let mut video = String::from_str("REC-");
    video.append(timestamp);
    video.append(".mp4");
    let mut meta = String::from_str("REC-");
    meta.append(timestamp);
    meta.append(".metadata.json");
    (video, meta)
}

} // verus!
