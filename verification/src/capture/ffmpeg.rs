use vstd::prelude::*;

use crate::text::{decimal, decimal_text};

verus! {

/// The texts of an argument list.
pub open spec fn texts(v: Seq<String>) -> Seq<Seq<char>> {
    v.map_values(|s: String| s@)
}

fn push_arg(args: &mut Vec<String>, a: &str)
    ensures
        texts(final(args)@) == texts(old(args)@).push(a@),
{
    args.push(String::from_str(a));
    assert(texts(args@) =~= texts(old(args)@).push(a@));
}

/// `<width>x<height>`, as ffmpeg's `-s` option takes a frame size.
pub open spec fn size_text(width: u32, height: u32) -> Seq<char> {
    decimal_text(width as nat) + "x"@ + decimal_text(height as nat)
}

fn size_arg(width: u32, height: u32) -> (s: String)
    ensures
        s@ == size_text(width, height),
{
    let mut s = decimal(width as u64);
    s.append("x");
    s.append(decimal(height as u64).as_str());
    s
}

/// The places where an ffmpeg executable is looked for, in order: Apple Silicon
/// Homebrew, Intel Homebrew, MacPorts, the system, `/bin`.
pub open spec fn ffmpeg_candidate(i: int) -> &'static str {
    if i == 0 {
        "/opt/homebrew/bin/ffmpeg"
    } else if i == 1 {
        "/usr/local/bin/ffmpeg"
    } else if i == 2 {
        "/opt/local/bin/ffmpeg"
    } else if i == 3 {
        "/usr/bin/ffmpeg"
    } else {
        "/bin/ffmpeg"
    }
}

/// `probe` may answer `answer` when asked about candidate `i`.
pub open spec fn probed<F: Fn(&str) -> bool>(probe: F, i: int, answer: bool) -> bool {
    probe.ensures((ffmpeg_candidate(i),), answer)
}

/// `path` is what probing the candidates in order gives: the first candidate the
/// probe found, every earlier one having been probed and not found; or the bare
/// name "ffmpeg" (left to the PATH lookup) when all five were probed and none found.
pub open spec fn first_found<F: Fn(&str) -> bool>(probe: F, path: Seq<char>) -> bool {
    ||| exists|i: int|
        0 <= i < 5 && path == (#[trigger] ffmpeg_candidate(i))@ && probed(probe, i, true)
            && forall|j: int| 0 <= j < i ==> probed(probe, j, false)
    ||| path == "ffmpeg"@ && forall|j: int| 0 <= j < 5 ==> probed(probe, j, false)
}

/// Probes the ffmpeg install locations in order with `probe` and takes the first
/// one found; the bare name "ffmpeg" when none is.
pub fn first_ffmpeg<F: Fn(&str) -> bool>(probe: &F) -> (path: String)
    requires
        forall|s: &str| #[trigger] probe.requires((s,)),
    ensures
        first_found(*probe, path@),
{
    let c0 = "/opt/homebrew/bin/ffmpeg";
    let c1 = "/usr/local/bin/ffmpeg";
    let c2 = "/opt/local/bin/ffmpeg";
    let c3 = "/usr/bin/ffmpeg";
    let c4 = "/bin/ffmpeg";
    assert(c0 == ffmpeg_candidate(0) && c1 == ffmpeg_candidate(1) && c2 == ffmpeg_candidate(2));
    assert(c3 == ffmpeg_candidate(3) && c4 == ffmpeg_candidate(4));
    if probe(c0) {
        return String::from_str(c0);
    }
    if probe(c1) {
        return String::from_str(c1);
    }
    if probe(c2) {
        return String::from_str(c2);
    }
    if probe(c3) {
        return String::from_str(c3);
    }
    if probe(c4) {
        return String::from_str(c4);
    }
    String::from_str("ffmpeg")
}

/// Whether a file exists at `path`, as `std::path::Path::exists` reports it.
/// Nothing is stated of the answer: it depends on the file system at the time of
/// the call.
#[verifier::external_body]
fn path_exists(path: &str) -> (b: bool) {
    std::path::Path::new(path).exists()
}

/// `path` is what probing the ffmpeg install locations in order on the file system
/// gives, each probe answered by `Path::exists` at the time of the call.
pub closed spec fn found_on_disk(path: Seq<char>) -> bool {
    first_found(path_exists, path)
}

/// What the disk lookup can give: one of the five install locations, or the bare
/// name "ffmpeg".
pub proof fn lemma_found_on_disk(path: Seq<char>)
    requires
        found_on_disk(path),
    ensures
        (exists|i: int| 0 <= i < 5 && path == (#[trigger] ffmpeg_candidate(i))@) || path == "ffmpeg"@,
{
}

/// Resolves the ffmpeg executable. An app launched from the Finder does not inherit
/// the shell's PATH, so the usual absolute install locations are probed first, in
/// order, and the first that exists is used; otherwise the bare name "ffmpeg" is
/// left to the PATH lookup.
pub fn ffmpeg_binary() -> (path: String)
    ensures
        found_on_disk(path@),
{
    first_ffmpeg(&path_exists)
}

/// The ffprobe executable beside an ffmpeg executable: its final "ffmpeg" replaced
/// by "ffprobe", or the bare name "ffprobe" when it does not end in "ffmpeg".
pub open spec fn ffprobe_beside(ffmpeg: Seq<char>) -> Seq<char> {
    if ffmpeg.len() >= 6 && ffmpeg.skip(ffmpeg.len() - 6) == "ffmpeg"@ {
        ffmpeg.take(ffmpeg.len() - 6) + "ffprobe"@
    } else {
        "ffprobe"@
    }
}

/// Names the ffprobe executable that sits beside `ffmpeg`.
pub fn ffprobe_for(ffmpeg: &str) -> (p: String)
    ensures
        p@ == ffprobe_beside(ffmpeg@),
{
    proof {
        reveal_strlit("ffmpeg");
    }
    let n = ffmpeg.unicode_len();
    if n >= 6 {
        let tail = ffmpeg.substring_char(n - 6, n);
        assert(ffmpeg@.subrange(n - 6, n as int) =~= ffmpeg@.skip(n - 6));
        if String::from_str(tail) == String::from_str("ffmpeg") {
            let mut p = String::from_str(ffmpeg.substring_char(0, n - 6));
            assert(ffmpeg@.subrange(0, n - 6) =~= ffmpeg@.take(n - 6));
            p.append("ffprobe");
            return p;
        }
    }
    String::from_str("ffprobe")
}

/// Resolves the ffprobe executable: the one beside the resolved ffmpeg.
pub fn ffprobe_binary() -> (p: String)
    ensures
        exists|ffmpeg: Seq<char>| found_on_disk(ffmpeg) && p@ == ffprobe_beside(ffmpeg),
{
    let ffmpeg = ffmpeg_binary();
    ffprobe_for(ffmpeg.as_str())
}

/// What `ffmpeg -version` told of the installation: `None` when ffmpeg could not be
/// run at all, otherwise whether it exited successfully.
pub open spec fn version_verdict(outcome: Option<bool>) -> Result<(), Seq<char>> {
    match outcome {
        Some(true) => Ok(()),
        Some(false) => Err("ffmpeg encontrado mas retornou erro ao executar -version"@),
        None => Err("ffmpeg não encontrado. Instale o ffmpeg (ex.: brew install ffmpeg) para gravar."@),
    }
}

/// Turns the outcome of running `ffmpeg -version` into the check's answer.
pub fn ffmpeg_check(outcome: Option<bool>) -> (res: Result<(), String>)
    ensures
        match (res, version_verdict(outcome)) {
            (Ok(()), Ok(())) => true,
            (Err(e), Err(m)) => e@ == m,
            _ => false,
        },
{
    match outcome {
        Some(true) => Ok(()),
        Some(false) => Err(String::from_str("ffmpeg encontrado mas retornou erro ao executar -version")),
        None => Err(String::from_str("ffmpeg não encontrado. Instale o ffmpeg (ex.: brew install ffmpeg) para gravar.")),
    }
}

/// The ffmpeg arguments that encode raw frames of `pix_fmt` read from stdin to H.264.
pub open spec fn raw_encode_spec(pix_fmt: Seq<char>, width: u32, height: u32, fps: u32, out_path: Seq<char>) -> Seq<Seq<char>> {
    seq![
        "-y"@,
        "-f"@, "rawvideo"@,
        "-pix_fmt"@, pix_fmt,
        "-s"@, size_text(width, height),
        "-r"@, decimal_text(fps as nat),
        "-i"@, "-"@,
        "-c:v"@, "libx264"@,
        "-preset"@, "ultrafast"@,
        "-pix_fmt"@, "yuv420p"@,
        out_path,
    ]
}

fn raw_encode_args(pix_fmt: &str, width: u32, height: u32, fps: u32, out_path: &str) -> (args: Vec<String>)
    ensures
        texts(args@) == raw_encode_spec(pix_fmt@, width, height, fps, out_path@),
{
    let mut a: Vec<String> = Vec::new();
    push_arg(&mut a, "-y");
    push_arg(&mut a, "-f");
    push_arg(&mut a, "rawvideo");
    push_arg(&mut a, "-pix_fmt");
    push_arg(&mut a, pix_fmt);
    push_arg(&mut a, "-s");
    let size = size_arg(width, height);
    push_arg(&mut a, size.as_str());
    push_arg(&mut a, "-r");
    let rate = decimal(fps as u64);
    push_arg(&mut a, rate.as_str());
    push_arg(&mut a, "-i");
    push_arg(&mut a, "-");
    push_arg(&mut a, "-c:v");
    push_arg(&mut a, "libx264");
    push_arg(&mut a, "-preset");
    push_arg(&mut a, "ultrafast");
    push_arg(&mut a, "-pix_fmt");
    push_arg(&mut a, "yuv420p");
    push_arg(&mut a, out_path);
    assert(texts(a@) =~= raw_encode_spec(pix_fmt@, width, height, fps, out_path@));
    a
}

/// Arguments that encode raw BGRA frames read from stdin into an H.264 mp4.
pub fn encode_args(width: u32, height: u32, fps: u32, out_path: &str) -> (args: Vec<String>)
    ensures
        texts(args@) == raw_encode_spec("bgra"@, width, height, fps, out_path@),
{
    raw_encode_args("bgra", width, height, fps, out_path)
}

/// Arguments that encode raw RGB24 webcam frames read from stdin into an H.264 mp4.
pub fn webcam_encode_args(width: u32, height: u32, fps: u32, out_path: &str) -> (args: Vec<String>)
    ensures
        texts(args@) == raw_encode_spec("rgb24"@, width, height, fps, out_path@),
{
    raw_encode_args("rgb24", width, height, fps, out_path)
}

pub open spec fn mux_spec(video_path: Seq<char>, audio_path: Seq<char>, out_path: Seq<char>) -> Seq<Seq<char>> {
    seq![
        "-y"@,
        "-i"@, video_path,
        "-i"@, audio_path,
        "-c:v"@, "copy"@,
        "-c:a"@, "aac"@,
        out_path,
    ]
}

/// Arguments that mux a video and an audio file without re-encoding the video.
pub fn mux_args(video_path: &str, audio_path: &str, out_path: &str) -> (args: Vec<String>)
    ensures
        texts(args@) == mux_spec(video_path@, audio_path@, out_path@),
{
    let mut a: Vec<String> = Vec::new();
    push_arg(&mut a, "-y");
    push_arg(&mut a, "-i");
    push_arg(&mut a, video_path);
    push_arg(&mut a, "-i");
    push_arg(&mut a, audio_path);
    push_arg(&mut a, "-c:v");
    push_arg(&mut a, "copy");
    push_arg(&mut a, "-c:a");
    push_arg(&mut a, "aac");
    push_arg(&mut a, out_path);
    assert(texts(a@) =~= mux_spec(video_path@, audio_path@, out_path@));
    a
}

} // verus!
