use open_recorder::capture::ffmpeg::{
    encode_args, ffmpeg_binary, ffmpeg_check, ffprobe_binary, ffprobe_for, first_ffmpeg, mux_args, webcam_encode_args,
};
use open_recorder::capture::finalizer::build_metadata;
use open_recorder::capture::input::{input_message, InputQueue, MouseButton, PointerEvent};
use open_recorder::capture::input_recorder::InputRecorder;
use open_recorder::capture::source_enum::{
    collect_windows, display_option, portable_windows, to_capture_source, SourceOption, WindowRecord,
};
use open_recorder::model::metadata::{InputEvent, RecordingInfo, SourceInfo};
use open_recorder::model::source::{CaptureSource, SourceKind};

#[test]
fn encode_args_have_rawvideo_input_and_size() {
    let a = encode_args(1920, 1080, 30, "/tmp/v.mp4");
    assert!(a.windows(2).any(|w| w[0] == "-f" && w[1] == "rawvideo"), "{a:?}");
    assert!(a.windows(2).any(|w| w[0] == "-pix_fmt" && w[1] == "bgra"), "{a:?}");
    assert!(a.windows(2).any(|w| w[0] == "-s" && w[1] == "1920x1080"), "{a:?}");
    assert!(a.windows(2).any(|w| w[0] == "-r" && w[1] == "30"), "{a:?}");
    assert!(a.windows(2).any(|w| w[0] == "-i" && w[1] == "-"), "{a:?}");
    assert_eq!(a.last().unwrap(), "/tmp/v.mp4");
}

#[test]
fn mux_args_have_two_inputs_and_output() {
    let a = mux_args("/tmp/v.mp4", "/tmp/a.wav", "/tmp/out.mp4");
    let inputs: Vec<_> = a.windows(2).filter(|w| w[0] == "-i").map(|w| w[1].clone()).collect();
    assert_eq!(inputs, vec!["/tmp/v.mp4", "/tmp/a.wav"]);
    assert_eq!(a.last().unwrap(), "/tmp/out.mp4");
}

#[test]
fn encode_args_exact_list() {
    let a = encode_args(640, 480, 60, "out.mp4");
    assert_eq!(
        a,
        vec![
            "-y", "-f", "rawvideo", "-pix_fmt", "bgra", "-s", "640x480", "-r", "60", "-i", "-",
            "-c:v", "libx264", "-preset", "ultrafast", "-pix_fmt", "yuv420p", "out.mp4",
        ]
    );
}

#[test]
fn webcam_args_use_rgb24() {
    let a = webcam_encode_args(1280, 720, 30, "/tmp/REC-1.webcam.mp4");
    assert_eq!(a[4], "rgb24");
    assert_eq!(a[6], "1280x720");
    assert_eq!(a[8], "30");
    assert_eq!(a.len(), 18);
    assert_eq!(a.last().unwrap(), "/tmp/REC-1.webcam.mp4");
}

#[test]
fn ffmpeg_check_outcomes() {
    assert_eq!(ffmpeg_check(Some(true)), Ok(()));
    let e = ffmpeg_check(Some(false)).unwrap_err();
    assert!(e.to_lowercase().contains("ffmpeg"), "{e}");
    assert!(e.contains("-version"));
    let e = ffmpeg_check(None).unwrap_err();
    assert!(e.contains("brew install ffmpeg"), "{e}");
}

#[test]
fn builds_metadata_from_source() {
    let src = CaptureSource { kind: SourceKind::Display, id: "1".into(), rect: [0, 0, 1920, 1080] };
    let meta = build_metadata(&src, 30, 5000, vec![]);
    assert_eq!(meta.version, 1);
    assert_eq!(meta.recording, RecordingInfo { width: 1920, height: 1080, fps: 30, duration_ms: 5000 });
    assert_eq!(meta.source, SourceInfo { kind: "display".into(), id: "1".into(), rect: [0, 0, 1920, 1080] });
}

#[test]
fn metadata_keeps_events_and_window_kind() {
    let src = CaptureSource { kind: SourceKind::Window, id: "7".into(), rect: [5, 6, 100, 200] };
    let ev = InputEvent { t_ms: 10, kind: "click".into(), x: 1, y: 2, button: Some("left".into()) };
    let meta = build_metadata(&src, 60, 1234, vec![ev.clone()]);
    assert_eq!(meta.source.kind, "window");
    assert_eq!(meta.recording.width, 100);
    assert_eq!(meta.recording.height, 200);
    assert_eq!(meta.events, vec![ev]);
}

#[test]
fn ingest_stores_mapped_event_with_relative_time() {
    let mut rec = InputRecorder::new([100, 50, 800, 600], 1000);
    rec.ingest(150, 90, "click", Some("left".into()), 1200);
    let ev = rec.take_events();
    assert_eq!(ev.len(), 1);
    assert_eq!(ev[0].t_ms, 200);
    assert_eq!((ev[0].x, ev[0].y), (50, 40));
    assert_eq!(ev[0].kind, "click");
    assert_eq!(ev[0].button.as_deref(), Some("left"));
}

#[test]
fn ingest_drops_events_outside_source() {
    let mut rec = InputRecorder::new([0, 0, 100, 100], 0);
    rec.ingest(500, 500, "move", None, 50);
    assert_eq!(rec.take_events().len(), 0);
}

#[test]
fn ingest_time_saturates_before_start() {
    let mut rec = InputRecorder::new([0, 0, 100, 100], 1000);
    rec.ingest(10, 10, "move", None, 400);
    let ev = rec.take_events();
    assert_eq!(ev[0].t_ms, 0);
}

#[test]
fn ingest_all_matches_one_by_one() {
    let msgs = vec![
        (10, 10, "move".to_string(), None, 5),
        (500, 500, "move".to_string(), None, 6),
        (20, 30, "click".to_string(), Some("right".to_string()), 7),
    ];
    let mut batch = InputRecorder::new([0, 0, 100, 100], 2);
    batch.ingest_all(msgs.clone());
    let mut single = InputRecorder::new([0, 0, 100, 100], 2);
    for (x, y, k, b, t) in msgs {
        single.ingest(x, y, &k, b, t);
    }
    let a = batch.take_events();
    assert_eq!(a, single.take_events());
    assert_eq!(a.len(), 2);
    assert_eq!(a[1].t_ms, 5);
    assert_eq!(a[1].button.as_deref(), Some("right"));
}

#[test]
fn to_capture_source_maps_kinds() {
    let mk = |k: &str| SourceOption { id: "9".into(), name: "n".into(), kind: k.into(), rect: [1, 2, 3, 4] };
    assert_eq!(to_capture_source(&mk("window")).kind, SourceKind::Window);
    assert_eq!(to_capture_source(&mk("region")).kind, SourceKind::Region);
    assert_eq!(to_capture_source(&mk("display")).kind, SourceKind::Display);
    assert_eq!(to_capture_source(&mk("other")).kind, SourceKind::Display);
    let cs = to_capture_source(&mk("window"));
    assert_eq!(cs.id, "9");
    assert_eq!(cs.rect, [1, 2, 3, 4]);
}

#[test]
fn display_option_label() {
    let o = display_option(2, -1920, 0, 1920, 1080);
    assert_eq!(o.id, "2");
    assert_eq!(o.name, "Display 2 (1920x1080)");
    assert_eq!(o.kind, "display");
    assert_eq!(o.rect, [-1920, 0, 1920, 1080]);
}

fn rec(layer: Option<i32>, number: Option<i32>, owner: Option<&str>, title: Option<&str>, bounds: Option<[i64; 4]>) -> WindowRecord {
    WindowRecord {
        layer,
        number,
        owner: owner.map(|s| s.to_string()),
        title: title.map(|s| s.to_string()),
        bounds,
    }
}

#[test]
fn collect_windows_filters_and_labels() {
    let records = vec![
        rec(Some(0), Some(42), Some("Finder"), Some("Downloads"), Some([0, 0, 800, 600])),
        rec(Some(25), Some(43), Some("Dock"), None, Some([0, 0, 800, 600])),
        rec(None, Some(44), Some("NoLayer"), None, Some([0, 0, 800, 600])),
        rec(Some(0), None, Some("NoId"), None, Some([0, 0, 800, 600])),
        rec(Some(0), Some(45), None, Some("untitled"), Some([0, 0, 800, 600])),
        rec(Some(0), Some(46), Some("Tiny"), None, Some([0, 0, 39, 600])),
        rec(Some(0), Some(47), Some("NoBounds"), None, None),
        rec(Some(0), Some(48), Some("Terminal"), Some(""), Some([10, 20, 40, 40])),
    ];
    let out = collect_windows(&records);
    assert_eq!(out.len(), 2);
    assert_eq!(out[0].id, "42");
    assert_eq!(out[0].name, "Finder \u{2014} Downloads");
    assert_eq!(out[0].kind, "window");
    assert_eq!(out[1].id, "48");
    assert_eq!(out[1].name, "Terminal");
    assert_eq!(out[1].rect, [10, 20, 40, 40]);
}

#[test]
fn portable_windows_need_permission() {
    let ws = vec![(7u32, "Editor".to_string())];
    assert_eq!(portable_windows(false, &ws).unwrap_err(), "Screen recording permission not granted");
    let out = portable_windows(true, &ws).unwrap();
    assert_eq!(out.len(), 1);
    assert_eq!(out[0].id, "7");
    assert_eq!(out[0].name, "Editor");
    assert_eq!(out[0].rect, [0, 0, 0, 0]);
}

#[test]
fn ingest_calls_keep_inside_events_in_order() {
    let mut rec = InputRecorder::new([10, 20, 100, 100], 1000);
    rec.ingest(15, 25, "move", None, 1010);
    rec.ingest(5, 25, "move", None, 1020);
    rec.ingest(110, 120, "click", Some("left".into()), 1030);
    rec.ingest(111, 25, "move", None, 1040);
    rec.ingest(60, 70, "click", Some("right".into()), 900);
    let ev = rec.take_events();
    let got: Vec<(u64, &str, i64, i64, Option<&str>)> =
        ev.iter().map(|e| (e.t_ms, e.kind.as_str(), e.x, e.y, e.button.as_deref())).collect();
    assert_eq!(
        got,
        vec![
            (10, "move", 5, 5, None),
            (30, "click", 100, 100, Some("left")),
            (0, "click", 50, 50, Some("right")),
        ]
    );
}

#[test]
fn first_ffmpeg_takes_first_found_in_order() {
    assert_eq!(first_ffmpeg(&|p: &str| p == "/usr/bin/ffmpeg" || p == "/bin/ffmpeg"), "/usr/bin/ffmpeg");
    assert_eq!(first_ffmpeg(&|_: &str| true), "/opt/homebrew/bin/ffmpeg");
    assert_eq!(first_ffmpeg(&|p: &str| p == "/usr/local/bin/ffmpeg"), "/usr/local/bin/ffmpeg");
    assert_eq!(first_ffmpeg(&|_: &str| false), "ffmpeg");
}

#[test]
fn ffmpeg_binary_is_a_candidate_or_bare_name() {
    let p = ffmpeg_binary();
    let known = ["/opt/homebrew/bin/ffmpeg", "/usr/local/bin/ffmpeg", "/opt/local/bin/ffmpeg", "/usr/bin/ffmpeg", "/bin/ffmpeg", "ffmpeg"];
    assert!(known.contains(&p.as_str()), "{p}");
    if p != "ffmpeg" {
        assert!(std::path::Path::new(&p).exists(), "{p}");
    }
    assert_eq!(ffprobe_binary(), ffprobe_for(&p));
}

#[test]
fn ffprobe_sits_beside_ffmpeg() {
    assert_eq!(ffprobe_for("/opt/homebrew/bin/ffmpeg"), "/opt/homebrew/bin/ffprobe");
    assert_eq!(ffprobe_for("/usr/bin/ffmpeg"), "/usr/bin/ffprobe");
    assert_eq!(ffprobe_for("ffmpeg"), "ffprobe");
    assert_eq!(ffprobe_for("/usr/bin/avconv"), "ffprobe");
    assert_eq!(ffprobe_for("mpeg"), "ffprobe");
}

#[test]
fn pointer_events_become_messages() {
    assert_eq!(input_message(PointerEvent::Moved(3, -4), 77), Some((3, -4, "move".to_string(), None, 77)));
    assert_eq!(
        input_message(PointerEvent::Pressed(5, 6, MouseButton::Right), 8),
        Some((5, 6, "click".to_string(), Some("right".to_string()), 8))
    );
    assert_eq!(
        input_message(PointerEvent::Pressed(0, 0, MouseButton::Unknown), 1),
        Some((0, 0, "click".to_string(), Some("unknown".to_string()), 1))
    );
    assert_eq!(
        input_message(PointerEvent::Pressed(1, 2, MouseButton::Middle), 1).unwrap().3.as_deref(),
        Some("middle")
    );
    assert_eq!(input_message(PointerEvent::Pressed(1, 2, MouseButton::Left), 1).unwrap().3.as_deref(), Some("left"));
    assert_eq!(input_message(PointerEvent::Other, 9), None);
}

#[test]
fn drain_forwards_queue_once_in_order() {
    let mut q = InputQueue::new();
    q.push((10, 10, "move".to_string(), None, 5));
    q.push((500, 500, "move".to_string(), None, 6));
    q.push((20, 30, "click".to_string(), Some("left".to_string()), 7));
    let mut rec = InputRecorder::new([0, 0, 100, 100], 2);
    q.drain(&mut rec);
    q.drain(&mut rec);
    let ev = rec.take_events();
    let got: Vec<(u64, &str, i64, i64)> = ev.iter().map(|e| (e.t_ms, e.kind.as_str(), e.x, e.y)).collect();
    assert_eq!(got, vec![(3, "move", 10, 10), (5, "click", 20, 30)]);
}

#[test]
fn cleared_queue_forwards_nothing() {
    let mut q = InputQueue::new();
    q.push((10, 10, "move".to_string(), None, 5));
    q.clear();
    let mut rec = InputRecorder::new([0, 0, 100, 100], 0);
    q.drain(&mut rec);
    assert!(rec.take_events().is_empty());
}
