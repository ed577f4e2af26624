use open_recorder::model::metadata::InputEvent;
use open_recorder::zoom::export::{
    use_webcam,
    export_args, nested_if, overlay_filter_graph, pan_expr, probe_frame_size, progress_ms, zoompan_exprs,
    zoompan_filter, SegmentTexts,
};
use open_recorder::zoom::generate::{generate_plan, GenTiming, PlanTarget, ZoomPlan};
use open_recorder::zoom::timeline::{active_zoom, locate_target, Ramp, SegmentTiming, TargetSpot};

fn click(t: u64, x: i64, y: i64) -> InputEvent {
    InputEvent { t_ms: t, kind: "click".into(), x, y, button: Some("left".into()) }
}

fn normalized(plan: &ZoomPlan, t: &PlanTarget) -> (f64, f64) {
    (
        (t.x as f64 / plan.width as f64).clamp(0.0, 1.0),
        (t.y as f64 / plan.height as f64).clamp(0.0, 1.0),
    )
}

#[test]
fn single_click_one_segment() {
    let evs = vec![click(500, 250, 750)];
    let m = generate_plan(&evs, [0, 0, 1000, 1000], &GenTiming::default());
    assert_eq!(m.segments.len(), 1);
    let s = &m.segments[0];
    assert_eq!(s.start_ms, 500);
    assert_eq!(s.end_ms, 500 + 1500 + 400);
    assert_eq!(s.targets.len(), 1);
    let (x, y) = normalized(&m, &s.targets[0]);
    assert!((x - 0.25).abs() < 1e-9);
    assert!((y - 0.75).abs() < 1e-9);
}

#[test]
fn nearby_clicks_merge() {
    let evs = vec![click(500, 250, 750), click(1000, 500, 500)];
    let m = generate_plan(&evs, [0, 0, 1000, 1000], &GenTiming::default());
    assert_eq!(m.segments.len(), 1);
    let s = &m.segments[0];
    assert_eq!(s.start_ms, 500);
    assert_eq!(s.end_ms, 1000 + 1500 + 400);
    assert_eq!(s.targets.len(), 2);
}

#[test]
fn distant_clicks_separate() {
    let evs = vec![click(500, 250, 750), click(5000, 500, 500)];
    let m = generate_plan(&evs, [0, 0, 1000, 1000], &GenTiming::default());
    assert_eq!(m.segments.len(), 2);
}

#[test]
fn moves_ignored() {
    let mut evs = vec![InputEvent { t_ms: 100, kind: "move".into(), x: 1, y: 2, button: None }];
    evs.push(click(500, 250, 750));
    let m = generate_plan(&evs, [0, 0, 1000, 1000], &GenTiming::default());
    assert_eq!(m.segments.len(), 1);
    assert_eq!(m.segments[0].start_ms, 500);
}

#[test]
fn clicks_are_sorted_stably_before_grouping() {
    let evs = vec![click(3000, 1, 1), click(100, 2, 2), click(3000, 3, 3), click(200, 4, 4)];
    let opts = GenTiming { ease_in_ms: 10, hold_ms: 500, ease_out_ms: 100 };
    let m = generate_plan(&evs, [0, 0, 0, -5], &opts);
    assert_eq!((m.width, m.height), (1, 1));
    assert_eq!(m.segments.len(), 2);
    let first: Vec<(u64, i64)> = m.segments[0].targets.iter().map(|t| (t.t_ms, t.x)).collect();
    let second: Vec<(u64, i64)> = m.segments[1].targets.iter().map(|t| (t.t_ms, t.x)).collect();
    assert_eq!(first, vec![(100, 2), (200, 4)]);
    assert_eq!(second, vec![(3000, 1), (3000, 3)]);
    assert_eq!(m.segments[0].end_ms, 800);
    assert!(m.segments[0].end_ms < m.segments[1].start_ms);
    assert_eq!(m.segments[1].ease_in_ms, 10);
}

#[test]
fn merge_window_is_inclusive() {
    let evs = vec![click(0, 0, 0), click(1900, 0, 0), click(3801, 0, 0)];
    let m = generate_plan(&evs, [0, 0, 10, 10], &GenTiming::default());
    assert_eq!(m.segments.len(), 2);
    assert_eq!(m.segments[0].targets.len(), 2);
    assert_eq!(m.segments[0].end_ms, 3800);
    assert_eq!(m.segments[1].start_ms, 3801);
}

fn timing() -> Vec<SegmentTiming> {
    vec![SegmentTiming { start_ms: 0, end_ms: 2000, ease_in_ms: 300, ease_out_ms: 400 }]
}

#[test]
fn active_zoom_outside_is_none() {
    assert_eq!(active_zoom(&timing(), 2500), None);
    assert_eq!(active_zoom(&timing(), 2000), None);
}

#[test]
fn active_zoom_ramps() {
    let a = active_zoom(&timing(), 150).unwrap();
    assert_eq!((a.index, a.rel_ms, a.dur_ms, a.ramp), (0, 150, 2000, Ramp::EaseIn));
    assert_eq!(active_zoom(&timing(), 1000).unwrap().ramp, Ramp::Full);
    assert_eq!(active_zoom(&timing(), 1800).unwrap().ramp, Ramp::EaseOut);
    assert_eq!(active_zoom(&timing(), 1600).unwrap().ramp, Ramp::Full);
    let short = vec![SegmentTiming { start_ms: 100, end_ms: 400, ease_in_ms: 300, ease_out_ms: 400 }];
    assert_eq!(active_zoom(&short, 200).unwrap().ramp, Ramp::Overlap);
}

#[test]
fn active_zoom_takes_first_covering_segment() {
    let segs = vec![
        SegmentTiming { start_ms: 0, end_ms: 100, ease_in_ms: 0, ease_out_ms: 0 },
        SegmentTiming { start_ms: 50, end_ms: 300, ease_in_ms: 0, ease_out_ms: 0 },
        SegmentTiming { start_ms: 200, end_ms: 400, ease_in_ms: 0, ease_out_ms: 0 },
    ];
    assert_eq!(active_zoom(&segs, 60).unwrap().index, 0);
    assert_eq!(active_zoom(&segs, 250).unwrap().index, 1);
    assert_eq!(active_zoom(&segs, 350).unwrap().index, 2);
}

#[test]
fn locate_target_between_and_clamped() {
    assert_eq!(locate_target(&vec![500], 9), TargetSpot::At(0));
    let ts = vec![100, 300, 300, 700];
    assert_eq!(locate_target(&ts, 0), TargetSpot::Between { index: 0, offset_ms: 0, span_ms: 200 });
    assert_eq!(locate_target(&ts, 200), TargetSpot::Between { index: 0, offset_ms: 100, span_ms: 200 });
    assert_eq!(locate_target(&ts, 300), TargetSpot::Between { index: 0, offset_ms: 200, span_ms: 200 });
    assert_eq!(locate_target(&ts, 900), TargetSpot::Between { index: 2, offset_ms: 400, span_ms: 400 });
    assert_eq!(locate_target(&vec![5, 5], 5), TargetSpot::Between { index: 0, offset_ms: 0, span_ms: 1 });
}

struct Seg {
    start_ms: u64,
    end_ms: u64,
    ease_in_ms: u64,
    ease_out_ms: u64,
    scale: f64,
    targets: Vec<(f64, f64)>,
}

fn texts(segs: &[Seg]) -> Vec<SegmentTexts> {
    segs.iter()
        .map(|s| {
            let s0 = s.start_ms as f64 / 1000.0;
            let s1 = s.end_ms as f64 / 1000.0;
            SegmentTexts {
                start: format!("{s0}"),
                end: format!("{s1}"),
                ease_in: format!("{}", s.ease_in_ms as f64 / 1000.0),
                ease_out: format!("{}", s.ease_out_ms as f64 / 1000.0),
                dur: format!("{}", s1 - s0),
                scale: format!("{}", s.scale),
                targets: s.targets.iter().map(|(x, y)| (format!("{x}"), format!("{y}"))).collect(),
            }
        })
        .collect()
}

#[test]
fn builds_zoompan_expr_for_one_segment() {
    let segs = texts(&[Seg { start_ms: 0, end_ms: 2000, ease_in_ms: 300, ease_out_ms: 400, scale: 2.0, targets: vec![(0.25, 0.75)] }]);
    let (z, x, y) = zoompan_exprs(&segs, 30);
    assert!(z.contains("on/30"), "z should use on/30 for time: {z}");
    assert!(z.contains("2"), "z should contain scale 2: {z}");
    assert!(x.contains("iw"), "x should reference iw: {x}");
    assert!(y.contains("ih"), "y should reference ih: {y}");
    assert!(x.contains("0.5/zoom"), "x should clamp with 0.5/zoom: {x}");
    assert!(x.contains("1-0.5/zoom"), "x should clamp with 1-0.5/zoom: {x}");
    assert!(y.contains("0.5/zoom"), "y should clamp with 0.5/zoom: {y}");
    assert!(y.contains("1-0.5/zoom"), "y should clamp with 1-0.5/zoom: {y}");
    assert!(z.contains("1"), "z should fall back to 1: {z}");
}

#[test]
fn zoompan_expr_exact_text() {
    let segs = texts(&[Seg { start_ms: 0, end_ms: 2000, ease_in_ms: 300, ease_out_ms: 400, scale: 2.0, targets: vec![(0.25, 0.75)] }]);
    let (z, x, y) = zoompan_exprs(&segs, 30);
    assert_eq!(
        z,
        "if(between(on/30,0,2),1+(2-1)*if(lt(on/30-0,0.3),(min(1,max(0,(on/30-0)/0.3)))*(min(1,max(0,(on/30-0)/0.3)))*(3-2*(min(1,max(0,(on/30-0)/0.3)))),if(gt(on/30-0,2-0.4),(min(1,max(0,(2-on/30)/0.4)))*(min(1,max(0,(2-on/30)/0.4)))*(3-2*(min(1,max(0,(2-on/30)/0.4)))),1)),1)"
    );
    assert_eq!(x, "iw*max(0.5/zoom,min(if(between(on/30,0,2),0.25,0.5),1-0.5/zoom))-(iw/zoom/2)");
    assert_eq!(y, "ih*max(0.5/zoom,min(if(between(on/30,0,2),0.75,0.5),1-0.5/zoom))-(ih/zoom/2)");
}

#[test]
fn empty_model_is_identity() {
    let (z, x, y) = zoompan_exprs(&vec![], 30);
    assert_eq!(z.trim(), "1");
    assert_eq!(x, "iw/2-(iw/zoom/2)");
    assert_eq!(y, "ih/2-(ih/zoom/2)");
}

#[test]
fn two_segments_both_appear_in_expr() {
    let segs = texts(&[
        Seg { start_ms: 0, end_ms: 1000, ease_in_ms: 100, ease_out_ms: 100, scale: 1.5, targets: vec![(0.3, 0.4)] },
        Seg { start_ms: 2000, end_ms: 3000, ease_in_ms: 200, ease_out_ms: 200, scale: 3.0, targets: vec![(0.6, 0.7)] },
    ]);
    let (z, x, y) = zoompan_exprs(&segs, 30);
    assert!(z.contains("1.5"), "z should contain 1.5: {z}");
    assert!(z.contains("3"), "z should contain 3: {z}");
    assert!(x.contains("0.3"), "x should contain 0.3: {x}");
    assert!(x.contains("0.6"), "x should contain 0.6: {x}");
    assert!(y.contains("0.4"), "y should contain 0.4: {y}");
    assert!(y.contains("0.7"), "y should contain 0.7: {y}");
}

#[test]
fn segment_with_empty_targets_does_not_panic() {
    let segs = texts(&[Seg { start_ms: 0, end_ms: 1000, ease_in_ms: 100, ease_out_ms: 100, scale: 2.0, targets: vec![] }]);
    let (z, x, y) = zoompan_exprs(&segs, 30);
    assert!(!z.is_empty(), "z expression should be non-empty");
    assert!(x.contains("0.5"), "x should use 0.5 fallback center: {x}");
    assert!(y.contains("0.5"), "y should use 0.5 fallback center: {y}");
}

#[test]
fn pan_centre_is_first_target_or_middle() {
    let segs = texts(&[
        Seg { start_ms: 0, end_ms: 1000, ease_in_ms: 100, ease_out_ms: 100, scale: 2.0, targets: vec![(0.2, 0.3), (0.9, 0.8)] },
        Seg { start_ms: 2000, end_ms: 3000, ease_in_ms: 100, ease_out_ms: 100, scale: 2.0, targets: vec![] },
    ]);
    let (_, x, y) = zoompan_exprs(&segs, 25);
    assert_eq!(
        x,
        "iw*max(0.5/zoom,min(if(between(on/25,0,1),0.2,if(between(on/25,2,3),0.5,0.5)),1-0.5/zoom))-(iw/zoom/2)"
    );
    assert_eq!(
        y,
        "ih*max(0.5/zoom,min(if(between(on/25,0,1),0.3,if(between(on/25,2,3),0.5,0.5)),1-0.5/zoom))-(ih/zoom/2)"
    );
}

#[test]
fn nested_if_and_pan() {
    let b = vec![("a".to_string(), "1".to_string()), ("b".to_string(), "2".to_string())];
    assert_eq!(nested_if(&b, "0"), "if(a,1,if(b,2,0))");
    assert_eq!(nested_if(&vec![], "7"), "7");
    assert_eq!(pan_expr("c", "iw"), "iw*max(0.5/zoom,min(c,1-0.5/zoom))-(iw/zoom/2)");
}

/// Pixel geometry of an overlay, as the app computes it from the overlay's fractions.
fn geometry(size: f64, x: f64, y: f64, out_w: u32, out_h: u32) -> (u32, u32, u32) {
    let max_s = out_w.min(out_h);
    let s = ((size * out_w as f64).round() as i64).clamp(1, max_s as i64) as u32;
    let xpx = ((x * out_w as f64).round() as i64).clamp(0, out_w.saturating_sub(s) as i64) as u32;
    let ypx = ((y * out_h as f64).round() as i64).clamp(0, out_h.saturating_sub(s) as i64) as u32;
    (s, xpx, ypx)
}

#[test]
fn overlay_filter_circle_has_terms() {
    let (s, x, y) = geometry(0.22, 0.76, 0.74, 1920, 1080);
    let f = overlay_filter_graph(s, x, y, true, "circle", 0);
    assert!(f.contains("scale="), "{f}");
    assert!(f.contains("hflip"), "{f}");
    assert!(f.contains("geq"), "{f}");
    assert!(f.contains("overlay="), "{f}");
}

#[test]
fn overlay_filter_no_mirror_omits_hflip() {
    let (s, x, y) = geometry(0.22, 0.76, 0.74, 1920, 1080);
    let f = overlay_filter_graph(s, x, y, false, "circle", 0);
    assert!(!f.contains("hflip"), "{f}");
}

#[test]
fn overlay_filter_exact_texts() {
    assert_eq!(
        overlay_filter_graph(200, 500, 250, true, "circle", 0),
        "[1:v]scale=200:200,hflip,format=rgba,geq=lum='p(X,Y)':a='if(lte(hypot(X-100,Y-100),100),255,0)'[fg];[bg][fg]overlay=500:250:format=auto[outv]"
    );
    assert_eq!(
        overlay_filter_graph(20, 1, 2, false, "rounded", 3),
        "[1:v]scale=20:20,format=rgba,geq=lum='p(X,Y)':a='if(gt(min(min(X,20-1-X),min(Y,20-1-Y)),3),255,if(lte(hypot(max(3-X,0)+max(X-(20-1-3),0),max(3-Y,0)+max(Y-(20-1-3),0)),3),255,0))'[fg];[bg][fg]overlay=1:2:format=auto[outv]"
    );
}

#[test]
fn zoompan_filter_and_args() {
    assert_eq!(zoompan_filter("1", "X", "Y", 30, "640x480"), "zoompan=z='1':x='X':y='Y':d=1:fps=30:s=640x480");
    let a = export_args("in.mp4", "ZP", None, "out.mp4");
    assert_eq!(
        a,
        vec!["-y", "-i", "in.mp4", "-vf", "ZP", "-c:v", "libx264", "-preset", "fast", "-pix_fmt", "yuv420p", "-c:a", "copy", "-progress", "pipe:1", "-nostats", "out.mp4"]
    );
    let a = export_args("in.mp4", "ZP", Some(("in.webcam.mp4", "OV")), "out.mp4");
    assert_eq!(a[3], "-i");
    assert_eq!(a[4], "in.webcam.mp4");
    assert_eq!(a[6], "ZP[bg];OV");
    assert_eq!(&a[7..11], &["-map", "[outv]", "-map", "0:a?"]);
    assert_eq!(a.len(), 23);
}

#[test]
fn probe_frame_size_reads_answer() {
    assert_eq!(probe_frame_size("1920x1080\n"), ("1920x1080".to_string(), 1920, 1080));
    assert_eq!(probe_frame_size(" 640 x 480 "), ("640 x 480".to_string(), 640, 480));
    assert_eq!(probe_frame_size(""), ("iw:ih".to_string(), 1280, 720));
    assert_eq!(probe_frame_size("abcx-5"), ("abcx-5".to_string(), 1280, 720));
    assert_eq!(probe_frame_size("+7x99999999999"), ("+7x99999999999".to_string(), 7, 720));
}

#[test]
fn progress_lines() {
    assert_eq!(progress_ms("out_time_ms=1500000"), Some(1500));
    assert_eq!(progress_ms("out_time_ms= 2999 \r"), Some(2));
    assert_eq!(progress_ms("out_time_ms=N/A"), None);
    assert_eq!(progress_ms("frame=10"), None);
    assert_eq!(progress_ms("out_time_ms"), None);
}

#[test]
fn webcam_composited_only_when_enabled_and_present() {
    assert!(use_webcam(Some(true), true));
    assert!(!use_webcam(Some(true), false));
    assert!(!use_webcam(Some(false), true));
    assert!(!use_webcam(None, true));
}
