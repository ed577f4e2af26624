use open_recorder::model::webcam::fit_overlay;
use open_recorder::model::coords::map_to_source;
use open_recorder::model::source::SourceKind;
use open_recorder::recording::coordinator::make_filenames;

#[test]
fn maps_inside_point_to_relative() {
    assert_eq!(map_to_source([100, 50, 800, 600], 150, 90), Some((50, 40)));
}

#[test]
fn maps_top_left_to_zero() {
    assert_eq!(map_to_source([100, 50, 800, 600], 100, 50), Some((0, 0)));
}

#[test]
fn returns_none_outside_left() {
    assert_eq!(map_to_source([100, 50, 800, 600], 99, 90), None);
}

#[test]
fn returns_none_outside_bottom() {
    assert_eq!(map_to_source([100, 50, 800, 600], 150, 651), None);
}

#[test]
fn maps_bottom_right_edge_inside() {
    assert_eq!(map_to_source([100, 50, 800, 600], 900, 650), Some((800, 600)));
}

#[test]
fn source_kind_names() {
    assert_eq!(SourceKind::Display.as_str(), "display");
    assert_eq!(SourceKind::Window.as_str(), "window");
    assert_eq!(SourceKind::Region.as_str(), "region");
}

#[test]
fn filenames_share_timestamp() {
    let (v, m) = make_filenames("20260618-153000");
    assert_eq!(v, "REC-20260618-153000.mp4");
    assert_eq!(m, "REC-20260618-153000.metadata.json");
}

fn overlay_geometry(size: f64, x: f64, y: f64, out_w: u32, out_h: u32) -> (u32, u32, u32) {
    fit_overlay(
        (size * out_w as f64).round() as i64,
        (x * out_w as f64).round() as i64,
        (y * out_h as f64).round() as i64,
        out_w,
        out_h,
    )
}

#[test]
fn geometry_maps_and_clamps() {
    // out 1000x500: s = 200, x = 500, y = 250
    assert_eq!(overlay_geometry(0.2, 0.5, 0.5, 1000, 500), (200, 500, 250));
    // x near the right edge is clamped to out_w - s
    let (s, xpx, _) = overlay_geometry(0.2, 0.99, 0.5, 1000, 500);
    assert_eq!(s, 200);
    assert_eq!(xpx, 800);
}

#[test]
fn fit_overlay_limits_size_and_position() {
    assert_eq!(fit_overlay(5000, -3, 9000, 1920, 1080), (1080, 0, 0));
    assert_eq!(fit_overlay(0, 10, 10, 100, 50), (1, 10, 10));
    assert_eq!(fit_overlay(422, 1459, 799, 1920, 1080), (422, 1459, 658));
}
