use widget_canvas::geometry::{half_floor, Point, Rect};
use widget_canvas::snapping::{alignment_guides, snap_axis, snapped_edge, CanvasEdge};
use widget_canvas::canvas::{AlignmentType};
use widget_canvas::widget::{
    adjust_kind, click_kind, knob_value_for_angle, resize_kind, Widget, WidgetKind,
};

#[test]
fn rect_contains_is_closed() {
    let r = Rect::new(10, 20, 30, 40);
    assert!(r.contains(Point::new(10, 20)));
    assert!(r.contains(Point::new(40, 60)));
    assert!(!r.contains(Point::new(41, 60)));
    assert!(!r.contains(Point::new(9, 30)));
}

#[test]
fn rect_conflicts_grows_both_rectangles() {
    let a = Rect::new(0, 0, 10, 10);
    // Three pixels apart: both grown by one pixel, they still do not meet.
    assert!(!Rect::new(13, 0, 10, 10).conflicts(&a));
    assert!(!a.conflicts(&Rect::new(13, 0, 10, 10)));
    // Two pixels apart: grown, they meet.
    assert!(Rect::new(12, 0, 10, 10).conflicts(&a));
    assert!(a.conflicts(&Rect::new(12, 0, 10, 10)));
    assert!(!Rect::new(12, 0, 10, 10).intersects(&a));
    // Sharing an edge.
    assert!(Rect::new(10, 0, 10, 10).intersects(&a));
}

#[test]
fn rect_center_rounds_down() {
    assert_eq!(Rect::new(0, 0, 5, 7).center(), Point::new(2, 3));
    assert_eq!(Rect::new(-5, -5, 0, 1).center(), Point::new(-5, -5));
    assert_eq!(half_floor(-3), -2);
    assert_eq!(half_floor(3), 1);
    assert_eq!(half_floor(-4), -2);
}

#[test]
fn widget_sizes_follow_kind_and_state() {
    assert_eq!(WidgetKind::Knob { value: 50, min: 0, max: 100 }.size(), (90, 110));
    assert_eq!(WidgetKind::ToggleSwitch { on: false }.size(), (80, 60));
    assert_eq!(WidgetKind::TextLabel.size(), (100, 30));
    let open = WidgetKind::Panel { width: 220, height: 180, collapsed: false, collapse_to_icon: false };
    assert_eq!(open.size(), (220, 180));
    let bar = WidgetKind::Panel { width: 220, height: 180, collapsed: true, collapse_to_icon: false };
    assert_eq!(bar.size(), (220, 40));
    let icon = WidgetKind::Panel { width: 220, height: 180, collapsed: true, collapse_to_icon: true };
    assert_eq!(icon.size(), (40, 40));
    assert_eq!(WidgetKind::Settings { minimized: true }.size(), (40, 40));
    assert_eq!(WidgetKind::Settings { minimized: false }.size(), (250, 300));
    let w = Widget { id: 3, kind: WidgetKind::VuMeter { level: 10, peak: 20 }, pos: Point::new(5, 6) };
    assert_eq!(w.rect(), Rect::new(5, 6, 40, 160));
}

#[test]
fn click_flips_switches_and_buttons() {
    let r = Rect::new(0, 0, 80, 60);
    let p = Point::new(1, 1);
    assert_eq!(click_kind(WidgetKind::ToggleSwitch { on: false }, r, p), WidgetKind::ToggleSwitch { on: true });
    assert_eq!(click_kind(WidgetKind::PushButton { active: true }, r, p), WidgetKind::PushButton { active: false });
    assert_eq!(click_kind(WidgetKind::IconButton { active: false }, r, p), WidgetKind::IconButton { active: true });
    assert_eq!(
        click_kind(WidgetKind::StatusBar { width: 300, height: 40, online: true }, r, p),
        WidgetKind::StatusBar { width: 300, height: 40, online: false }
    );
    assert_eq!(click_kind(WidgetKind::TextLabel, r, p), WidgetKind::TextLabel);
}

#[test]
fn click_on_horizontal_slider_track_sets_value() {
    let k = WidgetKind::HorizontalSlider { value: 10, min: 0, max: 100 };
    let r = Rect::new(0, 0, 150, 40);
    // Track: x from 37 to 133, y from 16 to 24.
    assert_eq!(click_kind(k, r, Point::new(85, 20)), WidgetKind::HorizontalSlider { value: 50, min: 0, max: 100 });
    assert_eq!(click_kind(k, r, Point::new(37, 20)), WidgetKind::HorizontalSlider { value: 0, min: 0, max: 100 });
    assert_eq!(click_kind(k, r, Point::new(133, 24)), WidgetKind::HorizontalSlider { value: 100, min: 0, max: 100 });
    // Off the track nothing changes.
    assert_eq!(click_kind(k, r, Point::new(5, 5)), k);
}

#[test]
fn click_on_vertical_slider_track_sets_value() {
    let k = WidgetKind::VerticalSlider { value: 75, min: 0, max: 100 };
    let r = Rect::new(0, 0, 40, 120);
    // Track: x from 16 to 24, y from 2 to 98; the bottom stands for min.
    assert_eq!(click_kind(k, r, Point::new(20, 74)), WidgetKind::VerticalSlider { value: 25, min: 0, max: 100 });
    assert_eq!(click_kind(k, r, Point::new(20, 2)), WidgetKind::VerticalSlider { value: 100, min: 0, max: 100 });
    assert_eq!(click_kind(k, r, Point::new(30, 50)), k);
}

#[test]
fn resize_clamps_to_bounds() {
    let p = WidgetKind::Panel { width: 200, height: 150, collapsed: false, collapse_to_icon: true };
    assert_eq!(resize_kind(p, 50, 50), WidgetKind::Panel { width: 250, height: 200, collapsed: false, collapse_to_icon: true });
    assert_eq!(resize_kind(p, -1000, 1000), WidgetKind::Panel { width: 100, height: 400, collapsed: false, collapse_to_icon: true });
    let s = WidgetKind::StatusBar { width: 300, height: 40, online: true };
    assert_eq!(resize_kind(s, 900, 100), WidgetKind::StatusBar { width: 800, height: 120, online: true });
    assert_eq!(resize_kind(WidgetKind::TextLabel, 5, 5), WidgetKind::TextLabel);
}

#[test]
fn knob_adjust_scales_travel_and_clamps() {
    let k = WidgetKind::Knob { value: 50, min: 0, max: 100 };
    assert_eq!(adjust_kind(k, 20), WidgetKind::Knob { value: 60, min: 0, max: 100 });
    assert_eq!(adjust_kind(k, -30), WidgetKind::Knob { value: 35, min: 0, max: 100 });
    assert_eq!(adjust_kind(k, 1000), WidgetKind::Knob { value: 100, min: 0, max: 100 });
    assert_eq!(adjust_kind(k, -1000), WidgetKind::Knob { value: 0, min: 0, max: 100 });
    // Travel too small for a whole step leaves the value.
    assert_eq!(adjust_kind(k, 1), k);
}

#[test]
fn knob_angle_maps_the_sweep() {
    assert_eq!(knob_value_for_angle(0, 0, 100), 50);
    assert_eq!(knob_value_for_angle(-135, 0, 100), 0);
    assert_eq!(knob_value_for_angle(135, 0, 100), 100);
    assert_eq!(knob_value_for_angle(170, 0, 100), 100);
    assert_eq!(knob_value_for_angle(-180, 0, 100), 0);
    assert_eq!(knob_value_for_angle(0, -50, 50), 0);
}

#[test]
fn snap_axis_aligns_centers_and_edges() {
    let vp = Rect::new(0, 0, 800, 600);
    let others = vec![Rect::new(690, 20, 90, 110)];
    // Centers within the threshold (and the left edges too): aligned exactly.
    assert_eq!(snap_axis(685, 90, vp, &others, true), 690);
    // Nothing near: unchanged.
    assert_eq!(snap_axis(300, 110, vp, &others, false), 300);
    // The viewport's center: a 100 wide span at 346 centers on 400.
    assert_eq!(snap_axis(346, 100, vp, &Vec::new(), true), 350);
    // A later target overrides an earlier one.
    let two = vec![Rect::new(100, 0, 10, 10), Rect::new(104, 0, 10, 10)];
    assert_eq!(snap_axis(102, 10, vp, &two, true), 104);
}

#[test]
fn alignment_guides_for_nearby_widget() {
    let vp = Rect::new(0, 0, 800, 600);
    let c = Rect::new(100, 100, 50, 50);
    let g = alignment_guides(c, vp, &vec![Rect::new(103, 300, 50, 50)]);
    assert_eq!(g.len(), 3);
    assert_eq!(g[0].start, Point::new(128, 80));
    assert_eq!(g[0].end, Point::new(128, 370));
    assert_eq!(g[1].start.x, 103);
    assert_eq!(g[2].start.x, 153);
    assert!(g.iter().all(|x| x.guide_type == AlignmentType::WidgetAlignHorizontal));
    let centered = alignment_guides(Rect::new(375, 275, 50, 50), vp, &Vec::new());
    assert_eq!(centered.len(), 2);
    assert_eq!(centered[0].guide_type, AlignmentType::CenterHorizontal);
    assert_eq!(centered[0].start, Point::new(400, 0));
    assert_eq!(centered[1].guide_type, AlignmentType::CenterVertical);
    assert_eq!(centered[1].end, Point::new(800, 300));
}

#[test]
fn edge_snap_picks_nearer_side() {
    let vp = Rect::new(0, 0, 800, 600);
    assert_eq!(snapped_edge(Point::new(10, 100), 250, vp), Some(CanvasEdge::Left));
    assert_eq!(snapped_edge(Point::new(540, 100), 250, vp), Some(CanvasEdge::Right));
    assert_eq!(snapped_edge(Point::new(300, 100), 250, vp), None);
    assert_eq!(snapped_edge(Point::new(49, 0), 250, vp), Some(CanvasEdge::Left));
    assert_eq!(snapped_edge(Point::new(50, 0), 250, vp), None);
}

#[test]
fn click_on_knob_takes_dial_angle() {
    let k = WidgetKind::Knob { value: 50, min: 0, max: 100 };
    let r = Rect::new(100, 100, 90, 110);
    // Dial center at (145, 137). Straight left of it: the end of the sweep.
    assert_eq!(click_kind(k, r, Point::new(100, 137)), WidgetKind::Knob { value: 100, min: 0, max: 100 });
    // Straight right: 0 degrees, the middle of the sweep.
    assert_eq!(click_kind(k, r, Point::new(180, 137)), WidgetKind::Knob { value: 50, min: 0, max: 100 });
    // Straight down: 90 degrees.
    assert_eq!(click_kind(k, r, Point::new(145, 200)), WidgetKind::Knob { value: 83, min: 0, max: 100 });
    // Straight up: -90 degrees.
    assert_eq!(click_kind(k, r, Point::new(145, 100)), WidgetKind::Knob { value: 16, min: 0, max: 100 });
    // Down and to the right on the diagonal: 45 degrees.
    assert_eq!(click_kind(k, r, Point::new(200, 192)), WidgetKind::Knob { value: 66, min: 0, max: 100 });
    // Offset (1, 2) from the dial center: 63 degrees (63.43 to the nearest
    // whole degree), value 198 * 100 / 270.
    assert_eq!(click_kind(k, r, Point::new(146, 139)), WidgetKind::Knob { value: 73, min: 0, max: 100 });
    // Offset (2, 1): 27 degrees.
    assert_eq!(click_kind(k, r, Point::new(147, 138)), WidgetKind::Knob { value: 60, min: 0, max: 100 });
    // Up and to the left on the diagonal: -135 degrees, the start of the sweep.
    assert_eq!(click_kind(k, r, Point::new(100, 92)), WidgetKind::Knob { value: 0, min: 0, max: 100 });
}

#[test]
fn center_snap_moves_less_than_threshold() {
    let vp = Rect::new(0, 0, 800, 600);
    // Target centered on -2.5: the half pixel is rounded towards the span.
    let t = vec![Rect::new(-23, 0, 41, 10)];
    assert_eq!(snap_axis(0, 10, vp, &t, true), -7);
    assert_eq!(snap_axis(-15, 10, vp, &t, true), -8);
}
