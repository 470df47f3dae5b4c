use widget_canvas::canvas::{DragDropCanvas, Interaction};
use widget_canvas::geometry::{Point, Rect};
use widget_canvas::interaction::PointerEvent;
use widget_canvas::placement::first_free_slot;
use widget_canvas::widget::WidgetKind;

fn knob() -> WidgetKind {
    WidgetKind::Knob { value: 50, min: 0, max: 100 }
}

fn toggle() -> WidgetKind {
    WidgetKind::ToggleSwitch { on: false }
}

fn panel(width: i64, height: i64) -> WidgetKind {
    WidgetKind::Panel { width, height, collapsed: false, collapse_to_icon: true }
}

fn pos_of(c: &DragDropCanvas, id: u64) -> Point {
    c.get_widget(id).unwrap().pos
}

fn kind_of(c: &DragDropCanvas, id: u64) -> WidgetKind {
    c.get_widget(id).unwrap().kind
}

fn press(x: i64, y: i64) -> PointerEvent {
    PointerEvent { pos: Some(Point::new(x, y)), pressed: true, released: false, held: true, secondary_pressed: false }
}

fn hold(x: i64, y: i64) -> PointerEvent {
    PointerEvent { pos: Some(Point::new(x, y)), pressed: false, released: false, held: true, secondary_pressed: false }
}

fn release(x: i64, y: i64) -> PointerEvent {
    PointerEvent { pos: Some(Point::new(x, y)), pressed: false, released: true, held: false, secondary_pressed: false }
}

#[test]
fn three_knobs_fill_right_to_left() {
    let mut c = DragDropCanvas::new();
    let a = c.spawn_on_canvas(knob());
    let b = c.spawn_on_canvas(knob());
    let d = c.spawn_on_canvas(knob());
    assert_eq!((a, b, d), (0, 1, 2));
    let pa = pos_of(&c, a);
    let pb = pos_of(&c, b);
    let pd = pos_of(&c, d);
    assert_eq!(pa, Point::new(690, 20));
    assert_eq!(pb, Point::new(597, 20));
    assert_eq!(pd, Point::new(504, 20));
    let ra = c.get_widget(a).unwrap().rect();
    let rb = c.get_widget(b).unwrap().rect();
    let rd = c.get_widget(d).unwrap().rect();
    assert!(!ra.conflicts(&rb) && !rb.conflicts(&ra));
    assert!(!rb.conflicts(&rd) && !rd.conflicts(&rb));
    assert!(!ra.conflicts(&rd));
    assert!(pa.x > pb.x && pb.x > pd.x);
}

#[test]
fn full_row_wraps_to_next_row() {
    let mut c = DragDropCanvas::new();
    let mut last = 0;
    for _ in 0..9 {
        last = c.spawn_on_canvas(knob());
    }
    // Eight knobs fit in a row of 760 pixels; the ninth opens a new row.
    assert_eq!(pos_of(&c, 7), Point::new(780 - 90 - 7 * 93, 20));
    assert_eq!(pos_of(&c, last), Point::new(690, 133));
}

#[test]
fn full_canvas_falls_back_to_corner() {
    let mut c = DragDropCanvas::new();
    c.on_viewport_resized(Rect::new(0, 0, 200, 200));
    let a = c.spawn_on_canvas(knob());
    let b = c.spawn_on_canvas(knob());
    assert_eq!(pos_of(&c, a), Point::new(90, 20));
    assert_eq!(pos_of(&c, b), Point::new(90, 20));
}

#[test]
fn first_free_slot_scans_rows_from_the_right() {
    let area = Rect::new(0, 0, 100, 100);
    assert_eq!(first_free_slot(area, 40, 40, &Vec::new()), Some(Point::new(60, 0)));
    let taken = vec![Rect::new(60, 0, 40, 40)];
    assert_eq!(first_free_slot(area, 40, 40, &taken), Some(Point::new(17, 0)));
    let both = vec![Rect::new(60, 0, 40, 40), Rect::new(17, 0, 40, 40)];
    assert_eq!(first_free_slot(area, 40, 40, &both), Some(Point::new(60, 43)));
    assert_eq!(first_free_slot(area, 120, 40, &Vec::new()), None);
}

#[test]
fn spawn_in_container_uses_content_area() {
    let mut c = DragDropCanvas::new();
    let p = c.spawn_on_canvas(panel(200, 150));
    assert_eq!(pos_of(&c, p), Point::new(580, 20));
    let t1 = c.spawn_in_container(p, toggle(), None);
    let t2 = c.spawn_in_container(p, toggle(), None);
    assert_eq!(pos_of(&c, t1), Point::new(699, 60));
    assert_eq!(pos_of(&c, t2), Point::new(616, 60));
    assert_eq!(c.container_of(t1), Some(p));
    assert_eq!(c.contained_ids(p), vec![t1, t2]);
    assert_eq!(c.layer_of(t1), 1);
    assert_eq!(c.layer_of(p), 0);
}

#[test]
fn spawn_in_folded_container_falls_back_to_canvas() {
    let mut c = DragDropCanvas::new();
    let p = c.spawn_on_canvas(panel(200, 150));
    let i = c.find_index(p).unwrap();
    c.click_widget(i, Point::new(0, 0));
    c.select_container(Some(p));
    assert!(!c.is_accepting_widgets(p));
    let t = c.spawn_widget_directly(toggle());
    assert_eq!(c.container_of(t), None);
    assert_eq!(c.selected_container(), None);
    assert_eq!(c.contained_ids(p), Vec::<u64>::new());
}

#[test]
fn widget_too_big_for_container_goes_on_canvas() {
    let mut c = DragDropCanvas::new();
    let p = c.spawn_on_canvas(panel(200, 150));
    let inner = c.spawn_in_container(p, panel(200, 150), None);
    assert_eq!(c.container_of(inner), None);
}

#[test]
fn nested_containers_hide_when_outer_folds() {
    let mut c = DragDropCanvas::new();
    let outer = c.spawn_on_canvas(panel(500, 400));
    assert_eq!(pos_of(&c, outer), Point::new(280, 20));
    let inner = c.spawn_in_container(outer, panel(200, 150), None);
    assert_eq!(pos_of(&c, inner), Point::new(579, 60));
    let t = c.spawn_in_container(inner, toggle(), None);
    assert_eq!(pos_of(&c, t), Point::new(698, 100));
    assert_eq!(c.layer_of(t), 2);
    assert!(c.is_ancestor(outer, t));
    assert!(!c.is_ancestor(t, outer));
    assert!(!c.is_hidden(t));
    let i = c.find_index(outer).unwrap();
    c.click_widget(i, Point::new(0, 0));
    assert!(c.is_hidden(t));
    assert!(c.is_hidden(inner));
    assert!(!c.is_hidden(outer));
}

#[test]
fn add_child_refuses_cycles_and_moves_children() {
    let mut c = DragDropCanvas::new();
    let a = c.spawn_on_canvas(panel(200, 150));
    let b = c.spawn_on_canvas(panel(200, 150));
    let t = c.spawn_on_canvas(toggle());
    assert!(c.add_child(a, b));
    assert!(!c.add_child(b, a));
    assert!(!c.add_child(a, a));
    assert!(!c.add_child(t, a));
    assert!(c.add_child(a, t));
    assert!(c.add_child(b, t));
    assert_eq!(c.contained_ids(a), vec![b]);
    assert_eq!(c.contained_ids(b), vec![t]);
    c.remove_from_all_containers(t);
    assert_eq!(c.container_of(t), None);
}

#[test]
fn ids_are_never_reused() {
    let mut c = DragDropCanvas::new();
    let a = c.spawn_on_canvas(toggle());
    let b = c.spawn_on_canvas(toggle());
    assert!(c.delete_widget(a));
    assert!(!c.delete_widget(a));
    let d = c.spawn_on_canvas(toggle());
    assert_eq!((a, b, d), (0, 1, 2));
    assert_eq!(c.next_id, 3);
    c.clear_canvas();
    assert_eq!(c.list_widgets().len(), 0);
    assert_eq!(c.spawn_on_canvas(toggle()), 3);
}

#[test]
fn deleting_a_container_releases_its_children() {
    let mut c = DragDropCanvas::new();
    let p = c.spawn_on_canvas(panel(200, 150));
    let t = c.spawn_in_container(p, toggle(), None);
    c.select_container(Some(p));
    assert!(c.delete_widget(p));
    assert_eq!(c.container_of(t), None);
    assert_eq!(c.links.len(), 0);
    assert_eq!(c.selected_container(), None);
    assert!(c.get_widget(p).is_none());
}

#[test]
fn add_widget_places_at_the_drop_point() {
    let mut c = DragDropCanvas::new();
    let a = c.add_widget(toggle(), Point::new(300, 300));
    assert_eq!(pos_of(&c, a), Point::new(300, 300));
    // The same spot is taken: the grid scan decides.
    let b = c.add_widget(toggle(), Point::new(300, 300));
    assert_eq!(pos_of(&c, b), Point::new(700, 20));
    // A point outside the viewport is brought inside its margin.
    let d = c.add_widget(toggle(), Point::new(5000, -5000));
    assert_eq!(pos_of(&c, d), Point::new(617, 20));
}

#[test]
fn click_on_toggle_switch_flips_it_in_place() {
    let mut c = DragDropCanvas::new();
    let t = c.spawn_on_canvas(toggle());
    assert_eq!(pos_of(&c, t), Point::new(700, 20));
    c.handle_pointer_event(press(710, 30));
    assert!(matches!(c.interaction, Interaction::Dragging { .. }));
    c.handle_pointer_event(hold(713, 31));
    c.handle_pointer_event(release(712, 31));
    assert_eq!(c.interaction, Interaction::Idle);
    assert_eq!(kind_of(&c, t), WidgetKind::ToggleSwitch { on: true });
    assert_eq!(pos_of(&c, t), Point::new(700, 20));
}

#[test]
fn drag_moves_without_toggling() {
    let mut c = DragDropCanvas::new();
    let t = c.spawn_on_canvas(toggle());
    c.handle_pointer_event(press(710, 30));
    c.handle_pointer_event(hold(510, 230));
    assert_eq!(pos_of(&c, t), Point::new(500, 220));
    c.handle_pointer_event(release(510, 230));
    assert_eq!(pos_of(&c, t), Point::new(500, 220));
    assert_eq!(kind_of(&c, t), toggle());
    assert_eq!(c.interaction, Interaction::Idle);
}

#[test]
fn drag_is_held_inside_the_viewport() {
    let mut c = DragDropCanvas::new();
    let t = c.spawn_on_canvas(toggle());
    c.handle_pointer_event(press(710, 30));
    c.handle_pointer_event(hold(-400, -400));
    assert_eq!(pos_of(&c, t), Point::new(0, 0));
    c.handle_pointer_event(hold(5000, 5000));
    assert_eq!(pos_of(&c, t), Point::new(720, 540));
}

#[test]
fn drag_snaps_center_to_neighbour() {
    let mut c = DragDropCanvas::new();
    let a = c.spawn_on_canvas(knob());
    let b = c.spawn_on_canvas(knob());
    assert_eq!(pos_of(&c, b), Point::new(597, 20));
    // Off the dial: the knob is dragged.
    c.handle_pointer_event(press(608, 30));
    c.handle_pointer_event(hold(695, 310));
    c.handle_pointer_event(release(695, 310));
    let ra = c.get_widget(a).unwrap().rect();
    let rb = c.get_widget(b).unwrap().rect();
    assert_eq!(pos_of(&c, b), Point::new(690, 300));
    assert_eq!(2 * ra.x + ra.w, 2 * rb.x + rb.w);
}

#[test]
fn drag_shows_guides_while_held() {
    let mut c = DragDropCanvas::new();
    let _a = c.spawn_on_canvas(knob());
    let _b = c.spawn_on_canvas(knob());
    c.handle_pointer_event(press(608, 30));
    c.handle_pointer_event(hold(695, 310));
    assert!(c.alignment_guides.len() >= 1);
    assert!(c.drag_hover_panel.is_none());
    c.handle_pointer_event(release(695, 310));
    assert_eq!(c.alignment_guides.len(), 0);
}

#[test]
fn knob_dial_turns_value() {
    let mut c = DragDropCanvas::new();
    let k = c.spawn_on_canvas(knob());
    c.handle_pointer_event(press(735, 57));
    assert!(matches!(c.interaction, Interaction::AdjustingValue { .. }));
    c.handle_pointer_event(hold(735, 37));
    assert_eq!(kind_of(&c, k), WidgetKind::Knob { value: 60, min: 0, max: 100 });
    c.handle_pointer_event(hold(735, 237));
    assert_eq!(kind_of(&c, k), WidgetKind::Knob { value: 0, min: 0, max: 100 });
    assert_eq!(pos_of(&c, k), Point::new(690, 20));
    c.handle_pointer_event(release(735, 237));
    assert_eq!(c.interaction, Interaction::Idle);
}

#[test]
fn resize_handle_resizes_panel() {
    let mut c = DragDropCanvas::new();
    let p = c.spawn_on_canvas(panel(200, 150));
    c.handle_pointer_event(press(775, 165));
    assert!(matches!(c.interaction, Interaction::Resizing { .. }));
    c.handle_pointer_event(hold(825, 215));
    assert_eq!(c.get_widget(p).unwrap().rect(), Rect::new(580, 20, 250, 200));
    c.handle_pointer_event(hold(-500, -500));
    assert_eq!(c.get_widget(p).unwrap().rect(), Rect::new(580, 20, 100, 100));
    c.handle_pointer_event(release(-500, -500));
    assert_eq!(c.interaction, Interaction::Idle);
}

#[test]
fn fold_toggle_collapses_and_restores_panel() {
    let mut c = DragDropCanvas::new();
    let p = c.spawn_on_canvas(panel(200, 150));
    let t = c.spawn_in_container(p, toggle(), None);
    c.handle_pointer_event(press(585, 25));
    assert_eq!(c.interaction, Interaction::Idle);
    assert_eq!(c.selected_container(), Some(p));
    assert_eq!(c.get_widget(p).unwrap().rect(), Rect::new(580, 20, 40, 40));
    assert_eq!(c.contained_ids(p), vec![t]);
    assert!(c.is_hidden(t));
    c.handle_pointer_event(release(585, 25));
    c.handle_pointer_event(press(585, 25));
    assert_eq!(c.get_widget(p).unwrap().rect(), Rect::new(580, 20, 200, 150));
    assert_eq!(c.contained_ids(p), vec![t]);
    assert!(!c.is_hidden(t));
}

#[test]
fn collapse_to_title_bar() {
    let mut c = DragDropCanvas::new();
    let kind = WidgetKind::Panel { width: 220, height: 180, collapsed: false, collapse_to_icon: false };
    let p = c.spawn_on_canvas(kind);
    let i = c.find_index(p).unwrap();
    c.click_widget(i, Point::new(0, 0));
    assert_eq!(kind_of(&c, p).size(), (220, 40));
    c.click_widget(i, Point::new(0, 0));
    assert_eq!(kind_of(&c, p), kind);
}

#[test]
fn press_selects_container_and_empty_press_clears() {
    let mut c = DragDropCanvas::new();
    let p = c.spawn_on_canvas(panel(200, 150));
    c.handle_pointer_event(press(700, 100));
    assert_eq!(c.selected_container(), Some(p));
    c.handle_pointer_event(release(700, 100));
    c.handle_pointer_event(press(100, 500));
    assert_eq!(c.selected_container(), None);
    assert_eq!(c.interaction, Interaction::Idle);
}

#[test]
fn drag_inside_container_stays_inside() {
    let mut c = DragDropCanvas::new();
    let p = c.spawn_on_canvas(panel(200, 150));
    let t = c.spawn_in_container(p, toggle(), None);
    assert_eq!(pos_of(&c, t), Point::new(699, 60));
    c.handle_pointer_event(press(709, 70));
    assert_eq!(c.selected_container(), Some(p));
    c.handle_pointer_event(hold(110, 410));
    assert_eq!(pos_of(&c, t), Point::new(581, 109));
    c.handle_pointer_event(release(110, 410));
    assert_eq!(c.container_of(t), Some(p));
}

#[test]
fn drop_on_canvas_joins_container_under_center() {
    let mut c = DragDropCanvas::new();
    let p = c.spawn_on_canvas(panel(300, 300));
    let t = c.add_widget(toggle(), Point::new(100, 400));
    assert_eq!(c.container_of(t), None);
    c.handle_pointer_event(press(110, 410));
    c.handle_pointer_event(hold(570, 110));
    c.handle_pointer_event(release(570, 110));
    assert_eq!(pos_of(&c, t), Point::new(560, 100));
    assert_eq!(c.container_of(t), Some(p));
}

#[test]
fn palette_drop_on_canvas_and_into_container() {
    let mut c = DragDropCanvas::new();
    c.begin_palette_drag(toggle());
    assert!(matches!(c.interaction, Interaction::PaletteDragging { .. }));
    c.handle_pointer_event(hold(300, 300));
    c.handle_pointer_event(release(300, 300));
    assert_eq!(c.interaction, Interaction::Idle);
    assert_eq!(pos_of(&c, 0), Point::new(300, 300));

    let p = c.spawn_on_canvas(panel(200, 150));
    c.begin_palette_drag(toggle());
    c.handle_pointer_event(release(650, 100));
    let t = c.next_id - 1;
    assert_eq!(pos_of(&c, t), Point::new(650, 100));
    assert_eq!(c.container_of(t), Some(p));
    assert_eq!(c.selected_container(), Some(p));
}

#[test]
fn palette_drag_ignored_during_session() {
    let mut c = DragDropCanvas::new();
    let _t = c.spawn_on_canvas(toggle());
    c.handle_pointer_event(press(710, 30));
    c.begin_palette_drag(knob());
    assert!(matches!(c.interaction, Interaction::Dragging { .. }));
}

#[test]
fn stale_session_is_abandoned() {
    let mut c = DragDropCanvas::new();
    let t = c.spawn_on_canvas(toggle());
    c.handle_pointer_event(press(710, 30));
    assert!(c.delete_widget(t));
    c.handle_pointer_event(hold(400, 400));
    assert_eq!(c.interaction, Interaction::Idle);
}

#[test]
fn secondary_press_marks_widget_for_editing() {
    let mut c = DragDropCanvas::new();
    let t = c.spawn_on_canvas(toggle());
    let ev = PointerEvent { pos: Some(Point::new(710, 30)), pressed: false, released: false, held: false, secondary_pressed: true };
    c.handle_pointer_event(ev);
    assert_eq!(c.editing_widget, Some(t));
    assert_eq!(c.interaction, Interaction::Idle);
}

#[test]
fn click_on_slider_through_pointer() {
    let mut c = DragDropCanvas::new();
    let s = c.spawn_on_canvas(WidgetKind::HorizontalSlider { value: 60, min: 0, max: 100 });
    // The slider sits at (630, 20), 150 by 40; its track runs from x 667 to 763.
    assert_eq!(pos_of(&c, s), Point::new(630, 20));
    c.handle_pointer_event(press(715, 40));
    c.handle_pointer_event(release(715, 40));
    assert_eq!(kind_of(&c, s), WidgetKind::HorizontalSlider { value: 50, min: 0, max: 100 });
}

#[test]
fn resize_replaces_canvas_widgets_in_row_major_order() {
    let mut c = DragDropCanvas::new();
    let a = c.spawn_on_canvas(knob());
    let b = c.spawn_on_canvas(knob());
    let d = c.spawn_on_canvas(knob());
    let p = c.spawn_on_canvas(panel(200, 150));
    let t = c.spawn_in_container(p, toggle(), None);
    assert_eq!(pos_of(&c, t), Point::new(293, 60));
    assert_eq!(pos_of(&c, p), Point::new(174, 20));
    c.on_viewport_resized(Rect::new(0, 0, 400, 600));
    assert_eq!(c.viewport, Rect::new(0, 0, 400, 600));
    // Former order: a (690), b (597), d (504), then the panel (174).
    assert_eq!(pos_of(&c, a), Point::new(290, 20));
    assert_eq!(pos_of(&c, b), Point::new(197, 20));
    assert_eq!(pos_of(&c, d), Point::new(104, 20));
    assert_eq!(pos_of(&c, p), Point::new(180, 173));
    // Held by a container: moves as far as its container did.
    assert_eq!(pos_of(&c, t), Point::new(299, 213));
    assert_eq!(c.container_of(t), Some(p));
    // Same size elsewhere: nothing moves.
    c.on_viewport_resized(Rect::new(10, 10, 400, 600));
    assert_eq!(pos_of(&c, a), Point::new(290, 20));
}

#[test]
fn canvas_widget_queries() {
    let mut c = DragDropCanvas::new();
    let p = c.spawn_on_canvas(panel(200, 150));
    let t = c.spawn_in_container(p, toggle(), None);
    let k = c.spawn_on_canvas(knob());
    assert!(c.is_widget_contained(t));
    assert!(!c.is_widget_contained(p));
    assert_eq!(c.get_canvas_widgets(), vec![0, 2]);
    assert_eq!(c.count_canvas_widgets(), 2);
    assert_eq!(k, 2);
}

#[test]
fn many_spawns_keep_visible_widgets_apart() {
    let mut c = DragDropCanvas::new();
    let kinds = [knob(), toggle(), panel(200, 150), WidgetKind::VuMeter { level: 1, peak: 2 }, WidgetKind::TextLabel];
    for i in 0..10 {
        c.spawn_on_canvas(kinds[i % kinds.len()]);
    }
    let ws = c.list_widgets().clone();
    for i in 0..ws.len() {
        for j in 0..ws.len() {
            if i != j {
                assert!(!ws[i].rect().conflicts(&ws[j].rect()), "{} and {}", i, j);
            }
        }
    }
}

#[test]
fn click_on_knob_outside_dial_sets_value_by_angle() {
    let mut c = DragDropCanvas::new();
    let k = c.spawn_on_canvas(knob());
    // Dial center at (735, 57); (700, 57) is left of it, off the dial.
    c.handle_pointer_event(press(700, 57));
    assert!(matches!(c.interaction, Interaction::Dragging { .. }));
    c.handle_pointer_event(release(700, 57));
    assert_eq!(kind_of(&c, k), WidgetKind::Knob { value: 100, min: 0, max: 100 });
    assert_eq!(pos_of(&c, k), Point::new(690, 20));
}

#[test]
fn press_and_release_in_one_tick_clicks() {
    let mut c = DragDropCanvas::new();
    let t = c.spawn_on_canvas(toggle());
    let ev = PointerEvent { pos: Some(Point::new(710, 30)), pressed: true, released: true, held: false, secondary_pressed: false };
    c.handle_pointer_event(ev);
    assert_eq!(c.interaction, Interaction::Idle);
    assert_eq!(kind_of(&c, t), WidgetKind::ToggleSwitch { on: true });
}

#[test]
fn palette_release_outside_viewport_drops_nothing() {
    let mut c = DragDropCanvas::new();
    c.begin_palette_drag(toggle());
    c.handle_pointer_event(hold(300, 300));
    assert_eq!(c.interaction, Interaction::PaletteDragging { kind: toggle(), pointer: Some(Point::new(300, 300)) });
    c.handle_pointer_event(release(900, 300));
    assert_eq!(c.interaction, Interaction::Idle);
    assert_eq!(c.list_widgets().len(), 0);
    assert_eq!(c.next_id, 0);
    c.begin_palette_drag(toggle());
    let gone = PointerEvent { pos: None, pressed: false, released: true, held: false, secondary_pressed: false };
    c.handle_pointer_event(gone);
    assert_eq!(c.interaction, Interaction::Idle);
    assert_eq!(c.list_widgets().len(), 0);
}

#[test]
fn palette_drop_over_selected_container() {
    let mut c = DragDropCanvas::new();
    let p = c.spawn_on_canvas(panel(300, 300));
    c.select_container(Some(p));
    c.begin_palette_drag(toggle());
    c.handle_pointer_event(release(490, 70));
    let t = c.next_id - 1;
    assert_eq!(pos_of(&c, t), Point::new(490, 70));
    assert_eq!(c.container_of(t), Some(p));
    let d = c.spawn_widget_directly(toggle());
    assert_eq!(pos_of(&c, d), Point::new(699, 60));
    assert_eq!(c.container_of(d), Some(p));
    assert_eq!(c.contained_ids(p), vec![t, d]);
}

#[test]
fn drop_moves_widget_into_deeper_container() {
    let mut c = DragDropCanvas::new();
    let outer = c.spawn_on_canvas(panel(500, 400));
    let inner = c.spawn_in_container(outer, panel(200, 150), None);
    let t = c.spawn_in_container(outer, toggle(), None);
    assert_eq!(pos_of(&c, inner), Point::new(579, 60));
    assert_eq!(pos_of(&c, t), Point::new(450, 60));
    c.handle_pointer_event(press(460, 70));
    c.handle_pointer_event(hold(660, 130));
    assert_eq!(pos_of(&c, t), Point::new(650, 120));
    c.handle_pointer_event(release(660, 130));
    // The center (690, 150) lies in both panels; the deeper one takes it.
    assert_eq!(c.container_of(t), Some(inner));
    assert_eq!(c.contained_ids(outer), vec![inner]);
}

#[test]
fn clear_canvas_keeps_selection_and_counter() {
    let mut c = DragDropCanvas::new();
    let p = c.spawn_on_canvas(panel(200, 150));
    c.select_container(Some(p));
    c.clear_canvas();
    assert_eq!(c.list_widgets().len(), 0);
    assert_eq!(c.links.len(), 0);
    assert_eq!(c.selected_container(), Some(p));
    assert_eq!(c.next_id, 1);
}

#[test]
fn delete_clears_editing_and_selection() {
    let mut c = DragDropCanvas::new();
    let p = c.spawn_on_canvas(panel(200, 150));
    c.select_container(Some(p));
    c.editing_widget = Some(p);
    assert!(c.delete_widget(p));
    assert_eq!(c.editing_widget, None);
    assert_eq!(c.selected_container(), None);
}
