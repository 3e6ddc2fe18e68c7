use bettershot::capture::CaptureMode;
use bettershot::geometry::{Rect, Vec2D};
use bettershot::overlay::{crop_to, draw_toolbar, hint, size_label, surrounding_bands, Button, Keys, Overlay, PointerFrame, RegionSelection, Selection, Shown};
use bettershot::picture::RgbaImage;
use bettershot::window::{WindowId, WindowInfo};

fn xywh(x: f32, y: f32, w: f32, h: f32) -> Rect {
    Rect::from_xywh(x as i64, y as i64, w as i64, h as i64)
}
fn vec2(x: f32, y: f32) -> Vec2D {
    Vec2D::new(x as i64, y as i64)
}

fn selection(mode: CaptureMode, snap: bool) -> RegionSelection {
    RegionSelection::new(
        xywh(0.0, 0.0, 1000.0, 800.0),
        vec![
            xywh(0.0, 0.0, 600.0, 500.0),
            xywh(100.0, 100.0, 200.0, 150.0),
        ],
        vec![
            xywh(0.0, 0.0, 500.0, 800.0),
            xywh(500.0, 0.0, 500.0, 800.0),
        ],
        mode,
        snap,
    )
}

#[test]
fn monitor_mode_previews_the_monitor_under_the_pointer() {
    let mut s = selection(CaptureMode::Monitor, false);
    s.set_hover(Some(vec2(700.0, 400.0)));
    assert_eq!(
        s.current().unwrap(),
        xywh(500.0, 0.0, 500.0, 800.0),
        "the right-hand monitor"
    );
    s.set_hover(Some(vec2(100.0, 400.0)));
    assert_eq!(
        s.current().unwrap(),
        xywh(0.0, 0.0, 500.0, 800.0)
    );
}

#[test]
fn monitor_mode_clicks_select_a_whole_monitor_not_a_window() {
    let mut s = selection(CaptureMode::Monitor, false);
    let at = vec2(50.0, 50.0);
    s.begin_drag(at);
    assert_eq!(
        s.end_drag(at),
        Some(xywh(0.0, 0.0, 500.0, 800.0))
    );

    let mut s = selection(CaptureMode::Window, false);
    s.begin_drag(at);
    assert_eq!(
        s.end_drag(at),
        Some(xywh(0.0, 0.0, 600.0, 500.0))
    );
}

#[test]
fn switching_mode_abandons_a_drag_in_progress() {
    let mut s = selection(CaptureMode::Region, false);
    s.begin_drag(vec2(10.0, 10.0));
    s.update_drag(vec2(400.0, 300.0));
    assert!(s.is_dragging());

    s.set_mode(CaptureMode::Window);
    assert!(!s.is_dragging());
    assert_eq!(s.mode(), CaptureMode::Window);
}

#[test]
fn re_selecting_the_current_mode_leaves_a_drag_alone() {
    let mut s = selection(CaptureMode::Region, false);
    s.begin_drag(vec2(10.0, 10.0));
    s.update_drag(vec2(400.0, 300.0));
    s.set_mode(CaptureMode::Region);
    assert!(s.is_dragging());
}

#[test]
fn a_deliberate_drag_still_wins_in_every_mode() {
    for mode in [
        CaptureMode::Region,
        CaptureMode::Window,
        CaptureMode::Monitor,
    ] {
        let mut s = selection(mode, false);
        s.begin_drag(vec2(600.0, 600.0));
        let dragged = s.end_drag(vec2(800.0, 700.0));
        assert_eq!(
            dragged,
            Some(xywh(600.0, 600.0, 200.0, 100.0)),
            "mode {mode:?}"
        );
    }
}

#[test]
fn a_click_outside_every_monitor_selects_nothing() {
    let mut s = selection(CaptureMode::Monitor, false);
    assert!(s.monitor_at(vec2(5000.0, 5000.0)).is_none());
    s.begin_drag(vec2(5000.0, 5000.0));
    assert_eq!(s.end_drag(vec2(5000.0, 5000.0)), None);
}

#[test]
fn dragging_selects_the_dragged_rectangle() {
    let mut s = selection(CaptureMode::Region, false);
    s.begin_drag(vec2(100.0, 100.0));
    s.update_drag(vec2(300.0, 250.0));
    assert_eq!(
        s.current().unwrap(),
        xywh(100.0, 100.0, 200.0, 150.0)
    );
    let done = s.end_drag(vec2(300.0, 250.0)).unwrap();
    assert_eq!(done, xywh(100.0, 100.0, 200.0, 150.0));
}

#[test]
fn dragging_backwards_still_gives_a_positive_rectangle() {
    let mut s = selection(CaptureMode::Region, false);
    s.begin_drag(vec2(300.0, 250.0));
    let done = s.end_drag(vec2(100.0, 100.0)).unwrap();
    assert_eq!(done, xywh(100.0, 100.0, 200.0, 150.0));
}

#[test]
fn a_selection_is_clamped_to_the_frame() {
    let mut s = selection(CaptureMode::Region, false);
    s.begin_drag(vec2(-500.0, -500.0));
    let done = s.end_drag(vec2(5000.0, 5000.0)).unwrap();
    assert_eq!(done, xywh(0.0, 0.0, 1000.0, 800.0));
}

#[test]
fn clicking_without_dragging_picks_the_window_underneath() {
    let mut s = selection(CaptureMode::Region, true);
    s.begin_drag(vec2(150.0, 150.0));
    let done = s.end_drag(vec2(151.0, 150.0)).expect("should snap");
    assert_eq!(done, xywh(100.0, 100.0, 200.0, 150.0));
}

#[test]
fn the_innermost_window_wins_when_they_overlap() {
    let s = selection(CaptureMode::Window, true);
    assert_eq!(
        s.window_at(vec2(150.0, 150.0)).unwrap(),
        xywh(100.0, 100.0, 200.0, 150.0)
    );
    assert_eq!(
        s.window_at(vec2(500.0, 400.0)).unwrap(),
        xywh(0.0, 0.0, 600.0, 500.0)
    );
    assert!(s.window_at(vec2(900.0, 700.0)).is_none());
}

#[test]
fn window_mode_previews_the_window_under_the_pointer() {
    let mut s = selection(CaptureMode::Window, false);
    s.set_hover(Some(vec2(150.0, 150.0)));
    assert_eq!(
        s.current().unwrap(),
        xywh(100.0, 100.0, 200.0, 150.0),
        "window mode should preview even with snapping off"
    );
}

#[test]
fn region_mode_without_snapping_shows_no_window_hint() {
    let mut s = selection(CaptureMode::Region, false);
    s.set_hover(Some(vec2(150.0, 150.0)));
    assert!(s.current().is_none());
}

#[test]
fn region_mode_with_snapping_hints_until_a_drag_starts() {
    let mut s = selection(CaptureMode::Region, true);
    s.set_hover(Some(vec2(150.0, 150.0)));
    assert!(s.current().is_some(), "hint before dragging");

    s.begin_drag(vec2(400.0, 400.0));
    s.update_drag(vec2(700.0, 600.0));
    assert_eq!(
        s.current().unwrap(),
        xywh(400.0, 400.0, 300.0, 200.0),
        "the drag takes over from the hint"
    );
}

#[test]
fn a_click_on_empty_space_selects_nothing() {
    let mut s = selection(CaptureMode::Region, true);
    s.begin_drag(vec2(900.0, 700.0));
    assert!(s.end_drag(vec2(900.0, 700.0)).is_none());
}

#[test]
fn ending_a_drag_that_never_started_is_harmless() {
    let mut s = selection(CaptureMode::Region, true);
    assert!(s.end_drag(vec2(10.0, 10.0)).is_none());
    assert!(!s.is_dragging());
}

#[test]
fn windows_are_rebased_onto_the_frozen_frame() {
    let windows = vec![WindowInfo {
        id: WindowId::new(1),
        title: "w".into(),
        app_name: "a".into(),
        bounds: xywh(-1900.0, 100.0, 400.0, 300.0),
        is_minimized: false,
        z_order: 0,
    }];
    let image = RgbaImage::from_pixel(1920, 1080, [0, 0, 0, 0]).unwrap();
    let overlay = Overlay::new(
        image,
        &windows,
        &[],
        vec2(-1920.0, 0.0),
        CaptureMode::Window,
        true,
    );
    assert_eq!(
        overlay.selection.window_at(vec2(100.0, 200.0)),
        Some(xywh(20.0, 100.0, 400.0, 300.0))
    );
}

#[test]
fn minimised_windows_are_not_selectable() {
    let windows = vec![WindowInfo {
        id: WindowId::new(1),
        title: "hidden".into(),
        app_name: "a".into(),
        bounds: xywh(0.0, 0.0, 100.0, 100.0),
        is_minimized: true,
        z_order: 0,
    }];
    let overlay = Overlay::new(
        RgbaImage::from_pixel(500, 500, [0, 0, 0, 0]).unwrap(),
        &windows,
        &[],
        vec2(0.0, 0.0),
        CaptureMode::Window,
        true,
    );
    assert!(
        overlay
            .selection
            .window_at(vec2(50.0, 50.0))
            .is_none()
    );
}

#[test]
fn surrounding_bands_cover_everything_except_the_hole() {
    let outer = xywh(0.0, 0.0, 100.0, 100.0);
    let hole = xywh(25.0, 25.0, 50.0, 50.0);
    let bands = surrounding_bands(outer, hole);
    let covered: u128 = bands.iter().map(|b| b.area()).sum();
    assert_eq!(covered, 10000 - 2500);
    assert!(bands.iter().all(|b| b.clamped_to(hole).is_empty()));
}

#[test]
fn an_empty_hole_means_everything_is_dimmed() {
    let outer = xywh(0.0, 0.0, 10.0, 10.0);
    assert_eq!(surrounding_bands(outer, Rect::default()), vec![outer]);
}

fn overlay(mode: CaptureMode) -> Overlay {
    Overlay::new(
        RgbaImage::from_pixel(100, 80, [1, 2, 3, 255]).unwrap(),
        &[],
        &[xywh(0.0, 0.0, 50.0, 80.0), xywh(50.0, 0.0, 50.0, 80.0)],
        vec2(0.0, 0.0),
        mode,
        true,
    )
}

const NO_KEYS: Keys = Keys { escape: false, one: false, two: false, three: false, four: false };

#[test]
fn escape_backs_out_and_the_fourth_digit_takes_everything() {
    let mut o = overlay(CaptureMode::Region);
    o.press(NO_KEYS);
    assert_eq!(o.outcome(), Selection::Pending);
    o.press(Keys { escape: true, ..NO_KEYS });
    assert_eq!(o.outcome(), Selection::Cancelled);
    let mut o = overlay(CaptureMode::Region);
    o.press(Keys { four: true, ..NO_KEYS });
    assert_eq!(o.outcome(), Selection::Confirmed(xywh(0.0, 0.0, 100.0, 80.0)));
    let mut o = overlay(CaptureMode::Region);
    o.press(Keys { three: true, ..NO_KEYS });
    assert_eq!(o.selection.mode(), CaptureMode::Monitor);
}

#[test]
fn buttons_do_what_the_keys_do() {
    let mut o = overlay(CaptureMode::Region);
    o.click(Button::Mode(CaptureMode::Window));
    assert_eq!(o.selection.mode(), CaptureMode::Window);
    o.click(Button::FullScreen);
    assert_eq!(o.outcome(), Selection::Confirmed(xywh(0.0, 0.0, 100.0, 80.0)));
    o.click(Button::Cancel);
    assert_eq!(o.outcome(), Selection::Cancelled);
}

fn pointer(at: Vec2D) -> PointerFrame {
    PointerFrame {
        position: Some(at),
        on_toolbar: false,
        drag_started: false,
        dragged: false,
        finished: false,
    }
}

#[test]
fn a_drag_over_several_frames_confirms_its_rectangle() {
    let mut o = overlay(CaptureMode::Region);
    o.point(PointerFrame { drag_started: true, ..pointer(vec2(10.0, 10.0)) });
    o.point(PointerFrame { dragged: true, ..pointer(vec2(30.0, 20.0)) });
    assert_eq!(o.selection.current(), Some(xywh(10.0, 10.0, 20.0, 10.0)));
    o.point(PointerFrame { finished: true, ..pointer(vec2(40.0, 50.0)) });
    assert_eq!(o.outcome(), Selection::Confirmed(xywh(10.0, 10.0, 30.0, 40.0)));
}

#[test]
fn a_click_in_one_frame_selects_the_monitor() {
    let mut o = overlay(CaptureMode::Monitor);
    o.point(PointerFrame { finished: true, ..pointer(vec2(70.0, 10.0)) });
    assert_eq!(o.outcome(), Selection::Confirmed(xywh(50.0, 0.0, 50.0, 80.0)));
}

#[test]
fn a_pointer_over_the_buttons_drags_nothing() {
    let mut o = overlay(CaptureMode::Region);
    let over = PointerFrame { on_toolbar: true, drag_started: true, ..pointer(vec2(10.0, 10.0)) };
    o.point(over);
    assert!(!o.selection.is_dragging());
    assert_eq!(o.selection.hover(), None);
    assert_eq!(o.outcome(), Selection::Pending);
}

#[test]
fn the_line_and_the_size_follow_the_selection() {
    assert_eq!(hint(CaptureMode::Window), "Click a window · or drag out a region · Esc to cancel");
    assert_eq!(size_label(xywh(5.0, 5.0, 640.0, 480.0)), "640 × 480");
}

#[test]
fn the_confirmed_part_of_the_frame_is_kept() {
    let o = overlay(CaptureMode::Region);
    let cut = crop_to(o.image(), xywh(90.0, 70.0, 50.0, 50.0));
    assert_eq!((cut.width, cut.height), (10, 10));
    assert_eq!(cut.get_pixel(9, 9), Some([1, 2, 3, 255]));
}

#[test]
fn a_decision_ends_the_frame() {
    let mut o = overlay(CaptureMode::Region);
    let click = PointerFrame { finished: true, ..pointer(vec2(70.0, 10.0)) };
    o.draw(Keys { escape: true, ..NO_KEYS }, Some(Button::FullScreen), click);
    assert_eq!(o.outcome(), Selection::Cancelled);
    let mut o = overlay(CaptureMode::Region);
    o.draw(NO_KEYS, Some(Button::FullScreen), click);
    assert_eq!(o.outcome(), Selection::Confirmed(xywh(0.0, 0.0, 100.0, 80.0)));
    let mut o = overlay(CaptureMode::Region);
    o.draw(NO_KEYS, Some(Button::Mode(CaptureMode::Monitor)), click);
    assert_eq!(o.outcome(), Selection::Confirmed(xywh(50.0, 0.0, 50.0, 80.0)));
}

#[test]
fn everything_but_the_selection_is_dimmed() {
    let mut o = overlay(CaptureMode::Region);
    match o.paint_selection() {
        Shown::Waiting { dimmed, hint } => {
            assert_eq!(dimmed, xywh(0.0, 0.0, 100.0, 80.0));
            assert!(hint.starts_with("Drag to select"), "{hint}");
        }
        other => panic!("unexpected: {other:?}"),
    }
    o.point(PointerFrame { drag_started: true, ..pointer(vec2(10.0, 10.0)) });
    o.point(PointerFrame { dragged: true, ..pointer(vec2(30.0, 20.0)) });
    match o.paint_selection() {
        Shown::Selected { dimmed, outline, label } => {
            assert_eq!(dimmed.iter().map(|b| b.area()).sum::<u128>(), 100 * 80 - 20 * 10);
            assert_eq!(outline, xywh(10.0, 10.0, 20.0, 10.0));
            assert_eq!(label, "20 × 10");
        }
        other => panic!("unexpected: {other:?}"),
    }
}

#[test]
fn the_overlay_has_a_button_for_each_thing_to_do() {
    let labels: Vec<&str> = draw_toolbar().iter().map(|(_, label, _)| *label).collect();
    assert_eq!(labels, ["Region", "Window", "Monitor", "Full screen", "✕"]);
}

#[test]
fn the_button_of_the_mode_is_marked() {
    let image = RgbaImage::from_pixel(10, 10, [0, 0, 0, 255]).unwrap();
    let origin = vec2(0.0, 0.0);
    let mut overlay = Overlay::new(image, &[], &[], origin, CaptureMode::Region, false);
    assert!(overlay.is_current(Button::Mode(CaptureMode::Region)));
    assert!(!overlay.is_current(Button::Mode(CaptureMode::Window)));
    overlay.click(Button::Mode(CaptureMode::Window));
    assert!(overlay.is_current(Button::Mode(CaptureMode::Window)));
    assert!(!overlay.is_current(Button::FullScreen));
}
