use bettershot::error::CaptureError;
use bettershot::geometry::{Rect, Vec2D};
use bettershot::window::{require, restack, sorted_front_to_back, topmost, window_at, windows_at, WindowId, WindowInfo};

fn xywh(x: f32, y: f32, w: f32, h: f32) -> Rect {
    Rect::from_xywh(x as i64, y as i64, w as i64, h as i64)
}
fn vec2(x: f32, y: f32) -> Vec2D {
    Vec2D::new(x as i64, y as i64)
}

fn win(id: u64, x: f32, y: f32, w: f32, h: f32, z: u32, minimized: bool) -> WindowInfo {
    WindowInfo::new(
        WindowId::new(id),
        &format!("Window {id}"),
        "testapp",
        xywh(x, y, w, h),
        minimized,
        z,
    )
}

fn stack() -> Vec<WindowInfo> {
    vec![
        win(3, 0.0, 0.0, 800.0, 600.0, 2, false),
        win(1, 100.0, 100.0, 200.0, 200.0, 0, false),
        win(2, 50.0, 50.0, 400.0, 400.0, 1, false),
    ]
}

#[test]
fn window_at_returns_the_frontmost_hit() {
    let windows = stack();
    assert_eq!(
        window_at(&windows, vec2(150.0, 150.0)).unwrap().id,
        WindowId::new(1)
    );
    assert_eq!(
        window_at(&windows, vec2(60.0, 60.0)).unwrap().id,
        WindowId::new(2)
    );
    assert_eq!(
        window_at(&windows, vec2(10.0, 10.0)).unwrap().id,
        WindowId::new(3)
    );
}

#[test]
fn window_at_misses_bare_desktop() {
    assert!(window_at(&stack(), vec2(5000.0, 5000.0)).is_none());
    assert!(window_at(&[], vec2(0.0, 0.0)).is_none());
}

#[test]
fn window_at_skips_minimized_windows_even_when_frontmost() {
    let mut windows = stack();
    windows[1].is_minimized = true;
    assert_eq!(
        window_at(&windows, vec2(150.0, 150.0)).unwrap().id,
        WindowId::new(2)
    );
}

#[test]
fn window_at_skips_zero_sized_windows() {
    let windows = vec![
        win(1, 100.0, 100.0, 0.0, 200.0, 0, false),
        win(2, 50.0, 50.0, 400.0, 400.0, 1, false),
    ];
    assert_eq!(
        window_at(&windows, vec2(150.0, 150.0)).unwrap().id,
        WindowId::new(2)
    );
}

#[test]
fn window_at_breaks_z_order_ties_by_enumeration_order() {
    let windows = vec![
        win(7, 0.0, 0.0, 100.0, 100.0, 4, false),
        win(8, 0.0, 0.0, 100.0, 100.0, 4, false),
    ];
    assert_eq!(
        window_at(&windows, vec2(50.0, 50.0)).unwrap().id,
        WindowId::new(7)
    );
}

#[test]
fn window_hit_testing_is_half_open() {
    let windows = vec![win(1, 0.0, 0.0, 100.0, 100.0, 0, false)];
    assert!(window_at(&windows, vec2(0.0, 0.0)).is_some());
    assert!(window_at(&windows, vec2(99.0, 99.0)).is_some());
    assert!(window_at(&windows, vec2(100.0, 50.0)).is_none());
    assert!(window_at(&windows, vec2(50.0, 100.0)).is_none());
}

#[test]
fn window_at_works_with_negative_coordinates() {
    let windows = vec![win(1, -900.0, -300.0, 400.0, 400.0, 0, false)];
    assert_eq!(
        window_at(&windows, vec2(-700.0, -100.0)).unwrap().id,
        WindowId::new(1)
    );
    assert!(window_at(&windows, vec2(-1000.0, -100.0)).is_none());
}

#[test]
fn windows_at_lists_every_hit_front_to_back() {
    let ids: Vec<u64> = windows_at(&stack(), vec2(150.0, 150.0))
        .iter()
        .map(|w| w.id.get())
        .collect();
    assert_eq!(ids, vec![1, 2, 3]);
}

#[test]
fn sorted_front_to_back_drops_minimized_windows() {
    let mut windows = stack();
    windows[0].is_minimized = true;
    let ids: Vec<u64> = sorted_front_to_back(&windows)
        .iter()
        .map(|w| w.id.get())
        .collect();
    assert_eq!(ids, vec![1, 2]);
}

#[test]
fn topmost_is_the_lowest_z_order_visible_window() {
    assert_eq!(topmost(&stack()).unwrap().id, WindowId::new(1));
    let all_minimized: Vec<WindowInfo> = stack()
        .into_iter()
        .map(|mut w| {
            w.is_minimized = true;
            w
        })
        .collect();
    assert!(topmost(&all_minimized).is_none());
}

#[test]
fn require_reports_missing_windows() {
    let windows = stack();
    assert!(require(&windows, WindowId::new(2)).is_ok());
    assert!(matches!(
        require(&windows, WindowId::new(404)),
        Err(CaptureError::NoSuchWindow(id)) if id == WindowId::new(404)
    ));
}

#[test]
fn label_falls_back_to_the_app_name() {
    let mut w = win(1, 0.0, 0.0, 10.0, 10.0, 0, false);
    assert_eq!(w.label(), "Window 1");
    w.title = "   ".into();
    assert_eq!(w.label(), "testapp");
}

#[test]
fn window_id_displays_readably() {
    assert_eq!(WindowId::new(12).describe(), "window#12");
    assert_eq!(WindowId::new(12).get(), 12);
}

#[test]
fn restacking_numbers_windows_from_the_front() {
    let restacked = restack(&stack(), &[10, 30, 20]);
    let order: Vec<(u64, u32)> = restacked.iter().map(|w| (w.id.get(), w.z_order)).collect();
    assert_eq!(order.len(), 3);
    for (id, z) in order {
        let expected = match id {
            3 => 2,
            1 => 0,
            _ => 1,
        };
        assert_eq!(z, expected, "window {id}");
    }
}
