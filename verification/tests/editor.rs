use bettershot::app::{Theme, WindowOptions};
use bettershot::capture::CaptureMode;
use bettershot::codec::{decode, SaveFormat};
use bettershot::editor::{
    digit_index, plan_recopy, recent_labels, remember, swatch_hint, to_core_key, to_modifiers,
    tool_label, Clicked, Color, Control, DocumentState, DrawingStyle, Editor, Key, KeyInput,
    KeyRoute, Modifiers, Outcome, PointerInput, PointerKind, STATUS_MILLIS, Shortcut, ToolChange,
    ToolState, WindowKey, WindowModifiers, Work,
};
use bettershot::geometry::{Rect, Vec2D};
use bettershot::history::{Entry, History};
use bettershot::i18n::{Catalog, Language};
use bettershot::output::OutputError;
use bettershot::picture::RgbaImage;
use bettershot::settings::{Action, CaptureOptions, Config, DaemonConfig, ObscureKind, Tools};

fn config() -> Config {
    Config {
        language: "system".to_owned(),
        theme: Theme::System,
        hide_toolbars: false,
        initial_tool: Tools::Pointer,
        initial_size: 1,
        annotation_scale_bits: 1.0f32.to_bits(),
        default_fill_shapes: false,
        default_round_caps: true,
        obscure: ObscureKind::Blur,
        action_on_enter: Action::SaveToClipboard,
        action_on_escape: Action::Exit,
        early_exit: false,
        save_after_copy: false,
        disable_notifications: false,
        output_filename: None,
        save_format: SaveFormat::Png,
        copy_command: None,
        capture: CaptureOptions {
            mode: CaptureMode::Region,
            delay_seconds: 0,
            include_cursor: false,
            snap_to_windows: true,
        },
        history_size: 5,
        crash_reports: false,
        window: WindowOptions {
            fullscreen: false,
            always_on_top: false,
            no_window_decoration: false,
        },
        daemon: DaemonConfig { enabled: false, tray: true, hotkeys: Vec::new() },
    }
}

fn editor() -> Editor {
    Editor::new(
        &config(),
        RgbaImage::from_pixel(400, 300, [10, 20, 30, 255]).unwrap(),
        Catalog::new(Language::English, None),
    )
}

const IDLE: ToolState = ToolState { active: false, wants_text: false };
const DRAWING: ToolState = ToolState { active: true, wants_text: false };
const TYPING: ToolState = ToolState { active: true, wants_text: true };

fn key(e: &Editor, key: WindowKey, tool: ToolState) -> Shortcut {
    e.handle_accelerator(key, Modifiers::none(), false, tool, &config())
}

fn at(x: i64, y: i64) -> Vec2D {
    Vec2D::new(x, y)
}

/// Press and release the button over an annotation, or over none.
fn click_canvas(e: &mut Editor, hit: Option<usize>) {
    for kind in [PointerKind::Press, PointerKind::Click] {
        let edit = e.plan_edit(kind, at(0, 0));
        assert!(edit.consumed);
        assert_eq!((edit.nudge, edit.record), (None, None));
        e.settle_edit(kind, at(0, 0), hit, false);
    }
}

#[test]
fn a_new_editor_starts_on_the_configured_tool_with_an_empty_scene() {
    let e = editor();
    assert_eq!(e.tool_kind, Tools::Pointer);
    assert_eq!(e.selected, None);
    assert_eq!((e.base_image().width, e.base_image().height), (400, 300));
    assert_eq!(e.outcome(), Outcome::Continue);
}

#[test]
fn switching_tools_creates_the_new_tool() {
    let mut e = editor();
    let steps = e.set_tool(Tools::Arrow);
    assert_eq!(e.tool_kind, Tools::Arrow);
    assert!(steps.contains(&ToolChange::TakeUp(Tools::Arrow)));
    assert!(e.set_tool(Tools::Arrow).is_empty());
    assert_eq!(
        e.set_tool(Tools::Marker),
        [
            ToolChange::PutAway,
            ToolChange::TakeUp(Tools::Marker),
            ToolChange::NumberMarkers,
            ToolChange::Activate
        ]
    );
}

#[test]
fn switching_away_from_text_keeps_what_was_typed() {
    let mut e = editor();
    e.set_tool(Tools::Text);
    let steps = e.set_tool(Tools::Pointer);
    assert_eq!(steps[0], ToolChange::PutAway, "text must survive");
}

#[test]
fn escape_cancels_the_tool_before_it_quits_the_app() {
    let mut e = editor();
    e.set_tool(Tools::Rectangle);
    assert_eq!(key(&e, WindowKey::Escape, DRAWING), Shortcut::Dismiss);
    assert_eq!(e.outcome(), Outcome::Continue, "and the app should stay up");

    match key(&e, WindowKey::Escape, IDLE) {
        Shortcut::Perform(action) => assert_eq!(e.perform(action), Work::Rest),
        other => panic!("unexpected: {other:?}"),
    }
    assert_eq!(e.outcome(), Outcome::Quit);
}

#[test]
fn digits_select_palette_colours() {
    let mut e = editor();
    e.set_tool(Tools::Arrow);
    assert_eq!(key(&e, WindowKey::Digit(2), IDLE), Shortcut::PickColor(1));
    assert_eq!(swatch_hint("red", 1), "red — press 2");
    assert_eq!(swatch_hint("blue", 9), "blue — press 0");
    assert_eq!(swatch_hint("pink", 10), "pink");
}

#[test]
fn digits_do_not_hijack_typing() {
    let mut e = editor();
    e.set_tool(Tools::Text);
    assert_eq!(
        key(&e, WindowKey::Digit(2), TYPING),
        Shortcut::Pass,
        "the digit must reach the text tool"
    );
}

#[test]
fn enter_is_left_to_the_text_tool_while_typing() {
    let mut e = editor();
    e.set_tool(Tools::Text);
    assert_eq!(key(&e, WindowKey::Enter, TYPING), Shortcut::Pass);
    assert_eq!(e.outcome(), Outcome::Continue);
}

#[test]
fn enter_crops_or_does_what_it_is_configured_to() {
    let mut e = editor();
    assert_eq!(
        key(&e, WindowKey::Enter, IDLE),
        Shortcut::Perform(Action::SaveToClipboard)
    );
    e.set_tool(Tools::Crop);
    assert_eq!(key(&e, WindowKey::Enter, IDLE), Shortcut::ApplyCrop);
}

#[test]
fn shortcuts_take_the_accelerator() {
    let e = editor();
    let ctrl = Modifiers { ctrl: true, ..Modifiers::none() };
    let ctrl_shift = Modifiers { shift: true, ..ctrl };
    let ctrl_alt = Modifiers { alt: true, ..ctrl };
    for (k, mods, expected) in [
        (WindowKey::Z, ctrl, Shortcut::Undo),
        (WindowKey::Z, ctrl_shift, Shortcut::Redo),
        (WindowKey::Y, ctrl, Shortcut::Redo),
        (WindowKey::C, ctrl, Shortcut::Perform(Action::SaveToClipboard)),
        (WindowKey::C, ctrl_alt, Shortcut::CopyPath),
        (WindowKey::S, ctrl, Shortcut::Perform(Action::SaveToFile)),
        (WindowKey::S, ctrl_shift, Shortcut::Perform(Action::SaveAs)),
        (WindowKey::T, ctrl, Shortcut::ToggleToolbars),
        (WindowKey::Comma, ctrl, Shortcut::ToggleSettings),
        (WindowKey::Equals, ctrl, Shortcut::ZoomIn),
        (WindowKey::Minus, ctrl, Shortcut::ZoomOut),
        (WindowKey::Digit(0), ctrl, Shortcut::Fit),
        (WindowKey::Digit(1), ctrl, Shortcut::Pass),
        (WindowKey::Escape, ctrl, Shortcut::Pass),
    ] {
        assert_eq!(e.handle_accelerator(k, mods, false, IDLE, &config()), expected, "{k:?}");
    }
}

#[test]
fn a_click_that_starts_and_ends_in_one_frame_does_not_latch_the_pointer() {
    let mut e = editor();
    e.set_tool(Tools::Rectangle);
    let input = PointerInput {
        present: true,
        pressed: true,
        released: true,
        middle_down: false,
        moved: true,
        wheel_vertical: false,
        wheel_horizontal: false,
        ctrl: false,
        hovered: true,
        held: false,
    };
    let actions = e.handle_pointer(input);
    assert!(actions.press && actions.release, "the release was lost");
    assert!(!actions.motion, "a plain mouse move was reported as a drag");
}

#[test]
fn the_wheel_scrolls_and_the_middle_button_pans() {
    let still = PointerInput {
        present: true,
        pressed: false,
        released: false,
        middle_down: false,
        moved: false,
        wheel_vertical: false,
        wheel_horizontal: false,
        ctrl: false,
        hovered: true,
        held: false,
    };
    let mut e = editor();
    let a = e.handle_pointer(PointerInput { wheel_vertical: true, ..still });
    assert!(a.scroll && !a.zoom);
    let a = e.handle_pointer(PointerInput { wheel_vertical: true, ctrl: true, ..still });
    assert!(a.zoom && !a.scroll);
    let a = e.handle_pointer(PointerInput { middle_down: true, ..still });
    assert!(a.cancel && a.pan, "a pan gives up the gesture in progress");
    let a = e.handle_pointer(PointerInput { middle_down: true, moved: true, ..still });
    assert!(!a.cancel && a.pan && !a.motion);
    let a = e.handle_pointer(PointerInput { moved: true, ..still });
    assert!(a.motion && !e.panning);
    let a = e.handle_pointer(PointerInput { moved: true, hovered: false, held: true, ..still });
    assert!(a.motion, "a gesture goes on outside the image");
    let a = e.handle_pointer(PointerInput { present: false, pressed: true, ..still });
    assert!(!a.press);
}

#[test]
fn the_pointer_tool_selects_an_annotation_it_is_clicked_on() {
    let mut e = editor();
    click_canvas(&mut e, Some(0));
    assert_eq!(e.selected, Some(0));

    click_canvas(&mut e, None);
    assert_eq!(e.selected, None);
}

#[test]
fn the_pointer_tool_never_draws() {
    let mut e = editor();
    for (kind, delta) in [
        (PointerKind::Press, at(0, 0)),
        (PointerKind::Drag, at(80, 40)),
        (PointerKind::EndDrag, at(80, 40)),
        (PointerKind::Motion, at(0, 0)),
    ] {
        let edit = e.plan_edit(kind, delta);
        assert_eq!((edit.nudge, edit.record), (None, None), "nothing new was drawn");
        e.settle_edit(kind, delta, None, false);
    }
}

#[test]
fn dragging_a_selected_annotation_moves_it_as_one_undo_step() {
    let mut e = editor();
    let before = (50i128, 50i128);
    let mut pos = before;
    let mut recorded = Vec::new();
    e.settle_edit(PointerKind::Press, at(0, 0), Some(0), false);
    for (kind, delta) in [
        (PointerKind::Drag, at(20, 10)),
        (PointerKind::Drag, at(40, 20)),
        (PointerKind::Drag, at(60, 30)),
        (PointerKind::EndDrag, at(60, 30)),
    ] {
        let edit = e.plan_edit(kind, delta);
        if let Some((index, step)) = edit.nudge {
            assert_eq!(index, 0);
            pos = (pos.0 + step.dx, pos.1 + step.dy);
        }
        recorded.extend(edit.record);
        e.settle_edit(kind, delta, None, true);
    }
    assert_eq!(pos, (before.0 + 60, before.1 + 30));
    assert_eq!(recorded, [(0, at(60, 30))], "one step takes the whole drag back");
    assert_eq!(e.drag_total, at(0, 0));
}

#[test]
fn a_release_makes_up_for_a_move_that_was_not_seen() {
    let mut e = editor();
    e.settle_edit(PointerKind::Press, at(0, 0), Some(2), false);
    e.settle_edit(PointerKind::Drag, at(5, 5), None, true);
    let edit = e.plan_edit(PointerKind::EndDrag, at(9, 3));
    let (index, step) = edit.nudge.unwrap();
    assert_eq!((index, step.dx, step.dy), (2, 4, -2));
    assert_eq!(edit.record, Some((2, at(9, 3))));
}

#[test]
fn delete_removes_the_selected_annotation_and_undo_brings_it_back() {
    let mut e = editor();
    click_canvas(&mut e, Some(0));
    assert_eq!(e.selected, Some(0));

    assert_eq!(key(&e, WindowKey::Delete, IDLE), Shortcut::DeleteSelected);
    assert_eq!(key(&e, WindowKey::Backspace, IDLE), Shortcut::DeleteSelected);
    assert_eq!(e.plan_delete(), Some(0));
    e.deleted(true);
    assert_eq!(e.selected, None, "the selection goes with it");
    assert_eq!(e.status.as_deref(), Some("Deleted"));

    e.undone(true, 1);
    assert_eq!(e.status.as_deref(), Some("Undo"));
    e.redone(false, 1);
    assert_eq!(e.status.as_deref(), Some("Undo"));
    e.redone(true, 0);
    assert_eq!(e.status.as_deref(), Some("Redo"));
}

#[test]
fn delete_with_nothing_selected_does_not_destroy_anything() {
    let mut e = editor();
    assert_eq!(key(&e, WindowKey::Delete, IDLE), Shortcut::DeleteSelected);
    assert_eq!(e.plan_delete(), None);
    assert_eq!(e.status.as_deref(), Some("Nothing selected"));
}

#[test]
fn shift_delete_still_clears_everything_rather_than_deleting_one() {
    let mut e = editor();
    click_canvas(&mut e, Some(0));
    let shift = Modifiers { shift: true, ..Modifiers::none() };
    assert_eq!(
        e.handle_accelerator(WindowKey::Delete, shift, false, IDLE, &config()),
        Shortcut::Reset
    );
    e.reset();
    assert_eq!(e.selected, None);
    assert!(e.scene_dirty);
}

#[test]
fn switching_tools_drops_the_selection() {
    let mut e = editor();
    click_canvas(&mut e, Some(0));
    assert!(e.selected.is_some());
    e.set_tool(Tools::Arrow);
    assert_eq!(e.selected, None);
}

#[test]
fn undoing_past_the_selected_annotation_clears_the_selection() {
    let mut e = editor();
    click_canvas(&mut e, Some(0));
    assert!(e.selected.is_some());
    e.undone(true, 1);
    assert_eq!(e.selected, Some(0));
    e.undone(true, 0);
    assert_eq!(e.selected, None, "a stale index must not survive");
}

#[test]
fn key_mapping_covers_the_editing_keys_and_ignores_characters() {
    assert_eq!(to_core_key(WindowKey::Escape), Some(Key::Escape));
    assert_eq!(to_core_key(WindowKey::ArrowLeft), Some(Key::Left));
    assert_eq!(to_core_key(WindowKey::Backspace), Some(Key::Backspace));
    assert_eq!(to_core_key(WindowKey::Other), None);
    assert_eq!(to_core_key(WindowKey::C), None);
}

#[test]
fn digit_keys_map_with_zero_last() {
    assert_eq!(digit_index(WindowKey::Digit(1)), Some(0));
    assert_eq!(digit_index(WindowKey::Digit(9)), Some(8));
    assert_eq!(digit_index(WindowKey::Digit(0)), Some(9));
    assert_eq!(digit_index(WindowKey::Other), None);
}

const NO_MODIFIERS: WindowModifiers =
    WindowModifiers { shift: false, ctrl: false, alt: false, mac_cmd: false, command: false };

#[test]
fn the_accelerator_modifier_follows_the_platform() {
    for macos in [false, true] {
        let cmd = to_modifiers(
            WindowModifiers { mac_cmd: true, command: true, ..NO_MODIFIERS },
            macos,
        );
        assert!(cmd.meta, "Command must map to meta");
        assert_eq!(
            cmd.command(macos),
            macos,
            "Command is the accelerator on macOS only"
        );

        let ctrl = to_modifiers(
            WindowModifiers { ctrl: true, command: !macos, ..NO_MODIFIERS },
            macos,
        );
        assert_eq!(
            ctrl.command(macos),
            !macos,
            "Control is the accelerator everywhere except macOS"
        );
    }
}

#[test]
fn modifier_mapping_preserves_each_flag() {
    let m = to_modifiers(
        WindowModifiers { shift: true, ctrl: true, alt: false, ..NO_MODIFIERS },
        false,
    );
    assert!(m.shift && m.ctrl && !m.alt);
}

#[test]
fn cropping_replaces_the_image_and_says_so() {
    let mut e = editor();
    let rect = Rect::from_xywh(10, 20, 100, 50);
    e.apply_crop(Some(rect), Some((100, 50)), 0);
    assert_eq!(e.base_image().width, 400, "another tool crops nothing");
    e.set_tool(Tools::Crop);
    e.apply_crop(None, None, 0);
    assert!(e.status.as_deref().unwrap().starts_with("Nothing to crop"));
    e.apply_crop(Some(rect), None, 0);
    assert_eq!(e.base_image().width, 400, "the document refused");
    e.apply_crop(Some(rect), Some((100, 50)), 0);
    assert_eq!((e.base_image().width, e.base_image().height), (100, 50));
    assert_eq!(e.status.as_deref(), Some("Cropped to 100×50"));
}

#[test]
fn a_copy_can_be_followed_by_a_save_or_by_leaving() {
    let mut e = editor();
    let (notice, work) = e.finish_copy(&config(), Ok(()));
    assert_eq!(notice.unwrap().summary, "Screenshot copied");
    assert_eq!(work, Work::Rest);
    assert_eq!(e.outcome(), Outcome::Continue);

    let eager = Config { save_after_copy: true, early_exit: true, ..config() };
    let (_, work) = e.finish_copy(&eager, Ok(()));
    assert_eq!(work, Work::Save);
    assert_eq!(e.outcome(), Outcome::Continue, "leaving is up to the save");
    let notice = e.finish_save(&eager, Ok(Some("/tmp/a.png".to_owned())));
    assert_eq!(notice.unwrap().body, "/tmp/a.png");
    assert_eq!(e.outcome(), Outcome::Quit);
}

#[test]
fn failed_output_is_reported_and_nobody_leaves() {
    let eager = Config { early_exit: true, ..config() };
    let mut e = editor();
    e.finish_copy(&eager, Err(OutputError::Clipboard("busy".to_owned())));
    assert_eq!(e.status.as_deref(), Some("Copy failed: clipboard unavailable: busy"));
    e.finish_save(&eager, Err(OutputError::NoOutputPath));
    assert!(e.status.as_deref().unwrap().starts_with("Save failed: no output filename"));
    e.finish_save(&eager, Ok(None));
    assert_eq!(e.outcome(), Outcome::Continue);
}

#[test]
fn the_path_of_the_last_save_can_be_copied() {
    let mut e = editor();
    assert_eq!(e.plan_copy_path(), None);
    assert!(e.status.is_some());
    e.finish_save(&config(), Ok(Some("/tmp/a.png".to_owned())));
    assert_eq!(e.status.as_deref(), Some("Saved to /tmp/a.png"));
    assert_eq!(e.plan_copy_path().as_deref(), Some("/tmp/a.png"));
    e.finish_copy_path("/tmp/a.png", Ok(()));
    assert_eq!(e.status.as_deref(), Some("Copied path: /tmp/a.png"));
}

#[test]
fn a_remembered_capture_comes_back_with_its_pixels() {
    let rendered = RgbaImage::from_raw(2, 1, vec![1, 2, 3, 255, 9, 8, 7, 0]).unwrap();
    let mut history = History::new(2);
    remember(&config(), &mut history, &rendered, 3);
    remember(&config(), &mut history, &rendered, 3);
    assert_eq!(recent_labels(&history), [(0, "2×1, 3 annotation(s)".to_owned())]);
    let again = decode(&history.get(0).unwrap().png).unwrap();
    assert_eq!(again.data, rendered.data);

    let off = Config { history_size: 0, ..config() };
    let mut unused = History::new(2);
    remember(&off, &mut unused, &rendered, 3);
    assert!(unused.is_empty());
}

#[test]
fn copying_an_earlier_capture_names_its_size() {
    let entry = Entry { png: Vec::new(), width: 20, height: 10, label: String::new() };
    let mut e = editor();
    assert!(e.finish_recopy(&config(), &entry, Ok(())).is_some());
    assert_eq!(e.status.as_deref(), Some("Copied 20×10 again"));
    let silent = Config { disable_notifications: true, ..config() };
    assert!(e.finish_recopy(&silent, &entry, Ok(())).is_none());
}

#[test]
fn a_status_message_expires() {
    let mut e = editor();
    e.set_status("hello");
    e.expire_status(STATUS_MILLIS - 1);
    assert_eq!(e.status.as_deref(), Some("hello"));
    e.expire_status(STATUS_MILLIS);
    assert_eq!(e.status, None);
}

#[test]
fn changed_settings_take_effect_and_are_reported_once() {
    let mut e = editor();
    assert!(!e.take_config_change());
    e.settings_changed(&Config { hide_toolbars: true, ..config() });
    assert!(!e.show_toolbars);
    assert!(e.take_config_change());
    assert!(!e.take_config_change());
    e.toggle_toolbars();
    assert!(e.show_toolbars);
}

#[test]
fn every_tool_has_a_label() {
    let strings = Catalog::new(Language::English, None);
    assert_eq!(tool_label(&strings, Tools::Arrow), "Arrow");
    for kind in [Tools::Pointer, Tools::Crop, Tools::Line, Tools::Text, Tools::Blur] {
        assert!(!tool_label(&strings, kind).starts_with("tool."), "{kind:?}");
    }
}

#[test]
fn a_committed_marker_numbers_the_next_one() {
    let mut e = editor();
    e.scene_dirty = false;
    assert!(!e.committed());
    assert!(e.scene_dirty);
    e.set_tool(Tools::Marker);
    assert!(e.committed());
}

#[test]
fn a_key_goes_to_the_application_or_to_the_tool_but_never_to_both() {
    let e = editor();
    let pressed = |key| KeyInput::Pressed(key, Modifiers::none());
    let route = |input, tool| e.handle_key(input, false, tool, &config());
    assert_eq!(
        route(pressed(WindowKey::Escape), DRAWING),
        KeyRoute::Application(Shortcut::Dismiss)
    );
    assert_eq!(
        route(pressed(WindowKey::Home), IDLE),
        KeyRoute::Tool(Key::Home, Modifiers::none())
    );
    assert_eq!(route(pressed(WindowKey::C), IDLE), KeyRoute::Nowhere);
    assert_eq!(route(KeyInput::Released, IDLE), KeyRoute::Nowhere);
    assert_eq!(route(KeyInput::Typed, TYPING), KeyRoute::ToolText);
    assert_eq!(route(KeyInput::Typed, DRAWING), KeyRoute::Nowhere);
}

#[test]
fn the_toolbars_offer_what_works() {
    let mut e = editor();
    e.set_status("hello");
    let mut history = History::new(2);
    let fresh = DocumentState { can_undo: true, can_redo: false };
    let bars = e.toolbars(fresh, false, &history, 0).unwrap();
    assert_eq!(bars.message.as_deref(), Some("hello"));
    assert_eq!(bars.click(Control::Undo), Clicked::Shortcut(Shortcut::Undo));
    assert_eq!(bars.click(Control::Redo), Clicked::Nothing);
    assert_eq!(bars.click(Control::ApplyCrop), Clicked::Nothing);
    assert_eq!(bars.click(Control::Color(0)), Clicked::Nothing);
    assert_eq!(bars.click(Control::Recent(0)), Clicked::Nothing);
    assert_eq!(bars.click(Control::Tool(Tools::Line)), Clicked::Tool(Tools::Line));

    history.push(Entry { png: vec![1], width: 1, height: 1, label: "old".to_owned() });
    e.set_tool(Tools::Crop);
    let bars = e.toolbars(fresh, true, &history, STATUS_MILLIS).unwrap();
    assert_eq!(bars.message, None);
    assert_eq!(bars.recent, [(0, "old".to_owned())]);
    assert_eq!(bars.click(Control::Recent(0)), Clicked::Recopy(0));
    assert_eq!(bars.click(Control::ApplyCrop), Clicked::Shortcut(Shortcut::ApplyCrop));
    assert_eq!(bars.click(Control::Color(1)), Clicked::Shortcut(Shortcut::PickColor(1)));

    e.toggle_toolbars();
    assert!(e.toolbars(fresh, true, &history, 0).is_none());
}

#[test]
fn only_a_capture_that_is_there_is_copied_again() {
    let mut history = History::new(2);
    assert!(plan_recopy(&history, 0, None).is_none());
    history.push(Entry { png: vec![1], width: 1, height: 1, label: String::new() });
    assert!(plan_recopy(&history, 0, Some("wl-copy")).unwrap().is_ok());
    assert!(plan_recopy(&history, 0, None).unwrap().is_err(), "that is no PNG");
}

#[test]
fn the_pointer_tool_edits_and_every_other_tool_draws() {
    let mut e = editor();
    assert!(e.dispatch_mouse(PointerKind::Press, at(0, 0)).is_some());
    e.set_tool(Tools::Line);
    assert!(e.dispatch_mouse(PointerKind::Press, at(0, 0)).is_none());
}

#[test]
fn previews_are_refreshed_while_there_are_any() {
    let mut e = editor();
    assert!(e.refresh_effects(false, false));
    assert!(!e.refresh_effects(false, false));
    assert!(e.refresh_effects(true, false));
    assert!(e.refresh_effects(false, true));
}

#[test]
fn markers_follow_every_change_of_the_document() {
    let mut e = editor();
    e.set_tool(Tools::Marker);
    assert!(e.committed());
    assert!(e.undone(true, 1));
    assert!(!e.undone(false, 1), "nothing was taken back");
    assert!(e.redone(true, 2));
    assert!(e.deleted(true));
    assert!(e.reset());
    e.set_tool(Tools::Arrow);
    assert!(!e.committed());
    assert!(!e.undone(true, 1));
    assert!(!e.redone(true, 1));
    assert!(!e.deleted(true));
    assert!(!e.reset());
}

#[test]
fn a_successful_copy_is_remembered() {
    let mut e = editor();
    let mut history = History::new(3);
    let picture = RgbaImage::from_pixel(3, 2, [1, 2, 3, 255]).unwrap();
    let (notice, _) = e.settle_copy(&config(), &mut history, &picture, 2, Ok(()));
    assert!(notice.is_some());
    assert_eq!(e.status.as_deref(), Some("Copied to clipboard"));
    assert_eq!(history.len(), 1);
    assert_eq!(history.get(0).unwrap().label, "3×2, 2 annotation(s)");
    let failed = Err(OutputError::Clipboard("busy".to_owned()));
    e.settle_copy(&config(), &mut history, &picture, 3, failed);
    assert_eq!(history.len(), 1, "nothing was copied");
    let off = Config { history_size: 0, ..config() };
    e.settle_copy(&off, &mut history, &picture, 4, Ok(()));
    assert_eq!(history.get(0).unwrap().label, "3×2, 2 annotation(s)");
}

#[test]
fn what_is_in_use_is_marked() {
    let mut e = editor();
    e.set_tool(Tools::Arrow);
    let red = Color { red: 255, green: 0, blue: 0, alpha: 255 };
    let blue = Color { red: 0, green: 0, blue: 255, alpha: 255 };
    let style = DrawingStyle { color: red, size: 1, fill: false };
    let palette = [blue, red, red];
    let marked = |control| e.is_current(control, style, &palette);
    assert!(marked(Control::Tool(Tools::Arrow)));
    assert!(!marked(Control::Tool(Tools::Crop)));
    assert!(!marked(Control::Color(0)));
    assert!(marked(Control::Color(1)) && marked(Control::Color(2)));
    assert!(!marked(Control::Color(3)));
    assert!(marked(Control::Size(1)) && !marked(Control::Size(0)));
    assert!(marked(Control::Fill(false)) && !marked(Control::Fill(true)));
    assert!(!marked(Control::Undo));
}
