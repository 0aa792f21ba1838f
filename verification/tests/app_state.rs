use mouse_shaker::{
    App, FrameOutcome, MenuCommand, MouseJiggler, MouseMove, PersistedSettings, RunCommand,
    TrayClick, WaitOutcome, WindowCommand, MAX_INTERVAL_SECS,
};
use mouse_shaker::worker::stop_requested;

fn started() -> App {
    App::new(PersistedSettings {
        mouse_interval_secs: 5,
        key_interval_secs: 10,
        tray_menu_on_left_click: false,
    })
}

#[test]
fn new_app_is_shown_and_holds_settings() {
    let app = started();
    assert!(!app.is_window_hidden);
    assert!(!app.allow_exit);
    assert!(!app.was_minimized);
    assert_eq!(app.mouse_interval_secs, 5);
    assert_eq!(app.key_interval_secs, 10);
    assert_eq!(app.settings_to_persist(), None);
}

#[test]
fn window_toggle_twice_restores() {
    let mut app = started();
    let before = app;
    assert_eq!(app.toggle_window(), WindowCommand::Hide);
    assert!(app.is_window_hidden);
    assert_eq!(App::tray_window_label(app.is_window_hidden), "Open");
    assert_eq!(app.toggle_window(), WindowCommand::Restore);
    assert_eq!(app, before);
    assert_eq!(App::tray_window_label(app.is_window_hidden), "Minimize");
}

#[test]
fn close_request_hides_until_exit() {
    let mut app = started();
    assert_eq!(app.on_frame(true, false), FrameOutcome::CancelCloseAndHide);
    assert!(app.is_window_hidden);
    let before = app;
    let asked = app.on_menu_command(MenuCommand::Exit, true);
    assert_eq!(asked.run, RunCommand::Stop);
    assert!(asked.exit);
    assert!(!asked.close);
    assert_eq!(app, before);
    // While the workers stop, a close request is still turned into hiding.
    assert_eq!(app.on_frame(true, false), FrameOutcome::CancelCloseAndHide);
    let out = app.finish_exit();
    assert_eq!(out.run, RunCommand::Keep);
    assert_eq!(out.window, WindowCommand::Restore);
    assert!(out.close);
    assert!(app.allow_exit);
    assert!(!app.is_window_hidden);
    assert_eq!(app.on_frame(true, false), FrameOutcome::Draw);
}

#[test]
fn minimize_hides_once() {
    let mut app = started();
    assert_eq!(app.on_frame(false, true), FrameOutcome::HideMinimized);
    assert!(app.is_window_hidden && app.was_minimized);
    assert_eq!(app.on_frame(false, true), FrameOutcome::Draw);
    assert_eq!(app.on_frame(false, false), FrameOutcome::Draw);
    assert!(!app.was_minimized);
}

#[test]
fn run_toggle_from_menu_uses_sanitized_intervals() {
    let mut app = started();
    app.mouse_interval_secs = 0;
    app.key_interval_secs = 99999;
    let out = app.on_menu_command(MenuCommand::RunToggle, false);
    assert_eq!(
        out.run,
        RunCommand::Start { mouse_interval_secs: 1, key_interval_secs: MAX_INTERVAL_SECS }
    );
    assert_eq!(out.run, app.run_toggle(false));
    assert_eq!(app.on_menu_command(MenuCommand::RunToggle, true).run, RunCommand::Stop);
    assert!(!app.on_menu_command(MenuCommand::Other, true).repaint);
}

#[test]
fn tray_left_click_respects_menu_mode() {
    let mut app = started();
    assert_eq!(app.on_tray_click(TrayClick::LeftRelease), WindowCommand::Hide);
    assert_eq!(app.on_tray_click(TrayClick::LeftDoubleClick), WindowCommand::Restore);
    assert_eq!(app.on_tray_click(TrayClick::Other), WindowCommand::Keep);
    assert!(app.set_tray_menu_on_left_click(true));
    assert!(!app.set_tray_menu_on_left_click(true));
    assert_eq!(app.on_tray_click(TrayClick::LeftRelease), WindowCommand::Keep);
    assert!(!app.is_window_hidden);
}

#[test]
fn settings_are_saved_once_per_change() {
    let mut app = started();
    app.set_mouse_interval_secs(0);
    assert_eq!(app.mouse_interval_secs, 1);
    app.set_key_interval_secs(5000);
    assert_eq!(app.key_interval_secs, MAX_INTERVAL_SECS);
    let pending = app.settings_to_persist().expect("a change is pending");
    assert_eq!(pending, app.current_settings());
    app.settings_persisted(pending);
    assert_eq!(app.settings_to_persist(), None);
}

#[test]
fn settings_survive_restart() {
    let mut app = started();
    app.set_mouse_interval_secs(42);
    app.set_key_interval_secs(99);
    app.set_tray_menu_on_left_click(true);
    let text = App::serialize_settings(app.current_settings());
    let restarted = App::new(App::settings_from_read(Some(&text)));
    assert_eq!(restarted.current_settings(), app.current_settings());
    assert_eq!(restarted.settings_to_persist(), None);
}

#[test]
fn wait_outcomes_decide_stop() {
    assert!(stop_requested(WaitOutcome::Signalled));
    assert!(stop_requested(WaitOutcome::Disconnected));
    assert!(!stop_requested(WaitOutcome::TimedOut));
}

#[test]
fn mouse_jiggler_leaves_cursor_where_found() {
    let mut w = MouseJiggler::new();
    let mut dx: i64 = 0;
    let mut dy: i64 = 0;
    let outcomes = [WaitOutcome::TimedOut, WaitOutcome::TimedOut, WaitOutcome::Signalled];
    for outcome in outcomes {
        let nudge = w.begin_round(true).expect("running");
        assert_eq!(nudge, MouseMove { dx: 1, dy: 1 });
        dx += nudge.dx as i64;
        dy += nudge.dy as i64;
        let (back, go_on) = w.end_round(outcome);
        dx += back.dx as i64;
        dy += back.dy as i64;
        assert_eq!(go_on, outcome == WaitOutcome::TimedOut);
    }
    assert_eq!((dx, dy), (0, 0));
    assert_eq!(w.begin_round(false), None);
}
