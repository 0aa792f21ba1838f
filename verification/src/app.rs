//! The application's state and the decisions it takes on window, tray and
//! menu events. Each decision is a function from the state and an event to
//! the next state and what is to be done; the caller does it (shows or
//! hides the window, starts or stops the workers, writes the settings).
use vstd::prelude::*;

use crate::settings::{clamp_interval, interval_in_range, parsed_settings, serialized_settings};
use crate::settings::{law_serialize_then_parse, PersistedSettings};

verus! {

/// The state of the application window and of its settings.
#[derive(Clone, Copy, Debug, PartialEq, Eq, Structural)]
pub struct App {
    /// The window is hidden in the tray.
    pub is_window_hidden: bool,
    /// A close request is let through (set on Exit).
    pub allow_exit: bool,
    /// The window was minimized at the last frame.
    pub was_minimized: bool,
    /// A left click on the tray icon opens the menu instead of toggling the window.
    pub tray_menu_on_left_click: bool,
    /// The mouse interval as last set, in seconds.
    pub mouse_interval_secs: u64,
    /// The key interval as last set, in seconds.
    pub key_interval_secs: u64,
    /// The settings last written to the settings file, or read from it.
    pub persisted_settings: PersistedSettings,
}

/// What to do with the window.
#[derive(Clone, Copy, Debug, PartialEq, Eq, Structural)]
pub enum WindowCommand {
    Keep,
    /// Hide it in the tray.
    Hide,
    /// Show it again, restored and focused.
    Restore,
}

/// What to do with the automation workers.
#[derive(Clone, Copy, Debug, PartialEq, Eq, Structural)]
pub enum RunCommand {
    Keep,
    /// Start both workers with these intervals, in seconds.
    Start { mouse_interval_secs: u64, key_interval_secs: u64 },
    /// Stop both workers.
    Stop,
}

/// An entry of the tray menu that was chosen.
#[derive(Clone, Copy, Debug, PartialEq, Eq, Structural)]
pub enum MenuCommand {
    /// The `Open`/`Minimize` entry.
    WindowToggle,
    /// The `Start`/`Stop` entry.
    RunToggle,
    /// The `Exit` entry.
    Exit,
    /// An entry of no other menu.
    Other,
}

/// A pointer event on the tray icon.
#[derive(Clone, Copy, Debug, PartialEq, Eq, Structural)]
pub enum TrayClick {
    /// The left button went up after a click.
    LeftRelease,
    /// A double click with the left button.
    LeftDoubleClick,
    /// Any other pointer event.
    Other,
}

/// What a chosen menu entry asks for, in this order: the run command, the
/// window command, closing the application, a repaint. Where `exit` is
/// set, `App::finish_exit` is to be called once the run command is done.
#[derive(Clone, Copy, Debug, PartialEq, Eq, Structural)]
pub struct MenuOutcome {
    pub run: RunCommand,
    pub window: WindowCommand,
    pub close: bool,
    pub repaint: bool,
    pub exit: bool,
}

/// How a frame of the window goes.
#[derive(Clone, Copy, Debug, PartialEq, Eq, Structural)]
pub enum FrameOutcome {
    /// Cancel the close request and hide the window in the tray instead.
    CancelCloseAndHide,
    /// The window was just minimized: hide it in the tray.
    HideMinimized,
    /// Draw the window.
    Draw,
}

/// The label of the run action: the action it takes.
pub open spec fn run_label(is_running: bool) -> Seq<char> {
    if is_running {
        "Stop"@
    } else {
        "Start"@
    }
}

/// The label of the window action: the action it takes.
pub open spec fn window_label(is_window_hidden: bool) -> Seq<char> {
    if is_window_hidden {
        "Open"@
    } else {
        "Minimize"@
    }
}

/// The application as it starts with `settings`.
pub open spec fn started_app(settings: PersistedSettings) -> App {
    App {
        is_window_hidden: false,
        allow_exit: false,
        was_minimized: false,
        tray_menu_on_left_click: settings.tray_menu_on_left_click,
        mouse_interval_secs: settings.mouse_interval_secs,
        key_interval_secs: settings.key_interval_secs,
        persisted_settings: settings,
    }
}

impl App {
    /// The state with the window hidden in the tray.
    pub open spec fn hidden(self) -> App {
        App { is_window_hidden: true, ..self }
    }

    /// The state with the window shown.
    pub open spec fn restored(self) -> App {
        App { is_window_hidden: false, ..self }
    }

    /// Toggling the window: a hidden window is restored, a shown one hidden.
    pub open spec fn window_toggled(self) -> (App, WindowCommand) {
        if self.is_window_hidden {
            (self.restored(), WindowCommand::Restore)
        } else {
            (self.hidden(), WindowCommand::Hide)
        }
    }

    /// The `Start`/`Stop` action: stop running workers, or start them
    /// with the configured intervals, clamped into bounds.
    pub open spec fn run_toggled(self, is_running: bool) -> RunCommand {
        if is_running {
            RunCommand::Stop
        } else {
            RunCommand::Start {
                mouse_interval_secs: clamp_interval(self.mouse_interval_secs),
                key_interval_secs: clamp_interval(self.key_interval_secs),
            }
        }
    }

    /// A chosen tray menu entry.
    pub open spec fn menu_step(self, cmd: MenuCommand, is_running: bool) -> (App, MenuOutcome) {
        match cmd {
            MenuCommand::WindowToggle => {
                let (next, window) = self.window_toggled();
                (
                    next,
                    MenuOutcome {
                        run: RunCommand::Keep,
                        window,
                        close: false,
                        repaint: true,
                        exit: false,
                    },
                )
            },
            MenuCommand::RunToggle => (
                self,
                MenuOutcome {
                    run: self.run_toggled(is_running),
                    window: WindowCommand::Keep,
                    close: false,
                    repaint: true,
                    exit: false,
                },
            ),
            MenuCommand::Exit => (
                self,
                MenuOutcome {
                    run: RunCommand::Stop,
                    window: WindowCommand::Keep,
                    close: false,
                    repaint: false,
                    exit: true,
                },
            ),
            MenuCommand::Other => (
                self,
                MenuOutcome {
                    run: RunCommand::Keep,
                    window: WindowCommand::Keep,
                    close: false,
                    repaint: false,
                    exit: false,
                },
            ),
        }
    }

    /// The second step of Exit, once the workers are stopped: close
    /// requests are let through from now on, and the window is shown and
    /// closed.
    pub open spec fn exit_finished(self) -> (App, MenuOutcome) {
        (
            App { allow_exit: true, ..self.restored() },
            MenuOutcome {
                run: RunCommand::Keep,
                window: WindowCommand::Restore,
                close: true,
                repaint: true,
                exit: false,
            },
        )
    }

    /// A pointer event on the tray icon: a left click toggles the window,
    /// unless left clicks are set to open the menu.
    pub open spec fn tray_click_step(self, click: TrayClick) -> (App, WindowCommand) {
        if click != TrayClick::Other && !self.tray_menu_on_left_click {
            self.window_toggled()
        } else {
            (self, WindowCommand::Keep)
        }
    }

    /// The start of a frame: a close request (unless Exit was chosen) and a
    /// fresh minimization hide the window in the tray instead.
    pub open spec fn frame_step(self, close_requested: bool, is_minimized: bool) -> (
        App,
        FrameOutcome,
    ) {
        if close_requested && !self.allow_exit {
            (self.hidden(), FrameOutcome::CancelCloseAndHide)
        } else if is_minimized && !self.was_minimized {
            (App { was_minimized: true, ..self.hidden() }, FrameOutcome::HideMinimized)
        } else {
            (App { was_minimized: is_minimized, ..self }, FrameOutcome::Draw)
        }
    }

    /// The settings as they stand, intervals clamped.
    pub open spec fn current(self) -> PersistedSettings {
        PersistedSettings {
            mouse_interval_secs: clamp_interval(self.mouse_interval_secs),
            key_interval_secs: clamp_interval(self.key_interval_secs),
            tray_menu_on_left_click: self.tray_menu_on_left_click,
        }
    }

    /// The settings to write, where they differ from those last written.
    pub open spec fn pending_save(self) -> Option<PersistedSettings> {
        if self.current() == self.persisted_settings {
            None
        } else {
            Some(self.current())
        }
    }
}

impl App {
    /// The application as it starts, with the settings read at start-up.
    pub fn new(settings: PersistedSettings) -> (app: App)
        ensures
            app == started_app(settings),
    {
        App {
            is_window_hidden: false,
            allow_exit: false,
            was_minimized: false,
            tray_menu_on_left_click: settings.tray_menu_on_left_click,
            mouse_interval_secs: settings.mouse_interval_secs,
            key_interval_secs: settings.key_interval_secs,
            persisted_settings: settings,
        }
    }

    /// The label of the tray's run entry: the action it takes.
    pub fn tray_run_label(is_running: bool) -> (label: &'static str)
        ensures
            label@ == run_label(is_running),
    {
        if is_running {
            "Stop"
        } else {
            "Start"
        }
    }

    /// The label of the tray's window entry: the action it takes.
    pub fn tray_window_label(is_window_hidden: bool) -> (label: &'static str)
        ensures
            label@ == window_label(is_window_hidden),
    {
        if is_window_hidden {
            "Open"
        } else {
            "Minimize"
        }
    }

    /// Marks the window as hidden in the tray.
    pub fn hide_to_tray(&mut self)
        ensures
            *final(self) == old(self).hidden(),
    {
        self.is_window_hidden = true;
    }

    /// Marks the window as shown.
    pub fn restore_from_tray(&mut self)
        ensures
            *final(self) == old(self).restored(),
    {
        self.is_window_hidden = false;
    }

    /// Toggles the window between shown and hidden in the tray.
    pub fn toggle_window(&mut self) -> (cmd: WindowCommand)
        ensures
            (*final(self), cmd) == old(self).window_toggled(),
    {
        if self.is_window_hidden {
            self.restore_from_tray();
            WindowCommand::Restore
        } else {
            self.hide_to_tray();
            WindowCommand::Hide
        }
    }

    /// The `Start`/`Stop` action, from the window's button or the tray.
    pub fn run_toggle(&self, is_running: bool) -> (cmd: RunCommand)
        ensures
            cmd == self.run_toggled(is_running),
    {
        if is_running {
            RunCommand::Stop
        } else {
            RunCommand::Start {
                mouse_interval_secs: Self::sanitize_interval_secs(self.mouse_interval_secs),
                key_interval_secs: Self::sanitize_interval_secs(self.key_interval_secs),
            }
        }
    }

    /// Handles a chosen tray menu entry.
    pub fn on_menu_command(&mut self, cmd: MenuCommand, is_running: bool) -> (out: MenuOutcome)
        ensures
            (*final(self), out) == old(self).menu_step(cmd, is_running),
    {
        match cmd {
            MenuCommand::WindowToggle => {
                let window = self.toggle_window();
                MenuOutcome { run: RunCommand::Keep, window, close: false, repaint: true, exit: false }
            },
            MenuCommand::RunToggle => {
                let run = self.run_toggle(is_running);
                MenuOutcome {
                    run,
                    window: WindowCommand::Keep,
                    close: false,
                    repaint: true,
                    exit: false,
                }
            },
            MenuCommand::Exit => MenuOutcome {
                run: RunCommand::Stop,
                window: WindowCommand::Keep,
                close: false,
                repaint: false,
                exit: true,
            },
            MenuCommand::Other => MenuOutcome {
                run: RunCommand::Keep,
                window: WindowCommand::Keep,
                close: false,
                repaint: false,
                exit: false,
            },
        }
    }

    /// Finishes Exit once the workers are stopped: lets close requests
    /// through, marks the window shown, and asks to restore and close it.
    pub fn finish_exit(&mut self) -> (out: MenuOutcome)
        ensures
            (*final(self), out) == old(self).exit_finished(),
    {
        self.allow_exit = true;
        self.restore_from_tray();
        MenuOutcome {
            run: RunCommand::Keep,
            window: WindowCommand::Restore,
            close: true,
            repaint: true,
            exit: false,
        }
    }

    /// Handles a pointer event on the tray icon.
    pub fn on_tray_click(&mut self, click: TrayClick) -> (cmd: WindowCommand)
        ensures
            (*final(self), cmd) == old(self).tray_click_step(click),
    {
        match click {
            TrayClick::Other => WindowCommand::Keep,
            _ => {
                if self.tray_menu_on_left_click {
                    WindowCommand::Keep
                } else {
                    self.toggle_window()
                }
            },
        }
    }

    /// Decides how a frame goes, from the window's close request and
    /// minimized state.
    pub fn on_frame(&mut self, close_requested: bool, is_minimized: bool) -> (out: FrameOutcome)
        ensures
            (*final(self), out) == old(self).frame_step(close_requested, is_minimized),
    {
        if close_requested && !self.allow_exit {
            self.hide_to_tray();
            return FrameOutcome::CancelCloseAndHide;
        }
        if is_minimized && !self.was_minimized {
            self.hide_to_tray();
            self.was_minimized = true;
            return FrameOutcome::HideMinimized;
        }
        self.was_minimized = is_minimized;
        FrameOutcome::Draw
    }

    /// Sets the mouse interval, clamped into bounds.
    pub fn set_mouse_interval_secs(&mut self, secs: u64)
        ensures
            *final(self) == (App { mouse_interval_secs: clamp_interval(secs), ..*old(self) }),
    {
        self.mouse_interval_secs = Self::sanitize_interval_secs(secs);
    }

    /// Sets the key interval, clamped into bounds.
    pub fn set_key_interval_secs(&mut self, secs: u64)
        ensures
            *final(self) == (App { key_interval_secs: clamp_interval(secs), ..*old(self) }),
    {
        self.key_interval_secs = Self::sanitize_interval_secs(secs);
    }

    /// Sets whether a left click on the tray icon opens the menu; tells
    /// whether that changed.
    pub fn set_tray_menu_on_left_click(&mut self, on: bool) -> (changed: bool)
        ensures
            *final(self) == (App { tray_menu_on_left_click: on, ..*old(self) }),
            changed == (on != old(self).tray_menu_on_left_click),
    {
        let changed = on != self.tray_menu_on_left_click;
        self.tray_menu_on_left_click = on;
        changed
    }

    /// The settings as they stand, intervals clamped.
    pub fn current_settings(&self) -> (settings: PersistedSettings)
        ensures
            settings == self.current(),
            settings.in_range(),
    {
        PersistedSettings {
            mouse_interval_secs: Self::sanitize_interval_secs(self.mouse_interval_secs),
            key_interval_secs: Self::sanitize_interval_secs(self.key_interval_secs),
            tray_menu_on_left_click: self.tray_menu_on_left_click,
        }
    }

    /// The settings to write to the settings file: `None` where they are
    /// those written last, so that nothing is written twice.
    pub fn settings_to_persist(&self) -> (pending: Option<PersistedSettings>)
        ensures
            pending == self.pending_save(),
    {
        let current = self.current_settings();
        if current == self.persisted_settings {
            None
        } else {
            Some(current)
        }
    }

    /// Records that `saved` was written to the settings file.
    pub fn settings_persisted(&mut self, saved: PersistedSettings)
        ensures
            *final(self) == (App { persisted_settings: saved, ..*old(self) }),
    {
        self.persisted_settings = saved;
    }
}

// ---------------------------------------------------------------------------
// Laws
// ---------------------------------------------------------------------------

/// Toggling the window twice brings it back as it was; the two toggles
/// hide and restore it, one each.
pub proof fn law_window_toggle_twice(app: App)
    ensures
        app.window_toggled().0.window_toggled().0 == app,
        app.window_toggled().1 != app.window_toggled().0.window_toggled().1,
        app.window_toggled().0.is_window_hidden == !app.is_window_hidden,
{
}

/// Each tray label names the action its entry takes: `Open` restores the
/// hidden window and `Minimize` hides the shown one; `Stop` stops running
/// workers and `Start` starts idle ones.
pub proof fn law_labels_name_the_action(app: App, is_running: bool)
    ensures
        (window_label(app.is_window_hidden) == "Open"@) <==> (app.window_toggled().1
            == WindowCommand::Restore),
        (window_label(app.is_window_hidden) == "Minimize"@) <==> (app.window_toggled().1
            == WindowCommand::Hide),
        (run_label(is_running) == "Stop"@) <==> (app.run_toggled(is_running) == RunCommand::Stop),
        (run_label(is_running) == "Start"@) <==> (app.run_toggled(is_running) is Start),
{
    reveal_strlit("Open");
    reveal_strlit("Minimize");
    reveal_strlit("Stop");
    reveal_strlit("Start");
    assert("Open"@.len() != "Minimize"@.len());
    assert("Stop"@.len() != "Start"@.len());
}

/// A close request hides the window in the tray and is cancelled, unless
/// Exit was carried through. Exit first only asks for the workers to be
/// stopped, leaving the state as it is, so that a close request while they
/// stop is still cancelled; once it is finished, a close request goes
/// through, and the window is restored and closed.
pub proof fn law_close_hides_until_exit(app: App, is_minimized: bool, is_running: bool)
    ensures
        !app.allow_exit ==> app.frame_step(true, is_minimized) == (
            app.hidden(),
            FrameOutcome::CancelCloseAndHide,
        ),
        ({
            let (during, asked) = app.menu_step(MenuCommand::Exit, is_running);
            &&& during == app
            &&& asked.run == RunCommand::Stop
            &&& asked.exit
            &&& !asked.close
        }),
        ({
            let (after, out) = app.exit_finished();
            &&& after.allow_exit
            &&& !after.is_window_hidden
            &&& out.window == WindowCommand::Restore
            &&& out.close
            &&& after.frame_step(true, is_minimized).1 != FrameOutcome::CancelCloseAndHide
        }),
{
}

/// Starting, from the window's button or from the tray menu, uses the same
/// intervals, and they are always within bounds.
pub proof fn law_start_intervals_in_range(app: App)
    ensures
        app.menu_step(MenuCommand::RunToggle, false).1.run == app.run_toggled(false),
        app.menu_step(MenuCommand::RunToggle, false).0 == app,
        match app.run_toggled(false) {
            RunCommand::Start { mouse_interval_secs, key_interval_secs } => interval_in_range(
                mouse_interval_secs,
            ) && interval_in_range(key_interval_secs) && (interval_in_range(
                app.mouse_interval_secs,
            ) ==> mouse_interval_secs == app.mouse_interval_secs) && (interval_in_range(
                app.key_interval_secs,
            ) ==> key_interval_secs == app.key_interval_secs),
            _ => false,
        },
        app.run_toggled(true) == RunCommand::Stop,
{
}

/// With left clicks set to open the menu, a click on the tray icon leaves
/// the window alone; otherwise a left click toggles it.
pub proof fn law_tray_left_click(app: App, click: TrayClick)
    ensures
        app.tray_menu_on_left_click ==> app.tray_click_step(click) == (app, WindowCommand::Keep),
        !app.tray_menu_on_left_click && click != TrayClick::Other ==> app.tray_click_step(click)
            == app.window_toggled(),
{
}

/// Once the current settings are recorded as written, nothing more is to
/// be written until a setting changes.
pub proof fn law_no_redundant_save(app: App)
    ensures
        (App { persisted_settings: app.current(), ..app }).pending_save() is None,
        app.pending_save() is Some <==> app.current() != app.persisted_settings,
{
}

/// Settings survive a restart: an application started from the text that
/// the current settings were saved as has the same current settings, and
/// has nothing to save.
pub proof fn law_settings_survive_restart(app: App)
    ensures
        started_app(parsed_settings(serialized_settings(app.current()))).current()
            == app.current(),
        started_app(parsed_settings(serialized_settings(app.current()))).pending_save() is None,
{
    law_serialize_then_parse(app.current());
}

/// A drawn frame changes nothing but the record of whether the window was
/// minimized; a frame that is not drawn hides the window. No frame shows a
/// hidden window, lets Exit through or touches the settings.
pub proof fn law_frame_changes(app: App, close_requested: bool, is_minimized: bool)
    ensures
        ({
            let (next, out) = app.frame_step(close_requested, is_minimized);
            &&& out == FrameOutcome::Draw ==> next == (App { was_minimized: is_minimized, ..app })
            &&& out != FrameOutcome::Draw ==> next.is_window_hidden
            &&& out == FrameOutcome::Draw ==> next.is_window_hidden == app.is_window_hidden
            &&& app.is_window_hidden ==> next.is_window_hidden
            &&& next.allow_exit == app.allow_exit
            &&& next.tray_menu_on_left_click == app.tray_menu_on_left_click
            &&& next.mouse_interval_secs == app.mouse_interval_secs
            &&& next.key_interval_secs == app.key_interval_secs
            &&& next.persisted_settings == app.persisted_settings
            &&& out == FrameOutcome::HideMinimized ==> is_minimized && !app.was_minimized
                && next.was_minimized
            &&& out == FrameOutcome::CancelCloseAndHide ==> close_requested && !app.allow_exit
                && next.was_minimized == app.was_minimized
        }),
{
}

/// The menu's window entry hides a shown window and restores a hidden one,
/// and changes nothing else; the run entry and other entries leave the
/// state alone, and only the run entry starts or stops the workers.
pub proof fn law_menu_entries(app: App, is_running: bool)
    ensures
        ({
            let (next, out) = app.menu_step(MenuCommand::WindowToggle, is_running);
            &&& next == (App { is_window_hidden: !app.is_window_hidden, ..app })
            &&& out.window == (if app.is_window_hidden {
                WindowCommand::Restore
            } else {
                WindowCommand::Hide
            })
            &&& out.run == RunCommand::Keep
            &&& !out.close
            &&& !out.exit
        }),
        ({
            let (next, out) = app.menu_step(MenuCommand::RunToggle, is_running);
            &&& next == app
            &&& out.window == WindowCommand::Keep
            &&& (is_running <==> out.run == RunCommand::Stop)
            &&& (!is_running <==> out.run is Start)
            &&& !out.close
            &&& !out.exit
        }),
        ({
            let (next, out) = app.menu_step(MenuCommand::Other, is_running);
            &&& next == app
            &&& out.run == RunCommand::Keep
            &&& out.window == WindowCommand::Keep
            &&& !out.close
            &&& !out.exit
        }),
{
}

/// Only a left release or a left double click on the tray icon acts, and
/// only with left clicks not set to open the menu: it hides a shown window
/// and restores a hidden one, changing nothing else. Any other event
/// changes nothing.
pub proof fn law_tray_events(app: App, click: TrayClick)
    ensures
        app.tray_click_step(TrayClick::Other) == (app, WindowCommand::Keep),
        ({
            let (next, cmd) = app.tray_click_step(click);
            &&& (click == TrayClick::Other || app.tray_menu_on_left_click) ==> next == app && cmd
                == WindowCommand::Keep
            &&& (click != TrayClick::Other && !app.tray_menu_on_left_click) ==> next == (App {
                is_window_hidden: !app.is_window_hidden,
                ..app
            }) && cmd == (if app.is_window_hidden {
                WindowCommand::Restore
            } else {
                WindowCommand::Hide
            })
        }),
{
}

/// The current settings are the application's own: its tray flag, and its
/// intervals clamped (unchanged where within bounds). Changing the flag
/// away from what was saved leaves a save pending that carries the new
/// flag; changing an interval within bounds away from what was saved
/// leaves a save pending that carries the new interval.
pub proof fn law_current_settings_follow_app(app: App, on: bool, secs: u64)
    ensures
        app.current().tray_menu_on_left_click == app.tray_menu_on_left_click,
        interval_in_range(app.mouse_interval_secs) ==> app.current().mouse_interval_secs
            == app.mouse_interval_secs,
        interval_in_range(app.key_interval_secs) ==> app.current().key_interval_secs
            == app.key_interval_secs,
        interval_in_range(app.current().mouse_interval_secs),
        interval_in_range(app.current().key_interval_secs),
        ({
            let flagged = App { tray_menu_on_left_click: on, ..app };
            on != app.persisted_settings.tray_menu_on_left_click ==> (flagged.pending_save()
                matches Some(p) && p.tray_menu_on_left_click == on && p == flagged.current())
        }),
        ({
            let moved = App { mouse_interval_secs: secs, ..app };
            interval_in_range(secs) && secs != app.persisted_settings.mouse_interval_secs
                ==> (moved.pending_save() matches Some(p) && p.mouse_interval_secs == secs)
        }),
        ({
            let moved = App { key_interval_secs: secs, ..app };
            interval_in_range(secs) && secs != app.persisted_settings.key_interval_secs
                ==> (moved.pending_save() matches Some(p) && p.key_interval_secs == secs)
        }),
{
}

/// Starting uses the current settings' intervals, the same that are
/// saved; stopping is asked for exactly when the workers run.
pub proof fn law_start_uses_current_settings(app: App, is_running: bool)
    ensures
        !is_running ==> app.run_toggled(is_running) == (RunCommand::Start {
            mouse_interval_secs: app.current().mouse_interval_secs,
            key_interval_secs: app.current().key_interval_secs,
        }),
        is_running ==> app.run_toggled(is_running) == RunCommand::Stop,
{
}

/// Finishing Exit lets close requests through and shows the window, and
/// changes nothing else; it starts no workers.
pub proof fn law_exit_changes(app: App)
    ensures
        app.exit_finished().0 == (App { allow_exit: true, is_window_hidden: false, ..app }),
        app.exit_finished().1.run == RunCommand::Keep,
        app.exit_finished().1.window == WindowCommand::Restore,
        app.exit_finished().1.close,
{
}

} // verus!
