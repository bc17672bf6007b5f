//! Dispatch of the host's events to the tray and window logic.
//!
//! The host runtime delivers events one at a time on its event loop; each
//! goes through [`Shell::handle`], which updates the window records and
//! returns at most one effect for the host to carry out.
use vstd::prelude::*;

use crate::menu::{
    is_support_spec, menu_action, menu_action_of, support_window_spec, MenuAction, TrayButton,
    SUPPORT_WINDOW,
};
use crate::window::{
    after_focus_change, after_hide, after_open_or_focus, has_window, WindowCommand, WindowEntry,
    WindowManager, MAIN_WINDOW,
};

verus! {

/// Startup choices on which deployments differ.
#[derive(Clone, Copy, Debug, PartialEq, Eq, Structural)]
pub struct ShellConfig {
    /// Hide the main window as soon as the host has created it.
    pub hide_main_on_launch: bool,
    /// Report every click on the tray icon for the log.
    pub log_tray_clicks: bool,
}

/// An event delivered by the host runtime.
#[derive(Debug)]
pub enum ShellEvent {
    /// The host has finished setting up the application.
    Started,
    /// A tray menu entry with this identifier was selected.
    MenuSelected(String),
    /// The tray icon was clicked.
    TrayClicked(TrayButton),
    /// The user asked to close the window of this name.
    CloseRequested(String),
    /// The window of this name gained (`true`) or lost (`false`) focus.
    FocusChanged(String, bool),
}

/// What the host must do in answer to an event.
#[derive(Debug)]
pub enum Effect {
    Window(WindowCommand),
    /// End the process with this exit code.
    Exit(i32),
    /// Write the click of this button to the log.
    LogTrayClick(TrayButton),
}

/// The outcome that a menu selection with identifier `id` owes: the windows
/// go from `before` to `after` and `r` is returned.
pub open spec fn menu_outcome(
    before: Seq<WindowEntry>,
    after: Seq<WindowEntry>,
    id: Seq<char>,
    r: Option<Effect>,
) -> bool {
    match menu_action_of(id) {
        Some(MenuAction::RequestSupport) => {
            &&& after == after_open_or_focus(before, SUPPORT_WINDOW@)
            &&& match r {
                Some(Effect::Window(WindowCommand::Create(s))) => !has_window(
                    before,
                    SUPPORT_WINDOW@,
                ) && is_support_spec(s),
                Some(Effect::Window(WindowCommand::ShowAndFocus(n))) => has_window(
                    before,
                    SUPPORT_WINDOW@,
                ) && n@ == SUPPORT_WINDOW@,
                _ => false,
            }
        },
        Some(MenuAction::Quit) => after == before && r == Some(Effect::Exit(0)),
        None => after == before && r is None,
    }
}

/// The outcome that a close request for `name` owes.
pub open spec fn close_outcome(
    before: Seq<WindowEntry>,
    after: Seq<WindowEntry>,
    name: Seq<char>,
    r: Option<Effect>,
) -> bool {
    &&& after == after_hide(before, name)
    &&& r matches Some(Effect::Window(WindowCommand::Hide(n)))
    &&& n@ == name
}

/// The outcome that the end of setup owes under `config`.
pub open spec fn startup_outcome(
    config: ShellConfig,
    before: Seq<WindowEntry>,
    after: Seq<WindowEntry>,
    r: Option<Effect>,
) -> bool {
    if config.hide_main_on_launch {
        close_outcome(before, after, MAIN_WINDOW@, r)
    } else {
        after == before && r is None
    }
}

/// The effect that a click with `button` owes under `config`.
pub open spec fn click_outcome(config: ShellConfig, button: TrayButton, r: Option<Effect>) -> bool {
    if config.log_tray_clicks {
        r == Some(Effect::LogTrayClick(button))
    } else {
        r is None
    }
}

/// The outcome that `event` owes under `config`.
pub open spec fn event_outcome(
    config: ShellConfig,
    before: Seq<WindowEntry>,
    after: Seq<WindowEntry>,
    event: ShellEvent,
    r: Option<Effect>,
) -> bool {
    match event {
        ShellEvent::Started => startup_outcome(config, before, after, r),
        ShellEvent::MenuSelected(id) => menu_outcome(before, after, id@, r),
        ShellEvent::TrayClicked(b) => after == before && click_outcome(config, b, r),
        ShellEvent::CloseRequested(n) => close_outcome(before, after, n@, r),
        ShellEvent::FocusChanged(n, f) => after == after_focus_change(before, n@, f) && r is None,
    }
}

/// The application's state: its startup choices and its windows.
pub struct Shell {
    pub config: ShellConfig,
    pub windows: WindowManager,
}

impl Shell {
    /// A shell whose only window is the main one, shown and focused.
    pub fn new(config: ShellConfig) -> (r: Shell)
        ensures
            r.config == config,
            r.windows@ == seq![(MAIN_WINDOW@, crate::window::WindowState::VisibleFocused)],
    {
        Shell { config, windows: WindowManager::new() }
    }

    /// Dispatches a tray menu selection. `request_support` opens or focuses
    /// the support window; `quit` ends the process with code 0 whatever the
    /// windows' states; any other identifier changes nothing.
    pub fn on_menu_event(&mut self, id: &str) -> (r: Option<Effect>)
        ensures
            final(self).config == old(self).config,
            menu_outcome(old(self).windows@, final(self).windows@, id@, r),
    {
        match menu_action(id) {
            Some(MenuAction::RequestSupport) => {
                let c = self.windows.open_or_focus(support_window_spec());
                Some(Effect::Window(c))
            },
            Some(MenuAction::Quit) => Some(Effect::Exit(0)),
            None => None,
        }
    }

    /// Intercepts a close request: the window is hidden, never destroyed,
    /// whichever window it is.
    pub fn on_close_requested(&mut self, name: &str) -> (r: Option<Effect>)
        ensures
            final(self).config == old(self).config,
            close_outcome(old(self).windows@, final(self).windows@, name@, r),
    {
        let c = self.windows.hide_window(name);
        Some(Effect::Window(c))
    }

    /// Runs once setup is done: hides the main window when so configured.
    pub fn on_startup(&mut self) -> (r: Option<Effect>)
        ensures
            final(self).config == old(self).config,
            startup_outcome(old(self).config, old(self).windows@, final(self).windows@, r),
    {
        if self.config.hide_main_on_launch {
            self.on_close_requested(MAIN_WINDOW)
        } else {
            None
        }
    }

    /// A click on the tray icon, reported for the log when so configured.
    pub fn on_tray_click(&self, button: TrayButton) -> (r: Option<Effect>)
        ensures
            click_outcome(self.config, button, r),
    {
        if self.config.log_tray_clicks {
            Some(Effect::LogTrayClick(button))
        } else {
            None
        }
    }

    /// Records a change of focus reported by the host.
    pub fn on_focus_changed(&mut self, name: &str, focused: bool)
        ensures
            final(self).config == old(self).config,
            final(self).windows@ == after_focus_change(old(self).windows@, name@, focused),
    {
        self.windows.focus_changed(name, focused);
    }

    /// Handles one event from the host.
    pub fn handle(&mut self, event: ShellEvent) -> (r: Option<Effect>)
        ensures
            final(self).config == old(self).config,
            event_outcome(old(self).config, old(self).windows@, final(self).windows@, event, r),
    {
        match event {
            ShellEvent::Started => self.on_startup(),
            ShellEvent::MenuSelected(id) => self.on_menu_event(id.as_str()),
            ShellEvent::TrayClicked(b) => self.on_tray_click(b),
            ShellEvent::CloseRequested(n) => self.on_close_requested(n.as_str()),
            ShellEvent::FocusChanged(n, f) => {
                self.on_focus_changed(n.as_str(), f);
                None
            },
        }
    }
}

} // verus!
