use tray_shell::menu::{
    menu_action, support_window_spec, tray_menu, MenuAction, TrayButton, QUIT_ID,
    REQUEST_SUPPORT_ID, SUPPORT_WINDOW,
};
use tray_shell::shell::{Effect, Shell, ShellConfig, ShellEvent};
use tray_shell::window::{WindowCommand, WindowManager, WindowState, MAIN_WINDOW};

fn plain_config() -> ShellConfig {
    ShellConfig { hide_main_on_launch: false, log_tray_clicks: false }
}

fn states(shell: &Shell) -> (WindowState, WindowState) {
    (shell.windows.state_of("main"), shell.windows.state_of("support"))
}

#[test]
fn tray_menu_lists_support_then_quit() {
    let items = tray_menu();
    assert_eq!(items.len(), 2);
    assert_eq!(items[0].id, "request_support");
    assert_eq!(items[0].label, "Request Support");
    assert!(items[0].enabled);
    assert_eq!(items[1].id, "quit");
    assert_eq!(items[1].label, "Quit");
    assert!(items[1].enabled);
}

#[test]
fn menu_identifiers_are_read_exactly() {
    assert_eq!(menu_action("request_support"), Some(MenuAction::RequestSupport));
    assert_eq!(menu_action("quit"), Some(MenuAction::Quit));
    assert_eq!(menu_action("Quit"), None);
    assert_eq!(menu_action("quit "), None);
    assert_eq!(menu_action(""), None);
    assert_eq!(menu_action("request"), None);
    assert_eq!(REQUEST_SUPPORT_ID, "request_support");
    assert_eq!(QUIT_ID, "quit");
}

#[test]
fn support_window_is_described_exactly() {
    let s = support_window_spec();
    assert_eq!(s.label, "support");
    assert_eq!(s.url, "support.html");
    assert_eq!(s.title, "Support Request");
    assert_eq!(s.width, 800);
    assert_eq!(s.height, 600);
}

#[test]
fn new_shell_holds_only_the_focused_main_window() {
    let shell = Shell::new(plain_config());
    assert_eq!(states(&shell), (WindowState::VisibleFocused, WindowState::Absent));
    assert_eq!(shell.windows.count_named(MAIN_WINDOW), 1);
    assert_eq!(shell.windows.count_named(SUPPORT_WINDOW), 0);
}

#[test]
fn request_support_creates_the_window_when_absent() {
    let mut shell = Shell::new(plain_config());
    let r = shell.on_menu_event("request_support");
    match r {
        Some(Effect::Window(WindowCommand::Create(s))) => {
            assert_eq!(s.label, "support");
            assert_eq!(s.url, "support.html");
            assert_eq!(s.title, "Support Request");
            assert_eq!((s.width, s.height), (800, 600));
        }
        other => panic!("expected a create command, got {:?}", other),
    }
    assert_eq!(shell.windows.state_of("support"), WindowState::VisibleFocused);
    assert_eq!(shell.windows.state_of("main"), WindowState::VisibleUnfocused);
    assert_eq!(shell.windows.count_named("support"), 1);
}

#[test]
fn request_support_shows_a_hidden_window_without_a_second() {
    let mut shell = Shell::new(plain_config());
    shell.on_menu_event("request_support");
    let closed = shell.on_close_requested("support");
    assert!(matches!(closed, Some(Effect::Window(WindowCommand::Hide(ref n))) if n == "support"));
    assert_eq!(shell.windows.state_of("support"), WindowState::Hidden);
    let r = shell.on_menu_event("request_support");
    assert!(matches!(r, Some(Effect::Window(WindowCommand::ShowAndFocus(ref n))) if n == "support"));
    assert_eq!(shell.windows.state_of("support"), WindowState::VisibleFocused);
    assert_eq!(shell.windows.count_named("support"), 1);
}

#[test]
fn repeated_requests_never_duplicate_the_support_window() {
    let mut shell = Shell::new(plain_config());
    for k in 0..10 {
        let r = shell.on_menu_event("request_support");
        if k == 0 {
            assert!(matches!(r, Some(Effect::Window(WindowCommand::Create(_)))));
        } else {
            assert!(matches!(r, Some(Effect::Window(WindowCommand::ShowAndFocus(_)))));
        }
        if k % 3 == 1 {
            shell.on_close_requested("support");
        }
        assert_eq!(shell.windows.count_named("support"), 1);
        assert_eq!(shell.windows.count_named("main"), 1);
    }
}

#[test]
fn close_requests_only_hide() {
    let mut shell = Shell::new(plain_config());
    shell.on_menu_event("request_support");
    for _ in 0..3 {
        let r = shell.on_close_requested("main");
        assert!(matches!(r, Some(Effect::Window(WindowCommand::Hide(ref n))) if n == "main"));
        shell.on_close_requested("support");
        assert_eq!(states(&shell), (WindowState::Hidden, WindowState::Hidden));
        assert_eq!(shell.windows.count_named("main"), 1);
        assert_eq!(shell.windows.count_named("support"), 1);
    }
}

#[test]
fn close_request_for_an_unknown_window_records_it_hidden() {
    let mut shell = Shell::new(plain_config());
    let r = shell.on_close_requested("about");
    assert!(matches!(r, Some(Effect::Window(WindowCommand::Hide(ref n))) if n == "about"));
    assert_eq!(shell.windows.state_of("about"), WindowState::Hidden);
    assert_eq!(shell.windows.state_of("main"), WindowState::VisibleFocused);
}

#[test]
fn quit_exits_with_zero_whatever_the_windows() {
    let mut shell = Shell::new(plain_config());
    let before = states(&shell);
    assert!(matches!(shell.on_menu_event("quit"), Some(Effect::Exit(0))));
    assert_eq!(states(&shell), before);

    shell.on_menu_event("request_support");
    shell.on_close_requested("main");
    let before = states(&shell);
    assert_eq!(before, (WindowState::Hidden, WindowState::VisibleFocused));
    assert!(matches!(shell.on_menu_event("quit"), Some(Effect::Exit(0))));
    assert_eq!(states(&shell), before);

    shell.on_close_requested("support");
    assert!(matches!(shell.on_menu_event("quit"), Some(Effect::Exit(0))));
    assert_eq!(states(&shell), (WindowState::Hidden, WindowState::Hidden));
}

#[test]
fn unknown_menu_identifiers_change_nothing() {
    let mut shell = Shell::new(plain_config());
    shell.on_menu_event("request_support");
    let before = states(&shell);
    for id in ["settings", "", "QUIT", "request_support_2", "support"] {
        assert!(shell.on_menu_event(id).is_none());
        assert_eq!(states(&shell), before);
        assert_eq!(shell.windows.count_named("support"), 1);
    }
}

#[test]
fn startup_hides_main_only_when_configured() {
    let mut shell = Shell::new(plain_config());
    assert!(shell.on_startup().is_none());
    assert_eq!(shell.windows.state_of("main"), WindowState::VisibleFocused);

    let mut hidden = Shell::new(ShellConfig { hide_main_on_launch: true, log_tray_clicks: false });
    let r = hidden.on_startup();
    assert!(matches!(r, Some(Effect::Window(WindowCommand::Hide(ref n))) if n == "main"));
    assert_eq!(hidden.windows.state_of("main"), WindowState::Hidden);
}

#[test]
fn tray_clicks_are_reported_only_when_configured() {
    let quiet = Shell::new(plain_config());
    assert!(quiet.on_tray_click(TrayButton::Left).is_none());
    let chatty = Shell::new(ShellConfig { hide_main_on_launch: false, log_tray_clicks: true });
    assert!(matches!(chatty.on_tray_click(TrayButton::Right), Some(Effect::LogTrayClick(TrayButton::Right))));
    assert!(matches!(chatty.on_tray_click(TrayButton::Middle), Some(Effect::LogTrayClick(TrayButton::Middle))));
}

#[test]
fn focus_moves_between_visible_windows() {
    let mut shell = Shell::new(plain_config());
    shell.on_menu_event("request_support");
    shell.on_focus_changed("main", true);
    assert_eq!(states(&shell), (WindowState::VisibleFocused, WindowState::VisibleUnfocused));
    shell.on_focus_changed("main", false);
    assert_eq!(states(&shell), (WindowState::VisibleUnfocused, WindowState::VisibleUnfocused));
    shell.on_close_requested("support");
    shell.on_focus_changed("support", true);
    assert_eq!(states(&shell), (WindowState::VisibleUnfocused, WindowState::Hidden));
    shell.on_focus_changed("elsewhere", true);
    assert_eq!(shell.windows.state_of("elsewhere"), WindowState::Absent);
}

#[test]
fn handle_dispatches_every_event() {
    let mut shell = Shell::new(ShellConfig { hide_main_on_launch: true, log_tray_clicks: true });
    assert!(matches!(shell.handle(ShellEvent::Started), Some(Effect::Window(WindowCommand::Hide(_)))));
    assert_eq!(shell.windows.state_of("main"), WindowState::Hidden);
    let r = shell.handle(ShellEvent::MenuSelected("request_support".to_string()));
    assert!(matches!(r, Some(Effect::Window(WindowCommand::Create(_)))));
    assert!(matches!(
        shell.handle(ShellEvent::TrayClicked(TrayButton::Left)),
        Some(Effect::LogTrayClick(TrayButton::Left))
    ));
    assert!(shell.handle(ShellEvent::FocusChanged("support".to_string(), false)).is_none());
    assert_eq!(shell.windows.state_of("support"), WindowState::VisibleUnfocused);
    let r = shell.handle(ShellEvent::CloseRequested("support".to_string()));
    assert!(matches!(r, Some(Effect::Window(WindowCommand::Hide(_)))));
    assert!(shell.handle(ShellEvent::MenuSelected("nothing".to_string())).is_none());
    assert!(matches!(shell.handle(ShellEvent::MenuSelected("quit".to_string())), Some(Effect::Exit(0))));
    assert_eq!(states(&shell), (WindowState::Hidden, WindowState::Hidden));
}

#[test]
fn window_manager_opens_any_named_window_once() {
    let mut m = WindowManager::new();
    for name in ["a", "b", "a", "main", "b"] {
        let spec = tray_shell::window::WindowSpec {
            label: name.to_string(),
            url: "page.html".to_string(),
            title: "T".to_string(),
            width: 1,
            height: 2,
        };
        m.open_or_focus(spec);
        assert_eq!(m.state_of(name), WindowState::VisibleFocused);
        for other in ["a", "b", "main"] {
            assert!(m.count_named(other) <= 1);
            if other != name {
                assert_ne!(m.state_of(other), WindowState::VisibleFocused);
            }
        }
    }
}
