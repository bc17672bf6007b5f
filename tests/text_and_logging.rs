use tray_shell::logging::{log_settings, LogLevel, LogTarget};
use tray_shell::text::same_text;

#[test]
fn same_text_compares_every_character() {
    assert!(same_text("", ""));
    assert!(same_text("quit", "quit"));
    assert!(!same_text("quit", "quiT"));
    assert!(!same_text("quit", "qui"));
    assert!(!same_text("", "a"));
    assert!(same_text("héllo", "héllo"));
    assert!(!same_text("héllo", "hello"));
}

#[test]
fn log_settings_match_the_sink() {
    let s = log_settings();
    assert_eq!(s.targets.len(), 3);
    assert!(matches!(s.targets[0], LogTarget::Stdout));
    assert!(matches!(s.targets[1], LogTarget::Webview));
    assert!(matches!(s.targets[2], LogTarget::Folder(ref p) if p == "logs"));
    assert_eq!(s.max_file_size, 50_000);
    assert!(s.keep_all_rotated);
    assert_eq!(s.level, LogLevel::Info);
    assert!(s.local_time);
}
