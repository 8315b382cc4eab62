use tf2tts::log_watcher::{ConfigError, LogWatcher, LogWatcherConfig, ReadRange};

fn config(name: &str) -> LogWatcherConfig {
    LogWatcherConfig::from_persona("7656", name, "C:\\Steam")
}

#[test]
fn starts_at_current_length() {
    let w = LogWatcher::new(config("Foo"), 120);
    assert_eq!(w.offset(), 120);
}

#[test]
fn history_is_never_read() {
    let mut w = LogWatcher::new(config("Foo"), 120);
    assert_eq!(w.poll(120), None);
    let r = w.poll(150).unwrap();
    assert_eq!(r, ReadRange { start: 120, end: 150 });
}

#[test]
fn consecutive_polls_read_adjacent_ranges() {
    let mut w = LogWatcher::new(config("Foo"), 0);
    let mut covered: Vec<u64> = Vec::new();
    for len in [10u64, 10, 25, 40, 40, 41] {
        if let Some(r) = w.poll(len) {
            assert_eq!(r.start, w.offset());
            covered.extend(r.start..r.end);
            w.commit(r);
        }
    }
    assert_eq!(covered, (0..41).collect::<Vec<u64>>());
    assert_eq!(w.offset(), 41);
}

#[test]
fn uncommitted_read_is_offered_again() {
    let mut w = LogWatcher::new(config("Foo"), 5);
    let first = w.poll(9).unwrap();
    let again = w.poll(12).unwrap();
    assert_eq!(first.start, again.start);
    assert_eq!(again, ReadRange { start: 5, end: 12 });
}

#[test]
fn truncated_log_is_read_from_start() {
    let mut w = LogWatcher::new(config("Foo"), 100);
    assert_eq!(w.poll(30), Some(ReadRange { start: 0, end: 30 }));
    let mut w2 = LogWatcher::new(config("Foo"), 100);
    assert_eq!(w2.poll(0), None);
    assert_eq!(w2.offset(), 0);
}

#[test]
fn watcher_extracts_with_its_name() {
    let w = LogWatcher::new(config("Foo"), 0);
    assert_eq!(w.extract_message("*DEAD*(TEAM) Foo : gg"), Some("gg".to_string()));
    assert_eq!(w.extract_message("Bar : hi"), None);
    assert_eq!(w.messages_in_chunk(b"Foo : a\nBar : b\nFoo : c\n"), vec!["a".to_string(), "c".to_string()]);
}

#[test]
fn config_from_persona_builds_log_path() {
    let c = config("Foo");
    assert_eq!(c.user_name, "Foo");
    assert_eq!(c.user_id, "7656");
    assert_eq!(c.log_path, "C:\\Steam\\steamapps\\common\\Team Fortress 2\\tf\\tf2consoleoutput.log");
}

#[test]
fn config_finds_persona_name() {
    let vdf = "\"users\"\n{\n\t\"111\"\n\t{\n\t\t\"AccountName\"\t\t\"a\"\n\t\t\"PersonaName\"\t\t\"Other\"\n\t}\n\t\"7656\"\n\t{\n\t\t\"AccountName\"\t\t\"b\"\n\t\t\"PersonaName\"\t\t\"Foo Bar\"\n\t}\n}\n";
    let c = LogWatcherConfig::new("7656", "D:\\Games", vdf).unwrap();
    assert_eq!(c.user_name, "Foo Bar");
    assert_eq!(c.steam_folder, "D:\\Games");
    assert_eq!(c.log_path, "D:\\Games\\steamapps\\common\\Team Fortress 2\\tf\\tf2consoleoutput.log");
}

#[test]
fn config_reports_unknown_user() {
    let vdf = "\"users\"\n{\n\t\"111\"\n\t{\n\t\t\"PersonaName\"\t\t\"Other\"\n\t}\n}\n";
    assert_eq!(LogWatcherConfig::new("7656", "D:\\Games", vdf).err(), Some(ConfigError::UserNotFound));
}

#[test]
fn config_reports_invalid_pattern() {
    assert_eq!(LogWatcherConfig::new("(", "D:\\Games", "").err(), Some(ConfigError::InvalidPattern));
}
