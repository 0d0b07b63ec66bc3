use clip_service::logger::{timestamp_parts, MAX_STAMP_SECS};
use clip_service::logger::{
    console_line, debug, emit_at, error, info, warn, writes_to_stderr, LogEvent, LogHistory, LogLevel,
    MAX_BUFFERED_LOGS,
};

#[test]
fn levels_are_set_by_helpers() {
    let mut history = LogHistory::new();
    assert_eq!(info(&mut history, "a", "m").level, LogLevel::Info);
    assert_eq!(warn(&mut history, "a", "m").level, LogLevel::Warning);
    assert_eq!(error(&mut history, "a", "m").level, LogLevel::Error);
    assert_eq!(debug(&mut history, "a", "m").level, LogLevel::Debug);
    assert_eq!(history.len(), 4);
    let recent = history.recent();
    assert_eq!(recent[0].level, LogLevel::Info);
    assert_eq!(recent[3].level, LogLevel::Debug);
}

#[test]
fn emitted_event_carries_source_message_and_a_timestamp() {
    let mut history = LogHistory::new();
    let event = info(&mut history, "capture", "pipeline started");
    assert_eq!(event.source, "capture");
    assert_eq!(event.message, "pipeline started");
    assert!(event.timestamp.contains('T'));
}

#[test]
fn emit_at_uses_given_timestamp() {
    let mut history = LogHistory::new();
    let event = emit_at(&mut history, LogLevel::Warning, "s", "m", "2024-01-01T00:00:00Z".to_string());
    assert_eq!(event.timestamp, "2024-01-01T00:00:00Z");
    assert_eq!(history.recent()[0].timestamp, "2024-01-01T00:00:00Z");
}

#[test]
fn history_keeps_only_the_newest_events() {
    let mut history = LogHistory::new();
    for i in 0..(MAX_BUFFERED_LOGS + 5) {
        emit_at(&mut history, LogLevel::Info, "s", &format!("{}", i), String::new());
    }
    assert_eq!(history.len(), MAX_BUFFERED_LOGS);
    let recent = history.recent();
    assert_eq!(recent[0].message, "5");
    assert_eq!(recent[MAX_BUFFERED_LOGS - 1].message, format!("{}", MAX_BUFFERED_LOGS + 4));
}

#[test]
fn errors_and_warnings_go_to_stderr() {
    assert!(writes_to_stderr(LogLevel::Error));
    assert!(writes_to_stderr(LogLevel::Warning));
    assert!(!writes_to_stderr(LogLevel::Info));
    assert!(!writes_to_stderr(LogLevel::Debug));
}

#[test]
fn console_line_format() {
    let event = LogEvent {
        timestamp: String::new(),
        level: LogLevel::Info,
        source: "audio".to_string(),
        message: "hello".to_string(),
    };
    assert_eq!(console_line(&event), "[audio] hello");
}

#[test]
fn emitted_events_carry_an_rfc3339_utc_time() {
    let mut h = clip_service::logger::LogHistory::new();
    let e = clip_service::logger::info(&mut h, "test", "stamped");
    let t = e.timestamp.clone();
    assert!(t.ends_with("+00:00"));
    let chars: Vec<char> = t.chars().collect();
    assert_eq!(chars[4], '-');
    assert_eq!(chars[7], '-');
    assert_eq!(chars[10], 'T');
    assert_eq!(chars[13], ':');
    assert_eq!(chars[16], ':');
    assert!(chars[..4].iter().all(|c| c.is_ascii_digit()));
}

#[test]
fn clock_readings_as_timestamp_parts() {
    assert_eq!(timestamp_parts(true, 1_700_000_000, 5), (1_700_000_000, 5));
    assert_eq!(timestamp_parts(false, 10, 0), (-10, 0));
    assert_eq!(timestamp_parts(false, 10, 250_000_000), (-11, 750_000_000));
    assert_eq!(timestamp_parts(true, u64::MAX, 1), (MAX_STAMP_SECS, 0));
    assert_eq!(timestamp_parts(false, u64::MAX, 1), (-MAX_STAMP_SECS, 0));
}
