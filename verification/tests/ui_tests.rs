use clip_service::backend::CaptureStatus;
use clip_service::encoders::VideoEncoderDescriptor;
use clip_service::logger::{LogEvent, LogLevel};
use clip_service::devices::AudioDevice;
use clip_service::text::parse_u32;
use clip_service::ui_state::{startup_notes, NoteKind, UiCaptureStatus, UiEvent, UiNote, UiState, MAX_VIEW_LOGS};
use clip_service::ui_text::{
    apply_label, buffer_caption, logs_newest_first, monitor_devices, offline_flag, recent_events_header, can_clip, device_label, display_key, encoder_label, encoder_options, format_duration,
    format_timestamp, format_timestamp_with, level_label, mic_choice, mic_options, mic_row, mic_value, option_ids,
    screen_device_id, seconds_text, selected_index, settings_helper, shortcut_from_key, status_text, video_device_label,
    video_options, ShortcutKey, VideoDevice, VideoDeviceKind,
};

fn text_of(n: &UiNote) -> Option<(NoteKind, String)> {
    match n {
        UiNote::Text { kind, text } => Some((*kind, text.clone())),
        _ => None,
    }
}

fn log(message: &str) -> LogEvent {
    LogEvent { timestamp: String::new(), level: LogLevel::Info, source: "s".to_string(), message: message.to_string() }
}

#[test]
fn initial_state() {
    let s = UiState::new(true, None, vec![]);
    assert_eq!(s.capture_status, UiCaptureStatus::Starting);
    let o = UiState::new(false, Some("offline".to_string()), vec![]);
    assert_eq!(o.capture_status, UiCaptureStatus::Offline);
    assert_eq!(o.capture_error, Some("offline".to_string()));
}

#[test]
fn status_events() {
    let mut s = UiState::new(true, None, vec![]);
    s.on_event(UiEvent::CaptureStatus { status: CaptureStatus::Error, message: Some("bad".to_string()) });
    assert_eq!(s.capture_status, UiCaptureStatus::Error);
    assert_eq!(s.capture_error, Some("bad".to_string()));
    s.on_event(UiEvent::CaptureStatus { status: CaptureStatus::Running, message: None });
    assert_eq!(s.capture_status, UiCaptureStatus::Running);
    assert!(s.capture_error.is_none());
    assert!(s.timer_running);
    s.on_event(UiEvent::CaptureStatus { status: CaptureStatus::Stopped, message: None });
    assert!(!s.timer_running);
}

#[test]
fn operation_errors() {
    let mut s = UiState::new(true, None, vec![]);
    s.is_clipping = true;
    s.settings_pending = true;
    s.on_event(UiEvent::OperationError { title: "Clip".to_string(), message: "no packets available".to_string() });
    assert!(!s.is_clipping && s.settings_pending);
    assert_eq!(text_of(&s.notes[0]), Some((NoteKind::Error, "Clip: no packets available".to_string())));
    s.on_event(UiEvent::OperationError { title: "Capture".to_string(), message: "busy".to_string() });
    assert_eq!(s.capture_status, UiCaptureStatus::Error);
    assert_eq!(s.capture_error, Some("busy".to_string()));
    s.on_event(UiEvent::OperationError { title: "Settings".to_string(), message: "x".to_string() });
    assert!(!s.settings_pending);
}

#[test]
fn settings_and_clip_events() {
    let mut s = UiState::new(true, None, vec![]);
    s.settings_pending = true;
    s.on_event(UiEvent::SettingsUpdated { shortcut_error: Some("taken".to_string()) });
    assert!(!s.settings_pending && s.needs_sync);
    assert_eq!(text_of(&s.notes[0]), Some((NoteKind::Warning, "Shortcut registration failed: taken".to_string())));
    assert_eq!(text_of(&s.notes[1]), Some((NoteKind::Success, "Settings applied".to_string())));
    s.is_clipping = true;
    s.on_event(UiEvent::ClipFinished { filename: "c.mp4".to_string(), duration_ms: 1500 });
    assert!(!s.is_clipping);
    assert!(matches!(s.notes[2], UiNote::ClipSaved { duration_ms: 1500, .. }));
    let mut t = UiState::new(true, None, vec![]);
    t.on_event(UiEvent::FolderPicked { picked: false });
    assert!(!t.needs_sync);
    t.on_event(UiEvent::FolderPicked { picked: true });
    assert!(t.needs_sync);
}

#[test]
fn log_view_is_bounded() {
    let mut s = UiState::new(true, None, vec![]);
    for i in 0..(MAX_VIEW_LOGS + 3) {
        s.on_event(UiEvent::Log(log(&format!("{}", i))));
    }
    assert_eq!(s.logs.len(), MAX_VIEW_LOGS);
    assert_eq!(s.logs[0].message, "3");
}

#[test]
fn after_poll_settles_status() {
    let mut s = UiState::new(true, None, vec![]);
    s.after_poll(true, true);
    assert_eq!(s.capture_status, UiCaptureStatus::Running);
    assert!(s.timer_running);
    let mut o = UiState::new(true, None, vec![]);
    o.after_poll(false, false);
    assert_eq!(o.capture_status, UiCaptureStatus::Offline);
}

#[test]
fn durations() {
    assert_eq!(format_duration(0), "00:00:00");
    assert_eq!(format_duration(3661), "01:01:01");
    assert_eq!(format_duration(59), "00:00:59");
    assert_eq!(format_duration(360_000), "100:00:00");
}

#[test]
fn selection_helpers() {
    let values = vec!["a".to_string(), "b".to_string(), "b".to_string()];
    assert_eq!(selected_index("b", &values), Some(1));
    assert_eq!(selected_index("c", &values), None);
    assert_eq!(mic_choice("__none__"), None);
    assert_eq!(mic_choice("mic-1"), Some("mic-1".to_string()));
    assert_eq!(mic_value(&None), "__none__");
    assert_eq!(mic_value(&Some("m".to_string())), "m");
    assert_eq!(screen_device_id(3), "screen:3");
}

#[test]
fn labels() {
    let d = VideoDevice { id: "screen:0".to_string(), label: "Monitor".to_string(), kind: VideoDeviceKind::Screen, monitor_index: Some(0), width: Some(1920), height: Some(1080) };
    assert_eq!(device_label(&d), "Monitor (1920×1080)");
    let e = VideoDevice { id: "screen:1".to_string(), label: "Other".to_string(), kind: VideoDeviceKind::Screen, monitor_index: Some(1), width: None, height: Some(1) };
    assert_eq!(device_label(&e), "Other");
    let list = vec![d, e];
    assert_eq!(video_device_label(&list, "screen:1"), "Other");
    assert_eq!(video_device_label(&list, "screen:9"), "screen:9");
    let encoders = vec![VideoEncoderDescriptor {
        id: "x264enc".to_string(),
        name: "x264".to_string(),
        description: String::new(),
        is_hardware: false,
        required_memory: None,
    }];
    assert_eq!(encoder_label(&encoders, "x264enc"), "x264");
    assert_eq!(encoder_label(&encoders, "nv"), "nv");
}

#[test]
fn key_names() {
    assert_eq!(display_key(" "), "Space");
    assert_eq!(display_key("arrowleft"), "Left");
    assert_eq!(display_key("f5"), "F5");
    assert_eq!(display_key("f12"), "F12");
    assert_eq!(display_key("f256"), "F");
    assert_eq!(display_key("a"), "A");
    assert_eq!(display_key("ß"), "SS");
    assert_eq!(display_key(""), "");
}

#[test]
fn recording_shortcuts() {
    assert!(matches!(shortcut_from_key("Escape", true, false, false, false, false), ShortcutKey::Cancel));
    assert!(matches!(shortcut_from_key("Shift", false, false, true, false, false), ShortcutKey::Ignore));
    match shortcut_from_key("F10", true, false, false, false, false) {
        ShortcutKey::Record(s) => assert_eq!(s, "Ctrl+F10"),
        _ => panic!("expected a shortcut"),
    }
    match shortcut_from_key("k", true, true, true, true, true) {
        ShortcutKey::Record(s) => assert_eq!(s, "Ctrl+Alt+Shift+Super+Fn+K"),
        _ => panic!("expected a shortcut"),
    }
    match shortcut_from_key("space", false, false, false, false, false) {
        ShortcutKey::Record(s) => assert_eq!(s, "Space"),
        _ => panic!("expected a shortcut"),
    }
}

#[test]
fn timestamps() {
    assert_eq!(format_timestamp("2024-01-02T03:04:05+00:00"), "03:04:05");
    assert_eq!(format_timestamp("2024-01-02T23:59:58.123+02:00"), "23:59:58");
    assert_eq!(format_timestamp("not a time"), "not a time");
    assert_eq!(format_timestamp_with("x", Some("12:00:00".to_string())), "12:00:00");
    assert_eq!(format_timestamp_with("x", None), "x");
}

fn encoder(id: &str, name: &str) -> VideoEncoderDescriptor {
    VideoEncoderDescriptor {
        id: id.to_string(),
        name: name.to_string(),
        description: String::new(),
        is_hardware: false,
        required_memory: None,
    }
}

fn mic(id: &str, label: &str, is_input: bool) -> AudioDevice {
    AudioDevice { id: id.to_string(), label: label.to_string(), is_input }
}

#[test]
fn option_lists() {
    let devices = vec![
        VideoDevice { id: "screen:0".to_string(), label: "Main".to_string(), kind: VideoDeviceKind::Screen, monitor_index: Some(0), width: Some(1920), height: Some(1080) },
        VideoDevice { id: "screen:1".to_string(), label: "Side".to_string(), kind: VideoDeviceKind::Screen, monitor_index: Some(1), width: None, height: None },
    ];
    let video = video_options(&devices);
    assert_eq!(video.len(), 2);
    assert_eq!(video[0].id, "screen:0");
    assert_eq!(video[0].label, "Main (1920×1080)");
    assert_eq!(video[1].label, "Side");

    let encoders = vec![encoder("nvh264enc", "NVIDIA H.264"), encoder("x264enc", "x264")];
    let enc = encoder_options(&encoders);
    assert_eq!(enc[1].id, "x264enc");
    assert_eq!(enc[1].label, "x264");
    let ids = option_ids(&enc);
    assert_eq!(ids, vec!["nvh264enc".to_string(), "x264enc".to_string()]);
    assert_eq!(selected_index("x264enc", &ids), Some(1));
}

#[test]
fn microphone_list_and_row() {
    let mics = vec![mic("out", "Speakers", false), mic("m1", "Headset", true), mic("m2", "Webcam", true)];
    let items = mic_options(&mics);
    let ids = option_ids(&items);
    assert_eq!(ids, vec!["__none__".to_string(), "m1".to_string(), "m2".to_string()]);
    assert_eq!(items[0].label, "None");
    assert_eq!(items[2].label, "Webcam");
    assert_eq!(mic_row(&None, &items), 0);
    assert_eq!(mic_row(&Some("m2".to_string()), &items), 2);
    assert_eq!(mic_row(&Some("gone".to_string()), &items), 0);
}

#[test]
fn framerate_parsing() {
    assert_eq!(parse_u32("60"), Some(60));
    assert_eq!(parse_u32("+144"), Some(144));
    assert_eq!(parse_u32("4294967295"), Some(u32::MAX));
    assert_eq!(parse_u32("4294967296"), None);
    assert_eq!(parse_u32("-1"), None);
    assert_eq!(parse_u32(""), None);
    assert_eq!(parse_u32("+"), None);
    assert_eq!(parse_u32("6O"), None);
}

#[test]
fn startup_notes_cases() {
    let offline = startup_notes(false, None, Some("ignored".to_string()));
    assert_eq!(offline.len(), 1);
    assert_eq!(
        text_of(&offline[0]),
        Some((NoteKind::Warning, "Backend unavailable; running in offline mode".to_string()))
    );
    let no_manager = startup_notes(true, Some("no display".to_string()), Some("ignored".to_string()));
    assert_eq!(text_of(&no_manager[0]), Some((NoteKind::Warning, "Global shortcuts unavailable: no display".to_string())));
    assert_eq!(no_manager.len(), 1);
    let taken = startup_notes(true, None, Some("taken".to_string()));
    assert_eq!(text_of(&taken[0]), Some((NoteKind::Warning, "Shortcut registration failed: taken".to_string())));
    assert!(startup_notes(true, None, None).is_empty());
}

#[test]
fn page_texts() {
    assert_eq!(status_text(UiCaptureStatus::Offline), "Offline mode");
    assert_eq!(status_text(UiCaptureStatus::Running), "Capturing");
    assert_eq!(status_text(UiCaptureStatus::Error), "Capture error");
    assert_eq!(level_label(LogLevel::Warning), "WARN");
    assert_eq!(level_label(LogLevel::Debug), "DEBUG");
    assert_eq!(settings_helper(true, false), "Changes are applied to the active capture");
    assert_eq!(settings_helper(true, true), "Active capture");
    assert_eq!(settings_helper(false, true), "Saved locally");
    assert_eq!(settings_helper(false, false), "Backend offline; changes are saved locally");
    assert_eq!(apply_label(true), "Applying…");
    assert_eq!(apply_label(false), "Apply settings");
    assert_eq!(seconds_text(17), "17s");
    assert_eq!(buffer_caption(30), "last 30s");
    assert!(can_clip(true, true, false));
    assert!(!can_clip(true, true, true));
    assert!(!can_clip(true, false, false));
    assert!(!can_clip(false, true, false));
}

#[test]
fn offline_switches() {
    let args = vec!["clip".to_string(), "--offline".to_string()];
    assert!(offline_flag(&args, &None));
    let plain = vec!["clip".to_string()];
    assert!(!offline_flag(&plain, &None));
    assert!(offline_flag(&plain, &Some("yes".to_string())));
    assert!(offline_flag(&plain, &Some("1".to_string())));
    assert!(!offline_flag(&plain, &Some("TRUE".to_string())));
    assert!(!offline_flag(&plain, &Some("0".to_string())));
}

#[test]
fn log_view_order_and_header() {
    let logs = vec![log("first"), log("second"), log("third")];
    let rows = logs_newest_first(&logs);
    assert_eq!(rows.len(), 3);
    assert_eq!(rows[0].message, "third");
    assert_eq!(rows[2].message, "first");
    assert_eq!(recent_events_header(3), "3 recent events");
    assert_eq!(recent_events_header(0), "0 recent events");
}

#[test]
fn clip_and_apply_clicks() {
    let mut s = UiState::new(true, None, vec![]);
    assert!(!s.request_clip(true, false));
    assert!(!s.is_clipping);
    assert!(s.request_clip(true, true));
    assert!(s.is_clipping);
    assert!(!s.request_clip(true, true));
    s.begin_settings_apply();
    assert!(s.settings_pending);
}

#[test]
fn monitors_from_raw_names() {
    let name = |t: &str, pad: usize| {
        let mut v: Vec<u16> = t.encode_utf16().collect();
        v.extend(std::iter::repeat(0u16).take(pad));
        v.push('x' as u16);
        v
    };
    let names = vec![Some(name("\\\\.\\DISPLAY1", 3)), None, Some(name("Écran", 1)), Some(vec![0xD800, 0])];
    let devices = monitor_devices(&names);
    assert_eq!(devices.len(), 3);
    assert_eq!(devices[1].monitor_index, Some(1));
    assert_eq!(devices[2].monitor_index, Some(2));
    assert_eq!(devices[0].kind, VideoDeviceKind::Screen);
    assert_eq!(devices[0].id, "screen:0");
    assert_eq!(devices[0].label, "\\\\.\\DISPLAY1");
    assert_eq!(devices[1].id, "screen:1");
    assert_eq!(devices[1].label, "Écran");
    assert_eq!(devices[2].label, "\u{FFFD}");
    assert!(devices[2].width.is_none() && devices[2].height.is_none());
}
