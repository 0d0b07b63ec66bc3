use clip_service::backend::{
    apply_settings, audio_caps_label, backend_unavailable, buffer_status, check_clip_packets, check_settings_update,
    check_settings_with, clip_done, clip_filename_at, offline_unavailable_message, restart_done,
    restart_starts, restart_take, settings_save_failed, settings_update_done, start_capture_check,
    start_capture_done, stop_capture, unavailable_message, update_restarts, AudioCapsState, AudioCapsSummary,
    CaptureStatus, Notice, SettingsUpdate, UpdateAction, UpdateEvent, UpdatePhase,
};
use clip_service::backend::offline_update_done;
use clip_service::remux::{remux_wait_step, RemuxBusEvent, RemuxWait};
use clip_service::logger::{LogHistory, LogLevel};
use clip_service::remux::{check_packets, remux_summary, RemuxResult};
use clip_service::ring_buffer::{Packet, RingBuffer};
use clip_service::runtime::{restart_capture, DaemonState, RestartAction, RestartEvent};
use clip_service::settings::{CaptureSettings, ShortcutSettings};

fn settings(video: &str) -> CaptureSettings {
    CaptureSettings {
        video_device_id: video.to_string(),
        system_audio_enabled: true,
        mic_device_id: None,
        video_encoder_id: "x264enc".to_string(),
        framerate: 60,
        bitrate_kbps: 20_000,
        clips_dir: "clips".to_string(),
        shortcuts: ShortcutSettings { clip: "Ctrl+F10".to_string() },
    }
}

fn packet(pts_ms: u64, len: usize) -> Packet {
    Packet { pts_ms, data: vec![0; len] }
}

fn status_of(n: &Notice) -> Option<CaptureStatus> {
    match n {
        Notice::CaptureStatus { status, .. } => Some(*status),
        _ => None,
    }
}

fn error_of(n: &Notice) -> Option<(String, String)> {
    match n {
        Notice::OperationError { title, message } => Some((title.clone(), message.clone())),
        _ => None,
    }
}

#[test]
fn buffer_status_figures() {
    let mut rb = RingBuffer::new(30_000);
    rb.push(packet(1000, 4));
    rb.push(packet(3500, 6));
    let s = buffer_status(&rb);
    assert_eq!(s.buffer_seconds, 2);
    assert_eq!(s.ring_buffer_packets, 2);
    assert_eq!(s.ring_buffer_bytes, 10);
    assert_eq!(s.ring_buffer_duration_ms, 2500);
}

#[test]
fn caps_labels() {
    assert_eq!(audio_caps_label(None), "unavailable");
    let full = AudioCapsSummary { rate: Some(48000), channels: Some(2), raw: Some("raw".to_string()) };
    assert_eq!(audio_caps_label(Some(&full)), "48000 Hz / 2 ch");
    let raw = AudioCapsSummary { rate: Some(44100), channels: None, raw: Some("audio/x-raw".to_string()) };
    assert_eq!(audio_caps_label(Some(&raw)), "audio/x-raw");
    let bare = AudioCapsSummary { rate: None, channels: None, raw: None };
    assert_eq!(audio_caps_label(Some(&bare)), "connected");
    let state = AudioCapsState::new();
    assert!(state.system.is_none() && state.mic.is_none());
}

#[test]
fn unavailable_messages() {
    assert_eq!(unavailable_message(&None), "capture backend is unavailable");
    assert_eq!(unavailable_message(&Some("no gpu".to_string())), "no gpu");
    assert_eq!(offline_unavailable_message("disabled"), "capture backend is unavailable: disabled");
    assert_eq!(error_of(&backend_unavailable(&None)), Some(("Backend".to_string(), "capture backend is unavailable".to_string())));
}

#[test]
fn clip_file_names() {
    assert_eq!(clip_filename_at("2024-05-06_07-08-09"), "clip-2024-05-06_07-08-09.mp4");
    assert_eq!(check_clip_packets(0).unwrap_err(), "no packets available");
    assert!(check_clip_packets(3).is_ok());
}

#[test]
fn start_capture_flow() {
    let mut state: DaemonState<u32> = DaemonState { settings: settings("screen:0"), capture: None };
    let mut history = LogHistory::new();
    assert!(start_capture_check(true, &None, &state).is_ok());
    let offline = start_capture_check(false, &Some("why".to_string()), &state).unwrap_err();
    assert_eq!(error_of(&offline), Some(("Backend".to_string(), "why".to_string())));
    let (notice, events) = start_capture_done(&mut state, &mut history, Ok(7));
    assert_eq!(state.capture, Some(7));
    assert_eq!(status_of(&notice), Some(CaptureStatus::Running));
    assert_eq!(events[0].message, "capture started");
    let busy = start_capture_check(true, &None, &state).unwrap_err();
    assert_eq!(error_of(&busy), Some(("Capture".to_string(), "capture is already running".to_string())));
    let mut fresh: DaemonState<u32> = DaemonState { settings: settings("screen:0"), capture: None };
    let (notice, events) = start_capture_done(&mut fresh, &mut history, Err("no encoder".to_string()));
    assert!(fresh.capture.is_none());
    assert_eq!(status_of(&notice), Some(CaptureStatus::Error));
    assert_eq!(events[0].level, LogLevel::Error);
    assert_eq!(events[0].message, "start failed: no encoder");
}

#[test]
fn stop_capture_flow() {
    let mut state: DaemonState<u32> = DaemonState { settings: settings("screen:0"), capture: Some(3) };
    let mut history = LogHistory::new();
    let (old, notice, events) = stop_capture(true, &None, &mut state, &mut history);
    assert_eq!(old, Some(3));
    assert!(state.capture.is_none());
    assert_eq!(status_of(&notice), Some(CaptureStatus::Stopped));
    assert_eq!(events[0].message, "stopping pipeline");
    let (old, _, events) = stop_capture(true, &None, &mut state, &mut history);
    assert!(old.is_none() && events.is_empty());
    let mut kept: DaemonState<u32> = DaemonState { settings: settings("screen:0"), capture: Some(1) };
    let (old, notice, _) = stop_capture(false, &None, &mut kept, &mut history);
    assert!(old.is_none());
    assert_eq!(kept.capture, Some(1));
    assert!(error_of(&notice).is_some());
}

#[test]
fn restart_flow_in_backend() {
    let mut state: DaemonState<u32> = DaemonState { settings: settings("screen:0"), capture: Some(1) };
    let mut history = LogHistory::new();
    let (old, was_running) = restart_take(&mut state);
    assert_eq!(old, Some(1));
    assert!(was_running);
    assert!(restart_starts(was_running, false));
    assert!(!restart_starts(false, false));
    let (notice, _) = restart_done(&mut state, &mut history, Some(Ok(2)));
    assert_eq!(state.capture, Some(2));
    assert_eq!(status_of(&notice), Some(CaptureStatus::Running));
    let (notice, events) = restart_done(&mut state, &mut history, Some(Err("boom".to_string())));
    assert_eq!(status_of(&notice), Some(CaptureStatus::Error));
    assert_eq!(events[0].message, "restart failed: boom");
    let (notice, _) = restart_done(&mut state, &mut history, None);
    assert_eq!(status_of(&notice), Some(CaptureStatus::Stopped));
}

#[test]
fn settings_update_checks() {
    let s = settings("screen:0");
    assert!(check_settings_update(Ok(()), &s).is_ok());
    let rejected = check_settings_update(Err("bad device".to_string()), &s).unwrap_err();
    assert_eq!(error_of(&rejected), Some(("Settings".to_string(), "bad device".to_string())));
    let mut bad = s.clone();
    bad.shortcuts.clip = "Ctrl+".to_string();
    let (title, message) = error_of(&check_settings_update(Ok(()), &bad).unwrap_err()).unwrap();
    assert_eq!(title, "Settings");
    assert!(message.starts_with("invalid clip shortcut: "));
    assert!(message.len() > "invalid clip shortcut: ".len());
    let (_, m) = error_of(&check_settings_with(Ok(()), Some("oops".to_string())).unwrap_err()).unwrap();
    assert_eq!(m, "invalid clip shortcut: oops");
}

#[test]
fn settings_update_apply_and_finish() {
    let mut history = LogHistory::new();
    let (notice, events) = settings_save_failed(&mut history, "disk full".to_string());
    assert_eq!(error_of(&notice), Some(("Settings".to_string(), "disk full".to_string())));
    assert_eq!(events[0].message, "failed to save: disk full");

    let mut state: DaemonState<u32> = DaemonState { settings: settings("screen:0"), capture: Some(5) };
    let mut same = settings("screen:0");
    same.clips_dir = "other".to_string();
    let applied = apply_settings(&mut state, same);
    assert!(!applied.restart && applied.was_running && applied.old_capture.is_none());
    assert!(!update_restarts(&applied));
    assert_eq!(state.settings.clips_dir, "other");
    assert_eq!(state.capture, Some(5));

    let applied = apply_settings(&mut state, settings("screen:1"));
    assert!(applied.restart && update_restarts(&applied));
    assert_eq!(applied.old_capture, Some(5));
    assert!(state.capture.is_none());

    let (notices, events) = settings_update_done(&mut state, &mut history, Some(Ok(6)));
    assert_eq!(state.capture, Some(6));
    assert!(matches!(notices[0], Notice::SettingsUpdated));
    assert_eq!(status_of(&notices[1]), Some(CaptureStatus::Running));
    assert_eq!(events[0].message, "updated settings");

    let (notices, events) = settings_update_done(&mut state, &mut history, Some(Err("gone".to_string())));
    assert_eq!(notices.len(), 2);
    assert_eq!(status_of(&notices[0]), Some(CaptureStatus::Error));
    assert_eq!(error_of(&notices[1]).unwrap().1, "settings saved, but capture could not restart");
    assert_eq!(events[0].message, "restart failed: gone");

    let mut idle: DaemonState<u32> = DaemonState { settings: settings("screen:0"), capture: None };
    let (notices, _) = settings_update_done(&mut idle, &mut history, None);
    assert_eq!(notices.len(), 1);
}

#[test]
fn clip_outcomes() {
    let mut history = LogHistory::new();
    let ok = RemuxResult { duration_ms: 1200, bytes_written: 99 };
    let (notice, events) = clip_done(&mut history, "clip-x.mp4".to_string(), "clips/clip-x.mp4", Ok(ok));
    assert!(matches!(notice, Notice::ClipFinished { ref filename, duration_ms: 1200 } if filename == "clip-x.mp4"));
    assert_eq!(events[0].message, "clip saved to clips/clip-x.mp4");
    let (notice, events) = clip_done(&mut history, "c".to_string(), "p", Err("remux timed out".to_string()));
    assert_eq!(error_of(&notice), Some(("Clip".to_string(), "remux timed out".to_string())));
    assert!(events.is_empty());
}

#[test]
fn remux_summary_figures() {
    assert_eq!(check_packets(&vec![]).unwrap_err(), "no packets to remux");
    assert_eq!(remux_summary(&vec![]).unwrap_err(), "no packets to remux");
    let packets = vec![packet(100, 10), packet(250, 5), packet(900, 1)];
    assert!(check_packets(&packets).is_ok());
    let r = remux_summary(&packets).unwrap();
    assert_eq!(r.duration_ms, 800);
    assert_eq!(r.bytes_written, 16);
}

#[test]
fn daemon_restart_steps() {
    let mut state: DaemonState<u32> = DaemonState { settings: settings("screen:0"), capture: Some(1) };
    let mut rb = RingBuffer::new(1000);
    rb.push(packet(0, 1));
    let mut history = LogHistory::new();
    let step = restart_capture(&mut state, &mut rb, &mut history, RestartEvent::Begin);
    assert!(matches!(step.action, RestartAction::StopOld(1)));
    assert_eq!(step.events[0].message, "stopping existing pipeline");
    assert_eq!(rb.len(), 1);
    let step = restart_capture(&mut state, &mut rb, &mut history, RestartEvent::OldStopped);
    assert!(matches!(step.action, RestartAction::StartCapture));
    assert!(rb.is_empty());
    let step = restart_capture(&mut state, &mut rb, &mut history, RestartEvent::Started(2));
    assert!(matches!(step.action, RestartAction::Done));
    assert_eq!(step.events[0].message, "pipeline started");
    assert_eq!(state.capture, Some(2));
    assert_eq!(history.len(), 2);
}

#[test]
fn daemon_restart_without_video_device() {
    let mut state: DaemonState<u32> = DaemonState { settings: settings(""), capture: None };
    let mut rb = RingBuffer::new(1000);
    rb.push(packet(0, 1));
    let mut history = LogHistory::new();
    let step = restart_capture(&mut state, &mut rb, &mut history, RestartEvent::Begin);
    assert!(matches!(step.action, RestartAction::Done));
    assert!(rb.is_empty());
    assert_eq!(step.events[0].level, LogLevel::Warning);
    assert_eq!(step.events[0].message, "no video device available; capture disabled");
    let step = restart_capture(&mut state, &mut rb, &mut history, RestartEvent::StartFailed);
    assert!(matches!(step.action, RestartAction::Done));
    assert!(step.events.is_empty());
}

fn finish_notices(a: UpdateAction<u32>) -> (Option<u32>, Vec<Notice>) {
    match a {
        UpdateAction::Finish { old_capture, notices } => (old_capture, notices),
        _ => panic!("expected the update to finish"),
    }
}

#[test]
fn update_refused_settings_change_nothing() {
    let mut state = DaemonState { settings: settings("screen:0"), capture: Some(1u32) };
    let mut h = LogHistory::new();
    let mut update = SettingsUpdate::new();
    let mut bad = settings("screen:1");
    bad.shortcuts.clip = "Ctrl+".to_string();
    let (a, events) = update.step(&mut state, &mut h, UpdateEvent::Begin { validation: Ok(()), new_settings: bad });
    let (old, notices) = finish_notices(a);
    assert_eq!(old, None);
    assert_eq!(notices.len(), 1);
    let (title, message) = error_of(&notices[0]).unwrap();
    assert_eq!(title, "Settings");
    assert!(message.starts_with("invalid clip shortcut: "));
    assert!(events.is_empty());
    assert_eq!(state.settings.video_device_id, "screen:0");
    assert_eq!(state.capture, Some(1));

    let (a, _) = update.step(
        &mut state,
        &mut h,
        UpdateEvent::Begin { validation: Err("unknown device".to_string()), new_settings: settings("screen:9") },
    );
    let (_, notices) = finish_notices(a);
    assert_eq!(error_of(&notices[0]), Some(("Settings".to_string(), "unknown device".to_string())));
    assert_eq!(state.settings.video_device_id, "screen:0");
}

#[test]
fn update_save_failure_keeps_old_settings() {
    let mut state = DaemonState { settings: settings("screen:0"), capture: Some(1u32) };
    let mut h = LogHistory::new();
    let mut update = SettingsUpdate::new();
    let (a, _) = update.step(&mut state, &mut h, UpdateEvent::Begin { validation: Ok(()), new_settings: settings("screen:1") });
    assert!(matches!(a, UpdateAction::Save));
    assert!(matches!(update.phase, UpdatePhase::Saving(_)));
    assert_eq!(state.settings.video_device_id, "screen:0");
    let (a, events) = update.step(&mut state, &mut h, UpdateEvent::Saved(Err("read-only".to_string())));
    let (_, notices) = finish_notices(a);
    assert_eq!(error_of(&notices[0]), Some(("Settings".to_string(), "read-only".to_string())));
    assert_eq!(events[0].message, "failed to save: read-only");
    assert_eq!(state.settings.video_device_id, "screen:0");
    assert_eq!(state.capture, Some(1));
    assert!(matches!(update.phase, UpdatePhase::Idle));
}

#[test]
fn update_restarts_a_running_pipeline() {
    let mut state = DaemonState { settings: settings("screen:0"), capture: Some(1u32) };
    let mut h = LogHistory::new();
    let mut update = SettingsUpdate::new();
    let _ = update.step(&mut state, &mut h, UpdateEvent::Begin { validation: Ok(()), new_settings: settings("screen:1") });
    let (a, _) = update.step(&mut state, &mut h, UpdateEvent::Saved(Ok(())));
    assert!(matches!(a, UpdateAction::Restart(Some(1))));
    assert_eq!(state.settings.video_device_id, "screen:1");
    assert_eq!(state.capture, None);
    let (a, events) = update.step(&mut state, &mut h, UpdateEvent::Restarted(Ok(2)));
    let (_, notices) = finish_notices(a);
    assert!(matches!(notices[0], Notice::SettingsUpdated));
    assert_eq!(status_of(&notices[1]), Some(CaptureStatus::Running));
    assert_eq!(events[0].message, "updated settings");
    assert_eq!(state.capture, Some(2));
}

#[test]
fn update_restart_failure_reports_both() {
    let mut state = DaemonState { settings: settings("screen:0"), capture: Some(1u32) };
    let mut h = LogHistory::new();
    let mut update = SettingsUpdate::new();
    let _ = update.step(&mut state, &mut h, UpdateEvent::Begin { validation: Ok(()), new_settings: settings("screen:1") });
    let _ = update.step(&mut state, &mut h, UpdateEvent::Saved(Ok(())));
    let (a, events) = update.step(&mut state, &mut h, UpdateEvent::Restarted(Err("no encoder".to_string())));
    let (_, notices) = finish_notices(a);
    assert_eq!(status_of(&notices[0]), Some(CaptureStatus::Error));
    assert_eq!(
        error_of(&notices[1]),
        Some(("Settings".to_string(), "settings saved, but capture could not restart".to_string()))
    );
    assert_eq!(events[0].message, "restart failed: no encoder");
    assert_eq!(state.capture, None);
    assert_eq!(state.settings.video_device_id, "screen:1");
}

#[test]
fn update_without_pipeline_change_only_sets_volumes() {
    let mut state = DaemonState { settings: settings("screen:0"), capture: Some(1u32) };
    let mut h = LogHistory::new();
    let mut update = SettingsUpdate::new();
    let mut same = settings("screen:0");
    same.clips_dir = "elsewhere".to_string();
    let _ = update.step(&mut state, &mut h, UpdateEvent::Begin { validation: Ok(()), new_settings: same });
    let (a, _) = update.step(&mut state, &mut h, UpdateEvent::Saved(Ok(())));
    assert!(matches!(a, UpdateAction::SetVolumes));
    assert_eq!(state.settings.clips_dir, "elsewhere");
    assert_eq!(state.capture, Some(1));
    let (a, _) = update.step(&mut state, &mut h, UpdateEvent::VolumesSet);
    let (_, notices) = finish_notices(a);
    assert_eq!(notices.len(), 2);
    assert_eq!(status_of(&notices[1]), Some(CaptureStatus::Running));
}

#[test]
fn update_while_stopped_needs_no_restart() {
    let mut state: DaemonState<u32> = DaemonState { settings: settings("screen:0"), capture: None };
    let mut h = LogHistory::new();
    let mut update = SettingsUpdate::new();
    let _ = update.step(&mut state, &mut h, UpdateEvent::Begin { validation: Ok(()), new_settings: settings("screen:2") });
    let (a, events) = update.step(&mut state, &mut h, UpdateEvent::Saved(Ok(())));
    let (old, notices) = finish_notices(a);
    assert_eq!(old, None);
    assert_eq!(notices.len(), 1);
    assert!(matches!(notices[0], Notice::SettingsUpdated));
    assert_eq!(events[0].message, "updated settings");
    assert_eq!(state.settings.video_device_id, "screen:2");
}

#[test]
fn offline_settings_update() {
    let mut state: DaemonState<u32> = DaemonState { settings: settings("screen:0"), capture: None };
    let mut h = LogHistory::new();
    let (notice, events) = offline_update_done(&mut state, &mut h, settings("screen:3"), Ok(()));
    assert!(matches!(notice, Notice::SettingsUpdated));
    assert_eq!(events[0].message, "saved settings while backend is offline");
    assert_eq!(events[0].level, LogLevel::Info);
    assert_eq!(state.settings.video_device_id, "screen:3");
    let (notice, events) = offline_update_done(&mut state, &mut h, settings("screen:4"), Err("denied".to_string()));
    assert_eq!(error_of(&notice), Some(("Settings".to_string(), "denied".to_string())));
    assert_eq!(events[0].message, "failed to save: denied");
    assert_eq!(state.settings.video_device_id, "screen:3");
}

#[test]
fn remux_wait_reactions() {
    assert!(matches!(remux_wait_step(RemuxBusEvent::Eos), RemuxWait::Done));
    assert!(matches!(remux_wait_step(RemuxBusEvent::Other), RemuxWait::Wait));
    assert!(matches!(remux_wait_step(RemuxBusEvent::Error("bad".to_string())), RemuxWait::Fail(m) if m == "bad"));
    assert!(matches!(remux_wait_step(RemuxBusEvent::TimedOut), RemuxWait::Fail(m) if m == "remux timed out waiting for EOS"));
}
