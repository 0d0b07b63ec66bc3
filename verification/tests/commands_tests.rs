use clip_service::backend::{apply_settings, check_clip_packets, stop_capture, CaptureStatus, Notice};
use clip_service::commands::{
    CommandUpdate, CommandUpdateAction, CommandUpdateEvent, CommandUpdatePhase,
    clip_command_done, list_clip_entries, restart_command_done, restart_command_take, settings_command_check,
    settings_command_done, settings_command_saved, start_command_check, start_command_done, startup_done,
    status_name, DirEntryInfo, FileMeta,
};
use clip_service::logger::{LogHistory, LogLevel};
use clip_service::remux::RemuxResult;
use clip_service::runtime::DaemonState;
use clip_service::settings::{CaptureSettings, ShortcutSettings};

fn settings(video: &str, framerate: u32) -> CaptureSettings {
    CaptureSettings {
        video_device_id: video.to_string(),
        system_audio_enabled: true,
        mic_device_id: None,
        video_encoder_id: "x264enc".to_string(),
        framerate,
        bitrate_kbps: 20_000,
        clips_dir: "clips".to_string(),
        shortcuts: ShortcutSettings { clip: "Ctrl+F10".to_string() },
    }
}

fn state(capture: Option<u32>) -> DaemonState<u32> {
    DaemonState { settings: settings("screen:0", 60), capture }
}

#[test]
fn status_names() {
    assert_eq!(status_name(CaptureStatus::Running), "running");
    assert_eq!(status_name(CaptureStatus::Stopped), "stopped");
    assert_eq!(status_name(CaptureStatus::Error), "error");
}

#[test]
fn start_refuses_a_second_pipeline() {
    assert_eq!(start_command_check(&state(Some(1))), Err("capture already running".to_string()));
    assert_eq!(start_command_check(&state(None)), Ok(()));
}

#[test]
fn start_success_reports_running_without_logging() {
    let mut s = state(None);
    let mut h = LogHistory::new();
    let o = start_command_done(&mut s, &mut h, Ok(7));
    assert_eq!(s.capture, Some(7));
    assert!(o.reply.is_ok());
    let report = o.report.unwrap();
    assert_eq!(report.status, CaptureStatus::Running);
    assert_eq!(report.message, None);
    assert!(o.events.is_empty());
    assert_eq!(h.len(), 0);
}

#[test]
fn start_failure_is_logged_reported_and_answered() {
    let mut s = state(None);
    let mut h = LogHistory::new();
    let o = start_command_done(&mut s, &mut h, Err("no device".to_string()));
    assert_eq!(s.capture, None);
    assert_eq!(o.reply, Err("no device".to_string()));
    let report = o.report.unwrap();
    assert_eq!(report.status, CaptureStatus::Error);
    assert_eq!(report.message, Some("no device".to_string()));
    assert_eq!(o.events.len(), 1);
    assert_eq!(o.events[0].level, LogLevel::Error);
    assert_eq!(o.events[0].source, "capture");
    assert_eq!(o.events[0].message, "start failed: no device");
    assert_eq!(h.len(), 1);
}

#[test]
fn restart_takes_and_logs_the_old_pipeline() {
    let mut s = state(Some(3));
    let mut h = LogHistory::new();
    let (old, events) = restart_command_take(&mut s, &mut h);
    assert_eq!(old, Some(3));
    assert_eq!(s.capture, None);
    assert_eq!(events.len(), 1);
    assert_eq!(events[0].message, "stopping existing pipeline");
    let (none, quiet) = restart_command_take(&mut s, &mut h);
    assert_eq!(none, None);
    assert!(quiet.is_empty());
}

#[test]
fn restart_outcomes() {
    let mut s = state(None);
    let mut h = LogHistory::new();
    let failed = restart_command_done(&mut s, &mut h, Err("busy".to_string()));
    assert_eq!(failed.reply, Err("busy".to_string()));
    assert_eq!(failed.events[0].message, "restart failed: busy");
    assert_eq!(s.capture, None);
    let ok = restart_command_done(&mut s, &mut h, Ok(9));
    assert!(ok.reply.is_ok());
    assert_eq!(s.capture, Some(9));
    assert_eq!(ok.report.unwrap().status, CaptureStatus::Running);
}

#[test]
fn startup_failure_is_logged() {
    let mut s = state(None);
    let mut h = LogHistory::new();
    let (report, events) = startup_done(&mut s, &mut h, Err("no encoder".to_string()));
    assert_eq!(report.status, CaptureStatus::Error);
    assert_eq!(report.message, Some("no encoder".to_string()));
    assert_eq!(events[0].message, "startup failed: no encoder");
    let (report, events) = startup_done(&mut s, &mut h, Ok(1));
    assert_eq!(report.status, CaptureStatus::Running);
    assert!(events.is_empty());
    assert_eq!(s.capture, Some(1));
}

#[test]
fn stop_command_logs_only_a_running_pipeline() {
    let mut s = state(Some(2));
    let mut h = LogHistory::new();
    let (old, notice, events) = stop_capture(true, &None, &mut s, &mut h);
    assert_eq!(old, Some(2));
    assert!(matches!(notice, Notice::CaptureStatus { status: CaptureStatus::Stopped, .. }));
    assert_eq!(events[0].message, "stopping pipeline");
}

#[test]
fn settings_check_order() {
    let mut h = LogHistory::new();
    let (r, events) = settings_command_check(&mut h, Err("registry".to_string()), Err("bad".to_string()));
    assert_eq!(r, Err("registry".to_string()));
    assert_eq!(events[0].message, "failed to list encoders: registry");
    assert_eq!(events[0].source, "settings");
    let (r, events) = settings_command_check(&mut h, Ok(()), Err("bad framerate".to_string()));
    assert_eq!(r, Err("bad framerate".to_string()));
    assert!(events.is_empty());
    let (r, events) = settings_command_check(&mut h, Ok(()), Ok(()));
    assert_eq!(r, Ok(()));
    assert!(events.is_empty());
}

#[test]
fn settings_saved_outcomes() {
    let mut h = LogHistory::new();
    let (r, events) = settings_command_saved(&mut h, Err("disk full".to_string()), true);
    assert_eq!(r, Err("disk full".to_string()));
    assert_eq!(events.len(), 1);
    assert_eq!(events[0].message, "failed to save: disk full");
    let (r, events) = settings_command_saved(&mut h, Ok(()), true);
    assert_eq!(r, Ok(()));
    assert_eq!(events[0].message, "stopping existing pipeline");
    let (r, events) = settings_command_saved(&mut h, Ok(()), false);
    assert_eq!(r, Ok(()));
    assert!(events.is_empty());
}

#[test]
fn settings_update_flow_restarts_on_capture_change() {
    let mut s = state(Some(4));
    let mut h = LogHistory::new();
    let applied = apply_settings(&mut s, settings("screen:0", 30));
    assert!(applied.restart);
    assert_eq!(applied.old_capture, Some(4));
    let o = settings_command_done(&mut s, &mut h, Some(Ok(5)));
    assert_eq!(s.capture, Some(5));
    assert!(o.reply.is_ok());
    assert_eq!(o.events[0].message, "updated and capture restarted");
    assert_eq!(o.report.unwrap().status, CaptureStatus::Running);
}

#[test]
fn settings_restart_failure() {
    let mut s = state(None);
    let mut h = LogHistory::new();
    let o = settings_command_done(&mut s, &mut h, Some(Err("gone".to_string())));
    assert_eq!(o.reply, Err("gone".to_string()));
    assert_eq!(o.events[0].level, LogLevel::Error);
    assert_eq!(o.events[0].message, "restart failed: gone");
    let report = o.report.unwrap();
    assert_eq!(report.status, CaptureStatus::Error);
    assert_eq!(report.message, Some("gone".to_string()));
}

#[test]
fn clip_command_response() {
    assert_eq!(check_clip_packets(0), Err("no packets available".to_string()));
    let mut h = LogHistory::new();
    let (r, events) = clip_command_done(
        &mut h,
        "clip-1.mp4".to_string(),
        12,
        "clips/clip-1.mp4",
        Ok(RemuxResult { duration_ms: 4000, bytes_written: 1880 }),
    );
    let c = r.unwrap();
    assert_eq!(c.filename, "clip-1.mp4");
    assert_eq!(c.packets, 12);
    assert_eq!(c.duration_ms, 4000);
    assert_eq!(c.bytes, 1880);
    assert_eq!(events[0].message, "Clip saved to clips/clip-1.mp4");
    let (r, events) = clip_command_done(&mut h, "x".to_string(), 1, "p", Err("remux timed out waiting for EOS".to_string()));
    assert_eq!(r.err(), Some("remux timed out waiting for EOS".to_string()));
    assert!(events.is_empty());
}

#[test]
fn clip_listing_keeps_readable_files_in_order() {
    let entries = vec![
        DirEntryInfo { name: Some("a.mp4".to_string()), metadata: Some(FileMeta { is_file: true, len: 10 }) },
        DirEntryInfo { name: Some("sub".to_string()), metadata: Some(FileMeta { is_file: false, len: 0 }) },
        DirEntryInfo { name: None, metadata: Some(FileMeta { is_file: true, len: 5 }) },
        DirEntryInfo { name: Some("b.mp4".to_string()), metadata: None },
        DirEntryInfo { name: Some("c.mp4".to_string()), metadata: Some(FileMeta { is_file: true, len: 30 }) },
    ];
    let clips = list_clip_entries(&entries);
    assert_eq!(clips.len(), 2);
    assert_eq!(clips[0].filename, "a.mp4");
    assert_eq!(clips[0].size_bytes, 10);
    assert_eq!(clips[1].filename, "c.mp4");
    assert_eq!(clips[1].size_bytes, 30);
}

fn finish(a: CommandUpdateAction<u32>) -> (Result<(), String>, Option<(CaptureStatus, Option<String>)>) {
    match a {
        CommandUpdateAction::Finish { reply, report } => (reply, report.map(|r| (r.status, r.message))),
        _ => panic!("expected the command to finish"),
    }
}

#[test]
fn command_update_refusals() {
    let mut s = state(Some(1));
    let mut h = LogHistory::new();
    let mut u = CommandUpdate::new();
    let begin = CommandUpdateEvent::Begin {
        encoders: Err("registry".to_string()),
        validation: Ok(()),
        new_settings: settings("screen:1", 60),
    };
    let (a, events) = u.step(&mut s, &mut h, begin);
    assert_eq!(finish(a), (Err("registry".to_string()), None));
    assert_eq!(events[0].message, "failed to list encoders: registry");
    assert_eq!(s.settings.video_device_id, "screen:0");
    let begin = CommandUpdateEvent::Begin {
        encoders: Ok(()),
        validation: Err("unknown device".to_string()),
        new_settings: settings("screen:1", 60),
    };
    let (a, events) = u.step(&mut s, &mut h, begin);
    assert_eq!(finish(a), (Err("unknown device".to_string()), None));
    assert!(events.is_empty());
    assert_eq!(s.capture, Some(1));
}

#[test]
fn command_update_restarts_after_saving() {
    let mut s = state(Some(1));
    let mut h = LogHistory::new();
    let mut u = CommandUpdate::new();
    let begin = CommandUpdateEvent::Begin { encoders: Ok(()), validation: Ok(()), new_settings: settings("screen:1", 60) };
    let (a, _) = u.step(&mut s, &mut h, begin);
    assert!(matches!(a, CommandUpdateAction::Save(Some(1))));
    assert_eq!(s.settings.video_device_id, "screen:1");
    assert_eq!(s.capture, None);
    assert!(matches!(u.phase, CommandUpdatePhase::Saving { restart: true }));
    let (a, events) = u.step(&mut s, &mut h, CommandUpdateEvent::Saved(Ok(())));
    assert!(matches!(a, CommandUpdateAction::Restart));
    assert_eq!(events[0].message, "stopping existing pipeline");
    let (a, events) = u.step(&mut s, &mut h, CommandUpdateEvent::Restarted(Ok(5)));
    assert_eq!(finish(a), (Ok(()), Some((CaptureStatus::Running, None))));
    assert_eq!(events[0].message, "updated and capture restarted");
    assert_eq!(s.capture, Some(5));
}

#[test]
fn command_update_failures_after_acceptance() {
    let mut s = state(Some(1));
    let mut h = LogHistory::new();
    let mut u = CommandUpdate::new();
    let begin = CommandUpdateEvent::Begin { encoders: Ok(()), validation: Ok(()), new_settings: settings("screen:1", 60) };
    let _ = u.step(&mut s, &mut h, begin);
    let (a, events) = u.step(&mut s, &mut h, CommandUpdateEvent::Saved(Err("disk".to_string())));
    assert_eq!(finish(a), (Err("disk".to_string()), None));
    assert_eq!(events[0].message, "failed to save: disk");
    // The settings were put in force before the write.
    assert_eq!(s.settings.video_device_id, "screen:1");

    let begin = CommandUpdateEvent::Begin { encoders: Ok(()), validation: Ok(()), new_settings: settings("screen:2", 60) };
    let _ = u.step(&mut s, &mut h, begin);
    let _ = u.step(&mut s, &mut h, CommandUpdateEvent::Saved(Ok(())));
    let (a, events) = u.step(&mut s, &mut h, CommandUpdateEvent::Restarted(Err("busy".to_string())));
    assert_eq!(finish(a), (Err("busy".to_string()), Some((CaptureStatus::Error, Some("busy".to_string())))));
    assert_eq!(events[0].message, "restart failed: busy");
}

#[test]
fn command_update_without_rebuild_sets_volumes() {
    let mut s = state(Some(1));
    let mut h = LogHistory::new();
    let mut u = CommandUpdate::new();
    let mut same = settings("screen:0", 60);
    same.clips_dir = "elsewhere".to_string();
    let begin = CommandUpdateEvent::Begin { encoders: Ok(()), validation: Ok(()), new_settings: same };
    let (a, _) = u.step(&mut s, &mut h, begin);
    assert!(matches!(a, CommandUpdateAction::Save(None)));
    let (a, events) = u.step(&mut s, &mut h, CommandUpdateEvent::Saved(Ok(())));
    assert!(matches!(a, CommandUpdateAction::SetVolumes));
    assert!(events.is_empty());
    let (a, _) = u.step(&mut s, &mut h, CommandUpdateEvent::VolumesSet);
    assert_eq!(finish(a), (Ok(()), Some((CaptureStatus::Running, None))));
    assert_eq!(s.capture, Some(1));
    assert_eq!(s.settings.clips_dir, "elsewhere");
}
