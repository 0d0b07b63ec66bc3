use clip_service::audio::{
    coerced_caps_line, create_failed_line, device_caps_line, fallback_device_target, required_audio_sources,
    selected_device_line, source_plan, target_caps_line, AudioMixer, AudioSourceId,
};
use clip_service::caps::AudioCapsChoice;
use clip_service::devices::AudioDeviceInfo;
use clip_service::caps::mix_format_choice;
use clip_service::capture::{
    attempt_settings, begin_stop, capture_attempts, change_state, is_running, needs_stop, on_bus_message, validate_config, AttemptAction,
    AttemptOutcome, AttemptRun, BusMessage, CapsPolicy, CaptureError, CaptureState, ErrorKind,
};
use clip_service::logger::{LogHistory, LogLevel};
use clip_service::settings::{should_restart_capture, CaptureSettings, ShortcutSettings};

fn settings() -> CaptureSettings {
    CaptureSettings {
        video_device_id: "screen:0".to_string(),
        system_audio_enabled: true,
        mic_device_id: Some("mic-1".to_string()),
        video_encoder_id: "x264enc".to_string(),
        framerate: 60,
        bitrate_kbps: 20_000,
        clips_dir: "clips".to_string(),
        shortcuts: ShortcutSettings { clip: "Ctrl+F10".to_string() },
    }
}

#[test]
fn mix_format_is_48k_stereo_interleaved() {
    let caps = mix_format_choice();
    assert_eq!(caps.rate, 48_000);
    assert_eq!(caps.channels, 2);
    assert_eq!(caps.layout, "interleaved");
}

#[test]
fn restart_needed_only_for_pipeline_fields() {
    let a = settings();
    let mut b = a.clone();
    assert!(!should_restart_capture(&a, &b));
    b.clips_dir = "elsewhere".to_string();
    b.shortcuts.clip = "Ctrl+F9".to_string();
    assert!(!should_restart_capture(&a, &b));
    b.framerate = 30;
    assert!(should_restart_capture(&a, &b));
    let mut c = a.clone();
    c.mic_device_id = None;
    assert!(should_restart_capture(&a, &c));
    let mut d = a.clone();
    d.video_encoder_id = "nvh264enc".to_string();
    assert!(should_restart_capture(&a, &d));
}

#[test]
fn empty_microphone_id_is_rejected() {
    let mut s = settings();
    assert!(validate_config(&s).is_ok());
    s.mic_device_id = Some(String::new());
    let err = validate_config(&s).unwrap_err();
    assert_eq!(err, CaptureError::EmptyMicrophoneId);
    assert_eq!(err.kind(), ErrorKind::InvalidInput);
    assert_eq!(err.message(), "microphone device id is empty");
    s.mic_device_id = None;
    assert!(validate_config(&s).is_ok());
}

#[test]
fn error_messages_and_kinds() {
    assert_eq!(CaptureError::EncoderUnavailable.message(), "selected encoder not available");
    assert_eq!(CaptureError::D3D12Unsupported.message(), "D3D12 encoders are not supported");
    assert_eq!(CaptureError::NoOutputDevice.kind(), ErrorKind::NotFound);
    assert_eq!(CaptureError::MicrophoneUnavailable.message(), "selected microphone device not available");
    assert_eq!(CaptureError::StartFailed.kind(), ErrorKind::Other);
}

#[test]
fn attempts_with_both_sources() {
    let s = settings();
    let attempts = capture_attempts(&s);
    assert_eq!(attempts.len(), 4);
    assert_eq!(attempts[0].policy, CapsPolicy::Default);
    assert_eq!(attempts[0].label, "default caps");
    assert_eq!(attempts[1].label, "fallback caps");
    assert!(attempts[2].disable_mic && !attempts[2].disable_system);
    assert_eq!(attempts[2].label, "fallback caps (mic disabled)");
    assert!(attempts[3].disable_system && !attempts[3].disable_mic);
    let without_mic = attempt_settings(&s, &attempts[2]);
    assert!(without_mic.mic_device_id.is_none());
    assert!(without_mic.system_audio_enabled);
    let without_system = attempt_settings(&s, &attempts[3]);
    assert!(!without_system.system_audio_enabled);
    assert_eq!(without_system.mic_device_id, Some("mic-1".to_string()));
}

#[test]
fn attempts_without_audio() {
    let mut s = settings();
    s.system_audio_enabled = false;
    s.mic_device_id = Some(String::new());
    let attempts = capture_attempts(&s);
    assert_eq!(attempts.len(), 2);
    assert_eq!(attempts[1].policy, CapsPolicy::SafeFallback);
}

#[test]
fn audio_sources_and_mixer() {
    let s = settings();
    assert_eq!(required_audio_sources(&s), vec![AudioSourceId::System, AudioSourceId::Mic]);
    assert!(AudioMixer::from_settings(&s).is_some());
    let mut only_mic = s.clone();
    only_mic.system_audio_enabled = false;
    assert_eq!(required_audio_sources(&only_mic), vec![AudioSourceId::Mic]);
    assert!(AudioMixer::from_settings(&only_mic).is_none());
    let mut none = only_mic.clone();
    none.mic_device_id = Some(String::new());
    assert!(required_audio_sources(&none).is_empty());
    assert!(AudioMixer::from_settings(&none).is_none());
}

#[test]
fn capture_state_queries() {
    assert!(is_running(&CaptureState::Running));
    assert!(!is_running(&CaptureState::Starting));
    assert!(needs_stop(&CaptureState::Failed("x".to_string())));
    assert!(!needs_stop(&CaptureState::Stopped));
}

#[test]
fn bus_error_fails_capture_and_stops() {
    let mut history = LogHistory::new();
    let msg = BusMessage::Error {
        source_path: Some("/pipeline/src".to_string()),
        error: "device lost".to_string(),
        debug: Some("detail".to_string()),
    };
    let r = on_bus_message(&mut history, &msg);
    assert!(r.block_callbacks && r.request_stop && r.exit_loop);
    assert_eq!(r.events.len(), 2);
    assert_eq!(r.events[0].level, LogLevel::Error);
    assert_eq!(r.events[0].message, "error from /pipeline/src: device lost");
    assert_eq!(r.events[1].message, "debug: detail");
    assert!(matches!(r.new_state, Some(CaptureState::Failed(ref t)) if t == "device lost"));
    assert_eq!(history.len(), 2);
}

#[test]
fn bus_warning_is_logged_only() {
    let mut history = LogHistory::new();
    let msg = BusMessage::Warning { source_path: None, error: "late".to_string(), debug: None };
    let r = on_bus_message(&mut history, &msg);
    assert!(!r.exit_loop && r.new_state.is_none());
    assert_eq!(r.events.len(), 1);
    assert_eq!(r.events[0].message, "warning from unknown: late");
    assert_eq!(r.events[0].level, LogLevel::Warning);
}

#[test]
fn bus_state_change_and_eos() {
    let mut history = LogHistory::new();
    let changed = BusMessage::StateChanged {
        from_pipeline: true,
        old_state: "Paused".to_string(),
        new_state: "Playing".to_string(),
    };
    let r = on_bus_message(&mut history, &changed);
    assert_eq!(r.events[0].message, "pipeline state: Paused -> Playing");
    let other = BusMessage::StateChanged {
        from_pipeline: false,
        old_state: "Null".to_string(),
        new_state: "Ready".to_string(),
    };
    assert!(on_bus_message(&mut history, &other).events.is_empty());
    let eos = on_bus_message(&mut history, &BusMessage::Eos);
    assert!(eos.exit_loop && !eos.request_stop);
    assert_eq!(eos.events[0].message, "eos");
    assert!(matches!(eos.new_state, Some(CaptureState::Failed(ref t)) if t == "eos"));
    assert!(on_bus_message(&mut history, &BusMessage::Other).events.is_empty());
}

#[test]
fn attempt_run_tries_each_attempt_then_gives_up_with_the_last_error() {
    let mut cfg = settings();
    cfg.mic_device_id = None;
    let mut run: AttemptRun<u32> = AttemptRun::new(&cfg);
    let mut h = LogHistory::new();
    let (a, events) = run.step(&mut h, AttemptOutcome::Begin);
    match a {
        AttemptAction::Try(attempt) => assert_eq!(attempt.label, "default caps"),
        _ => panic!("expected an attempt"),
    }
    assert_eq!(events.len(), 1);
    assert_eq!(events[0].message, "capture attempt: default caps");
    assert_eq!(events[0].source, "audio");
    let (a, events) = run.step(&mut h, AttemptOutcome::Failed(1, "no caps".to_string()));
    assert!(matches!(a, AttemptAction::Try(attempt) if attempt.policy == CapsPolicy::SafeFallback));
    assert_eq!(events.len(), 2);
    assert_eq!(events[0].level, LogLevel::Warning);
    assert_eq!(events[0].message, "capture attempt failed: no caps");
    assert_eq!(events[1].message, "capture attempt: fallback caps");
    let (a, _) = run.step(&mut h, AttemptOutcome::Failed(2, "still no caps".to_string()));
    match a {
        AttemptAction::Try(attempt) => {
            assert_eq!(attempt.label, "fallback caps (system disabled)");
            assert!(attempt.disable_system);
        }
        _ => panic!("expected an attempt"),
    }
    let (a, events) = run.step(&mut h, AttemptOutcome::Failed(3, "no device".to_string()));
    assert!(matches!(a, AttemptAction::GiveUp(Some(3))));
    assert_eq!(events.len(), 1);
    assert_eq!(h.len(), 6);
}

#[test]
fn attempt_run_stops_at_the_first_start() {
    let mut run: AttemptRun<u32> = AttemptRun::new(&settings());
    let mut h = LogHistory::new();
    let _ = run.step(&mut h, AttemptOutcome::Begin);
    let (a, events) = run.step(&mut h, AttemptOutcome::Started);
    assert!(matches!(a, AttemptAction::Done));
    assert!(events.is_empty());
}

fn device(endpoint: Option<&str>) -> AudioDeviceInfo {
    AudioDeviceInfo {
        index: 0,
        id: "dev-1".to_string(),
        label: "Speakers".to_string(),
        is_input: false,
        endpoint_id: endpoint.map(|e| e.to_string()),
    }
}

#[test]
fn source_plans() {
    let system = source_plan(AudioSourceId::System);
    assert!(system.with_rate && system.loopback);
    assert_eq!(system.max_queue_ns, 500_000_000);
    let mic = source_plan(AudioSourceId::Mic);
    assert!(!mic.with_rate && !mic.loopback);
    assert_eq!(mic.max_queue_ns, 100_000_000);
}

#[test]
fn source_log_lines() {
    let caps = mix_format_choice();
    assert_eq!(
        selected_device_line(AudioSourceId::System, &device(Some("{0.0.0}"))),
        "system device selected: Speakers (dev-1) endpoint={0.0.0}"
    );
    assert_eq!(selected_device_line(AudioSourceId::System, &device(None)), "system device selected: Speakers (dev-1)");
    assert_eq!(selected_device_line(AudioSourceId::Mic, &device(Some("x"))), "mic device selected: Speakers (dev-1)");
    assert_eq!(target_caps_line(AudioSourceId::Mic, &caps), "mic target mix caps: rate=48000, channels=2, layout=interleaved");
    assert_eq!(
        coerced_caps_line(AudioSourceId::System, &caps),
        "system audio coerced to mix caps: rate=48000, channels=2, layout=interleaved"
    );
    let odd = AudioCapsChoice { rate: -1, channels: 0, layout: "non-interleaved" };
    assert_eq!(target_caps_line(AudioSourceId::System, &odd), "system target mix caps: rate=-1, channels=0, layout=non-interleaved");
    assert_eq!(device_caps_line(AudioSourceId::Mic, "audio/x-raw"), "mic device caps: audio/x-raw");
    assert_eq!(create_failed_line(AudioSourceId::System, "boom"), "system create_element failed, falling back: boom");
}

#[test]
fn fallback_targets() {
    assert_eq!(fallback_device_target(AudioSourceId::System, &device(Some("ep"))), "ep");
    assert_eq!(fallback_device_target(AudioSourceId::System, &device(None)), "dev-1");
    assert_eq!(fallback_device_target(AudioSourceId::Mic, &device(Some("ep"))), "dev-1");
}

#[test]
fn stop_runs_once_and_ends_stopped() {
    let mut h = LogHistory::new();
    let mut state = CaptureState::Running;
    let (go, events) = begin_stop(&state, &mut h);
    assert!(go);
    assert_eq!(events[0].message, "stopping pipeline");
    let events = change_state(&mut state, &mut h, CaptureState::Stopped);
    assert_eq!(events[0].message, "state: Running -> Stopped");
    assert_eq!(events[0].source, "capture");
    assert!(matches!(state, CaptureState::Stopped));
    assert!(!is_running(&state));
    let (again, events) = begin_stop(&state, &mut h);
    assert!(!again);
    assert!(events.is_empty());
}

#[test]
fn state_change_texts() {
    let mut h = LogHistory::new();
    let mut state = CaptureState::Starting;
    let events = change_state(&mut state, &mut h, CaptureState::Failed("no \"caps\"".to_string()));
    assert_eq!(events[0].message, "state: Starting -> Failed(\"no \\\"caps\\\"\")");
    let (go, _) = begin_stop(&state, &mut h);
    assert!(go);
}
