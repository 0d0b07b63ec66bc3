use clip_service::audio::{audio_devices_for, AudioSourceId};
use clip_service::capture::CaptureError;
use clip_service::logger::{LogHistory, LogLevel};
use clip_service::settings::{CaptureSettings, ShortcutSettings};
use clip_service::devices::{
    build_audio_device_info, device_id_from_props, find_default_output_device, find_microphone_device,
    is_default_device, is_loopback_device, list_microphone_devices, DeviceInfo, DeviceProperties,
};

fn props(strings: &[(&str, &str)], bools: &[(&str, bool)]) -> DeviceProperties {
    DeviceProperties {
        strings: strings.iter().map(|(k, v)| (k.to_string(), v.to_string())).collect(),
        bools: bools.iter().map(|(k, v)| (k.to_string(), *v)).collect(),
    }
}

fn device(index: usize, class: &str, name: &str, p: Option<DeviceProperties>) -> DeviceInfo {
    DeviceInfo { index, device_class: class.to_string(), display_name: name.to_string(), properties: p }
}

#[test]
fn device_id_prefers_device_id_key() {
    let p = props(&[("device", "d"), ("device.strid", "s"), ("device.id", "i")], &[]);
    assert_eq!(device_id_from_props(&p), Some("i".to_string()));
    let q = props(&[("device", "d"), ("device-id", "x")], &[]);
    assert_eq!(device_id_from_props(&q), Some("x".to_string()));
    let r = props(&[("other", "o")], &[]);
    assert_eq!(device_id_from_props(&r), None);
}

#[test]
fn loopback_and_default_flags() {
    assert!(is_loopback_device(&props(&[], &[("wasapi2.device.loopback", true)])));
    assert!(!is_loopback_device(&props(&[], &[("loopback", false)])));
    assert!(is_default_device(&props(&[], &[("device.default", true)])));
    assert!(!is_default_device(&props(&[], &[])));
}

#[test]
fn building_entries() {
    let loop_dev = device(0, "Audio/Source", "Speakers", Some(props(&[("device.id", "L")], &[("loopback", true)])));
    assert!(build_audio_device_info(&loop_dev, true, false).is_none());
    let info = build_audio_device_info(&loop_dev, false, true).unwrap();
    assert_eq!(info.id, "L");
    assert_eq!(info.endpoint_id, Some("L".to_string()));
    assert_eq!(info.label, "Speakers");
    assert!(!info.is_input);
    let no_props = device(1, "Audio/Source", "X", None);
    assert!(build_audio_device_info(&no_props, true, true).is_none());
}

fn devices() -> Vec<DeviceInfo> {
    vec![
        device(0, "Audio/Source", "Mic A", Some(props(&[("device.id", "mic-a")], &[]))),
        device(1, "Audio/Source", "Loop", Some(props(&[("device.id", "loop-1")], &[("loopback", true)]))),
        device(2, "Audio/Sink", "Speakers", Some(props(&[("device.id", "spk-1")], &[]))),
        device(3, "Audio/Source;Audio/Sink", "Both", Some(props(&[("device.id", "both")], &[]))),
        device(4, "Audio/Source", "Mic B", Some(props(&[("device.strid", "mic-b")], &[]))),
        device(5, "Audio/Sink", "Headset", Some(props(&[("device.id", "spk-2")], &[("is-default", true)]))),
        device(6, "Audio/Source", "No id", Some(props(&[], &[]))),
    ]
}

#[test]
fn microphones_are_listed_in_order() {
    let mics = list_microphone_devices(&devices());
    let ids: Vec<&str> = mics.iter().map(|m| m.id.as_str()).collect();
    assert_eq!(ids, vec!["mic-a", "mic-b"]);
    assert!(mics.iter().all(|m| m.is_input));
}

#[test]
fn microphone_lookup() {
    let list = devices();
    let found = find_microphone_device(&list, "mic-b").unwrap();
    assert_eq!(found.index, 4);
    assert!(found.is_input);
    assert!(find_microphone_device(&list, "loop-1").is_none());
    assert!(find_microphone_device(&list, "missing").is_none());
}

#[test]
fn output_prefers_loopback() {
    let (found, fell_back) = find_default_output_device(&devices());
    assert_eq!(found.unwrap().id, "loop-1");
    assert!(!fell_back);
}

#[test]
fn output_prefers_default_loopback() {
    let mut list = devices();
    list.push(device(7, "Audio/Source", "Default loop", Some(props(&[("device.id", "loop-d")], &[("loopback", true), ("default", true)]))));
    let (found, fell_back) = find_default_output_device(&list);
    assert_eq!(found.unwrap().index, 7);
    assert!(!fell_back);
}

#[test]
fn output_falls_back_to_default_sink() {
    let list: Vec<DeviceInfo> = devices().into_iter().filter(|d| d.index != 1).collect();
    let (found, fell_back) = find_default_output_device(&list);
    assert_eq!(found.unwrap().id, "spk-2");
    assert!(fell_back);
}

#[test]
fn output_falls_back_to_first_sink_without_default() {
    let list: Vec<DeviceInfo> = devices().into_iter().filter(|d| d.index != 1 && d.index != 5).collect();
    let (found, fell_back) = find_default_output_device(&list);
    assert_eq!(found.unwrap().id, "spk-1");
    assert!(fell_back);
    let (none, fell_back) = find_default_output_device(&vec![]);
    assert!(none.is_none() && fell_back);
}

fn capture(system: bool, mic: Option<&str>) -> CaptureSettings {
    CaptureSettings {
        video_device_id: "screen:0".to_string(),
        system_audio_enabled: system,
        mic_device_id: mic.map(|m| m.to_string()),
        video_encoder_id: "x264enc".to_string(),
        framerate: 60,
        bitrate_kbps: 20_000,
        clips_dir: "clips".to_string(),
        shortcuts: ShortcutSettings { clip: "Ctrl+F10".to_string() },
    }
}

#[test]
fn audio_devices_in_build_order() {
    let mut h = LogHistory::new();
    let (plan, events) = audio_devices_for(&capture(true, Some("mic-b")), &devices(), &mut h);
    let plan = plan.unwrap();
    assert_eq!(plan.len(), 2);
    assert_eq!(plan[0].0, AudioSourceId::System);
    assert_eq!(plan[0].1.id, "loop-1");
    assert_eq!(plan[1].0, AudioSourceId::Mic);
    assert_eq!(plan[1].1.id, "mic-b");
    assert!(events.is_empty());
}

#[test]
fn audio_devices_missing_ones() {
    let mut h = LogHistory::new();
    let (plan, events) = audio_devices_for(&capture(false, Some("gone")), &devices(), &mut h);
    assert_eq!(plan.err(), Some(CaptureError::MicrophoneUnavailable));
    assert!(events.is_empty());

    let sinks_only = vec![device(0, "Audio/Sink", "Speakers", Some(props(&[("device.id", "spk")], &[])))];
    let (plan, events) = audio_devices_for(&capture(true, None), &sinks_only, &mut h);
    let plan = plan.unwrap();
    assert_eq!(plan[0].1.id, "spk");
    assert_eq!(events.len(), 1);
    assert_eq!(events[0].level, LogLevel::Warning);
    assert_eq!(events[0].message, "no WASAPI loopback device found; falling back to render sink");

    let (plan, events) = audio_devices_for(&capture(true, Some("mic-a")), &Vec::new(), &mut h);
    assert_eq!(plan.err(), Some(CaptureError::NoOutputDevice));
    assert_eq!(events.len(), 1);

    let (plan, _) = audio_devices_for(&capture(false, Some("")), &devices(), &mut h);
    assert!(plan.unwrap().is_empty());
}
