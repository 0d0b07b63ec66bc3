use clip_service::capture::CaptureError;
use clip_service::encoders::{
    find_video_encoder, select_video_encoders, sort_by_name, str_lt, CapsStructureInfo, EncoderFactoryInfo,
    PadDirection, PadTemplateInfo, VideoEncoderDescriptor,
};
use clip_service::settings::{CaptureSettings, ShortcutSettings};
use clip_service::video::{monitor_index_from_id, VideoEncoder, VideoSource};

fn desc(id: &str, name: &str, memory: Option<&str>) -> VideoEncoderDescriptor {
    VideoEncoderDescriptor {
        id: id.to_string(),
        name: name.to_string(),
        description: String::new(),
        is_hardware: false,
        required_memory: memory.map(|m| m.to_string()),
    }
}

fn settings(encoder: &str) -> CaptureSettings {
    CaptureSettings {
        video_device_id: "screen:1".to_string(),
        system_audio_enabled: false,
        mic_device_id: None,
        video_encoder_id: encoder.to_string(),
        framerate: 30,
        bitrate_kbps: 8000,
        clips_dir: "clips".to_string(),
        shortcuts: ShortcutSettings { clip: "Ctrl+F10".to_string() },
    }
}

fn structure(name: &str, features: &[&str]) -> CapsStructureInfo {
    CapsStructureInfo { name: name.to_string(), features: features.iter().map(|f| f.to_string()).collect() }
}

fn factory(name: &str, longname: &str, klass: &str, src: &str, sink_features: &[&str]) -> EncoderFactoryInfo {
    EncoderFactoryInfo {
        name: name.to_string(),
        longname: longname.to_string(),
        description: format!("{} encoder", name),
        klass: klass.to_string(),
        hardware_type: false,
        can_build: true,
        pad_templates: vec![
            PadTemplateInfo { direction: PadDirection::Sink, caps: vec![structure("video/x-raw", sink_features)] },
            PadTemplateInfo { direction: PadDirection::Src, caps: vec![structure(src, &[])] },
        ],
    }
}

#[test]
fn find_returns_first_match() {
    let list = vec![desc("a", "A", None), desc("b", "B1", None), desc("b", "B2", None)];
    assert_eq!(find_video_encoder(&list, "b").unwrap().name, "B1");
    assert!(find_video_encoder(&list, "c").is_none());
}

#[test]
fn string_order_is_lexicographic() {
    assert!(str_lt("abc", "abd"));
    assert!(str_lt("ab", "abc"));
    assert!(!str_lt("abc", "abc"));
    assert!(!str_lt("b", "abc"));
    assert!(str_lt("B", "a"));
}

#[test]
fn sort_is_stable_by_name() {
    let list = vec![desc("1", "x", None), desc("2", "a", None), desc("3", "x", None), desc("4", "m", None)];
    let sorted = sort_by_name(&list);
    let ids: Vec<&str> = sorted.iter().map(|d| d.id.as_str()).collect();
    assert_eq!(ids, vec!["2", "4", "1", "3"]);
}

#[test]
fn selection_filters_and_sorts() {
    let mut hw = factory("nvh264enc", "NVENC H.264", "Codec/Encoder/Video/Hardware", "video/x-h264", &[]);
    hw.hardware_type = false;
    let sw = factory("x264enc", "x264 H.264", "Codec/Encoder/Video", "video/x-h264", &[]);
    let d3d12 = factory("d3d12h264enc", "D3D12 H.264", "Codec/Encoder/Video", "video/x-h264", &["memory:D3D12Memory"]);
    let d3d11 = factory("mfh264enc", "MF H.264", "Codec/Encoder/Video", "video/x-h264", &["memory:D3D11Memory"]);
    let vp8 = factory("vp8enc", "VP8", "Codec/Encoder/Video", "video/x-vp8", &[]);
    let mut broken = factory("brokenenc", "Broken H.264", "Codec/Encoder/Video", "video/x-h264", &[]);
    broken.can_build = false;
    let nv11 = factory("nvd3d11h264enc", "NV D3D11 H.264", "Codec/Encoder/Video", "video/x-h264", &[]);
    let list = select_video_encoders(&vec![sw, d3d12, vp8, hw, broken, d3d11, nv11]);
    let names: Vec<&str> = list.iter().map(|d| d.name.as_str()).collect();
    assert_eq!(names, vec!["MF H.264", "NV D3D11 H.264", "NVENC H.264", "x264 H.264"]);
    assert_eq!(list[0].required_memory, Some("D3D11Memory".to_string()));
    assert_eq!(list[1].required_memory, Some("D3D11Memory".to_string()));
    assert!(list[2].is_hardware);
    assert!(!list[3].is_hardware);
    assert_eq!(list[3].id, "x264enc");
    assert_eq!(list[3].description, "x264enc encoder");
}

#[test]
fn encoder_stage_from_settings() {
    let s = settings("x264enc");
    let e = VideoEncoder::from_settings(&s);
    assert_eq!(e.id(), "x264enc");
    assert_eq!(e.bitrate(), 8000);
    assert_eq!(e.gop(), 30);
    assert_eq!(e.gop_size(), 30);
    let mut z = s.clone();
    z.framerate = 0;
    assert_eq!(VideoEncoder::from_settings(&z).gop(), 1);
}

#[test]
fn video_source_from_settings() {
    let encoders = vec![desc("x264enc", "x264", None), desc("mf", "MF", Some("D3D11Memory")), desc("d12", "D12", Some("D3D12Memory"))];
    match VideoSource::from_settings(&settings("mf"), &encoders) {
        Ok(VideoSource::Screen { monitor_id, framerate, requires_d3d11 }) => {
            assert_eq!(monitor_id, "screen:1");
            assert_eq!(framerate, 30);
            assert!(requires_d3d11);
        }
        Err(_) => panic!("expected a source"),
    }
    match VideoSource::from_settings(&settings("x264enc"), &encoders) {
        Ok(VideoSource::Screen { requires_d3d11, .. }) => assert!(!requires_d3d11),
        Err(_) => panic!("expected a source"),
    }
    assert!(matches!(VideoSource::from_settings(&settings("d12"), &encoders), Err(CaptureError::D3D12Unsupported)));
    assert!(matches!(VideoSource::from_settings(&settings("none"), &encoders), Err(CaptureError::EncoderUnavailable)));
}

#[test]
fn monitor_index_parsing() {
    assert_eq!(monitor_index_from_id("screen:1"), Some(1));
    assert_eq!(monitor_index_from_id("screen:0"), Some(0));
    assert_eq!(monitor_index_from_id("screen:+3"), Some(3));
    assert_eq!(monitor_index_from_id("screen:-2"), Some(-2));
    assert_eq!(monitor_index_from_id("screen:12:7"), Some(12));
    assert_eq!(monitor_index_from_id("screen:2147483647"), Some(2147483647));
    assert_eq!(monitor_index_from_id("screen:-2147483648"), Some(-2147483648));
    assert_eq!(monitor_index_from_id("screen:2147483648"), None);
    assert_eq!(monitor_index_from_id("screen:"), None);
    assert_eq!(monitor_index_from_id("screen"), None);
    assert_eq!(monitor_index_from_id("screen:x"), None);
    assert_eq!(monitor_index_from_id("screen:-"), None);
    assert_eq!(monitor_index_from_id("window:1"), None);
    assert_eq!(monitor_index_from_id(""), None);
}
