use vstd::prelude::*;
use crate::text::{opt_str_eq, opt_view, str_eq};

verus! {

/// Keyboard shortcuts.
pub struct ShortcutSettings {
    /// Accelerator that saves a clip, such as `Ctrl+F10`.
    pub clip: String,
}

impl Clone for ShortcutSettings {
    fn clone(&self) -> (res: Self)
        ensures
            res.clip@ == self.clip@,
    {
        ShortcutSettings { clip: self.clip.clone() }
    }
}

/// What the capture settings say.
pub struct CaptureSettingsModel {
    pub video_device_id: Seq<char>,
    pub system_audio_enabled: bool,
    pub mic_device_id: Option<Seq<char>>,
    pub video_encoder_id: Seq<char>,
    pub framerate: u32,
    pub bitrate_kbps: u32,
    pub clips_dir: Seq<char>,
    pub clip_shortcut: Seq<char>,
}

/// The user settings that capture decisions read. The audio volumes, which
/// are only handed to the audio elements, are kept beside these by the program.
pub struct CaptureSettings {
    pub video_device_id: String,
    pub system_audio_enabled: bool,
    pub mic_device_id: Option<String>,
    pub video_encoder_id: String,
    pub framerate: u32,
    pub bitrate_kbps: u32,
    pub clips_dir: String,
    pub shortcuts: ShortcutSettings,
}

impl View for CaptureSettings {
    type V = CaptureSettingsModel;

    open spec fn view(&self) -> CaptureSettingsModel {
        CaptureSettingsModel {
            video_device_id: self.video_device_id@,
            system_audio_enabled: self.system_audio_enabled,
            mic_device_id: opt_view(self.mic_device_id),
            video_encoder_id: self.video_encoder_id@,
            framerate: self.framerate,
            bitrate_kbps: self.bitrate_kbps,
            clips_dir: self.clips_dir@,
            clip_shortcut: self.shortcuts.clip@,
        }
    }
}

/// A copy of an optional string.
pub fn clone_opt_string(o: &Option<String>) -> (r: Option<String>)
    ensures
        opt_view(r) == opt_view(*o),
{
    match o {
        Some(s) => Some(s.clone()),
        None => None,
    }
}

impl Clone for CaptureSettings {
    fn clone(&self) -> (res: Self)
        ensures
            res@ == self@,
    {
        CaptureSettings {
            video_device_id: self.video_device_id.clone(),
            system_audio_enabled: self.system_audio_enabled,
            mic_device_id: clone_opt_string(&self.mic_device_id),
            video_encoder_id: self.video_encoder_id.clone(),
            framerate: self.framerate,
            bitrate_kbps: self.bitrate_kbps,
            clips_dir: self.clips_dir.clone(),
            shortcuts: self.shortcuts.clone(),
        }
    }
}

/// Whether a microphone is selected: an id is set and it is not empty.
pub open spec fn mic_selected(s: CaptureSettingsModel) -> bool {
    s.mic_device_id is Some && s.mic_device_id->0.len() > 0
}

/// Whether going from `a` to `b` changes anything the running pipeline was built from.
pub open spec fn restart_needed(a: CaptureSettingsModel, b: CaptureSettingsModel) -> bool {
    ||| a.video_device_id != b.video_device_id
    ||| a.system_audio_enabled != b.system_audio_enabled
    ||| a.mic_device_id != b.mic_device_id
    ||| a.video_encoder_id != b.video_encoder_id
    ||| a.framerate != b.framerate
    ||| a.bitrate_kbps != b.bitrate_kbps
}

/// Whether the capture pipeline must be rebuilt to go from `a` to `b`.
pub fn should_restart_capture(a: &CaptureSettings, b: &CaptureSettings) -> (r: bool)
    ensures
        r == restart_needed(a@, b@),
{
    !str_eq(a.video_device_id.as_str(), b.video_device_id.as_str())
        || a.system_audio_enabled != b.system_audio_enabled
        || !opt_str_eq(&a.mic_device_id, &b.mic_device_id)
        || !str_eq(a.video_encoder_id.as_str(), b.video_encoder_id.as_str())
        || a.framerate != b.framerate
        || a.bitrate_kbps != b.bitrate_kbps
}

/// Whether a microphone is selected.
pub fn has_mic(settings: &CaptureSettings) -> (r: bool)
    ensures
        r == mic_selected(settings@),
{
    match &settings.mic_device_id {
        Some(id) => id.as_str().unicode_len() > 0,
        None => false,
    }
}

/// Law: a settings change that restarts capture is one that touches the
/// pipeline; identical settings never restart it, and the test is symmetric.
pub proof fn law_restart_is_a_difference(a: CaptureSettings, b: CaptureSettings)
    ensures
        !restart_needed(a@, a@),
        restart_needed(a@, b@) == restart_needed(b@, a@),
        a@ == b@ ==> !restart_needed(a@, b@),
{
}

/// Law: capture restarts exactly when an update changes something the
/// pipeline is built from: the video device, whether system audio is
/// recorded, the microphone, the encoder, the framerate or the bitrate. A
/// change of any one of these alone restarts it; a change of anything else
/// (the clips folder, the clip shortcut) never does.
pub proof fn law_restart_follows_pipeline_fields(a: CaptureSettings, b: CaptureSettings)
    ensures
        a@.video_device_id != b@.video_device_id ==> restart_needed(a@, b@),
        a@.system_audio_enabled != b@.system_audio_enabled ==> restart_needed(a@, b@),
        a@.mic_device_id != b@.mic_device_id ==> restart_needed(a@, b@),
        a@.video_encoder_id != b@.video_encoder_id ==> restart_needed(a@, b@),
        a@.framerate != b@.framerate ==> restart_needed(a@, b@),
        a@.bitrate_kbps != b@.bitrate_kbps ==> restart_needed(a@, b@),
        a@.video_device_id == b@.video_device_id
            && a@.system_audio_enabled == b@.system_audio_enabled
            && a@.mic_device_id == b@.mic_device_id
            && a@.video_encoder_id == b@.video_encoder_id
            && a@.framerate == b@.framerate
            && a@.bitrate_kbps == b@.bitrate_kbps
            ==> !restart_needed(a@, b@),
{
}

} // verus!
