use vstd::prelude::*;
use crate::settings::{CaptureSettings, CaptureSettingsModel, mic_selected, has_mic};
use crate::caps::AudioCapsChoice;
use crate::devices::{
    AudioDeviceInfo, AudioDeviceInfoModel, DeviceInfo, default_output_spec, find_default_output_device,
    find_microphone_device, first_loopback, loopback_target_id, microphone_with_id,
};
use crate::capture::CaptureError;
use crate::logger::{LogEvent, LogHistory, LogLevel, describes, event_models, log_to, recorded, lemma_recorded_step};
use crate::text::{opt_view, push_signed, signed_decimal};

verus! {

/// An audio source of the capture.
#[derive(Clone, Copy, PartialEq, Eq, Structural, Debug)]
pub enum AudioSourceId {
    /// What the system plays, captured by loopback.
    System,
    /// The selected microphone.
    Mic,
}

/// The audio sources the settings ask for, in the order they are built:
/// system audio where enabled, then the microphone where one is selected.
pub open spec fn sources_for(c: CaptureSettingsModel) -> Seq<AudioSourceId> {
    (if c.system_audio_enabled { seq![AudioSourceId::System] } else { Seq::empty() })
        + (if mic_selected(c) { seq![AudioSourceId::Mic] } else { Seq::empty() })
}

/// The audio sources the settings ask for, in build order.
pub fn required_audio_sources(config: &CaptureSettings) -> (ids: Vec<AudioSourceId>)
    ensures
        ids@ == sources_for(config@),
{
    let mut ids: Vec<AudioSourceId> = Vec::new();
    if config.system_audio_enabled {
        ids.push(AudioSourceId::System);
    }
    if has_mic(config) {
        ids.push(AudioSourceId::Mic);
    }
    assert(ids@ =~= sources_for(config@));
    ids
}

/// The devices the sources capture from, in build order, where all are found.
pub open spec fn planned_devices(c: CaptureSettingsModel, ds: Seq<DeviceInfo>) -> Seq<(AudioSourceId, AudioDeviceInfoModel)> {
    (if c.system_audio_enabled { seq![(AudioSourceId::System, default_output_spec(ds)->0)] } else { Seq::empty() })
        + (if mic_selected(c) { seq![(AudioSourceId::Mic, microphone_with_id(ds, c.mic_device_id->0)->0)] } else { Seq::empty() })
}

/// The (source, device) pairs of a plan, by their models.
pub open spec fn plan_models(v: Seq<(AudioSourceId, AudioDeviceInfo)>) -> Seq<(AudioSourceId, AudioDeviceInfoModel)> {
    v.map_values(|p: (AudioSourceId, AudioDeviceInfo)| (p.0, p.1@))
}

/// The devices the audio sources capture from, in build order, all looked up
/// before any source is built: system audio takes the default output device,
/// a selected microphone the capture device with its id. Fails with
/// `NoOutputDevice` or `MicrophoneUnavailable`, in that order, where one is
/// missing. Where system audio is wanted and no loopback device exists, a
/// warning is logged from `audio`.
pub fn audio_devices_for(
    config: &CaptureSettings,
    devices: &Vec<DeviceInfo>,
    history: &mut LogHistory,
) -> (r: (Result<Vec<(AudioSourceId, AudioDeviceInfo)>, CaptureError>, Vec<LogEvent>))
    ensures
        final(history)@ == recorded(old(history)@, event_models(r.1@)),
        ({
            let warned = config@.system_audio_enabled && first_loopback(devices@) is None;
            &&& r.1@.len() == if warned { 1int } else { 0int }
            &&& warned ==> describes(r.1@[0]@, LogLevel::Warning, "audio"@,
                "no WASAPI loopback device found; falling back to render sink"@)
        }),
        config@.system_audio_enabled && default_output_spec(devices@) is None
            ==> r.0 == Err::<Vec<(AudioSourceId, AudioDeviceInfo)>, CaptureError>(CaptureError::NoOutputDevice),
        !(config@.system_audio_enabled && default_output_spec(devices@) is None) && mic_selected(config@)
            && microphone_with_id(devices@, config@.mic_device_id->0) is None
            ==> r.0 == Err::<Vec<(AudioSourceId, AudioDeviceInfo)>, CaptureError>(CaptureError::MicrophoneUnavailable),
        !(config@.system_audio_enabled && default_output_spec(devices@) is None)
            && !(mic_selected(config@) && microphone_with_id(devices@, config@.mic_device_id->0) is None)
            ==> (r.0 matches Ok(v) && plan_models(v@) == planned_devices(config@, devices@)),
{
    let mut events: Vec<LogEvent> = Vec::new();
    assert(event_models(events@) =~= Seq::empty());
    let mut plan: Vec<(AudioSourceId, AudioDeviceInfo)> = Vec::new();
    if config.system_audio_enabled {
        let (found, fell_back) = find_default_output_device(devices);
        if fell_back {
            let ghost h0 = history@;
            log_to(history, &mut events, LogLevel::Warning, "audio", "no WASAPI loopback device found; falling back to render sink");
            proof {
                lemma_recorded_step(h0, Seq::empty(), events@);
            }
        }
        match found {
            None => {
                return (Err(CaptureError::NoOutputDevice), events);
            },
            Some(info) => {
                plan.push((AudioSourceId::System, info));
            },
        }
    }
    if has_mic(config) {
        match &config.mic_device_id {
            Some(id) => {
                match find_microphone_device(devices, id.as_str()) {
                    None => {
                        return (Err(CaptureError::MicrophoneUnavailable), events);
                    },
                    Some(info) => {
                        plan.push((AudioSourceId::Mic, info));
                    },
                }
            },
            None => {},
        }
    }
    assert(plan_models(plan@) =~= planned_devices(config@, devices@));
    (Ok(plan), events)
}

/// How the element chain of an audio source is built.
#[derive(Clone, Copy, Debug)]
pub struct SourcePlan {
    /// Whether an `audiorate` element evens out the stream's timing.
    pub with_rate: bool,
    /// The most time the source's queue holds, in nanoseconds.
    pub max_queue_ns: u64,
    /// Whether the capture element records what the system plays.
    pub loopback: bool,
}

/// The chain of each source: system audio is captured by loopback, with an
/// `audiorate` element and a queue of half a second; the microphone has no
/// `audiorate` and a queue of a tenth of a second.
pub fn source_plan(id: AudioSourceId) -> (p: SourcePlan)
    ensures
        id == AudioSourceId::System ==> p.with_rate && p.max_queue_ns == 500_000_000 && p.loopback,
        id == AudioSourceId::Mic ==> !p.with_rate && p.max_queue_ns == 100_000_000 && !p.loopback,
{
    match id {
        AudioSourceId::System => SourcePlan { with_rate: true, max_queue_ns: 500_000_000, loopback: true },
        AudioSourceId::Mic => SourcePlan { with_rate: false, max_queue_ns: 100_000_000, loopback: false },
    }
}

/// The name a source goes by in the log.
pub open spec fn source_name(id: AudioSourceId) -> Seq<char> {
    match id {
        AudioSourceId::System => "system"@,
        AudioSourceId::Mic => "mic"@,
    }
}

fn push_source_name(out: &mut String, id: AudioSourceId)
    ensures
        final(out)@ == old(out)@ + source_name(id),
{
    match id {
        AudioSourceId::System => out.append("system"),
        AudioSourceId::Mic => out.append("mic"),
    }
}

/// A mix format as the log shows it: `rate=<r>, channels=<c>, layout=<l>`.
pub open spec fn caps_text(c: AudioCapsChoice) -> Seq<char> {
    "rate="@ + signed_decimal(c.rate as int) + ", channels="@ + signed_decimal(c.channels as int)
        + ", layout="@ + c.layout@
}

fn push_caps(out: &mut String, caps: &AudioCapsChoice)
    ensures
        final(out)@ == old(out)@ + caps_text(*caps),
{
    out.append("rate=");
    push_signed(out, caps.rate);
    out.append(", channels=");
    push_signed(out, caps.channels);
    out.append(", layout=");
    out.append(caps.layout);
    assert(final(out)@ =~= old(out)@ + caps_text(*caps));
}

/// The log line naming the device a source captures from; for system audio,
/// the endpoint follows where it is known.
pub open spec fn selected_device_text(id: AudioSourceId, info: AudioDeviceInfo) -> Seq<char> {
    source_name(id) + " device selected: "@ + info.label@ + " ("@ + info.id@ + ")"@
        + match (id, opt_view(info.endpoint_id)) {
            (AudioSourceId::System, Some(e)) => " endpoint="@ + e,
            _ => Seq::empty(),
        }
}

/// The log line naming the device a source captures from.
pub fn selected_device_line(id: AudioSourceId, info: &AudioDeviceInfo) -> (s: String)
    ensures
        s@ == selected_device_text(id, *info),
{
    let mut s = String::new();
    push_source_name(&mut s, id);
    s.append(" device selected: ");
    s.append(info.label.as_str());
    s.append(" (");
    s.append(info.id.as_str());
    s.append(")");
    match (id, &info.endpoint_id) {
        (AudioSourceId::System, Some(e)) => {
            s.append(" endpoint=");
            s.append(e.as_str());
        },
        _ => {},
    }
    assert(s@ =~= selected_device_text(id, *info));
    s
}

/// The log line giving the formats the device offers: `<name> device caps: <caps>`.
pub fn device_caps_line(id: AudioSourceId, caps: &str) -> (s: String)
    ensures
        s@ == source_name(id) + " device caps: "@ + caps@,
{
    let mut s = String::new();
    push_source_name(&mut s, id);
    s.append(" device caps: ");
    s.append(caps);
    assert(s@ =~= source_name(id) + " device caps: "@ + caps@);
    s
}

/// The log line giving the format a source is asked for: `<name> target mix caps: <caps>`.
pub fn target_caps_line(id: AudioSourceId, caps: &AudioCapsChoice) -> (s: String)
    ensures
        s@ == source_name(id) + " target mix caps: "@ + caps_text(*caps),
{
    let mut s = String::new();
    push_source_name(&mut s, id);
    s.append(" target mix caps: ");
    push_caps(&mut s, caps);
    assert(s@ =~= source_name(id) + " target mix caps: "@ + caps_text(*caps));
    s
}

/// The log line once a source is coerced to the mix format: `<name> audio coerced to mix caps: <caps>`.
pub fn coerced_caps_line(id: AudioSourceId, caps: &AudioCapsChoice) -> (s: String)
    ensures
        s@ == source_name(id) + " audio coerced to mix caps: "@ + caps_text(*caps),
{
    let mut s = String::new();
    push_source_name(&mut s, id);
    s.append(" audio coerced to mix caps: ");
    push_caps(&mut s, caps);
    assert(s@ =~= source_name(id) + " audio coerced to mix caps: "@ + caps_text(*caps));
    s
}

/// The log line when the device's own element cannot be made:
/// `<name> create_element failed, falling back: <error>`.
pub fn create_failed_line(id: AudioSourceId, error: &str) -> (s: String)
    ensures
        s@ == source_name(id) + " create_element failed, falling back: "@ + error@,
{
    let mut s = String::new();
    push_source_name(&mut s, id);
    s.append(" create_element failed, falling back: ");
    s.append(error);
    assert(s@ =~= source_name(id) + " create_element failed, falling back: "@ + error@);
    s
}

/// The device a fallback capture element is pointed at: for system audio the
/// endpoint where known, otherwise the device id.
pub fn fallback_device_target(id: AudioSourceId, info: &AudioDeviceInfo) -> (s: &str)
    ensures
        s@ == match (id, opt_view(info.endpoint_id)) {
            (AudioSourceId::System, Some(e)) => e,
            _ => info.id@,
        },
{
    match id {
        AudioSourceId::System => loopback_target_id(info),
        AudioSourceId::Mic => info.id.as_str(),
    }
}

/// Mixes several audio sources into one stream.
#[derive(Clone, Copy, Debug)]
pub struct AudioMixer;

impl AudioMixer {
    /// A mixer where the settings ask for more than one audio source; none otherwise.
    pub fn from_settings(config: &CaptureSettings) -> (m: Option<AudioMixer>)
        ensures
            m is Some <==> (config@.system_audio_enabled && mic_selected(config@)),
    {
        let mut sources: u32 = 0;
        if config.system_audio_enabled {
            sources = sources + 1;
        }
        if has_mic(config) {
            sources = sources + 1;
        }
        if sources <= 1 {
            return None;
        }
        Some(AudioMixer)
    }
}

/// Law: a mixer is made exactly when more than one audio source is built,
/// so a graph with a single source feeds the encoder directly.
pub proof fn law_mixer_iff_several_sources(config: CaptureSettings)
    ensures
        (config@.system_audio_enabled && mic_selected(config@)) <==> sources_for(config@).len() > 1,
{
}

} // verus!
