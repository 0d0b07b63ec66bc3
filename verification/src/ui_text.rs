use vstd::prelude::*;
use crate::encoders::VideoEncoderDescriptor;
use crate::devices::AudioDevice;
use crate::logger::{LogEvent, LogLevel, event_models};
use crate::ui_state::UiCaptureStatus;
use crate::text::{decimal, zero_pad, push_decimal, to_padded_decimal, str_eq, opt_view, is_digit, digits_value, all_digits};

verus! {

/// The value that stands for "no microphone" in the microphone list.
pub open spec fn no_mic_value() -> Seq<char> {
    "__none__"@
}

/// `HH:MM:SS` for a number of seconds; the hours take as many digits as they need.
pub open spec fn duration_text(seconds: u64) -> Seq<char> {
    zero_pad(decimal((seconds / 3600) as nat), 2) + ":"@
        + zero_pad(decimal(((seconds / 60) % 60) as nat), 2) + ":"@
        + zero_pad(decimal((seconds % 60) as nat), 2)
}

/// Formats an elapsed time as `HH:MM:SS`.
pub fn format_duration(seconds: u64) -> (s: String)
    ensures
        s@ == duration_text(seconds),
{
    let mut s = to_padded_decimal(seconds / 3600, 2);
    s.append(":");
    let m = to_padded_decimal((seconds / 60) % 60, 2);
    s.append(m.as_str());
    s.append(":");
    let sec = to_padded_decimal(seconds % 60, 2);
    s.append(sec.as_str());
    s
}

/// The position of the first entry equal to `value`.
pub fn selected_index(value: &str, values: &Vec<String>) -> (r: Option<usize>)
    ensures
        match r {
            Some(i) => i < values@.len() && values@[i as int]@ == value@
                && forall|j: int| 0 <= j < i ==> #[trigger] values@[j]@ != value@,
            None => forall|j: int| 0 <= j < values@.len() ==> #[trigger] values@[j]@ != value@,
        },
{
    let n = values.len();
    for i in 0..n
        invariant
            n == values@.len(),
            forall|j: int| 0 <= j < i ==> #[trigger] values@[j]@ != value@,
    {
        if str_eq(values[i].as_str(), value) {
            return Some(i);
        }
    }
    None
}

/// The microphone setting chosen by a list value: none for the "no microphone" entry.
pub fn mic_choice(value: &str) -> (r: Option<String>)
    ensures
        opt_view(r) == if value@ == no_mic_value() { None } else { Some(value@) },
{
    if str_eq(value, "__none__") {
        None
    } else {
        Some(String::from_str(value))
    }
}

/// The list value for a microphone setting.
pub fn mic_value(choice: &Option<String>) -> (s: String)
    ensures
        s@ == match opt_view(*choice) { Some(id) => id, None => no_mic_value() },
{
    match choice {
        Some(id) => id.clone(),
        None => String::from_str("__none__"),
    }
}

/// A monitor's video device id: `screen:<index>`.
pub fn screen_device_id(index: u32) -> (s: String)
    ensures
        s@ == "screen:"@ + decimal(index as nat),
{
    let mut s = String::from_str("screen:");
    push_decimal(&mut s, index as u64);
    s
}

/// What kind of source a video device is.
#[derive(Clone, Copy, PartialEq, Eq, Structural, Debug)]
pub enum VideoDeviceKind {
    Screen,
}

/// A video capture device as the interface lists it.
pub struct VideoDevice {
    pub id: String,
    pub label: String,
    pub kind: VideoDeviceKind,
    /// The monitor a screen device captures, where known.
    pub monitor_index: Option<u32>,
    pub width: Option<u32>,
    pub height: Option<u32>,
}

impl Clone for VideoDevice {
    fn clone(&self) -> (res: Self)
        ensures
            res.id@ == self.id@,
            res.label@ == self.label@,
            res.kind == self.kind,
            res.monitor_index == self.monitor_index,
            res.width == self.width,
            res.height == self.height,
    {
        VideoDevice {
            id: self.id.clone(),
            label: self.label.clone(),
            kind: self.kind,
            monitor_index: self.monitor_index,
            width: self.width,
            height: self.height,
        }
    }
}

/// The UTF-16 units of a name up to its first NUL.
pub open spec fn until_nul(units: Seq<u16>) -> Seq<u16>
    decreases units.len(),
{
    if units.len() == 0 || units[0] == 0 {
        Seq::empty()
    } else {
        seq![units[0]] + until_nul(units.drop_first())
    }
}

fn prefix_until_nul(units: &Vec<u16>) -> (r: Vec<u16>)
    ensures
        r@ == until_nul(units@),
{
    let mut r: Vec<u16> = Vec::new();
    let n = units.len();
    let mut i: usize = 0;
    assert(units@.skip(0) =~= units@);
    while i < n
        invariant
            n == units@.len(),
            i <= n,
            until_nul(units@) == r@ + until_nul(units@.skip(i as int)),
        decreases n - i,
    {
        let u = units[i];
        assert(units@.skip(i as int)[0] == u);
        if u == 0 {
            assert(until_nul(units@.skip(i as int)) =~= Seq::<u16>::empty());
            assert(r@ + Seq::<u16>::empty() =~= r@);
            return r;
        }
        assert(units@.skip(i as int).drop_first() =~= units@.skip(i + 1));
        let ghost before = r@;
        r.push(u);
        assert(before + (seq![u] + until_nul(units@.skip(i + 1))) =~= r@ + until_nul(units@.skip(i + 1)));
        i = i + 1;
    }
    assert(units@.skip(n as int) =~= Seq::<u16>::empty());
    assert(r@ + Seq::<u16>::empty() =~= r@);
    r
}

/// What `String::from_utf16_lossy` makes of UTF-16 units (invalid units
/// become U+FFFD).
pub uninterp spec fn utf16_lossy_of(units: Seq<u16>) -> Seq<char>;

/// Decodes UTF-16 with `String::from_utf16_lossy`. The text depends only on the units.
#[verifier::external_body]
fn utf16_lossy(units: &Vec<u16>) -> (r: String)
    ensures
        r@ == utf16_lossy_of(units@),
{
    String::from_utf16_lossy(units.as_slice())
}

/// The names of the monitors whose information could be read, in order.
pub open spec fn readable_names(ns: Seq<Option<Vec<u16>>>) -> Seq<Seq<u16>>
    decreases ns.len(),
{
    if ns.len() == 0 {
        Seq::empty()
    } else {
        readable_names(ns.drop_last()) + match ns.last() {
            Some(v) => seq![v@],
            None => Seq::empty(),
        }
    }
}

/// The screens found by monitor enumeration, given for each monitor in
/// enumeration order its device name as UTF-16 units, or none where its
/// information could not be read (such a monitor is skipped). The i-th screen
/// listed is a `Screen` device `screen:<i>` for monitor index i (the index
/// taken as a `u32`, as the enumeration counts), labelled with its name up to
/// the first NUL; its size is not read.
pub fn monitor_devices(names: &Vec<Option<Vec<u16>>>) -> (r: Vec<VideoDevice>)
    ensures
        r@.len() == readable_names(names@).len(),
        forall|i: int| 0 <= i < r@.len() ==> {
            &&& (#[trigger] r@[i]).id@ == "screen:"@ + decimal((i as u32) as nat)
            &&& r@[i].label@ == utf16_lossy_of(until_nul(readable_names(names@)[i]))
            &&& r@[i].kind == VideoDeviceKind::Screen
            &&& r@[i].monitor_index == Some(i as u32)
            &&& r@[i].width is None && r@[i].height is None
        },
{
    let mut r: Vec<VideoDevice> = Vec::new();
    let n = names.len();
    for k in 0..n
        invariant
            n == names@.len(),
            r@.len() == readable_names(names@.take(k as int)).len(),
            forall|i: int| 0 <= i < r@.len() ==> {
                &&& (#[trigger] r@[i]).id@ == "screen:"@ + decimal((i as u32) as nat)
                &&& r@[i].label@ == utf16_lossy_of(until_nul(readable_names(names@.take(k as int))[i]))
                &&& r@[i].kind == VideoDeviceKind::Screen
                &&& r@[i].monitor_index == Some(i as u32)
                &&& r@[i].width is None && r@[i].height is None
            },
    {
        let ghost before = readable_names(names@.take(k as int));
        assert(names@.take(k + 1).drop_last() =~= names@.take(k as int));
        assert(names@.take(k + 1).last() == names@[k as int]);
        match &names[k] {
            Some(name) => {
                let units = prefix_until_nul(name);
                let label = utf16_lossy(&units);
                let index = #[verifier::truncate] (r.len() as u32);
                let id = screen_device_id(index);
                r.push(VideoDevice {
                    id,
                    label,
                    kind: VideoDeviceKind::Screen,
                    monitor_index: Some(index),
                    width: None,
                    height: None,
                });
                assert(readable_names(names@.take(k + 1)) == before.push(name@));
            },
            None => {
                assert(readable_names(names@.take(k + 1)) =~= before);
            },
        }
    }
    assert(names@.take(n as int) =~= names@);
    r
}

/// The label of a video device: `<label> (<width>×<height>)` where both are known.
pub open spec fn device_label_spec(d: VideoDevice) -> Seq<char> {
    match (d.width, d.height) {
        (Some(w), Some(h)) => d.label@ + " ("@ + decimal(w as nat) + seq!['×'] + decimal(h as nat) + ")"@,
        _ => d.label@,
    }
}

/// The label of a video device.
pub fn device_label(device: &VideoDevice) -> (s: String)
    ensures
        s@ == device_label_spec(*device),
{
    match (device.width, device.height) {
        (Some(w), Some(h)) => {
            let mut s = device.label.clone();
            s.append(" (");
            push_decimal(&mut s, w as u64);
            s.append("×");
            push_decimal(&mut s, h as u64);
            s.append(")");
            proof {
                reveal_strlit("×");
            }
            assert(s@ =~= device_label_spec(*device));
            s
        },
        _ => device.label.clone(),
    }
}

/// The label of the selected video device: that of the first device with its
/// id, or the id itself where no device has it.
pub fn video_device_label(devices: &Vec<VideoDevice>, id: &str) -> (s: String)
    ensures
        (forall|j: int| 0 <= j < devices@.len() ==> #[trigger] devices@[j].id@ != id@) ==> s@ == id@,
        forall|i: int| 0 <= i < devices@.len() && #[trigger] devices@[i].id@ == id@
            && (forall|j: int| 0 <= j < i ==> #[trigger] devices@[j].id@ != id@)
            ==> s@ == device_label_spec(devices@[i]),
{
    let n = devices.len();
    for i in 0..n
        invariant
            n == devices@.len(),
            forall|j: int| 0 <= j < i ==> #[trigger] devices@[j].id@ != id@,
    {
        if str_eq(devices[i].id.as_str(), id) {
            return device_label(&devices[i]);
        }
    }
    String::from_str(id)
}

/// The label of the selected encoder: the name of the first encoder with its
/// id, or the id itself where no encoder has it.
pub fn encoder_label(encoders: &Vec<VideoEncoderDescriptor>, id: &str) -> (s: String)
    ensures
        (forall|j: int| 0 <= j < encoders@.len() ==> #[trigger] encoders@[j].id@ != id@) ==> s@ == id@,
        forall|i: int| 0 <= i < encoders@.len() && #[trigger] encoders@[i].id@ == id@
            && (forall|j: int| 0 <= j < i ==> #[trigger] encoders@[j].id@ != id@)
            ==> s@ == encoders@[i].name@,
{
    let n = encoders.len();
    for i in 0..n
        invariant
            n == encoders@.len(),
            forall|j: int| 0 <= j < i ==> #[trigger] encoders@[j].id@ != id@,
    {
        if str_eq(encoders[i].id.as_str(), id) {
            return encoders[i].name.clone();
        }
    }
    String::from_str(id)
}

/// An entry of a selection list: the value it stands for and the text shown.
pub struct OptionItem {
    pub id: String,
    pub label: String,
}

/// The (value, text) of each entry, in order.
pub open spec fn option_models(items: Seq<OptionItem>) -> Seq<(Seq<char>, Seq<char>)> {
    items.map_values(|o: OptionItem| (o.id@, o.label@))
}

/// The video source list: each device, under its label.
pub open spec fn video_option_models(devices: Seq<VideoDevice>) -> Seq<(Seq<char>, Seq<char>)> {
    devices.map_values(|d: VideoDevice| (d.id@, device_label_spec(d)))
}

/// The entries of the video source list.
pub fn video_options(devices: &Vec<VideoDevice>) -> (r: Vec<OptionItem>)
    ensures
        option_models(r@) == video_option_models(devices@),
{
    let mut items: Vec<OptionItem> = Vec::new();
    let n = devices.len();
    for i in 0..n
        invariant
            n == devices@.len(),
            option_models(items@) == video_option_models(devices@.take(i as int)),
    {
        let ghost before = items@;
        let label = device_label(&devices[i]);
        items.push(OptionItem { id: devices[i].id.clone(), label });
        assert(option_models(items@) =~= option_models(before).push((devices@[i as int].id@, device_label_spec(devices@[i as int]))));
        assert(video_option_models(devices@.take(i + 1)) =~= video_option_models(devices@.take(i as int)).push(
            (devices@[i as int].id@, device_label_spec(devices@[i as int]))));
    }
    assert(devices@.take(n as int) =~= devices@);
    items
}

/// The input devices among `ms`, in order, as (id, label).
pub open spec fn input_mics(ms: Seq<AudioDevice>) -> Seq<(Seq<char>, Seq<char>)>
    decreases ms.len(),
{
    if ms.len() == 0 {
        Seq::empty()
    } else {
        input_mics(ms.drop_last()) + if ms.last().is_input {
            seq![(ms.last().id@, ms.last().label@)]
        } else {
            Seq::empty()
        }
    }
}

/// The microphone list: a "None" entry, then the input devices in order.
pub open spec fn mic_option_models(ms: Seq<AudioDevice>) -> Seq<(Seq<char>, Seq<char>)> {
    seq![(no_mic_value(), "None"@)] + input_mics(ms)
}

/// The entries of the microphone list.
pub fn mic_options(microphones: &Vec<AudioDevice>) -> (r: Vec<OptionItem>)
    ensures
        option_models(r@) == mic_option_models(microphones@),
{
    let mut items: Vec<OptionItem> = Vec::new();
    items.push(OptionItem { id: String::from_str("__none__"), label: String::from_str("None") });
    let n = microphones.len();
    assert(option_models(items@) =~= seq![(no_mic_value(), "None"@)]);
    assert(microphones@.take(0) =~= Seq::<AudioDevice>::empty());
    for i in 0..n
        invariant
            n == microphones@.len(),
            option_models(items@) == seq![(no_mic_value(), "None"@)] + input_mics(microphones@.take(i as int)),
    {
        let ghost before = items@;
        let d = &microphones[i];
        assert(microphones@.take(i + 1).drop_last() =~= microphones@.take(i as int));
        assert(microphones@.take(i + 1).last() == microphones@[i as int]);
        if d.is_input {
            items.push(OptionItem { id: d.id.clone(), label: d.label.clone() });
            assert(option_models(items@) =~= option_models(before).push((d.id@, d.label@)));
            assert(option_models(items@) =~= seq![(no_mic_value(), "None"@)] + input_mics(microphones@.take(i + 1)));
        } else {
            assert(input_mics(microphones@.take(i + 1)) =~= input_mics(microphones@.take(i as int)));
        }
    }
    assert(microphones@.take(n as int) =~= microphones@);
    items
}

/// The video encoder list: each encoder, under its name.
pub open spec fn encoder_option_models(encoders: Seq<VideoEncoderDescriptor>) -> Seq<(Seq<char>, Seq<char>)> {
    encoders.map_values(|e: VideoEncoderDescriptor| (e.id@, e.name@))
}

/// The entries of the video encoder list.
pub fn encoder_options(encoders: &Vec<VideoEncoderDescriptor>) -> (r: Vec<OptionItem>)
    ensures
        option_models(r@) == encoder_option_models(encoders@),
{
    let mut items: Vec<OptionItem> = Vec::new();
    let n = encoders.len();
    for i in 0..n
        invariant
            n == encoders@.len(),
            option_models(items@) == encoder_option_models(encoders@.take(i as int)),
    {
        let ghost before = items@;
        items.push(OptionItem { id: encoders[i].id.clone(), label: encoders[i].name.clone() });
        assert(option_models(items@) =~= option_models(before).push((encoders@[i as int].id@, encoders@[i as int].name@)));
        assert(encoder_option_models(encoders@.take(i + 1)) =~= encoder_option_models(encoders@.take(i as int)).push(
            (encoders@[i as int].id@, encoders@[i as int].name@)));
    }
    assert(encoders@.take(n as int) =~= encoders@);
    items
}

/// The values of a list's entries, in order.
pub fn option_ids(items: &Vec<OptionItem>) -> (r: Vec<String>)
    ensures
        r@.len() == items@.len(),
        forall|i: int| 0 <= i < items@.len() ==> #[trigger] r@[i]@ == items@[i].id@,
{
    let mut ids: Vec<String> = Vec::new();
    let n = items.len();
    for i in 0..n
        invariant
            n == items@.len(),
            ids@.len() == i,
            forall|j: int| 0 <= j < i ==> #[trigger] ids@[j]@ == items@[j].id@,
    {
        ids.push(items[i].id.clone());
    }
    ids
}

/// The row of the microphone list that shows a microphone setting: the first
/// entry with its value, or the first row where no entry has it.
pub fn mic_row(choice: &Option<String>, items: &Vec<OptionItem>) -> (r: usize)
    ensures
        ({
            let value = match opt_view(*choice) { Some(id) => id, None => no_mic_value() };
            &&& (exists|j: int| 0 <= j < items@.len() && #[trigger] items@[j].id@ == value) ==> {
                &&& r < items@.len()
                &&& items@[r as int].id@ == value
                &&& forall|j: int| 0 <= j < r ==> #[trigger] items@[j].id@ != value
            }
            &&& (forall|j: int| 0 <= j < items@.len() ==> #[trigger] items@[j].id@ != value) ==> r == 0
        }),
{
    let value = mic_value(choice);
    let ids = option_ids(items);
    match selected_index(value.as_str(), &ids) {
        Some(i) => {
            assert(items@[i as int].id@ == ids@[i as int]@);
            assert forall|j: int| 0 <= j < i implies #[trigger] items@[j].id@ != value@ by {
                assert(ids@[j]@ == items@[j].id@);
            }
            i
        },
        None => {
            assert forall|j: int| 0 <= j < items@.len() implies #[trigger] items@[j].id@ != value@ by {
                assert(ids@[j]@ == items@[j].id@);
            }
            0
        },
    }
}

/// The text of a capture status on the home page.
pub open spec fn status_text_spec(status: UiCaptureStatus) -> Seq<char> {
    match status {
        UiCaptureStatus::Offline => "Offline mode"@,
        UiCaptureStatus::Running => "Capturing"@,
        UiCaptureStatus::Starting => "Starting"@,
        UiCaptureStatus::Stopped => "Stopped"@,
        UiCaptureStatus::Error => "Capture error"@,
    }
}

/// The text of a capture status on the home page.
pub fn status_text(status: UiCaptureStatus) -> (s: &'static str)
    ensures
        s@ == status_text_spec(status),
{
    match status {
        UiCaptureStatus::Offline => "Offline mode",
        UiCaptureStatus::Running => "Capturing",
        UiCaptureStatus::Starting => "Starting",
        UiCaptureStatus::Stopped => "Stopped",
        UiCaptureStatus::Error => "Capture error",
    }
}

/// The tag of a log level in the log view.
pub open spec fn level_label_spec(level: LogLevel) -> Seq<char> {
    match level {
        LogLevel::Debug => "DEBUG"@,
        LogLevel::Info => "INFO"@,
        LogLevel::Warning => "WARN"@,
        LogLevel::Error => "ERROR"@,
    }
}

/// The tag of a log level in the log view.
pub fn level_label(level: LogLevel) -> (s: &'static str)
    ensures
        s@ == level_label_spec(level),
{
    match level {
        LogLevel::Debug => "DEBUG",
        LogLevel::Info => "INFO",
        LogLevel::Warning => "WARN",
        LogLevel::Error => "ERROR",
    }
}

/// The line under the settings title: where changes go, shortened on a narrow window.
pub open spec fn settings_helper_spec(backend_available: bool, narrow: bool) -> Seq<char> {
    if backend_available {
        if narrow { "Active capture"@ } else { "Changes are applied to the active capture"@ }
    } else if narrow {
        "Saved locally"@
    } else {
        "Backend offline; changes are saved locally"@
    }
}

/// The line under the settings title.
pub fn settings_helper(backend_available: bool, narrow: bool) -> (s: &'static str)
    ensures
        s@ == settings_helper_spec(backend_available, narrow),
{
    if backend_available {
        if narrow { "Active capture" } else { "Changes are applied to the active capture" }
    } else if narrow {
        "Saved locally"
    } else {
        "Backend offline; changes are saved locally"
    }
}

/// The label of the button that applies the settings.
pub fn apply_label(pending: bool) -> (s: &'static str)
    ensures
        s@ == if pending { "Applying…"@ } else { "Apply settings"@ },
{
    if pending { "Applying…" } else { "Apply settings" }
}

/// Whether a clip can be requested: the backend is there, capture is
/// buffering, and no clip is being saved.
pub fn can_clip(backend_available: bool, buffering: bool, is_clipping: bool) -> (r: bool)
    ensures
        r == (backend_available && buffering && !is_clipping),
{
    backend_available && buffering && !is_clipping
}

/// A number of seconds as shown beside the buffer: `<n>s`.
pub fn seconds_text(seconds: u32) -> (s: String)
    ensures
        s@ == decimal(seconds as nat) + "s"@,
{
    let mut s = String::new();
    push_decimal(&mut s, seconds as u64);
    s.append("s");
    assert(s@ =~= decimal(seconds as nat) + "s"@);
    s
}

/// The caption under the clip button: `last <n>s`.
pub fn buffer_caption(seconds: u32) -> (s: String)
    ensures
        s@ == "last "@ + decimal(seconds as nat) + "s"@,
{
    let mut s = String::from_str("last ");
    let t = seconds_text(seconds);
    s.append(t.as_str());
    assert(s@ =~= "last "@ + decimal(seconds as nat) + "s"@);
    s
}

/// Whether the value of the offline environment switch turns offline mode on.
pub open spec fn offline_value(v: Seq<char>) -> bool {
    v == "1"@ || v == "true"@ || v == "yes"@ || v == "on"@
}

/// Whether the program runs offline: an `--offline` argument, or the
/// environment switch set to `1`, `true`, `yes` or `on`.
pub fn offline_flag(args: &Vec<String>, env: &Option<String>) -> (r: bool)
    ensures
        r == ((exists|i: int| 0 <= i < args@.len() && #[trigger] args@[i]@ == "--offline"@)
            || (env matches Some(v) && offline_value(v@))),
{
    let n = args.len();
    for i in 0..n
        invariant
            n == args@.len(),
            forall|j: int| 0 <= j < i ==> #[trigger] args@[j]@ != "--offline"@,
    {
        if str_eq(args[i].as_str(), "--offline") {
            return true;
        }
    }
    match env {
        Some(v) => {
            let s = v.as_str();
            str_eq(s, "1") || str_eq(s, "true") || str_eq(s, "yes") || str_eq(s, "on")
        },
        None => false,
    }
}

/// The header of the log view: `<n> recent events`.
pub fn recent_events_header(count: usize) -> (s: String)
    ensures
        s@ == decimal(count as nat) + " recent events"@,
{
    let mut s = String::new();
    push_decimal(&mut s, count as u64);
    s.append(" recent events");
    assert(s@ =~= decimal(count as nat) + " recent events"@);
    s
}

/// The log view's rows: the events, newest first.
pub fn logs_newest_first(logs: &Vec<LogEvent>) -> (r: Vec<LogEvent>)
    ensures
        event_models(r@) == event_models(logs@).reverse(),
{
    let mut rows: Vec<LogEvent> = Vec::new();
    let n = logs.len();
    let mut k: usize = n;
    while k > 0
        invariant
            n == logs@.len(),
            k <= n,
            event_models(rows@) == event_models(logs@).subrange(k as int, n as int).reverse(),
        decreases k,
    {
        k = k - 1;
        let ghost before = rows@;
        let e = logs[k].clone();
        rows.push(e);
        let ghost m = event_models(logs@);
        assert(event_models(rows@) =~= event_models(before).push(m[k as int]));
        assert(m.subrange(k as int, n as int).reverse() =~= m.subrange(k + 1, n as int).reverse().push(m[k as int]));
    }
    assert(event_models(logs@).subrange(0, n as int) =~= event_models(logs@));
    rows
}

/// The result of `str::to_lowercase`.
pub uninterp spec fn lowercase_of(s: Seq<char>) -> Seq<char>;

/// The result of `char::to_uppercase`, collected into a string.
pub uninterp spec fn uppercase_of(c: char) -> Seq<char>;

/// Lower-cases a key name with `str::to_lowercase` (Unicode case mapping).
#[verifier::external_body]
fn lowercase(s: &str) -> (r: String)
    ensures
        r@ == lowercase_of(s@),
{
    s.to_lowercase()
}

/// Upper-cases one character with `char::to_uppercase`, which may give several characters.
#[verifier::external_body]
fn uppercase_char(c: char) -> (r: String)
    ensures
        r@ == uppercase_of(c),
{
    c.to_uppercase().collect()
}

/// Whether `t` is read by `str::parse::<u8>`: an optional `+`, then one or
/// more decimal digits, of value at most 255.
pub open spec fn parses_as_u8(t: Seq<char>) -> bool {
    let digits = if t.len() > 0 && t[0] == '+' { t.drop_first() } else { t };
    digits.len() > 0 && all_digits(digits) && digits_value(digits) <= 255
}

fn parse_u8_ok(s: &str) -> (r: bool)
    ensures
        r == parses_as_u8(s@),
{
    let t = if s.unicode_len() > 0 && s.get_char(0) == '+' {
        s.substring_char(1, s.unicode_len())
    } else {
        s
    };
    proof {
        if s@.len() > 0 && s@[0] == '+' {
            assert(t@ =~= s@.drop_first());
        }
        lemma_u8_from_i32(t@);
        let digits = if s@.len() > 0 && s@[0] == '+' { s@.drop_first() } else { s@ };
        assert(digits == t@);
    }
    match crate::text::parse_i32(t) {
        Some(v) => {
            let ok = 0 <= v && v <= 255 && t.unicode_len() > 0 && t.get_char(0) != '-' && t.get_char(0) != '+';
            ok
        },
        None => {
            proof {
                lemma_u8_from_i32(t@);
            }
            false
        },
    }
}

/// How the `u8` reading of digits relates to the `i32` reading.
proof fn lemma_u8_from_i32(t: Seq<char>)
    ensures
        (t.len() > 0 && all_digits(t) && digits_value(t) <= 255)
            == (crate::text::parse_i32_spec(t) is Some && 0 <= crate::text::parse_i32_spec(t)->0 <= 255
                && t.len() > 0 && t[0] != '-' && t[0] != '+'),
{
    if t.len() > 0 && t[0] != '-' && t[0] != '+' {
        if all_digits(t) {
            crate::text::lemma_digits_nonneg(t);
        }
    }
    if t.len() > 0 && all_digits(t) {
        assert(is_digit(t[0]));
    }
}

/// The display name of a key, given the upper-casing of its first character.
pub open spec fn display_key_spec(key: Seq<char>) -> Seq<char> {
    if key == " "@ || key == "space"@ {
        "Space"@
    } else if key == "enter"@ {
        "Enter"@
    } else if key == "tab"@ {
        "Tab"@
    } else if key == "backspace"@ {
        "Backspace"@
    } else if key == "delete"@ {
        "Delete"@
    } else if key == "left"@ || key == "arrowleft"@ {
        "Left"@
    } else if key == "right"@ || key == "arrowright"@ {
        "Right"@
    } else if key == "up"@ || key == "arrowup"@ {
        "Up"@
    } else if key == "down"@ || key == "arrowdown"@ {
        "Down"@
    } else if key.len() > 0 && key[0] == 'f' && parses_as_u8(key.drop_first()) {
        seq!['F'] + key.drop_first()
    } else if key.len() > 0 {
        uppercase_of(key[0])
    } else {
        Seq::empty()
    }
}

/// The display name of a key in a shortcut, such as `Space`, `F5` or `A`.
pub fn display_key(key: &str) -> (s: String)
    ensures
        s@ == display_key_spec(key@),
{
    proof {
        reveal_strlit("f");
    }
    if str_eq(key, " ") || str_eq(key, "space") {
        String::from_str("Space")
    } else if str_eq(key, "enter") {
        String::from_str("Enter")
    } else if str_eq(key, "tab") {
        String::from_str("Tab")
    } else if str_eq(key, "backspace") {
        String::from_str("Backspace")
    } else if str_eq(key, "delete") {
        String::from_str("Delete")
    } else if str_eq(key, "left") || str_eq(key, "arrowleft") {
        String::from_str("Left")
    } else if str_eq(key, "right") || str_eq(key, "arrowright") {
        String::from_str("Right")
    } else if str_eq(key, "up") || str_eq(key, "arrowup") {
        String::from_str("Up")
    } else if str_eq(key, "down") || str_eq(key, "arrowdown") {
        String::from_str("Down")
    } else {
        let n = key.unicode_len();
        if n > 0 && key.get_char(0) == 'f' {
            let rest = key.substring_char(1, n);
            assert(rest@ =~= key@.drop_first());
            if parse_u8_ok(rest) {
                let mut s = String::from_str("F");
                s.append(rest);
                proof {
                    reveal_strlit("F");
                }
                assert(s@ =~= seq!['F'] + key@.drop_first());
                return s;
            }
        }
        if n > 0 {
            uppercase_char(key.get_char(0))
        } else {
            String::new()
        }
    }
}

/// What a key press does while a shortcut is being recorded.
pub enum ShortcutKey {
    /// Escape: stop recording.
    Cancel,
    /// A modifier alone: keep waiting.
    Ignore,
    /// The recorded shortcut.
    Record(String),
}

/// The modifier names of a key press, in shortcut order, followed by the key.
pub open spec fn shortcut_parts(ctrl: bool, alt: bool, shift: bool, platform: bool, function: bool, key: Seq<char>) -> Seq<Seq<char>> {
    (if ctrl { seq!["Ctrl"@] } else { Seq::empty() })
        + (if alt { seq!["Alt"@] } else { Seq::empty() })
        + (if shift { seq!["Shift"@] } else { Seq::empty() })
        + (if platform { seq!["Super"@] } else { Seq::empty() })
        + (if function { seq!["Fn"@] } else { Seq::empty() })
        + seq![display_key_spec(key)]
}

/// The parts joined with `+`.
pub open spec fn join_plus(parts: Seq<Seq<char>>) -> Seq<char>
    decreases parts.len(),
{
    if parts.len() == 0 {
        Seq::empty()
    } else if parts.len() == 1 {
        parts[0]
    } else {
        join_plus(parts.drop_last()) + seq!['+'] + parts.last()
    }
}

/// Whether a lower-cased key name is a modifier on its own.
pub open spec fn is_modifier_key(k: Seq<char>) -> bool {
    k == "control"@ || k == "alt"@ || k == "shift"@ || k == "meta"@ || k == "super"@ || k == "function"@
}

fn push_part(parts: &mut Vec<String>, p: &str)
    ensures
        final(parts)@.len() == old(parts)@.len() + 1,
        forall|i: int| 0 <= i < old(parts)@.len() ==> #[trigger] final(parts)@[i] == old(parts)@[i],
        final(parts)@.last()@ == p@,
{
    parts.push(String::from_str(p));
}

/// The shortcut recorded from a key press: the key name is lower-cased first;
/// Escape cancels, a modifier alone is ignored, anything else gives the
/// modifiers and the key's display name joined by `+`.
pub fn shortcut_from_key(key: &str, ctrl: bool, alt: bool, shift: bool, platform: bool, function: bool) -> (r: ShortcutKey)
    ensures
        lowercase_of(key@) == "escape"@ ==> r is Cancel,
        lowercase_of(key@) != "escape"@ && is_modifier_key(lowercase_of(key@)) ==> r is Ignore,
        lowercase_of(key@) != "escape"@ && !is_modifier_key(lowercase_of(key@)) ==> (r matches ShortcutKey::Record(s)
            && s@ == join_plus(shortcut_parts(ctrl, alt, shift, platform, function, lowercase_of(key@)))),
{
    let k = lowercase(key);
    let k = k.as_str();
    if str_eq(k, "escape") {
        return ShortcutKey::Cancel;
    }
    if str_eq(k, "control") || str_eq(k, "alt") || str_eq(k, "shift") || str_eq(k, "meta")
        || str_eq(k, "super") || str_eq(k, "function") {
        return ShortcutKey::Ignore;
    }
    let mut parts: Vec<String> = Vec::new();
    if ctrl {
        push_part(&mut parts, "Ctrl");
    }
    if alt {
        push_part(&mut parts, "Alt");
    }
    if shift {
        push_part(&mut parts, "Shift");
    }
    if platform {
        push_part(&mut parts, "Super");
    }
    if function {
        push_part(&mut parts, "Fn");
    }
    let shown = display_key(k);
    parts.push(shown);
    let ghost expected = shortcut_parts(ctrl, alt, shift, platform, function, k@);
    assert(parts@.map_values(|p: String| p@) =~= expected);
    let mut s = String::new();
    let n = parts.len();
    for i in 0..n
        invariant
            n == parts@.len(),
            n > 0,
            parts@.map_values(|p: String| p@) == expected,
            i == 0 ==> s@ == Seq::<char>::empty(),
            i > 0 ==> s@ == join_plus(expected.take(i as int)),
    {
        if i > 0 {
            s.append("+");
            proof {
                reveal_strlit("+");
            }
        }
        s.append(parts[i].as_str());
        proof {
            assert(expected[i as int] == parts@[i as int]@);
            assert(expected.take(i + 1).drop_last() =~= expected.take(i as int));
            if i == 0 {
                assert(expected.take(1) =~= seq![expected[0]]);
            }
        }
    }
    assert(expected.take(n as int) =~= expected);
    ShortcutKey::Record(s)
}

/// The `%H:%M:%S` time of an RFC 3339 timestamp, as `chrono` reads and formats
/// it; none where `chrono` rejects the text.
pub uninterp spec fn rfc3339_clock(timestamp: Seq<char>) -> Option<Seq<char>>;

/// Reads a timestamp with `chrono::DateTime::<FixedOffset>::parse_from_rfc3339`
/// and formats it with `%H:%M:%S`. The result depends only on the text.
#[verifier::external_body]
fn parse_clock(timestamp: &str) -> (r: Option<String>)
    ensures
        opt_view(r) == rfc3339_clock(timestamp@),
{
    match chrono::DateTime::<chrono::FixedOffset>::parse_from_rfc3339(timestamp) {
        Ok(date) => Some(date.format("%H:%M:%S").to_string()),
        Err(_) => None,
    }
}

/// The time shown for a log event, given its parsed clock time: the clock
/// time where the timestamp could be read, the timestamp itself otherwise.
pub fn format_timestamp_with(timestamp: &str, clock: Option<String>) -> (s: String)
    ensures
        s@ == match opt_view(clock) { Some(c) => c, None => timestamp@ },
{
    match clock {
        Some(c) => c,
        None => String::from_str(timestamp),
    }
}

/// The time shown for a log event.
pub fn format_timestamp(timestamp: &str) -> (s: String)
    ensures
        s@ == match rfc3339_clock(timestamp@) { Some(c) => c, None => timestamp@ },
{
    let clock = parse_clock(timestamp);
    format_timestamp_with(timestamp, clock)
}

/// Law: a modifier key pressed alone never ends the recording of a shortcut:
/// each of `control`, `alt`, `shift`, `meta`, `super` and `function` is a
/// modifier, so `shortcut_from_key` answers `Ignore` for it (and keeps
/// recording), while Escape is not a modifier and cancels.
pub proof fn law_bare_modifiers_are_ignored()
    ensures
        is_modifier_key("control"@),
        is_modifier_key("alt"@),
        is_modifier_key("shift"@),
        is_modifier_key("meta"@),
        is_modifier_key("super"@),
        is_modifier_key("function"@),
        !is_modifier_key("escape"@),
{
    reveal_strlit("control");
    reveal_strlit("escape");
    reveal_strlit("alt");
    reveal_strlit("shift");
    reveal_strlit("meta");
    reveal_strlit("super");
    reveal_strlit("function");
    assert("escape"@.len() == 6);
    assert("escape"@ != "control"@ && "escape"@ != "alt"@ && "escape"@ != "shift"@);
    assert("escape"@ != "meta"@ && "escape"@ != "super"@ && "escape"@ != "function"@);
}

} // verus!
