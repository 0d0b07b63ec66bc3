use vstd::prelude::*;
use crate::text::{opt_view, str_eq, str_contains, has_substring};
use crate::settings::clone_opt_string;

verus! {

/// The properties a capture device reports, by type.
pub struct DeviceProperties {
    /// String-valued properties, as (name, value).
    pub strings: Vec<(String, String)>,
    /// Boolean properties, as (name, value).
    pub bools: Vec<(String, bool)>,
}

/// What device selection reads of a device the device monitor reports.
pub struct DeviceInfo {
    /// Position of the device in the monitor's list, to find it again.
    pub index: usize,
    /// Device class, such as `Audio/Source`.
    pub device_class: String,
    pub display_name: String,
    pub properties: Option<DeviceProperties>,
}

/// An audio device that can be selected.
pub struct AudioDevice {
    pub id: String,
    pub label: String,
    pub is_input: bool,
}

/// What an audio device entry says.
pub struct AudioDeviceModel {
    pub id: Seq<char>,
    pub label: Seq<char>,
    pub is_input: bool,
}

impl View for AudioDevice {
    type V = AudioDeviceModel;

    open spec fn view(&self) -> AudioDeviceModel {
        AudioDeviceModel { id: self.id@, label: self.label@, is_input: self.is_input }
    }
}

impl Clone for AudioDevice {
    fn clone(&self) -> (res: Self)
        ensures
            res@ == self@,
    {
        AudioDevice { id: self.id.clone(), label: self.label.clone(), is_input: self.is_input }
    }
}

/// A device chosen for capture, with the index of the device it came from.
pub struct AudioDeviceInfo {
    pub index: usize,
    pub id: String,
    pub label: String,
    pub is_input: bool,
    pub endpoint_id: Option<String>,
}

/// What a chosen device says.
pub struct AudioDeviceInfoModel {
    pub index: usize,
    pub id: Seq<char>,
    pub label: Seq<char>,
    pub is_input: bool,
    pub endpoint_id: Option<Seq<char>>,
}

impl View for AudioDeviceInfo {
    type V = AudioDeviceInfoModel;

    open spec fn view(&self) -> AudioDeviceInfoModel {
        AudioDeviceInfoModel {
            index: self.index,
            id: self.id@,
            label: self.label@,
            is_input: self.is_input,
            endpoint_id: opt_view(self.endpoint_id),
        }
    }
}

impl Clone for AudioDeviceInfo {
    fn clone(&self) -> (res: Self)
        ensures
            res@ == self@,
    {
        AudioDeviceInfo {
            index: self.index,
            id: self.id.clone(),
            label: self.label.clone(),
            is_input: self.is_input,
            endpoint_id: clone_opt_string(&self.endpoint_id),
        }
    }
}

/// The value of the first string property with this name.
pub open spec fn string_prop(ps: Seq<(String, String)>, key: Seq<char>) -> Option<Seq<char>>
    decreases ps.len(),
{
    if ps.len() == 0 {
        None
    } else if ps[0].0@ == key {
        Some(ps[0].1@)
    } else {
        string_prop(ps.drop_first(), key)
    }
}

/// Whether the first boolean property with this name is present and true.
pub open spec fn bool_prop_set(ps: Seq<(String, bool)>, key: Seq<char>) -> bool
    decreases ps.len(),
{
    if ps.len() == 0 {
        false
    } else if ps[0].0@ == key {
        ps[0].1
    } else {
        bool_prop_set(ps.drop_first(), key)
    }
}

fn get_string(props: &DeviceProperties, key: &str) -> (r: Option<String>)
    ensures
        opt_view(r) == string_prop(props.strings@, key@),
{
    let ps = &props.strings;
    let n = ps.len();
    let mut i: usize = 0;
    assert(ps@.skip(0) =~= ps@);
    while i < n
        invariant
            n == ps@.len(),
            i <= n,
            ps@ == props.strings@,
            string_prop(ps@, key@) == string_prop(ps@.skip(i as int), key@),
        decreases n - i,
    {
        assert(ps@.skip(i as int)[0] == ps@[i as int]);
        if str_eq(ps[i].0.as_str(), key) {
            return Some(ps[i].1.clone());
        }
        assert(ps@.skip(i as int).drop_first() =~= ps@.skip(i + 1));
        i = i + 1;
    }
    None
}

fn get_bool(props: &DeviceProperties, key: &str) -> (r: bool)
    ensures
        r == bool_prop_set(props.bools@, key@),
{
    let ps = &props.bools;
    let n = ps.len();
    let mut i: usize = 0;
    assert(ps@.skip(0) =~= ps@);
    while i < n
        invariant
            n == ps@.len(),
            i <= n,
            ps@ == props.bools@,
            bool_prop_set(ps@, key@) == bool_prop_set(ps@.skip(i as int), key@),
        decreases n - i,
    {
        assert(ps@.skip(i as int)[0] == ps@[i as int]);
        if str_eq(ps[i].0.as_str(), key) {
            return ps[i].1;
        }
        assert(ps@.skip(i as int).drop_first() =~= ps@.skip(i + 1));
        i = i + 1;
    }
    false
}

/// The device id: the first of `device.id`, `device.strid`, `device-id`, `device` that is set.
pub open spec fn device_id_spec(p: DeviceProperties) -> Option<Seq<char>> {
    let s = p.strings@;
    if string_prop(s, "device.id"@) is Some {
        string_prop(s, "device.id"@)
    } else if string_prop(s, "device.strid"@) is Some {
        string_prop(s, "device.strid"@)
    } else if string_prop(s, "device-id"@) is Some {
        string_prop(s, "device-id"@)
    } else {
        string_prop(s, "device"@)
    }
}

/// The device id given by the device's properties.
pub fn device_id_from_props(props: &DeviceProperties) -> (r: Option<String>)
    ensures
        opt_view(r) == device_id_spec(*props),
{
    let a = get_string(props, "device.id");
    if a.is_some() {
        return a;
    }
    let b = get_string(props, "device.strid");
    if b.is_some() {
        return b;
    }
    let c = get_string(props, "device-id");
    if c.is_some() {
        return c;
    }
    get_string(props, "device")
}

/// The endpoint id given by the device's properties (read from the same keys as the device id).
pub fn endpoint_id_from_props(props: &DeviceProperties) -> (r: Option<String>)
    ensures
        opt_view(r) == device_id_spec(*props),
{
    device_id_from_props(props)
}

/// Whether one of `loopback`, `wasapi.device.loopback`, `wasapi2.device.loopback` is set.
pub open spec fn loopback_spec(p: DeviceProperties) -> bool {
    let b = p.bools@;
    bool_prop_set(b, "loopback"@) || bool_prop_set(b, "wasapi.device.loopback"@)
        || bool_prop_set(b, "wasapi2.device.loopback"@)
}

/// Whether the device captures what another device plays.
pub fn is_loopback_device(props: &DeviceProperties) -> (r: bool)
    ensures
        r == loopback_spec(*props),
{
    get_bool(props, "loopback") || get_bool(props, "wasapi.device.loopback")
        || get_bool(props, "wasapi2.device.loopback")
}

/// Whether one of the default-device flags is set.
pub open spec fn default_spec(p: DeviceProperties) -> bool {
    let b = p.bools@;
    bool_prop_set(b, "is-default"@) || bool_prop_set(b, "is-default-device"@)
        || bool_prop_set(b, "is-default-render"@) || bool_prop_set(b, "default"@)
        || bool_prop_set(b, "device.default"@)
}

/// Whether the device is the system's default one.
pub fn is_default_device(props: &DeviceProperties) -> (r: bool)
    ensures
        r == default_spec(*props),
{
    get_bool(props, "is-default") || get_bool(props, "is-default-device")
        || get_bool(props, "is-default-render") || get_bool(props, "default")
        || get_bool(props, "device.default")
}

/// The entry built for a device: it needs properties and an id, and is
/// refused for a loopback device unless loopback is allowed.
pub open spec fn info_spec(d: DeviceInfo, is_input: bool, allow_loopback: bool) -> Option<AudioDeviceInfoModel> {
    match d.properties {
        None => None,
        Some(p) => if !allow_loopback && loopback_spec(p) {
            None
        } else {
            match device_id_spec(p) {
                None => None,
                Some(id) => Some(AudioDeviceInfoModel {
                    index: d.index,
                    id,
                    label: d.display_name@,
                    is_input,
                    endpoint_id: device_id_spec(p),
                }),
            }
        },
    }
}

/// Builds the entry for a device.
pub fn build_audio_device_info(device: &DeviceInfo, is_input: bool, allow_loopback: bool) -> (r: Option<AudioDeviceInfo>)
    ensures
        match r {
            Some(i) => info_spec(*device, is_input, allow_loopback) == Some(i@),
            None => info_spec(*device, is_input, allow_loopback) is None,
        },
{
    match &device.properties {
        None => None,
        Some(props) => {
            if !allow_loopback && is_loopback_device(props) {
                return None;
            }
            match device_id_from_props(props) {
                None => None,
                Some(id) => {
                    let endpoint_id = endpoint_id_from_props(props);
                    Some(AudioDeviceInfo {
                        index: device.index,
                        id,
                        label: device.display_name.clone(),
                        is_input,
                        endpoint_id,
                    })
                },
            }
        },
    }
}

/// Whether a device class is that of a capture source and not of a sink.
pub open spec fn source_class(c: Seq<char>) -> bool {
    has_substring(c, "Audio/Source"@) && !has_substring(c, "Audio/Sink"@)
}

/// Whether a device class is that of a sink and not of a capture source.
pub open spec fn sink_class(c: Seq<char>) -> bool {
    has_substring(c, "Audio/Sink"@) && !has_substring(c, "Audio/Source"@)
}

fn is_source_class(c: &str) -> (r: bool)
    ensures
        r == source_class(c@),
{
    str_contains(c, "Audio/Source") && !str_contains(c, "Audio/Sink")
}

fn is_sink_class(c: &str) -> (r: bool)
    ensures
        r == sink_class(c@),
{
    str_contains(c, "Audio/Sink") && !str_contains(c, "Audio/Source")
}

/// The microphone entries: capture sources that are not loopback devices and have an id.
pub open spec fn microphones(ds: Seq<DeviceInfo>) -> Seq<AudioDeviceModel>
    decreases ds.len(),
{
    if ds.len() == 0 {
        Seq::empty()
    } else {
        let rest = microphones(ds.drop_last());
        let d = ds.last();
        if source_class(d.device_class@) {
            match info_spec(d, true, false) {
                Some(i) => rest.push(AudioDeviceModel { id: i.id, label: i.label, is_input: true }),
                None => rest,
            }
        } else {
            rest
        }
    }
}

/// The microphones among the devices, in the monitor's order.
pub fn list_microphone_devices(devices: &Vec<DeviceInfo>) -> (r: Vec<AudioDevice>)
    ensures
        r@.map_values(|a: AudioDevice| a@) == microphones(devices@),
{
    let mut r: Vec<AudioDevice> = Vec::new();
    let n = devices.len();
    assert(r@.map_values(|a: AudioDevice| a@) =~= microphones(devices@.take(0)));
    for i in 0..n
        invariant
            n == devices@.len(),
            r@.map_values(|a: AudioDevice| a@) == microphones(devices@.take(i as int)),
    {
        let d = &devices[i];
        let ghost before = r@;
        assert(devices@.take(i + 1).drop_last() =~= devices@.take(i as int));
        assert(devices@.take(i + 1).last() == *d);
        if is_source_class(d.device_class.as_str()) {
            match build_audio_device_info(d, true, false) {
                Some(info) => {
                    r.push(AudioDevice { id: info.id, label: info.label, is_input: true });
                    assert(r@.map_values(|a: AudioDevice| a@) =~= before.map_values(|a: AudioDevice| a@).push(
                        AudioDeviceModel { id: info@.id, label: info@.label, is_input: true }));
                },
                None => {},
            }
        }
    }
    assert(devices@.take(n as int) =~= devices@);
    r
}

/// The first entry, in the monitor's order, built for a capture source with this id.
pub open spec fn microphone_with_id(ds: Seq<DeviceInfo>, id: Seq<char>) -> Option<AudioDeviceInfoModel>
    decreases ds.len(),
{
    if ds.len() == 0 {
        None
    } else if source_class(ds[0].device_class@) && info_spec(ds[0], true, false) is Some
        && info_spec(ds[0], true, false)->0.id == id {
        info_spec(ds[0], true, false)
    } else {
        microphone_with_id(ds.drop_first(), id)
    }
}

/// The selected microphone, where the monitor reports it.
pub fn find_microphone_device(devices: &Vec<DeviceInfo>, id: &str) -> (r: Option<AudioDeviceInfo>)
    ensures
        match r {
            Some(i) => microphone_with_id(devices@, id@) == Some(i@),
            None => microphone_with_id(devices@, id@) is None,
        },
{
    let n = devices.len();
    let mut i: usize = 0;
    assert(devices@.skip(0) =~= devices@);
    while i < n
        invariant
            n == devices@.len(),
            i <= n,
            microphone_with_id(devices@, id@) == microphone_with_id(devices@.skip(i as int), id@),
        decreases n - i,
    {
        let d = &devices[i];
        assert(devices@.skip(i as int)[0] == *d);
        if is_source_class(d.device_class.as_str()) {
            match build_audio_device_info(d, true, false) {
                Some(info) => {
                    if str_eq(info.id.as_str(), id) {
                        return Some(info);
                    }
                },
                None => {},
            }
        }
        assert(devices@.skip(i as int).drop_first() =~= devices@.skip(i + 1));
        i = i + 1;
    }
    None
}

/// The entry of a loopback device, where it can be built.
pub open spec fn loopback_entry(d: DeviceInfo) -> Option<AudioDeviceInfoModel> {
    match d.properties {
        Some(p) => if loopback_spec(p) { info_spec(d, false, true) } else { None },
        None => None,
    }
}

/// Whether a device is flagged as the default one.
pub open spec fn flagged_default(d: DeviceInfo) -> bool {
    match d.properties {
        Some(p) => default_spec(p),
        None => false,
    }
}

/// The entry of a render sink that is not a loopback device, where it can be built.
pub open spec fn sink_entry(d: DeviceInfo) -> Option<AudioDeviceInfoModel> {
    match d.properties {
        Some(p) => if !loopback_spec(p) && sink_class(d.device_class@) { info_spec(d, false, false) } else { None },
        None => None,
    }
}

/// The first default loopback entry.
pub open spec fn first_default_loopback(ds: Seq<DeviceInfo>) -> Option<AudioDeviceInfoModel>
    decreases ds.len(),
{
    if ds.len() == 0 {
        None
    } else if first_default_loopback(ds.drop_last()) is Some {
        first_default_loopback(ds.drop_last())
    } else if loopback_entry(ds.last()) is Some && flagged_default(ds.last()) {
        loopback_entry(ds.last())
    } else {
        None
    }
}

/// The first loopback entry.
pub open spec fn first_loopback(ds: Seq<DeviceInfo>) -> Option<AudioDeviceInfoModel>
    decreases ds.len(),
{
    if ds.len() == 0 {
        None
    } else if first_loopback(ds.drop_last()) is Some {
        first_loopback(ds.drop_last())
    } else {
        loopback_entry(ds.last())
    }
}

/// The render sink fallback: the last default sink entry, else the first sink entry.
pub open spec fn sink_fallback(ds: Seq<DeviceInfo>) -> Option<AudioDeviceInfoModel>
    decreases ds.len(),
{
    if ds.len() == 0 {
        None
    } else {
        let before = sink_fallback(ds.drop_last());
        match sink_entry(ds.last()) {
            Some(e) => if flagged_default(ds.last()) || before is None { Some(e) } else { before },
            None => before,
        }
    }
}

/// The device system audio is captured from: the first default loopback
/// device, else the first loopback device, else the render sink fallback.
pub open spec fn default_output_spec(ds: Seq<DeviceInfo>) -> Option<AudioDeviceInfoModel> {
    if first_default_loopback(ds) is Some {
        first_default_loopback(ds)
    } else if first_loopback(ds) is Some {
        first_loopback(ds)
    } else {
        sink_fallback(ds)
    }
}

/// The device system audio is captured from, and whether no loopback device
/// was found so a render sink stands in (which is worth a warning).
pub fn find_default_output_device(devices: &Vec<DeviceInfo>) -> (r: (Option<AudioDeviceInfo>, bool))
    ensures
        match r.0 {
            Some(i) => default_output_spec(devices@) == Some(i@),
            None => default_output_spec(devices@) is None,
        },
        r.1 == (first_loopback(devices@) is None),
{
    let n = devices.len();
    let mut loopback_fallback: Option<AudioDeviceInfo> = None;
    let mut fallback: Option<AudioDeviceInfo> = None;
    for i in 0..n
        invariant
            n == devices@.len(),
            first_default_loopback(devices@.take(i as int)) is None,
            match loopback_fallback {
                Some(x) => first_loopback(devices@.take(i as int)) == Some(x@),
                None => first_loopback(devices@.take(i as int)) is None,
            },
            match fallback {
                Some(x) => sink_fallback(devices@.take(i as int)) == Some(x@),
                None => sink_fallback(devices@.take(i as int)) is None,
            },
    {
        let d = &devices[i];
        let ghost pre = devices@.take(i as int);
        assert(devices@.take(i + 1).drop_last() =~= pre);
        assert(devices@.take(i + 1).last() == *d);
        match &d.properties {
            None => {},
            Some(props) => {
                if is_loopback_device(props) {
                    match build_audio_device_info(d, false, true) {
                        Some(info) => {
                            if is_default_device(props) {
                                proof {
                                    lemma_first_default_loopback_prefix(devices@, i as int + 1);
                                }
                                return (Some(info), false);
                            }
                            if loopback_fallback.is_none() {
                                loopback_fallback = Some(info);
                            }
                        },
                        None => {},
                    }
                } else if is_sink_class(d.device_class.as_str()) {
                    match build_audio_device_info(d, false, false) {
                        Some(info) => {
                            if is_default_device(props) {
                                fallback = Some(info.clone());
                            }
                            if fallback.is_none() {
                                fallback = Some(info);
                            }
                        },
                        None => {},
                    }
                }
            },
        }
    }
    assert(devices@.take(n as int) =~= devices@);
    if loopback_fallback.is_some() {
        return (loopback_fallback, false);
    }
    (fallback, true)
}

/// A default loopback entry found in a prefix is the overall first one.
pub proof fn lemma_first_default_loopback_prefix(ds: Seq<DeviceInfo>, k: int)
    requires
        0 <= k <= ds.len(),
        first_default_loopback(ds.take(k)) is Some,
    ensures
        first_default_loopback(ds) == first_default_loopback(ds.take(k)),
        first_loopback(ds) is Some,
    decreases ds.len() - k,
{
    if k < ds.len() {
        assert(ds.take(k + 1).drop_last() =~= ds.take(k));
        lemma_first_default_loopback_prefix(ds, k + 1);
    } else {
        assert(ds.take(k) =~= ds);
        lemma_default_loopback_is_loopback(ds);
    }
}

/// Where there is a default loopback entry, there is a loopback entry.
pub proof fn lemma_default_loopback_is_loopback(ds: Seq<DeviceInfo>)
    ensures
        first_default_loopback(ds) is Some ==> first_loopback(ds) is Some,
    decreases ds.len(),
{
    if ds.len() > 0 {
        lemma_default_loopback_is_loopback(ds.drop_last());
    }
}


/// The device a loopback capture element is pointed at: the endpoint id where
/// known, the device id otherwise.
pub fn loopback_target_id(info: &AudioDeviceInfo) -> (s: &str)
    ensures
        s@ == match opt_view(info.endpoint_id) { Some(e) => e, None => info.id@ },
{
    match &info.endpoint_id {
        Some(e) => e.as_str(),
        None => info.id.as_str(),
    }
}

} // verus!
