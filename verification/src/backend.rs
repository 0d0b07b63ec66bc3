use vstd::prelude::*;
use crate::ring_buffer::{RingBuffer, total_len};
use crate::text::{decimal, opt_view, push_decimal};
use crate::logger::{LogEvent, LogHistory, LogLevel, describes, event_models, log_to, recorded, lemma_recorded_step};
use crate::runtime::DaemonState;
use crate::shortcut::{hotkey_parse_error, parse_accelerator};
use crate::remux::RemuxResult;
use crate::settings::{CaptureSettings, should_restart_capture, restart_needed};

verus! {

/// The capture status the backend reports.
#[derive(Clone, Copy, PartialEq, Eq, Structural, Debug)]
pub enum CaptureStatus {
    Running,
    Stopped,
    Error,
}

/// How much the ring buffer holds.
#[derive(Clone, Copy, Debug)]
pub struct BufferStatus {
    /// Whole seconds buffered.
    pub buffer_seconds: u32,
    pub ring_buffer_packets: usize,
    pub ring_buffer_bytes: u64,
    pub ring_buffer_duration_ms: u64,
}

/// The buffer figures shown in the status view.
pub fn buffer_status(rb: &RingBuffer) -> (s: BufferStatus)
    requires
        total_len(rb@.packets) <= u64::MAX,
    ensures
        s.ring_buffer_duration_ms == rb@.duration(),
        s.buffer_seconds == (rb@.duration() / 1000) as u32,
        s.ring_buffer_packets == rb@.packets.len(),
        s.ring_buffer_bytes == total_len(rb@.packets),
{
    let duration = rb.duration_ms();
    BufferStatus {
        buffer_seconds: (duration / 1000) as u32,
        ring_buffer_packets: rb.len(),
        ring_buffer_bytes: rb.total_bytes(),
        ring_buffer_duration_ms: duration,
    }
}

/// What was negotiated for one audio source.
pub struct AudioCapsSummary {
    pub rate: Option<u32>,
    pub channels: Option<u32>,
    pub raw: Option<String>,
}

/// The negotiated audio formats of the system and microphone sources.
pub struct AudioCapsState {
    pub system: Option<AudioCapsSummary>,
    pub mic: Option<AudioCapsSummary>,
}

impl AudioCapsState {
    /// Nothing negotiated yet.
    pub fn new() -> (s: Self)
        ensures
            s.system is None,
            s.mic is None,
    {
        AudioCapsState { system: None, mic: None }
    }
}

/// The label of a source's audio format: `<rate> Hz / <channels> ch` where both
/// are known, else the raw caps text, else `connected`; `unavailable` without a source.
pub open spec fn caps_label_spec(caps: Option<AudioCapsSummary>) -> Seq<char> {
    match caps {
        None => "unavailable"@,
        Some(c) => match (c.rate, c.channels) {
            (Some(rate), Some(channels)) => decimal(rate as nat) + " Hz / "@ + decimal(channels as nat) + " ch"@,
            _ => match opt_view(c.raw) {
                Some(raw) => raw,
                None => "connected"@,
            },
        },
    }
}

/// The label of a source's audio format.
pub fn audio_caps_label(caps: Option<&AudioCapsSummary>) -> (s: String)
    ensures
        s@ == caps_label_spec(match caps { Some(c) => Some(*c), None => None }),
{
    match caps {
        None => String::from_str("unavailable"),
        Some(c) => {
            match (c.rate, c.channels) {
                (Some(rate), Some(channels)) => {
                    let mut s = String::new();
                    push_decimal(&mut s, rate as u64);
                    s.append(" Hz / ");
                    push_decimal(&mut s, channels as u64);
                    s.append(" ch");
                    assert(s@ =~= decimal(rate as nat) + " Hz / "@ + decimal(channels as nat) + " ch"@);
                    s
                },
                _ => match &c.raw {
                    Some(raw) => raw.clone(),
                    None => String::from_str("connected"),
                },
            }
        },
    }
}

/// Why an operation cannot run: the backend's reason, or a generic text.
pub fn unavailable_message(reason: &Option<String>) -> (m: String)
    ensures
        m@ == match opt_view(*reason) {
            Some(r) => r,
            None => "capture backend is unavailable"@,
        },
{
    match reason {
        Some(r) => r.clone(),
        None => String::from_str("capture backend is unavailable"),
    }
}

/// The message of an offline backend: the generic text followed by the reason.
pub fn offline_unavailable_message(reason: &str) -> (m: String)
    ensures
        m@ == "capture backend is unavailable: "@ + reason@,
{
    let mut m = String::from_str("capture backend is unavailable: ");
    m.append(reason);
    m
}

/// The file name of a clip taken at `stamp`: `clip-<stamp>.mp4`.
pub fn clip_filename_at(stamp: &str) -> (name: String)
    ensures
        name@ == "clip-"@ + stamp@ + ".mp4"@,
{
    let mut name = String::from_str("clip-");
    name.append(stamp);
    name.append(".mp4");
    name
}

/// The error reported for a clip request when the buffer held no packets.
pub fn check_clip_packets(count: usize) -> (r: Result<(), String>)
    ensures
        r is Err <==> count == 0,
        r matches Err(m) ==> m@ == "no packets available"@,
{
    if count == 0 {
        Err(String::from_str("no packets available"))
    } else {
        Ok(())
    }
}


/// A notice the backend sends to the user interface.
pub enum Notice {
    CaptureStatus { status: CaptureStatus, message: Option<String> },
    SettingsUpdated,
    ClipFinished { filename: String, duration_ms: u64 },
    OperationError { title: String, message: String },
}

/// Whether a notice is this operation error.
pub open spec fn is_error_notice(n: Notice, title: Seq<char>, message: Seq<char>) -> bool {
    n matches Notice::OperationError { title: t, message: m } && t@ == title && m@ == message
}

/// Whether a notice is this status.
pub open spec fn is_status_notice(n: Notice, status: CaptureStatus, message: Option<Seq<char>>) -> bool {
    n matches Notice::CaptureStatus { status: s, message: m } && s == status && opt_view(m) == message
}

fn error_notice(title: &str, message: String) -> (n: Notice)
    ensures
        is_error_notice(n, title@, message@),
{
    Notice::OperationError { title: String::from_str(title), message }
}

/// The message for an operation the unavailable backend cannot run.
pub open spec fn unavailable_text(reason: Option<Seq<char>>) -> Seq<char> {
    match reason {
        Some(r) => r,
        None => "capture backend is unavailable"@,
    }
}

/// Decides whether capture can be started: the backend must be available and
/// no pipeline may be running.
pub fn start_capture_check<C>(available: bool, reason: &Option<String>, state: &DaemonState<C>) -> (r: Result<(), Notice>)
    ensures
        !available ==> (r matches Err(n) && is_error_notice(n, "Backend"@, unavailable_text(opt_view(*reason)))),
        available && state.capture is Some ==> (r matches Err(n) && is_error_notice(n, "Capture"@, "capture is already running"@)),
        available && state.capture is None ==> r is Ok,
{
    if !available {
        return Err(error_notice("Backend", unavailable_message(reason)));
    }
    if state.capture.is_some() {
        return Err(error_notice("Capture", String::from_str("capture is already running")));
    }
    Ok(())
}

/// Records the outcome of starting capture: the new pipeline is kept and
/// `Running` reported, or the failure is logged and reported as an error status.
pub fn start_capture_done<C>(
    state: &mut DaemonState<C>,
    history: &mut LogHistory,
    result: Result<C, String>,
) -> (r: (Notice, Vec<LogEvent>))
    ensures
        final(history)@ == recorded(old(history)@, event_models(r.1@)),
        final(state).settings == old(state).settings,
        r.1@.len() == 1,
        match result {
            Ok(c) => {
                &&& final(state).capture == Some(c)
                &&& describes(r.1@[0]@, LogLevel::Info, "capture"@, "capture started"@)
                &&& is_status_notice(r.0, CaptureStatus::Running, None)
            },
            Err(m) => {
                &&& final(state).capture == old(state).capture
                &&& describes(r.1@[0]@, LogLevel::Error, "capture"@, "start failed: "@ + m@)
                &&& is_status_notice(r.0, CaptureStatus::Error, Some(m@))
            },
        },
{
    let mut events: Vec<LogEvent> = Vec::new();
    let ghost h0 = history@;
    let notice = match result {
        Ok(c) => {
            state.capture = Some(c);
            log_to(history, &mut events, LogLevel::Info, "capture", "capture started");
            Notice::CaptureStatus { status: CaptureStatus::Running, message: None }
        },
        Err(m) => {
            let mut line = String::from_str("start failed: ");
            line.append(m.as_str());
            log_to(history, &mut events, LogLevel::Error, "capture", line.as_str());
            Notice::CaptureStatus { status: CaptureStatus::Error, message: Some(m) }
        },
    };
    proof {
        lemma_recorded_step(h0, Seq::empty(), events@);
        assert(event_models(Seq::<LogEvent>::empty()) =~= Seq::empty());
    }
    (notice, events)
}

/// Stops capture: hands back the running pipeline to be dropped, logs that it
/// stops, and reports `Stopped`; an unavailable backend reports an error instead.
pub fn stop_capture<C>(
    available: bool,
    reason: &Option<String>,
    state: &mut DaemonState<C>,
    history: &mut LogHistory,
) -> (r: (Option<C>, Notice, Vec<LogEvent>))
    ensures
        final(history)@ == recorded(old(history)@, event_models(r.2@)),
        final(state).settings == old(state).settings,
        !available ==> {
            &&& r.0 is None && final(state).capture == old(state).capture
            &&& is_error_notice(r.1, "Backend"@, unavailable_text(opt_view(*reason)))
            &&& r.2@.len() == 0
        },
        available ==> {
            &&& r.0 == old(state).capture
            &&& final(state).capture is None
            &&& is_status_notice(r.1, CaptureStatus::Stopped, None)
            &&& r.2@.len() == if old(state).capture is Some { 1int } else { 0int }
            &&& old(state).capture is Some ==> describes(r.2@[0]@, LogLevel::Info, "capture"@, "stopping pipeline"@)
        },
{
    let mut events: Vec<LogEvent> = Vec::new();
    assert(event_models(events@) =~= Seq::empty());
    if !available {
        return (None, error_notice("Backend", unavailable_message(reason)), events);
    }
    let old_capture = state.capture.take();
    if old_capture.is_some() {
        let ghost h0 = history@;
        log_to(history, &mut events, LogLevel::Info, "capture", "stopping pipeline");
        proof {
            lemma_recorded_step(h0, Seq::empty(), events@);
        }
    }
    (old_capture, Notice::CaptureStatus { status: CaptureStatus::Stopped, message: None }, events)
}

/// Takes the running pipeline out for a restart, and tells whether one was running.
pub fn restart_take<C>(state: &mut DaemonState<C>) -> (r: (Option<C>, bool))
    ensures
        r.0 == old(state).capture,
        r.1 == old(state).capture is Some,
        final(state).capture is None,
        final(state).settings == old(state).settings,
{
    let was_running = state.capture.is_some();
    (state.capture.take(), was_running)
}

/// Whether a restart starts a pipeline: where one was running, or where asked to start anyway.
pub fn restart_starts(was_running: bool, start_if_stopped: bool) -> (r: bool)
    ensures
        r == (was_running || start_if_stopped),
{
    was_running || start_if_stopped
}

/// Reports the end of a restart: `Stopped` where no start was made; `Running`
/// where the start succeeded (the pipeline is kept); an error status, logged,
/// where it failed.
pub fn restart_done<C>(
    state: &mut DaemonState<C>,
    history: &mut LogHistory,
    started: Option<Result<C, String>>,
) -> (r: (Notice, Vec<LogEvent>))
    ensures
        final(history)@ == recorded(old(history)@, event_models(r.1@)),
        final(state).settings == old(state).settings,
        match started {
            None => {
                &&& final(state).capture == old(state).capture
                &&& is_status_notice(r.0, CaptureStatus::Stopped, None)
                &&& r.1@.len() == 0
            },
            Some(Ok(c)) => {
                &&& final(state).capture == Some(c)
                &&& is_status_notice(r.0, CaptureStatus::Running, None)
                &&& r.1@.len() == 0
            },
            Some(Err(m)) => {
                &&& final(state).capture == old(state).capture
                &&& is_status_notice(r.0, CaptureStatus::Error, Some(m@))
                &&& r.1@.len() == 1
                &&& describes(r.1@[0]@, LogLevel::Error, "capture"@, "restart failed: "@ + m@)
            },
        },
{
    let mut events: Vec<LogEvent> = Vec::new();
    assert(event_models(events@) =~= Seq::empty());
    match started {
        None => (Notice::CaptureStatus { status: CaptureStatus::Stopped, message: None }, events),
        Some(Ok(c)) => {
            state.capture = Some(c);
            (Notice::CaptureStatus { status: CaptureStatus::Running, message: None }, events)
        },
        Some(Err(m)) => {
            let ghost h0 = history@;
            let mut line = String::from_str("restart failed: ");
            line.append(m.as_str());
            log_to(history, &mut events, LogLevel::Error, "capture", line.as_str());
            proof {
                lemma_recorded_step(h0, Seq::empty(), events@);
            }
            (Notice::CaptureStatus { status: CaptureStatus::Error, message: Some(m) }, events)
        },
    }
}

/// The rejection of a settings update, given the outcome of validating the
/// settings and the parse error of their clip shortcut, if any.
pub open spec fn settings_rejection(validation: Result<(), Seq<char>>, shortcut_error: Option<Seq<char>>) -> Option<Seq<char>> {
    match validation {
        Err(m) => Some(m),
        Ok(()) => match shortcut_error {
            Some(e) => Some("invalid clip shortcut: "@ + e),
            None => None,
        },
    }
}

/// Decides a settings update's rejection from the validation outcome and the
/// clip shortcut's parse error: the validation error first, then `invalid clip
/// shortcut: <error>`.
pub fn check_settings_with(validation: Result<(), String>, shortcut_error: Option<String>) -> (r: Result<(), Notice>)
    ensures
        match settings_rejection(match validation { Ok(()) => Ok(()), Err(m) => Err(m@) }, opt_view(shortcut_error)) {
            Some(m) => r matches Err(n) && is_error_notice(n, "Settings"@, m),
            None => r is Ok,
        },
{
    match validation {
        Err(m) => Err(error_notice("Settings", m)),
        Ok(()) => match shortcut_error {
            Some(e) => {
                let mut m = String::from_str("invalid clip shortcut: ");
                m.append(e.as_str());
                Err(error_notice("Settings", m))
            },
            None => Ok(()),
        },
    }
}

/// Checks a settings update: the validation outcome, then the clip shortcut.
pub fn check_settings_update(validation: Result<(), String>, new_settings: &CaptureSettings) -> (r: Result<(), Notice>)
    ensures
        match settings_rejection(match validation { Ok(()) => Ok(()), Err(m) => Err(m@) },
            hotkey_parse_error(new_settings.shortcuts.clip@)) {
            Some(m) => r matches Err(n) && is_error_notice(n, "Settings"@, m),
            None => r is Ok,
        },
{
    let shortcut_error = match parse_accelerator(new_settings.shortcuts.clip.as_str()) {
        Ok(_) => None,
        Err(e) => Some(e),
    };
    check_settings_with(validation, shortcut_error)
}

/// Reports a failure to save settings: logged, and reported under `Settings`.
pub fn settings_save_failed(history: &mut LogHistory, message: String) -> (r: (Notice, Vec<LogEvent>))
    ensures
        final(history)@ == recorded(old(history)@, event_models(r.1@)),
        r.1@.len() == 1,
        describes(r.1@[0]@, LogLevel::Error, "settings"@, "failed to save: "@ + message@),
        is_error_notice(r.0, "Settings"@, message@),
{
    let mut events: Vec<LogEvent> = Vec::new();
    let ghost h0 = history@;
    let mut line = String::from_str("failed to save: ");
    line.append(message.as_str());
    log_to(history, &mut events, LogLevel::Error, "settings", line.as_str());
    proof {
        lemma_recorded_step(h0, Seq::empty(), events@);
        assert(event_models(Seq::<LogEvent>::empty()) =~= Seq::empty());
    }
    (error_notice("Settings", message), events)
}

/// What installing new settings did.
pub struct SettingsApplied<C> {
    /// The pipeline taken out to be dropped, where the change needs a restart.
    pub old_capture: Option<C>,
    /// Whether the change needs the pipeline rebuilt.
    pub restart: bool,
    /// Whether a pipeline was running before.
    pub was_running: bool,
}

/// Installs saved settings: where they change the pipeline, the running one is
/// taken out to be dropped; otherwise it keeps running (with new volumes).
pub fn apply_settings<C>(state: &mut DaemonState<C>, new_settings: CaptureSettings) -> (r: SettingsApplied<C>)
    ensures
        r.restart == restart_needed(old(state).settings@, new_settings@),
        r.was_running == old(state).capture is Some,
        r.restart ==> r.old_capture == old(state).capture && final(state).capture is None,
        !r.restart ==> r.old_capture is None && final(state).capture == old(state).capture,
        final(state).settings@ == new_settings@,
{
    let restart = should_restart_capture(&state.settings, &new_settings);
    let was_running = state.capture.is_some();
    let old_capture = if restart { state.capture.take() } else { None };
    state.settings = new_settings;
    SettingsApplied { old_capture, restart, was_running }
}

/// Whether the update restarts the pipeline: it needs a rebuild and one was running.
pub fn update_restarts<C>(applied: &SettingsApplied<C>) -> (r: bool)
    ensures
        r == (applied.restart && applied.was_running),
{
    applied.restart && applied.was_running
}

/// Reports the end of a settings update. Where the restart failed, the failure
/// is logged and reported as an error status and a `Settings` error; otherwise
/// the update is logged and reported, followed by `Running` where capture runs.
pub fn settings_update_done<C>(
    state: &mut DaemonState<C>,
    history: &mut LogHistory,
    restarted: Option<Result<C, String>>,
) -> (r: (Vec<Notice>, Vec<LogEvent>))
    ensures
        final(history)@ == recorded(old(history)@, event_models(r.1@)),
        final(state).settings == old(state).settings,
        r.1@.len() == 1,
        match restarted {
            Some(Err(m)) => {
                &&& final(state).capture == old(state).capture
                &&& describes(r.1@[0]@, LogLevel::Error, "settings"@, "restart failed: "@ + m@)
                &&& r.0@.len() == 2
                &&& is_status_notice(r.0@[0], CaptureStatus::Error, Some(m@))
                &&& is_error_notice(r.0@[1], "Settings"@, "settings saved, but capture could not restart"@)
            },
            _ => {
                &&& (match restarted { Some(Ok(c)) => final(state).capture == Some(c), _ => final(state).capture == old(state).capture })
                &&& describes(r.1@[0]@, LogLevel::Info, "settings"@, "updated settings"@)
                &&& r.0@.len() == if final(state).capture is Some { 2int } else { 1int }
                &&& r.0@[0] is SettingsUpdated
                &&& final(state).capture is Some ==> is_status_notice(r.0@[1], CaptureStatus::Running, None)
            },
        },
{
    let mut events: Vec<LogEvent> = Vec::new();
    let mut notices: Vec<Notice> = Vec::new();
    let ghost h0 = history@;
    match restarted {
        Some(Err(m)) => {
            let mut line = String::from_str("restart failed: ");
            line.append(m.as_str());
            log_to(history, &mut events, LogLevel::Error, "settings", line.as_str());
            notices.push(Notice::CaptureStatus { status: CaptureStatus::Error, message: Some(m) });
            notices.push(error_notice("Settings", String::from_str("settings saved, but capture could not restart")));
        },
        other => {
            match other {
                Some(Ok(c)) => {
                    state.capture = Some(c);
                },
                _ => {},
            }
            log_to(history, &mut events, LogLevel::Info, "settings", "updated settings");
            notices.push(Notice::SettingsUpdated);
            if state.capture.is_some() {
                notices.push(Notice::CaptureStatus { status: CaptureStatus::Running, message: None });
            }
        },
    }
    proof {
        lemma_recorded_step(h0, Seq::empty(), events@);
        assert(event_models(Seq::<LogEvent>::empty()) =~= Seq::empty());
    }
    (notices, events)
}


/// A settings update while the backend is unavailable, once the settings
/// were written or writing them failed: a failed write is logged and refused,
/// leaving the settings as they were; otherwise the new settings are in force,
/// which is logged and announced.
pub fn offline_update_done<C>(
    state: &mut DaemonState<C>,
    history: &mut LogHistory,
    new_settings: CaptureSettings,
    saved: Result<(), String>,
) -> (r: (Notice, Vec<LogEvent>))
    ensures
        final(history)@ == recorded(old(history)@, event_models(r.1@)),
        final(state).capture == old(state).capture,
        r.1@.len() == 1,
        match saved {
            Err(e) => {
                &&& final(state).settings == old(state).settings
                &&& describes(r.1@[0]@, LogLevel::Error, "settings"@, "failed to save: "@ + e@)
                &&& is_error_notice(r.0, "Settings"@, e@)
            },
            Ok(()) => {
                &&& final(state).settings@ == new_settings@
                &&& describes(r.1@[0]@, LogLevel::Info, "settings"@, "saved settings while backend is offline"@)
                &&& r.0 is SettingsUpdated
            },
        },
{
    match saved {
        Err(e) => settings_save_failed(history, e),
        Ok(()) => {
            state.settings = new_settings;
            let mut events: Vec<LogEvent> = Vec::new();
            let ghost h0 = history@;
            log_to(history, &mut events, LogLevel::Info, "settings", "saved settings while backend is offline");
            proof {
                lemma_recorded_step(h0, Seq::empty(), events@);
                assert(event_models(Seq::<LogEvent>::empty()) =~= Seq::empty());
            }
            (Notice::SettingsUpdated, events)
        },
    }
}

/// Where a settings update stands.
pub enum UpdatePhase {
    /// No update is under way.
    Idle,
    /// These settings were accepted and are being written.
    Saving(CaptureSettings),
    /// The new settings are in force; the volumes are being handed to the running pipeline.
    SettingVolumes,
    /// The new settings are in force; a pipeline is being started with them.
    Restarting,
}

/// A settings update, run one step at a time.
pub struct SettingsUpdate {
    pub phase: UpdatePhase,
}

/// What happened since the last step of a settings update.
pub enum UpdateEvent<C> {
    /// Update to `new_settings`; `validation` is their check against the devices and encoders.
    Begin { validation: Result<(), String>, new_settings: CaptureSettings },
    /// The accepted settings were written, or writing them failed.
    Saved(Result<(), String>),
    /// The new volumes were handed to the running pipeline.
    VolumesSet,
    /// A pipeline was started with the new settings, or starting it failed.
    Restarted(Result<C, String>),
}

/// What the program is to do next.
pub enum UpdateAction<C> {
    /// Write the accepted settings, then report `Saved`.
    Save,
    /// Hand the new volumes to the running pipeline, then report `VolumesSet`.
    SetVolumes,
    /// Stop this pipeline, start one with the new settings, then report `Restarted`.
    Restart(Option<C>),
    /// The update is over: stop this pipeline if there is one, and send the notices.
    Finish { old_capture: Option<C>, notices: Vec<Notice> },
}

/// Whether the event is the one the phase waits for.
pub open spec fn expects<C>(phase: UpdatePhase, event: UpdateEvent<C>) -> bool {
    match event {
        UpdateEvent::Begin { .. } => phase is Idle,
        UpdateEvent::Saved(_) => phase is Saving,
        UpdateEvent::VolumesSet => phase is SettingVolumes,
        UpdateEvent::Restarted(_) => phase is Restarting,
    }
}

/// Whether the action ends the update with no pipeline to stop and exactly this notice.
pub open spec fn finishes_with_error<C>(a: UpdateAction<C>, title: Seq<char>, message: Seq<char>) -> bool {
    a matches UpdateAction::Finish { old_capture, notices }
        && old_capture is None && notices@.len() == 1 && is_error_notice(notices@[0], title, message)
}

/// Whether the action ends an update that went through: no pipeline to stop,
/// a `SettingsUpdated` notice, then a running status where capture runs.
pub open spec fn finishes_updated<C>(a: UpdateAction<C>, running: bool) -> bool {
    a matches UpdateAction::Finish { old_capture, notices }
        && old_capture is None
        && notices@.len() == (if running { 2int } else { 1int })
        && notices@[0] is SettingsUpdated
        && (running ==> is_status_notice(notices@[1], CaptureStatus::Running, None))
}

impl SettingsUpdate {
    /// No update under way.
    pub fn new() -> (u: Self)
        ensures
            u.phase is Idle,
    {
        SettingsUpdate { phase: UpdatePhase::Idle }
    }

    /// One step of a settings update. New settings are checked first, and
    /// refused with a `Settings` error where they are invalid or their clip
    /// shortcut cannot be read. Accepted settings are written before anything
    /// else changes: the settings in force change only once the write
    /// succeeded, and a failed write is logged and refused. Then a change of
    /// what the pipeline is built from restarts a running pipeline; any other
    /// change only hands the volumes to it.
    pub fn step<C>(
        &mut self,
        state: &mut DaemonState<C>,
        history: &mut LogHistory,
        event: UpdateEvent<C>,
    ) -> (r: (UpdateAction<C>, Vec<LogEvent>))
        requires
            expects(old(self).phase, event),
        ensures
            final(history)@ == recorded(old(history)@, event_models(r.1@)),
            !(event matches UpdateEvent::Saved(Ok(()))) ==> final(state).settings == old(state).settings,
            match event {
                UpdateEvent::Begin { validation, new_settings } => {
                    let rejected = settings_rejection(
                        match validation { Ok(()) => Ok(()), Err(m) => Err(m@) },
                        hotkey_parse_error(new_settings.shortcuts.clip@),
                    );
                    &&& final(state).capture == old(state).capture
                    &&& r.1@.len() == 0
                    &&& match rejected {
                        Some(m) => final(self).phase is Idle && finishes_with_error(r.0, "Settings"@, m),
                        None => r.0 is Save && (final(self).phase matches UpdatePhase::Saving(s) && s@ == new_settings@),
                    }
                },
                UpdateEvent::Saved(Err(e)) => {
                    &&& final(state).capture == old(state).capture
                    &&& final(self).phase is Idle
                    &&& finishes_with_error(r.0, "Settings"@, e@)
                    &&& r.1@.len() == 1
                    &&& describes(r.1@[0]@, LogLevel::Error, "settings"@, "failed to save: "@ + e@)
                },
                UpdateEvent::Saved(Ok(())) => {
                    let new_settings = old(self).phase->Saving_0;
                    let restart = restart_needed(old(state).settings@, new_settings@);
                    &&& final(state).settings@ == new_settings@
                    &&& restart && old(state).capture is Some ==> {
                        &&& r.0 == UpdateAction::Restart(old(state).capture)
                        &&& final(state).capture is None
                        &&& final(self).phase is Restarting
                        &&& r.1@.len() == 0
                    }
                    &&& restart && old(state).capture is None ==> {
                        &&& finishes_updated(r.0, false)
                        &&& final(state).capture is None
                        &&& final(self).phase is Idle
                        &&& r.1@.len() == 1
                        &&& describes(r.1@[0]@, LogLevel::Info, "settings"@, "updated settings"@)
                    }
                    &&& !restart ==> {
                        &&& r.0 is SetVolumes
                        &&& final(state).capture == old(state).capture
                        &&& final(self).phase is SettingVolumes
                        &&& r.1@.len() == 0
                    }
                },
                UpdateEvent::VolumesSet => {
                    &&& final(state).capture == old(state).capture
                    &&& final(self).phase is Idle
                    &&& finishes_updated(r.0, old(state).capture is Some)
                    &&& r.1@.len() == 1
                    &&& describes(r.1@[0]@, LogLevel::Info, "settings"@, "updated settings"@)
                },
                UpdateEvent::Restarted(result) => {
                    &&& final(self).phase is Idle
                    &&& r.1@.len() == 1
                    &&& match result {
                        Ok(c) => {
                            &&& final(state).capture == Some(c)
                            &&& finishes_updated(r.0, true)
                            &&& describes(r.1@[0]@, LogLevel::Info, "settings"@, "updated settings"@)
                        },
                        Err(m) => {
                            &&& final(state).capture == old(state).capture
                            &&& describes(r.1@[0]@, LogLevel::Error, "settings"@, "restart failed: "@ + m@)
                            &&& r.0 matches UpdateAction::Finish { old_capture, notices }
                                && old_capture is None
                                && notices@.len() == 2
                                && is_status_notice(notices@[0], CaptureStatus::Error, Some(m@))
                                && is_error_notice(notices@[1], "Settings"@, "settings saved, but capture could not restart"@)
                        },
                    }
                },
            },
    {
        let no_events: Vec<LogEvent> = Vec::new();
        assert(event_models(no_events@) =~= Seq::empty());
        match event {
            UpdateEvent::Begin { validation, new_settings } => {
                match check_settings_update(validation, &new_settings) {
                    Err(notice) => {
                        let mut notices: Vec<Notice> = Vec::new();
                        notices.push(notice);
                        (UpdateAction::Finish { old_capture: None, notices }, no_events)
                    },
                    Ok(()) => {
                        self.phase = UpdatePhase::Saving(new_settings);
                        (UpdateAction::Save, no_events)
                    },
                }
            },
            UpdateEvent::Saved(saved) => {
                let mut phase = UpdatePhase::Idle;
                std::mem::swap(&mut phase, &mut self.phase);
                let new_settings = match phase {
                    UpdatePhase::Saving(s) => s,
                    _ => {
                        proof {
                            assert(false);
                        }
                        return (UpdateAction::Finish { old_capture: None, notices: Vec::new() }, no_events);
                    },
                };
                match saved {
                    Err(e) => {
                        let (notice, events) = settings_save_failed(history, e);
                        let mut notices: Vec<Notice> = Vec::new();
                        notices.push(notice);
                        (UpdateAction::Finish { old_capture: None, notices }, events)
                    },
                    Ok(()) => {
                        let applied = apply_settings(state, new_settings);
                        if update_restarts(&applied) {
                            self.phase = UpdatePhase::Restarting;
                            (UpdateAction::Restart(applied.old_capture), no_events)
                        } else if applied.restart {
                            let (notices, events) = settings_update_done(state, history, None);
                            (UpdateAction::Finish { old_capture: applied.old_capture, notices }, events)
                        } else {
                            self.phase = UpdatePhase::SettingVolumes;
                            (UpdateAction::SetVolumes, no_events)
                        }
                    },
                }
            },
            UpdateEvent::VolumesSet => {
                self.phase = UpdatePhase::Idle;
                let (notices, events) = settings_update_done(state, history, None);
                (UpdateAction::Finish { old_capture: None, notices }, events)
            },
            UpdateEvent::Restarted(result) => {
                self.phase = UpdatePhase::Idle;
                let (notices, events) = settings_update_done(state, history, Some(result));
                (UpdateAction::Finish { old_capture: None, notices }, events)
            },
        }
    }
}

/// The notice for an operation the unavailable backend cannot run.
pub fn backend_unavailable(reason: &Option<String>) -> (n: Notice)
    ensures
        is_error_notice(n, "Backend"@, unavailable_text(opt_view(*reason))),
{
    error_notice("Backend", unavailable_message(reason))
}

/// Reports the end of a clip request: a saved clip is logged with its path
/// and reported with its file name and duration; a failure is reported under `Clip`.
pub fn clip_done(
    history: &mut LogHistory,
    filename: String,
    path: &str,
    result: Result<RemuxResult, String>,
) -> (r: (Notice, Vec<LogEvent>))
    ensures
        final(history)@ == recorded(old(history)@, event_models(r.1@)),
        match result {
            Ok(res) => {
                &&& r.1@.len() == 1
                &&& describes(r.1@[0]@, LogLevel::Info, "capture"@, "clip saved to "@ + path@)
                &&& r.0 matches Notice::ClipFinished { filename: f, duration_ms: d } && f@ == filename@ && d == res.duration_ms
            },
            Err(m) => {
                &&& r.1@.len() == 0
                &&& is_error_notice(r.0, "Clip"@, m@)
            },
        },
{
    let mut events: Vec<LogEvent> = Vec::new();
    assert(event_models(events@) =~= Seq::empty());
    match result {
        Ok(res) => {
            let ghost h0 = history@;
            let mut line = String::from_str("clip saved to ");
            line.append(path);
            log_to(history, &mut events, LogLevel::Info, "capture", line.as_str());
            proof {
                lemma_recorded_step(h0, Seq::empty(), events@);
            }
            (Notice::ClipFinished { filename, duration_ms: res.duration_ms }, events)
        },
        Err(m) => (error_notice("Clip", m), events),
    }
}

} // verus!
