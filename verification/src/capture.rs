use vstd::prelude::*;
use crate::settings::{CaptureSettings, CaptureSettingsModel, mic_selected, has_mic};
use crate::text::opt_view;
use crate::logger::{LogEvent, LogHistory, LogLevel, describes, event_models, log_to, recorded, lemma_recorded_step};

verus! {

/// Why capture could not be planned or started.
#[derive(Clone, Copy, PartialEq, Eq, Structural, Debug)]
pub enum CaptureError {
    /// A microphone id is set but empty.
    EmptyMicrophoneId,
    /// The selected video encoder is not among the available ones.
    EncoderUnavailable,
    /// The selected encoder needs D3D12 memory, which the pipeline cannot feed.
    D3D12Unsupported,
    /// System audio is enabled but no output device was found.
    NoOutputDevice,
    /// The selected microphone was not found.
    MicrophoneUnavailable,
    /// Every start attempt failed without a more precise error.
    StartFailed,
}

/// The kind of I/O error a capture error is reported as.
#[derive(Clone, Copy, PartialEq, Eq, Structural, Debug)]
pub enum ErrorKind {
    InvalidInput,
    NotFound,
    Other,
}

/// The text of each capture error.
pub open spec fn error_text(e: CaptureError) -> Seq<char> {
    match e {
        CaptureError::EmptyMicrophoneId => "microphone device id is empty"@,
        CaptureError::EncoderUnavailable => "selected encoder not available"@,
        CaptureError::D3D12Unsupported => "D3D12 encoders are not supported"@,
        CaptureError::NoOutputDevice => "no output audio device available"@,
        CaptureError::MicrophoneUnavailable => "selected microphone device not available"@,
        CaptureError::StartFailed => "failed to start GStreamer pipeline"@,
    }
}

impl CaptureError {
    /// The message the error is reported with.
    pub fn message(&self) -> (m: String)
        ensures
            m@ == error_text(*self),
    {
        match self {
            CaptureError::EmptyMicrophoneId => String::from_str("microphone device id is empty"),
            CaptureError::EncoderUnavailable => String::from_str("selected encoder not available"),
            CaptureError::D3D12Unsupported => String::from_str("D3D12 encoders are not supported"),
            CaptureError::NoOutputDevice => String::from_str("no output audio device available"),
            CaptureError::MicrophoneUnavailable => String::from_str("selected microphone device not available"),
            CaptureError::StartFailed => String::from_str("failed to start GStreamer pipeline"),
        }
    }

    /// The kind of I/O error this is reported as.
    pub fn kind(&self) -> (k: ErrorKind)
        ensures
            k == (match *self {
                CaptureError::EmptyMicrophoneId => ErrorKind::InvalidInput,
                CaptureError::NoOutputDevice | CaptureError::MicrophoneUnavailable => ErrorKind::NotFound,
                _ => ErrorKind::Other,
            }),
    {
        match self {
            CaptureError::EmptyMicrophoneId => ErrorKind::InvalidInput,
            CaptureError::NoOutputDevice | CaptureError::MicrophoneUnavailable => ErrorKind::NotFound,
            _ => ErrorKind::Other,
        }
    }
}

/// Rejects settings whose microphone id is set but empty.
pub fn validate_config(config: &CaptureSettings) -> (r: Result<(), CaptureError>)
    ensures
        r is Err <==> (config@.mic_device_id is Some && config@.mic_device_id->0.len() == 0),
        r is Err ==> r == Err::<(), CaptureError>(CaptureError::EmptyMicrophoneId),
{
    match &config.mic_device_id {
        Some(id) => {
            if id.as_str().unicode_len() == 0 {
                Err(CaptureError::EmptyMicrophoneId)
            } else {
                Ok(())
            }
        },
        None => Ok(()),
    }
}

/// Which audio caps the pipeline asks the sources for.
#[derive(Clone, Copy, PartialEq, Eq, Structural, Debug)]
pub enum CapsPolicy {
    /// The preferred caps.
    Default,
    /// Caps that devices accept more widely.
    SafeFallback,
}

/// One way of starting the pipeline: a caps policy, and whether to leave
/// the system audio or the microphone out.
#[derive(Clone, Copy, Debug)]
pub struct CaptureAttempt {
    pub policy: CapsPolicy,
    pub disable_system: bool,
    pub disable_mic: bool,
    pub label: &'static str,
}

/// What an attempt is: its policy, what it leaves out, and its label.
pub open spec fn attempt_is(a: CaptureAttempt, policy: CapsPolicy, disable_system: bool, disable_mic: bool, label: Seq<char>) -> bool {
    a.policy == policy && a.disable_system == disable_system && a.disable_mic == disable_mic && a.label@ == label
}

/// The attempts made, in order: default caps, fallback caps, fallback caps
/// without the microphone (where one is selected), fallback caps without
/// system audio (where it is enabled).
pub open spec fn attempts_for(c: CaptureSettingsModel, a: Seq<CaptureAttempt>) -> bool {
    let with_mic: int = if mic_selected(c) { 1 } else { 0 };
    let with_system: int = if c.system_audio_enabled { 1 } else { 0 };
    &&& a.len() == 2 + with_mic + with_system
    &&& attempt_is(a[0], CapsPolicy::Default, false, false, "default caps"@)
    &&& attempt_is(a[1], CapsPolicy::SafeFallback, false, false, "fallback caps"@)
    &&& mic_selected(c) ==> attempt_is(a[2], CapsPolicy::SafeFallback, false, true, "fallback caps (mic disabled)"@)
    &&& c.system_audio_enabled ==> attempt_is(a[2 + with_mic], CapsPolicy::SafeFallback, true, false,
        "fallback caps (system disabled)"@)
}

/// The start attempts for the settings, in the order they are tried.
pub fn capture_attempts(config: &CaptureSettings) -> (attempts: Vec<CaptureAttempt>)
    ensures
        attempts_for(config@, attempts@),
{
    let mut attempts: Vec<CaptureAttempt> = Vec::new();
    attempts.push(CaptureAttempt { policy: CapsPolicy::Default, disable_system: false, disable_mic: false, label: "default caps" });
    attempts.push(CaptureAttempt { policy: CapsPolicy::SafeFallback, disable_system: false, disable_mic: false, label: "fallback caps" });
    if has_mic(config) {
        attempts.push(CaptureAttempt {
            policy: CapsPolicy::SafeFallback,
            disable_system: false,
            disable_mic: true,
            label: "fallback caps (mic disabled)",
        });
    }
    if config.system_audio_enabled {
        attempts.push(CaptureAttempt {
            policy: CapsPolicy::SafeFallback,
            disable_system: true,
            disable_mic: false,
            label: "fallback caps (system disabled)",
        });
    }
    attempts
}

/// The settings an attempt starts the pipeline with.
pub open spec fn attempt_model(c: CaptureSettingsModel, a: CaptureAttempt) -> CaptureSettingsModel {
    CaptureSettingsModel {
        system_audio_enabled: if a.disable_system { false } else { c.system_audio_enabled },
        mic_device_id: if a.disable_mic { None } else { c.mic_device_id },
        ..c
    }
}

/// The settings an attempt starts the pipeline with.
pub fn attempt_settings(config: &CaptureSettings, attempt: &CaptureAttempt) -> (s: CaptureSettings)
    ensures
        s@ == attempt_model(config@, *attempt),
{
    let mut s = config.clone();
    if attempt.disable_system {
        s.system_audio_enabled = false;
    }
    if attempt.disable_mic {
        s.mic_device_id = None;
    }
    s
}

/// Law: no attempt turns on an audio source that the settings leave off, and
/// every attempt keeps the video settings and the clip settings.
pub proof fn law_attempts_only_remove_sources(config: CaptureSettings, attempts: Seq<CaptureAttempt>, i: int)
    requires
        attempts_for(config@, attempts),
        0 <= i < attempts.len(),
    ensures
        ({
            let s = attempt_model(config@, attempts[i]);
            &&& s.system_audio_enabled ==> config@.system_audio_enabled
            &&& s.mic_device_id is Some ==> s.mic_device_id == config@.mic_device_id
            &&& s.video_device_id == config@.video_device_id
            &&& s.video_encoder_id == config@.video_encoder_id
            &&& s.framerate == config@.framerate
            &&& s.bitrate_kbps == config@.bitrate_kbps
            &&& s.clips_dir == config@.clips_dir
        }),
{
}

/// Law: the first attempt uses the settings unchanged.
pub proof fn law_first_attempt_is_unchanged(config: CaptureSettings, attempts: Seq<CaptureAttempt>)
    requires
        attempts_for(config@, attempts),
    ensures
        attempt_model(config@, attempts[0]) == config@,
{
}

/// Where a run of start attempts stands: the attempts, the next one to make,
/// and the error of the last one that failed.
pub struct AttemptRun<E> {
    pub attempts: Vec<CaptureAttempt>,
    pub next: usize,
    pub last_error: Option<E>,
}

/// What happened since the last step of a run.
pub enum AttemptOutcome<E> {
    /// The run begins.
    Begin,
    /// The attempt handed out by `Try` started the pipeline.
    Started,
    /// The attempt handed out by `Try` failed with this error and message.
    Failed(E, String),
}

/// What the program is to do next.
pub enum AttemptAction<E> {
    /// Start the pipeline as this attempt says, then report the outcome.
    Try(CaptureAttempt),
    /// The pipeline runs.
    Done,
    /// Every attempt failed: report this error, that of the last attempt
    /// (none where no attempt was made, which is reported as `StartFailed`).
    GiveUp(Option<E>),
}

impl<E> AttemptRun<E> {
    /// A run over the start attempts for these settings.
    pub fn new(config: &CaptureSettings) -> (r: Self)
        ensures
            attempts_for(config@, r.attempts@),
            r.next == 0,
            r.last_error is None,
    {
        AttemptRun { attempts: capture_attempts(config), next: 0, last_error: None }
    }

    /// One step of a run. A failure is logged from `audio` as a warning and
    /// kept as the last error; then the next attempt is logged and handed out,
    /// or, where none is left, the run gives up with the last error. A start
    /// ends the run.
    pub fn step(&mut self, history: &mut LogHistory, outcome: AttemptOutcome<E>) -> (r: (AttemptAction<E>, Vec<LogEvent>))
        requires
            old(self).next <= old(self).attempts@.len(),
        ensures
            final(history)@ == recorded(old(history)@, event_models(r.1@)),
            final(self).attempts@ == old(self).attempts@,
            final(self).next <= final(self).attempts@.len(),
            match outcome {
                AttemptOutcome::Started => {
                    &&& r.0 is Done
                    &&& r.1@.len() == 0
                    &&& final(self).next == old(self).next
                },
                _ => {
                    let failed: int = if outcome is Failed { 1 } else { 0 };
                    let last = match outcome {
                        AttemptOutcome::Failed(e, _) => Some(e),
                        _ => old(self).last_error,
                    };
                    &&& outcome matches AttemptOutcome::Failed(_, m)
                        ==> describes(r.1@[0]@, LogLevel::Warning, "audio"@, "capture attempt failed: "@ + m@)
                    &&& old(self).next < old(self).attempts@.len() ==> {
                        let a = old(self).attempts@[old(self).next as int];
                        &&& r.0 == AttemptAction::<E>::Try(a)
                        &&& final(self).next == old(self).next + 1
                        &&& final(self).last_error == last
                        &&& r.1@.len() == failed + 1
                        &&& describes(r.1@[failed]@, LogLevel::Info, "audio"@, "capture attempt: "@ + a.label@)
                    }
                    &&& old(self).next == old(self).attempts@.len() ==> {
                        &&& r.0 == AttemptAction::<E>::GiveUp(last)
                        &&& final(self).next == old(self).next
                        &&& r.1@.len() == failed
                    }
                },
            },
    {
        let mut events: Vec<LogEvent> = Vec::new();
        let ghost h0 = history@;
        assert(event_models(events@) =~= Seq::empty());
        match outcome {
            AttemptOutcome::Started => {
                return (AttemptAction::Done, events);
            },
            AttemptOutcome::Failed(e, m) => {
                let mut line = String::from_str("capture attempt failed: ");
                line.append(m.as_str());
                log_to(history, &mut events, LogLevel::Warning, "audio", line.as_str());
                proof {
                    lemma_recorded_step(h0, Seq::empty(), events@);
                }
                self.last_error = Some(e);
            },
            AttemptOutcome::Begin => {},
        }
        if self.next < self.attempts.len() {
            let a = self.attempts[self.next];
            let ghost before = events@;
            let mut line = String::from_str("capture attempt: ");
            line.append(a.label);
            log_to(history, &mut events, LogLevel::Info, "audio", line.as_str());
            proof {
                lemma_recorded_step(h0, before, events@);
            }
            self.next = self.next + 1;
            (AttemptAction::Try(a), events)
        } else {
            let last = self.last_error.take();
            (AttemptAction::GiveUp(last), events)
        }
    }
}

/// The lifecycle state of a capture pipeline.
pub enum CaptureState {
    Starting,
    Running,
    Failed(String),
    Stopped,
}

/// Whether the pipeline is running.
pub fn is_running(state: &CaptureState) -> (r: bool)
    ensures
        r == (*state is Running),
{
    match state {
        CaptureState::Running => true,
        _ => false,
    }
}

/// Whether stopping has anything left to do: the pipeline is not stopped yet.
pub fn needs_stop(state: &CaptureState) -> (r: bool)
    ensures
        r == !(*state is Stopped),
{
    match state {
        CaptureState::Stopped => false,
        _ => true,
    }
}


/// Whether stopping a capture in this state has anything to do.
pub open spec fn stop_needed(state: CaptureState) -> bool {
    !(state is Stopped)
}

/// The first step of stopping a capture: nothing where it is stopped already;
/// otherwise the stop is logged and the program tears the pipeline down
/// (callbacks removed, threads joined), then sets the state to `Stopped`
/// with `change_state`.
pub fn begin_stop(state: &CaptureState, history: &mut LogHistory) -> (r: (bool, Vec<LogEvent>))
    ensures
        final(history)@ == recorded(old(history)@, event_models(r.1@)),
        r.0 == stop_needed(*state),
        r.1@.len() == if r.0 { 1int } else { 0int },
        r.0 ==> describes(r.1@[0]@, LogLevel::Info, "capture"@, "stopping pipeline"@),
{
    let mut events: Vec<LogEvent> = Vec::new();
    assert(event_models(events@) =~= Seq::empty());
    if !needs_stop(state) {
        return (false, events);
    }
    let ghost h0 = history@;
    log_to(history, &mut events, LogLevel::Info, "capture", "stopping pipeline");
    proof {
        lemma_recorded_step(h0, Seq::empty(), events@);
    }
    (true, events)
}

/// What `format!("{:?}", s)` writes for a string: `str`'s `Debug` rendering,
/// quoted and escaped.
pub uninterp spec fn debug_text_of(s: Seq<char>) -> Seq<char>;

/// A string in its `Debug` rendering (`<str as Debug>::fmt` through `format!`).
/// The result depends only on the string.
#[verifier::external_body]
fn debug_text(s: &str) -> (r: String)
    ensures
        r@ == debug_text_of(s@),
{
    format!("{:?}", s)
}

/// How a state is written in the log: the variant's name, with the failure
/// message in its `Debug` rendering.
pub open spec fn state_text(state: CaptureState) -> Seq<char> {
    match state {
        CaptureState::Starting => "Starting"@,
        CaptureState::Running => "Running"@,
        CaptureState::Failed(m) => "Failed("@ + debug_text_of(m@) + ")"@,
        CaptureState::Stopped => "Stopped"@,
    }
}

fn push_state_text(out: &mut String, state: &CaptureState)
    ensures
        final(out)@ == old(out)@ + state_text(*state),
{
    match state {
        CaptureState::Starting => out.append("Starting"),
        CaptureState::Running => out.append("Running"),
        CaptureState::Failed(m) => {
            out.append("Failed(");
            let d = debug_text(m.as_str());
            out.append(d.as_str());
            out.append(")");
        },
        CaptureState::Stopped => out.append("Stopped"),
    }
    assert(final(out)@ =~= old(out)@ + state_text(*state));
}

/// Moves a capture to a new state and logs the change from `capture` as
/// `state: <old> -> <new>`.
pub fn change_state(state: &mut CaptureState, history: &mut LogHistory, new_state: CaptureState) -> (events: Vec<LogEvent>)
    ensures
        *final(state) == new_state,
        final(history)@ == recorded(old(history)@, event_models(events@)),
        events@.len() == 1,
        describes(events@[0]@, LogLevel::Info, "capture"@,
            "state: "@ + state_text(*old(state)) + " -> "@ + state_text(new_state)),
{
    let mut line = String::from_str("state: ");
    push_state_text(&mut line, state);
    line.append(" -> ");
    push_state_text(&mut line, &new_state);
    let mut events: Vec<LogEvent> = Vec::new();
    let ghost h0 = history@;
    log_to(history, &mut events, LogLevel::Info, "capture", line.as_str());
    proof {
        lemma_recorded_step(h0, Seq::empty(), events@);
        assert(event_models(Seq::<LogEvent>::empty()) =~= Seq::empty());
    }
    *state = new_state;
    events
}

/// Law: a stop ends in `Stopped` (the state `change_state` sets), which is not
/// running, and stopping a stopped capture again does nothing: `begin_stop`
/// then reports nothing to do and logs nothing, so the pipeline is not torn
/// down twice.
pub proof fn law_stopped_capture_stays_stopped()
    ensures
        !(CaptureState::Stopped is Running),
        !stop_needed(CaptureState::Stopped),
        forall|s: CaptureState| !(s is Stopped) ==> #[trigger] stop_needed(s),
{
}

/// A message read from the pipeline bus, reduced to what the capture reacts to.
pub enum BusMessage {
    Error { source_path: Option<String>, error: String, debug: Option<String> },
    Warning { source_path: Option<String>, error: String, debug: Option<String> },
    StateChanged { from_pipeline: bool, old_state: String, new_state: String },
    Eos,
    Other,
}

/// How the bus watcher reacts to a message.
pub struct BusReaction {
    /// Log events to deliver.
    pub events: Vec<LogEvent>,
    /// The capture state to set, if it changes.
    pub new_state: Option<CaptureState>,
    /// Whether appsink callbacks are to be blocked.
    pub block_callbacks: bool,
    /// Whether the stop flag is to be raised.
    pub request_stop: bool,
    /// Whether the watcher stops reading the bus.
    pub exit_loop: bool,
}

/// `<kind> from <source>: <error>`, with `unknown` for a missing source.
pub open spec fn from_line(kind: Seq<char>, source: Option<Seq<char>>, error: Seq<char>) -> Seq<char> {
    kind + " from "@ + (match source { Some(s) => s, None => "unknown"@ }) + ": "@ + error
}

fn from_message(kind: &str, source: &Option<String>, error: &String) -> (m: String)
    ensures
        m@ == from_line(kind@, opt_view(*source), error@),
{
    let mut m = String::from_str(kind);
    m.append(" from ");
    match source {
        Some(s) => m.append(s.as_str()),
        None => m.append("unknown"),
    }
    m.append(": ");
    m.append(error.as_str());
    m
}

fn debug_message(debug: &String) -> (m: String)
    ensures
        m@ == "debug: "@ + debug@,
{
    let mut m = String::from_str("debug: ");
    m.append(debug.as_str());
    m
}

/// The events logged for an error or warning: the line itself, then its debug detail if any.
pub open spec fn problem_logged(
    events: Seq<LogEvent>,
    level: LogLevel,
    kind: Seq<char>,
    source: Option<String>,
    error: String,
    debug: Option<String>,
) -> bool {
    &&& events.len() == if debug is Some { 2int } else { 1int }
    &&& describes(events[0]@, level, "gst"@, from_line(kind, opt_view(source), error@))
    &&& debug is Some ==> describes(events[1]@, LogLevel::Debug, "gst"@, "debug: "@ + debug->0@)
}

fn log_problem(
    history: &mut LogHistory,
    level: LogLevel,
    kind: &str,
    source: &Option<String>,
    error: &String,
    debug: &Option<String>,
) -> (events: Vec<LogEvent>)
    ensures
        final(history)@ == recorded(old(history)@, event_models(events@)),
        problem_logged(events@, level, kind@, *source, *error, *debug),
{
    let mut events: Vec<LogEvent> = Vec::new();
    let ghost h0 = history@;
    let line = from_message(kind, source, error);
    log_to(history, &mut events, level, "gst", line.as_str());
    proof {
        lemma_recorded_step(h0, Seq::empty(), events@);
        assert(event_models(Seq::<LogEvent>::empty()) =~= Seq::empty());
    }
    match debug {
        Some(d) => {
            let ghost before = events@;
            let dm = debug_message(d);
            log_to(history, &mut events, LogLevel::Debug, "gst", dm.as_str());
            proof {
                lemma_recorded_step(h0, before, events@);
                assert(events@[0] == before[0]);
            }
        },
        None => {},
    }
    events
}

/// The bus watcher's reaction to one message. An error fails the capture with
/// the error's text, blocks callbacks, raises the stop flag and ends the watch;
/// a warning is logged; a state change of the pipeline itself is logged; end
/// of stream fails the capture with `eos` and ends the watch.
pub fn on_bus_message(history: &mut LogHistory, msg: &BusMessage) -> (r: BusReaction)
    ensures
        final(history)@ == recorded(old(history)@, event_models(r.events@)),
        match *msg {
            BusMessage::Error { source_path, error, debug } => {
                &&& problem_logged(r.events@, LogLevel::Error, "error"@, source_path, error, debug)
                &&& r.new_state matches Some(CaptureState::Failed(t)) && t@ == error@
                &&& r.block_callbacks && r.request_stop && r.exit_loop
            },
            BusMessage::Warning { source_path, error, debug } => {
                &&& problem_logged(r.events@, LogLevel::Warning, "warning"@, source_path, error, debug)
                &&& r.new_state is None
                &&& !r.block_callbacks && !r.request_stop && !r.exit_loop
            },
            BusMessage::StateChanged { from_pipeline, old_state, new_state } => {
                &&& r.events@.len() == if from_pipeline { 1int } else { 0int }
                &&& from_pipeline ==> describes(r.events@[0]@, LogLevel::Info, "gst"@,
                    "pipeline state: "@ + old_state@ + " -> "@ + new_state@)
                &&& r.new_state is None
                &&& !r.block_callbacks && !r.request_stop && !r.exit_loop
            },
            BusMessage::Eos => {
                &&& r.events@.len() == 1
                &&& describes(r.events@[0]@, LogLevel::Error, "gst"@, "eos"@)
                &&& r.new_state matches Some(CaptureState::Failed(t)) && t@ == "eos"@
                &&& !r.block_callbacks && !r.request_stop && r.exit_loop
            },
            BusMessage::Other => {
                &&& r.events@.len() == 0
                &&& r.new_state is None
                &&& !r.block_callbacks && !r.request_stop && !r.exit_loop
            },
        },
{
    match msg {
        BusMessage::Error { source_path, error, debug } => {
            let events = log_problem(history, LogLevel::Error, "error", source_path, error, debug);
            BusReaction {
                events,
                new_state: Some(CaptureState::Failed(error.clone())),
                block_callbacks: true,
                request_stop: true,
                exit_loop: true,
            }
        },
        BusMessage::Warning { source_path, error, debug } => {
            let events = log_problem(history, LogLevel::Warning, "warning", source_path, error, debug);
            BusReaction { events, new_state: None, block_callbacks: false, request_stop: false, exit_loop: false }
        },
        BusMessage::StateChanged { from_pipeline, old_state, new_state } => {
            let mut events: Vec<LogEvent> = Vec::new();
            if *from_pipeline {
                let ghost h0 = history@;
                let mut line = String::from_str("pipeline state: ");
                line.append(old_state.as_str());
                line.append(" -> ");
                line.append(new_state.as_str());
                log_to(history, &mut events, LogLevel::Info, "gst", line.as_str());
                proof {
                    lemma_recorded_step(h0, Seq::empty(), events@);
                    assert(event_models(Seq::<LogEvent>::empty()) =~= Seq::empty());
                }
            } else {
                assert(event_models(events@) =~= Seq::empty());
            }
            BusReaction { events, new_state: None, block_callbacks: false, request_stop: false, exit_loop: false }
        },
        BusMessage::Eos => {
            let mut events: Vec<LogEvent> = Vec::new();
            let ghost h0 = history@;
            log_to(history, &mut events, LogLevel::Error, "gst", "eos");
            proof {
                lemma_recorded_step(h0, Seq::empty(), events@);
                assert(event_models(Seq::<LogEvent>::empty()) =~= Seq::empty());
            }
            BusReaction {
                events,
                new_state: Some(CaptureState::Failed(String::from_str("eos"))),
                block_callbacks: false,
                request_stop: false,
                exit_loop: true,
            }
        },
        BusMessage::Other => {
            let events: Vec<LogEvent> = Vec::new();
            assert(event_models(events@) =~= Seq::empty());
            BusReaction { events, new_state: None, block_callbacks: false, request_stop: false, exit_loop: false }
        },
    }
}

} // verus!
