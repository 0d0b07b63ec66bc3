use vstd::prelude::*;
use crate::backend::CaptureStatus;
use crate::logger::{LogEvent, LogHistory, LogLevel, describes, event_models, log_to, recorded, lemma_recorded_step};
use crate::remux::RemuxResult;
use crate::runtime::DaemonState;
use crate::backend::apply_settings;
use crate::settings::{CaptureSettings, restart_needed};
use crate::text::opt_view;

verus! {

// The decisions behind the commands of the desktop shell: what each command
// answers, which capture status it reports and what it logs. The shell runs
// the pipeline, the file system and the event emission around them.

/// The name under which the shell reports a capture status.
pub open spec fn status_name_spec(status: CaptureStatus) -> Seq<char> {
    match status {
        CaptureStatus::Running => "running"@,
        CaptureStatus::Stopped => "stopped"@,
        CaptureStatus::Error => "error"@,
    }
}

/// The name under which the shell reports a capture status.
pub fn status_name(status: CaptureStatus) -> (s: &'static str)
    ensures
        s@ == status_name_spec(status),
{
    match status {
        CaptureStatus::Running => "running",
        CaptureStatus::Stopped => "stopped",
        CaptureStatus::Error => "error",
    }
}

/// A capture status for the shell to report, with its message.
pub struct StatusReport {
    pub status: CaptureStatus,
    pub message: Option<String>,
}

/// Whether a report is this status with this message.
pub open spec fn reports(r: StatusReport, status: CaptureStatus, message: Option<Seq<char>>) -> bool {
    r.status == status && opt_view(r.message) == message
}

/// What a command answers, the status it reports (if any) and the log events
/// to deliver.
pub struct CommandOutcome {
    pub reply: Result<(), String>,
    pub report: Option<StatusReport>,
    pub events: Vec<LogEvent>,
}

/// Whether a reply is `Ok`, or an error with this message.
pub open spec fn replies(reply: Result<(), String>, error: Option<Seq<char>>) -> bool {
    match error {
        None => reply is Ok,
        Some(m) => reply matches Err(e) && e@ == m,
    }
}

/// `start_capture` refuses to start a second pipeline.
pub fn start_command_check<C>(state: &DaemonState<C>) -> (r: Result<(), String>)
    ensures
        r is Err <==> state.capture is Some,
        r matches Err(m) ==> m@ == "capture already running"@,
{
    if state.capture.is_some() {
        Err(String::from_str("capture already running"))
    } else {
        Ok(())
    }
}

/// Records the outcome of starting a pipeline: a started pipeline becomes the
/// capture and is reported running; a failure is logged from `capture` as
/// `<prefix><message>`, reported as an error and answered with the message.
fn pipeline_started<C>(
    state: &mut DaemonState<C>,
    history: &mut LogHistory,
    started: Result<C, String>,
    prefix: &str,
) -> (o: CommandOutcome)
    ensures
        final(history)@ == recorded(old(history)@, event_models(o.events@)),
        final(state).settings == old(state).settings,
        o.report is Some,
        match started {
            Ok(c) => {
                &&& final(state).capture == Some(c)
                &&& o.reply is Ok
                &&& reports(o.report->0, CaptureStatus::Running, None)
                &&& o.events@.len() == 0
            },
            Err(m) => {
                &&& final(state).capture == old(state).capture
                &&& replies(o.reply, Some(m@))
                &&& reports(o.report->0, CaptureStatus::Error, Some(m@))
                &&& o.events@.len() == 1
                &&& describes(o.events@[0]@, LogLevel::Error, "capture"@, prefix@ + m@)
            },
        },
{
    let mut events: Vec<LogEvent> = Vec::new();
    assert(event_models(events@) =~= Seq::empty());
    match started {
        Ok(c) => {
            state.capture = Some(c);
            CommandOutcome {
                reply: Ok(()),
                report: Some(StatusReport { status: CaptureStatus::Running, message: None }),
                events,
            }
        },
        Err(m) => {
            let ghost h0 = history@;
            let mut line = String::from_str(prefix);
            line.append(m.as_str());
            log_to(history, &mut events, LogLevel::Error, "capture", line.as_str());
            proof {
                lemma_recorded_step(h0, Seq::empty(), events@);
            }
            let reply = Err(m.clone());
            CommandOutcome {
                reply,
                report: Some(StatusReport { status: CaptureStatus::Error, message: Some(m) }),
                events,
            }
        },
    }
}

/// `start_capture`, once a pipeline was started or failed to start (after
/// `start_command_check` let it go on and the buffer was cleared).
pub fn start_command_done<C>(
    state: &mut DaemonState<C>,
    history: &mut LogHistory,
    started: Result<C, String>,
) -> (o: CommandOutcome)
    ensures
        final(history)@ == recorded(old(history)@, event_models(o.events@)),
        final(state).settings == old(state).settings,
        o.report is Some,
        match started {
            Ok(c) => {
                &&& final(state).capture == Some(c)
                &&& o.reply is Ok
                &&& reports(o.report->0, CaptureStatus::Running, None)
                &&& o.events@.len() == 0
            },
            Err(m) => {
                &&& final(state).capture == old(state).capture
                &&& replies(o.reply, Some(m@))
                &&& reports(o.report->0, CaptureStatus::Error, Some(m@))
                &&& o.events@.len() == 1
                &&& describes(o.events@[0]@, LogLevel::Error, "capture"@, "start failed: "@ + m@)
            },
        },
{
    pipeline_started(state, history, started, "start failed: ")
}

/// `restart_capture`, first step: takes the running pipeline out, for the
/// shell to stop before it clears the buffer, and logs that it is stopped.
pub fn restart_command_take<C>(state: &mut DaemonState<C>, history: &mut LogHistory) -> (r: (Option<C>, Vec<LogEvent>))
    ensures
        final(history)@ == recorded(old(history)@, event_models(r.1@)),
        r.0 == old(state).capture,
        final(state).capture is None,
        final(state).settings == old(state).settings,
        r.1@.len() == if old(state).capture is Some { 1int } else { 0int },
        old(state).capture is Some ==> describes(r.1@[0]@, LogLevel::Info, "capture"@, "stopping existing pipeline"@),
{
    let mut events: Vec<LogEvent> = Vec::new();
    assert(event_models(events@) =~= Seq::empty());
    let old_capture = state.capture.take();
    if old_capture.is_some() {
        let ghost h0 = history@;
        log_to(history, &mut events, LogLevel::Info, "capture", "stopping existing pipeline");
        proof {
            lemma_recorded_step(h0, Seq::empty(), events@);
        }
    }
    (old_capture, events)
}

/// `restart_capture`, once the new pipeline was started or failed to start.
pub fn restart_command_done<C>(
    state: &mut DaemonState<C>,
    history: &mut LogHistory,
    started: Result<C, String>,
) -> (o: CommandOutcome)
    ensures
        final(history)@ == recorded(old(history)@, event_models(o.events@)),
        final(state).settings == old(state).settings,
        o.report is Some,
        match started {
            Ok(c) => {
                &&& final(state).capture == Some(c)
                &&& o.reply is Ok
                &&& reports(o.report->0, CaptureStatus::Running, None)
                &&& o.events@.len() == 0
            },
            Err(m) => {
                &&& final(state).capture == old(state).capture
                &&& replies(o.reply, Some(m@))
                &&& reports(o.report->0, CaptureStatus::Error, Some(m@))
                &&& o.events@.len() == 1
                &&& describes(o.events@[0]@, LogLevel::Error, "capture"@, "restart failed: "@ + m@)
            },
        },
{
    pipeline_started(state, history, started, "restart failed: ")
}

/// The shell's start-up, once the first pipeline was started or failed to start.
pub fn startup_done<C>(
    state: &mut DaemonState<C>,
    history: &mut LogHistory,
    started: Result<C, String>,
) -> (r: (StatusReport, Vec<LogEvent>))
    ensures
        final(history)@ == recorded(old(history)@, event_models(r.1@)),
        final(state).settings == old(state).settings,
        match started {
            Ok(c) => {
                &&& final(state).capture == Some(c)
                &&& reports(r.0, CaptureStatus::Running, None)
                &&& r.1@.len() == 0
            },
            Err(m) => {
                &&& final(state).capture == old(state).capture
                &&& reports(r.0, CaptureStatus::Error, Some(m@))
                &&& r.1@.len() == 1
                &&& describes(r.1@[0]@, LogLevel::Error, "capture"@, "startup failed: "@ + m@)
            },
        },
{
    let o = pipeline_started(state, history, started, "startup failed: ");
    match o.report {
        Some(report) => (report, o.events),
        None => (StatusReport { status: CaptureStatus::Error, message: None }, o.events),
    }
}

/// `update_settings`, first step: refuses the settings where the encoders
/// could not be listed (logged) or the settings are invalid (not logged).
pub fn settings_command_check(
    history: &mut LogHistory,
    encoders: Result<(), String>,
    validation: Result<(), String>,
) -> (r: (Result<(), String>, Vec<LogEvent>))
    ensures
        final(history)@ == recorded(old(history)@, event_models(r.1@)),
        match encoders {
            Err(e) => {
                &&& replies(r.0, Some(e@))
                &&& r.1@.len() == 1
                &&& describes(r.1@[0]@, LogLevel::Error, "settings"@, "failed to list encoders: "@ + e@)
            },
            Ok(()) => {
                &&& r.1@.len() == 0
                &&& match validation {
                    Err(m) => replies(r.0, Some(m@)),
                    Ok(()) => r.0 is Ok,
                }
            },
        },
{
    let mut events: Vec<LogEvent> = Vec::new();
    assert(event_models(events@) =~= Seq::empty());
    match encoders {
        Err(e) => {
            let ghost h0 = history@;
            let mut line = String::from_str("failed to list encoders: ");
            line.append(e.as_str());
            log_to(history, &mut events, LogLevel::Error, "settings", line.as_str());
            proof {
                lemma_recorded_step(h0, Seq::empty(), events@);
            }
            (Err(e), events)
        },
        Ok(()) => (validation, events),
    }
}

/// `update_settings`, once the new settings are in force and were written:
/// a failed write is logged and answered with its message; otherwise, where
/// the pipeline is to be restarted, the stop of the old one is logged.
pub fn settings_command_saved(
    history: &mut LogHistory,
    saved: Result<(), String>,
    restart: bool,
) -> (r: (Result<(), String>, Vec<LogEvent>))
    ensures
        final(history)@ == recorded(old(history)@, event_models(r.1@)),
        match saved {
            Err(e) => {
                &&& replies(r.0, Some(e@))
                &&& r.1@.len() == 1
                &&& describes(r.1@[0]@, LogLevel::Error, "settings"@, "failed to save: "@ + e@)
            },
            Ok(()) => {
                &&& r.0 is Ok
                &&& r.1@.len() == if restart { 1int } else { 0int }
                &&& restart ==> describes(r.1@[0]@, LogLevel::Info, "capture"@, "stopping existing pipeline"@)
            },
        },
{
    let mut events: Vec<LogEvent> = Vec::new();
    assert(event_models(events@) =~= Seq::empty());
    let ghost h0 = history@;
    match saved {
        Err(e) => {
            let mut line = String::from_str("failed to save: ");
            line.append(e.as_str());
            log_to(history, &mut events, LogLevel::Error, "settings", line.as_str());
            proof {
                lemma_recorded_step(h0, Seq::empty(), events@);
            }
            (Err(e), events)
        },
        Ok(()) => {
            if restart {
                log_to(history, &mut events, LogLevel::Info, "capture", "stopping existing pipeline");
                proof {
                    lemma_recorded_step(h0, Seq::empty(), events@);
                }
            }
            (Ok(()), events)
        },
    }
}

/// `update_settings`, last step: `restarted` is the outcome of the restart,
/// where there was one. A failed restart is logged, reported as an error and
/// answered with its message; otherwise the update is logged and capture is
/// reported running.
pub fn settings_command_done<C>(
    state: &mut DaemonState<C>,
    history: &mut LogHistory,
    restarted: Option<Result<C, String>>,
) -> (o: CommandOutcome)
    ensures
        final(history)@ == recorded(old(history)@, event_models(o.events@)),
        final(state).settings == old(state).settings,
        o.report is Some,
        o.events@.len() == 1,
        match restarted {
            Some(Err(m)) => {
                &&& final(state).capture == old(state).capture
                &&& replies(o.reply, Some(m@))
                &&& reports(o.report->0, CaptureStatus::Error, Some(m@))
                &&& describes(o.events@[0]@, LogLevel::Error, "settings"@, "restart failed: "@ + m@)
            },
            _ => {
                &&& (match restarted { Some(Ok(c)) => final(state).capture == Some(c), _ => final(state).capture == old(state).capture })
                &&& o.reply is Ok
                &&& reports(o.report->0, CaptureStatus::Running, None)
                &&& describes(o.events@[0]@, LogLevel::Info, "settings"@, "updated and capture restarted"@)
            },
        },
{
    let mut events: Vec<LogEvent> = Vec::new();
    let ghost h0 = history@;
    let outcome = match restarted {
        Some(Err(m)) => {
            let mut line = String::from_str("restart failed: ");
            line.append(m.as_str());
            log_to(history, &mut events, LogLevel::Error, "settings", line.as_str());
            let reply = Err(m.clone());
            (reply, StatusReport { status: CaptureStatus::Error, message: Some(m) })
        },
        other => {
            match other {
                Some(Ok(c)) => {
                    state.capture = Some(c);
                },
                _ => {},
            }
            log_to(history, &mut events, LogLevel::Info, "settings", "updated and capture restarted");
            (Ok(()), StatusReport { status: CaptureStatus::Running, message: None })
        },
    };
    proof {
        lemma_recorded_step(h0, Seq::empty(), events@);
        assert(event_models(Seq::<LogEvent>::empty()) =~= Seq::empty());
    }
    CommandOutcome { reply: outcome.0, report: Some(outcome.1), events }
}

/// Where an `update_settings` command stands.
pub enum CommandUpdatePhase {
    /// No update is under way.
    Idle,
    /// The new settings are in force and being written; `restart` says
    /// whether the pipeline is to be rebuilt.
    Saving { restart: bool },
    /// The volumes are being handed to the running pipeline.
    SettingVolumes,
    /// A pipeline is being started with the new settings.
    Restarting,
}

/// An `update_settings` command, run one step at a time.
pub struct CommandUpdate {
    pub phase: CommandUpdatePhase,
}

/// What happened since the last step of an `update_settings` command.
pub enum CommandUpdateEvent<C> {
    /// Update to `new_settings`; `encoders` is the outcome of listing the
    /// encoders, `validation` the check of the settings against the devices.
    Begin { encoders: Result<(), String>, validation: Result<(), String>, new_settings: CaptureSettings },
    /// The new settings were written, or writing them failed.
    Saved(Result<(), String>),
    /// The changed volumes were handed to the running pipeline.
    VolumesSet,
    /// A pipeline was started with the new settings, or starting it failed.
    Restarted(Result<C, String>),
}

/// What the shell is to do next.
pub enum CommandUpdateAction<C> {
    /// Write the settings now in force, then report `Saved`; keep this
    /// pipeline until then, and stop it after.
    Save(Option<C>),
    /// Hand changed volumes to the running pipeline, then report `VolumesSet`.
    SetVolumes,
    /// Clear the buffer, start a pipeline with the new settings, then report `Restarted`.
    Restart,
    /// The command is over: answer this, and report this status where there is one.
    Finish { reply: Result<(), String>, report: Option<StatusReport> },
}

/// Whether the event is the one the phase waits for.
pub open spec fn command_expects<C>(phase: CommandUpdatePhase, event: CommandUpdateEvent<C>) -> bool {
    match event {
        CommandUpdateEvent::Begin { .. } => phase is Idle,
        CommandUpdateEvent::Saved(_) => phase is Saving,
        CommandUpdateEvent::VolumesSet => phase is SettingVolumes,
        CommandUpdateEvent::Restarted(_) => phase is Restarting,
    }
}

/// Whether the action answers with this error and reports no status.
pub open spec fn finishes_refused<C>(a: CommandUpdateAction<C>, error: Seq<char>) -> bool {
    a matches CommandUpdateAction::Finish { reply, report } && replies(reply, Some(error)) && report is None
}

/// Whether the action answers `Ok` and reports capture running.
pub open spec fn finishes_running<C>(a: CommandUpdateAction<C>) -> bool {
    a matches CommandUpdateAction::Finish { reply, report }
        && reply is Ok && (report matches Some(r) && reports(r, CaptureStatus::Running, None))
}

impl CommandUpdate {
    /// No update under way.
    pub fn new() -> (u: Self)
        ensures
            u.phase is Idle,
    {
        CommandUpdate { phase: CommandUpdatePhase::Idle }
    }

    /// One step of the shell's `update_settings`. Settings are refused where
    /// the encoders cannot be listed (logged) or the settings are invalid.
    /// Accepted settings are put in force at once, taking out the pipeline
    /// where it must be rebuilt, and then written; a failed write is logged and
    /// answered with its error. After the write, a rebuild is logged and a
    /// pipeline is started (a failure is logged, reported and answered);
    /// otherwise only the volumes are handed over. A completed update is logged
    /// and capture is reported running.
    pub fn step<C>(
        &mut self,
        state: &mut DaemonState<C>,
        history: &mut LogHistory,
        event: CommandUpdateEvent<C>,
    ) -> (r: (CommandUpdateAction<C>, Vec<LogEvent>))
        requires
            command_expects(old(self).phase, event),
        ensures
            final(history)@ == recorded(old(history)@, event_models(r.1@)),
            match event {
                CommandUpdateEvent::Begin { encoders, validation, new_settings } => match encoders {
                    Err(e) => {
                        &&& *final(state) == *old(state)
                        &&& final(self).phase is Idle
                        &&& finishes_refused(r.0, e@)
                        &&& r.1@.len() == 1
                        &&& describes(r.1@[0]@, LogLevel::Error, "settings"@, "failed to list encoders: "@ + e@)
                    },
                    Ok(()) => match validation {
                        Err(m) => {
                            &&& *final(state) == *old(state)
                            &&& final(self).phase is Idle
                            &&& finishes_refused(r.0, m@)
                            &&& r.1@.len() == 0
                        },
                        Ok(()) => {
                            let restart = restart_needed(old(state).settings@, new_settings@);
                            &&& final(state).settings@ == new_settings@
                            &&& restart ==> final(state).capture is None && r.0 == CommandUpdateAction::Save(old(state).capture)
                            &&& !restart ==> final(state).capture == old(state).capture
                                && r.0 == CommandUpdateAction::<C>::Save(None)
                            &&& final(self).phase == (CommandUpdatePhase::Saving { restart })
                            &&& r.1@.len() == 0
                        },
                    },
                },
                CommandUpdateEvent::Saved(saved) => {
                    let restart = old(self).phase->restart;
                    &&& *final(state) == *old(state)
                    &&& match saved {
                        Err(e) => {
                            &&& final(self).phase is Idle
                            &&& finishes_refused(r.0, e@)
                            &&& r.1@.len() == 1
                            &&& describes(r.1@[0]@, LogLevel::Error, "settings"@, "failed to save: "@ + e@)
                        },
                        Ok(()) => if restart {
                            &&& r.0 is Restart
                            &&& final(self).phase is Restarting
                            &&& r.1@.len() == 1
                            &&& describes(r.1@[0]@, LogLevel::Info, "capture"@, "stopping existing pipeline"@)
                        } else {
                            &&& r.0 is SetVolumes
                            &&& final(self).phase is SettingVolumes
                            &&& r.1@.len() == 0
                        },
                    }
                },
                CommandUpdateEvent::VolumesSet => {
                    &&& *final(state) == *old(state)
                    &&& final(self).phase is Idle
                    &&& finishes_running(r.0)
                    &&& r.1@.len() == 1
                    &&& describes(r.1@[0]@, LogLevel::Info, "settings"@, "updated and capture restarted"@)
                },
                CommandUpdateEvent::Restarted(started) => {
                    &&& final(state).settings == old(state).settings
                    &&& final(self).phase is Idle
                    &&& r.1@.len() == 1
                    &&& match started {
                        Ok(c) => {
                            &&& final(state).capture == Some(c)
                            &&& finishes_running(r.0)
                            &&& describes(r.1@[0]@, LogLevel::Info, "settings"@, "updated and capture restarted"@)
                        },
                        Err(m) => {
                            &&& final(state).capture == old(state).capture
                            &&& r.0 matches CommandUpdateAction::Finish { reply, report }
                                && replies(reply, Some(m@)) && (report matches Some(rep)
                                && reports(rep, CaptureStatus::Error, Some(m@)))
                            &&& describes(r.1@[0]@, LogLevel::Error, "settings"@, "restart failed: "@ + m@)
                        },
                    }
                },
            },
    {
        match event {
            CommandUpdateEvent::Begin { encoders, validation, new_settings } => {
                let (checked, events) = settings_command_check(history, encoders, validation);
                match checked {
                    Err(e) => (CommandUpdateAction::Finish { reply: Err(e), report: None }, events),
                    Ok(()) => {
                        let applied = apply_settings(state, new_settings);
                        self.phase = CommandUpdatePhase::Saving { restart: applied.restart };
                        (CommandUpdateAction::Save(applied.old_capture), events)
                    },
                }
            },
            CommandUpdateEvent::Saved(saved) => {
                let restart = match self.phase {
                    CommandUpdatePhase::Saving { restart } => restart,
                    _ => false,
                };
                let (reply, events) = settings_command_saved(history, saved, restart);
                match reply {
                    Err(e) => {
                        self.phase = CommandUpdatePhase::Idle;
                        (CommandUpdateAction::Finish { reply: Err(e), report: None }, events)
                    },
                    Ok(()) => {
                        if restart {
                            self.phase = CommandUpdatePhase::Restarting;
                            (CommandUpdateAction::Restart, events)
                        } else {
                            self.phase = CommandUpdatePhase::SettingVolumes;
                            (CommandUpdateAction::SetVolumes, events)
                        }
                    },
                }
            },
            CommandUpdateEvent::VolumesSet => {
                self.phase = CommandUpdatePhase::Idle;
                let o = settings_command_done(state, history, None);
                (CommandUpdateAction::Finish { reply: o.reply, report: o.report }, o.events)
            },
            CommandUpdateEvent::Restarted(started) => {
                self.phase = CommandUpdatePhase::Idle;
                let o = settings_command_done(state, history, Some(started));
                (CommandUpdateAction::Finish { reply: o.reply, report: o.report }, o.events)
            },
        }
    }
}

/// What the `clip` command answers.
pub struct ClipResponse {
    pub filename: String,
    pub packets: usize,
    pub duration_ms: u64,
    pub bytes: usize,
}

/// `clip`, once the packets were remuxed to `path` (or the folder could not
/// be made, or the remux failed): the saved clip is logged and described;
/// a failure is answered with its message.
pub fn clip_command_done(
    history: &mut LogHistory,
    filename: String,
    packets: usize,
    path: &str,
    result: Result<RemuxResult, String>,
) -> (r: (Result<ClipResponse, String>, Vec<LogEvent>))
    ensures
        final(history)@ == recorded(old(history)@, event_models(r.1@)),
        match result {
            Ok(res) => {
                &&& r.1@.len() == 1
                &&& describes(r.1@[0]@, LogLevel::Info, "capture"@, "Clip saved to "@ + path@)
                &&& r.0 matches Ok(c) && c.filename@ == filename@ && c.packets == packets
                    && c.duration_ms == res.duration_ms && c.bytes == res.bytes_written as usize
            },
            Err(m) => {
                &&& r.1@.len() == 0
                &&& r.0 matches Err(e) && e@ == m@
            },
        },
{
    let mut events: Vec<LogEvent> = Vec::new();
    assert(event_models(events@) =~= Seq::empty());
    match result {
        Ok(res) => {
            let ghost h0 = history@;
            let mut line = String::from_str("Clip saved to ");
            line.append(path);
            log_to(history, &mut events, LogLevel::Info, "capture", line.as_str());
            proof {
                lemma_recorded_step(h0, Seq::empty(), events@);
            }
            let response = ClipResponse {
                filename,
                packets,
                duration_ms: res.duration_ms,
                bytes: res.bytes_written as usize,
            };
            (Ok(response), events)
        },
        Err(m) => (Err(m), events),
    }
}

/// What the file system says of an entry of the clips folder: its name where
/// it is valid UTF-8, and whether it is a file and its size where its
/// metadata could be read.
pub struct DirEntryInfo {
    pub name: Option<String>,
    pub metadata: Option<FileMeta>,
}

/// The metadata of a folder entry that the listing reads.
#[derive(Clone, Copy, Debug)]
pub struct FileMeta {
    pub is_file: bool,
    pub len: u64,
}

/// A saved clip as the shell lists it.
pub struct ClipInfo {
    pub filename: String,
    pub size_bytes: u64,
}

/// Whether an entry is listed: a file, with readable metadata and a UTF-8 name.
pub open spec fn is_listed(e: DirEntryInfo) -> bool {
    &&& e.name is Some
    &&& e.metadata matches Some(m) && m.is_file
}

/// The clips listed from the entries, in order, as (name, size).
pub open spec fn listed_clips(es: Seq<DirEntryInfo>) -> Seq<(Seq<char>, u64)>
    decreases es.len(),
{
    if es.len() == 0 {
        Seq::empty()
    } else {
        let e = es.last();
        listed_clips(es.drop_last()) + if is_listed(e) {
            seq![(e.name->0@, e.metadata->0.len)]
        } else {
            Seq::empty()
        }
    }
}

/// The (name, size) of each clip.
pub open spec fn clip_models(cs: Seq<ClipInfo>) -> Seq<(Seq<char>, u64)> {
    cs.map_values(|c: ClipInfo| (c.filename@, c.size_bytes))
}

/// `list_clips`: the files of the clips folder whose metadata and name could
/// be read, in the order the folder gave them.
pub fn list_clip_entries(entries: &Vec<DirEntryInfo>) -> (r: Vec<ClipInfo>)
    ensures
        clip_models(r@) == listed_clips(entries@),
{
    let mut clips: Vec<ClipInfo> = Vec::new();
    let n = entries.len();
    for i in 0..n
        invariant
            n == entries@.len(),
            clip_models(clips@) == listed_clips(entries@.take(i as int)),
    {
        let ghost before = clips@;
        assert(entries@.take(i + 1).drop_last() =~= entries@.take(i as int));
        assert(entries@.take(i + 1).last() == entries@[i as int]);
        let e = &entries[i];
        match (&e.metadata, &e.name) {
            (Some(meta), Some(name)) => {
                if meta.is_file {
                    clips.push(ClipInfo { filename: name.clone(), size_bytes: meta.len });
                    assert(clip_models(clips@) =~= clip_models(before) + seq![(name@, meta.len)]);
                } else {
                    assert(clip_models(clips@) =~= clip_models(before) + Seq::empty());
                }
            },
            _ => {
                assert(clip_models(clips@) =~= clip_models(before) + Seq::empty());
            },
        }
    }
    assert(entries@.take(n as int) =~= entries@);
    clips
}

} // verus!
