use vstd::prelude::*;
use crate::backend::CaptureStatus;
use crate::logger::{LogEvent, event_models, keep_last};
use crate::text::{opt_view, str_eq};

verus! {

/// How many log events the log view keeps.
pub const MAX_VIEW_LOGS: usize = 1000;

/// The capture status the interface shows.
#[derive(Clone, Copy, PartialEq, Eq, Structural, Debug)]
pub enum UiCaptureStatus {
    Offline,
    Starting,
    Running,
    Stopped,
    Error,
}

/// The kind of a notification.
#[derive(Clone, Copy, PartialEq, Eq, Structural, Debug)]
pub enum NoteKind {
    Success,
    Warning,
    Error,
}

/// A notification waiting to be shown.
pub enum UiNote {
    Text { kind: NoteKind, text: String },
    /// A clip was saved; shown with its duration in seconds.
    ClipSaved { filename: String, duration_ms: u64 },
}

/// An event from the backend, as the interface state reads it.
pub enum UiEvent {
    CaptureStatus { status: CaptureStatus, message: Option<String> },
    /// New settings are in force; `shortcut_error` is the error from registering their shortcut, if any.
    SettingsUpdated { shortcut_error: Option<String> },
    ClipFinished { filename: String, duration_ms: u64 },
    OperationError { title: String, message: String },
    /// A folder was picked for clips (or the pick was cancelled).
    FolderPicked { picked: bool },
    Log(LogEvent),
}

/// The state of the interface that backend events drive.
pub struct UiState {
    pub capture_status: UiCaptureStatus,
    pub capture_error: Option<String>,
    pub is_clipping: bool,
    pub settings_pending: bool,
    pub needs_sync: bool,
    /// Whether the capture timer runs.
    pub timer_running: bool,
    pub logs: Vec<LogEvent>,
    pub notes: Vec<UiNote>,
}

/// Whether a note is this text.
pub open spec fn is_text_note(n: UiNote, kind: NoteKind, text: Seq<char>) -> bool {
    n matches UiNote::Text { kind: k, text: t } && k == kind && t@ == text
}

impl UiState {
    /// The state at start-up: starting where the backend is available, offline
    /// otherwise, with the backend's reason as the capture error.
    pub fn new(backend_available: bool, unavailable_reason: Option<String>, logs: Vec<LogEvent>) -> (s: Self)
        ensures
            s.capture_status == if backend_available { UiCaptureStatus::Starting } else { UiCaptureStatus::Offline },
            opt_view(s.capture_error) == opt_view(unavailable_reason),
            !s.is_clipping && !s.settings_pending && !s.needs_sync && !s.timer_running,
            s.logs@ == logs@,
            s.notes@.len() == 0,
    {
        UiState {
            capture_status: if backend_available { UiCaptureStatus::Starting } else { UiCaptureStatus::Offline },
            capture_error: unavailable_reason,
            is_clipping: false,
            settings_pending: false,
            needs_sync: false,
            timer_running: false,
            logs,
            notes: Vec::new(),
        }
    }

    /// A click on the clip button: where a clip can be requested (the backend
    /// is there, capture buffers, no clip is being saved), the state records
    /// that a clip is being saved and the request is to be sent.
    pub fn request_clip(&mut self, backend_available: bool, buffering: bool) -> (sent: bool)
        ensures
            sent == (backend_available && buffering && !old(self).is_clipping),
            final(self).is_clipping == (old(self).is_clipping || sent),
            final(self).settings_pending == old(self).settings_pending,
            final(self).needs_sync == old(self).needs_sync,
            final(self).capture_status == old(self).capture_status,
            final(self).timer_running == old(self).timer_running,
            final(self).logs@ == old(self).logs@,
            final(self).notes@ == old(self).notes@,
    {
        let sent = backend_available && buffering && !self.is_clipping;
        if sent {
            self.is_clipping = true;
        }
        sent
    }

    /// A click on the apply button: settings are being applied until the
    /// backend answers (the draft is then sent to the backend).
    pub fn begin_settings_apply(&mut self)
        ensures
            final(self).settings_pending,
            final(self).is_clipping == old(self).is_clipping,
            final(self).needs_sync == old(self).needs_sync,
            final(self).capture_status == old(self).capture_status,
            final(self).timer_running == old(self).timer_running,
            final(self).logs@ == old(self).logs@,
            final(self).notes@ == old(self).notes@,
    {
        self.settings_pending = true;
    }

    /// Applies one backend event.
    pub fn on_event(&mut self, event: UiEvent)
        ensures
            match event {
                UiEvent::CaptureStatus { status, message } => {
                    &&& final(self).capture_status == match status {
                        CaptureStatus::Running => UiCaptureStatus::Running,
                        CaptureStatus::Stopped => UiCaptureStatus::Stopped,
                        CaptureStatus::Error => UiCaptureStatus::Error,
                    }
                    &&& final(self).timer_running == match status {
                        CaptureStatus::Running => true,
                        CaptureStatus::Stopped => false,
                        CaptureStatus::Error => old(self).timer_running,
                    }
                    &&& opt_view(final(self).capture_error) == if message is Some {
                        opt_view(message)
                    } else if status == CaptureStatus::Running {
                        None
                    } else {
                        opt_view(old(self).capture_error)
                    }
                    &&& final(self).notes@ == old(self).notes@
                    &&& unchanged_flags(*old(self), *final(self))
                    &&& event_models(final(self).logs@) == event_models(old(self).logs@)
                },
                UiEvent::SettingsUpdated { shortcut_error } => {
                    &&& !final(self).settings_pending && final(self).needs_sync
                    &&& final(self).is_clipping == old(self).is_clipping
                    &&& final(self).capture_status == old(self).capture_status
                    &&& final(self).timer_running == old(self).timer_running
                    &&& opt_view(final(self).capture_error) == opt_view(old(self).capture_error)
                    &&& event_models(final(self).logs@) == event_models(old(self).logs@)
                    &&& final(self).notes@.len() == old(self).notes@.len() + if shortcut_error is Some { 2int } else { 1int }
                    &&& final(self).notes@.subrange(0, old(self).notes@.len() as int) == old(self).notes@
                    &&& shortcut_error is Some ==> is_text_note(final(self).notes@[old(self).notes@.len() as int],
                        NoteKind::Warning, "Shortcut registration failed: "@ + shortcut_error->0@)
                    &&& is_text_note(final(self).notes@.last(), NoteKind::Success, "Settings applied"@)
                },
                UiEvent::ClipFinished { filename, duration_ms } => {
                    &&& !final(self).is_clipping
                    &&& final(self).settings_pending == old(self).settings_pending
                    &&& final(self).needs_sync == old(self).needs_sync
                    &&& final(self).capture_status == old(self).capture_status
                    &&& final(self).timer_running == old(self).timer_running
                    &&& opt_view(final(self).capture_error) == opt_view(old(self).capture_error)
                    &&& event_models(final(self).logs@) == event_models(old(self).logs@)
                    &&& final(self).notes@.len() == old(self).notes@.len() + 1
                    &&& final(self).notes@.subrange(0, old(self).notes@.len() as int) == old(self).notes@
                    &&& final(self).notes@.last() matches UiNote::ClipSaved { filename: f, duration_ms: d }
                        && f@ == filename@ && d == duration_ms
                },
                UiEvent::OperationError { title, message } => {
                    &&& final(self).is_clipping == (old(self).is_clipping && title@ != "Clip"@)
                    &&& final(self).settings_pending == (old(self).settings_pending && title@ != "Settings"@)
                    &&& final(self).needs_sync == old(self).needs_sync
                    &&& final(self).timer_running == old(self).timer_running
                    &&& title@ == "Capture"@ ==> final(self).capture_status == UiCaptureStatus::Error
                        && opt_view(final(self).capture_error) == Some(message@)
                    &&& title@ != "Capture"@ ==> final(self).capture_status == old(self).capture_status
                        && opt_view(final(self).capture_error) == opt_view(old(self).capture_error)
                    &&& event_models(final(self).logs@) == event_models(old(self).logs@)
                    &&& final(self).notes@.len() == old(self).notes@.len() + 1
                    &&& final(self).notes@.subrange(0, old(self).notes@.len() as int) == old(self).notes@
                    &&& is_text_note(final(self).notes@.last(), NoteKind::Error, title@ + ": "@ + message@)
                },
                UiEvent::FolderPicked { picked } => {
                    &&& final(self).needs_sync == (old(self).needs_sync || picked)
                    &&& final(self).is_clipping == old(self).is_clipping
                    &&& final(self).settings_pending == old(self).settings_pending
                    &&& final(self).capture_status == old(self).capture_status
                    &&& final(self).timer_running == old(self).timer_running
                    &&& opt_view(final(self).capture_error) == opt_view(old(self).capture_error)
                    &&& event_models(final(self).logs@) == event_models(old(self).logs@)
                    &&& final(self).notes@ == old(self).notes@
                },
                UiEvent::Log(e) => {
                    &&& event_models(final(self).logs@) == keep_last(event_models(old(self).logs@).push(e@), MAX_VIEW_LOGS as nat)
                    &&& unchanged_flags(*old(self), *final(self))
                    &&& final(self).capture_status == old(self).capture_status
                    &&& final(self).timer_running == old(self).timer_running
                    &&& opt_view(final(self).capture_error) == opt_view(old(self).capture_error)
                    &&& final(self).notes@ == old(self).notes@
                },
            },
    {
        match event {
            UiEvent::CaptureStatus { status, message } => {
                match status {
                    CaptureStatus::Running => {
                        self.capture_status = UiCaptureStatus::Running;
                        self.timer_running = true;
                    },
                    CaptureStatus::Stopped => {
                        self.capture_status = UiCaptureStatus::Stopped;
                        self.timer_running = false;
                    },
                    CaptureStatus::Error => {
                        self.capture_status = UiCaptureStatus::Error;
                    },
                }
                if message.is_some() {
                    self.capture_error = message;
                } else if status == CaptureStatus::Running {
                    self.capture_error = None;
                }
            },
            UiEvent::SettingsUpdated { shortcut_error } => {
                self.settings_pending = false;
                self.needs_sync = true;
                let ghost before = self.notes@;
                match shortcut_error {
                    Some(e) => {
                        let mut text = String::from_str("Shortcut registration failed: ");
                        text.append(e.as_str());
                        self.notes.push(UiNote::Text { kind: NoteKind::Warning, text });
                    },
                    None => {},
                }
                self.notes.push(UiNote::Text { kind: NoteKind::Success, text: String::from_str("Settings applied") });
                assert(self.notes@.subrange(0, before.len() as int) =~= before);
            },
            UiEvent::ClipFinished { filename, duration_ms } => {
                self.is_clipping = false;
                let ghost before = self.notes@;
                self.notes.push(UiNote::ClipSaved { filename, duration_ms });
                assert(self.notes@.subrange(0, before.len() as int) =~= before);
            },
            UiEvent::OperationError { title, message } => {
                if str_eq(title.as_str(), "Clip") {
                    self.is_clipping = false;
                }
                if str_eq(title.as_str(), "Settings") {
                    self.settings_pending = false;
                }
                if str_eq(title.as_str(), "Capture") {
                    self.capture_status = UiCaptureStatus::Error;
                    self.capture_error = Some(message.clone());
                }
                let mut text = title.clone();
                text.append(": ");
                text.append(message.as_str());
                let ghost before = self.notes@;
                self.notes.push(UiNote::Text { kind: NoteKind::Error, text });
                assert(self.notes@.subrange(0, before.len() as int) =~= before);
            },
            UiEvent::FolderPicked { picked } => {
                if picked {
                    self.needs_sync = true;
                }
            },
            UiEvent::Log(e) => {
                let ghost all = event_models(self.logs@).push(e@);
                self.logs.push(e);
                assert(event_models(self.logs@) =~= all);
                if self.logs.len() > MAX_VIEW_LOGS {
                    let remove = self.logs.len() - MAX_VIEW_LOGS;
                    let mut kept: Vec<LogEvent> = Vec::new();
                    let n = self.logs.len();
                    for i in remove..n
                        invariant
                            n == self.logs@.len(),
                            remove <= n,
                            event_models(self.logs@) == all,
                            event_models(kept@) == all.subrange(remove as int, i as int),
                    {
                        let ev = self.logs[i].clone();
                        let ghost prev = kept@;
                        kept.push(ev);
                        assert(event_models(kept@) =~= event_models(prev).push(ev@));
                        assert(all[i as int] == self.logs@[i as int]@);
                        assert(all.subrange(remove as int, i + 1) =~= all.subrange(remove as int, i as int).push(all[i as int]));
                    }
                    self.logs = kept;
                }
            },
        }
    }

    /// Settles the state after the events are applied: offline where the
    /// backend is unavailable; running, with the timer on, where the backend
    /// buffers while another status is shown.
    pub fn after_poll(&mut self, backend_available: bool, buffering: bool)
        ensures
            final(self).capture_status == if buffering {
                UiCaptureStatus::Running
            } else if !backend_available {
                UiCaptureStatus::Offline
            } else {
                old(self).capture_status
            },
            final(self).timer_running == (old(self).timer_running || (buffering && (!backend_available
                || old(self).capture_status != UiCaptureStatus::Running))),
            unchanged_flags(*old(self), *final(self)),
            opt_view(final(self).capture_error) == opt_view(old(self).capture_error),
            final(self).logs@ == old(self).logs@,
            final(self).notes@ == old(self).notes@,
    {
        if !backend_available {
            self.capture_status = UiCaptureStatus::Offline;
        }
        if buffering && self.capture_status != UiCaptureStatus::Running {
            self.capture_status = UiCaptureStatus::Running;
            self.timer_running = true;
        }
    }
}

/// The notes shown at start-up. Without a backend: that the program runs
/// offline. With one: that global shortcuts are unavailable where the shortcut
/// manager could not be made (`shortcuts_error`), otherwise that the clip
/// shortcut could not be registered where that failed (`register_error`).
pub fn startup_notes(
    backend_available: bool,
    shortcuts_error: Option<String>,
    register_error: Option<String>,
) -> (r: Vec<UiNote>)
    ensures
        !backend_available ==> r@.len() == 1
            && is_text_note(r@[0], NoteKind::Warning, "Backend unavailable; running in offline mode"@),
        backend_available && shortcuts_error is Some ==> r@.len() == 1
            && is_text_note(r@[0], NoteKind::Warning, "Global shortcuts unavailable: "@ + shortcuts_error->0@),
        backend_available && shortcuts_error is None && register_error is Some ==> r@.len() == 1
            && is_text_note(r@[0], NoteKind::Warning, "Shortcut registration failed: "@ + register_error->0@),
        backend_available && shortcuts_error is None && register_error is None ==> r@.len() == 0,
{
    let mut notes: Vec<UiNote> = Vec::new();
    if !backend_available {
        notes.push(UiNote::Text { kind: NoteKind::Warning, text: String::from_str("Backend unavailable; running in offline mode") });
        return notes;
    }
    match shortcuts_error {
        Some(e) => {
            let mut text = String::from_str("Global shortcuts unavailable: ");
            text.append(e.as_str());
            notes.push(UiNote::Text { kind: NoteKind::Warning, text });
        },
        None => match register_error {
            Some(e) => {
                let mut text = String::from_str("Shortcut registration failed: ");
                text.append(e.as_str());
                notes.push(UiNote::Text { kind: NoteKind::Warning, text });
            },
            None => {},
        },
    }
    notes
}

/// The clip, settings and sync flags are the same in both states.
pub open spec fn unchanged_flags(a: UiState, b: UiState) -> bool {
    a.is_clipping == b.is_clipping && a.settings_pending == b.settings_pending && a.needs_sync == b.needs_sync
}

} // verus!
