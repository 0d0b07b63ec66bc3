use vstd::prelude::*;
use global_hotkey::hotkey::HotKey;
use crate::logger::{LogEvent, LogHistory, LogLevel, describes, event_models, log_to, recorded, lemma_recorded_step};

verus! {

#[verifier::external_type_specification]
#[verifier::external_body]
pub struct ExHotKey(global_hotkey::hotkey::HotKey);

/// The error text `global_hotkey::hotkey::HotKey::from_str` gives for an
/// accelerator it rejects, or none where it accepts it.
pub uninterp spec fn hotkey_parse_error(accelerator: Seq<char>) -> Option<Seq<char>>;

/// The id `global_hotkey` gives the hotkey an accelerator describes, where it
/// reads one: the modifier bits shifted left by 16, or-ed with the key code.
/// It depends on the string and on how the `CmdOrCtrl` family of modifiers is
/// mapped: to the Meta modifier (`cmd_is_meta`, as on macOS) or to Control.
pub uninterp spec fn hotkey_id_of(accelerator: Seq<char>, cmd_is_meta: bool) -> u32;

/// Reads an accelerator such as `Ctrl+F10` with
/// `global_hotkey::hotkey::HotKey::from_str`, with the error as its text, and
/// gives the hotkey's id (`HotKey::id`). Whether it is accepted, and the error
/// text, depend only on the string; the id is the one for the string under
/// this platform's mapping of `CmdOrCtrl`, which is one of the two mappings.
/// The hotkey value itself is not described.
#[verifier::external_body]
pub(crate) fn parse_accelerator(accelerator: &str) -> (r: Result<(HotKey, u32), String>)
    ensures
        (r is Err) == (hotkey_parse_error(accelerator@) is Some),
        r matches Err(e) ==> hotkey_parse_error(accelerator@) == Some(e@),
        r matches Ok(p) ==> exists|cmd_is_meta: bool| p.1 == hotkey_id_of(accelerator@, cmd_is_meta),
{
    accelerator
        .parse::<HotKey>()
        .map(|hotkey| (hotkey, hotkey.id()))
        .map_err(|error| error.to_string())
}

/// A hotkey with its id.
#[derive(Clone, Copy)]
pub struct Shortcut {
    pub hotkey: HotKey,
    pub id: u32,
}

/// Reads the clip shortcut: the hotkey an accelerator describes, with its id,
/// or the text of the error where it cannot be read.
pub fn read_shortcut(accelerator: &str) -> (r: Result<Shortcut, String>)
    ensures
        (r is Err) == (hotkey_parse_error(accelerator@) is Some),
        r matches Err(e) ==> hotkey_parse_error(accelerator@) == Some(e@),
        r matches Ok(k) ==> exists|cmd_is_meta: bool| k.id == hotkey_id_of(accelerator@, cmd_is_meta),
{
    match parse_accelerator(accelerator) {
        Ok((hotkey, id)) => Ok(Shortcut { hotkey, id }),
        Err(e) => Err(e),
    }
}

/// Where an update of the registered shortcut stands.
pub enum SyncPhase {
    /// No update is under way.
    Idle,
    /// This shortcut, read from this accelerator, is being registered.
    Registering(Shortcut, String),
    /// This shortcut is registered; the previous one is being unregistered.
    Unregistering(Shortcut, String),
}

/// The globally registered clip shortcut, and where an update of it stands.
pub struct ShortcutSync {
    pub active: Option<Shortcut>,
    pub phase: SyncPhase,
}

/// What happened since the last step of a shortcut update.
pub enum SyncEvent {
    /// Register the shortcut read from `accelerator` (see `read_shortcut`).
    Begin { accelerator: String, shortcut: Result<Shortcut, String> },
    /// The hotkey handed out by `Register` was registered, or registering it failed.
    Registered(Result<(), String>),
    /// The hotkey handed out by `Unregister` was unregistered, or unregistering it failed.
    Unregistered(Result<(), String>),
}

/// What the program is to do next.
pub enum SyncAction {
    /// Register this hotkey, then report `Registered`.
    Register(HotKey),
    /// Unregister this hotkey, then report `Unregistered`.
    Unregister(HotKey),
    /// The update failed: unregister this hotkey (whatever the outcome) and report the error.
    Abandon { unregister: HotKey, error: String },
    /// The update is over, with this outcome.
    Done(Result<(), String>),
}

/// Whether the event is the one the phase waits for.
pub open spec fn sync_expects(phase: SyncPhase, event: SyncEvent) -> bool {
    match event {
        SyncEvent::Begin { .. } => phase is Idle,
        SyncEvent::Registered(_) => phase is Registering,
        SyncEvent::Unregistered(_) => phase is Unregistering,
    }
}

/// Whether the action ends the update with an error of this text.
pub open spec fn done_with_error(a: SyncAction, text: Seq<char>) -> bool {
    a matches SyncAction::Done(Err(e)) && e@ == text
}

impl ShortcutSync {
    /// No shortcut registered.
    pub fn new() -> (s: Self)
        ensures
            s.active is None,
            s.phase is Idle,
    {
        ShortcutSync { active: None, phase: SyncPhase::Idle }
    }

    /// One step of replacing the registered shortcut. A shortcut that cannot
    /// be read is refused; one with the id of the active shortcut needs no
    /// change. Otherwise the new hotkey is registered first: where that fails,
    /// the active shortcut stays. Then the previous one is unregistered: where
    /// that fails, the new one is unregistered again and the active shortcut
    /// stays. Otherwise the new shortcut becomes the active one, which is logged.
    pub fn step(&mut self, history: &mut LogHistory, event: SyncEvent) -> (r: (SyncAction, Vec<LogEvent>))
        requires
            sync_expects(old(self).phase, event),
        ensures
            final(history)@ == recorded(old(history)@, event_models(r.1@)),
            match event {
                SyncEvent::Begin { accelerator, shortcut } => {
                    &&& r.1@.len() == 0
                    &&& final(self).active == old(self).active
                    &&& match shortcut {
                        Err(e) => final(self).phase is Idle && done_with_error(r.0, e@),
                        Ok(k) => if old(self).active matches Some(a) && a.id == k.id {
                            final(self).phase is Idle && r.0 == SyncAction::Done(Ok(()))
                        } else {
                            &&& r.0 == SyncAction::Register(k.hotkey)
                            &&& final(self).phase matches SyncPhase::Registering(p, acc) && p == k && acc@ == accelerator@
                        },
                    }
                },
                SyncEvent::Registered(Err(e)) => {
                    let acc = old(self).phase->Registering_1;
                    &&& final(self).active == old(self).active
                    &&& final(self).phase is Idle
                    &&& done_with_error(r.0, "failed to register "@ + acc@ + ": "@ + e@)
                    &&& r.1@.len() == 0
                },
                SyncEvent::Registered(Ok(())) => {
                    let k = old(self).phase->Registering_0;
                    let acc = old(self).phase->Registering_1;
                    match old(self).active {
                        Some(a) => {
                            &&& final(self).active == old(self).active
                            &&& r.0 == SyncAction::Unregister(a.hotkey)
                            &&& final(self).phase matches SyncPhase::Unregistering(p, acc2) && p == k && acc2@ == acc@
                            &&& r.1@.len() == 0
                        },
                        None => {
                            &&& final(self).active == Some(k)
                            &&& final(self).phase is Idle
                            &&& r.0 == SyncAction::Done(Ok(()))
                            &&& r.1@.len() == 1
                            &&& describes(r.1@[0]@, LogLevel::Info, "shortcut"@, "registered "@ + acc@)
                        },
                    }
                },
                SyncEvent::Unregistered(Err(e)) => {
                    let k = old(self).phase->Unregistering_0;
                    &&& final(self).active == old(self).active
                    &&& final(self).phase is Idle
                    &&& r.0 matches SyncAction::Abandon { unregister, error } && unregister == k.hotkey && error@ == e@
                    &&& r.1@.len() == 0
                },
                SyncEvent::Unregistered(Ok(())) => {
                    let k = old(self).phase->Unregistering_0;
                    let acc = old(self).phase->Unregistering_1;
                    &&& final(self).active == Some(k)
                    &&& final(self).phase is Idle
                    &&& r.0 == SyncAction::Done(Ok(()))
                    &&& r.1@.len() == 1
                    &&& describes(r.1@[0]@, LogLevel::Info, "shortcut"@, "registered "@ + acc@)
                },
            },
    {
        let mut events: Vec<LogEvent> = Vec::new();
        assert(event_models(events@) =~= Seq::empty());
        let ghost h0 = history@;
        let mut phase = SyncPhase::Idle;
        std::mem::swap(&mut phase, &mut self.phase);
        match event {
            SyncEvent::Begin { accelerator, shortcut } => {
                match shortcut {
                    Err(e) => (SyncAction::Done(Err(e)), events),
                    Ok(k) => {
                        let same = match &self.active {
                            Some(a) => a.id == k.id,
                            None => false,
                        };
                        if same {
                            (SyncAction::Done(Ok(())), events)
                        } else {
                            let hotkey = k.hotkey;
                            self.phase = SyncPhase::Registering(k, accelerator);
                            (SyncAction::Register(hotkey), events)
                        }
                    },
                }
            },
            SyncEvent::Registered(result) => {
                let (k, acc) = match phase {
                    SyncPhase::Registering(k, acc) => (k, acc),
                    _ => {
                        proof {
                            assert(false);
                        }
                        return (SyncAction::Done(Ok(())), events);
                    },
                };
                match result {
                    Err(e) => {
                        let mut text = String::from_str("failed to register ");
                        text.append(acc.as_str());
                        text.append(": ");
                        text.append(e.as_str());
                        (SyncAction::Done(Err(text)), events)
                    },
                    Ok(()) => {
                        match &self.active {
                            Some(a) => {
                                let old_hotkey = a.hotkey;
                                self.phase = SyncPhase::Unregistering(k, acc);
                                (SyncAction::Unregister(old_hotkey), events)
                            },
                            None => {
                                self.active = Some(k);
                                let mut line = String::from_str("registered ");
                                line.append(acc.as_str());
                                log_to(history, &mut events, LogLevel::Info, "shortcut", line.as_str());
                                proof {
                                    lemma_recorded_step(h0, Seq::empty(), events@);
                                }
                                (SyncAction::Done(Ok(())), events)
                            },
                        }
                    },
                }
            },
            SyncEvent::Unregistered(result) => {
                let (k, acc) = match phase {
                    SyncPhase::Unregistering(k, acc) => (k, acc),
                    _ => {
                        proof {
                            assert(false);
                        }
                        return (SyncAction::Done(Ok(())), events);
                    },
                };
                match result {
                    Err(e) => (SyncAction::Abandon { unregister: k.hotkey, error: e }, events),
                    Ok(()) => {
                        self.active = Some(k);
                        let mut line = String::from_str("registered ");
                        line.append(acc.as_str());
                        log_to(history, &mut events, LogLevel::Info, "shortcut", line.as_str());
                        proof {
                            lemma_recorded_step(h0, Seq::empty(), events@);
                        }
                        (SyncAction::Done(Ok(())), events)
                    },
                }
            },
        }
    }
}

} // verus!
