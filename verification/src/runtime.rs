use vstd::prelude::*;
use crate::logger::{LogEvent, LogHistory, LogLevel, describes, event_models, log_to, recorded, lemma_recorded_step};
use crate::ring_buffer::RingBuffer;
use crate::settings::CaptureSettings;

verus! {

/// The daemon's capture state: the settings in force and the running pipeline, if any.
pub struct DaemonState<C> {
    pub settings: CaptureSettings,
    pub capture: Option<C>,
}

/// What happened since the last step of a restart.
pub enum RestartEvent<C> {
    /// A restart is requested.
    Begin,
    /// The pipeline handed out by `StopOld` has been stopped.
    OldStopped,
    /// A new pipeline was started.
    Started(C),
    /// Starting a new pipeline failed.
    StartFailed,
}

/// What the program is to do next.
pub enum RestartAction<C> {
    /// Stop this pipeline, then report `OldStopped`.
    StopOld(C),
    /// Start a pipeline with the current settings, then report `Started` or `StartFailed`.
    StartCapture,
    /// The restart is over.
    Done,
}

/// One step of a restart: the next action and the log events to deliver.
pub struct RestartStep<C> {
    pub action: RestartAction<C>,
    pub events: Vec<LogEvent>,
}

/// Clears the buffer for a new timeline, then decides whether a pipeline can be started.
fn after_stop<C>(
    state: &DaemonState<C>,
    ring_buffer: &mut RingBuffer,
    history: &mut LogHistory,
) -> (step: RestartStep<C>)
    requires
        old(ring_buffer).wf(),
    ensures
        final(ring_buffer).wf(),
        final(ring_buffer)@ == old(ring_buffer)@.cleared(),
        final(history)@ == recorded(old(history)@, event_models(step.events@)),
        state.settings.video_device_id@.len() == 0 ==> {
            &&& step.action is Done
            &&& step.events@.len() == 1
            &&& describes(step.events@[0]@, LogLevel::Warning, "capture"@, "no video device available; capture disabled"@)
        },
        state.settings.video_device_id@.len() > 0 ==> step.action is StartCapture && step.events@.len() == 0,
{
    ring_buffer.clear();
    let mut events: Vec<LogEvent> = Vec::new();
    if state.settings.video_device_id.as_str().unicode_len() == 0 {
        let ghost h0 = history@;
        log_to(history, &mut events, LogLevel::Warning, "capture", "no video device available; capture disabled");
        proof {
            lemma_recorded_step(h0, Seq::empty(), events@);
            assert(event_models(Seq::<LogEvent>::empty()) =~= Seq::empty());
        }
        RestartStep { action: RestartAction::Done, events }
    } else {
        assert(event_models(events@) =~= Seq::empty());
        RestartStep { action: RestartAction::StartCapture, events }
    }
}

/// Starts or restarts capture to match the current settings. This is the only
/// place that starts or stops capture. A restart stops the running pipeline,
/// clears the ring buffer for a new timeline, and starts a pipeline unless no
/// video device is selected.
pub fn restart_capture<C>(
    state: &mut DaemonState<C>,
    ring_buffer: &mut RingBuffer,
    history: &mut LogHistory,
    event: RestartEvent<C>,
) -> (step: RestartStep<C>)
    requires
        old(ring_buffer).wf(),
    ensures
        final(ring_buffer).wf(),
        final(history)@ == recorded(old(history)@, event_models(step.events@)),
        final(state).settings == old(state).settings,
        match event {
            RestartEvent::Begin => match old(state).capture {
                Some(c) => {
                    &&& step.action == RestartAction::StopOld(c)
                    &&& final(state).capture is None
                    &&& final(ring_buffer)@ == old(ring_buffer)@
                    &&& step.events@.len() == 1
                    &&& describes(step.events@[0]@, LogLevel::Info, "capture"@, "stopping existing pipeline"@)
                },
                None => stop_done(*old(state), *final(state), old(ring_buffer)@, final(ring_buffer)@, step),
            },
            RestartEvent::OldStopped => stop_done(*old(state), *final(state), old(ring_buffer)@, final(ring_buffer)@, step),
            RestartEvent::Started(c) => {
                &&& step.action is Done
                &&& final(state).capture == Some(c)
                &&& final(ring_buffer)@ == old(ring_buffer)@
                &&& step.events@.len() == 1
                &&& describes(step.events@[0]@, LogLevel::Info, "capture"@, "pipeline started"@)
            },
            RestartEvent::StartFailed => {
                &&& step.action is Done
                &&& final(state).capture == old(state).capture
                &&& final(ring_buffer)@ == old(ring_buffer)@
                &&& step.events@.len() == 0
            },
        },
{
    match event {
        RestartEvent::Begin => {
            match state.capture.take() {
                Some(old_capture) => {
                    let mut events: Vec<LogEvent> = Vec::new();
                    let ghost h0 = history@;
                    log_to(history, &mut events, LogLevel::Info, "capture", "stopping existing pipeline");
                    proof {
                        lemma_recorded_step(h0, Seq::empty(), events@);
                        assert(event_models(Seq::<LogEvent>::empty()) =~= Seq::empty());
                    }
                    RestartStep { action: RestartAction::StopOld(old_capture), events }
                },
                None => after_stop(state, ring_buffer, history),
            }
        },
        RestartEvent::OldStopped => after_stop(state, ring_buffer, history),
        RestartEvent::Started(c) => {
            state.capture = Some(c);
            let mut events: Vec<LogEvent> = Vec::new();
            let ghost h0 = history@;
            log_to(history, &mut events, LogLevel::Info, "capture", "pipeline started");
            proof {
                lemma_recorded_step(h0, Seq::empty(), events@);
                assert(event_models(Seq::<LogEvent>::empty()) =~= Seq::empty());
            }
            RestartStep { action: RestartAction::Done, events }
        },
        RestartEvent::StartFailed => {
            let events: Vec<LogEvent> = Vec::new();
            assert(event_models(events@) =~= Seq::empty());
            RestartStep { action: RestartAction::Done, events }
        },
    }
}

/// The step after the old pipeline is gone: buffer cleared, capture absent, and
/// a start requested exactly when a video device is selected.
pub open spec fn stop_done<C>(
    before: DaemonState<C>,
    after: DaemonState<C>,
    rb_before: crate::ring_buffer::RingBufferModel,
    rb_after: crate::ring_buffer::RingBufferModel,
    step: RestartStep<C>,
) -> bool {
    &&& after.capture == before.capture
    &&& rb_after == rb_before.cleared()
    &&& if before.settings.video_device_id@.len() == 0 {
        &&& step.action is Done
        &&& step.events@.len() == 1
        &&& describes(step.events@[0]@, LogLevel::Warning, "capture"@, "no video device available; capture disabled"@)
    } else {
        &&& step.action is StartCapture
        &&& step.events@.len() == 0
    }
}

} // verus!
