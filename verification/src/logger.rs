use std::collections::VecDeque;
use vstd::prelude::*;
use crate::text::{all_digits, date_time_fields, opt_view};

verus! {

/// How many events the log history keeps; older ones are dropped first.
pub const MAX_BUFFERED_LOGS: usize = 2000;

/// Severity of a log event.
#[derive(Clone, Copy, PartialEq, Eq, Structural, Debug)]
pub enum LogLevel {
    Debug,
    Info,
    Warning,
    Error,
}

/// What a log event says.
pub struct LogEventModel {
    pub timestamp: Seq<char>,
    pub level: LogLevel,
    pub source: Seq<char>,
    pub message: Seq<char>,
}

/// One log line: when, how severe, from which component, and what.
#[derive(Debug)]
pub struct LogEvent {
    pub timestamp: String,
    pub level: LogLevel,
    pub source: String,
    pub message: String,
}

impl View for LogEvent {
    type V = LogEventModel;

    open spec fn view(&self) -> LogEventModel {
        LogEventModel {
            timestamp: self.timestamp@,
            level: self.level,
            source: self.source@,
            message: self.message@,
        }
    }
}

impl Clone for LogEvent {
    fn clone(&self) -> (res: Self)
        ensures
            res@ == self@,
    {
        LogEvent {
            timestamp: self.timestamp.clone(),
            level: self.level,
            source: self.source.clone(),
            message: self.message.clone(),
        }
    }
}

/// The last `n` elements of `s`, or all of them where there are fewer.
pub open spec fn keep_last<T>(s: Seq<T>, n: nat) -> Seq<T> {
    if s.len() > n {
        s.subrange(s.len() - n, s.len() as int)
    } else {
        s
    }
}

/// The models of a sequence of events, in order.
pub open spec fn event_models(es: Seq<LogEvent>) -> Seq<LogEventModel> {
    es.map_values(|e: LogEvent| e@)
}

/// The most recent log events, oldest first, at most `MAX_BUFFERED_LOGS` of them.
pub struct LogHistory {
    events: VecDeque<LogEvent>,
}

impl View for LogHistory {
    type V = Seq<LogEventModel>;

    closed spec fn view(&self) -> Seq<LogEventModel> {
        event_models(self.events@)
    }
}

impl LogHistory {
    /// An empty history.
    pub fn new() -> (h: Self)
        ensures
            h@ == Seq::<LogEventModel>::empty(),
    {
        let h = LogHistory { events: VecDeque::new() };
        assert(h@ =~= Seq::<LogEventModel>::empty());
        h
    }

    /// Appends an event, dropping the oldest ones beyond the limit.
    pub fn record(&mut self, event: LogEvent)
        ensures
            final(self)@ == keep_last(old(self)@.push(event@), MAX_BUFFERED_LOGS as nat),
    {
        let ghost all = old(self)@.push(event@);
        self.events.push_back(event);
        assert(event_models(self.events@) =~= all);
        while self.events.len() > MAX_BUFFERED_LOGS
            invariant
                all.len() > MAX_BUFFERED_LOGS ==> self.events@.len() >= MAX_BUFFERED_LOGS,
                all.len() <= MAX_BUFFERED_LOGS ==> self.events@.len() == all.len(),
                self.events@.len() <= all.len(),
                event_models(self.events@) == all.subrange(all.len() - self.events@.len(), all.len() as int),
            decreases self.events@.len(),
        {
            let ghost prev = self.events@;
            let _ = self.events.pop_front();
            assert(event_models(self.events@) =~= event_models(prev).drop_first());
        }
        assert(all.subrange(0, all.len() as int) =~= all);
    }

    /// A copy of the events held, oldest first.
    pub fn recent(&self) -> (res: Vec<LogEvent>)
        ensures
            event_models(res@) == self@,
    {
        let mut res: Vec<LogEvent> = Vec::new();
        let n = self.events.len();
        for i in 0..n
            invariant
                n == self.events@.len(),
                event_models(res@) == event_models(self.events@).subrange(0, i as int),
        {
            let e = self.events[i].clone();
            let ghost prev = res@;
            res.push(e);
            assert(event_models(res@) =~= event_models(prev).push(e@));
        }
        assert(event_models(self.events@).subrange(0, n as int) =~= event_models(self.events@));
        res
    }

    /// Number of events held.
    pub fn len(&self) -> (n: usize)
        ensures
            n == self@.len(),
    {
        self.events.len()
    }
}

/// Whether an event of this level goes to the error stream rather than standard output.
pub fn writes_to_stderr(level: LogLevel) -> (b: bool)
    ensures
        b == (level == LogLevel::Error || level == LogLevel::Warning),
{
    match level {
        LogLevel::Error | LogLevel::Warning => true,
        _ => false,
    }
}

/// The event built for `level`, `source`, `message` at `timestamp`.
pub open spec fn event_at(level: LogLevel, source: Seq<char>, message: Seq<char>, timestamp: Seq<char>) -> LogEventModel {
    LogEventModel { timestamp, level, source, message }
}

/// Builds the event, records it in the history, and returns it for delivery.
pub fn emit_at(history: &mut LogHistory, level: LogLevel, source: &str, message: &str, timestamp: String) -> (event: LogEvent)
    ensures
        event@ == event_at(level, source@, message@, timestamp@),
        final(history)@ == keep_last(old(history)@.push(event@), MAX_BUFFERED_LOGS as nat),
{
    let event = LogEvent {
        timestamp,
        level,
        source: String::from_str(source),
        message: String::from_str(message),
    };
    history.record(event.clone());
    event
}


/// The system clock's distance from the Unix epoch: `UNIX_EPOCH.elapsed()`
/// (`SystemTime::elapsed`), as whether the clock is at or after the epoch,
/// whole seconds and the nanoseconds beyond them (`Duration::as_secs`,
/// `Duration::subsec_nanos`, the latter always below one billion). The value
/// depends on the clock; a clock before the epoch is an error whose duration
/// is the distance.
#[verifier::external_body]
fn clock_since_epoch() -> (r: (bool, u64, u32))
    ensures
        r.2 < 1_000_000_000,
{
    match std::time::UNIX_EPOCH.elapsed() {
        Ok(d) => (true, d.as_secs(), d.subsec_nanos()),
        Err(e) => (false, e.duration().as_secs(), e.duration().subsec_nanos()),
    }
}

/// The farthest a timestamp is written from the epoch, in seconds (about
/// 253 000 years, inside the dates chrono represents).
pub const MAX_STAMP_SECS: i64 = 8_000_000_000_000;

/// The signed distance from the epoch, in nanoseconds.
pub open spec fn signed_nanos(after: bool, secs: u64, nanos: u32) -> int {
    let d = secs as int * 1_000_000_000 + nanos as int;
    if after { d } else { -d }
}

/// A clock reading as chrono's seconds and nanoseconds (the nanoseconds below
/// one billion, negative seconds before the epoch, as chrono converts a
/// `SystemTime`), held to at most `MAX_STAMP_SECS` from the epoch.
pub fn timestamp_parts(after: bool, secs: u64, nanos: u32) -> (r: (i64, u32))
    requires
        nanos < 1_000_000_000,
    ensures
        r.1 < 1_000_000_000,
        -MAX_STAMP_SECS <= r.0 <= MAX_STAMP_SECS,
        ({
            let t = signed_nanos(after, secs, nanos);
            &&& t > MAX_STAMP_SECS * 1_000_000_000 ==> r.0 == MAX_STAMP_SECS && r.1 == 0
            &&& t < -MAX_STAMP_SECS * 1_000_000_000 ==> r.0 == -MAX_STAMP_SECS && r.1 == 0
            &&& -MAX_STAMP_SECS * 1_000_000_000 <= t <= MAX_STAMP_SECS * 1_000_000_000
                ==> r.0 * 1_000_000_000 + r.1 == t
        }),
{
    if after {
        if secs >= 8_000_000_000_000u64 {
            return (MAX_STAMP_SECS, 0);
        }
        (secs as i64, nanos)
    } else {
        if secs >= 8_000_000_000_000u64 {
            return (-MAX_STAMP_SECS, 0);
        }
        if nanos == 0 {
            (0 - secs as i64, 0)
        } else {
            (0 - secs as i64 - 1, 1_000_000_000 - nanos)
        }
    }
}

/// Whether `f` is the fraction of a second chrono writes in RFC 3339: none,
/// or a dot and three, six or nine digits.
pub open spec fn fraction_shape(f: Seq<char>) -> bool {
    ||| f.len() == 0
    ||| ((f.len() == 4 || f.len() == 7 || f.len() == 10) && f[0] == '.' && all_digits(f.drop_first()))
}

/// Whether `s` is an RFC 3339 UTC time as chrono's `to_rfc3339` writes it:
/// `<year>-MM-DDTHH:MM:SS`, an optional fraction, then `+00:00`.
pub open spec fn rfc3339_utc_shape(s: Seq<char>) -> bool {
    exists|f: int| 0 <= f && f + 6 <= s.len()
        && #[trigger] fraction_shape(s.subrange(s.len() - 6 - f, s.len() - 6))
        && date_time_fields(s.subrange(0, s.len() - 6 - f), seq!['-', '-', 'T', ':', ':'])
        && s.subrange(s.len() - 6, s.len() as int) == "+00:00"@
}

/// The RFC 3339 text chrono writes for a UTC time given as seconds and
/// nanoseconds from the epoch, where it represents that time.
pub uninterp spec fn rfc3339_utc_of(secs: i64, nanos: u32) -> Option<Seq<char>>;

/// A UTC time in RFC 3339: `DateTime::<Utc>::from_timestamp`, then
/// `DateTime::to_rfc3339`. The text depends only on the arguments. chrono
/// represents every time within `MAX_STAMP_SECS` of the epoch (its dates
/// reach years -262144 to 262143); the text has chrono's RFC 3339 shape with
/// the offset `+00:00`.
#[verifier::external_body]
fn rfc3339_utc(secs: i64, nanos: u32) -> (r: Option<String>)
    ensures
        opt_view(r) == rfc3339_utc_of(secs, nanos),
        -MAX_STAMP_SECS <= secs <= MAX_STAMP_SECS && nanos < 1_000_000_000 ==> r is Some,
        r matches Some(t) ==> rfc3339_utc_shape(t@),
{
    chrono::DateTime::<chrono::Utc>::from_timestamp(secs, nanos).map(|time| time.to_rfc3339())
}

/// The current UTC time in RFC 3339, as chrono writes it; a clock more than
/// `MAX_STAMP_SECS` from the epoch is written as that limit.
pub fn now_rfc3339() -> (r: String)
    ensures
        rfc3339_utc_shape(r@),
        exists|secs: i64, nanos: u32| -MAX_STAMP_SECS <= secs <= MAX_STAMP_SECS && nanos < 1_000_000_000
            && #[trigger] rfc3339_utc_of(secs, nanos) == Some(r@),
{
    let (after, secs, nanos) = clock_since_epoch();
    let (s, n) = timestamp_parts(after, secs, nanos);
    match rfc3339_utc(s, n) {
        Some(t) => t,
        None => String::new(),
    }
}

/// Builds an event stamped with the current time, records it in the history,
/// and returns it for delivery to subscribers and the console.
pub fn emit(history: &mut LogHistory, level: LogLevel, source: &str, message: &str) -> (event: LogEvent)
    ensures
        rfc3339_utc_shape(event.timestamp@),
        event.level == level,
        event.source@ == source@,
        event.message@ == message@,
        final(history)@ == keep_last(old(history)@.push(event@), MAX_BUFFERED_LOGS as nat),
{
    let timestamp = now_rfc3339();
    emit_at(history, level, source, message, timestamp)
}

/// Emits an event at level `Info`.
pub fn info(history: &mut LogHistory, source: &str, message: &str) -> (event: LogEvent)
    ensures
        rfc3339_utc_shape(event.timestamp@),
        event.level == LogLevel::Info,
        event.source@ == source@,
        event.message@ == message@,
        final(history)@ == keep_last(old(history)@.push(event@), MAX_BUFFERED_LOGS as nat),
{
    emit(history, LogLevel::Info, source, message)
}

/// Emits an event at level `Warning`.
pub fn warn(history: &mut LogHistory, source: &str, message: &str) -> (event: LogEvent)
    ensures
        rfc3339_utc_shape(event.timestamp@),
        event.level == LogLevel::Warning,
        event.source@ == source@,
        event.message@ == message@,
        final(history)@ == keep_last(old(history)@.push(event@), MAX_BUFFERED_LOGS as nat),
{
    emit(history, LogLevel::Warning, source, message)
}

/// Emits an event at level `Error`.
pub fn error(history: &mut LogHistory, source: &str, message: &str) -> (event: LogEvent)
    ensures
        rfc3339_utc_shape(event.timestamp@),
        event.level == LogLevel::Error,
        event.source@ == source@,
        event.message@ == message@,
        final(history)@ == keep_last(old(history)@.push(event@), MAX_BUFFERED_LOGS as nat),
{
    emit(history, LogLevel::Error, source, message)
}

/// Emits an event at level `Debug`.
pub fn debug(history: &mut LogHistory, source: &str, message: &str) -> (event: LogEvent)
    ensures
        rfc3339_utc_shape(event.timestamp@),
        event.level == LogLevel::Debug,
        event.source@ == source@,
        event.message@ == message@,
        final(history)@ == keep_last(old(history)@.push(event@), MAX_BUFFERED_LOGS as nat),
{
    emit(history, LogLevel::Debug, source, message)
}

/// The console line for an event: `[source] message`.
pub open spec fn console_line_spec(e: LogEventModel) -> Seq<char> {
    seq!['['] + e.source + seq![']', ' '] + e.message
}

/// Formats the console line of an event.
pub fn console_line(event: &LogEvent) -> (line: String)
    ensures
        line@ == console_line_spec(event@),
{
    let mut line = String::from_str("[");
    line.append(event.source.as_str());
    line.append("] ");
    line.append(event.message.as_str());
    proof {
        reveal_strlit("[");
        reveal_strlit("] ");
        assert(line@ =~= console_line_spec(event@));
    }
    line
}

/// Law: the history never holds more than `MAX_BUFFERED_LOGS` events, and
/// after recording an event, that event is the newest one held, and the events
/// held before it are the newest of those held before, in the same order.
pub proof fn law_history_is_bounded_and_ordered(h: LogHistory, e: LogEvent)
    ensures
        ({
            let after = keep_last(h@.push(e@), MAX_BUFFERED_LOGS as nat);
            &&& after.len() <= MAX_BUFFERED_LOGS
            &&& after.len() == if h@.len() + 1 > MAX_BUFFERED_LOGS { MAX_BUFFERED_LOGS as int } else { h@.len() + 1int }
            &&& after.last() == e@
            &&& after.drop_last() == h@.subrange(h@.len() + 1 - after.len(), h@.len() as int)
        }),
{
    let all = h@.push(e@);
    let after = keep_last(all, MAX_BUFFERED_LOGS as nat);
    assert(after.drop_last() =~= h@.subrange(h@.len() + 1 - after.len(), h@.len() as int));
}


/// The history after recording the events `es` one after the other.
pub open spec fn recorded(h: Seq<LogEventModel>, es: Seq<LogEventModel>) -> Seq<LogEventModel>
    decreases es.len(),
{
    if es.len() == 0 {
        h
    } else {
        keep_last(recorded(h, es.drop_last()).push(es.last()), MAX_BUFFERED_LOGS as nat)
    }
}

/// Whether the event has this level, source and message.
pub open spec fn describes(e: LogEventModel, level: LogLevel, source: Seq<char>, message: Seq<char>) -> bool {
    e.level == level && e.source == source && e.message == message
}

/// Emits an event and appends it to `out`, the events still to be delivered.
pub fn log_to(history: &mut LogHistory, out: &mut Vec<LogEvent>, level: LogLevel, source: &str, message: &str)
    ensures
        final(out)@.len() == old(out)@.len() + 1,
        final(out)@.subrange(0, old(out)@.len() as int) == old(out)@,
        describes(final(out)@.last()@, level, source@, message@),
        final(history)@ == keep_last(old(history)@.push(final(out)@.last()@), MAX_BUFFERED_LOGS as nat),
{
    let e = emit(history, level, source, message);
    out.push(e);
    assert(out@.subrange(0, old(out)@.len() as int) =~= old(out)@);
}

/// After `log_to`, the history is the old one with all delivered events recorded.
pub proof fn lemma_recorded_step(h0: Seq<LogEventModel>, before: Seq<LogEvent>, after: Seq<LogEvent>)
    requires
        after.len() == before.len() + 1,
        after.subrange(0, before.len() as int) == before,
    ensures
        recorded(h0, event_models(after)) == keep_last(recorded(h0, event_models(before)).push(after.last()@), MAX_BUFFERED_LOGS as nat),
{
    assert(event_models(after).drop_last() =~= event_models(before));
}

} // verus!
