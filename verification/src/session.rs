//! The streaming session of one client: the message that is pushed at each
//! tick, and the session's life from its start to its end.
//!
//! A session samples the sensors, appends the sample to the shared history,
//! sends the message and sleeps, again and again, until a write fails, the
//! peer closes or the process shuts down. This module decides; the caller
//! reads the sensors, writes to the socket and sleeps.

use crate::history::{
    appended, get_metrics_history, store_metrics_data, DataPoint, MetricsHistory, FULL_LOAD,
    SAMPLE_PERIOD_MS,
};
use crate::sensors::{round_thousandths, rounded};
use crate::text::{trim, trimmed};
use vstd::prelude::*;
use vstd::string::*;

verus! {

/// What the sensors gave at one tick.
#[derive(Clone, Copy, Debug, PartialEq, Eq, Structural)]
pub struct Readings {
    /// CPU usage in thousandths of a percent.
    pub cpu_usage: u32,
    /// Temperature in thousandths of a degree Celsius.
    pub temperature: u32,
    /// Fan speed in revolutions per minute.
    pub fan_speed: u32,
}

/// The message that a client gets at each tick: the present readings as
/// whole numbers, the name of the node, and the history.
#[derive(Debug)]
pub struct Snapshot {
    /// CPU usage in percent, rounded.
    pub cpu_usage: u32,
    /// Temperature in degrees Celsius, rounded.
    pub cpu_temperature: u32,
    /// Fan speed in revolutions per minute.
    pub fan_speed: u32,
    /// The name of the node.
    pub node_name: String,
    /// The samples of the history, oldest first, not rounded.
    pub metrics_history: Vec<DataPoint>,
}

/// A field of the message as it goes over the wire, or of one sample of its
/// history.
#[derive(Clone, Copy, Debug, PartialEq, Eq, Structural)]
pub enum WireField {
    /// The rounded CPU usage of the message.
    CpuUsage,
    /// The rounded temperature of the message.
    CpuTemperature,
    /// The fan speed of the message.
    FanSpeed,
    /// The name of the node.
    NodeName,
    /// The list of samples.
    MetricsHistory,
    /// The timestamp of a sample, in milliseconds since the Unix epoch.
    PointTimestamp,
    /// The CPU usage of a sample, as a fraction.
    PointCpuUsage,
    /// The temperature of a sample, as a fraction.
    PointTemperature,
    /// The fan speed of a sample.
    PointFanSpeed,
}

/// The name under which `field` stands in the JSON text of a message.
pub open spec fn wire_name_of(field: WireField) -> Seq<char> {
    match field {
        WireField::CpuUsage => "cpuUsage"@,
        WireField::CpuTemperature => "cpuTemperature"@,
        WireField::FanSpeed => "fanSpeed"@,
        WireField::NodeName => "nodeName"@,
        WireField::MetricsHistory => "metricsHistory"@,
        WireField::PointTimestamp => "timestamp"@,
        WireField::PointCpuUsage => "cpuUsage"@,
        WireField::PointTemperature => "temperature"@,
        WireField::PointFanSpeed => "fanSpeed"@,
    }
}

/// The name under which `field` stands in the JSON text of a message.
pub fn wire_name(field: WireField) -> (name: &'static str)
    ensures
        name@ == wire_name_of(field),
{
    match field {
        WireField::CpuUsage => "cpuUsage",
        WireField::CpuTemperature => "cpuTemperature",
        WireField::FanSpeed => "fanSpeed",
        WireField::NodeName => "nodeName",
        WireField::MetricsHistory => "metricsHistory",
        WireField::PointTimestamp => "timestamp",
        WireField::PointCpuUsage => "cpuUsage",
        WireField::PointTemperature => "temperature",
        WireField::PointFanSpeed => "fanSpeed",
    }
}

/// Whether `snapshot` is the message for `readings` on the node `node_name`
/// with the history `points`.
pub open spec fn is_snapshot_of(
    snapshot: Snapshot,
    readings: Readings,
    node_name: Seq<char>,
    points: Seq<DataPoint>,
) -> bool {
    &&& snapshot.cpu_usage == round_thousandths(readings.cpu_usage as int)
    &&& snapshot.cpu_temperature == round_thousandths(readings.temperature as int)
    &&& snapshot.fan_speed == readings.fan_speed
    &&& snapshot.node_name@ == node_name
    &&& snapshot.metrics_history@ == points
}

/// The sample that `readings` make at the instant `now`.
pub open spec fn sample_at(readings: Readings, now: i64) -> DataPoint {
    DataPoint {
        timestamp: now,
        cpu_usage: readings.cpu_usage,
        temperature: readings.temperature,
        fan_speed: readings.fan_speed,
    }
}

/// The message for `readings` on the node `node_name` with the history
/// `points`.
pub fn build_snapshot(readings: Readings, node_name: &str, points: Vec<DataPoint>) -> (snapshot:
    Snapshot)
    ensures
        is_snapshot_of(snapshot, readings, node_name@, points@),
        readings.cpu_usage <= FULL_LOAD ==> snapshot.cpu_usage <= 100,
{
    Snapshot {
        cpu_usage: rounded(readings.cpu_usage),
        cpu_temperature: rounded(readings.temperature),
        fan_speed: readings.fan_speed,
        node_name: String::from_str(node_name),
        metrics_history: points,
    }
}

/// The message of a tick on which the history cannot be reached: the
/// readings and the name of the node with an empty history. The tick goes on
/// and the client gets what there is.
pub fn degraded_snapshot(readings: Readings, node_name: &str) -> (snapshot: Snapshot)
    ensures
        is_snapshot_of(snapshot, readings, node_name@, Seq::<DataPoint>::empty()),
{
    build_snapshot(readings, node_name, Vec::new())
}

/// One tick of a session after the sensors were read: the sample is taken
/// at the present instant and appended to `history`, and the message is made
/// of the readings and of the history as it then is. The sample is the last
/// point of the message's history, and its timestamp is the instant of the
/// tick.
pub fn tick(history: &mut MetricsHistory, readings: Readings, node_name: &str) -> (snapshot:
    Snapshot)
    ensures
        final(history).window() == old(history).window(),
        is_snapshot_of(snapshot, readings, node_name@, final(history)@),
        final(history)@.len() > 0,
        final(history)@ == appended(
            old(history)@,
            sample_at(readings, final(history)@.last().timestamp),
            final(history)@.last().timestamp as int,
            old(history).window(),
        ),
{
    let _ = store_metrics_data(
        history,
        readings.cpu_usage,
        readings.temperature,
        readings.fan_speed,
    );
    let points = get_metrics_history(history);
    build_snapshot(readings, node_name, points)
}

/// The name of the node: the environment's `NODE_NAME` as it is, where it is
/// set; else the text of the host name file, trimmed, where it could be
/// read; else `unknown`.
pub open spec fn node_name_of(env: Option<Seq<char>>, host_file: Option<Seq<char>>) -> Seq<char> {
    match env {
        Some(name) => name,
        None => match host_file {
            Some(text) => trim(text),
            None => "unknown"@,
        },
    }
}

/// Resolves the name of the node. `env` is the value of the environment's
/// `NODE_NAME`, `host_file` the text of `/etc/hostname`, each `None` where
/// it could not be had.
pub fn resolve_node_name(env: Option<String>, host_file: Option<String>) -> (name: String)
    ensures
        name@ == node_name_of(
            match env {
                Some(e) => Some(e@),
                None => None,
            },
            match host_file {
                Some(h) => Some(h@),
                None => None,
            },
        ),
{
    match env {
        Some(name) => name,
        None => match host_file {
            Some(text) => String::from_str(trimmed(text.as_str())),
            None => String::from_str("unknown"),
        },
    }
}

/// Whether a session is alive.
#[derive(Clone, Copy, Debug, PartialEq, Eq, Structural)]
pub enum SessionState {
    /// The session samples and sends.
    Running,
    /// The session has ended. It never runs again.
    Terminated,
}

/// What happened to a session.
#[derive(Clone, Copy, Debug, PartialEq, Eq, Structural)]
pub enum SessionEvent {
    /// It is time for a tick: the session has just started, or its sleep is
    /// over.
    Tick,
    /// The message was written to the socket.
    WriteOk,
    /// The write failed, for whatever reason.
    WriteFailed,
    /// The peer closed the connection.
    PeerClosed,
    /// The process is shutting down.
    Shutdown,
}

/// What the caller does next for a session.
#[derive(Clone, Copy, Debug, PartialEq, Eq, Structural)]
pub enum SessionAction {
    /// Refresh the sampler, read the sensors, make the message with `tick`
    /// and write it to the socket.
    SampleAndSend,
    /// Sleep for so many milliseconds, then tick.
    Sleep { millis: u64 },
    /// Close the socket if it is still open, and drop the session.
    Close,
    /// Nothing: the session has ended before.
    Nothing,
}

/// Whether `event` ends a running session.
pub open spec fn ends_session(event: SessionEvent) -> bool {
    event == SessionEvent::WriteFailed || event == SessionEvent::PeerClosed || event
        == SessionEvent::Shutdown
}

/// The state of a session after `event`.
pub open spec fn next_state(state: SessionState, event: SessionEvent) -> SessionState {
    if state == SessionState::Running && !ends_session(event) {
        SessionState::Running
    } else {
        SessionState::Terminated
    }
}

/// What the caller does after `event` came to a session in `state` that
/// sleeps for `period` milliseconds between two ticks.
pub open spec fn next_action_every(
    state: SessionState,
    event: SessionEvent,
    period: u64,
) -> SessionAction {
    match state {
        SessionState::Terminated => SessionAction::Nothing,
        SessionState::Running => match event {
            SessionEvent::Tick => SessionAction::SampleAndSend,
            SessionEvent::WriteOk => SessionAction::Sleep { millis: period },
            _ => SessionAction::Close,
        },
    }
}

/// What the caller does after `event` came to a session in `state` that
/// sleeps for the default sample period.
pub open spec fn next_action(state: SessionState, event: SessionEvent) -> SessionAction {
    next_action_every(state, event, SAMPLE_PERIOD_MS)
}

/// The state in which a session starts. Its first event is a tick, so the
/// first message is a sampled one.
pub fn session_start() -> (state: SessionState)
    ensures
        state == SessionState::Running,
{
    SessionState::Running
}

/// One step of a session that sleeps for `period` milliseconds between two
/// ticks: the state after `event`, and what the caller does next. A failed
/// write, a closed peer and a shutdown end the session; an ended session
/// stays so.
pub fn session_step_every(state: SessionState, event: SessionEvent, period: u64) -> (next: (
    SessionState,
    SessionAction,
))
    ensures
        next.0 == next_state(state, event),
        next.1 == next_action_every(state, event, period),
{
    match state {
        SessionState::Terminated => (SessionState::Terminated, SessionAction::Nothing),
        SessionState::Running => match event {
            SessionEvent::Tick => (SessionState::Running, SessionAction::SampleAndSend),
            SessionEvent::WriteOk => (
                SessionState::Running,
                SessionAction::Sleep { millis: period },
            ),
            SessionEvent::WriteFailed => (SessionState::Terminated, SessionAction::Close),
            SessionEvent::PeerClosed => (SessionState::Terminated, SessionAction::Close),
            SessionEvent::Shutdown => (SessionState::Terminated, SessionAction::Close),
        },
    }
}

/// One step of a session that sleeps for the default sample period between
/// two ticks.
pub fn session_step(state: SessionState, event: SessionEvent) -> (next: (
    SessionState,
    SessionAction,
))
    ensures
        next.0 == next_state(state, event),
        next.1 == next_action(state, event),
{
    session_step_every(state, event, SAMPLE_PERIOD_MS)
}

/// The state of a session that started running and then met `events` in
/// turn.
pub open spec fn state_after(events: Seq<SessionEvent>) -> SessionState
    decreases events.len(),
{
    if events.len() == 0 {
        SessionState::Running
    } else {
        next_state(state_after(events.drop_last()), events.last())
    }
}

/// A session runs for exactly as long as no event has ended it: it is
/// terminated after a run of events if and only if one of them was a failed
/// write, a closed peer or a shutdown. So the ended state is never left, and
/// the first failed write ends the session.
pub proof fn lemma_terminated_iff_ended(events: Seq<SessionEvent>)
    ensures
        state_after(events) == SessionState::Terminated <==> exists|i: int|
            0 <= i < events.len() && ends_session(#[trigger] events[i]),
    decreases events.len(),
{
    if events.len() > 0 {
        let before = events.drop_last();
        lemma_terminated_iff_ended(before);
        if state_after(events) == SessionState::Terminated {
            if state_after(before) == SessionState::Terminated {
                let i = choose|i: int| 0 <= i < before.len() && ends_session(#[trigger] before[i]);
                assert(events[i] == before[i]);
            } else {
                assert(ends_session(events[events.len() - 1]));
            }
        }
        if exists|i: int| 0 <= i < events.len() && ends_session(#[trigger] events[i]) {
            let i = choose|i: int| 0 <= i < events.len() && ends_session(#[trigger] events[i]);
            if i < before.len() {
                assert(before[i] == events[i]);
            }
        }
    }
}

/// After a session has terminated, every event leaves it terminated and asks
/// nothing of the caller.
pub proof fn lemma_terminated_is_absorbing(event: SessionEvent)
    ensures
        next_state(SessionState::Terminated, event) == SessionState::Terminated,
        next_action(SessionState::Terminated, event) == SessionAction::Nothing,
{
}

/// Whether the instants `times` lie at least `period` apart, each after the
/// one before: the ticks of a session that sleeps for `period` between two
/// of them.
pub open spec fn spaced(times: Seq<int>, period: int) -> bool {
    forall|i: int| 0 <= i < times.len() - 1 ==> #[trigger] times[i + 1] - times[i] >= period
}

/// Whether every instant of `times` lies in the span of `span` milliseconds
/// that begins at `start`.
pub open spec fn within(times: Seq<int>, start: int, span: int) -> bool {
    forall|i: int| 0 <= i < times.len() ==> start <= #[trigger] times[i] <= start + span
}

/// The number of ticks of all of `sessions` together.
pub open spec fn total_ticks(sessions: Seq<Seq<int>>) -> nat
    decreases sessions.len(),
{
    if sessions.len() == 0 {
        0
    } else {
        total_ticks(sessions.drop_last()) + sessions.last().len()
    }
}

/// A session that sleeps for `period` between two ticks ticks at most
/// `span / period + 1` times in a span of `span` milliseconds.
pub proof fn lemma_tick_count(times: Seq<int>, period: int, start: int, span: int)
    requires
        period > 0,
        span >= 0,
        spaced(times, period),
        within(times, start, span),
    ensures
        times.len() <= span / period + 1,
{
    let n = times.len() as int;
    if n > 0 {
        lemma_tick_instant(times, period, n - 1);
        assert(times[0] >= start);
        assert(times[n - 1] <= start + span);
        assert((n - 1) * period <= span);
        assert(n - 1 <= span / period) by (nonlinear_arith)
            requires
                (n - 1) * period <= span,
                period > 0,
                span >= 0,
                n >= 1,
        ;
    } else {
        assert(span / period >= 0) by (nonlinear_arith)
            requires
                period > 0,
                span >= 0,
        ;
    }
}

/// The tick at index `i` of a session comes at least `i` periods after its
/// first tick.
pub proof fn lemma_tick_instant(times: Seq<int>, period: int, i: int)
    requires
        spaced(times, period),
        0 <= i < times.len(),
    ensures
        times[i] >= times[0] + i * period,
    decreases i,
{
    if i > 0 {
        let j = i - 1;
        lemma_tick_instant(times, period, j);
        assert(times[j + 1] - times[j] >= period);
        assert(j * period + period == i * period) by (nonlinear_arith)
            requires
                j == i - 1,
        ;
    } else {
        assert(i * period == 0) by (nonlinear_arith)
            requires
                i == 0,
        ;
    }
}

/// However many sessions tick side by side for `span` milliseconds, each
/// sleeping for `period` between two ticks, together they tick at most
/// `span / period + 1` times each. The history holds no more samples than
/// were appended, so this bounds its length too.
pub proof fn lemma_total_ticks(sessions: Seq<Seq<int>>, period: int, start: int, span: int)
    requires
        period > 0,
        span >= 0,
        forall|k: int| 0 <= k < sessions.len() ==> spaced(#[trigger] sessions[k], period),
        forall|k: int| 0 <= k < sessions.len() ==> within(#[trigger] sessions[k], start, span),
    ensures
        total_ticks(sessions) <= sessions.len() * (span / period) + sessions.len(),
    decreases sessions.len(),
{
    if sessions.len() > 0 {
        let before = sessions.drop_last();
        assert forall|k: int| 0 <= k < before.len() implies spaced(
            #[trigger] before[k],
            period,
        ) by {
            assert(before[k] == sessions[k]);
        }
        assert forall|k: int| 0 <= k < before.len() implies within(
            #[trigger] before[k],
            start,
            span,
        ) by {
            assert(before[k] == sessions[k]);
        }
        lemma_total_ticks(before, period, start, span);
        lemma_tick_count(sessions.last(), period, start, span);
        let each = span / period;
        let count = sessions.len() as int;
        assert((count - 1) * each + each == count * each) by (nonlinear_arith);
    }
}

} // verus!
