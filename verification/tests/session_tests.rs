use node_metrics::history::{DataPoint, MetricsHistory, SAMPLE_PERIOD_MS};
use node_metrics::sensors::{read_cpu_temperature, read_fan_speed, SensorFiles};
use node_metrics::session::{
    build_snapshot, degraded_snapshot, resolve_node_name, session_start, session_step,
    session_step_every, tick, wire_name, Readings, SessionAction, SessionEvent, SessionState,
    WireField,
};

const EVENTS: [SessionEvent; 5] = [
    SessionEvent::Tick,
    SessionEvent::WriteOk,
    SessionEvent::WriteFailed,
    SessionEvent::PeerClosed,
    SessionEvent::Shutdown,
];

#[test]
fn snapshot_rounds_the_present_readings() {
    let readings = Readings { cpu_usage: 37_500, temperature: 52_499, fan_speed: 2400 };
    let points = vec![DataPoint { timestamp: 5, cpu_usage: 1, temperature: 2, fan_speed: 3 }];
    let snapshot = build_snapshot(readings, "node-a", points.clone());
    assert_eq!(snapshot.cpu_usage, 38);
    assert_eq!(snapshot.cpu_temperature, 52);
    assert_eq!(snapshot.fan_speed, 2400);
    assert_eq!(snapshot.node_name, "node-a");
    assert_eq!(snapshot.metrics_history, points);
}

#[test]
fn snapshot_of_full_load_is_one_hundred() {
    let readings = Readings { cpu_usage: 100_000, temperature: 0, fan_speed: 0 };
    let snapshot = build_snapshot(readings, "", Vec::new());
    assert_eq!(snapshot.cpu_usage, 100);
    assert_eq!(snapshot.cpu_temperature, 0);
    assert_eq!(snapshot.node_name, "");
    assert!(snapshot.metrics_history.is_empty());
}

#[test]
fn first_frame_holds_one_sample() {
    let mut files = SensorFiles::new();
    files.insert("/sys/class/thermal/thermal_zone0/temp", "52000\n");
    let readings = Readings {
        cpu_usage: 0,
        temperature: read_cpu_temperature(&files),
        fan_speed: read_fan_speed(&files),
    };
    let node_name = resolve_node_name(Some("node-a".to_string()), None);
    let mut history = MetricsHistory::new();
    let frame = tick(&mut history, readings, &node_name);
    assert_eq!(frame.cpu_temperature, 52);
    assert_eq!(frame.fan_speed, 0);
    assert_eq!(frame.node_name, "node-a");
    assert_eq!(frame.metrics_history.len(), 1);
    assert_eq!(frame.metrics_history[0].temperature, 52_000);
    assert_eq!(frame.metrics_history[0].fan_speed, 0);
    assert_eq!(frame.metrics_history, history.snapshot());
}

#[test]
fn ticks_grow_the_history_in_order() {
    let mut history = MetricsHistory::new();
    let mut last = 0i64;
    for n in 1..=5u32 {
        let readings = Readings { cpu_usage: n * 1000, temperature: n, fan_speed: n };
        let frame = tick(&mut history, readings, "n");
        assert_eq!(frame.metrics_history.len(), n as usize);
        let newest = frame.metrics_history[n as usize - 1];
        assert_eq!(newest.cpu_usage, n * 1000);
        assert!(newest.timestamp >= last);
        last = newest.timestamp;
        assert_eq!(frame.cpu_usage, n);
    }
}

#[test]
fn node_name_prefers_the_environment() {
    let name = resolve_node_name(Some("override".to_string()), Some("pi-01\n".to_string()));
    assert_eq!(name, "override");
}

#[test]
fn node_name_from_the_environment_is_not_trimmed() {
    assert_eq!(resolve_node_name(Some(" spaced \n".to_string()), None), " spaced \n");
    assert_eq!(resolve_node_name(Some(String::new()), Some("pi-01".to_string())), "");
}

#[test]
fn node_name_falls_back_to_the_host_name_file() {
    assert_eq!(resolve_node_name(None, Some("pi-01\n".to_string())), "pi-01");
    assert_eq!(resolve_node_name(None, Some("  rack 7\t\n".to_string())), "rack 7");
    assert_eq!(resolve_node_name(None, Some("\n".to_string())), "");
}

#[test]
fn node_name_is_unknown_without_any_source() {
    assert_eq!(resolve_node_name(None, None), "unknown");
}

#[test]
fn session_starts_running_and_ticks_first() {
    let state = session_start();
    assert_eq!(state, SessionState::Running);
    assert_eq!(
        session_step(state, SessionEvent::Tick),
        (SessionState::Running, SessionAction::SampleAndSend)
    );
}

#[test]
fn a_written_frame_is_followed_by_the_sample_period() {
    assert_eq!(
        session_step(SessionState::Running, SessionEvent::WriteOk),
        (SessionState::Running, SessionAction::Sleep { millis: SAMPLE_PERIOD_MS })
    );
    assert_eq!(SAMPLE_PERIOD_MS, 2000);
}

#[test]
fn a_failed_write_ends_the_session() {
    assert_eq!(
        session_step(SessionState::Running, SessionEvent::WriteFailed),
        (SessionState::Terminated, SessionAction::Close)
    );
}

#[test]
fn peer_close_and_shutdown_end_the_session() {
    assert_eq!(
        session_step(SessionState::Running, SessionEvent::PeerClosed),
        (SessionState::Terminated, SessionAction::Close)
    );
    assert_eq!(
        session_step(SessionState::Running, SessionEvent::Shutdown),
        (SessionState::Terminated, SessionAction::Close)
    );
}

#[test]
fn the_terminated_state_is_absorbing() {
    for event in EVENTS {
        assert_eq!(
            session_step(SessionState::Terminated, event),
            (SessionState::Terminated, SessionAction::Nothing)
        );
    }
}

#[test]
fn one_failed_session_leaves_the_other_and_the_store_alone() {
    let mut history = MetricsHistory::new();
    let readings = Readings { cpu_usage: 5000, temperature: 40_000, fan_speed: 1000 };
    let mut first = session_start();
    let mut second = session_start();
    assert_eq!(session_step(first, SessionEvent::Tick).1, SessionAction::SampleAndSend);
    let _ = tick(&mut history, readings, "a");
    assert_eq!(session_step(second, SessionEvent::Tick).1, SessionAction::SampleAndSend);
    let _ = tick(&mut history, readings, "b");
    let stored = history.snapshot();
    first = session_step(first, SessionEvent::WriteFailed).0;
    second = session_step(second, SessionEvent::WriteOk).0;
    assert_eq!(first, SessionState::Terminated);
    assert_eq!(second, SessionState::Running);
    assert_eq!(history.snapshot(), stored);
    assert_eq!(session_step(second, SessionEvent::Tick).1, SessionAction::SampleAndSend);
    let frame = tick(&mut history, readings, "b");
    assert_eq!(frame.metrics_history.len(), 3);
    assert_eq!(session_step(first, SessionEvent::Tick).1, SessionAction::Nothing);
}

#[test]
fn a_session_that_closes_after_one_frame_sends_no_second() {
    let mut state = session_start();
    let mut sent = 0;
    let script = [SessionEvent::Tick, SessionEvent::WriteOk, SessionEvent::PeerClosed, SessionEvent::Tick];
    for event in script {
        let (next, action) = session_step(state, event);
        if action == SessionAction::SampleAndSend {
            sent += 1;
        }
        state = next;
    }
    assert_eq!(sent, 1);
    assert_eq!(state, SessionState::Terminated);
}

#[test]
fn the_sleep_is_the_period_given() {
    assert_eq!(
        session_step_every(SessionState::Running, SessionEvent::WriteOk, 100),
        (SessionState::Running, SessionAction::Sleep { millis: 100 })
    );
    assert_eq!(
        session_step_every(SessionState::Running, SessionEvent::Tick, 100),
        (SessionState::Running, SessionAction::SampleAndSend)
    );
    assert_eq!(
        session_step_every(SessionState::Running, SessionEvent::WriteFailed, 100),
        (SessionState::Terminated, SessionAction::Close)
    );
    assert_eq!(
        session_step_every(SessionState::Terminated, SessionEvent::WriteOk, 100),
        (SessionState::Terminated, SessionAction::Nothing)
    );
    for event in EVENTS {
        assert_eq!(
            session_step_every(SessionState::Running, event, SAMPLE_PERIOD_MS),
            session_step(SessionState::Running, event)
        );
    }
}

#[test]
fn a_tick_without_the_history_sends_the_readings_alone() {
    let readings = Readings { cpu_usage: 12_600, temperature: 41_500, fan_speed: 900 };
    let frame = degraded_snapshot(readings, "node-a");
    assert_eq!(frame.cpu_usage, 13);
    assert_eq!(frame.cpu_temperature, 42);
    assert_eq!(frame.fan_speed, 900);
    assert_eq!(frame.node_name, "node-a");
    assert!(frame.metrics_history.is_empty());
}

#[test]
fn fields_have_their_wire_names() {
    assert_eq!(wire_name(WireField::CpuUsage), "cpuUsage");
    assert_eq!(wire_name(WireField::CpuTemperature), "cpuTemperature");
    assert_eq!(wire_name(WireField::FanSpeed), "fanSpeed");
    assert_eq!(wire_name(WireField::NodeName), "nodeName");
    assert_eq!(wire_name(WireField::MetricsHistory), "metricsHistory");
    assert_eq!(wire_name(WireField::PointTimestamp), "timestamp");
    assert_eq!(wire_name(WireField::PointCpuUsage), "cpuUsage");
    assert_eq!(wire_name(WireField::PointTemperature), "temperature");
    assert_eq!(wire_name(WireField::PointFanSpeed), "fanSpeed");
}

#[test]
fn a_short_window_session_holds_four_to_six_samples() {
    let mut history = MetricsHistory::with_window(500);
    let mut state = session_start();
    let mut event = SessionEvent::Tick;
    let mut now = 1_700_000_000_000i64;
    let mut frames = 0;
    while frames < 110 {
        let (next, action) = session_step_every(state, event, 100);
        state = next;
        event = match action {
            SessionAction::SampleAndSend => {
                let point = DataPoint { timestamp: now, cpu_usage: 0, temperature: 0, fan_speed: 0 };
                history.append(point, now);
                frames += 1;
                if frames >= 10 {
                    assert!(history.len() >= 4 && history.len() <= 6, "{}", history.len());
                }
                assert!(history.len() <= 6);
                SessionEvent::WriteOk
            }
            SessionAction::Sleep { millis } => {
                now += millis as i64 + (frames % 3) * 20;
                SessionEvent::Tick
            }
            _ => panic!("the session goes on while its writes succeed"),
        };
    }
}
