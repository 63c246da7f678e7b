use node_metrics::history::{
    get_metrics_history, store_metrics_data, DataPoint, MetricsHistory, FULL_LOAD,
    SAMPLE_PERIOD_MS, WINDOW_MS,
};
use std::time::{SystemTime, UNIX_EPOCH};

const HOUR_MS: i64 = 3_600_000;
const NOON: i64 = 1_700_000_000_000;

fn point(timestamp: i64) -> DataPoint {
    DataPoint { timestamp, cpu_usage: 12_500, temperature: 48_000, fan_speed: 1800 }
}

fn system_millis() -> i64 {
    SystemTime::now().duration_since(UNIX_EPOCH).unwrap().as_millis() as i64
}

#[test]
fn constants_are_the_documented_ones() {
    assert_eq!(WINDOW_MS, 15 * 60 * 1000);
    assert_eq!(SAMPLE_PERIOD_MS, 2000);
    assert_eq!(FULL_LOAD, 100_000);
}

#[test]
fn new_history_is_empty() {
    let history = MetricsHistory::new();
    assert!(history.is_empty());
    assert_eq!(history.len(), 0);
    assert_eq!(history.snapshot(), Vec::<DataPoint>::new());
}

#[test]
fn append_pushes_at_the_tail() {
    let mut history = MetricsHistory::new();
    history.append(point(NOON), NOON);
    history.append(point(NOON + 2000), NOON + 2000);
    history.append(point(NOON + 4000), NOON + 4000);
    assert_eq!(history.len(), 3);
    assert!(!history.is_empty());
    assert_eq!(history.snapshot(), vec![point(NOON), point(NOON + 2000), point(NOON + 4000)]);
}

#[test]
fn stale_head_is_evicted_by_the_next_append() {
    let mut history = MetricsHistory::new();
    history.append(point(NOON - HOUR_MS), NOON - HOUR_MS);
    assert_eq!(history.len(), 1);
    history.append(point(NOON), NOON);
    let kept = history.snapshot();
    assert_eq!(kept, vec![point(NOON)]);
    assert_eq!(kept.iter().filter(|p| p.timestamp < NOON - WINDOW_MS as i64).count(), 0);
}

#[test]
fn a_point_exactly_one_window_old_stays() {
    let window = WINDOW_MS as i64;
    let mut history = MetricsHistory::new();
    history.append(point(NOON - window - 1), NOON - window - 1);
    history.append(point(NOON - window), NOON - window);
    history.append(point(NOON), NOON);
    assert_eq!(history.snapshot(), vec![point(NOON - window), point(NOON)]);
}

#[test]
fn a_stale_point_appended_alone_is_dropped_at_once() {
    let mut history = MetricsHistory::new();
    history.append(point(NOON - HOUR_MS), NOON);
    assert!(history.is_empty());
}

#[test]
fn expiry_stops_at_the_first_fresh_head() {
    let mut history = MetricsHistory::with_window(1000);
    history.append(point(5000), 5000);
    history.append(point(100), 5000);
    history.append(point(5500), 5500);
    assert_eq!(history.snapshot(), vec![point(5000), point(100), point(5500)]);
    history.append(point(6200), 6200);
    assert_eq!(history.snapshot(), vec![point(5500), point(6200)]);
}

#[test]
fn snapshot_is_ordered_and_within_the_window() {
    let mut history = MetricsHistory::new();
    let mut now = NOON;
    for step in 0..2000i64 {
        now += 1500 + (step % 7) * 250;
        history.append(point(now), now);
        let points = history.snapshot();
        assert!(points.windows(2).all(|w| w[0].timestamp <= w[1].timestamp));
        assert!(points.iter().all(|p| p.timestamp >= now - WINDOW_MS as i64));
        assert_eq!(points.last(), Some(&point(now)));
    }
}

#[test]
fn snapshot_does_not_share_storage() {
    let mut history = MetricsHistory::new();
    history.append(point(NOON), NOON);
    let mut copy = history.snapshot();
    copy.push(point(NOON + 1));
    copy[0].fan_speed = 0;
    assert_eq!(history.snapshot(), vec![point(NOON)]);
    history.append(point(NOON + 2), NOON + 2);
    assert_eq!(copy.len(), 2);
    assert_eq!(get_metrics_history(&history), vec![point(NOON), point(NOON + 2)]);
}

#[test]
fn short_window_bounds_the_history() {
    let mut history = MetricsHistory::with_window(500);
    let mut now = NOON;
    for _ in 0..10 {
        history.append(point(now), now);
        now += 100;
    }
    assert!(history.len() >= 4 && history.len() <= 6);
    assert_eq!(history.len(), 6);
    for _ in 0..100 {
        history.append(point(now), now);
        now += 100;
        assert!(history.len() <= 6);
    }
}

#[test]
fn ticks_a_little_over_the_period_fill_the_window_quotient() {
    let expected = (WINDOW_MS / SAMPLE_PERIOD_MS) as usize;
    assert_eq!(expected, 450);
    let mut history = MetricsHistory::new();
    let mut all: Vec<DataPoint> = Vec::new();
    for tick in 0..1000i64 {
        let now = NOON + tick * 2001;
        history.append(point(now), now);
        all.push(point(now));
        assert_eq!(history.len(), (tick as usize + 1).min(expected));
    }
    assert_eq!(history.snapshot(), all[all.len() - expected..].to_vec());
}

#[test]
fn ticks_exactly_on_the_period_keep_one_more() {
    let mut history = MetricsHistory::new();
    for tick in 0..1000i64 {
        let now = NOON + tick * SAMPLE_PERIOD_MS as i64;
        history.append(point(now), now);
    }
    assert_eq!(history.len(), (WINDOW_MS / SAMPLE_PERIOD_MS) as usize + 1);
    assert_eq!(history.snapshot()[0], point(NOON + 549 * 2000));
}

#[test]
fn zero_window_keeps_only_the_present() {
    let mut history = MetricsHistory::with_window(0);
    history.append(point(10), 10);
    history.append(point(10), 10);
    assert_eq!(history.len(), 2);
    history.append(point(11), 11);
    assert_eq!(history.snapshot(), vec![point(11)]);
}

#[test]
fn extreme_instants_do_not_overflow() {
    let mut history = MetricsHistory::with_window(u64::MAX);
    history.append(point(i64::MIN), i64::MAX);
    assert_eq!(history.len(), 1);
    let mut tight = MetricsHistory::with_window(0);
    tight.append(point(i64::MIN), i64::MIN);
    assert_eq!(tight.len(), 1);
    tight.append(point(i64::MAX), i64::MAX);
    assert_eq!(tight.snapshot(), vec![point(i64::MAX)]);
}

#[test]
fn store_stamps_the_sample_with_the_present_instant() {
    let mut history = MetricsHistory::new();
    let before = system_millis();
    let now = store_metrics_data(&mut history, 33_300, 52_000, 2100);
    let after = system_millis();
    assert!(before <= now && now <= after, "{} <= {} <= {}", before, now, after);
    assert_eq!(
        history.snapshot(),
        vec![DataPoint { timestamp: now, cpu_usage: 33_300, temperature: 52_000, fan_speed: 2100 }]
    );
}

#[test]
fn store_evicts_what_is_older_than_the_window() {
    let mut history = MetricsHistory::new();
    let start = system_millis();
    history.append(point(start - HOUR_MS), start - HOUR_MS);
    history.append(point(start - 1000), start - 1000);
    let now = store_metrics_data(&mut history, 1, 2, 3);
    let points = get_metrics_history(&history);
    assert_eq!(points.len(), 2);
    assert_eq!(points[0], point(start - 1000));
    assert_eq!(points[1], DataPoint { timestamp: now, cpu_usage: 1, temperature: 2, fan_speed: 3 });
}

#[test]
fn interleaved_sessions_stay_within_the_count() {
    let sessions = 3i64;
    let span = 60_000i64;
    let period = SAMPLE_PERIOD_MS as i64;
    let mut ticks: Vec<i64> = Vec::new();
    for session in 0..sessions {
        let mut at = NOON + session * 700;
        while at <= NOON + span {
            ticks.push(at);
            at += period;
        }
    }
    ticks.sort();
    let mut history = MetricsHistory::new();
    for now in &ticks {
        history.append(point(*now), *now);
    }
    assert_eq!(history.len(), ticks.len());
    assert!(history.len() as i64 <= sessions * span / period + sessions);
    let points = history.snapshot();
    let last = *ticks.last().unwrap();
    assert!(points.windows(2).all(|w| w[0].timestamp <= w[1].timestamp));
    assert!(points.iter().all(|p| p.timestamp >= last - WINDOW_MS as i64));
}
