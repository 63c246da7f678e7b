use node_metrics::sensors::{
    candidate, probe_files, probe_next, probe_start, read_cpu_temperature, read_fan_speed, rounded,
    ProbeStep, SensorFiles, SensorKind, CANDIDATES, HWMON_SLOTS,
};

const PI_THERMAL: &str = "/sys/class/thermal/thermal_zone0/temp";
const PI_FAN: &str = "/sys/devices/platform/cooling_fan/hwmon/hwmon3/fan1_input";

#[test]
fn candidates_are_the_preferred_file_then_the_hwmon_slots() {
    assert_eq!(CANDIDATES, HWMON_SLOTS + 1);
    assert_eq!(candidate(SensorKind::Temperature, 0), PI_THERMAL);
    assert_eq!(candidate(SensorKind::Fan, 0), PI_FAN);
    for slot in 0..10usize {
        assert_eq!(
            candidate(SensorKind::Temperature, slot + 1),
            format!("/sys/class/hwmon/hwmon{}/temp1_input", slot)
        );
        assert_eq!(
            candidate(SensorKind::Fan, slot + 1),
            format!("/sys/class/hwmon/hwmon{}/fan1_input", slot)
        );
    }
}

#[test]
fn no_sensor_file_gives_zero() {
    let files = SensorFiles::new();
    assert_eq!(read_cpu_temperature(&files), 0);
    assert_eq!(read_fan_speed(&files), 0);
}

#[test]
fn preferred_thermal_file_is_read_in_millidegrees() {
    let mut files = SensorFiles::new();
    files.insert(PI_THERMAL, "52000\n");
    let millidegrees = read_cpu_temperature(&files);
    assert_eq!(millidegrees, 52000);
    assert_eq!(millidegrees as f64 / 1000.0, 52.0);
    assert_eq!(rounded(millidegrees), 52);
    assert_eq!(read_fan_speed(&files), 0);
}

#[test]
fn falls_back_to_a_hwmon_slot() {
    let mut files = SensorFiles::new();
    files.insert("/sys/class/hwmon/hwmon4/temp1_input", "41500");
    let millidegrees = read_cpu_temperature(&files);
    assert_eq!(millidegrees, 41500);
    assert_eq!(millidegrees as f64 / 1000.0, 41.5);
    assert_eq!(read_fan_speed(&files), 0);
}

#[test]
fn preferred_file_wins_over_hwmon() {
    let mut files = SensorFiles::new();
    files.insert("/sys/class/hwmon/hwmon0/temp1_input", "30000");
    files.insert(PI_THERMAL, "52000\n");
    files.insert("/sys/class/hwmon/hwmon0/fan1_input", "900");
    files.insert(PI_FAN, "2500\n");
    assert_eq!(read_cpu_temperature(&files), 52000);
    assert_eq!(read_fan_speed(&files), 2500);
}

#[test]
fn lowest_hwmon_slot_wins() {
    let mut files = SensorFiles::new();
    files.insert("/sys/class/hwmon/hwmon5/fan1_input", "1500");
    files.insert("/sys/class/hwmon/hwmon2/fan1_input", "1200\n");
    files.insert("/sys/class/hwmon/hwmon9/fan1_input", "1900");
    assert_eq!(read_fan_speed(&files), 1200);
}

#[test]
fn unparseable_files_are_passed_over() {
    let mut files = SensorFiles::new();
    files.insert(PI_THERMAL, "n/a\n");
    files.insert("/sys/class/hwmon/hwmon0/temp1_input", "");
    files.insert("/sys/class/hwmon/hwmon1/temp1_input", "-4000");
    files.insert("/sys/class/hwmon/hwmon2/temp1_input", "38250\n");
    assert_eq!(read_cpu_temperature(&files), 38250);
    let mut bad = SensorFiles::new();
    bad.insert(PI_FAN, "fast");
    assert_eq!(read_fan_speed(&bad), 0);
}

#[test]
fn slots_beyond_the_sweep_are_not_read() {
    let mut files = SensorFiles::new();
    files.insert("/sys/class/hwmon/hwmon10/temp1_input", "47000");
    files.insert("/sys/class/hwmon/hwmon3/fan1_input_old", "1000");
    assert_eq!(read_cpu_temperature(&files), 0);
    assert_eq!(read_fan_speed(&files), 0);
}

#[test]
fn a_file_of_the_other_kind_is_not_read() {
    let mut files = SensorFiles::new();
    files.insert("/sys/class/hwmon/hwmon1/fan1_input", "1300");
    assert_eq!(read_cpu_temperature(&files), 0);
    assert_eq!(probe_files(SensorKind::Fan, &files), 1300);
}

#[test]
fn sensor_files_keep_the_last_text_of_a_path() {
    let mut files = SensorFiles::new();
    assert_eq!(files.get(&PI_FAN.to_string()), None);
    files.insert(PI_FAN, "1000");
    files.insert(PI_THERMAL, "1");
    files.insert(PI_FAN, "2000");
    assert_eq!(files.get(&PI_FAN.to_string()), Some("2000"));
    assert_eq!(files.get(&PI_THERMAL.to_string()), Some("1"));
    assert_eq!(read_fan_speed(&files), 2000);
}

#[test]
fn probe_starts_with_the_preferred_file() {
    match probe_start(SensorKind::Temperature) {
        ProbeStep::Read { index, path } => {
            assert_eq!(index, 0);
            assert_eq!(path, PI_THERMAL);
        }
        ProbeStep::Done { .. } => panic!("a probe starts by reading"),
    }
}

#[test]
fn probe_ends_at_the_first_reading() {
    match probe_next(SensorKind::Fan, 0, Some("2400\n")) {
        ProbeStep::Done { value } => assert_eq!(value, 2400),
        ProbeStep::Read { .. } => panic!("a reading ends the probe"),
    }
    match probe_next(SensorKind::Fan, 7, Some(" 1 ")) {
        ProbeStep::Done { value } => assert_eq!(value, 1),
        ProbeStep::Read { .. } => panic!("a reading ends the probe"),
    }
}

#[test]
fn probe_moves_on_after_a_miss() {
    match probe_next(SensorKind::Fan, 0, None) {
        ProbeStep::Read { index, path } => {
            assert_eq!(index, 1);
            assert_eq!(path, "/sys/class/hwmon/hwmon0/fan1_input");
        }
        ProbeStep::Done { .. } => panic!("the sweep goes on"),
    }
    match probe_next(SensorKind::Temperature, 9, Some("warm")) {
        ProbeStep::Read { index, path } => {
            assert_eq!(index, 10);
            assert_eq!(path, "/sys/class/hwmon/hwmon9/temp1_input");
        }
        ProbeStep::Done { .. } => panic!("the sweep goes on"),
    }
}

#[test]
fn probe_ends_with_zero_after_the_last_candidate() {
    match probe_next(SensorKind::Temperature, 10, None) {
        ProbeStep::Done { value } => assert_eq!(value, 0),
        ProbeStep::Read { .. } => panic!("there is no further candidate"),
    }
    match probe_next(SensorKind::Fan, 10, Some("")) {
        ProbeStep::Done { value } => assert_eq!(value, 0),
        ProbeStep::Read { .. } => panic!("there is no further candidate"),
    }
}

#[test]
fn stepwise_probe_reads_no_file_after_the_first_reading() {
    let mut asked: Vec<String> = Vec::new();
    let mut step = probe_start(SensorKind::Temperature);
    let value = loop {
        match step {
            ProbeStep::Done { value } => break value,
            ProbeStep::Read { index, path } => {
                let content = if path == "/sys/class/hwmon/hwmon1/temp1_input" {
                    Some("45000\n")
                } else {
                    None
                };
                asked.push(path);
                step = probe_next(SensorKind::Temperature, index, content);
            }
        }
    };
    assert_eq!(value, 45000);
    assert_eq!(
        asked,
        vec![
            PI_THERMAL.to_string(),
            "/sys/class/hwmon/hwmon0/temp1_input".to_string(),
            "/sys/class/hwmon/hwmon1/temp1_input".to_string(),
        ]
    );
}

#[test]
fn rounds_thousandths_to_the_nearest_whole() {
    assert_eq!(rounded(0), 0);
    assert_eq!(rounded(499), 0);
    assert_eq!(rounded(500), 1);
    assert_eq!(rounded(52000), 52);
    assert_eq!(rounded(52499), 52);
    assert_eq!(rounded(52500), 53);
    assert_eq!(rounded(41500), 42);
    assert_eq!(rounded(100_000), 100);
    assert_eq!(rounded(u32::MAX), 4_294_967);
}
