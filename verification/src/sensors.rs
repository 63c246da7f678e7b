//! The sensor probes: which files are tried for a reading, in which order,
//! and what the probe returns.
//!
//! A probe tries a fixed list of candidate files and returns the first
//! reading that parses. A file that is missing, unreadable or does not hold a
//! number is passed over. Where no candidate gives a reading the probe
//! returns 0. Temperatures are kept in thousandths of a degree Celsius, as
//! the files hold them.

use crate::text::{parse_reading, parse_sensor_text};
use vstd::prelude::*;
use vstd::string::*;

verus! {

/// The quantity that a probe reads.
#[derive(Clone, Copy, Debug, PartialEq, Eq, Structural)]
pub enum SensorKind {
    /// The temperature of the CPU, in thousandths of a degree Celsius.
    Temperature,
    /// The speed of the fan, in revolutions per minute.
    Fan,
}

/// The number of generic `hwmon` slots that a probe sweeps.
pub const HWMON_SLOTS: usize = 10;

/// The number of files that a probe tries: the preferred file of the
/// Raspberry Pi, then one per `hwmon` slot.
pub const CANDIDATES: usize = 11;

/// The file that is tried first: the canonical one of a Raspberry Pi.
pub open spec fn preferred_path(kind: SensorKind) -> Seq<char> {
    match kind {
        SensorKind::Temperature => "/sys/class/thermal/thermal_zone0/temp"@,
        SensorKind::Fan => "/sys/devices/platform/cooling_fan/hwmon/hwmon3/fan1_input"@,
    }
}

/// The file name of a reading inside a `hwmon` slot.
pub open spec fn hwmon_leaf(kind: SensorKind) -> Seq<char> {
    match kind {
        SensorKind::Temperature => "/temp1_input"@,
        SensorKind::Fan => "/fan1_input"@,
    }
}

/// The decimal digit that writes `slot`.
pub open spec fn slot_digit(slot: int) -> char
    recommends
        0 <= slot < 10,
{
    (0x30 + slot) as char
}

/// The file of `kind` in the `hwmon` slot `slot`.
pub open spec fn hwmon_path(kind: SensorKind, slot: int) -> Seq<char>
    recommends
        0 <= slot < 10,
{
    "/sys/class/hwmon/hwmon"@ + seq![slot_digit(slot)] + hwmon_leaf(kind)
}

/// The file that a probe of `kind` tries at position `index`: the preferred
/// one first, then the `hwmon` slots from 0 upwards.
pub open spec fn candidate_path(kind: SensorKind, index: int) -> Seq<char>
    recommends
        0 <= index < CANDIDATES,
{
    if index == 0 {
        preferred_path(kind)
    } else {
        hwmon_path(kind, index - 1)
    }
}

/// What a candidate gave: the text of the file where it could be read, and
/// from it the reading, if it holds one.
pub open spec fn reading_of(content: Option<&str>) -> Option<u32> {
    match content {
        Some(text) => parse_reading(text@),
        None => None,
    }
}

/// What a probe does next.
#[derive(Debug)]
pub enum ProbeStep {
    /// Read the file `path`, the candidate at position `index`, and come back
    /// with what it holds.
    Read { index: usize, path: String },
    /// The probe has ended with `value`.
    Done { value: u32 },
}

/// Whether `step` is the step that follows candidate `index` of `kind`, which
/// gave `found`.
pub open spec fn follows(
    step: ProbeStep,
    kind: SensorKind,
    index: int,
    found: Option<u32>,
) -> bool {
    match found {
        Some(value) => step == (ProbeStep::Done { value }),
        None => if index + 1 < CANDIDATES {
            &&& step is Read
            &&& step->index == index + 1
            &&& step->path@ == candidate_path(kind, index + 1)
        } else {
            step == (ProbeStep::Done { value: 0 })
        },
    }
}

/// The text of the digit of a `hwmon` slot.
fn slot_text(slot: usize) -> (text: &'static str)
    requires
        slot < HWMON_SLOTS,
    ensures
        text@ == seq![slot_digit(slot as int)],
{
    proof {
        reveal_strlit("0");
        reveal_strlit("1");
        reveal_strlit("2");
        reveal_strlit("3");
        reveal_strlit("4");
        reveal_strlit("5");
        reveal_strlit("6");
        reveal_strlit("7");
        reveal_strlit("8");
        reveal_strlit("9");
    }
    let text = match slot {
        0 => "0",
        1 => "1",
        2 => "2",
        3 => "3",
        4 => "4",
        5 => "5",
        6 => "6",
        7 => "7",
        8 => "8",
        _ => "9",
    };
    assert(text@ =~= seq![slot_digit(slot as int)]);
    text
}

/// The path of the file that a probe of `kind` tries at position `index`.
pub fn candidate(kind: SensorKind, index: usize) -> (path: String)
    requires
        index < CANDIDATES,
    ensures
        path@ == candidate_path(kind, index as int),
{
    if index == 0 {
        match kind {
            SensorKind::Temperature => String::from_str("/sys/class/thermal/thermal_zone0/temp"),
            SensorKind::Fan => String::from_str(
                "/sys/devices/platform/cooling_fan/hwmon/hwmon3/fan1_input",
            ),
        }
    } else {
        let mut path = String::from_str("/sys/class/hwmon/hwmon");
        path.append(slot_text(index - 1));
        match kind {
            SensorKind::Temperature => path.append("/temp1_input"),
            SensorKind::Fan => path.append("/fan1_input"),
        }
        path
    }
}

/// The first step of a probe: read the preferred file.
pub fn probe_start(kind: SensorKind) -> (step: ProbeStep)
    ensures
        step is Read,
        step->index == 0,
        step->path@ == candidate_path(kind, 0),
{
    ProbeStep::Read { index: 0, path: candidate(kind, 0) }
}

/// The step after candidate `index` was tried. `content` is the text of that
/// file, or `None` where the file is missing or could not be read. A reading
/// ends the probe; otherwise the next candidate is tried, and after the last
/// one the probe ends with 0.
pub fn probe_next(kind: SensorKind, index: usize, content: Option<&str>) -> (step: ProbeStep)
    requires
        index < CANDIDATES,
    ensures
        follows(step, kind, index as int, reading_of(content)),
{
    let found: Option<u32> = match content {
        Some(text) => parse_sensor_text(text),
        None => None,
    };
    match found {
        Some(value) => ProbeStep::Done { value },
        None => {
            if index + 1 < CANDIDATES {
                ProbeStep::Read { index: index + 1, path: candidate(kind, index + 1) }
            } else {
                ProbeStep::Done { value: 0 }
            }
        },
    }
}

/// The sensor files that can be read at one moment: the text of each, by its
/// path. A file that is missing or unreadable has no entry.
pub struct SensorFiles {
    entries: Vec<(String, String)>,
}

/// The files that a list of entries describes. A later entry for a path
/// replaces an earlier one.
pub open spec fn files_of(entries: Seq<(String, String)>) -> Map<Seq<char>, Seq<char>>
    decreases entries.len(),
{
    if entries.len() == 0 {
        Map::empty()
    } else {
        files_of(entries.drop_last()).insert(entries.last().0@, entries.last().1@)
    }
}

impl View for SensorFiles {
    type V = Map<Seq<char>, Seq<char>>;

    closed spec fn view(&self) -> Map<Seq<char>, Seq<char>> {
        files_of(self.entries@)
    }
}

impl SensorFiles {
    /// No file at all.
    pub fn new() -> (files: SensorFiles)
        ensures
            files@ == Map::<Seq<char>, Seq<char>>::empty(),
    {
        SensorFiles { entries: Vec::new() }
    }

    /// Puts the file `path` with the text `content`, in place of what was
    /// there under that path.
    pub fn insert(&mut self, path: &str, content: &str)
        ensures
            final(self)@ == old(self)@.insert(path@, content@),
    {
        let entry = (String::from_str(path), String::from_str(content));
        self.entries.push(entry);
        assert(self.entries@.drop_last() =~= old(self).entries@);
    }

    /// The text of the file `path`, or `None` where there is no such file.
    pub fn get(&self, path: &String) -> (content: Option<&str>)
        ensures
            content is Some <==> self@.contains_key(path@),
            content is Some ==> content.unwrap()@ == self@[path@],
    {
        let mut i: usize = self.entries.len();
        assert(self.entries@.take(i as int) =~= self.entries@);
        while i > 0
            invariant
                i <= self.entries.len(),
                self@.contains_key(path@) == files_of(self.entries@.take(i as int)).contains_key(
                    path@,
                ),
                self@.contains_key(path@) ==> self@[path@] == files_of(
                    self.entries@.take(i as int),
                )[path@],
            decreases i,
        {
            assert(self.entries@.take(i as int).drop_last() =~= self.entries@.take(i - 1));
            i = i - 1;
            if self.entries[i].0 == *path {
                return Some(self.entries[i].1.as_str());
            }
        }
        None
    }
}

/// The reading that candidate `index` of `kind` gives among `files`, if it
/// gives one.
pub open spec fn found_at(
    kind: SensorKind,
    files: Map<Seq<char>, Seq<char>>,
    index: int,
) -> Option<u32> {
    let path = candidate_path(kind, index);
    if files.contains_key(path) {
        parse_reading(files[path])
    } else {
        None
    }
}

/// What a probe of `kind` returns among `files` once the candidates before
/// `index` gave nothing: the first reading from `index` on, or 0.
pub open spec fn scan(kind: SensorKind, files: Map<Seq<char>, Seq<char>>, index: int) -> u32
    decreases CANDIDATES - index,
{
    if index < 0 || index >= CANDIDATES {
        0
    } else {
        match found_at(kind, files, index) {
            Some(value) => value,
            None => scan(kind, files, index + 1),
        }
    }
}

/// What a probe of `kind` returns among `files`: the reading of the first
/// candidate that gives one, or 0 where none does.
pub open spec fn probe_value(kind: SensorKind, files: Map<Seq<char>, Seq<char>>) -> u32 {
    scan(kind, files, 0)
}

/// Where the candidates before `index` give nothing and candidate `index`
/// gives a reading, the probe returns that reading.
pub proof fn lemma_probe_first_reading(
    kind: SensorKind,
    files: Map<Seq<char>, Seq<char>>,
    index: int,
)
    requires
        0 <= index < CANDIDATES,
        found_at(kind, files, index) is Some,
        forall|j: int| 0 <= j < index ==> found_at(kind, files, j) is None,
    ensures
        probe_value(kind, files) == found_at(kind, files, index).unwrap(),
{
    lemma_scan_skips(kind, files, 0, index);
}

/// Where none of the candidate files exists, the probe returns 0.
pub proof fn lemma_probe_no_files(kind: SensorKind, files: Map<Seq<char>, Seq<char>>)
    requires
        forall|j: int|
            0 <= j < CANDIDATES ==> !files.contains_key(#[trigger] candidate_path(kind, j)),
    ensures
        probe_value(kind, files) == 0,
{
    assert forall|j: int| 0 <= j < CANDIDATES implies found_at(kind, files, j) is None by {
        assert(!files.contains_key(candidate_path(kind, j)));
    }
    lemma_probe_default(kind, files);
}

/// Where the preferred file holds a reading, the probe returns it, whatever
/// the other candidates hold.
pub proof fn lemma_probe_preferred(kind: SensorKind, files: Map<Seq<char>, Seq<char>>, value: u32)
    requires
        files.contains_key(preferred_path(kind)),
        parse_reading(files[preferred_path(kind)]) == Some(value),
    ensures
        probe_value(kind, files) == value,
{
    lemma_probe_first_reading(kind, files, 0);
}

/// Where no candidate gives a reading, the probe returns 0.
pub proof fn lemma_probe_default(kind: SensorKind, files: Map<Seq<char>, Seq<char>>)
    requires
        forall|j: int| 0 <= j < CANDIDATES ==> found_at(kind, files, j) is None,
    ensures
        probe_value(kind, files) == 0,
{
    lemma_scan_skips(kind, files, 0, CANDIDATES as int);
}

/// Passing over candidates that give nothing does not change what the probe
/// returns.
pub proof fn lemma_scan_skips(
    kind: SensorKind,
    files: Map<Seq<char>, Seq<char>>,
    from: int,
    to: int,
)
    requires
        0 <= from <= to <= CANDIDATES,
        forall|j: int| from <= j < to ==> found_at(kind, files, j) is None,
    ensures
        scan(kind, files, from) == scan(kind, files, to),
    decreases to - from,
{
    if from < to {
        lemma_scan_skips(kind, files, from + 1, to);
    }
}

/// Runs a probe of `kind` on `files`.
pub fn probe_files(kind: SensorKind, files: &SensorFiles) -> (value: u32)
    ensures
        value == probe_value(kind, files@),
{
    let mut step = probe_start(kind);
    loop
        invariant
            step is Read ==> step->index < CANDIDATES,
            step is Read ==> step->path@ == candidate_path(kind, step->index as int),
            step is Read ==> probe_value(kind, files@) == scan(kind, files@, step->index as int),
            step is Done ==> step->value == probe_value(kind, files@),
        decreases
            (if step is Read {
                CANDIDATES - step->index + 1
            } else {
                0
            }),
    {
        match step {
            ProbeStep::Done { value } => {
                return value;
            },
            ProbeStep::Read { index, path } => {
                let content = files.get(&path);
                assert(reading_of(content) == found_at(kind, files@, index as int));
                assert(index + 1 == CANDIDATES ==> scan(kind, files@, index + 1) == 0);
                step = probe_next(kind, index, content);
            },
        }
    }
}

/// The temperature of the CPU among `files`, in thousandths of a degree
/// Celsius: the first reading in the order of the candidates, or 0.
pub fn read_cpu_temperature(files: &SensorFiles) -> (millidegrees: u32)
    ensures
        millidegrees == probe_value(SensorKind::Temperature, files@),
{
    probe_files(SensorKind::Temperature, files)
}

/// The speed of the fan among `files`, in revolutions per minute: the first
/// reading in the order of the candidates, or 0.
pub fn read_fan_speed(files: &SensorFiles) -> (rpm: u32)
    ensures
        rpm == probe_value(SensorKind::Fan, files@),
{
    probe_files(SensorKind::Fan, files)
}

/// A count of thousandths, rounded to the nearest whole, a half going up.
pub open spec fn round_thousandths(thousandths: int) -> int {
    (thousandths + 500) / 1000
}

/// A count of thousandths, rounded to the nearest whole, a half going up:
/// whole degrees from thousandths of a degree.
pub fn rounded(thousandths: u32) -> (whole: u32)
    ensures
        whole == round_thousandths(thousandths as int),
{
    let whole: u32 = thousandths / 1000;
    if thousandths % 1000 >= 500 {
        whole + 1
    } else {
        whole
    }
}

} // verus!
