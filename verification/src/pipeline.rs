use vstd::prelude::*;
use vstd::string::*;
use crate::path_id::has_path_id;
use crate::path_id::path_id;
use crate::path_id::sensor_id_from_path;
use crate::reading::SensorData;
use crate::report::ReportError;
use crate::report::embedded_id;
use crate::report::find_last_report;
use crate::report::has_report;
use crate::report::lemma_last_pos_agrees;
use crate::report::line2_start_exec;
use crate::report::parse_report_millis;
use crate::report::report_val;
use crate::report::report_value_at;
use crate::report::tail_spec;
use crate::report::tail_window;
use crate::report::to_chars;

verus! {

/// One candidate report file for a cycle: where it was found and what it
/// held when read.
pub struct SensorFile {
    pub path: String,
    pub content: String,
}

/// Relies on chrono's `Utc::now` and `DateTime::to_rfc3339` for the
/// current instant rendered as an RFC 3339 string; nothing is assumed of
/// the clock's value.
#[verifier::external_body]
fn now_rfc3339() -> (r: String) {
    chrono::Utc::now().to_rfc3339()
}

/// The label a reading gets under the full-scan strategy: the path's
/// hexadecimal directory suffix, or the fallback label when the path
/// carries none.
pub open spec fn path_label(s: Seq<char>) -> Seq<char> {
    if has_path_id(s) {
        path_id(s)
    } else {
        "none"@
    }
}

/// Decode one report file under the full-scan strategy: the whole
/// content is scanned, the sensor id comes from the file's path, and the
/// caller supplies the timestamp of the parse.
pub fn parse_sensor_file(path: &str, content: &str, timestamp: String) -> (r: Result<
    SensorData,
    ReportError,
>)
    ensures
        match r {
            Ok(d) => {
                &&& has_report(content@)
                &&& -100000 <= report_val(content@) <= 100000
                &&& d.millidegrees as int == report_val(content@)
                &&& d.valid()
                &&& d.id@ == path_label(path@)
                &&& d.timestamp@ == timestamp@
            },
            Err(ReportError::Malformed) => !has_report(content@),
            Err(ReportError::OutOfRange) => has_report(content@) && !(-100000 <= report_val(
                content@,
            ) <= 100000),
        },
{
    match parse_report_millis(content) {
        Err(e) => Err(e),
        Ok(m) => {
            let id: String = match sensor_id_from_path(path) {
                Some(s) => s,
                None => "none".to_owned(),
            };
            Ok(SensorData { id, millidegrees: m, timestamp })
        },
    }
}

/// Decode one report file under the tail-read strategy: only the final
/// 200 characters are scanned, the sensor id is the captured byte field
/// that opens the record's second line, and the caller supplies the
/// file's modification time as the timestamp.
pub fn parse_sensor_file_tail(content: &str, timestamp: String) -> (r: Result<
    SensorData,
    ReportError,
>)
    ensures
        match r {
            Ok(d) => {
                &&& has_report(tail_spec(content@))
                &&& -100000 <= report_val(tail_spec(content@)) <= 100000
                &&& d.millidegrees as int == report_val(tail_spec(content@))
                &&& d.valid()
                &&& d.id@ == embedded_id(tail_spec(content@))
                &&& d.timestamp@ == timestamp@
            },
            Err(ReportError::Malformed) => !has_report(tail_spec(content@)),
            Err(ReportError::OutOfRange) => has_report(tail_spec(content@)) && !(-100000
                <= report_val(tail_spec(content@)) <= 100000),
        },
{
    let tail = tail_window(content);
    let chars = to_chars(tail);
    match find_last_report(&chars) {
        None => Err(ReportError::Malformed),
        Some(i) => {
            proof {
                lemma_last_pos_agrees(chars@, i as int);
            }
            let v = report_value_at(&chars, i);
            if -100000 <= v && v <= 100000 {
                let j = line2_start_exec(&chars, i);
                let idstr = tail.substring_char(j, j + 23);
                Ok(SensorData { id: idstr.to_owned(), millidegrees: v, timestamp })
            } else {
                Err(ReportError::OutOfRange)
            }
        },
    }
}

/// Resolve each sensor directory to the fixed-named report file expected
/// inside it. Whether that file exists is for the caller to test; this is
/// pure path construction.
pub fn get_sensor_files(dirs: &Vec<String>) -> (r: Vec<String>)
    ensures
        r@.len() == dirs@.len(),
        forall|i: int| 0 <= i < dirs@.len() ==> r@[i]@ == dirs@[i]@ + "/w1_slave"@,
{
    let mut r: Vec<String> = Vec::new();
    let mut i: usize = 0;
    while i < dirs.len()
        invariant
            i <= dirs@.len(),
            r@.len() == i,
            forall|k: int| 0 <= k < i ==> r@[k]@ == dirs@[k]@ + "/w1_slave"@,
        decreases dirs@.len() - i,
    {
        let mut p: String = dirs[i].clone();
        p.append("/w1_slave");
        r.push(p);
        i = i + 1;
    }
    r
}

/// The glob pattern that enumerates candidate sensor directories: the
/// base path followed by the device-family prefix and a wildcard.
pub fn sensor_glob_pattern(base: &str) -> (r: String)
    ensures
        r@ == base@ + "28-*"@,
{
    let mut p = base.to_owned();
    p.append("28-*");
    p
}

/// Whether a file's content yields a reading under the full-scan
/// strategy.
pub open spec fn parses_ok(f: SensorFile) -> bool {
    has_report(f.content@) && -100000 <= report_val(f.content@) <= 100000
}

/// The id and millidegree pairs one cycle's files yield, in file order,
/// files that fail to parse silently skipped.
pub open spec fn expected_readings(files: Seq<SensorFile>) -> Seq<(Seq<char>, int)>
    decreases files.len(),
{
    if files.len() == 0 {
        Seq::empty()
    } else {
        let rest = expected_readings(files.drop_last());
        if parses_ok(files.last()) {
            rest.push((path_label(files.last().path@), report_val(files.last().content@)))
        } else {
            rest
        }
    }
}

/// The id and millidegree pairs a sequence of readings carries, in
/// order.
pub open spec fn readings_of(r: Seq<SensorData>) -> Seq<(Seq<char>, int)> {
    Seq::new(r.len(), |i: int| (r[i].id@, r[i].millidegrees as int))
}

/// Run the full-scan strategy over one cycle's report files: every file
/// that parses contributes one reading, in order; every other file is
/// skipped. Timestamps come from the clock at parse time and are the one
/// part of a reading this contract leaves open.
pub fn get_sensor_data(files: &Vec<SensorFile>) -> (r: Vec<SensorData>)
    ensures
        readings_of(r@) == expected_readings(files@),
        forall|i: int| 0 <= i < r@.len() ==> r@[i].valid(),
{
    let mut r: Vec<SensorData> = Vec::new();
    proof {
        assert(readings_of(r@) =~= expected_readings(files@.take(0)));
    }
    let mut i: usize = 0;
    while i < files.len()
        invariant
            i <= files@.len(),
            readings_of(r@) == expected_readings(files@.take(i as int)),
            forall|k: int| 0 <= k < r@.len() ==> r@[k].valid(),
        decreases files@.len() - i,
    {
        let ts = now_rfc3339();
        let ghost old_r = r@;
        match parse_sensor_file(files[i].path.as_str(), files[i].content.as_str(), ts) {
            Err(_) => {
            },
            Ok(d) => {
                r.push(d);
                proof {
                    assert(readings_of(r@) =~= readings_of(old_r).push(
                        (d.id@, d.millidegrees as int),
                    ));
                }
            },
        }
        proof {
            let k = i as int;
            assert(files@.take(k + 1).drop_last() =~= files@.take(k));
            assert(files@.take(k + 1).last() == files@[k]);
        }
        i = i + 1;
    }
    proof {
        assert(files@.take(files@.len() as int) =~= files@);
    }
    r
}

} // verus!
