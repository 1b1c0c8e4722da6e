//! The queue of undelivered reports: which lines of its file are reports,
//! and which reports it keeps.

use vstd::prelude::*;
use crate::text::{chars_of, split_chars, split_on, string_of};

verus! {

/// How many reports survive an offline stretch; older ones are dropped.
pub const MAX_PENDING: usize = 200;

/// The reports kept after one was appended: the newest [`MAX_PENDING`].
pub fn keep_newest<T>(reports: Vec<T>) -> (kept: Vec<T>)
    ensures
        kept@ == if reports@.len() <= MAX_PENDING {
            reports@
        } else {
            reports@.skip(reports@.len() - MAX_PENDING)
        },
{
    let mut reports = reports;
    if reports.len() <= MAX_PENDING {
        return reports;
    }
    let cut = reports.len() - MAX_PENDING;
    let ghost all = reports@;
    let kept = reports.split_off(cut);
    assert(kept@ =~= all.skip(cut as int));
    kept
}

/// The reports left once the first `count` were delivered; reports
/// appended while they were being sent stay.
pub fn without_delivered<T>(reports: Vec<T>, count: usize) -> (kept: Vec<T>)
    ensures
        kept@ == if count <= reports@.len() {
            reports@.skip(count as int)
        } else {
            Seq::empty()
        },
{
    let mut reports = reports;
    if count >= reports.len() {
        return Vec::new();
    }
    let ghost all = reports@;
    let kept = reports.split_off(count);
    assert(kept@ =~= all.skip(count as int));
    kept
}

/// The text `serde_json` gives back for `line` parsed as a JSON value and
/// written out again; `None` when the line is not JSON.
pub uninterp spec fn json_line(line: Seq<char>) -> Option<Seq<char>>;

/// `serde_json::from_str::<Value>` of the line, written back with
/// `to_string`. What it returns is named by `json_line`.
#[verifier::external_body]
fn parse_json_line(line: &str) -> (r: Option<String>)
    ensures
        match r {
            Some(report) => json_line(line@) == Some(report@),
            None => json_line(line@) is None,
        },
{
    serde_json::from_str::<serde_json::Value>(line).ok().map(|value| value.to_string())
}

/// The reports among `lines`: each line that parses as JSON, as written
/// back, in order; the others (a line cut short by a crash, a blank one)
/// are skipped.
pub open spec fn kept_lines(lines: Seq<Seq<char>>) -> Seq<Seq<char>>
    decreases lines.len(),
{
    if lines.len() == 0 {
        Seq::empty()
    } else {
        let rest = kept_lines(lines.drop_last());
        match json_line(lines.last()) {
            Some(report) => rest.push(report),
            None => rest,
        }
    }
}

/// The reports a queue file holds, one per line that parses as JSON, in
/// the order they were appended.
pub fn queued_reports(text: &str) -> (r: Vec<String>)
    ensures
        r@.map_values(|s: String| s@) == kept_lines(split_on(text@, '\n')),
{
    let chars = chars_of(text);
    let lines = split_chars(chars.as_slice(), '\n');
    let ghost all = split_on(text@, '\n');
    let mut reports: Vec<String> = Vec::new();
    let mut k: usize = 0;
    while k < lines.len()
        invariant
            k <= lines@.len(),
            lines@.len() == all.len(),
            forall|q: int| 0 <= q < lines@.len() ==> (#[trigger] lines@[q])@ == all[q],
            reports@.map_values(|s: String| s@) == kept_lines(all.take(k as int)),
        decreases lines@.len() - k,
    {
        let line = string_of(lines[k].as_slice());
        proof {
            assert(all.take(k + 1).drop_last() =~= all.take(k as int));
            assert(all.take(k + 1).last() == line@);
        }
        match parse_json_line(line.as_str()) {
            Some(report) => {
                reports.push(report);
                proof {
                    assert(reports@.map_values(|s: String| s@) =~= kept_lines(all.take(k + 1)));
                }
            },
            None => {},
        }
        k += 1;
    }
    proof {
        assert(all.take(k as int) =~= all);
    }
    reports
}

/// How many reports a queue file holds.
pub fn queued_count(text: &str) -> (n: usize)
    ensures
        n == kept_lines(split_on(text@, '\n')).len(),
{
    let reports = queued_reports(text);
    proof {
        assert(reports@.map_values(|s: String| s@).len() == reports@.len());
    }
    reports.len()
}

} // verus!
