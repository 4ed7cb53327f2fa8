//! The export window: the half-open time interval [start, end) that is the
//! sole filter predicate of an export run, and the deterministic output
//! name derived from its start date.

use vstd::prelude::*;
use crate::ExportError;
use crate::time_model::{
    Timestamp, ts_valid, ts_key, ts_lt, ts_le, ts_valid_exec, date_text, date_string,
    prev_day_date, start_of_previous_day,
};

verus! {

/// A half-open export window [start, end). Well-formed windows satisfy
/// [`window_valid`]: both endpoints valid and start strictly before end.
#[derive(Debug, Clone, Copy, PartialEq, Eq, Structural)]
pub struct ExportWindow {
    pub start: Timestamp,
    pub end: Timestamp,
}

pub open spec fn window_valid(w: ExportWindow) -> bool {
    &&& ts_valid(w.start)
    &&& ts_valid(w.end)
    &&& ts_key(w.start) < ts_key(w.end)
}

/// Whether a timestamp falls inside the half-open window.
pub open spec fn in_window(w: ExportWindow, t: Timestamp) -> bool {
    ts_key(w.start) <= ts_key(t) && ts_key(t) < ts_key(w.end)
}

/// Builds a window from explicit endpoints; rejects anything that is not a
/// valid half-open range.
pub fn make_window(start: Timestamp, end: Timestamp) -> (r: Result<ExportWindow, ExportError>)
    ensures
        r is Ok <==> (ts_valid(start) && ts_valid(end) && ts_key(start) < ts_key(end)),
        r matches Ok(w) ==> w == (ExportWindow { start, end }) && window_valid(w),
        r is Err ==> (r matches Err(e) && e is InvalidWindow),
{
    if ts_valid_exec(&start) && ts_valid_exec(&end) && ts_lt(&start, &end) {
        Ok(ExportWindow { start, end })
    } else {
        Err(ExportError::InvalidWindow)
    }
}

/// The default window when no endpoints are given: from midnight at the
/// start of yesterday (relative to the injected current time) up to now.
pub fn default_window(now: &Timestamp) -> (r: Result<ExportWindow, ExportError>)
    ensures
        r is Ok <==> (ts_valid(*now) && !(now.year == 0 && now.month == 1 && now.day == 1)),
        r matches Ok(w) ==> {
            &&& window_valid(w)
            &&& w.end == *now
            &&& (w.start.year as int, w.start.month as int, w.start.day as int) == prev_day_date(
                *now,
            )
            &&& w.start.hour == 0 && w.start.minute == 0 && w.start.second == 0
        },
        r is Err ==> (r matches Err(e) && e is InvalidWindow),
{
    if !ts_valid_exec(now) || (now.year == 0 && now.month == 1 && now.day == 1) {
        return Err(ExportError::InvalidWindow);
    }
    let start = start_of_previous_day(now);
    Ok(ExportWindow { start, end: *now })
}

pub fn window_contains(w: &ExportWindow, t: &Timestamp) -> (r: bool)
    ensures
        r == in_window(*w, *t),
{
    ts_le(&w.start, t) && ts_lt(t, &w.end)
}

/// The output file name a window determines: the window's start date,
/// rendered `YYYY-MM-DD`, with the columnar extension.
pub open spec fn filename_text(w: ExportWindow) -> Seq<char> {
    date_text(w.start) + ".parquet"@
}

/// Derives the output file name from the window start date. The name is a
/// function of the window alone, so re-running the same window names the
/// same file.
pub fn output_filename(w: &ExportWindow) -> (r: String)
    requires
        ts_valid(w.start),
    ensures
        r@ == filename_text(*w),
{
    let mut s = date_string(&w.start);
    s.append(".parquet");
    s
}

/// Law (naming is idempotent): two windows with the same start date name
/// the same output file; in particular the same window run twice names the
/// same file, so the second run meets the existing file and must fail.
pub proof fn lemma_filename_deterministic(w1: ExportWindow, w2: ExportWindow)
    requires
        w1.start == w2.start,
    ensures
        filename_text(w1) == filename_text(w2),
{
}

} // verus!
