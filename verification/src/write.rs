//! Writing Python values to workbooks. This module holds the plain writer:
//! values become cells one by one, and when rows or a column are written,
//! the first value of each column guides how the rest of it is read.
//! `writer` holds the workbook writer with type hints and format caches.
pub mod pyconv;
pub mod writer;

use vstd::prelude::*;
use rust_xlsxwriter::Worksheet;
use crate::error::XioError;
use crate::pyconv::{
    date_ok, date_value, datetime_ok, datetime_value, int_outcome, pydate_xlsx_format, pydatetime_xlsx_format,
    pytime_xlsx_format, time_ok, time_value,
};
use crate::pyvalue::{DateParts, DateTimeParts, PyVal, PyValue, TimeParts};
use crate::text::{push_decimal_u128, push_str, seq_join, strings_view, lemma_strings_view};
use crate::xlsx::{
    fits_cell, in_sheet, sheet_name, sheet_put, sheet_view, SheetCell, SheetV, SheetValue, sheet_write_blank, sheet_write_bool, sheet_write_bool_with_format,
    sheet_write_datetime, sheet_write_datetime_with_format, sheet_write_int, sheet_write_int_with_format,
    sheet_write_string, sheet_write_string_with_format, xlsx_error_message,
};
use crate::write::writer::{merges_match, ranges_cells, range_valid, lemma_disjoint_ranges, lemma_ranges_cells_push, find_overlap, overlap_message, col_after, col_offset, row_after, row_offset, text_effect, format_at, formats_opt_view, lemma_formats_view, opt_format_view, ref_format_view, values_view, FormatV, PendingNumber, pending_view, pendings_view, lemma_pendings_push, quote, quoted_list};

pub use crate::write::writer::XIOFormat;

verus! {

/// A date, a time of day, or both.
#[derive(Debug, Clone, Copy, PartialEq, Eq, Structural)]
pub enum DateTimeValue {
    Date(DateParts),
    Time(TimeParts),
    DateTime(DateTimeParts),
}

/// Whether Excel can hold a date, time or date and time.
pub open spec fn datetime_value_ok(d: DateTimeValue) -> bool {
    match d {
        DateTimeValue::Date(p) => date_ok(p),
        DateTimeValue::Time(p) => time_ok(p),
        DateTimeValue::DateTime(p) => datetime_ok(p),
    }
}

/// A value ready to be written to a cell. Floats are held as their
/// IEEE-754 bits.
#[derive(Debug, Clone)]
pub enum ExcelCell {
    String(String),
    Float(u64),
    Int(i32),
    Bool(bool),
    DateTime(DateTimeValue),
    Blank,
}

/// The mathematical view of an `ExcelCell`.
pub enum CellV {
    String(Seq<char>),
    Float(u64),
    Int(i32),
    Bool(bool),
    DateTime(DateTimeValue),
    Blank,
}

impl View for ExcelCell {
    type V = CellV;

    open spec fn view(&self) -> CellV {
        match self {
            ExcelCell::String(s) => CellV::String(s@),
            ExcelCell::Float(b) => CellV::Float(*b),
            ExcelCell::Int(n) => CellV::Int(*n),
            ExcelCell::Bool(b) => CellV::Bool(*b),
            ExcelCell::DateTime(d) => CellV::DateTime(*d),
            ExcelCell::Blank => CellV::Blank,
        }
    }
}

/// Why a value could not become a cell.
pub enum Failure {
    /// An integer did not fit; the overflow message.
    Overflow(Seq<char>),
    /// A date or time outside what Excel can hold.
    OutOfExcelRange,
    /// A value of a type that is not written; its class name.
    Unsupported(Seq<char>),
}

/// The message for a value of a type that is not written.
pub open spec fn unsupported_message(class_name: Seq<char>) -> Seq<char> {
    "Unsupported type for Excel export: "@ + class_name
}

/// Whether a library error is the one a conversion failure becomes.
pub open spec fn failure_matches(e: XioError, f: Failure) -> bool {
    match f {
        Failure::Overflow(m) => e matches XioError::Overflow(s) && s@ == m,
        Failure::OutOfExcelRange => e is Value,
        Failure::Unsupported(c) => e matches XioError::Value(s) && s@ == unsupported_message(c),
    }
}

/// Whether a conversion result agrees with its specification.
pub open spec fn result_matches(r: Result<ExcelCell, XioError>, s: Result<CellV, Failure>) -> bool {
    match s {
        Ok(c) => r matches Ok(x) && x@ == c,
        Err(f) => r matches Err(e) && failure_matches(e, f),
    }
}

/// A date or time as a cell, if Excel can hold it.
pub open spec fn datetime_cell(d: DateTimeValue) -> Result<CellV, Failure> {
    if datetime_value_ok(d) {
        Ok(CellV::DateTime(d))
    } else {
        Err(Failure::OutOfExcelRange)
    }
}

/// An integer as a cell: it must fit in an `i32`.
pub open spec fn int_cell(value: Option<i64>) -> Result<CellV, Failure> {
    match int_outcome(value, false) {
        Ok(n) => Ok(CellV::Int(n as i32)),
        Err(m) => Err(Failure::Overflow(m)),
    }
}

/// The cell a Python value becomes, tried in this order: a `str`, `None`,
/// a `float`, a `bool`, an `int`, a datetime, a date, a time, a `Decimal`;
/// any other value is refused.
pub open spec fn spec_from_py(v: PyVal) -> Result<CellV, Failure> {
    match v {
        PyVal::Str { text, .. } => Ok(CellV::String(text)),
        PyVal::NoneValue => Ok(CellV::Blank),
        PyVal::Float { bits, .. } => Ok(CellV::Float(bits)),
        PyVal::Bool(b) => Ok(CellV::Bool(b)),
        PyVal::Int { value, .. } => int_cell(value),
        PyVal::DateTime { parts, .. } => datetime_cell(DateTimeValue::DateTime(parts)),
        PyVal::Date { parts, .. } => datetime_cell(DateTimeValue::Date(parts)),
        PyVal::Time { parts, .. } => datetime_cell(DateTimeValue::Time(parts)),
        PyVal::Decimal { bits } => Ok(CellV::Float(bits)),
        PyVal::Sequence { class_name, .. } => Err(Failure::Unsupported(class_name)),
        PyVal::Other { class_name, .. } => Err(Failure::Unsupported(class_name)),
    }
}

/// Whether an integer fits in an `i32`.
pub open spec fn fits_i32(n: i64) -> bool {
    i32::MIN <= n && n <= i32::MAX
}

/// The cell a value becomes when the column's first cell was `hint`: a
/// value that can be read as the hint's type is read so (a string as a
/// string; an integer or an index-like value fitting an `i32` as an
/// integer; anything with a float value, except a `bool`, as a float; a
/// `bool` as a `bool`; a datetime as a datetime); `None` is a blank; any
/// other value is read as without a hint.
pub open spec fn spec_from_py_speculative(v: PyVal, hint: CellV) -> Result<CellV, Failure> {
    if v is NoneValue {
        Ok(CellV::Blank)
    } else {
        match (hint, v) {
            (CellV::String(_), PyVal::Str { text, .. }) => Ok(CellV::String(text)),
            (CellV::Int(_), PyVal::Int { value: Some(n), .. }) if fits_i32(n) => Ok(CellV::Int(n as i32)),
            (CellV::Int(_), PyVal::Other { index: Some(n), .. }) if fits_i32(n) => Ok(CellV::Int(n as i32)),
            (CellV::Float(_), PyVal::Float { bits, .. }) => Ok(CellV::Float(bits)),
            (CellV::Float(_), PyVal::Int { float_bits: Some(b), .. }) => Ok(CellV::Float(b)),
            (CellV::Float(_), PyVal::Decimal { bits }) => Ok(CellV::Float(bits)),
            (CellV::Float(_), PyVal::Other { float_bits: Some(b), .. }) => Ok(CellV::Float(b)),
            (CellV::Bool(_), PyVal::Bool(b)) => Ok(CellV::Bool(b)),
            (CellV::DateTime(_), PyVal::DateTime { parts, .. }) => datetime_cell(DateTimeValue::DateTime(parts)),
            _ => spec_from_py(v),
        }
    }
}

/// A value read under the same kind of hint becomes the same cell as
/// without one, except an integer under a float hint, which becomes a float.
pub proof fn lemma_speculation_keeps_kind(v: PyVal, hint: CellV)
    ensures
        !(hint is Float && (v is Int || v is Other)) && !(hint is Int && v is Other) ==> spec_from_py_speculative(v, hint) == spec_from_py(v),
{
}

fn int_to_cell(value: Option<i64>) -> (r: Result<ExcelCell, XioError>)
    ensures
        result_matches(r, int_cell(value)),
{
    match value {
        None => Err(XioError::Overflow(String::from_str("Python int too large to convert to C long"))),
        Some(v) => {
            if i32::MIN as i64 <= v && v <= i32::MAX as i64 {
                Ok(ExcelCell::Int(v as i32))
            } else {
                Err(XioError::Overflow(String::from_str("out of range integral type conversion attempted")))
            }
        },
    }
}

fn check_datetime(d: &DateTimeValue) -> (r: Result<rust_xlsxwriter::ExcelDateTime, XioError>)
    ensures
        r is Ok <==> datetime_value_ok(*d),
        r matches Ok(x) ==> x == excel_value(*d),
        r matches Err(e) ==> e is Value,
{
    match d {
        DateTimeValue::Date(p) => pydate_xlsx_format(p),
        DateTimeValue::Time(p) => pytime_xlsx_format(p),
        DateTimeValue::DateTime(p) => pydatetime_xlsx_format(p),
    }
}

fn to_datetime_cell(d: DateTimeValue) -> (r: Result<ExcelCell, XioError>)
    ensures
        result_matches(r, datetime_cell(d)),
{
    match check_datetime(&d) {
        Ok(_) => Ok(ExcelCell::DateTime(d)),
        Err(e) => Err(e),
    }
}

fn unsupported(class_name: &String) -> (r: XioError)
    ensures
        r matches XioError::Value(s) && s@ == unsupported_message(class_name@),
{
    let mut m = String::from_str("Unsupported type for Excel export: ");
    push_str(&mut m, class_name.as_str());
    XioError::Value(m)
}

/// Whether writing a cell succeeds: text needs the cell inside the sheet and
/// short enough (unformatted empty text is skipped), an unformatted blank is
/// skipped, a date or time must be in Excel's range, and everything else
/// needs the cell inside the sheet.
pub open spec fn write_ok(c: CellV, row: u32, col: u16, formatted: bool) -> bool {
    match c {
        CellV::String(s) => if formatted {
            in_sheet(row, col) && (s.len() == 0 || fits_cell(s))
        } else {
            s.len() == 0 || (in_sheet(row, col) && fits_cell(s))
        },
        CellV::Blank => !formatted || in_sheet(row, col),
        CellV::DateTime(d) => datetime_value_ok(d) && in_sheet(row, col),
        _ => in_sheet(row, col),
    }
}

/// The engine's value for a date, a time of day, or both.
pub open spec fn excel_value(d: DateTimeValue) -> rust_xlsxwriter::ExcelDateTime {
    match d {
        DateTimeValue::Date(p) => date_value(p),
        DateTimeValue::Time(p) => time_value(p),
        DateTimeValue::DateTime(p) => datetime_value(p),
    }
}

/// What a successful write of a cell does to a sheet, with `format` if one
/// is given: text as `text_effect`, integers, booleans, dates and times
/// stored with the format, a blank only when formatted; a float is left to
/// the caller and changes nothing here.
pub open spec fn cell_effect(c: CellV, format: Option<FormatV>, s: SheetV, row: u32, col: u16) -> SheetV {
    match c {
        CellV::String(t) => text_effect(t, format, s, row, col),
        CellV::Float(_) => s,
        CellV::Int(n) => sheet_put(s, row, col, SheetCell { value: SheetValue::Number(n as int), format }),
        CellV::Bool(b) => sheet_put(s, row, col, SheetCell { value: SheetValue::Boolean(b), format }),
        CellV::DateTime(d) => sheet_put(s, row, col, SheetCell { value: SheetValue::DateTime(excel_value(d)), format }),
        CellV::Blank => match format {
            None => s,
            Some(f) => sheet_put(s, row, col, SheetCell { value: SheetValue::Blank, format: Some(f) }),
        },
    }
}

fn engine_result(res: Result<(), rust_xlsxwriter::XlsxError>) -> (r: Result<Option<u64>, XioError>)
    ensures
        r is Ok <==> res is Ok,
        r matches Ok(p) ==> p is None,
        r matches Err(e) ==> e is Value,
{
    match res {
        Ok(()) => Ok(None),
        Err(e) => Err(XioError::Value(xlsx_error_message(&e))),
    }
}

impl ExcelCell {
    /// The cell a Python value becomes (see `spec_from_py`).
    pub fn from_py(elem: &PyValue) -> (r: Result<Self, XioError>)
        ensures
            result_matches(r, spec_from_py(elem@)),
    {
        match elem {
            PyValue::Str { text, .. } => Ok(ExcelCell::String(text.clone())),
            PyValue::NoneValue => Ok(ExcelCell::Blank),
            PyValue::Float { bits, .. } => Ok(ExcelCell::Float(*bits)),
            PyValue::Bool(b) => Ok(ExcelCell::Bool(*b)),
            PyValue::Int { value, .. } => int_to_cell(*value),
            PyValue::DateTime { parts, .. } => to_datetime_cell(DateTimeValue::DateTime(*parts)),
            PyValue::Date { parts, .. } => to_datetime_cell(DateTimeValue::Date(*parts)),
            PyValue::Time { parts, .. } => to_datetime_cell(DateTimeValue::Time(*parts)),
            PyValue::Decimal { bits } => Ok(ExcelCell::Float(*bits)),
            PyValue::Sequence { class_name, .. } => Err(unsupported(class_name)),
            PyValue::Other { class_name, .. } => Err(unsupported(class_name)),
        }
    }

    /// The cell a value becomes when its column's first cell was `hint`
    /// (see `spec_from_py_speculative`).
    pub fn from_py_speculative(elem: &PyValue, hint: &ExcelCell) -> (r: Result<Self, XioError>)
        ensures
            result_matches(r, spec_from_py_speculative(elem@, hint@)),
    {
        if let PyValue::NoneValue = elem {
            return Ok(ExcelCell::Blank);
        }
        match hint {
            ExcelCell::String(_) => {
                if let PyValue::Str { text, .. } = elem {
                    return Ok(ExcelCell::String(text.clone()));
                }
            },
            ExcelCell::Int(_) => {
                match elem {
                    PyValue::Int { value: Some(n), .. } => {
                        if i32::MIN as i64 <= *n && *n <= i32::MAX as i64 {
                            return Ok(ExcelCell::Int(*n as i32));
                        }
                    },
                    PyValue::Other { index: Some(n), .. } => {
                        if i32::MIN as i64 <= *n && *n <= i32::MAX as i64 {
                            return Ok(ExcelCell::Int(*n as i32));
                        }
                    },
                    _ => {},
                }
            },
            ExcelCell::Float(_) => {
                match elem {
                    PyValue::Float { bits, .. } => {
                        return Ok(ExcelCell::Float(*bits));
                    },
                    PyValue::Int { float_bits: Some(b), .. } => {
                        return Ok(ExcelCell::Float(*b));
                    },
                    PyValue::Decimal { bits } => {
                        return Ok(ExcelCell::Float(*bits));
                    },
                    PyValue::Other { float_bits: Some(b), .. } => {
                        return Ok(ExcelCell::Float(*b));
                    },
                    _ => {},
                }
            },
            ExcelCell::Bool(_) => {
                if let PyValue::Bool(b) = elem {
                    return Ok(ExcelCell::Bool(*b));
                }
            },
            ExcelCell::DateTime(_) => {
                if let PyValue::DateTime { parts, .. } = elem {
                    return to_datetime_cell(DateTimeValue::DateTime(*parts));
                }
            },
            ExcelCell::Blank => {},
        }
        Self::from_py(elem)
    }

    /// Writes the cell at `(row, col)`, with `format` if one is given. A
    /// float is only checked here: its bits are returned for the caller to
    /// write.
    pub fn write(&self, worksheet: &mut Worksheet, row: u32, col: u16, format: Option<&XIOFormat>) -> (r: Result<Option<u64>, XioError>)
        ensures
            r is Ok <==> write_ok(self@, row, col, format is Some),
            r matches Ok(p) ==> match p {
                Some(bits) => self@ == CellV::Float(bits),
                None => !(self@ is Float),
            },
            r matches Err(e) ==> e is Value,
            ((self@ is Blank && format is None) || self@ is Float) ==> *final(worksheet) == *old(worksheet),
            sheet_name(*final(worksheet)) == sheet_name(*old(worksheet)),
            r is Ok ==> sheet_view(*final(worksheet)) == cell_effect(self@, ref_format_view(format), sheet_view(*old(worksheet)), row, col),
            r is Err ==> sheet_view(*final(worksheet)) == sheet_view(*old(worksheet)),
    {
        match self {
            ExcelCell::String(s) => {
                let res = match format {
                    None => sheet_write_string(worksheet, row, col, s.as_str()),
                    Some(f) => sheet_write_string_with_format(worksheet, row, col, s.as_str(), &f.to_format()),
                };
                engine_result(res)
            },
            ExcelCell::Blank => match format {
                None => Ok(None),
                Some(f) => engine_result(sheet_write_blank(worksheet, row, col, &f.to_format())),
            },
            ExcelCell::Int(n) => match format {
                None => engine_result(sheet_write_int(worksheet, row, col, *n)),
                Some(f) => engine_result(sheet_write_int_with_format(worksheet, row, col, *n, &f.to_format())),
            },
            ExcelCell::Float(bits) => {
                if row < crate::xlsx::ROW_MAX && col < crate::xlsx::COL_MAX {
                    Ok(Some(*bits))
                } else {
                    Err(XioError::Value(xlsx_error_message(&crate::xlsx::row_col_limit_error())))
                }
            },
            ExcelCell::Bool(b) => match format {
                None => engine_result(sheet_write_bool(worksheet, row, col, *b)),
                Some(f) => engine_result(sheet_write_bool_with_format(worksheet, row, col, *b, &f.to_format())),
            },
            ExcelCell::DateTime(d) => {
                let dt = check_datetime(d)?;
                match format {
                    None => engine_result(sheet_write_datetime(worksheet, row, col, &dt)),
                    Some(f) => engine_result(sheet_write_datetime_with_format(worksheet, row, col, &dt, &f.to_format())),
                }
            },
        }
    }
}


/// One cell to write: the value, the cell that guides its reading (if
/// any), where it goes, its format, and whether it is skipped.
pub struct CellJob {
    pub value: PyVal,
    pub hint: Option<CellV>,
    pub row: u32,
    pub col: u16,
    pub format: Option<FormatV>,
    pub skip: bool,
}

/// How writing one cell ends.
pub enum JobOutcome {
    Written,
    /// A float, whose write is left to the caller.
    Float(u64),
    Failed(Failure),
    /// The engine refused the write.
    WriteFailed,
}

/// How a cell job ends.
pub open spec fn job_outcome(j: CellJob) -> JobOutcome {
    if j.skip {
        JobOutcome::Written
    } else {
        let conv = match j.hint {
            Some(h) => spec_from_py_speculative(j.value, h),
            None => spec_from_py(j.value),
        };
        match conv {
            Err(f) => JobOutcome::Failed(f),
            Ok(c) => if !write_ok(c, j.row, j.col, j.format is Some) {
                JobOutcome::WriteFailed
            } else {
                match c {
                    CellV::Float(b) => JobOutcome::Float(b),
                    _ => JobOutcome::Written,
                }
            },
        }
    }
}

/// Running the first `k` jobs in order, stopping at the first failure: the
/// float cells left to the caller, and the failure, if any.
pub open spec fn jobs_run(jobs: Seq<CellJob>, k: nat) -> (Seq<(u32, u16, u64, Option<FormatV>)>, Option<JobOutcome>)
    decreases k,
{
    if k == 0 {
        (Seq::empty(), None)
    } else {
        let (pending, failed) = jobs_run(jobs, (k - 1) as nat);
        if failed is Some {
            (pending, failed)
        } else {
            let j = jobs[k - 1];
            match job_outcome(j) {
                JobOutcome::Written => (pending, None),
                JobOutcome::Float(b) => (pending.push((j.row, j.col, b, j.format)), None),
                other => (pending, Some(other)),
            }
        }
    }
}

/// What a cell job does to the sheet: a skipped job, a value that cannot
/// become a cell and a refused write change nothing; otherwise the cell is
/// written (see `cell_effect`).
pub open spec fn job_sheet(j: CellJob, s: SheetV) -> SheetV {
    if j.skip {
        s
    } else {
        let conv = match j.hint {
            Some(h) => spec_from_py_speculative(j.value, h),
            None => spec_from_py(j.value),
        };
        match conv {
            Err(_) => s,
            Ok(c) => if write_ok(c, j.row, j.col, j.format is Some) {
                cell_effect(c, j.format, s, j.row, j.col)
            } else {
                s
            },
        }
    }
}

/// The sheet after running the first `k` jobs from `s`, stopping at the
/// first failure.
pub open spec fn jobs_sheet(jobs: Seq<CellJob>, k: nat, s: SheetV) -> SheetV
    decreases k,
{
    if k == 0 {
        s
    } else {
        let prev = jobs_sheet(jobs, (k - 1) as nat, s);
        if jobs_run(jobs, (k - 1) as nat).1 is Some {
            prev
        } else {
            job_sheet(jobs[k - 1], prev)
        }
    }
}

/// Once a run has failed, later jobs leave the sheet as it is.
pub proof fn lemma_jobs_sheet_failed_extends(jobs: Seq<CellJob>, k: nat, j: nat, s: SheetV)
    requires
        k <= j,
        jobs_run(jobs, k).1 is Some,
    ensures
        jobs_sheet(jobs, j, s) == jobs_sheet(jobs, k, s),
    decreases j - k,
{
    if j > k {
        lemma_jobs_sheet_failed_extends(jobs, k, (j - 1) as nat, s);
        lemma_jobs_failed_extends(jobs, k, (j - 1) as nat);
    }
}

/// Once a run has failed, later jobs change nothing.
pub proof fn lemma_jobs_failed_extends(jobs: Seq<CellJob>, k: nat, j: nat)
    requires
        k <= j,
        jobs_run(jobs, k).1 is Some,
    ensures
        jobs_run(jobs, j) == jobs_run(jobs, k),
    decreases j - k,
{
    if j > k {
        lemma_jobs_failed_extends(jobs, k, (j - 1) as nat);
    }
}

/// Whether an error is the one a failed job raises.
pub open spec fn job_error_matches(e: XioError, o: JobOutcome) -> bool {
    match o {
        JobOutcome::Failed(f) => failure_matches(e, f),
        _ => e is Value,
    }
}

/// Whether a run's result agrees with running `k` jobs.
pub open spec fn jobs_result_matches(pending: Seq<PendingNumber>, r: Result<(), XioError>, jobs: Seq<CellJob>, k: nat) -> bool {
    let (p, failed) = jobs_run(jobs, k);
    &&& pendings_view(pending) == p
    &&& match failed {
        None => r is Ok,
        Some(o) => r matches Err(e) && job_error_matches(e, o),
    }
}

/// The jobs of writing a row of values from `(row, col)`.
pub open spec fn row_jobs(values: Seq<PyVal>, hints: Option<Seq<CellV>>, formats: Option<Seq<Option<FormatV>>>, row: u32, col: u16) -> Seq<CellJob> {
    Seq::new(values.len(), |k: int| CellJob {
        value: values[k],
        hint: match hints {
            Some(h) => if k < h.len() { Some(h[k]) } else { None },
            None => None,
        },
        row,
        col: col_after(col, k),
        format: format_at(formats, k),
        skip: false,
    })
}

/// The jobs of writing a column of values down from `(row, col)`:
/// `None` values are skipped.
pub open spec fn column_jobs(values: Seq<PyVal>, hint: Option<CellV>, row: u32, col: u16) -> Seq<CellJob> {
    Seq::new(values.len(), |k: int| CellJob {
        value: values[k],
        hint,
        row: row_after(row, k),
        col,
        format: None,
        skip: values[k] is NoneValue,
    })
}

/// The cells that the values of a first row become, where they can.
pub open spec fn first_row_hints(values: Seq<PyVal>) -> Seq<Option<CellV>> {
    Seq::new(values.len(), |k: int| match spec_from_py(values[k]) {
        Ok(c) => Some(c),
        Err(_) => None,
    })
}

/// The jobs of writing rows `from .. to` of a block of rows, each cell
/// guided by the cell in its column of the first row.
pub open spec fn rows_jobs(rows: Seq<Seq<PyVal>>, hints: Seq<Option<CellV>>, formats: Option<Seq<Option<FormatV>>>, row: u32, col: u16, from: nat, to: nat) -> Seq<CellJob>
    decreases to - from,
{
    if to <= from {
        Seq::empty()
    } else {
        rows_jobs(rows, hints, formats, row, col, from, (to - 1) as nat) + Seq::new(rows[to - 1].len(), |k: int| CellJob {
            value: rows[to - 1][k],
            hint: if k < hints.len() { hints[k] } else { None },
            row: row_after(row, to - 1),
            col: col_after(col, k),
            format: format_at(formats, k),
            skip: false,
        })
    }
}

/// A handle on one worksheet of a workbook: its position in the engine's
/// workbook, and whether it is in constant-memory mode.
#[derive(Debug, Clone, Copy, PartialEq, Eq, Structural)]
pub struct XIOWorksheet {
    pub index: usize,
    pub is_constant_memory: bool,
}

/// A workbook being written: the engine's workbook, how many sheets it
/// has, and the handles of the worksheets that were added successfully.
pub struct XIOWorkbook {
    filepath: Option<String>,
    workbook: rust_xlsxwriter::Workbook,
    engine_sheets: usize,
    worksheets: Vec<XIOWorksheet>,
    /// The ranges merged on each of the engine's sheets, as (first row,
    /// first column, last row, last column).
    merged: Vec<Vec<(u32, u16, u32, u16)>>,
}

/// Whether a single write's result agrees with its job.
pub open spec fn job_result_matches(r: Result<Option<PendingNumber>, XioError>, j: CellJob) -> bool {
    match job_outcome(j) {
        JobOutcome::Written => r == Ok::<Option<PendingNumber>, XioError>(None),
        JobOutcome::Float(b) => r matches Ok(Some(p)) && pending_view(p) == (j.row, j.col, b, j.format),
        o => r matches Err(e) && job_error_matches(e, o),
    }
}

fn run_job(
    worksheet: &mut Worksheet,
    value: &PyValue,
    hint: Option<&ExcelCell>,
    row: u32,
    col: u16,
    format: Option<&XIOFormat>,
    skip: bool,
) -> (r: Result<Option<PendingNumber>, XioError>)
    ensures
        job_result_matches(r, CellJob {
            value: value@,
            hint: match hint { Some(h) => Some(h@), None => None },
            row,
            col,
            format: ref_format_view(format),
            skip,
        }),
        sheet_name(*final(worksheet)) == sheet_name(*old(worksheet)),
        sheet_view(*final(worksheet)) == job_sheet(CellJob {
            value: value@,
            hint: match hint { Some(h) => Some(h@), None => None },
            row,
            col,
            format: ref_format_view(format),
            skip,
        }, sheet_view(*old(worksheet))),
{
    if skip {
        return Ok(None);
    }
    let cell = match hint {
        Some(h) => ExcelCell::from_py_speculative(value, h)?,
        None => ExcelCell::from_py(value)?,
    };
    match cell.write(worksheet, row, col, format)? {
        Some(bits) => Ok(Some(PendingNumber {
            row,
            col,
            bits,
            format: match format {
                Some(f) => Some(XIOFormat { num_format: f.num_format.clone(), bold: f.bold }),
                None => None,
            },
        })),
        None => Ok(None),
    }
}

impl XIOWorkbook {
    /// Every handle is a sheet of the engine's workbook, whose sheets are
    /// counted; the engine has added each of its sheets itself.
    pub closed spec fn wf(&self) -> bool {
        &&& self.engine_sheets == crate::xlsx::book_sheet_names(self.workbook).len()
        &&& crate::xlsx::book_sheets_added(self.workbook) as nat == self.engine_sheets
        &&& crate::xlsx::book_sheet_views(self.workbook).len() == self.engine_sheets
        &&& self.merged.len() == self.engine_sheets
        &&& forall|i: int| 0 <= i < self.engine_sheets
            ==> merges_match(crate::xlsx::book_sheet_views(self.workbook)[i], #[trigger] self.merged@[i]@)
        &&& forall|i: int| 0 <= i < self.worksheets.len() ==> (#[trigger] self.worksheets@[i]).index < self.engine_sheets
    }

    /// The names of all the engine's sheets.
    pub closed spec fn engine_names(&self) -> Seq<Seq<char>> {
        crate::xlsx::book_sheet_names(self.workbook)
    }

    /// What each of the engine's sheets holds, in order.
    pub closed spec fn engine_views(&self) -> Seq<SheetV> {
        crate::xlsx::book_sheet_views(self.workbook)
    }

    /// How many sheets the engine has added; it numbers default names.
    pub closed spec fn engine_added(&self) -> nat {
        crate::xlsx::book_sheets_added(self.workbook) as nat
    }

    /// The handles of the worksheets, in order.
    pub closed spec fn handles(&self) -> Seq<XIOWorksheet> {
        self.worksheets@
    }

    /// The path given when the workbook was made.
    pub closed spec fn path(&self) -> Option<Seq<char>> {
        match self.filepath {
            Some(p) => Some(p@),
            None => None,
        }
    }

    /// The names of the worksheets behind the handles.
    pub open spec fn handle_names(&self) -> Seq<Seq<char>> {
        self.handles().map_values(|h: XIOWorksheet| self.engine_names()[h.index as int])
    }

    /// Nothing but the engine's cell contents differs from `other`.
    pub open spec fn same_sheets(&self, other: &Self) -> bool {
        &&& self.wf()
        &&& self.engine_names() == other.engine_names()
        &&& self.engine_added() == other.engine_added()
        &&& self.handles() == other.handles()
        &&& self.path() == other.path()
    }

    /// A workbook without worksheets.
    pub fn new(filepath: Option<String>) -> (r: Self)
        ensures
            r.wf(),
            r.engine_views() == Seq::<SheetV>::empty(),
            r.engine_names() == Seq::<Seq<char>>::empty(),
            r.engine_added() == 0,
            r.handles() == Seq::<XIOWorksheet>::empty(),
            r.path() == match filepath {
                Some(p) => Some(p@),
                None => None::<Seq<char>>,
            },
    {
        XIOWorkbook { filepath, workbook: crate::xlsx::book_new(), engine_sheets: 0, worksheets: Vec::new(), merged: Vec::new() }
    }

    /// Builds a format from properties (see `XIOFormat::from_properties`).
    pub fn add_format(&self, properties: &Vec<(crate::pyvalue::PropValue, crate::pyvalue::PropValue)>) -> (r: Result<XIOFormat, XioError>)
        ensures
            crate::write::writer::props_match(r, crate::write::writer::props_outcome(crate::write::writer::props_view(properties@))),
    {
        XIOFormat::from_properties(properties)
    }

    /// Adds a worksheet named `name`. The engine adds the sheet first; if
    /// the name is not a valid sheet name, the sheet stays in the engine's
    /// workbook under its default name, no handle is kept, and an error is
    /// returned. Making a constant-memory sheet needs a temporary file,
    /// which can fail. The engine counts its sheets in a `u16`, so a
    /// workbook holds fewer than `u16::MAX` sheets.
    pub fn add_worksheet(&mut self, name: &str, constant_memory: bool) -> (r: Result<XIOWorksheet, XioError>)
        requires
            old(self).wf(),
            old(self).engine_names().len() < u16::MAX,
        ensures
            final(self).wf(),
            final(self).path() == old(self).path(),
            r matches Err(e) ==> e is Value,
            final(self).engine_names().len() == old(self).engine_names().len() + 1 ==> {
                &&& final(self).engine_added() == old(self).engine_added() + 1
                &&& (r is Ok <==> crate::xlsx::valid_sheet_name(name@))
                &&& final(self).engine_names() == old(self).engine_names().push(
                    if crate::xlsx::valid_sheet_name(name@) {
                        name@
                    } else {
                        crate::xlsx::default_sheet_name(old(self).engine_added() + 1)
                    },
                )
                &&& (r matches Ok(ws) ==> ws == (XIOWorksheet { index: old(self).engine_names().len() as usize, is_constant_memory: constant_memory })
                    && final(self).handles() == old(self).handles().push(ws))
                &&& (r is Err ==> final(self).handles() == old(self).handles())
                &&& final(self).engine_views() == old(self).engine_views().push(crate::xlsx::empty_sheet(constant_memory))
            },
            final(self).engine_names().len() != old(self).engine_names().len() + 1 ==> {
                &&& constant_memory
                &&& r is Err
                &&& final(self).same_sheets(old(self))
                &&& final(self).engine_views() == old(self).engine_views()
            },
            !constant_memory ==> final(self).engine_names().len() == old(self).engine_names().len() + 1,
            old(self).engine_added() == old(self).engine_names().len(),
            final(self).engine_added() == final(self).engine_names().len(),
    {
        let index = self.engine_sheets;
        let ws = if constant_memory {
            match crate::xlsx::book_add_sheet_constant_memory(&mut self.workbook) {
                Ok(ws) => ws,
                Err(e) => {
                    return Err(XioError::Value(xlsx_error_message(&e)));
                },
            }
        } else {
            crate::xlsx::book_add_sheet(&mut self.workbook)
        };
        self.engine_sheets = index + 1;
        self.merged.push(Vec::new());
        proof {
            assert(ranges_cells(Seq::<(u32, u16, u32, u16)>::empty()) =~= Set::<(u32, u16)>::empty());
        }
        if let Err(e) = crate::xlsx::sheet_set_name(ws, name) {
            return Err(XioError::Value(xlsx_error_message(&e)));
        }
        let sheet = XIOWorksheet::internal_new(ws, index, name, constant_memory);
        self.worksheets.push(sheet);
        Ok(sheet)
    }

    /// The path to save to: the one given, else the workbook's.
    pub fn save_path(&self, filepath: Option<String>) -> (r: Result<String, XioError>)
        ensures
            match filepath {
                Some(p) => r matches Ok(x) && x@ == p@,
                None => match self.path() {
                    Some(p) => r matches Ok(x) && x@ == p,
                    None => r matches Err(XioError::Value(m)) && m@ == crate::write::writer::no_path_message(),
                },
            },
    {
        match filepath {
            Some(p) => Ok(p),
            None => match &self.filepath {
                Some(p) => Ok(p.clone()),
                None => Err(XioError::Value(String::from_str("Expected provided path or inited filepath. Got nothing."))),
            },
        }
    }

    /// The handle at `idx`, if there is one.
    pub fn get_by_idx(&self, idx: usize) -> (r: Result<XIOWorksheet, XioError>)
        ensures
            idx < self.handles().len() ==> r == Ok::<XIOWorksheet, XioError>(self.handles()[idx as int]),
            idx >= self.handles().len() ==> (r matches Err(XioError::Value(m))
                && m@ == "Worksheet at index "@ + crate::text::nat_digits(idx as nat) + " not found"@),
    {
        if idx < self.worksheets.len() {
            Ok(self.worksheets[idx])
        } else {
            let mut m = String::from_str("Worksheet at index ");
            push_decimal_u128(&mut m, idx as u128);
            push_str(&mut m, " not found");
            Err(XioError::Value(m))
        }
    }

    /// The names of the worksheets behind the handles.
    pub fn sheetnames(&mut self) -> (r: Vec<String>)
        requires
            old(self).wf(),
        ensures
            strings_view(r@) == old(self).handle_names(),
            final(self).same_sheets(old(self)),
            final(self).engine_views() == old(self).engine_views(),
    {
        let n = self.worksheets.len();
        let mut r: Vec<String> = Vec::new();
        let mut i: usize = 0;
        while i < n
            invariant
                i <= n,
                n == old(self).handles().len(),
                self.same_sheets(old(self)),
                self.engine_views() == old(self).engine_views(),
                strings_view(r@) == old(self).handle_names().take(i as int),
            decreases n - i,
        {
            let h = self.worksheets[i];
            let name = h.name(self);
            let ghost prev = r@;
            r.push(name);
            proof {
                lemma_strings_view(prev);
                lemma_strings_view(r@);
            }
            assert(strings_view(r@) =~= old(self).handle_names().take(i + 1));
            i = i + 1;
        }
        assert(old(self).handle_names().take(n as int) =~= old(self).handle_names());
        r
    }

    /// The first handle whose worksheet is named `name`, if there is one.
    pub fn get_by_name(&mut self, name: &str) -> (r: Result<XIOWorksheet, XioError>)
        requires
            old(self).wf(),
        ensures
            final(self).same_sheets(old(self)),
            final(self).engine_views() == old(self).engine_views(),
            r matches Ok(ws) ==> exists|i: int| 0 <= i < old(self).handles().len() && old(self).handles()[i] == ws
                && old(self).handle_names()[i] == name@
                && forall|j: int| 0 <= j < i ==> old(self).handle_names()[j] != name@,
            r is Err ==> (forall|j: int| 0 <= j < old(self).handles().len() ==> old(self).handle_names()[j] != name@),
            r is Err ==> (r matches Err(XioError::Value(m)) && m@ == "Worksheet '"@ + name@ + "' not found"@),
    {
        let n = self.worksheets.len();
        let target = String::from_str(name);
        let mut i: usize = 0;
        while i < n
            invariant
                i <= n,
                n == old(self).handles().len(),
                target@ == name@,
                self.same_sheets(old(self)),
                self.engine_views() == old(self).engine_views(),
                forall|j: int| 0 <= j < i ==> old(self).handle_names()[j] != name@,
            decreases n - i,
        {
            let h = self.worksheets[i];
            let ws_name = h.name(self);
            if ws_name.eq(&target) {
                return Ok(h);
            }
            i = i + 1;
        }
        let mut m = String::from_str("Worksheet '");
        push_str(&mut m, name);
        push_str(&mut m, "' not found");
        Err(XioError::Value(m))
    }

    /// The workbook as Python shows it: the names of all the engine's
    /// sheets, quoted, in a list.
    pub fn repr(&mut self) -> (r: String)
        requires
            old(self).wf(),
        ensures
            r@ == "<XIOWorkbook(sheetnames="@ + quoted_list(old(self).engine_names()) + ")>"@,
            final(self).same_sheets(old(self)),
            final(self).engine_views() == old(self).engine_views(),
    {
        let n = self.engine_sheets;
        let mut quoted: Vec<String> = Vec::new();
        let ghost names = old(self).engine_names();
        let mut i: usize = 0;
        while i < n
            invariant
                i <= n,
                n == names.len(),
                names == old(self).engine_names(),
                self.same_sheets(old(self)),
                self.engine_views() == old(self).engine_views(),
                quoted@.len() == i,
                forall|j: int| 0 <= j < i ==> #[trigger] quoted@[j]@ == quote(names[j]),
            decreases n - i,
        {
            let name = match crate::xlsx::book_sheet(&mut self.workbook, i) {
                Ok(ws) => crate::xlsx::sheet_get_name(ws),
                Err(_) => String::new(),
            };
            assert(self.engine_names() =~= names);
            assert(self.engine_views() =~= old(self).engine_views());
            let mut q = String::from_str("\"");
            push_str(&mut q, name.as_str());
            push_str(&mut q, "\"");
            quoted.push(q);
            i = i + 1;
        }
        proof {
            lemma_strings_view(quoted@);
            assert(strings_view(quoted@) =~= names.map_values(|n: Seq<char>| quote(n)));
        }
        let mut r = String::from_str("<XIOWorkbook(sheetnames=");
        let joined = crate::text::join_strings(&quoted, ", ");
        push_str(&mut r, "[");
        push_str(&mut r, joined.as_str());
        push_str(&mut r, "]");
        push_str(&mut r, ")>");
        r
    }

    /// The engine's workbook.
    pub closed spec fn engine_book(&self) -> rust_xlsxwriter::Workbook {
        self.workbook
    }

    /// This workbook with the engine's workbook replaced by `wb`.
    pub closed spec fn with_engine_book(&self, wb: rust_xlsxwriter::Workbook) -> Self {
        XIOWorkbook {
            filepath: self.filepath,
            workbook: wb,
            engine_sheets: self.engine_sheets,
            worksheets: self.worksheets,
            merged: self.merged,
        }
    }

    /// The engine's workbook, to save it or to write float cells. It is
    /// lent in place: what is done through it is done to this workbook's
    /// engine, and nothing else of this workbook changes.
    pub fn engine(&mut self) -> (r: &mut rust_xlsxwriter::Workbook)
        ensures
            *r == old(self).engine_book(),
            *final(self) == old(self).with_engine_book(*final(r)),
            crate::xlsx::book_sheet_names(*r) == old(self).engine_names(),
            crate::xlsx::book_sheets_added(*r) == old(self).engine_added(),
            final(self).engine_names() == crate::xlsx::book_sheet_names(*final(r)),
            crate::xlsx::book_sheet_views(*r) == old(self).engine_views(),
            final(self).engine_views() == crate::xlsx::book_sheet_views(*final(r)),
            final(self).engine_added() == crate::xlsx::book_sheets_added(*final(r)),
            final(self).handles() == old(self).handles(),
            final(self).path() == old(self).path(),
    {
        &mut self.workbook
    }
}


/// The hints of a block's first row: the cell each of its values becomes,
/// where it can.
fn row_hints(values: &Vec<PyValue>) -> (r: Vec<Option<ExcelCell>>)
    ensures
        r@.len() == values@.len(),
        forall|k: int| 0 <= k < r@.len() ==> match (#[trigger] r@[k], first_row_hints(values_view(values@))[k]) {
            (Some(c), Some(d)) => c@ == d,
            (None, None) => true,
            _ => false,
        },
{
    let mut r: Vec<Option<ExcelCell>> = Vec::new();
    let mut k: usize = 0;
    while k < values.len()
        invariant
            k <= values.len(),
            r@.len() == k,
            forall|i: int| 0 <= i < k ==> match (#[trigger] r@[i], first_row_hints(values_view(values@))[i]) {
                (Some(c), Some(d)) => c@ == d,
                (None, None) => true,
                _ => false,
            },
        decreases values.len() - k,
    {
        let h = match ExcelCell::from_py(&values[k]) {
            Ok(c) => Some(c),
            Err(_) => None,
        };
        proof {
            assert(values_view(values@)[k as int] == values@[k as int]@);
        }
        r.push(h);
        k = k + 1;
    }
    r
}

/// The views of the cells guiding a block's columns.
pub open spec fn hints_view(h: Seq<Option<ExcelCell>>) -> Seq<Option<CellV>> {
    h.map_values(|x: Option<ExcelCell>| match x { Some(c) => Some(c@), None => None })
}

/// The views of a block of rows.
pub open spec fn rows_view(rows: Seq<Vec<PyValue>>) -> Seq<Seq<PyVal>> {
    rows.map_values(|r: Vec<PyValue>| values_view(r@))
}

impl XIOWorksheet {
    /// A handle on the engine's sheet at `index`, named `name` when that is a
    /// valid sheet name.
    pub fn internal_new(worksheet: &mut Worksheet, index: usize, name: &str, is_constant_memory: bool) -> (r: Self)
        ensures
            r == (XIOWorksheet { index, is_constant_memory }),
            crate::xlsx::valid_sheet_name(name@) ==> sheet_name(*final(worksheet)) == name@,
            !crate::xlsx::valid_sheet_name(name@) ==> sheet_name(*final(worksheet)) == sheet_name(*old(worksheet)),
            sheet_view(*final(worksheet)) == sheet_view(*old(worksheet)),
    {
        let _ = crate::xlsx::sheet_set_name(worksheet, name);
        XIOWorksheet { index, is_constant_memory }
    }

    /// Whether the worksheet is in constant-memory mode.
    pub fn constant_memory(&self) -> (r: bool)
        ensures
            r == self.is_constant_memory,
    {
        self.is_constant_memory
    }

    /// The name of the worksheet.
    pub fn name(&self, book: &mut XIOWorkbook) -> (r: String)
        requires
            old(book).wf(),
            self.index < old(book).engine_names().len(),
        ensures
            r@ == old(book).engine_names()[self.index as int],
            final(book).same_sheets(old(book)),
            final(book).engine_views() == old(book).engine_views(),
    {
        let r = match crate::xlsx::book_sheet(&mut book.workbook, self.index) {
            Ok(ws) => crate::xlsx::sheet_get_name(ws),
            Err(_) => String::new(),
        };
        assert(book.engine_names() =~= old(book).engine_names());
        assert(book.engine_views() =~= old(book).engine_views());
        r
    }

    /// The worksheet as Python shows it.
    pub fn repr(&self, book: &mut XIOWorkbook) -> (r: String)
        requires
            old(book).wf(),
            self.index < old(book).engine_names().len(),
        ensures
            r@ == "<XIOWorksheet \""@ + old(book).engine_names()[self.index as int] + "\">"@,
            final(book).same_sheets(old(book)),
            final(book).engine_views() == old(book).engine_views(),
    {
        let name = self.name(book);
        let mut r = String::from_str("<XIOWorksheet \"");
        push_str(&mut r, name.as_str());
        push_str(&mut r, "\">");
        r
    }

    /// Writes one value to `(row, col)`, with `format` if one is given. A
    /// float cell is returned for the caller to write.
    pub fn write_cell(&self, book: &mut XIOWorkbook, row: u32, col: u16, value: &PyValue, format: Option<&XIOFormat>) -> (r: Result<Option<PendingNumber>, XioError>)
        requires
            old(book).wf(),
            self.index < old(book).engine_names().len(),
        ensures
            final(book).same_sheets(old(book)),
            job_result_matches(r, CellJob { value: value@, hint: None, row, col, format: ref_format_view(format), skip: false }),
            final(book).engine_views() == old(book).engine_views().update(
                self.index as int,
                job_sheet(CellJob { value: value@, hint: None, row, col, format: ref_format_view(format), skip: false },
                    old(book).engine_views()[self.index as int]),
            ),
    {
        let r = match crate::xlsx::book_sheet(&mut book.workbook, self.index) {
            Ok(ws) => run_job(ws, value, None, row, col, format, false),
            Err(_) => Ok(None),
        };
        assert(book.engine_names() =~= old(book).engine_names());
        r
    }

    /// Runs jobs in order on the worksheet, stopping at the first failure.
    fn run_jobs(
        &self,
        book: &mut XIOWorkbook,
        values: &Vec<PyValue>,
        hints: &Vec<Option<ExcelCell>>,
        formats: Option<&Vec<Option<XIOFormat>>>,
        row: u32,
        col: u16,
        down: bool,
        ghost_jobs: Ghost<Seq<CellJob>>,
    ) -> (r: (Vec<PendingNumber>, Result<(), XioError>))
        requires
            old(book).wf(),
            self.index < old(book).engine_names().len(),
            ghost_jobs@ == if down {
                column_jobs(values_view(values@), if hints@.len() > 0 { hints_view(hints@)[0] } else { None }, row, col)
            } else {
                Seq::new(values@.len(), |k: int| CellJob {
                    value: values_view(values@)[k],
                    hint: if k < hints@.len() { hints_view(hints@)[k] } else { None },
                    row,
                    col: col_after(col, k),
                    format: format_at(formats_opt_view(formats), k),
                    skip: false,
                })
            },
        ensures
            final(book).same_sheets(old(book)),
            jobs_result_matches(r.0@, r.1, ghost_jobs@, values@.len() as nat),
            final(book).engine_views() == old(book).engine_views().update(
                self.index as int,
                jobs_sheet(ghost_jobs@, values@.len() as nat, old(book).engine_views()[self.index as int]),
            ),
    {
        let ghost jobs = ghost_jobs@;
        let ghost sv0 = book.engine_views()[self.index as int];
        let mut pending: Vec<PendingNumber> = Vec::new();
        let mut k: usize = 0;
        while k < values.len()
            invariant
                k <= values.len(),
                book.same_sheets(old(book)),
                self.index < old(book).engine_names().len(),
                jobs == ghost_jobs@,
                jobs.len() == values@.len(),
                jobs == if down {
                    column_jobs(values_view(values@), if hints@.len() > 0 { hints_view(hints@)[0] } else { None }, row, col)
                } else {
                    Seq::new(values@.len(), |k: int| CellJob {
                        value: values_view(values@)[k],
                        hint: if k < hints@.len() { hints_view(hints@)[k] } else { None },
                        row,
                        col: col_after(col, k),
                        format: format_at(formats_opt_view(formats), k),
                        skip: false,
                    })
                },
                jobs_run(jobs, k as nat).1 is None,
                pendings_view(pending@) == jobs_run(jobs, k as nat).0,
                sv0 == old(book).engine_views()[self.index as int],
                self.index < old(book).engine_views().len(),
                book.engine_views() == old(book).engine_views().update(self.index as int, jobs_sheet(jobs, k as nat, sv0)),
            decreases values.len() - k,
        {
            let (r, c) = if down {
                (row_offset(row, k), col)
            } else {
                (row, col_offset(col, k))
            };
            let hint: Option<&ExcelCell> = if down {
                if hints.len() > 0 {
                    hints[0].as_ref()
                } else {
                    None
                }
            } else if k < hints.len() {
                hints[k].as_ref()
            } else {
                None
            };
            let fmt: Option<&XIOFormat> = if down {
                None
            } else {
                match formats {
                    Some(v) => if k < v.len() {
                        v[k].as_ref()
                    } else {
                        None
                    },
                    None => None,
                }
            };
            let skip = if down {
                match &values[k] {
                    PyValue::NoneValue => true,
                    _ => false,
                }
            } else {
                false
            };
            proof {
                if let Some(v) = formats {
                    lemma_formats_view(v@);
                }
                assert(values_view(values@)[k as int] == values@[k as int]@);
                if hints@.len() > 0 {
                    assert(hints_view(hints@)[0] == match hints@[0] { Some(c) => Some(c@), None => None::<CellV> });
                }
                if k < hints@.len() {
                    assert(hints_view(hints@)[k as int] == match hints@[k as int] { Some(c) => Some(c@), None => None::<CellV> });
                }
            }
            assert(book.engine_views()[self.index as int] == jobs_sheet(jobs, k as nat, sv0));
            let res = match crate::xlsx::book_sheet(&mut book.workbook, self.index) {
                Ok(ws) => run_job(ws, &values[k], hint, r, c, fmt, skip),
                Err(_) => Ok(None),
            };
            assert(book.engine_names() =~= old(book).engine_names());
            assert(jobs[k as int] == (CellJob {
                value: values@[k as int]@,
                hint: match hint { Some(h) => Some(h@), None => None },
                row: r,
                col: c,
                format: ref_format_view(fmt),
                skip,
            }));
            assert(book.engine_views() =~= old(book).engine_views().update(self.index as int, jobs_sheet(jobs, (k + 1) as nat, sv0)));
            match res {
                Ok(p) => {
                    if let Some(n) = p {
                        let ghost before = pending@;
                        pending.push(n);
                        proof {
                            lemma_pendings_push(before, n);
                        }
                    }
                    assert(pendings_view(pending@) =~= jobs_run(jobs, (k + 1) as nat).0);
                },
                Err(e) => {
                    proof {
                        assert(jobs_run(jobs, (k + 1) as nat).1 is Some);
                        assert(jobs_run(jobs, (k + 1) as nat).0 == jobs_run(jobs, k as nat).0);
                        lemma_jobs_failed_extends(jobs, (k + 1) as nat, values@.len() as nat);
                        lemma_jobs_sheet_failed_extends(jobs, (k + 1) as nat, values@.len() as nat, sv0);
                        assert(jobs_run(jobs, (k + 1) as nat).1 == Some(job_outcome(jobs[k as int])));
                        assert(job_error_matches(e, job_outcome(jobs[k as int])));
                    }
                    return (pending, Err(e));
                },
            }
            k = k + 1;
        }
        (pending, Ok(()))
    }
}


/// Running two lists of jobs one after the other: when the first runs
/// through, the second continues from where it ended.
pub proof fn lemma_jobs_append(a: Seq<CellJob>, b: Seq<CellJob>, k: nat)
    requires
        jobs_run(a, a.len()).1 is None,
        k <= b.len(),
    ensures
        jobs_run(a + b, a.len() + k) == (jobs_run(a, a.len()).0 + jobs_run(b, k).0, jobs_run(b, k).1),
    decreases k,
{
    if k == 0 {
        lemma_jobs_prefix(a, b, a.len());
        assert(jobs_run(a, a.len()).0 + Seq::<(u32, u16, u64, Option<FormatV>)>::empty() =~= jobs_run(a, a.len()).0);
    } else {
        lemma_jobs_append(a, b, (k - 1) as nat);
        assert((a + b)[a.len() + k - 1] == b[k - 1]);
        let (p, f) = jobs_run(b, (k - 1) as nat);
        if f is None {
            match job_outcome(b[k - 1]) {
                JobOutcome::Float(x) => {
                    assert(jobs_run(a, a.len()).0 + p.push((b[k - 1].row, b[k - 1].col, x, b[k - 1].format))
                        =~= (jobs_run(a, a.len()).0 + p).push((b[k - 1].row, b[k - 1].col, x, b[k - 1].format)));
                },
                _ => {},
            }
        }
    }
}

/// Running the first `k` jobs of a longer list writes the sheet as running
/// the first `k` jobs.
pub proof fn lemma_jobs_sheet_prefix(a: Seq<CellJob>, b: Seq<CellJob>, k: nat, s: SheetV)
    requires
        k <= a.len(),
    ensures
        jobs_sheet(a + b, k, s) == jobs_sheet(a, k, s),
    decreases k,
{
    if k > 0 {
        lemma_jobs_sheet_prefix(a, b, (k - 1) as nat, s);
        lemma_jobs_prefix(a, b, (k - 1) as nat);
        assert((a + b)[k - 1] == a[k - 1]);
    }
}

/// Running two lists of jobs one after the other writes the sheet as the
/// second list does, from where the first left it.
pub proof fn lemma_jobs_sheet_append(a: Seq<CellJob>, b: Seq<CellJob>, k: nat, s: SheetV)
    requires
        jobs_run(a, a.len()).1 is None,
        k <= b.len(),
    ensures
        jobs_sheet(a + b, a.len() + k, s) == jobs_sheet(b, k, jobs_sheet(a, a.len(), s)),
    decreases k,
{
    if k == 0 {
        lemma_jobs_sheet_prefix(a, b, a.len(), s);
    } else {
        lemma_jobs_sheet_append(a, b, (k - 1) as nat, s);
        lemma_jobs_append(a, b, (k - 1) as nat);
        assert((a + b)[a.len() + k - 1] == b[k - 1]);
    }
}

/// Running the first `k` jobs of a longer list is running the first `k`
/// jobs.
pub proof fn lemma_jobs_prefix(a: Seq<CellJob>, b: Seq<CellJob>, k: nat)
    requires
        k <= a.len(),
    ensures
        jobs_run(a + b, k) == jobs_run(a, k),
    decreases k,
{
    if k > 0 {
        lemma_jobs_prefix(a, b, (k - 1) as nat);
        assert((a + b)[k - 1] == a[k - 1]);
    }
}

/// A well-formed workbook has one view per sheet of the engine.
pub proof fn lemma_wf_lengths(book: XIOWorkbook)
    requires
        book.wf(),
    ensures
        book.engine_views().len() == book.engine_names().len(),
        book.engine_added() == book.engine_names().len(),
{
}

/// Whether `after` is `before` with the jobs run on the sheet at `idx`.
pub open spec fn rows_written(before: XIOWorkbook, after: XIOWorkbook, idx: int, jobs: Seq<CellJob>) -> bool {
    after.engine_views() == before.engine_views().update(idx, jobs_sheet(jobs, jobs.len(), before.engine_views()[idx]))
}

/// The cells that the values of a block's first row become, where they can.
pub open spec fn block_hints(rows: Seq<Vec<PyValue>>) -> Seq<Option<CellV>> {
    if rows.len() > 0 {
        first_row_hints(values_view(rows[0]@))
    } else {
        Seq::empty()
    }
}

/// A result without its value.
pub open spec fn unit_result<T>(r: Result<T, XioError>) -> Result<(), XioError> {
    match r {
        Ok(_) => Ok(()),
        Err(e) => Err(e),
    }
}

/// How the first value of a column guides the rest: the cell it becomes,
/// unless it is `None` or cannot become one.
pub open spec fn column_hint(values: Seq<PyVal>) -> Option<CellV> {
    if values.len() == 0 || values[0] is NoneValue {
        None
    } else {
        match spec_from_py(values[0]) {
            Ok(c) => Some(c),
            Err(_) => None,
        }
    }
}

impl XIOWorksheet {
    /// Writes values along row `row` from column `col`, each with the format
    /// at its position in `formats`, if any; stops at the first failure.
    /// Float cells are returned for the caller to write.
    pub fn write_row(
        &self,
        book: &mut XIOWorkbook,
        row: u32,
        col: u16,
        values: &Vec<PyValue>,
        formats: Option<&Vec<Option<XIOFormat>>>,
    ) -> (r: (Vec<PendingNumber>, Result<(), XioError>))
        requires
            old(book).wf(),
            self.index < old(book).engine_names().len(),
        ensures
            final(book).same_sheets(old(book)),
            jobs_result_matches(r.0@, r.1, row_jobs(values_view(values@), None, formats_opt_view(formats), row, col), values@.len() as nat),
            final(book).engine_views() == old(book).engine_views().update(
                self.index as int,
                jobs_sheet(row_jobs(values_view(values@), None, formats_opt_view(formats), row, col), values@.len() as nat,
                    old(book).engine_views()[self.index as int]),
            ),
    {
        let hints: Vec<Option<ExcelCell>> = Vec::new();
        let ghost jobs = row_jobs(values_view(values@), None, formats_opt_view(formats), row, col);
        assert(jobs =~= Seq::new(values@.len(), |k: int| CellJob {
            value: values_view(values@)[k],
            hint: if k < hints@.len() { hints_view(hints@)[k] } else { None },
            row,
            col: col_after(col, k),
            format: format_at(formats_opt_view(formats), k),
            skip: false,
        }));
        self.run_jobs(book, values, &hints, formats, row, col, false, Ghost(jobs))
    }

    /// Writes values down column `col` from row `row`: not in constant-memory
    /// mode and not with a format. `None` values are skipped; the first
    /// value guides the reading of the rest (see `column_hint`). Stops at the
    /// first failure; float cells are returned for the caller to write.
    pub fn write_column(
        &self,
        book: &mut XIOWorkbook,
        row: u32,
        col: u16,
        values: &Vec<PyValue>,
        format: Option<&XIOFormat>,
    ) -> (r: (Vec<PendingNumber>, Result<(), XioError>))
        requires
            old(book).wf(),
            self.index < old(book).engine_names().len(),
        ensures
            final(book).same_sheets(old(book)),
            self.is_constant_memory ==> r.0@.len() == 0
                && (r.1 matches Err(XioError::Runtime(m)) && m@ == crate::write::writer::constant_memory_column_message()),
            !self.is_constant_memory && format is Some ==> r.0@.len() == 0
                && (r.1 matches Err(XioError::Value(m)) && m@ == crate::write::writer::formatted_column_message()),
            !self.is_constant_memory && format is None ==> jobs_result_matches(r.0@, r.1,
                column_jobs(values_view(values@), column_hint(values_view(values@)), row, col), values@.len() as nat),
            (self.is_constant_memory || format is Some) ==> final(book).engine_views() == old(book).engine_views(),
            !self.is_constant_memory && format is None ==> final(book).engine_views() == old(book).engine_views().update(
                self.index as int,
                jobs_sheet(column_jobs(values_view(values@), column_hint(values_view(values@)), row, col), values@.len() as nat,
                    old(book).engine_views()[self.index as int]),
            ),
    {
        if self.is_constant_memory {
            return (Vec::new(), Err(XioError::Runtime(String::from_str("Cannot write columnar data in constant_memory worksheet mode"))));
        }
        if format.is_some() {
            return (Vec::new(), Err(XioError::Value(String::from_str("Formatted write not supported for write_column"))));
        }
        let mut hints: Vec<Option<ExcelCell>> = Vec::new();
        if values.len() > 0 {
            let h = match &values[0] {
                PyValue::NoneValue => None,
                first => match ExcelCell::from_py(first) {
                    Ok(c) => Some(c),
                    Err(_) => None,
                },
            };
            hints.push(h);
            proof {
                assert(values_view(values@)[0] == values@[0]@);
                assert(hints_view(hints@)[0] == column_hint(values_view(values@)));
            }
        }
        let ghost jobs = column_jobs(values_view(values@), column_hint(values_view(values@)), row, col);
        proof {
            if values@.len() == 0 {
                assert(jobs =~= column_jobs(values_view(values@), None, row, col));
            }
        }
        self.run_jobs(book, values, &hints, None, row, col, true, Ghost(jobs))
    }

    /// Writes a block of rows from `(row, col)`, starting at row `start` of
    /// the block, each cell guided by the cell in its column of the block's
    /// first row, each with the format at its column's position. Writing
    /// pauses after the first row that holds floats, which are returned for
    /// the caller to write, with the row to go on from; it stops at the
    /// first failure.
    pub fn write_rows(
        &self,
        book: &mut XIOWorkbook,
        row: u32,
        col: u16,
        rows: &Vec<Vec<PyValue>>,
        formats: Option<&Vec<Option<XIOFormat>>>,
        start: usize,
    ) -> (r: (Vec<PendingNumber>, Result<Option<usize>, XioError>))
        requires
            old(book).wf(),
            self.index < old(book).engine_names().len(),
            start <= rows.len(),
        ensures
            final(book).same_sheets(old(book)),
            ({
                let hints = block_hints(rows@);
                let all = rows_view(rows@);
                let fmts = formats_opt_view(formats);
                &&& r.1 matches Ok(None) ==> jobs_result_matches(r.0@, Ok(()), rows_jobs(all, hints, fmts, row, col, start as nat, rows.len() as nat),
                    rows_jobs(all, hints, fmts, row, col, start as nat, rows.len() as nat).len())
                    && rows_written(*old(book), *final(book), self.index as int, rows_jobs(all, hints, fmts, row, col, start as nat, rows.len() as nat))
                &&& r.1 matches Ok(Some(e)) ==> start < e < rows.len() && r.0@.len() > 0
                    && jobs_result_matches(r.0@, Ok(()), rows_jobs(all, hints, fmts, row, col, start as nat, e as nat),
                        rows_jobs(all, hints, fmts, row, col, start as nat, e as nat).len())
                    && rows_written(*old(book), *final(book), self.index as int, rows_jobs(all, hints, fmts, row, col, start as nat, e as nat))
                &&& r.1 is Err ==> exists|e: nat| start < e <= rows.len()
                    && jobs_result_matches(r.0@, unit_result(r.1), #[trigger] rows_jobs(all, hints, fmts, row, col, start as nat, e),
                        rows_jobs(all, hints, fmts, row, col, start as nat, e).len())
                    && rows_written(*old(book), *final(book), self.index as int, rows_jobs(all, hints, fmts, row, col, start as nat, e))
            }),
    {
        let empty: Vec<PendingNumber> = Vec::new();
        proof {
            assert(pendings_view(empty@) =~= Seq::<(u32, u16, u64, Option<FormatV>)>::empty());
        }
        if rows.len() == 0 {
            assert(book.engine_views() =~= old(book).engine_views().update(self.index as int, old(book).engine_views()[self.index as int]));
            assert(rows_jobs(rows_view(rows@), block_hints(rows@), formats_opt_view(formats), row, col, start as nat, rows.len() as nat).len() == 0);
            return (empty, Ok(None));
        }
        let hints = row_hints(&rows[0]);
        let ghost hv = first_row_hints(values_view(rows@[0]@));
        assert(hv == block_hints(rows@));
        let ghost all = rows_view(rows@);
        let ghost fmts = formats_opt_view(formats);
        proof {
            assert(hints_view(hints@) =~= hv);
        }
        assert(rows_jobs(all, hv, fmts, row, col, start as nat, start as nat).len() == 0);
        assert(book.engine_views() =~= old(book).engine_views().update(self.index as int, old(book).engine_views()[self.index as int]));
        let mut t: usize = start;
        while t < rows.len()
            invariant
                start <= t <= rows.len(),
                rows.len() > 0,
                book.same_sheets(old(book)),
                self.index < old(book).engine_names().len(),
                hints_view(hints@) == hv,
                hv == first_row_hints(values_view(rows@[0]@)),
                hv == block_hints(rows@),
                all == rows_view(rows@),
                fmts == formats_opt_view(formats),
                pendings_view(empty@) == Seq::<(u32, u16, u64, Option<FormatV>)>::empty(),
                jobs_result_matches(empty@, Ok(()), rows_jobs(all, hv, fmts, row, col, start as nat, t as nat),
                    rows_jobs(all, hv, fmts, row, col, start as nat, t as nat).len()),
                self.index < old(book).engine_views().len(),
                rows_written(*old(book), *book, self.index as int, rows_jobs(all, hv, fmts, row, col, start as nat, t as nat)),
            decreases rows.len() - t,
        {
            let ghost before = rows_jobs(all, hv, fmts, row, col, start as nat, t as nat);
            let ghost this_row = Seq::new(rows@[t as int]@.len(), |k: int| CellJob {
                value: values_view(rows@[t as int]@)[k],
                hint: if k < hints@.len() { hints_view(hints@)[k] } else { None },
                row: row_after(row, t as int),
                col: col_after(col, k),
                format: format_at(fmts, k),
                skip: false,
            });
            proof {
                assert(all[t as int] == values_view(rows@[t as int]@));
                assert(rows_jobs(all, hv, fmts, row, col, start as nat, (t + 1) as nat) =~= before + this_row);
            }
            let (p, res) = self.run_jobs(book, &rows[t], &hints, formats, row_offset(row, t), col, false, Ghost(this_row));
            proof {
                lemma_jobs_append(before, this_row, this_row.len());
                assert(jobs_run(before, before.len()).0 + jobs_run(this_row, this_row.len()).0 =~= jobs_run(this_row, this_row.len()).0);
                lemma_jobs_sheet_append(before, this_row, this_row.len(), old(book).engine_views()[self.index as int]);
                assert(book.engine_views() =~= old(book).engine_views().update(self.index as int,
                    jobs_sheet(before + this_row, (before + this_row).len(), old(book).engine_views()[self.index as int])));
            }
            t = t + 1;
            match res {
                Err(e) => {
                    proof {
                        let rr: Result<Option<usize>, XioError> = Err(e);
                        assert(unit_result(rr) == Err::<(), XioError>(e));
                        assert(jobs_result_matches(p@, unit_result(rr), rows_jobs(all, hv, fmts, row, col, start as nat, t as nat),
                            rows_jobs(all, hv, fmts, row, col, start as nat, t as nat).len()));
                        assert(exists|e: nat| start < e <= rows.len()
                            && jobs_result_matches(p@, unit_result(rr), #[trigger] rows_jobs(all, hv, fmts, row, col, start as nat, e),
                            rows_jobs(all, hv, fmts, row, col, start as nat, e).len()));
                    }
                    return (p, Err(e));
                },
                Ok(()) => {},
            }
            if p.len() > 0 {
                if t < rows.len() {
                    return (p, Ok(Some(t)));
                }
                return (p, Ok(None));
            }
        }
        (empty, Ok(None))
    }

    /// Merges a range of the worksheet and writes `text` in it, with
    /// `format` or the default format. A valid range that shares a cell
    /// with a range merged earlier on the sheet is refused before anything
    /// is written.
    pub fn merge_range(
        &self,
        book: &mut XIOWorkbook,
        first_row: u32,
        first_col: u16,
        last_row: u32,
        last_col: u16,
        text: &str,
        format: Option<&XIOFormat>,
    ) -> (r: Result<(), XioError>)
        requires
            old(book).wf(),
            self.index < old(book).engine_names().len(),
        ensures
            final(book).same_sheets(old(book)),
            r matches Err(e) ==> e is Value,
            r is Ok <==> (crate::xlsx::merge_args_ok(first_row, first_col, last_row, last_col, text@)
                && crate::xlsx::range_cells(first_row, first_col, last_row, last_col).disjoint(old(book).engine_views()[self.index as int].merged)),
            r is Ok ==> final(book).engine_views() == old(book).engine_views().update(
                self.index as int,
                crate::xlsx::merged_sheet(old(book).engine_views()[self.index as int], first_row, first_col, last_row, last_col, text@,
                    crate::write::writer::merge_format(ref_format_view(format))),
            ),
            r is Err ==> final(book).engine_views() == old(book).engine_views(),
    {
        proof {
            assert(merges_match(book.engine_views()[self.index as int], book.merged@[self.index as int]@));
        }
        let geometry_ok = first_row < crate::xlsx::ROW_MAX && first_col < crate::xlsx::COL_MAX && last_row < crate::xlsx::ROW_MAX
            && last_col < crate::xlsx::COL_MAX && first_row <= last_row && first_col <= last_col
            && !(first_row == last_row && first_col == last_col);
        if geometry_ok {
            proof {
                lemma_disjoint_ranges(book.merged@[self.index as int]@, (first_row, first_col, last_row, last_col));
            }
            if let Some(i) = find_overlap(&book.merged[self.index], first_row, first_col, last_row, last_col) {
                let prev = book.merged[self.index][i];
                return Err(XioError::Value(overlap_message((first_row, first_col, last_row, last_col), prev)));
            }
        }
        let f = match format {
            Some(x) => x.to_format(),
            None => crate::xlsx::format_new(),
        };
        let res = match crate::xlsx::book_sheet(&mut book.workbook, self.index) {
            Ok(ws) => crate::xlsx::sheet_merge_range(ws, first_row, first_col, last_row, last_col, text, &f),
            Err(e) => Err(e),
        };
        assert(book.engine_names() =~= old(book).engine_names());
        match res {
            Ok(()) => {
                let ghost before = book.merged@[self.index as int]@;
                book.merged[self.index].push((first_row, first_col, last_row, last_col));
                proof {
                    lemma_ranges_cells_push(before, (first_row, first_col, last_row, last_col));
                    assert(book.merged@[self.index as int]@ == before.push((first_row, first_col, last_row, last_col)));
                    assert forall|i: int| 0 <= i < book.engine_sheets implies merges_match(
                        crate::xlsx::book_sheet_views(book.workbook)[i], #[trigger] book.merged@[i]@) by {
                        if i != self.index {
                            assert(book.merged@[i] == old(book).merged@[i]);
                        }
                    }
                    assert(book.engine_views() =~= old(book).engine_views().update(
                        self.index as int,
                        crate::xlsx::merged_sheet(old(book).engine_views()[self.index as int], first_row, first_col, last_row, last_col, text@,
                            crate::write::writer::merge_format(ref_format_view(format))),
                    ));
                }
                Ok(())
            },
            Err(e) => {
                assert(book.engine_views() =~= old(book).engine_views());
                Err(XioError::Value(xlsx_error_message(&e)))
            },
        }
    }
}

} // verus!
