//! The workbook writer: Python values become typed cells, per-column type
//! hints let repeated writes take a fast path, and per-column or per-row
//! format caches set a shared format once instead of on every cell.
use vstd::prelude::*;
use rust_xlsxwriter::{Format, Worksheet};
use crate::error::XioError;
use crate::pyconv::{date_ok, date_value, datetime_ok, datetime_value, int_outcome, join_items, join_outcome, time_ok, time_value};
use crate::pyvalue::{DateParts, DateTimeParts, PyVal, PyValue, TimeParts, PropVal, PropValue};
use crate::text::{lemma_strings_view, push_char, push_str, seq_join, strings_view};
use crate::write::pyconv::{pydate_xlsx_format, pydatetime_xlsx_format, pytime_xlsx_format};
use crate::xlsx::{
    fits_cell, format_new, sheet_put, sheet_view, sheet_with_col_format, sheet_with_row_format, SheetCell, SheetV,
    SheetValue, format_set_bold, format_set_num_format, in_sheet, sheet_name,
    sheet_write_blank, sheet_write_bool, sheet_write_bool_with_format, sheet_write_datetime,
    sheet_write_datetime_with_format, sheet_write_int, sheet_write_int_with_format,
    sheet_write_string, sheet_write_string_with_format, xlsx_error_message,
};

verus! {

/// The type that the values of a column have had so far.
#[derive(Debug, Clone, Copy, PartialEq, Eq, Structural)]
pub enum ColTypeHint {
    Float,
    Int,
    String,
    Bool,
    Blank,
    Date,
    Time,
    DateTime,
    Sequence,
    /// Nothing written yet.
    Unknown,
    /// The column has held values of different types.
    Dynamic,
}

/// A value ready to be written to a cell. Floats are held as their
/// IEEE-754 bits.
#[derive(Debug, Clone)]
pub enum ExcelCell {
    String(String),
    Float(u64),
    Int(i32),
    Bool(bool),
    DateTime(DateTimeParts),
    Date(DateParts),
    Time(TimeParts),
    Sequence(String),
    Blank,
}

/// The mathematical view of an `ExcelCell`.
pub enum Cell {
    String(Seq<char>),
    Float(u64),
    Int(i32),
    Bool(bool),
    DateTime(DateTimeParts),
    Date(DateParts),
    Time(TimeParts),
    Sequence(Seq<char>),
    Blank,
}

impl View for ExcelCell {
    type V = Cell;

    open spec fn view(&self) -> Cell {
        match self {
            ExcelCell::String(s) => Cell::String(s@),
            ExcelCell::Float(b) => Cell::Float(*b),
            ExcelCell::Int(n) => Cell::Int(*n),
            ExcelCell::Bool(b) => Cell::Bool(*b),
            ExcelCell::DateTime(p) => Cell::DateTime(*p),
            ExcelCell::Date(p) => Cell::Date(*p),
            ExcelCell::Time(p) => Cell::Time(*p),
            ExcelCell::Sequence(s) => Cell::Sequence(s@),
            ExcelCell::Blank => Cell::Blank,
        }
    }
}

/// Why a value could not become a cell.
pub enum ConvFailure {
    /// An integer did not fit; the overflow message.
    Overflow(Seq<char>),
    /// A date or time outside what Excel can hold.
    OutOfExcelRange,
}

/// Whether a library error is the one a conversion failure becomes.
pub open spec fn error_matches(e: XioError, f: ConvFailure) -> bool {
    match f {
        ConvFailure::Overflow(m) => e matches XioError::Overflow(s) && s@ == m,
        ConvFailure::OutOfExcelRange => e is Value,
    }
}

/// Whether a conversion result agrees with its specification.
pub open spec fn conv_matches(r: Result<ExcelCell, XioError>, s: Result<Cell, ConvFailure>) -> bool {
    match s {
        Ok(c) => r matches Ok(x) && x@ == c,
        Err(f) => r matches Err(e) && error_matches(e, f),
    }
}

/// The characters of a string as one-character elements joined by ", ".
pub open spec fn chars_joined(text: Seq<char>) -> Seq<char> {
    seq_join(text.map_values(|c: char| seq![c]), ", "@)
}

/// An integer as a cell: it must fit in an `i32`.
pub open spec fn int_cell(value: Option<i64>) -> Result<Cell, ConvFailure> {
    match int_outcome(value, false) {
        Ok(n) => Ok(Cell::Int(n as i32)),
        Err(m) => Err(ConvFailure::Overflow(m)),
    }
}

/// The cell a Python value becomes, tried in this order: an exact `float`,
/// an exact `int`, an exact `str`, `None`, a `bool`, a datetime, a date, a
/// time, a sequence (a `str` subclass counts as one), a `Decimal`, and
/// otherwise the value's text.
pub open spec fn spec_from_py(v: PyVal) -> Result<Cell, ConvFailure> {
    match v {
        PyVal::Float { bits, exact, text } => if exact {
            Ok(Cell::Float(bits))
        } else {
            Ok(Cell::String(text))
        },
        PyVal::Int { value, exact, text, .. } => if exact {
            int_cell(value)
        } else {
            Ok(Cell::String(text))
        },
        PyVal::Str { text, exact } => if exact {
            Ok(Cell::String(text))
        } else {
            Ok(Cell::Sequence(chars_joined(text)))
        },
        PyVal::NoneValue => Ok(Cell::Blank),
        PyVal::Bool(b) => Ok(Cell::Bool(b)),
        PyVal::DateTime { parts, .. } => if datetime_ok(parts) {
            Ok(Cell::DateTime(parts))
        } else {
            Err(ConvFailure::OutOfExcelRange)
        },
        PyVal::Date { parts, .. } => if date_ok(parts) {
            Ok(Cell::Date(parts))
        } else {
            Err(ConvFailure::OutOfExcelRange)
        },
        PyVal::Time { parts, .. } => if time_ok(parts) {
            Ok(Cell::Time(parts))
        } else {
            Err(ConvFailure::OutOfExcelRange)
        },
        PyVal::Sequence { items, .. } => match join_outcome(items, false) {
            Ok(t) => Ok(Cell::Sequence(t)),
            Err(m) => Err(ConvFailure::Overflow(m)),
        },
        PyVal::Decimal { bits } => Ok(Cell::Float(bits)),
        PyVal::Other { text, .. } => Ok(Cell::String(text)),
    }
}

/// The hint that a cell gives its column.
pub open spec fn hint_of(c: Cell) -> ColTypeHint {
    match c {
        Cell::Float(_) => ColTypeHint::Float,
        Cell::Int(_) => ColTypeHint::Int,
        Cell::String(_) => ColTypeHint::String,
        Cell::Bool(_) => ColTypeHint::Bool,
        Cell::Date(_) => ColTypeHint::Date,
        Cell::Time(_) => ColTypeHint::Time,
        Cell::DateTime(_) => ColTypeHint::DateTime,
        Cell::Sequence(_) => ColTypeHint::Sequence,
        Cell::Blank => ColTypeHint::Blank,
    }
}

/// The hints that have a fast path.
pub open spec fn has_fast_path(h: ColTypeHint) -> bool {
    h is Float || h is Int || h is String || h is Bool || h is Date || h is Time || h is DateTime
}

/// A conversion tagged with the same hint.
pub open spec fn with_hint(r: Result<Cell, ConvFailure>, h: ColTypeHint) -> Result<(Cell, ColTypeHint), ConvFailure> {
    match r {
        Ok(c) => Ok((c, h)),
        Err(f) => Err(f),
    }
}

/// The fast path of a hint: the cell when the value has exactly the
/// hinted type, `None` when it does not.
pub open spec fn fast_path(h: ColTypeHint, v: PyVal) -> Option<Result<Cell, ConvFailure>> {
    match (h, v) {
        (ColTypeHint::Float, PyVal::Float { bits, exact: true, .. }) => Some(Ok(Cell::Float(bits))),
        (ColTypeHint::Int, PyVal::Int { value, exact: true, .. }) => Some(int_cell(value)),
        (ColTypeHint::String, PyVal::Str { text, exact: true }) => Some(Ok(Cell::String(text))),
        (ColTypeHint::Bool, PyVal::Bool(b)) => Some(Ok(Cell::Bool(b))),
        (ColTypeHint::Date, PyVal::Date { parts, exact: true }) => Some(
            if date_ok(parts) {
                Ok(Cell::Date(parts))
            } else {
                Err(ConvFailure::OutOfExcelRange)
            },
        ),
        (ColTypeHint::Time, PyVal::Time { parts, exact: true }) => Some(
            if time_ok(parts) {
                Ok(Cell::Time(parts))
            } else {
                Err(ConvFailure::OutOfExcelRange)
            },
        ),
        (ColTypeHint::DateTime, PyVal::DateTime { parts, exact: true }) => Some(
            if datetime_ok(parts) {
                Ok(Cell::DateTime(parts))
            } else {
                Err(ConvFailure::OutOfExcelRange)
            },
        ),
        _ => None,
    }
}

/// A conversion guided by the column's hint, with the column's new hint:
/// a `Dynamic` column stays dynamic; `None` is a blank and makes the hint
/// `Blank`; a value of exactly the hinted type keeps the hint; any other
/// value under a fast-path hint makes the column `Dynamic`; otherwise the
/// hint becomes the type of the new cell.
pub open spec fn spec_from_py_hinted(v: PyVal, hint: Option<ColTypeHint>) -> Result<(Cell, ColTypeHint), ConvFailure> {
    match hint {
        Some(h) => if h is Dynamic {
            with_hint(spec_from_py(v), ColTypeHint::Dynamic)
        } else if v is NoneValue {
            Ok((Cell::Blank, ColTypeHint::Blank))
        } else if has_fast_path(h) {
            match fast_path(h, v) {
                Some(r) => with_hint(r, h),
                None => with_hint(spec_from_py(v), ColTypeHint::Dynamic),
            }
        } else {
            match spec_from_py(v) {
                Ok(c) => Ok((c, hint_of(c))),
                Err(f) => Err(f),
            }
        },
        None => match spec_from_py(v) {
            Ok(c) => Ok((c, hint_of(c))),
            Err(f) => Err(f),
        },
    }
}

/// Hints are only a shortcut: whatever the hint, a value becomes the same
/// cell, or fails in the same way, as it does without one.
pub proof fn lemma_hint_keeps_cell(v: PyVal, hint: Option<ColTypeHint>)
    ensures
        match (spec_from_py_hinted(v, hint), spec_from_py(v)) {
            (Ok((c, _)), Ok(d)) => c == d,
            (Err(f), Err(g)) => f == g,
            _ => false,
        },
{
}

/// Whether a value's type is exactly one of the types with a fast path.
pub open spec fn exact_fast_kind(v: PyVal) -> bool {
    match v {
        PyVal::Float { exact, .. } => exact,
        PyVal::Int { exact, .. } => exact,
        PyVal::Str { exact, .. } => exact,
        PyVal::Bool(_) => true,
        PyVal::Date { exact, .. } => exact,
        PyVal::Time { exact, .. } => exact,
        PyVal::DateTime { exact, .. } => exact,
        _ => false,
    }
}

/// A column of values of one exact type keeps its hint: the hint a value
/// gives its column leads the next value of that type down the fast path,
/// to the same cell and the same hint.
pub proof fn lemma_uniform_column_keeps_hint(v: PyVal, w: PyVal)
    requires
        exact_fast_kind(v),
        spec_from_py(v) is Ok,
        spec_from_py(w) is Ok,
        exact_fast_kind(w),
        hint_of(spec_from_py(v)->Ok_0) == hint_of(spec_from_py(w)->Ok_0),
    ensures
        spec_from_py_hinted(w, Some(hint_of(spec_from_py(v)->Ok_0))) == Ok::<(Cell, ColTypeHint), ConvFailure>(
            (spec_from_py(w)->Ok_0, hint_of(spec_from_py(v)->Ok_0)),
        ),
{
}

/// A dynamic column stays dynamic, whatever is written to it.
pub proof fn lemma_dynamic_is_final(v: PyVal)
    ensures
        spec_from_py_hinted(v, Some(ColTypeHint::Dynamic)) matches Ok((_, h)) ==> h is Dynamic,
{
}

impl ColTypeHint {
    /// The number of hints.
    pub const COUNT: usize = 11;

    /// The position of a hint in per-type tables.
    pub open spec fn index_of(self) -> nat {
        match self {
            ColTypeHint::Float => 0,
            ColTypeHint::Int => 1,
            ColTypeHint::String => 2,
            ColTypeHint::Bool => 3,
            ColTypeHint::Blank => 4,
            ColTypeHint::Date => 5,
            ColTypeHint::Time => 6,
            ColTypeHint::DateTime => 7,
            ColTypeHint::Sequence => 8,
            ColTypeHint::Unknown => 9,
            ColTypeHint::Dynamic => 10,
        }
    }

    /// The position of a hint in per-type tables.
    pub fn as_index(self) -> (r: usize)
        ensures
            r == self.index_of(),
            r < Self::COUNT,
    {
        match self {
            ColTypeHint::Float => 0,
            ColTypeHint::Int => 1,
            ColTypeHint::String => 2,
            ColTypeHint::Bool => 3,
            ColTypeHint::Blank => 4,
            ColTypeHint::Date => 5,
            ColTypeHint::Time => 6,
            ColTypeHint::DateTime => 7,
            ColTypeHint::Sequence => 8,
            ColTypeHint::Unknown => 9,
            ColTypeHint::Dynamic => 10,
        }
    }

    /// The hint that a cell gives its column.
    pub fn from_excel_cell(cell: &ExcelCell) -> (r: Self)
        ensures
            r == hint_of(cell@),
    {
        match cell {
            ExcelCell::Float(_) => ColTypeHint::Float,
            ExcelCell::Int(_) => ColTypeHint::Int,
            ExcelCell::String(_) => ColTypeHint::String,
            ExcelCell::Bool(_) => ColTypeHint::Bool,
            ExcelCell::Date(_) => ColTypeHint::Date,
            ExcelCell::Time(_) => ColTypeHint::Time,
            ExcelCell::DateTime(_) => ColTypeHint::DateTime,
            ExcelCell::Sequence(_) => ColTypeHint::Sequence,
            ExcelCell::Blank => ColTypeHint::Blank,
        }
    }
}

/// The characters of a string joined by ", ", as a `str` subclass is
/// written when iterated as a sequence.
fn join_chars(text: &String) -> (r: String)
    ensures
        r@ == chars_joined(text@),
{
    let ghost list = text@.map_values(|c: char| seq![c]);
    let t = text.as_str();
    let n = t.unicode_len();
    let mut r = String::new();
    let mut i: usize = 0;
    while i < n
        invariant
            t@ == text@,
            n == text@.len(),
            i <= n,
            list == text@.map_values(|c: char| seq![c]),
            r@ == seq_join(list.take(i as int), ", "@),
        decreases n - i,
    {
        if i > 0 {
            push_str(&mut r, ", ");
        }
        let c = t.get_char(i);
        push_char(&mut r, c);
        assert(list.take(i + 1).drop_last() =~= list.take(i as int));
        if i == 0 {
            assert(r@ =~= seq_join(list.take(1), ", "@));
        } else {
            assert(r@ =~= seq_join(list.take(i + 1), ", "@));
        }
        i = i + 1;
    }
    assert(list.take(n as int) =~= list);
    r
}

fn int_to_cell(value: Option<i64>) -> (r: Result<ExcelCell, XioError>)
    ensures
        conv_matches(r, int_cell(value)),
{
    match value {
        None => Err(XioError::Overflow(String::from_str("Python int too large to convert to C long"))),
        Some(v) => {
            if i32::MIN as i64 <= v && v <= i32::MAX as i64 {
                Ok(ExcelCell::Int(v as i32))
            } else {
                Err(XioError::Overflow(String::from_str("out of range integral type conversion attempted")))
            }
        },
    }
}

fn date_cell(d: &DateParts) -> (r: Result<ExcelCell, XioError>)
    ensures
        conv_matches(r, if date_ok(*d) { Ok(Cell::Date(*d)) } else { Err(ConvFailure::OutOfExcelRange) }),
{
    match pydate_xlsx_format(d) {
        Ok(_) => Ok(ExcelCell::Date(*d)),
        Err(e) => Err(e),
    }
}

fn time_cell(t: &TimeParts) -> (r: Result<ExcelCell, XioError>)
    ensures
        conv_matches(r, if time_ok(*t) { Ok(Cell::Time(*t)) } else { Err(ConvFailure::OutOfExcelRange) }),
{
    match pytime_xlsx_format(t) {
        Ok(_) => Ok(ExcelCell::Time(*t)),
        Err(e) => Err(e),
    }
}

fn datetime_cell(dt: &DateTimeParts) -> (r: Result<ExcelCell, XioError>)
    ensures
        conv_matches(r, if datetime_ok(*dt) { Ok(Cell::DateTime(*dt)) } else { Err(ConvFailure::OutOfExcelRange) }),
{
    match pydatetime_xlsx_format(dt) {
        Ok(_) => Ok(ExcelCell::DateTime(*dt)),
        Err(e) => Err(e),
    }
}

impl ExcelCell {
    /// The cell a Python value becomes (see `spec_from_py`). Dates and times
    /// are checked against Excel's range here.
    pub fn from_py(value: &PyValue) -> (r: Result<Self, XioError>)
        ensures
            conv_matches(r, spec_from_py(value@)),
    {
        match value {
            PyValue::Float { bits, exact, text } => {
                if *exact {
                    Ok(ExcelCell::Float(*bits))
                } else {
                    Ok(ExcelCell::String(text.clone()))
                }
            },
            PyValue::Int { value, exact, text, .. } => {
                if *exact {
                    int_to_cell(*value)
                } else {
                    Ok(ExcelCell::String(text.clone()))
                }
            },
            PyValue::Str { text, exact } => {
                if *exact {
                    Ok(ExcelCell::String(text.clone()))
                } else {
                    Ok(ExcelCell::Sequence(join_chars(text)))
                }
            },
            PyValue::NoneValue => Ok(ExcelCell::Blank),
            PyValue::Bool(b) => Ok(ExcelCell::Bool(*b)),
            PyValue::DateTime { parts, .. } => datetime_cell(parts),
            PyValue::Date { parts, .. } => date_cell(parts),
            PyValue::Time { parts, .. } => time_cell(parts),
            PyValue::Sequence { items, .. } => {
                match join_items(items, false) {
                    Ok(t) => Ok(ExcelCell::Sequence(t)),
                    Err(e) => Err(e),
                }
            },
            PyValue::Decimal { bits } => Ok(ExcelCell::Float(*bits)),
            PyValue::Other { text, .. } => Ok(ExcelCell::String(text.clone())),
        }
    }

    /// The cell a value becomes under a column hint, and the column's new
    /// hint (see `spec_from_py_hinted`).
    pub fn from_py_hinted(value: &PyValue, hint: Option<ColTypeHint>) -> (r: Result<(Self, ColTypeHint), XioError>)
        ensures
            match spec_from_py_hinted(value@, hint) {
                Ok((c, h)) => r matches Ok((x, g)) && x@ == c && g == h,
                Err(f) => r matches Err(e) && error_matches(e, f),
            },
    {
        if let Some(h) = hint {
            if h == ColTypeHint::Dynamic {
                let cell = Self::from_py(value)?;
                return Ok((cell, ColTypeHint::Dynamic));
            }
            if let PyValue::NoneValue = value {
                return Ok((ExcelCell::Blank, ColTypeHint::Blank));
            }
            let has_fast_path = match h {
                ColTypeHint::Float | ColTypeHint::Int | ColTypeHint::String | ColTypeHint::Bool
                | ColTypeHint::Date | ColTypeHint::Time | ColTypeHint::DateTime => true,
                _ => false,
            };
            if has_fast_path {
                match (h, value) {
                    (ColTypeHint::Float, PyValue::Float { bits, exact: true, .. }) => {
                        return Ok((ExcelCell::Float(*bits), ColTypeHint::Float));
                    },
                    (ColTypeHint::Int, PyValue::Int { value: v, exact: true, .. }) => {
                        let cell = int_to_cell(*v)?;
                        return Ok((cell, ColTypeHint::Int));
                    },
                    (ColTypeHint::String, PyValue::Str { text, exact: true }) => {
                        return Ok((ExcelCell::String(text.clone()), ColTypeHint::String));
                    },
                    (ColTypeHint::Bool, PyValue::Bool(b)) => {
                        return Ok((ExcelCell::Bool(*b), ColTypeHint::Bool));
                    },
                    (ColTypeHint::Date, PyValue::Date { parts, exact: true }) => {
                        let cell = date_cell(parts)?;
                        return Ok((cell, ColTypeHint::Date));
                    },
                    (ColTypeHint::Time, PyValue::Time { parts, exact: true }) => {
                        let cell = time_cell(parts)?;
                        return Ok((cell, ColTypeHint::Time));
                    },
                    (ColTypeHint::DateTime, PyValue::DateTime { parts, exact: true }) => {
                        let cell = datetime_cell(parts)?;
                        return Ok((cell, ColTypeHint::DateTime));
                    },
                    _ => {
                        let cell = Self::from_py(value)?;
                        return Ok((cell, ColTypeHint::Dynamic));
                    },
                }
            }
        }
        let cell = Self::from_py(value)?;
        let new_hint = ColTypeHint::from_excel_cell(&cell);
        Ok((cell, new_hint))
    }
}


/// What writing a cell left to do: floats are written by the caller, with
/// the same format, because this crate does not handle floating point.
#[derive(Debug, Clone)]
pub enum CellWrite {
    Done,
    /// Write the `f64` with these IEEE-754 bits to the cell.
    Number { bits: u64 },
}

/// Whether writing a cell succeeds: text needs the cell inside the sheet and
/// short enough (unformatted empty text is skipped), an unformatted blank is
/// skipped, dates and times must be in Excel's range, and everything else
/// needs the cell inside the sheet.
pub open spec fn write_ok(c: Cell, row: u32, col: u16, formatted: bool) -> bool {
    match c {
        Cell::String(s) => if formatted {
            in_sheet(row, col) && (s.len() == 0 || fits_cell(s))
        } else {
            s.len() == 0 || (in_sheet(row, col) && fits_cell(s))
        },
        Cell::Sequence(s) => if formatted {
            in_sheet(row, col) && (s.len() == 0 || fits_cell(s))
        } else {
            s.len() == 0 || (in_sheet(row, col) && fits_cell(s))
        },
        Cell::Blank => !formatted || in_sheet(row, col),
        Cell::Date(d) => date_ok(d) && in_sheet(row, col),
        Cell::Time(t) => time_ok(t) && in_sheet(row, col),
        Cell::DateTime(dt) => datetime_ok(dt) && in_sheet(row, col),
        _ => in_sheet(row, col),
    }
}

/// Whether a cell's write leaves the worksheet untouched: an unformatted
/// blank, and a float (whose write is left to the caller).
pub open spec fn write_skips_sheet(c: Cell, formatted: bool) -> bool {
    (c is Blank && !formatted) || c is Float
}

/// The format a range is merged with: the given one, or the default.
pub open spec fn merge_format(format: Option<FormatV>) -> FormatV {
    match format {
        Some(f) => f,
        None => FormatV { num_format: Seq::empty(), bold: false },
    }
}

/// A range merged with a given format holds exactly that format, in its
/// first cell with the text and in every other cell of the range, on every
/// row the sheet still takes; without one, it holds the default format
/// (no number format, not bold).
pub proof fn lemma_merge_keeps_given_format(
    s: SheetV,
    fr: u32,
    fc: u16,
    lr: u32,
    lc: u16,
    text: Seq<char>,
    format: Option<FormatV>,
    r: u32,
    c: u16,
)
    requires
        crate::xlsx::in_range(r, c, fr, fc, lr, lc),
        !s.constant_memory || r >= s.floor,
    ensures
        ({
            let n = crate::xlsx::merged_sheet(s, fr, fc, lr, lc, text, merge_format(format));
            &&& n.cells.dom().contains((r, c))
            &&& n.cells[(r, c)].format == Some(match format {
                Some(f) => f,
                None => FormatV { num_format: Seq::empty(), bold: false },
            })
            &&& n.cells[(r, c)].value == if (r, c) == (fr, fc) && text.len() > 0 {
                SheetValue::Text(text)
            } else {
                SheetValue::Blank
            }
            &&& n.merged.contains((r, c))
        }),
{
    assert(crate::xlsx::range_cells(fr, fc, lr, lc).contains((r, c)));
}

/// What writing text does to a sheet: unformatted empty text is skipped,
/// formatted empty text is a formatted blank.
pub open spec fn text_effect(t: Seq<char>, format: Option<FormatV>, s: SheetV, row: u32, col: u16) -> SheetV {
    match format {
        None => if t.len() == 0 {
            s
        } else {
            sheet_put(s, row, col, SheetCell { value: SheetValue::Text(t), format: None })
        },
        Some(f) => if t.len() == 0 {
            sheet_put(s, row, col, SheetCell { value: SheetValue::Blank, format: Some(f) })
        } else {
            sheet_put(s, row, col, SheetCell { value: SheetValue::Text(t), format: Some(f) })
        },
    }
}

/// What a successful write of a cell does to a sheet, with `format` if one
/// is given: text as `text_effect`, integers, booleans, dates and times
/// stored with the format, a blank only when formatted; a float is left
/// to the caller and changes nothing here.
pub open spec fn cell_effect(c: Cell, format: Option<FormatV>, s: SheetV, row: u32, col: u16) -> SheetV {
    match c {
        Cell::String(t) => text_effect(t, format, s, row, col),
        Cell::Sequence(t) => text_effect(t, format, s, row, col),
        Cell::Int(n) => sheet_put(s, row, col, SheetCell { value: SheetValue::Number(n as int), format }),
        Cell::Float(_) => s,
        Cell::Bool(b) => sheet_put(s, row, col, SheetCell { value: SheetValue::Boolean(b), format }),
        Cell::Date(d) => sheet_put(s, row, col, SheetCell { value: SheetValue::DateTime(date_value(d)), format }),
        Cell::Time(t) => sheet_put(s, row, col, SheetCell { value: SheetValue::DateTime(time_value(t)), format }),
        Cell::DateTime(dt) => sheet_put(s, row, col, SheetCell { value: SheetValue::DateTime(datetime_value(dt)), format }),
        Cell::Blank => match format {
            None => s,
            Some(f) => sheet_put(s, row, col, SheetCell { value: SheetValue::Blank, format: Some(f) }),
        },
    }
}

/// The view of a format: its number format and whether it is bold.
pub struct FormatV {
    pub num_format: Seq<char>,
    pub bold: bool,
}

/// A cell format, by the properties this library sets: a number format
/// (empty for the default) and boldness.
#[derive(Debug, Clone)]
pub struct XIOFormat {
    pub num_format: String,
    pub bold: bool,
}

impl View for XIOFormat {
    type V = FormatV;

    open spec fn view(&self) -> FormatV {
        FormatV { num_format: self.num_format@, bold: self.bold }
    }
}

/// The views of an optional format.
pub open spec fn opt_format_view(f: Option<XIOFormat>) -> Option<FormatV> {
    match f {
        Some(x) => Some(x@),
        None => None,
    }
}

/// The views of a list of optional formats.
pub open spec fn formats_view(s: Seq<Option<XIOFormat>>) -> Seq<Option<FormatV>> {
    s.map_values(|f: Option<XIOFormat>| opt_format_view(f))
}

/// The format a property dictionary builds, or the error it raises.
pub enum PropsOutcome {
    Built(FormatV),
    /// A key or value of the wrong type: its class name, and the type that
    /// was expected.
    WrongType(Seq<char>, Seq<char>),
    /// A property that cannot be set; the error message.
    NotImplemented(Seq<char>),
}

/// The class name of a property key or value.
pub open spec fn prop_class(v: PropVal) -> Seq<char> {
    match v {
        PropVal::Str(_) => "str"@,
        PropVal::Bool(_) => "bool"@,
        PropVal::NoneValue => "NoneType"@,
        PropVal::Other(c) => c,
    }
}

/// The message for a property that cannot be set.
pub open spec fn not_implemented_message(key: Seq<char>) -> Seq<char> {
    "Set format by "@ + key + " is not implemented"@
}

/// Applies the properties in order: `num_format` takes a string, `bold`
/// takes `True`; any other key, or `bold` set to `False`, cannot be set.
pub open spec fn props_outcome(entries: Seq<(PropVal, PropVal)>) -> PropsOutcome
    decreases entries.len(),
{
    if entries.len() == 0 {
        PropsOutcome::Built(FormatV { num_format: Seq::empty(), bold: false })
    } else {
        match props_outcome(entries.drop_last()) {
            PropsOutcome::Built(f) => {
                let (k, v) = entries.last();
                match k {
                    PropVal::Str(key) => if key == "num_format"@ {
                        match v {
                            PropVal::Str(nf) => PropsOutcome::Built(FormatV { num_format: nf, bold: f.bold }),
                            _ => PropsOutcome::WrongType(prop_class(v), "str"@),
                        }
                    } else if key == "bold"@ {
                        match v {
                            PropVal::Bool(true) => PropsOutcome::Built(FormatV { num_format: f.num_format, bold: true }),
                            PropVal::Bool(false) => PropsOutcome::NotImplemented(not_implemented_message(key)),
                            _ => PropsOutcome::WrongType(prop_class(v), "bool"@),
                        }
                    } else {
                        PropsOutcome::NotImplemented(not_implemented_message(key))
                    },
                    _ => PropsOutcome::WrongType(prop_class(k), "str"@),
                }
            },
            other => other,
        }
    }
}

/// A format built from properties does not depend on their order: it is
/// bold exactly when some entry sets `bold` to `True`, and its number
/// format is that of the last `num_format` entry, or empty when there is
/// none.
pub proof fn lemma_props_order_free(entries: Seq<(PropVal, PropVal)>)
    ensures
        props_outcome(entries) matches PropsOutcome::Built(f) ==> {
            &&& f.bold <==> exists|i: int| 0 <= i < entries.len()
                && #[trigger] entries[i] == (PropVal::Str("bold"@), PropVal::Bool(true))
            &&& (forall|i: int| 0 <= i < entries.len() ==> (#[trigger] entries[i]).0 != PropVal::Str("num_format"@))
                ==> f.num_format == Seq::<char>::empty()
            &&& forall|i: int|
                0 <= i < entries.len() && (#[trigger] entries[i]).0 == PropVal::Str("num_format"@)
                    && (forall|j: int| i < j < entries.len() ==> (#[trigger] entries[j]).0 != PropVal::Str("num_format"@))
                    ==> entries[i].1 == PropVal::Str(f.num_format)
        },
    decreases entries.len(),
{
    reveal_strlit("bold");
    reveal_strlit("num_format");
    if entries.len() > 0 {
        let prev = entries.drop_last();
        lemma_props_order_free(prev);
        let last = entries.last();
        let n = entries.len() - 1;
        assert(entries[n] == last);
        assert forall|i: int| 0 <= i < n implies entries[i] == #[trigger] prev[i] by {}
        match props_outcome(prev) {
            PropsOutcome::Built(g) => {
                if let PropsOutcome::Built(f) = props_outcome(entries) {
                    if f.bold {
                        if !g.bold {
                            assert(entries[n] == (PropVal::Str("bold"@), PropVal::Bool(true)));
                        } else {
                            let i = choose|i: int| 0 <= i < prev.len() && #[trigger] prev[i] == (PropVal::Str("bold"@), PropVal::Bool(true));
                            assert(entries[i] == prev[i]);
                        }
                    } else {
                        assert forall|i: int| 0 <= i < entries.len() implies #[trigger] entries[i] != (PropVal::Str("bold"@), PropVal::Bool(true)) by {
                            if i < n {
                                assert(entries[i] == prev[i]);
                            }
                        }
                    }
                    if forall|i: int| 0 <= i < entries.len() ==> (#[trigger] entries[i]).0 != PropVal::Str("num_format"@) {
                        assert forall|i: int| 0 <= i < prev.len() implies (#[trigger] prev[i]).0 != PropVal::Str("num_format"@) by {
                            assert(entries[i] == prev[i]);
                        }
                    }
                    assert forall|i: int|
                        0 <= i < entries.len() && (#[trigger] entries[i]).0 == PropVal::Str("num_format"@)
                            && (forall|j: int| i < j < entries.len() ==> (#[trigger] entries[j]).0 != PropVal::Str("num_format"@))
                        implies entries[i].1 == PropVal::Str(f.num_format) by {
                        if i < n {
                            assert(entries[n].0 != PropVal::Str("num_format"@));
                            assert(entries[i] == prev[i]);
                            assert forall|j: int| i < j < prev.len() implies (#[trigger] prev[j]).0 != PropVal::Str("num_format"@) by {
                                assert(entries[j] == prev[j]);
                            }
                        }
                    }
                }
            },
            _ => {},
        }
    }
}

/// The views of a property dictionary's entries.
pub open spec fn props_view(entries: Seq<(PropValue, PropValue)>) -> Seq<(PropVal, PropVal)> {
    entries.map_values(|e: (PropValue, PropValue)| (e.0@, e.1@))
}

/// Whether a result agrees with the outcome of a property dictionary.
pub open spec fn props_match(r: Result<XIOFormat, XioError>, o: PropsOutcome) -> bool {
    match o {
        PropsOutcome::Built(f) => r matches Ok(x) && x@ == f,
        PropsOutcome::WrongType(found, expected) => r matches Err(XioError::Type { found: fd, expected: ex })
            && fd@ == found && ex@ == expected,
        PropsOutcome::NotImplemented(m) => r matches Err(XioError::Runtime(s)) && s@ == m,
    }
}

fn prop_class_name(v: &PropValue) -> (r: String)
    ensures
        r@ == prop_class(v@),
{
    match v {
        PropValue::Str(_) => String::from_str("str"),
        PropValue::Bool(_) => String::from_str("bool"),
        PropValue::NoneValue => String::from_str("NoneType"),
        PropValue::Other(c) => c.clone(),
    }
}

fn not_implemented(key: &String) -> (r: XioError)
    ensures
        r matches XioError::Runtime(s) && s@ == not_implemented_message(key@),
{
    let mut m = String::from_str("Set format by ");
    push_str(&mut m, key.as_str());
    push_str(&mut m, " is not implemented");
    XioError::Runtime(m)
}

fn wrong_type(v: &PropValue, expected: &str) -> (r: XioError)
    ensures
        r matches XioError::Type { found, expected: ex } && found@ == prop_class(v@) && ex@ == expected@,
{
    XioError::Type { found: prop_class_name(v), expected: String::from_str(expected) }
}

proof fn lemma_props_err_extends(entries: Seq<(PropVal, PropVal)>, k: int, j: int)
    requires
        0 <= k <= j <= entries.len(),
        !(props_outcome(entries.take(k)) is Built),
    ensures
        props_outcome(entries.take(j)) == props_outcome(entries.take(k)),
    decreases j - k,
{
    if j > k {
        lemma_props_err_extends(entries, k, j - 1);
        assert(entries.take(j).drop_last() =~= entries.take(j - 1));
    }
}

impl XIOFormat {
    /// Builds a format from a property dictionary, given as its entries in
    /// order (see `props_outcome`).
    pub fn from_properties(properties: &Vec<(PropValue, PropValue)>) -> (r: Result<Self, XioError>)
        ensures
            props_match(r, props_outcome(props_view(properties@))),
    {
        let ghost entries = props_view(properties@);
        let mut num_format = String::new();
        let mut bold = false;
        let mut i: usize = 0;
        while i < properties.len()
            invariant
                i <= properties.len(),
                entries == props_view(properties@),
                props_outcome(entries.take(i as int)) == PropsOutcome::Built(FormatV { num_format: num_format@, bold }),
            decreases properties.len() - i,
        {
            assert(entries.take(i + 1).drop_last() =~= entries.take(i as int));
            let (key, value) = &properties[i];
            let failure: Option<XioError> = match key {
                PropValue::Str(k) => {
                    if k.eq(&String::from_str("num_format")) {
                        match value {
                            PropValue::Str(nf) => {
                                num_format = nf.clone();
                                None
                            },
                            _ => Some(wrong_type(value, "str")),
                        }
                    } else if k.eq(&String::from_str("bold")) {
                        match value {
                            PropValue::Bool(true) => {
                                bold = true;
                                None
                            },
                            PropValue::Bool(false) => Some(not_implemented(k)),
                            _ => Some(wrong_type(value, "bool")),
                        }
                    } else {
                        Some(not_implemented(k))
                    }
                },
                _ => Some(wrong_type(key, "str")),
            };
            match failure {
                Some(e) => {
                    proof {
                        lemma_props_err_extends(entries, i + 1, properties.len() as int);
                        assert(entries.take(properties.len() as int) =~= entries);
                    }
                    return Err(e);
                },
                None => {},
            }
            i = i + 1;
        }
        assert(entries.take(properties.len() as int) =~= entries);
        Ok(XIOFormat { num_format, bold })
    }

    /// Whether two formats have the same properties (the engine compares
    /// formats the same way).
    pub fn same_as(&self, other: &XIOFormat) -> (r: bool)
        ensures
            r == (self@ == other@),
    {
        self.bold == other.bold && self.num_format.eq(&other.num_format)
    }

    /// The engine's format with these properties.
    pub fn to_format(&self) -> (r: Format)
        ensures
            crate::xlsx::format_num_format(r) == self.num_format@,
            crate::xlsx::format_bold(r) == self.bold,
    {
        let f = format_set_num_format(format_new(), self.num_format.as_str());
        if self.bold {
            format_set_bold(f)
        } else {
            f
        }
    }
}

fn write_text(ws: &mut Worksheet, row: u32, col: u16, s: &String, format: Option<&XIOFormat>) -> (r: Result<(), XioError>)
    ensures
        r is Ok <==> (if format is Some {
            in_sheet(row, col) && (s@.len() == 0 || fits_cell(s@))
        } else {
            s@.len() == 0 || (in_sheet(row, col) && fits_cell(s@))
        }),
        r matches Err(e) ==> e is Value,
        sheet_name(*final(ws)) == sheet_name(*old(ws)),
        r is Ok ==> sheet_view(*final(ws)) == text_effect(s@, ref_format_view(format), sheet_view(*old(ws)), row, col),
        r is Err ==> sheet_view(*final(ws)) == sheet_view(*old(ws)),
{
    let res = match format {
        None => sheet_write_string(ws, row, col, s.as_str()),
        Some(f) => sheet_write_string_with_format(ws, row, col, s.as_str(), &f.to_format()),
    };
    match res {
        Ok(()) => Ok(()),
        Err(e) => Err(XioError::Value(xlsx_error_message(&e))),
    }
}

fn engine_result(res: Result<(), rust_xlsxwriter::XlsxError>) -> (r: Result<CellWrite, XioError>)
    ensures
        r is Ok <==> res is Ok,
        r matches Ok(w) ==> w is Done,
        r matches Err(e) ==> e is Value,
{
    match res {
        Ok(()) => Ok(CellWrite::Done),
        Err(e) => Err(XioError::Value(xlsx_error_message(&e))),
    }
}

impl ExcelCell {
    /// Writes the cell at `(row, col)`, with `format` if one is given.
    /// A float is only checked here; its write is left to the caller.
    pub fn write(&self, worksheet: &mut Worksheet, row: u32, col: u16, format: Option<&XIOFormat>) -> (r: Result<CellWrite, XioError>)
        ensures
            r is Ok <==> write_ok(self@, row, col, format is Some),
            r matches Ok(w) ==> (w matches CellWrite::Number { bits } ==> self@ == Cell::Float(bits)),
            r matches Ok(w) ==> (self@ is Float ==> w is Number),
            r matches Err(e) ==> e is Value,
            write_skips_sheet(self@, format is Some) ==> *final(worksheet) == *old(worksheet),
            sheet_name(*final(worksheet)) == sheet_name(*old(worksheet)),
            r is Ok ==> sheet_view(*final(worksheet)) == cell_effect(self@, ref_format_view(format), sheet_view(*old(worksheet)), row, col),
            r is Err ==> sheet_view(*final(worksheet)) == sheet_view(*old(worksheet)),
    {
        match self {
            ExcelCell::String(s) => {
                write_text(worksheet, row, col, s, format)?;
                Ok(CellWrite::Done)
            },
            ExcelCell::Sequence(s) => {
                write_text(worksheet, row, col, s, format)?;
                Ok(CellWrite::Done)
            },
            ExcelCell::Blank => match format {
                None => Ok(CellWrite::Done),
                Some(f) => engine_result(sheet_write_blank(worksheet, row, col, &f.to_format())),
            },
            ExcelCell::Int(n) => match format {
                None => engine_result(sheet_write_int(worksheet, row, col, *n)),
                Some(f) => engine_result(sheet_write_int_with_format(worksheet, row, col, *n, &f.to_format())),
            },
            ExcelCell::Float(bits) => {
                if row < crate::xlsx::ROW_MAX && col < crate::xlsx::COL_MAX {
                    Ok(CellWrite::Number { bits: *bits })
                } else {
                    Err(XioError::Value(xlsx_error_message(&crate::xlsx::row_col_limit_error())))
                }
            },
            ExcelCell::Bool(b) => match format {
                None => engine_result(sheet_write_bool(worksheet, row, col, *b)),
                Some(f) => engine_result(sheet_write_bool_with_format(worksheet, row, col, *b, &f.to_format())),
            },
            ExcelCell::Date(d) => {
                let dt = pydate_xlsx_format(d)?;
                match format {
                    None => engine_result(sheet_write_datetime(worksheet, row, col, &dt)),
                    Some(f) => engine_result(sheet_write_datetime_with_format(worksheet, row, col, &dt, &f.to_format())),
                }
            },
            ExcelCell::Time(t) => {
                let dt = pytime_xlsx_format(t)?;
                match format {
                    None => engine_result(sheet_write_datetime(worksheet, row, col, &dt)),
                    Some(f) => engine_result(sheet_write_datetime_with_format(worksheet, row, col, &dt, &f.to_format())),
                }
            },
            ExcelCell::DateTime(p) => {
                let dt = pydatetime_xlsx_format(p)?;
                match format {
                    None => engine_result(sheet_write_datetime(worksheet, row, col, &dt)),
                    Some(f) => engine_result(sheet_write_datetime_with_format(worksheet, row, col, &dt, &f.to_format())),
                }
            },
        }
    }
}


/// How a worksheet writes: in constant-memory mode, with a per-column or a
/// per-row format cache, and with per-column type hints.
#[derive(Debug, Clone, Copy, PartialEq, Eq, Structural)]
pub struct XIOWOptions {
    pub constant_memory: bool,
    pub cache_col_formats: bool,
    pub cache_row_formats: bool,
    pub cache_typehints_write_optimization: bool,
}

/// The message when both format caches are asked for.
pub open spec fn both_caches_message() -> Seq<char> {
    "Recommended to not use both of caches. Col cache is prioritized in branching even if both enabled"@
}

/// "true" or "false".
pub open spec fn bool_word(b: bool) -> Seq<char> {
    if b {
        "true"@
    } else {
        "false"@
    }
}

fn bool_word_str(b: bool) -> (r: &'static str)
    ensures
        r@ == bool_word(b),
{
    if b {
        "true"
    } else {
        "false"
    }
}

impl XIOWOptions {
    /// Constant memory, the column format cache and type hints on; the row
    /// format cache off.
    pub open spec fn defaults() -> Self {
        XIOWOptions {
            constant_memory: true,
            cache_col_formats: true,
            cache_row_formats: false,
            cache_typehints_write_optimization: true,
        }
    }

    /// The options that `new` builds before checking them.
    pub open spec fn spec_with(
        constant_memory: Option<bool>,
        cache_col_formats: Option<bool>,
        cache_row_formats: Option<bool>,
        cache_typehints_write_optimization: Option<bool>,
    ) -> Self {
        XIOWOptions {
            constant_memory: constant_memory.unwrap_or(true),
            cache_col_formats: cache_col_formats.unwrap_or(true),
            cache_row_formats: cache_row_formats.unwrap_or(false),
            cache_typehints_write_optimization: cache_typehints_write_optimization.unwrap_or(true),
        }
    }

    /// The default options.
    pub fn default() -> (r: Self)
        ensures
            r == Self::defaults(),
    {
        XIOWOptions {
            constant_memory: true,
            cache_col_formats: true,
            cache_row_formats: false,
            cache_typehints_write_optimization: true,
        }
    }

    /// The default options with the given ones in their place; asking for
    /// both format caches is refused.
    pub fn new(
        constant_memory: Option<bool>,
        cache_col_formats: Option<bool>,
        cache_row_formats: Option<bool>,
        cache_typehints_write_optimization: Option<bool>,
    ) -> (r: Result<Self, XioError>)
        ensures
            ({
                let o = Self::spec_with(constant_memory, cache_col_formats, cache_row_formats, cache_typehints_write_optimization);
                if o.cache_row_formats && o.cache_col_formats {
                    r matches Err(XioError::Value(m)) && m@ == both_caches_message()
                } else {
                    r == Ok::<Self, XioError>(o)
                }
            }),
    {
        let mut options = XIOWOptions::default();
        if let Some(v) = constant_memory {
            options.constant_memory = v;
        }
        if let Some(v) = cache_col_formats {
            options.cache_col_formats = v;
        }
        if let Some(v) = cache_row_formats {
            options.cache_row_formats = v;
        }
        if let Some(v) = cache_typehints_write_optimization {
            options.cache_typehints_write_optimization = v;
        }
        if options.cache_row_formats && options.cache_col_formats {
            return Err(XioError::Value(String::from_str(
                "Recommended to not use both of caches. Col cache is prioritized in branching even if both enabled",
            )));
        }
        Ok(options)
    }

    /// The options as Python shows them.
    pub fn repr(&self) -> (r: String)
        ensures
            r@ == "XIOWOptions(constant_memory="@ + bool_word(self.constant_memory) + ", cache_col_formats="@
                + bool_word(self.cache_col_formats) + ", cache_row_formats="@ + bool_word(self.cache_row_formats)
                + ", cache_typehints_write_optimization="@ + bool_word(self.cache_typehints_write_optimization)
                + ")"@,
    {
        let mut r = String::from_str("XIOWOptions(constant_memory=");
        push_str(&mut r, bool_word_str(self.constant_memory));
        push_str(&mut r, ", cache_col_formats=");
        push_str(&mut r, bool_word_str(self.cache_col_formats));
        push_str(&mut r, ", cache_row_formats=");
        push_str(&mut r, bool_word_str(self.cache_row_formats));
        push_str(&mut r, ", cache_typehints_write_optimization=");
        push_str(&mut r, bool_word_str(self.cache_typehints_write_optimization));
        push_str(&mut r, ")");
        r
    }
}

/// A sequence lengthened to at least `len` with `fill`.
pub open spec fn padded<T>(s: Seq<T>, len: nat, fill: T) -> Seq<T> {
    if s.len() >= len {
        s
    } else {
        s + Seq::new((len - s.len()) as nat, |i: int| fill)
    }
}

/// A format cache lookup: the first format used at a position is cached
/// and reported as to be set; a later use of the same format is dropped
/// (the cached one applies); any other format, or none, passes through.
/// Gives the new cache, whether to set the format, and the cell's format.
pub open spec fn resolve_spec(cache: Seq<Option<FormatV>>, idx: nat, format: Option<FormatV>) -> (Seq<Option<FormatV>>, bool, Option<FormatV>) {
    let c = padded(cache, idx + 1, None);
    match (c[idx as int], format) {
        (None, Some(f)) => (c.update(idx as int, Some(f)), true, Some(f)),
        (Some(x), Some(f)) => if x == f {
            (c, false, None)
        } else {
            (c, false, format)
        },
        _ => (c, false, format),
    }
}

/// The first format cached at a position stays there: a lookup only ever
/// fills an empty position, with the format it was given.
pub proof fn lemma_first_format_wins(cache: Seq<Option<FormatV>>, idx: nat, format: Option<FormatV>)
    ensures
        ({
            let (c, set, _) = resolve_spec(cache, idx, format);
            &&& c.len() == padded(cache, idx + 1, None).len()
            &&& forall|i: int| 0 <= i < cache.len() && cache[i] is Some ==> #[trigger] c[i] == cache[i]
            &&& forall|i: int| 0 <= i < c.len() && i != idx ==> #[trigger] c[i] == padded(cache, idx + 1, None)[i]
            &&& set <==> (padded(cache, idx + 1, None)[idx as int] is None && format is Some)
            &&& format is Some ==> c[idx as int] is Some
        }),
{
}

/// The views of a list of formats, position by position.
pub proof fn lemma_formats_view(s: Seq<Option<XIOFormat>>)
    ensures
        formats_view(s).len() == s.len(),
        forall|i: int| 0 <= i < s.len() ==> #[trigger] formats_view(s)[i] == opt_format_view(s[i]),
{
}

fn grow_formats(cache: &mut Vec<Option<XIOFormat>>, idx: usize)
    ensures
        formats_view(final(cache)@) == padded(formats_view(old(cache)@), idx as nat + 1, None),
{
    let ghost start = cache@;
    while cache.len() <= idx
        invariant
            start.len() <= cache@.len(),
            cache@.len() > start.len() ==> cache@.len() <= idx as nat + 1,
            forall|i: int| 0 <= i < start.len() ==> #[trigger] cache@[i] == start[i],
            forall|i: int| start.len() <= i < cache@.len() ==> #[trigger] cache@[i] is None,
        decreases idx + 1 - cache.len(),
    {
        cache.push(None);
    }
    proof {
        lemma_formats_view(cache@);
        lemma_formats_view(start);
        assert(formats_view(cache@) =~= padded(formats_view(start), idx as nat + 1, None));
    }
}

fn grow_hints(hints: &mut Vec<ColTypeHint>, idx: usize)
    ensures
        final(hints)@ == padded(old(hints)@, idx as nat + 1, ColTypeHint::Unknown),
{
    let ghost start = hints@;
    while hints.len() <= idx
        invariant
            start.len() <= hints@.len(),
            hints@.len() > start.len() ==> hints@.len() <= idx as nat + 1,
            forall|i: int| 0 <= i < start.len() ==> #[trigger] hints@[i] == start[i],
            forall|i: int| start.len() <= i < hints@.len() ==> #[trigger] hints@[i] == ColTypeHint::Unknown,
        decreases idx + 1 - hints.len(),
    {
        hints.push(ColTypeHint::Unknown);
    }
    assert(hints@ =~= padded(start, idx as nat + 1, ColTypeHint::Unknown));
}

fn clone_format(f: Option<&XIOFormat>) -> (r: Option<XIOFormat>)
    ensures
        opt_format_view(r) == match f {
            Some(x) => Some(x@),
            None => None::<FormatV>,
        },
{
    match f {
        Some(x) => Some(XIOFormat { num_format: x.num_format.clone(), bold: x.bold }),
        None => None,
    }
}

/// Looks up `format` in a format cache at `idx` (see `resolve_spec`).
pub fn resolve_format_cache(cache: &mut Vec<Option<XIOFormat>>, idx: usize, format: Option<&XIOFormat>) -> (r: (bool, Option<XIOFormat>))
    ensures
        ({
            let fv = match format {
                Some(x) => Some(x@),
                None => None::<FormatV>,
            };
            let (c, set, cell_format) = resolve_spec(formats_view(old(cache)@), idx as nat, fv);
            &&& formats_view(final(cache)@) == c
            &&& r.0 == set
            &&& opt_format_view(r.1) == cell_format
        }),
{
    grow_formats(cache, idx);
    let ghost grown = formats_view(cache@);
    proof {
        lemma_formats_view(cache@);
        lemma_formats_view(old(cache)@);
    }
    assert(grown[idx as int] == opt_format_view(cache@[idx as int]));
    match (&cache[idx], format) {
        (None, Some(fmt)) => {
            let stored = clone_format(Some(fmt));
            cache.set(idx, stored);
            assert(formats_view(cache@) =~= grown.update(idx as int, Some(fmt@)));
            (true, clone_format(Some(fmt)))
        },
        (Some(cached), Some(fmt)) => {
            if cached.same_as(fmt) {
                (false, None)
            } else {
                (false, clone_format(format))
            }
        },
        _ => (false, clone_format(format)),
    }
}


/// The caches of one worksheet: the type hint of each column, and the
/// formats already set on columns and rows.
#[derive(Debug)]
pub struct WorksheetCaches {
    col_hints: Vec<ColTypeHint>,
    col_formats_setted: Vec<Option<XIOFormat>>,
    row_formats_setted: Vec<Option<XIOFormat>>,
}

/// The view of a worksheet's caches.
pub struct CachesV {
    pub col_hints: Seq<ColTypeHint>,
    pub col_formats: Seq<Option<FormatV>>,
    pub row_formats: Seq<Option<FormatV>>,
}

impl View for WorksheetCaches {
    type V = CachesV;

    closed spec fn view(&self) -> CachesV {
        CachesV {
            col_hints: self.col_hints@,
            col_formats: formats_view(self.col_formats_setted@),
            row_formats: formats_view(self.row_formats_setted@),
        }
    }
}

impl WorksheetCaches {
    /// Empty caches.
    pub fn new() -> (r: Self)
        ensures
            r@ == (CachesV { col_hints: Seq::empty(), col_formats: Seq::empty(), row_formats: Seq::empty() }),
    {
        let r = WorksheetCaches { col_hints: Vec::new(), col_formats_setted: Vec::new(), row_formats_setted: Vec::new() };
        assert(r@.col_formats =~= Seq::<Option<FormatV>>::empty());
        assert(r@.row_formats =~= Seq::<Option<FormatV>>::empty());
        r
    }
}

/// What writing one value does to a worksheet's caches, and what it writes.
pub enum CellStep {
    /// The value could not become a cell; nothing changes.
    Failed(ConvFailure),
    /// The value became `cell`; the caches become `caches`; `set_format`
    /// is a format to set on the cell's column (`true`) or row (`false`)
    /// first; `cell_format` is the format the cell is written with.
    Converted { cell: Cell, caches: CachesV, set_format: Option<(bool, FormatV)>, cell_format: Option<FormatV> },
}

/// The column's hint, if the column has one.
pub open spec fn hint_at(hints: Seq<ColTypeHint>, col: u16) -> Option<ColTypeHint> {
    if (col as int) < hints.len() {
        Some(hints[col as int])
    } else {
        None
    }
}

/// One write of a value to `(row, col)` with an optional explicit format:
/// the value is converted (under the column's hint when hints are on, which
/// then records the new hint); without an explicit format the format bound
/// to the cell's type is used; the column cache, or else the row cache,
/// decides whether that format is set on the column or row first and which
/// format the cell itself gets.
pub open spec fn cell_step(
    o: XIOWOptions,
    c: CachesV,
    bindings: Seq<Option<FormatV>>,
    v: PyVal,
    format: Option<FormatV>,
    row: u32,
    col: u16,
) -> CellStep {
    let conv = if o.cache_typehints_write_optimization {
        spec_from_py_hinted(v, hint_at(c.col_hints, col))
    } else {
        with_hint(spec_from_py(v), ColTypeHint::Unknown)
    };
    match conv {
        Err(f) => CellStep::Failed(f),
        Ok((cell, h)) => {
            let hints = if o.cache_typehints_write_optimization {
                padded(c.col_hints, col as nat + 1, ColTypeHint::Unknown).update(col as int, h)
            } else {
                c.col_hints
            };
            let fmt = match format {
                Some(f) => Some(f),
                None => bindings[hint_of(cell).index_of() as int],
            };
            if o.cache_col_formats {
                let (cf, set, cell_fmt) = resolve_spec(c.col_formats, col as nat, fmt);
                CellStep::Converted {
                    cell,
                    caches: CachesV { col_hints: hints, col_formats: cf, row_formats: c.row_formats },
                    set_format: if set { Some((true, cell_fmt.unwrap())) } else { None },
                    cell_format: cell_fmt,
                }
            } else if o.cache_row_formats {
                let (rf, set, cell_fmt) = resolve_spec(c.row_formats, row as nat, fmt);
                CellStep::Converted {
                    cell,
                    caches: CachesV { col_hints: hints, col_formats: c.col_formats, row_formats: rf },
                    set_format: if set { Some((false, cell_fmt.unwrap())) } else { None },
                    cell_format: cell_fmt,
                }
            } else {
                CellStep::Converted {
                    cell,
                    caches: CachesV { col_hints: hints, col_formats: c.col_formats, row_formats: c.row_formats },
                    set_format: None,
                    cell_format: fmt,
                }
            }
        },
    }
}

/// Whether the engine calls of a step succeed.
pub open spec fn step_ok(s: CellStep, row: u32, col: u16) -> bool {
    match s {
        CellStep::Failed(_) => false,
        CellStep::Converted { cell, set_format, cell_format, .. } => {
            &&& match set_format {
                Some((on_col, _)) => if on_col {
                    col < crate::xlsx::COL_MAX
                } else {
                    row < crate::xlsx::ROW_MAX
                },
                None => true,
            }
            &&& write_ok(cell, row, col, cell_format is Some)
        },
    }
}

/// What a step does to the sheet: the format it sets on the column or row
/// first, if any (a failure there stops the step), then the cell's write,
/// if it succeeds.
pub open spec fn step_sheet(s: CellStep, sv: SheetV, row: u32, col: u16) -> SheetV {
    match s {
        CellStep::Failed(_) => sv,
        CellStep::Converted { cell, set_format, cell_format, .. } => {
            let set = match set_format {
                Some((on_col, f)) => if on_col {
                    if col < crate::xlsx::COL_MAX {
                        sheet_with_col_format(sv, col, f)
                    } else {
                        sv
                    }
                } else {
                    if row < crate::xlsx::ROW_MAX {
                        sheet_with_row_format(sv, row, f)
                    } else {
                        sv
                    }
                },
                None => sv,
            };
            if step_ok(s, row, col) {
                cell_effect(cell, cell_format, set, row, col)
            } else {
                set
            }
        },
    }
}

/// A step writes cells and formats but merges nothing.
pub proof fn lemma_step_keeps_merged(s: CellStep, sv: SheetV, row: u32, col: u16)
    ensures
        step_sheet(s, sv, row, col).merged == sv.merged,
{
}

/// Whether every format the row cache holds is the sheet's format for that
/// row.
pub open spec fn row_cache_agrees(cache: Seq<Option<FormatV>>, sv: SheetV) -> bool {
    forall|r: int| 0 <= r < cache.len() && (#[trigger] cache[r]) is Some
        ==> r <= u32::MAX && sv.row_formats.dom().contains(r as u32) && sv.row_formats[r as u32] == cache[r].unwrap()
}

/// Whether every format the column cache holds is the sheet's format for
/// that column.
pub open spec fn col_cache_agrees(cache: Seq<Option<FormatV>>, sv: SheetV) -> bool {
    forall|k: int| 0 <= k < cache.len() && (#[trigger] cache[k]) is Some
        ==> k <= u16::MAX && sv.col_formats.dom().contains(k as u16) && sv.col_formats[k as u16] == cache[k].unwrap()
}

/// With the row cache on, a cell written with a format shows that format:
/// either the cell itself gets it, or it is written without one into a row
/// whose row format it already is (when the cache agrees with the sheet).
/// The first use of a format in a row sets it as that row's format.
pub proof fn lemma_row_cache_shows_format(
    o: XIOWOptions,
    c: CachesV,
    sv: SheetV,
    bindings: Seq<Option<FormatV>>,
    v: PyVal,
    f: FormatV,
    row: u32,
    col: u16,
)
    requires
        !o.cache_col_formats,
        o.cache_row_formats,
        row_cache_agrees(c.row_formats, sv),
    ensures
        ({
            let s = cell_step(o, c, bindings, v, Some(f), row, col);
            s matches CellStep::Converted { cell_format, set_format, .. } ==> {
                let n = step_sheet(s, sv, row, col);
                &&& cell_format == Some(f) || (cell_format is None && n.row_formats.dom().contains(row) && n.row_formats[row] == f)
                &&& set_format is Some ==> set_format == Some((false, f))
                &&& (set_format is Some && row < crate::xlsx::ROW_MAX) ==> n.row_formats.dom().contains(row) && n.row_formats[row] == f
            }
        }),
{
    let p = padded(c.row_formats, row as nat + 1, None);
    if (row as int) < c.row_formats.len() {
        assert(p[row as int] == c.row_formats[row as int]);
    } else {
        assert(p[row as int] == None::<FormatV>);
    }
}

/// With the column cache on, a cell written with a format shows that
/// format: either the cell itself gets it, or it is written without one
/// into a column whose column format it already is (when the cache agrees
/// with the sheet). The first use of a format in a column sets it as that
/// column's format.
pub proof fn lemma_col_cache_shows_format(
    o: XIOWOptions,
    c: CachesV,
    sv: SheetV,
    bindings: Seq<Option<FormatV>>,
    v: PyVal,
    f: FormatV,
    row: u32,
    col: u16,
)
    requires
        o.cache_col_formats,
        col_cache_agrees(c.col_formats, sv),
    ensures
        ({
            let s = cell_step(o, c, bindings, v, Some(f), row, col);
            s matches CellStep::Converted { cell_format, set_format, .. } ==> {
                let n = step_sheet(s, sv, row, col);
                &&& cell_format == Some(f) || (cell_format is None && n.col_formats.dom().contains(col) && n.col_formats[col] == f)
                &&& set_format is Some ==> set_format == Some((true, f))
                &&& (set_format is Some && col < crate::xlsx::COL_MAX) ==> n.col_formats.dom().contains(col) && n.col_formats[col] == f
            }
        }),
{
    let p = padded(c.col_formats, col as nat + 1, None);
    if (col as int) < c.col_formats.len() {
        assert(p[col as int] == c.col_formats[col as int]);
    } else {
        assert(p[col as int] == None::<FormatV>);
    }
}

/// The caches after a step.
pub open spec fn step_caches(s: CellStep, before: CachesV) -> CachesV {
    match s {
        CellStep::Failed(_) => before,
        CellStep::Converted { caches, .. } => caches,
    }
}

/// A float cell that the caller writes: at `(row, col)`, with these bits,
/// with `format` if one is given.
#[derive(Debug, Clone)]
pub struct PendingNumber {
    pub row: u32,
    pub col: u16,
    pub bits: u64,
    pub format: Option<XIOFormat>,
}

/// Whether a write result agrees with its step.
pub open spec fn step_result_matches(r: Result<Option<PendingNumber>, XioError>, s: CellStep, row: u32, col: u16) -> bool {
    match s {
        CellStep::Failed(f) => r matches Err(e) && error_matches(e, f),
        CellStep::Converted { cell, cell_format, .. } => {
            &&& (r is Ok <==> step_ok(s, row, col))
            &&& (r matches Err(e) ==> e is Value)
            &&& (r matches Ok(p) ==> match p {
                Some(n) => cell == Cell::Float(n.bits) && n.row == row && n.col == col && opt_format_view(n.format) == cell_format,
                None => !(cell is Float),
            })
        },
    }
}

/// The state of one worksheet: its options and caches.
#[derive(Debug)]
pub struct SheetState {
    options: XIOWOptions,
    caches: WorksheetCaches,
    /// The ranges merged on the sheet, as (first row, first column, last
    /// row, last column).
    merged: Vec<(u32, u16, u32, u16)>,
}

/// A range inside the sheet with its corners in order.
pub open spec fn range_valid(a: (u32, u16, u32, u16)) -> bool {
    in_sheet(a.0, a.1) && in_sheet(a.2, a.3) && a.0 <= a.2 && a.1 <= a.3
}

/// Whether two ranges share a cell.
pub open spec fn ranges_meet(a: (u32, u16, u32, u16), b: (u32, u16, u32, u16)) -> bool {
    a.0 <= b.2 && b.0 <= a.2 && a.1 <= b.3 && b.1 <= a.3
}

/// The cells of a list of ranges.
pub open spec fn ranges_cells(ranges: Seq<(u32, u16, u32, u16)>) -> Set<(u32, u16)> {
    Set::new(|k: (u32, u16)| exists|i: int| 0 <= i < ranges.len() && #[trigger] crate::xlsx::in_range(k.0, k.1, ranges[i].0, ranges[i].1, ranges[i].2, ranges[i].3))
}

/// The merged cells of a sheet are those of the ranges kept for it, and
/// those ranges are valid.
pub open spec fn merges_match(v: SheetV, ranges: Seq<(u32, u16, u32, u16)>) -> bool {
    &&& v.merged == ranges_cells(ranges)
    &&& forall|j: int| 0 <= j < ranges.len() ==> range_valid(#[trigger] ranges[j])
}

/// A valid range shares no cell with valid ranges exactly when it meets
/// none of them.
pub proof fn lemma_disjoint_ranges(ranges: Seq<(u32, u16, u32, u16)>, n: (u32, u16, u32, u16))
    requires
        forall|j: int| 0 <= j < ranges.len() ==> range_valid(#[trigger] ranges[j]),
        range_valid(n),
    ensures
        crate::xlsx::range_cells(n.0, n.1, n.2, n.3).disjoint(ranges_cells(ranges))
            <==> forall|j: int| 0 <= j < ranges.len() ==> !ranges_meet(n, #[trigger] ranges[j]),
{
    let rc = crate::xlsx::range_cells(n.0, n.1, n.2, n.3);
    if exists|j: int| 0 <= j < ranges.len() && ranges_meet(n, #[trigger] ranges[j]) {
        let j = choose|j: int| 0 <= j < ranges.len() && ranges_meet(n, #[trigger] ranges[j]);
        let b = ranges[j];
        let r: u32 = if n.0 >= b.0 { n.0 } else { b.0 };
        let c: u16 = if n.1 >= b.1 { n.1 } else { b.1 };
        assert(crate::xlsx::in_range((r, c).0, (r, c).1, ranges[j].0, ranges[j].1, ranges[j].2, ranges[j].3));
        assert(ranges_cells(ranges).contains((r, c)));
        assert(rc.contains((r, c)));
    } else {
        assert forall|k: (u32, u16)| !(rc.contains(k) && ranges_cells(ranges).contains(k)) by {
            if rc.contains(k) && ranges_cells(ranges).contains(k) {
                let j = choose|j: int| 0 <= j < ranges.len() && #[trigger] crate::xlsx::in_range(k.0, k.1, ranges[j].0, ranges[j].1, ranges[j].2, ranges[j].3);
                assert(ranges_meet(n, ranges[j]));
            }
        }
    }
}

/// Adding a range adds its cells.
pub proof fn lemma_ranges_cells_push(ranges: Seq<(u32, u16, u32, u16)>, n: (u32, u16, u32, u16))
    ensures
        ranges_cells(ranges.push(n)) == ranges_cells(ranges) + crate::xlsx::range_cells(n.0, n.1, n.2, n.3),
{
    let p = ranges.push(n);
    assert forall|k: (u32, u16)| ranges_cells(p).contains(k)
        <==> (ranges_cells(ranges) + crate::xlsx::range_cells(n.0, n.1, n.2, n.3)).contains(k) by {
        if ranges_cells(p).contains(k) {
            let j = choose|j: int| 0 <= j < p.len() && #[trigger] crate::xlsx::in_range(k.0, k.1, p[j].0, p[j].1, p[j].2, p[j].3);
            if j < ranges.len() {
                assert(p[j] == ranges[j]);
                assert(ranges_cells(ranges).contains(k));
            }
        }
        if ranges_cells(ranges).contains(k) {
            let j = choose|j: int| 0 <= j < ranges.len() && #[trigger] crate::xlsx::in_range(k.0, k.1, ranges[j].0, ranges[j].1, ranges[j].2, ranges[j].3);
            assert(p[j] == ranges[j]);
            assert(crate::xlsx::in_range(k.0, k.1, p[j].0, p[j].1, p[j].2, p[j].3));
        }
        if crate::xlsx::range_cells(n.0, n.1, n.2, n.3).contains(k) {
            assert(p[ranges.len() as int] == n);
            assert(crate::xlsx::in_range(k.0, k.1, p[ranges.len() as int].0, p[ranges.len() as int].1, p[ranges.len() as int].2, p[ranges.len() as int].3));
        }
    }
    assert(ranges_cells(p) =~= ranges_cells(ranges) + crate::xlsx::range_cells(n.0, n.1, n.2, n.3));
}

/// The index of a range in `ranges` that meets `(fr, fc, lr, lc)`, if any:
/// of those, the one holding the first shared cell row by row.
pub(crate) fn find_overlap(ranges: &Vec<(u32, u16, u32, u16)>, fr: u32, fc: u16, lr: u32, lc: u16) -> (r: Option<usize>)
    ensures
        r is None <==> forall|j: int| 0 <= j < ranges@.len() ==> !ranges_meet((fr, fc, lr, lc), #[trigger] ranges@[j]),
        r matches Some(i) ==> i < ranges@.len() && ranges_meet((fr, fc, lr, lc), ranges@[i as int]),
{
    let mut best: Option<usize> = None;
    let mut best_cell: (u32, u16) = (0, 0);
    let mut i: usize = 0;
    while i < ranges.len()
        invariant
            i <= ranges.len(),
            best is None <==> forall|j: int| 0 <= j < i ==> !ranges_meet((fr, fc, lr, lc), #[trigger] ranges@[j]),
            best matches Some(b) ==> b < i && ranges_meet((fr, fc, lr, lc), ranges@[b as int]),
        decreases ranges.len() - i,
    {
        let b = ranges[i];
        if fr <= b.2 && b.0 <= lr && fc <= b.3 && b.1 <= lc {
            let r: u32 = if fr >= b.0 { fr } else { b.0 };
            let c: u16 = if fc >= b.1 { fc } else { b.1 };
            let earlier = match best {
                None => true,
                Some(_) => r < best_cell.0 || (r == best_cell.0 && c < best_cell.1),
            };
            if earlier {
                best = Some(i);
                best_cell = (r, c);
            }
        }
        i = i + 1;
    }
    best
}

/// A range's description in the engine's errors: its corners, then its
/// A1 notation.
fn range_description(fr: u32, fc: u16, lr: u32, lc: u16) -> (r: String)
    requires
        in_sheet(fr, fc),
        in_sheet(lr, lc),
{
    let mut s = String::from_str("(");
    crate::text::push_decimal_u128(&mut s, fr as u128);
    push_str(&mut s, ", ");
    crate::text::push_decimal_u128(&mut s, fc as u128);
    push_str(&mut s, ", ");
    crate::text::push_decimal_u128(&mut s, lr as u128);
    push_str(&mut s, ", ");
    crate::text::push_decimal_u128(&mut s, lc as u128);
    push_str(&mut s, ") / ");
    let t = crate::xlsx::cell_range_text(fr, fc, lr, lc);
    push_str(&mut s, t.as_str());
    s
}

/// The engine's message for a merge range that overlaps an earlier one.
pub(crate) fn overlap_message(current: (u32, u16, u32, u16), previous: (u32, u16, u32, u16)) -> String
    requires
        range_valid(current),
        range_valid(previous),
{
    let c = range_description(current.0, current.1, current.2, current.3);
    let p = range_description(previous.0, previous.1, previous.2, previous.3);
    xlsx_error_message(&crate::xlsx::merge_overlap_error(c, p))
}

fn write_step(
    worksheet: &mut Worksheet,
    state: &mut SheetState,
    bindings: &Vec<Option<XIOFormat>>,
    row: u32,
    col: u16,
    value: &PyValue,
    format: Option<&XIOFormat>,
) -> (r: Result<Option<PendingNumber>, XioError>)
    requires
        bindings.len() == ColTypeHint::COUNT,
    ensures
        ({
            let s = cell_step(old(state).options, old(state).caches@, formats_view(bindings@), value@,
                match format { Some(x) => Some(x@), None => None::<FormatV> }, row, col);
            &&& step_result_matches(r, s, row, col)
            &&& final(state).caches@ == step_caches(s, old(state).caches@)
            &&& final(state).options == old(state).options
            &&& sheet_view(*final(worksheet)) == step_sheet(s, sheet_view(*old(worksheet)), row, col)
        }),
        final(state).merged@ == old(state).merged@,
        sheet_name(*final(worksheet)) == sheet_name(*old(worksheet)),
{
    let ghost fv = match format { Some(x) => Some(x@), None => None::<FormatV> };
    let ghost s = cell_step(state.options, state.caches@, formats_view(bindings@), value@, fv, row, col);
    let colidx = col as usize;
    let rowidx = row as usize;
    let cell: ExcelCell = if state.options.cache_typehints_write_optimization {
        let cached_hint = if colidx < state.caches.col_hints.len() {
            Some(state.caches.col_hints[colidx])
        } else {
            None
        };
        let (cell, hint) = ExcelCell::from_py_hinted(value, cached_hint)?;
        grow_hints(&mut state.caches.col_hints, colidx);
        state.caches.col_hints.set(colidx, hint);
        cell
    } else {
        ExcelCell::from_py(value)?
    };
    proof {
        lemma_formats_view(bindings@);
    }
    let fmt: Option<&XIOFormat> = match format {
        Some(f) => Some(f),
        None => {
            let h = ColTypeHint::from_excel_cell(&cell);
            match &bindings[h.as_index()] {
                Some(b) => Some(b),
                None => None,
            }
        },
    };
    let (should_be_set, cell_format) = if state.options.cache_col_formats {
        resolve_format_cache(&mut state.caches.col_formats_setted, colidx, fmt)
    } else if state.options.cache_row_formats {
        resolve_format_cache(&mut state.caches.row_formats_setted, rowidx, fmt)
    } else {
        (false, clone_format(fmt))
    };
    if should_be_set {
        let f = match &cell_format {
            Some(f) => f.to_format(),
            None => format_new(),
        };
        let res = if state.options.cache_col_formats {
            crate::xlsx::sheet_set_column_format(worksheet, col, &f)
        } else {
            crate::xlsx::sheet_set_row_format(worksheet, row, &f)
        };
        if let Err(e) = res {
            return Err(XioError::Value(xlsx_error_message(&e)));
        }
    }
    let w = cell.write(worksheet, row, col, cell_format.as_ref())?;
    match w {
        CellWrite::Done => Ok(None),
        CellWrite::Number { bits } => Ok(Some(PendingNumber { row, col, bits, format: cell_format })),
    }
}


/// The format given for the element at `i` of a row, if any.
pub open spec fn format_at(formats: Option<Seq<Option<FormatV>>>, i: int) -> Option<FormatV> {
    match formats {
        Some(f) => if 0 <= i < f.len() {
            f[i]
        } else {
            None
        },
        None => None,
    }
}

/// The row `k` rows below `row`. Positions are `u32` rows and `u16`
/// columns that wrap past their last value; a position past the sheet's edge
/// is refused by the engine, so a write stops there.
pub open spec fn row_after(row: u32, k: int) -> u32 {
    ((row + k) % 0x1_0000_0000) as u32
}

/// The column `k` columns right of `col`, wrapping as `row_after` does.
pub open spec fn col_after(col: u16, k: int) -> u16 {
    ((col + k) % 0x1_0000) as u16
}

/// `row_after(row, k)`.
pub(crate) fn row_offset(row: u32, k: usize) -> (r: u32)
    ensures
        r == row_after(row, k as int),
{
    ((row as u128 + k as u128) % 0x1_0000_0000) as u32
}

/// `col_after(col, k)`.
pub(crate) fn col_offset(col: u16, k: usize) -> (r: u16)
    ensures
        r == col_after(col, k as int),
{
    ((col as u128 + k as u128) % 0x1_0000) as u16
}

/// Where the `k`-th value of a run goes: along the row from `(row, col)`,
/// or down the column.
pub open spec fn run_cell(row: u32, col: u16, k: int, down: bool) -> (u32, u16) {
    if down {
        (row_after(row, k), col)
    } else {
        (row, col_after(col, k))
    }
}

/// The state after writing the first `k` values of a run: the caches, the
/// step that failed and where (writing stops there), and the float cells
/// left to the caller.
pub struct RunState {
    pub caches: CachesV,
    pub sheet: SheetV,
    pub failed: Option<(CellStep, u32, u16)>,
    pub pending: Seq<(u32, u16, u64, Option<FormatV>)>,
}

/// Writing the first `k` values of a run, one cell step after another,
/// stopping at the first step that fails.
pub open spec fn run_state(
    o: XIOWOptions,
    c: CachesV,
    sv: SheetV,
    bindings: Seq<Option<FormatV>>,
    values: Seq<PyVal>,
    formats: Option<Seq<Option<FormatV>>>,
    row: u32,
    col: u16,
    down: bool,
    k: nat,
) -> RunState
    decreases k,
{
    if k == 0 {
        RunState { caches: c, sheet: sv, failed: None, pending: Seq::empty() }
    } else {
        let prev = run_state(o, c, sv, bindings, values, formats, row, col, down, (k - 1) as nat);
        if prev.failed is Some {
            prev
        } else {
            let (r, cc) = run_cell(row, col, k - 1, down);
            let s = cell_step(o, prev.caches, bindings, values[k - 1], format_at(formats, k - 1), r, cc);
            let caches = step_caches(s, prev.caches);
            let sheet = step_sheet(s, prev.sheet, r, cc);
            if !step_ok(s, r, cc) {
                RunState { caches, sheet, failed: Some((s, r, cc)), pending: prev.pending }
            } else {
                match s {
                    CellStep::Converted { cell: Cell::Float(bits), cell_format, .. } => RunState {
                        caches,
                        sheet,
                        failed: None,
                        pending: prev.pending.push((r, cc, bits, cell_format)),
                    },
                    _ => RunState { caches, sheet, failed: None, pending: prev.pending },
                }
            }
        }
    }
}

/// The view of a pending float cell.
pub open spec fn pending_view(p: PendingNumber) -> (u32, u16, u64, Option<FormatV>) {
    (p.row, p.col, p.bits, opt_format_view(p.format))
}

/// Writing rows `from .. to` of a block from `(row, col)`, row after row,
/// each as `run_state` writes a row, stopping at the first failure.
pub open spec fn rows_state(
    o: XIOWOptions,
    c: CachesV,
    sv: SheetV,
    bindings: Seq<Option<FormatV>>,
    rows: Seq<Seq<PyVal>>,
    formats: Option<Seq<Option<FormatV>>>,
    row: u32,
    col: u16,
    from: nat,
    to: nat,
) -> RunState
    decreases to - from,
{
    if to <= from {
        RunState { caches: c, sheet: sv, failed: None, pending: Seq::empty() }
    } else {
        let prev = rows_state(o, c, sv, bindings, rows, formats, row, col, from, (to - 1) as nat);
        if prev.failed is Some {
            prev
        } else {
            let this = run_state(o, prev.caches, prev.sheet, bindings, rows[to - 1], formats, row_after(row, to - 1), col, false, rows[to - 1].len());
            RunState { caches: this.caches, sheet: this.sheet, failed: this.failed, pending: prev.pending + this.pending }
        }
    }
}

/// Whether two cell tables agree at `key`.
pub open spec fn same_cell(a: Map<(u32, u16), SheetCell>, b: Map<(u32, u16), SheetCell>, key: (u32, u16)) -> bool {
    &&& a.dom().contains(key) == b.dom().contains(key)
    &&& a.dom().contains(key) ==> a[key] == b[key]
}

/// Whether `key` is one of the first `n` positions of a run from
/// `(row, col)`.
pub open spec fn in_run(key: (u32, u16), row: u32, col: u16, n: nat, down: bool) -> bool {
    exists|j: int| 0 <= j < n && #[trigger] run_cell(row, col, j, down) == key
}

/// Whether `key` is a position of a block written from `(row, col)`: cell
/// `j` of block row `t` (for `from <= t < to`) is at `(row + t, col + j)`.
pub open spec fn in_block(key: (u32, u16), rows: Seq<Seq<PyVal>>, row: u32, col: u16, from: nat, to: nat) -> bool {
    exists|t: int, j: int|
        #![trigger row_after(row, t), col_after(col, j)]
        from <= t < to && 0 <= j < rows[t].len() && key == (row_after(row, t), col_after(col, j))
}

/// A step writes no cell but its own.
pub proof fn lemma_step_touches_one_cell(s: CellStep, sv: SheetV, row: u32, col: u16, key: (u32, u16))
    requires
        key != (row, col),
    ensures
        same_cell(step_sheet(s, sv, row, col).cells, sv.cells, key),
{
}

/// A run writes no cell outside its positions.
pub proof fn lemma_run_touches_its_cells(
    o: XIOWOptions,
    c: CachesV,
    sv: SheetV,
    bindings: Seq<Option<FormatV>>,
    values: Seq<PyVal>,
    formats: Option<Seq<Option<FormatV>>>,
    row: u32,
    col: u16,
    down: bool,
    k: nat,
    key: (u32, u16),
)
    requires
        !in_run(key, row, col, k, down),
    ensures
        same_cell(run_state(o, c, sv, bindings, values, formats, row, col, down, k).sheet.cells, sv.cells, key),
    decreases k,
{
    if k > 0 {
        if in_run(key, row, col, (k - 1) as nat, down) {
            let j = choose|j: int| 0 <= j < k - 1 && #[trigger] run_cell(row, col, j, down) == key;
            assert(0 <= j < k && run_cell(row, col, j, down) == key);
        }
        lemma_run_touches_its_cells(o, c, sv, bindings, values, formats, row, col, down, (k - 1) as nat, key);
        let prev = run_state(o, c, sv, bindings, values, formats, row, col, down, (k - 1) as nat);
        if prev.failed is None {
            let (r, cc) = run_cell(row, col, k - 1, down);
            assert(run_cell(row, col, k - 1, down) != key);
            let s = cell_step(o, prev.caches, bindings, values[k - 1], format_at(formats, k - 1), r, cc);
            lemma_step_touches_one_cell(s, prev.sheet, r, cc, key);
        }
    }
}

/// Writing a block touches only the block's cells: cell `j` of block row
/// `t` goes to `(row + t, col + j)`, every row starting at column `col`,
/// and no other cell of the sheet changes.
pub proof fn lemma_block_touches_its_cells(
    o: XIOWOptions,
    c: CachesV,
    sv: SheetV,
    bindings: Seq<Option<FormatV>>,
    rows: Seq<Seq<PyVal>>,
    formats: Option<Seq<Option<FormatV>>>,
    row: u32,
    col: u16,
    from: nat,
    to: nat,
    key: (u32, u16),
)
    requires
        !in_block(key, rows, row, col, from, to),
    ensures
        same_cell(rows_state(o, c, sv, bindings, rows, formats, row, col, from, to).sheet.cells, sv.cells, key),
    decreases to - from,
{
    if to > from {
        if in_block(key, rows, row, col, from, (to - 1) as nat) {
            let (t, j) = choose|t: int, j: int|
                #![trigger row_after(row, t), col_after(col, j)]
                from <= t < to - 1 && 0 <= j < rows[t].len() && key == (row_after(row, t), col_after(col, j));
            assert(from <= t < to && 0 <= j < rows[t].len() && key == (row_after(row, t), col_after(col, j)));
        }
        lemma_block_touches_its_cells(o, c, sv, bindings, rows, formats, row, col, from, (to - 1) as nat, key);
        let prev = rows_state(o, c, sv, bindings, rows, formats, row, col, from, (to - 1) as nat);
        if prev.failed is None {
            let t = to - 1;
            if in_run(key, row_after(row, t), col, rows[t].len(), false) {
                let j = choose|j: int| 0 <= j < rows[t].len() && #[trigger] run_cell(row_after(row, t), col, j, false) == key;
                assert(key == (row_after(row, t), col_after(col, j)));
                assert(from <= t < to && 0 <= j < rows[t].len());
            }
            lemma_run_touches_its_cells(o, prev.caches, prev.sheet, bindings, rows[t], formats, row_after(row, t), col, false,
                rows[t].len(), key);
        }
    }
}

/// Once rows have failed, later rows change nothing.
pub proof fn lemma_rows_failed_extends(
    o: XIOWOptions,
    c: CachesV,
    sv: SheetV,
    bindings: Seq<Option<FormatV>>,
    rows: Seq<Seq<PyVal>>,
    formats: Option<Seq<Option<FormatV>>>,
    row: u32,
    col: u16,
    from: nat,
    k: nat,
    j: nat,
)
    requires
        from <= k <= j,
        rows_state(o, c, sv, bindings, rows, formats, row, col, from, k).failed is Some,
    ensures
        rows_state(o, c, sv, bindings, rows, formats, row, col, from, j) == rows_state(o, c, sv, bindings, rows, formats, row, col, from, k),
    decreases j - k,
{
    if j > k {
        lemma_rows_failed_extends(o, c, sv, bindings, rows, formats, row, col, from, k, (j - 1) as nat);
    }
}

/// The views of a block of rows.
pub open spec fn rows_view(rows: Seq<Vec<PyValue>>) -> Seq<Seq<PyVal>> {
    rows.map_values(|r: Vec<PyValue>| values_view(r@))
}

/// The views of a list of pending float cells.
pub open spec fn pendings_view(s: Seq<PendingNumber>) -> Seq<(u32, u16, u64, Option<FormatV>)> {
    s.map_values(|p: PendingNumber| pending_view(p))
}

/// Appending a pending cell appends its view.
pub proof fn lemma_pendings_push(s: Seq<PendingNumber>, p: PendingNumber)
    ensures
        pendings_view(s.push(p)) == pendings_view(s).push(pending_view(p)),
{
    assert(pendings_view(s.push(p)) =~= pendings_view(s).push(pending_view(p)));
}

/// Whether a run's result agrees with its final state.
pub open spec fn run_result_matches(pending: Vec<PendingNumber>, r: Result<(), XioError>, st: RunState) -> bool {
    &&& pendings_view(pending@) == st.pending
    &&& match st.failed {
        None => r is Ok,
        Some((s, _, _)) => r matches Err(e) && match s {
            CellStep::Failed(f) => error_matches(e, f),
            CellStep::Converted { .. } => e is Value,
        },
    }
}

/// The view of an optional format reference.
pub open spec fn ref_format_view(f: Option<&XIOFormat>) -> Option<FormatV> {
    match f {
        Some(x) => Some(x@),
        None => None,
    }
}

/// The view of an optional list of formats.
pub open spec fn formats_opt_view(f: Option<&Vec<Option<XIOFormat>>>) -> Option<Seq<Option<FormatV>>> {
    match f {
        Some(v) => Some(formats_view(v@)),
        None => None,
    }
}

/// Once a run has failed, writing stops: later states are the same.
pub proof fn lemma_run_failed_extends(
    o: XIOWOptions,
    c: CachesV,
    sv: SheetV,
    bindings: Seq<Option<FormatV>>,
    values: Seq<PyVal>,
    formats: Option<Seq<Option<FormatV>>>,
    row: u32,
    col: u16,
    down: bool,
    k: nat,
    j: nat,
)
    requires
        k <= j,
        run_state(o, c, sv, bindings, values, formats, row, col, down, k).failed is Some,
    ensures
        run_state(o, c, sv, bindings, values, formats, row, col, down, j) == run_state(o, c, sv, bindings, values, formats, row, col, down, k),
    decreases j - k,
{
    if j > k {
        lemma_run_failed_extends(o, c, sv, bindings, values, formats, row, col, down, k, (j - 1) as nat);
    }
}

/// The views of a list of Python values.
pub open spec fn values_view(values: Seq<PyValue>) -> Seq<PyVal> {
    values.map_values(|v: PyValue| v@)
}

/// The message when a column is written in constant-memory mode.
pub open spec fn constant_memory_column_message() -> Seq<char> {
    "Cannot write columnar data in constant_memory worksheet mode"@
}

/// The message when a column is written with a format.
pub open spec fn formatted_column_message() -> Seq<char> {
    "Formatted write not supported for write_column"@
}

/// The message when binding a format to a placeholder hint.
pub open spec fn placeholder_binding_message() -> Seq<char> {
    "Cannot bind a format to ColTypeHint.Unknown or ColTypeHint.Dynamic — they're internal placeholders, not real cell types"@
}

/// The message when saving without a path.
pub open spec fn no_path_message() -> Seq<char> {
    "Expected provided path or inited filepath. Got nothing."@
}

/// `[` and the names, each in double quotes, separated by ", ", and `]`.
pub open spec fn quoted_list(names: Seq<Seq<char>>) -> Seq<char> {
    "["@ + seq_join(names.map_values(|n: Seq<char>| quote(n)), ", "@) + "]"@
}

/// A name in double quotes.
pub open spec fn quote(n: Seq<char>) -> Seq<char> {
    "\""@ + n + "\""@
}


/// A workbook being written: the engine's workbook, the state of each of
/// its worksheets, default options for new worksheets, and formats bound to
/// cell types (used for cells written without a format).
pub struct XIOWWorkbook {
    filepath: Option<String>,
    workbook: rust_xlsxwriter::Workbook,
    worksheets: Vec<SheetState>,
    options: XIOWOptions,
    datatype_format_bindings: Vec<Option<XIOFormat>>,
}

impl XIOWWorkbook {
    /// Every engine sheet has a state, and every cell type a binding slot.
    pub closed spec fn wf(&self) -> bool {
        &&& self.worksheets.len() == crate::xlsx::book_sheet_names(self.workbook).len()
        &&& crate::xlsx::book_sheets_added(self.workbook) as nat == self.worksheets.len()
        &&& crate::xlsx::book_sheet_views(self.workbook).len() == self.worksheets.len()
        &&& self.datatype_format_bindings.len() == ColTypeHint::COUNT
        &&& forall|i: int| 0 <= i < self.worksheets.len()
            ==> merges_match(crate::xlsx::book_sheet_views(self.workbook)[i], #[trigger] self.worksheets@[i].merged@)
    }

    /// The names of the worksheets, in order.
    pub closed spec fn sheet_names(&self) -> Seq<Seq<char>> {
        crate::xlsx::book_sheet_names(self.workbook)
    }

    /// What each worksheet holds, in order.
    pub closed spec fn sheet_views(&self) -> Seq<SheetV> {
        crate::xlsx::book_sheet_views(self.workbook)
    }

    /// The options of the worksheet at `i`.
    pub closed spec fn sheet_options(&self, i: int) -> XIOWOptions {
        self.worksheets@[i].options
    }

    /// The caches of the worksheet at `i`.
    pub closed spec fn sheet_caches(&self, i: int) -> CachesV {
        self.worksheets@[i].caches@
    }

    /// The formats bound to cell types, by `ColTypeHint::index_of`.
    pub closed spec fn bindings(&self) -> Seq<Option<FormatV>> {
        formats_view(self.datatype_format_bindings@)
    }

    /// The options new worksheets get by default.
    pub closed spec fn book_options(&self) -> XIOWOptions {
        self.options
    }

    /// The path given when the workbook was made.
    pub closed spec fn path(&self) -> Option<Seq<char>> {
        match self.filepath {
            Some(p) => Some(p@),
            None => None,
        }
    }

    /// Everything but the caches of the worksheet at `idx` is as in `other`.
    pub open spec fn same_but_caches(&self, other: &Self, idx: int) -> bool {
        &&& self.wf()
        &&& self.sheet_names() == other.sheet_names()
        &&& self.bindings() == other.bindings()
        &&& self.book_options() == other.book_options()
        &&& self.path() == other.path()
        &&& forall|j: int| 0 <= j < self.sheet_names().len() ==> #[trigger] self.sheet_options(j) == other.sheet_options(j)
        &&& forall|j: int| 0 <= j < self.sheet_names().len() && j != idx ==> #[trigger] self.sheet_caches(j) == other.sheet_caches(j)
    }

    /// A workbook without worksheets.
    pub fn new(filepath: Option<String>, options: Option<XIOWOptions>) -> (r: Self)
        ensures
            r.wf(),
            r.sheet_names() == Seq::<Seq<char>>::empty(),
            r.sheet_views() == Seq::<SheetV>::empty(),
            r.path() == match filepath {
                Some(p) => Some(p@),
                None => None::<Seq<char>>,
            },
            r.book_options() == options.unwrap_or(XIOWOptions::defaults()),
            r.bindings() == Seq::new(ColTypeHint::COUNT as nat, |i: int| None::<FormatV>),
    {
        let mut bindings: Vec<Option<XIOFormat>> = Vec::new();
        let mut i: usize = 0;
        while i < ColTypeHint::COUNT
            invariant
                i <= ColTypeHint::COUNT,
                bindings.len() == i,
                forall|j: int| 0 <= j < i ==> #[trigger] bindings@[j] is None,
            decreases ColTypeHint::COUNT - i,
        {
            bindings.push(None);
            i = i + 1;
        }
        proof {
            lemma_formats_view(bindings@);
        }
        let r = XIOWWorkbook {
            filepath,
            workbook: crate::xlsx::book_new(),
            worksheets: Vec::new(),
            options: match options {
                Some(o) => o,
                None => XIOWOptions::default(),
            },
            datatype_format_bindings: bindings,
        };
        assert(r.bindings() =~= Seq::new(ColTypeHint::COUNT as nat, |i: int| None::<FormatV>));
        r
    }

    /// The default options of new worksheets.
    pub fn options(&self) -> (r: XIOWOptions)
        ensures
            r == self.book_options(),
    {
        self.options
    }

    /// Builds a format from properties (see `XIOFormat::from_properties`)
    /// and, if asked, binds it to a cell type; `Unknown` and `Dynamic`
    /// cannot be bound.
    pub fn add_format(&mut self, properties: &Vec<(PropValue, PropValue)>, bind_to_datatype: Option<ColTypeHint>) -> (r: Result<XIOFormat, XioError>)
        requires
            old(self).wf(),
        ensures
            final(self).wf(),
            final(self).sheet_names() == old(self).sheet_names(),
            final(self).sheet_views() == old(self).sheet_views(),
            final(self).book_options() == old(self).book_options(),
            final(self).path() == old(self).path(),
            forall|j: int| 0 <= j < old(self).sheet_names().len() ==> #[trigger] final(self).sheet_options(j) == old(self).sheet_options(j)
                && final(self).sheet_caches(j) == old(self).sheet_caches(j),
            match props_outcome(props_view(properties@)) {
                PropsOutcome::Built(f) => match bind_to_datatype {
                    Some(h) => if h is Unknown || h is Dynamic {
                        r matches Err(XioError::Value(m)) && m@ == placeholder_binding_message()
                            && final(self).bindings() == old(self).bindings()
                    } else {
                        r matches Ok(x) && x@ == f
                            && final(self).bindings() == old(self).bindings().update(h.index_of() as int, Some(f))
                    },
                    None => r matches Ok(x) && x@ == f && final(self).bindings() == old(self).bindings(),
                },
                o => props_match(r, o) && final(self).bindings() == old(self).bindings(),
            },
    {
        let format = XIOFormat::from_properties(properties)?;
        if let Some(hint) = bind_to_datatype {
            if hint == ColTypeHint::Unknown || hint == ColTypeHint::Dynamic {
                return Err(XioError::Value(String::from_str(
                    "Cannot bind a format to ColTypeHint.Unknown or ColTypeHint.Dynamic — they're internal placeholders, not real cell types",
                )));
            }
            let ghost before = self.datatype_format_bindings@;
            self.datatype_format_bindings.set(hint.as_index(), clone_format(Some(&format)));
            proof {
                lemma_formats_view(before);
                lemma_formats_view(self.datatype_format_bindings@);
                assert(self.bindings() =~= formats_view(before).update(hint.index_of() as int, Some(format@)));
            }
        }
        Ok(format)
    }

    /// Adds a worksheet with the given options (or the workbook's) and
    /// returns its index. The sheet is named `name` when that is a valid
    /// sheet name and keeps its default name otherwise. Making a
    /// constant-memory sheet needs a temporary file, which can fail. The
    /// engine counts its sheets in a `u16`, so a workbook holds fewer than
    /// `u16::MAX` sheets.
    pub fn add_worksheet(&mut self, name: &str, options: Option<XIOWOptions>) -> (r: Result<XIOWWorksheet, XioError>)
        requires
            old(self).wf(),
            old(self).sheet_names().len() < u16::MAX,
        ensures
            final(self).wf(),
            final(self).bindings() == old(self).bindings(),
            final(self).book_options() == old(self).book_options(),
            final(self).path() == old(self).path(),
            forall|j: int| 0 <= j < old(self).sheet_names().len() ==> #[trigger] final(self).sheet_options(j) == old(self).sheet_options(j)
                && final(self).sheet_caches(j) == old(self).sheet_caches(j),
            r is Err ==> final(self).sheet_names() == old(self).sheet_names() && options.unwrap_or(old(self).book_options()).constant_memory,
            !options.unwrap_or(old(self).book_options()).constant_memory ==> r is Ok,
            r matches Ok(ws) ==> {
                &&& ws.index == old(self).sheet_names().len()
                &&& final(self).sheet_names() == old(self).sheet_names().push(
                    if crate::xlsx::valid_sheet_name(name@) {
                        name@
                    } else {
                        crate::xlsx::default_sheet_name((ws.index + 1) as nat)
                    },
                )
                &&& final(self).sheet_options(ws.index as int) == options.unwrap_or(old(self).book_options())
                &&& final(self).sheet_caches(ws.index as int) == (CachesV { col_hints: Seq::empty(), col_formats: Seq::empty(), row_formats: Seq::empty() })
                &&& final(self).sheet_views() == old(self).sheet_views().push(
                    crate::xlsx::empty_sheet(options.unwrap_or(old(self).book_options()).constant_memory),
                )
            },
            r is Err ==> final(self).sheet_views() == old(self).sheet_views(),
    {
        let ws_options = match options {
            Some(o) => o,
            None => self.options,
        };
        let idx = self.worksheets.len();
        let ws = if ws_options.constant_memory {
            match crate::xlsx::book_add_sheet_constant_memory(&mut self.workbook) {
                Ok(ws) => ws,
                Err(e) => {
                    return Err(XioError::Value(xlsx_error_message(&e)));
                },
            }
        } else {
            crate::xlsx::book_add_sheet(&mut self.workbook)
        };
        let _ = crate::xlsx::sheet_set_name(ws, name);
        self.worksheets.push(SheetState { options: ws_options, caches: WorksheetCaches::new(), merged: Vec::new() });
        proof {
            assert(ranges_cells(Seq::<(u32, u16, u32, u16)>::empty()) =~= Set::<(u32, u16)>::empty());
            assert forall|i: int| 0 <= i < self.worksheets.len() implies merges_match(
                crate::xlsx::book_sheet_views(self.workbook)[i], #[trigger] self.worksheets@[i].merged@) by {
                if i < idx {
                    assert(merges_match(crate::xlsx::book_sheet_views(old(self).workbook)[i], old(self).worksheets@[i].merged@));
                }
            }
        }
        Ok(XIOWWorksheet { index: idx })
    }

    /// The path to save to: the one given, else the workbook's.
    pub fn save_path(&self, filepath: Option<String>) -> (r: Result<String, XioError>)
        ensures
            match filepath {
                Some(p) => r matches Ok(x) && x@ == p@,
                None => match self.path() {
                    Some(p) => r matches Ok(x) && x@ == p,
                    None => r matches Err(XioError::Value(m)) && m@ == no_path_message(),
                },
            },
    {
        match filepath {
            Some(p) => Ok(p),
            None => match &self.filepath {
                Some(p) => Ok(p.clone()),
                None => Err(XioError::Value(String::from_str("Expected provided path or inited filepath. Got nothing."))),
            },
        }
    }

    /// The names of the worksheets, in order.
    pub fn sheetnames(&mut self) -> (r: Vec<String>)
        requires
            old(self).wf(),
        ensures
            strings_view(r@) == old(self).sheet_names(),
            final(self).same_but_caches(old(self), 0),
            final(self).sheet_views() == old(self).sheet_views(),
            old(self).sheet_names().len() > 0 ==> final(self).sheet_caches(0) == old(self).sheet_caches(0),
    {
        let n = self.worksheets.len();
        let mut r: Vec<String> = Vec::new();
        let mut i: usize = 0;
        while i < n
            invariant
                i <= n,
                n == old(self).sheet_names().len(),
                self.same_but_caches(old(self), 0),
                n > 0 ==> self.sheet_caches(0) == old(self).sheet_caches(0),
                self.sheet_views() == old(self).sheet_views(),
                strings_view(r@) == old(self).sheet_names().take(i as int),
            decreases n - i,
        {
            let name = XIOWWorksheet { index: i }.name(self);
            let ghost prev = r@;
            r.push(name);
            proof {
                lemma_strings_view(prev);
                lemma_strings_view(r@);
            }
            assert(strings_view(r@) =~= old(self).sheet_names().take(i + 1));
            i = i + 1;
        }
        assert(old(self).sheet_names().take(n as int) =~= old(self).sheet_names());
        r
    }

    /// The worksheet at `idx`, if there is one.
    pub fn get_by_idx(&self, idx: usize) -> (r: Result<XIOWWorksheet, XioError>)
        requires
            self.wf(),
        ensures
            idx < self.sheet_names().len() ==> r == Ok::<XIOWWorksheet, XioError>(XIOWWorksheet { index: idx }),
            idx >= self.sheet_names().len() ==> (r matches Err(XioError::Value(m))
                && m@ == "Worksheet at index "@ + crate::text::nat_digits(idx as nat) + " not found"@),
    {
        if idx < self.worksheets.len() {
            Ok(XIOWWorksheet { index: idx })
        } else {
            let mut m = String::from_str("Worksheet at index ");
            crate::text::push_decimal_u128(&mut m, idx as u128);
            push_str(&mut m, " not found");
            Err(XioError::Value(m))
        }
    }

    /// The first worksheet named `name`, if there is one.
    pub fn get_by_name(&mut self, name: &str) -> (r: Result<XIOWWorksheet, XioError>)
        requires
            old(self).wf(),
        ensures
            final(self).same_but_caches(old(self), 0),
            old(self).sheet_names().len() > 0 ==> final(self).sheet_caches(0) == old(self).sheet_caches(0),
            final(self).sheet_views() == old(self).sheet_views(),
            r matches Ok(ws) ==> ws.index < old(self).sheet_names().len() && old(self).sheet_names()[ws.index as int] == name@
                && forall|j: int| 0 <= j < ws.index ==> old(self).sheet_names()[j] != name@,
            r is Err ==> (forall|j: int| 0 <= j < old(self).sheet_names().len() ==> old(self).sheet_names()[j] != name@),
            r is Err ==> (r matches Err(XioError::Value(m)) && m@ == "Worksheet '"@ + name@ + "' not found"@),
            (exists|j: int| 0 <= j < old(self).sheet_names().len() && old(self).sheet_names()[j] == name@) ==> r is Ok,
    {
        let n = self.worksheets.len();
        let target = String::from_str(name);
        let mut i: usize = 0;
        while i < n
            invariant
                i <= n,
                n == old(self).sheet_names().len(),
                target@ == name@,
                self.same_but_caches(old(self), 0),
                self.sheet_views() == old(self).sheet_views(),
                n > 0 ==> self.sheet_caches(0) == old(self).sheet_caches(0),
                forall|j: int| 0 <= j < i ==> old(self).sheet_names()[j] != name@,
            decreases n - i,
        {
            let ws_name = XIOWWorksheet { index: i }.name(self);
            if ws_name.eq(&target) {
                return Ok(XIOWWorksheet { index: i });
            }
            i = i + 1;
        }
        let mut m = String::from_str("Worksheet '");
        push_str(&mut m, name);
        push_str(&mut m, "' not found");
        Err(XioError::Value(m))
    }

    /// The workbook as Python shows it: its sheet names, quoted, in a list.
    pub fn repr(&mut self) -> (r: String)
        requires
            old(self).wf(),
        ensures
            r@ == "<XIOWWorkbook(sheetnames="@ + quoted_list(old(self).sheet_names()) + ")>"@,
            final(self).same_but_caches(old(self), 0),
            final(self).sheet_views() == old(self).sheet_views(),
            old(self).sheet_names().len() > 0 ==> final(self).sheet_caches(0) == old(self).sheet_caches(0),
    {
        let names = self.sheetnames();
        let ghost nv = strings_view(names@);
        proof {
            lemma_strings_view(names@);
        }
        let mut quoted: Vec<String> = Vec::new();
        let mut i: usize = 0;
        while i < names.len()
            invariant
                i <= names.len(),
                nv == strings_view(names@),
                nv.len() == names@.len(),
                forall|j: int| 0 <= j < names@.len() ==> #[trigger] nv[j] == names@[j]@,
                quoted@.len() == i,
                forall|j: int| 0 <= j < i ==> #[trigger] quoted@[j]@ == quote(nv[j]),
            decreases names.len() - i,
        {
            let mut q = String::from_str("\"");
            push_str(&mut q, names[i].as_str());
            push_str(&mut q, "\"");
            quoted.push(q);
            i = i + 1;
        }
        proof {
            lemma_strings_view(quoted@);
            assert(strings_view(quoted@) =~= nv.map_values(|n: Seq<char>| quote(n)));
        }
        let mut r = String::from_str("<XIOWWorkbook(sheetnames=");
        let joined = crate::text::join_strings(&quoted, ", ");
        push_str(&mut r, "[");
        push_str(&mut r, joined.as_str());
        push_str(&mut r, "]");
        push_str(&mut r, ")>");
        assert(r@ =~= "<XIOWWorkbook(sheetnames="@ + quoted_list(old(self).sheet_names()) + ")>"@);
        r
    }

    /// The engine's workbook.
    pub closed spec fn engine_book(&self) -> rust_xlsxwriter::Workbook {
        self.workbook
    }

    /// This workbook with the engine's workbook replaced by `wb`.
    pub closed spec fn with_engine_book(&self, wb: rust_xlsxwriter::Workbook) -> Self {
        XIOWWorkbook {
            filepath: self.filepath,
            workbook: wb,
            worksheets: self.worksheets,
            options: self.options,
            datatype_format_bindings: self.datatype_format_bindings,
        }
    }

    /// The engine's workbook, to save it or to write float cells. It is
    /// lent in place: what is done through it is done to this workbook's
    /// engine, and nothing else of this workbook changes.
    pub fn engine(&mut self) -> (r: &mut rust_xlsxwriter::Workbook)
        ensures
            *r == old(self).engine_book(),
            *final(self) == old(self).with_engine_book(*final(r)),
            crate::xlsx::book_sheet_names(*r) == old(self).sheet_names(),
            final(self).sheet_names() == crate::xlsx::book_sheet_names(*final(r)),
            crate::xlsx::book_sheet_views(*r) == old(self).sheet_views(),
            final(self).sheet_views() == crate::xlsx::book_sheet_views(*final(r)),
            final(self).bindings() == old(self).bindings(),
            final(self).book_options() == old(self).book_options(),
            final(self).path() == old(self).path(),
            forall|j: int| #[trigger] final(self).sheet_options(j) == old(self).sheet_options(j)
                && final(self).sheet_caches(j) == old(self).sheet_caches(j),
    {
        &mut self.workbook
    }
}

/// A well-formed workbook has one view per worksheet name and one binding
/// slot per cell type.
pub proof fn lemma_wf_lengths(book: XIOWWorkbook)
    requires
        book.wf(),
    ensures
        book.sheet_views().len() == book.sheet_names().len(),
        book.bindings().len() == ColTypeHint::COUNT,
{
    lemma_formats_view(book.datatype_format_bindings@);
}

/// Adding a worksheet leaves every earlier one as it was: a handle taken
/// before the call still names, configures and holds the same sheet.
pub proof fn lemma_added_sheet_keeps_handles(before: XIOWWorkbook, after: XIOWWorkbook, v: SheetV, name: Seq<char>, i: int)
    requires
        before.wf(),
        after.sheet_names() == before.sheet_names().push(name),
        after.sheet_views() == before.sheet_views().push(v),
        forall|j: int| 0 <= j < before.sheet_names().len() ==> #[trigger] after.sheet_options(j) == before.sheet_options(j)
            && after.sheet_caches(j) == before.sheet_caches(j),
        0 <= i < before.sheet_names().len(),
    ensures
        after.sheet_names()[i] == before.sheet_names()[i],
        after.sheet_views()[i] == before.sheet_views()[i],
        after.sheet_options(i) == before.sheet_options(i),
        after.sheet_caches(i) == before.sheet_caches(i),
{
    lemma_wf_lengths(before);
}

/// A worksheet added under a valid name that no earlier worksheet has is
/// found again by that name: after `add_worksheet`, the only position that
/// `get_by_name` can return is the new sheet's, and it does return one.
pub proof fn lemma_added_sheet_found_by_name(before: XIOWWorkbook, after: XIOWWorkbook, name: Seq<char>)
    requires
        crate::xlsx::valid_sheet_name(name),
        !before.sheet_names().contains(name),
        after.sheet_names() == before.sheet_names().push(name),
    ensures
        after.sheet_names()[before.sheet_names().len() as int] == name,
        forall|i: int|
            0 <= i < after.sheet_names().len() && #[trigger] after.sheet_names()[i] == name
                ==> i == before.sheet_names().len(),
{
    assert forall|i: int|
        0 <= i < after.sheet_names().len() && #[trigger] after.sheet_names()[i] == name
            implies i == before.sheet_names().len() by {
        if i < before.sheet_names().len() {
            assert(before.sheet_names()[i] == after.sheet_names()[i]);
        }
    }
}

/// A handle on one worksheet of a workbook, by its position.
#[derive(Debug, Clone, Copy, PartialEq, Eq, Structural)]
pub struct XIOWWorksheet {
    pub index: usize,
}

impl XIOWWorksheet {
    /// The options of this worksheet.
    pub fn options(&self, book: &XIOWWorkbook) -> (r: XIOWOptions)
        requires
            book.wf(),
            self.index < book.sheet_names().len(),
        ensures
            r == book.sheet_options(self.index as int),
    {
        book.worksheets[self.index].options
    }

    /// Whether this worksheet is in constant-memory mode.
    pub fn constant_memory(&self, book: &XIOWWorkbook) -> (r: bool)
        requires
            book.wf(),
            self.index < book.sheet_names().len(),
        ensures
            r == book.sheet_options(self.index as int).constant_memory,
    {
        book.worksheets[self.index].options.constant_memory
    }

    /// The name of this worksheet.
    pub fn name(&self, book: &mut XIOWWorkbook) -> (r: String)
        requires
            old(book).wf(),
            self.index < old(book).sheet_names().len(),
        ensures
            r@ == old(book).sheet_names()[self.index as int],
            final(book).same_but_caches(old(book), self.index as int),
            final(book).sheet_caches(self.index as int) == old(book).sheet_caches(self.index as int),
            final(book).sheet_views() == old(book).sheet_views(),
    {
        let r = match crate::xlsx::book_sheet(&mut book.workbook, self.index) {
            Ok(ws) => crate::xlsx::sheet_get_name(ws),
            Err(_) => String::new(),
        };
        assert(book.sheet_names() =~= old(book).sheet_names());
        assert(book.sheet_views() =~= old(book).sheet_views());
        r
    }

    /// The worksheet at `self.index` as Python shows it.
    pub fn repr(&self, book: &mut XIOWWorkbook) -> (r: String)
        requires
            old(book).wf(),
            self.index < old(book).sheet_names().len(),
        ensures
            r@ == "<XIOWWorksheet \""@ + old(book).sheet_names()[self.index as int] + "\">"@,
            final(book).same_but_caches(old(book), self.index as int),
            final(book).sheet_caches(self.index as int) == old(book).sheet_caches(self.index as int),
            final(book).sheet_views() == old(book).sheet_views(),
    {
        let name = self.name(book);
        let mut r = String::from_str("<XIOWWorksheet \"");
        push_str(&mut r, name.as_str());
        push_str(&mut r, "\">");
        r
    }

    /// Writes one value to `(row, col)` of this worksheet, with an
    /// explicit format or none (see `cell_step`). A float cell is returned
    /// for the caller to write.
    pub fn write_cell(&self, book: &mut XIOWWorkbook, row: u32, col: u16, value: &PyValue, format: Option<&XIOFormat>) -> (r: Result<Option<PendingNumber>, XioError>)
        requires
            old(book).wf(),
            self.index < old(book).sheet_names().len(),
        ensures
            final(book).same_but_caches(old(book), self.index as int),
            ({
                let s = cell_step(old(book).sheet_options(self.index as int), old(book).sheet_caches(self.index as int), old(book).bindings(),
                    value@, ref_format_view(format), row, col);
                &&& step_result_matches(r, s, row, col)
                &&& final(book).sheet_caches(self.index as int) == step_caches(s, old(book).sheet_caches(self.index as int))
                &&& final(book).sheet_views() == old(book).sheet_views().update(
                    self.index as int,
                    step_sheet(s, old(book).sheet_views()[self.index as int], row, col),
                )
            }),
    {
        proof {
            lemma_formats_view(book.datatype_format_bindings@);
        }
        let ws = match crate::xlsx::book_sheet(&mut book.workbook, self.index) {
            Ok(ws) => ws,
            Err(_) => {
                return Err(XioError::Runtime(String::new()));
            },
        };
        let state = &mut book.worksheets[self.index];
        let r = write_step(ws, state, &book.datatype_format_bindings, row, col, value, format);
        assert(book.sheet_names() =~= old(book).sheet_names());
        proof {
            let s = cell_step(old(book).sheet_options(self.index as int), old(book).sheet_caches(self.index as int), old(book).bindings(),
                value@, ref_format_view(format), row, col);
            lemma_step_keeps_merged(s, old(book).sheet_views()[self.index as int], row, col);
            assert forall|i: int| 0 <= i < book.worksheets.len() implies merges_match(
                crate::xlsx::book_sheet_views(book.workbook)[i], #[trigger] book.worksheets@[i].merged@) by {
                assert(merges_match(crate::xlsx::book_sheet_views(old(book).workbook)[i], old(book).worksheets@[i].merged@));
            }
        }
        r
    }

    /// Writes a run of values, from `(row, col)` along the row or down the
    /// column, with the formats given by position; stops at the first
    /// failure.
    #[verifier::rlimit(50)]
    fn write_run(
        &self,
        book: &mut XIOWWorkbook,
        row: u32,
        col: u16,
        values: &Vec<PyValue>,
        formats: Option<&Vec<Option<XIOFormat>>>,
        down: bool,
    ) -> (r: (Vec<PendingNumber>, Result<(), XioError>))
        requires
            old(book).wf(),
            self.index < old(book).sheet_names().len(),
        ensures
            final(book).same_but_caches(old(book), self.index as int),
            ({
                let st = run_state(old(book).sheet_options(self.index as int), old(book).sheet_caches(self.index as int), old(book).sheet_views()[self.index as int], old(book).bindings(),
                    values_view(values@), formats_opt_view(formats), row, col, down, values.len() as nat);
                &&& run_result_matches(r.0, r.1, st)
                &&& final(book).sheet_caches(self.index as int) == st.caches
                &&& final(book).sheet_views() == old(book).sheet_views().update(self.index as int, st.sheet)
            }),
    {
        let ghost sv0 = book.sheet_views()[self.index as int];
        let ghost o = book.sheet_options(self.index as int);
        let ghost c0 = book.sheet_caches(self.index as int);
        let ghost b = book.bindings();
        let ghost vals = values_view(values@);
        let ghost fmts = formats_opt_view(formats);
        let mut pending: Vec<PendingNumber> = Vec::new();
        let mut k: usize = 0;
        while k < values.len()
            invariant
                k <= values.len(),
                book.same_but_caches(old(book), self.index as int),
                self.index < old(book).sheet_names().len(),
                o == old(book).sheet_options(self.index as int),
                c0 == old(book).sheet_caches(self.index as int),
                b == old(book).bindings(),
                vals == values_view(values@),
                fmts == formats_opt_view(formats),
                run_state(o, c0, sv0, b, vals, fmts, row, col, down, k as nat).failed is None,
                book.sheet_caches(self.index as int) == run_state(o, c0, sv0, b, vals, fmts, row, col, down, k as nat).caches,
                pendings_view(pending@) == run_state(o, c0, sv0, b, vals, fmts, row, col, down, k as nat).pending,
                sv0 == old(book).sheet_views()[self.index as int],
                self.index < old(book).sheet_views().len(),
                book.sheet_views() == old(book).sheet_views().update(
                    self.index as int,
                    run_state(o, c0, sv0, b, vals, fmts, row, col, down, k as nat).sheet,
                ),
            decreases values.len() - k,
        {
            let (r, c) = if down {
                (row_offset(row, k), col)
            } else {
                (row, col_offset(col, k))
            };
            let fmt: Option<&XIOFormat> = match formats {
                Some(v) => if k < v.len() {
                    v[k].as_ref()
                } else {
                    None
                },
                None => None,
            };
            proof {
                if let Some(v) = formats {
                    lemma_formats_view(v@);
                }
                assert(ref_format_view(fmt) == format_at(fmts, k as int));
                assert(vals[k as int] == values@[k as int]@);
            }
            let ghost before = pending@;
            let ghost views = book.sheet_views();
            assert(views[self.index as int] == run_state(o, c0, sv0, b, vals, fmts, row, col, down, k as nat).sheet);
            let res = self.write_cell(book, r, c, &values[k], fmt);
            assert(book.sheet_views() =~= old(book).sheet_views().update(
                self.index as int,
                run_state(o, c0, sv0, b, vals, fmts, row, col, down, (k + 1) as nat).sheet,
            ));
            match res {
                Ok(p) => {
                    if let Some(n) = p {
                        pending.push(n);
                    }
                    assert(pendings_view(pending@) =~= run_state(o, c0, sv0, b, vals, fmts, row, col, down, (k + 1) as nat).pending);
                },
                Err(e) => {
                    proof {
                        lemma_run_failed_extends(o, c0, sv0, b, vals, fmts, row, col, down, (k + 1) as nat, values.len() as nat);
                    }
                    return (pending, Err(e));
                },
            }
            k = k + 1;
        }
        (pending, Ok(()))
    }

    /// Writes values along row `row` from column `col`, each with the format
    /// at its position in `formats`, if any; stops at the first failure.
    /// Float cells are returned for the caller to write.
    pub fn write_row(
        &self,
        book: &mut XIOWWorkbook,
        row: u32,
        col: u16,
        values: &Vec<PyValue>,
        formats: Option<&Vec<Option<XIOFormat>>>,
    ) -> (r: (Vec<PendingNumber>, Result<(), XioError>))
        requires
            old(book).wf(),
            self.index < old(book).sheet_names().len(),
        ensures
            final(book).same_but_caches(old(book), self.index as int),
            ({
                let st = run_state(old(book).sheet_options(self.index as int), old(book).sheet_caches(self.index as int), old(book).sheet_views()[self.index as int], old(book).bindings(),
                    values_view(values@), formats_opt_view(formats), row, col, false, values.len() as nat);
                &&& run_result_matches(r.0, r.1, st)
                &&& final(book).sheet_caches(self.index as int) == st.caches
                &&& final(book).sheet_views() == old(book).sheet_views().update(self.index as int, st.sheet)
            }),
    {
        self.write_run(book, row, col, values, formats, false)
    }

    /// Writes a block of rows from `(row, col)`, starting at row `start` of
    /// the block, each row as `write_row` writes it. Writing pauses after the
    /// first row that holds floats, which are returned for the caller to
    /// write, with the row to go on from; it stops at the first failure.
    pub fn write_rows(
        &self,
        book: &mut XIOWWorkbook,
        row: u32,
        col: u16,
        rows: &Vec<Vec<PyValue>>,
        formats: Option<&Vec<Option<XIOFormat>>>,
        start: usize,
    ) -> (r: (Vec<PendingNumber>, Result<Option<usize>, XioError>))
        requires
            old(book).wf(),
            self.index < old(book).sheet_names().len(),
            start <= rows.len(),
        ensures
            final(book).same_but_caches(old(book), self.index as int),
            ({
                let o = old(book).sheet_options(self.index as int);
                let c = old(book).sheet_caches(self.index as int);
                let sv = old(book).sheet_views()[self.index as int];
                let b = old(book).bindings();
                let all = rows_view(rows@);
                let fmts = formats_opt_view(formats);
                &&& r.1 matches Ok(None) ==> {
                    let st = rows_state(o, c, sv, b, all, fmts, row, col, start as nat, rows.len() as nat);
                    &&& st.failed is None
                    &&& pendings_view(r.0@) == st.pending
                    &&& final(book).sheet_caches(self.index as int) == st.caches
                    &&& final(book).sheet_views() == old(book).sheet_views().update(self.index as int, st.sheet)
                }
                &&& r.1 matches Ok(Some(e)) ==> {
                    let st = rows_state(o, c, sv, b, all, fmts, row, col, start as nat, e as nat);
                    &&& start < e < rows.len()
                    &&& r.0@.len() > 0
                    &&& st.failed is None
                    &&& pendings_view(r.0@) == st.pending
                    &&& final(book).sheet_caches(self.index as int) == st.caches
                    &&& final(book).sheet_views() == old(book).sheet_views().update(self.index as int, st.sheet)
                }
                &&& r.1 is Err ==> {
                    let st = rows_state(o, c, sv, b, all, fmts, row, col, start as nat, rows.len() as nat);
                    &&& pendings_view(r.0@) == st.pending
                    &&& st.failed matches Some((s, _, _)) && (r.1 matches Err(e) && match s {
                        CellStep::Failed(f) => error_matches(e, f),
                        CellStep::Converted { .. } => e is Value,
                    })
                    &&& final(book).sheet_caches(self.index as int) == st.caches
                    &&& final(book).sheet_views() == old(book).sheet_views().update(self.index as int, st.sheet)
                }
            }),
    {
        let ghost o = book.sheet_options(self.index as int);
        let ghost c0 = book.sheet_caches(self.index as int);
        let ghost sv0 = book.sheet_views()[self.index as int];
        let ghost b = book.bindings();
        let ghost all = rows_view(rows@);
        let ghost fmts = formats_opt_view(formats);
        let empty: Vec<PendingNumber> = Vec::new();
        proof {
            assert(pendings_view(empty@) =~= Seq::<(u32, u16, u64, Option<FormatV>)>::empty());
        }
        let mut t: usize = start;
        while t < rows.len()
            invariant
                start <= t <= rows.len(),
                book.same_but_caches(old(book), self.index as int),
                self.index < old(book).sheet_names().len(),
                o == old(book).sheet_options(self.index as int),
                c0 == old(book).sheet_caches(self.index as int),
                b == old(book).bindings(),
                all == rows_view(rows@),
                fmts == formats_opt_view(formats),
                pendings_view(empty@) == Seq::<(u32, u16, u64, Option<FormatV>)>::empty(),
                rows_state(o, c0, sv0, b, all, fmts, row, col, start as nat, t as nat).failed is None,
                rows_state(o, c0, sv0, b, all, fmts, row, col, start as nat, t as nat).pending == Seq::<(u32, u16, u64, Option<FormatV>)>::empty(),
                book.sheet_caches(self.index as int) == rows_state(o, c0, sv0, b, all, fmts, row, col, start as nat, t as nat).caches,
                sv0 == old(book).sheet_views()[self.index as int],
                self.index < old(book).sheet_views().len(),
                book.sheet_views() == old(book).sheet_views().update(
                    self.index as int,
                    rows_state(o, c0, sv0, b, all, fmts, row, col, start as nat, t as nat).sheet,
                ),
            decreases rows.len() - t,
        {
            proof {
                assert(all[t as int] == values_view(rows@[t as int]@));
            }
            assert(book.sheet_views()[self.index as int] == rows_state(o, c0, sv0, b, all, fmts, row, col, start as nat, t as nat).sheet);
            let (p, res) = self.write_row(book, row_offset(row, t), col, &rows[t], formats);
            proof {
                let prev = rows_state(o, c0, sv0, b, all, fmts, row, col, start as nat, t as nat);
                assert(prev.pending + pendings_view(p@) =~= pendings_view(p@));
                assert(book.sheet_views() =~= old(book).sheet_views().update(
                    self.index as int,
                    rows_state(o, c0, sv0, b, all, fmts, row, col, start as nat, (t + 1) as nat).sheet,
                ));
            }
            t = t + 1;
            match res {
                Err(e) => {
                    proof {
                        lemma_rows_failed_extends(o, c0, sv0, b, all, fmts, row, col, start as nat, t as nat, rows.len() as nat);
                    }
                    return (p, Err(e));
                },
                Ok(()) => {},
            }
            if p.len() > 0 {
                if t < rows.len() {
                    return (p, Ok(Some(t)));
                }
                return (p, Ok(None));
            }
        }
        (empty, Ok(None))
    }

    /// Columns cannot be written in constant-memory mode, nor with a format.
    pub fn check_column_write(&self, book: &XIOWWorkbook, format: Option<&XIOFormat>) -> (r: Result<(), XioError>)
        requires
            book.wf(),
            self.index < book.sheet_names().len(),
        ensures
            book.sheet_options(self.index as int).constant_memory ==> (r matches Err(XioError::Runtime(m)) && m@ == constant_memory_column_message()),
            !book.sheet_options(self.index as int).constant_memory && format is Some ==> (r matches Err(XioError::Value(m)) && m@ == formatted_column_message()),
            !book.sheet_options(self.index as int).constant_memory && format is None ==> r is Ok,
    {
        if book.worksheets[self.index].options.constant_memory {
            return Err(XioError::Runtime(String::from_str("Cannot write columnar data in constant_memory worksheet mode")));
        }
        if format.is_some() {
            return Err(XioError::Value(String::from_str("Formatted write not supported for write_column")));
        }
        Ok(())
    }

    /// Writes values down column `col` from row `row`, without formats, when
    /// `check_column_write` allows it; stops at the first failure. Float
    /// cells are returned for the caller to write.
    pub fn write_column(
        &self,
        book: &mut XIOWWorkbook,
        row: u32,
        col: u16,
        values: &Vec<PyValue>,
        format: Option<&XIOFormat>,
    ) -> (r: (Vec<PendingNumber>, Result<(), XioError>))
        requires
            old(book).wf(),
            self.index < old(book).sheet_names().len(),
        ensures
            final(book).same_but_caches(old(book), self.index as int),
            old(book).sheet_options(self.index as int).constant_memory ==> r.0@.len() == 0 && (r.1 matches Err(XioError::Runtime(m)) && m@ == constant_memory_column_message())
                && final(book).sheet_caches(self.index as int) == old(book).sheet_caches(self.index as int)
                && final(book).sheet_views() == old(book).sheet_views(),
            !old(book).sheet_options(self.index as int).constant_memory && format is Some ==> r.0@.len() == 0 && (r.1 matches Err(XioError::Value(m)) && m@ == formatted_column_message())
                && final(book).sheet_caches(self.index as int) == old(book).sheet_caches(self.index as int)
                && final(book).sheet_views() == old(book).sheet_views(),
            !old(book).sheet_options(self.index as int).constant_memory && format is None ==> ({
                let st = run_state(old(book).sheet_options(self.index as int), old(book).sheet_caches(self.index as int), old(book).sheet_views()[self.index as int], old(book).bindings(),
                    values_view(values@), None, row, col, true, values.len() as nat);
                &&& run_result_matches(r.0, r.1, st)
                &&& final(book).sheet_caches(self.index as int) == st.caches
                &&& final(book).sheet_views() == old(book).sheet_views().update(self.index as int, st.sheet)
            }),
    {
        if let Err(e) = self.check_column_write(book, format) {
            return (Vec::new(), Err(e));
        }
        self.write_run(book, row, col, values, None, true)
    }

    /// Merges a range of this worksheet and writes `text` in it, with
    /// `format` or the default format. A valid range that shares a cell with
    /// a range merged earlier on this sheet is refused before anything is
    /// written.
    pub fn merge_range(
        &self,
        book: &mut XIOWWorkbook,
        first_row: u32,
        first_col: u16,
        last_row: u32,
        last_col: u16,
        text: &str,
        format: Option<&XIOFormat>,
    ) -> (r: Result<(), XioError>)
        requires
            old(book).wf(),
            self.index < old(book).sheet_names().len(),
        ensures
            final(book).same_but_caches(old(book), self.index as int),
            final(book).sheet_caches(self.index as int) == old(book).sheet_caches(self.index as int),
            r matches Err(e) ==> e is Value,
            r is Ok <==> (crate::xlsx::merge_args_ok(first_row, first_col, last_row, last_col, text@)
                && crate::xlsx::range_cells(first_row, first_col, last_row, last_col).disjoint(old(book).sheet_views()[self.index as int].merged)),
            r is Ok ==> final(book).sheet_views() == old(book).sheet_views().update(
                self.index as int,
                crate::xlsx::merged_sheet(old(book).sheet_views()[self.index as int], first_row, first_col, last_row, last_col, text@,
                    merge_format(ref_format_view(format))),
            ),
            r is Err ==> final(book).sheet_views() == old(book).sheet_views(),
    {
        proof {
            assert(merges_match(book.sheet_views()[self.index as int], book.worksheets@[self.index as int].merged@));
        }
        let geometry_ok = first_row < crate::xlsx::ROW_MAX && first_col < crate::xlsx::COL_MAX && last_row < crate::xlsx::ROW_MAX
            && last_col < crate::xlsx::COL_MAX && first_row <= last_row && first_col <= last_col
            && !(first_row == last_row && first_col == last_col);
        if geometry_ok {
            proof {
                lemma_disjoint_ranges(book.worksheets@[self.index as int].merged@, (first_row, first_col, last_row, last_col));
            }
            if let Some(i) = find_overlap(&book.worksheets[self.index].merged, first_row, first_col, last_row, last_col) {
                let prev = book.worksheets[self.index].merged[i];
                return Err(XioError::Value(overlap_message((first_row, first_col, last_row, last_col), prev)));
            }
        }
        let f = match format {
            Some(x) => x.to_format(),
            None => format_new(),
        };
        let res = match crate::xlsx::book_sheet(&mut book.workbook, self.index) {
            Ok(ws) => crate::xlsx::sheet_merge_range(ws, first_row, first_col, last_row, last_col, text, &f),
            Err(e) => Err(e),
        };
        assert(book.sheet_names() =~= old(book).sheet_names());
        match res {
            Ok(()) => {
                let ghost before = book.worksheets@[self.index as int].merged@;
                book.worksheets[self.index].merged.push((first_row, first_col, last_row, last_col));
                proof {
                    lemma_ranges_cells_push(before, (first_row, first_col, last_row, last_col));
                    assert(book.worksheets@[self.index as int].merged@ == before.push((first_row, first_col, last_row, last_col)));
                    assert forall|i: int| 0 <= i < book.worksheets.len() implies merges_match(
                        crate::xlsx::book_sheet_views(book.workbook)[i], #[trigger] book.worksheets@[i].merged@) by {
                        if i != self.index {
                            assert(book.worksheets@[i] == old(book).worksheets@[i]);
                        }
                    }
                    assert(book.sheet_views() =~= old(book).sheet_views().update(
                        self.index as int,
                        crate::xlsx::merged_sheet(old(book).sheet_views()[self.index as int], first_row, first_col, last_row, last_col, text@,
                            merge_format(ref_format_view(format))),
                    ));
                }
                Ok(())
            },
            Err(e) => {
                assert(book.sheet_views() =~= old(book).sheet_views());
                Err(XioError::Value(xlsx_error_message(&e)))
            },
        }
    }

    /// Sets a format on a whole column; with the column cache on, the
    /// column's cached format becomes this one.
    pub fn set_column_format(&self, book: &mut XIOWWorkbook, col: u16, format: &XIOFormat) -> (r: Result<(), XioError>)
        requires
            old(book).wf(),
            self.index < old(book).sheet_names().len(),
        ensures
            final(book).same_but_caches(old(book), self.index as int),
            ({
                let c = old(book).sheet_caches(self.index as int);
                final(book).sheet_caches(self.index as int) == if old(book).sheet_options(self.index as int).cache_col_formats {
                    CachesV {
                        col_formats: padded(c.col_formats, col as nat + 1, None).update(col as int, Some(format@)),
                        ..c
                    }
                } else {
                    c
                }
            }),
            r is Ok <==> col < crate::xlsx::COL_MAX,
            r matches Err(e) ==> e is Value,
            final(book).sheet_views() == old(book).sheet_views().update(
                self.index as int,
                if r is Ok {
                    crate::xlsx::sheet_with_col_format(old(book).sheet_views()[self.index as int], col, format@)
                } else {
                    old(book).sheet_views()[self.index as int]
                },
            ),
    {
        let state = &mut book.worksheets[self.index];
        if state.options.cache_col_formats {
            let ghost before = state.caches.col_formats_setted@;
            grow_formats(&mut state.caches.col_formats_setted, col as usize);
            let ghost grown = state.caches.col_formats_setted@;
            proof {
                lemma_formats_view(grown);
            }
            state.caches.col_formats_setted.set(col as usize, clone_format(Some(format)));
            proof {
                lemma_formats_view(grown);
                lemma_formats_view(state.caches.col_formats_setted@);
                assert(formats_view(state.caches.col_formats_setted@) =~= formats_view(grown).update(col as int, Some(format@)));
            }
        }
        let f = format.to_format();
        let res = match crate::xlsx::book_sheet(&mut book.workbook, self.index) {
            Ok(ws) => crate::xlsx::sheet_set_column_format(ws, col, &f),
            Err(e) => Err(e),
        };
        assert(book.sheet_names() =~= old(book).sheet_names());
        assert(book.sheet_views() =~= old(book).sheet_views().update(self.index as int, book.sheet_views()[self.index as int]));
        match res {
            Ok(()) => Ok(()),
            Err(e) => Err(XioError::Value(xlsx_error_message(&e))),
        }
    }

    /// Sets a format on a whole row; with the row cache on, the row's cached
    /// format becomes this one.
    pub fn set_row_format(&self, book: &mut XIOWWorkbook, row: u32, format: &XIOFormat) -> (r: Result<(), XioError>)
        requires
            old(book).wf(),
            self.index < old(book).sheet_names().len(),
        ensures
            final(book).same_but_caches(old(book), self.index as int),
            ({
                let c = old(book).sheet_caches(self.index as int);
                final(book).sheet_caches(self.index as int) == if old(book).sheet_options(self.index as int).cache_row_formats {
                    CachesV {
                        row_formats: padded(c.row_formats, row as nat + 1, None).update(row as int, Some(format@)),
                        ..c
                    }
                } else {
                    c
                }
            }),
            r is Ok <==> row < crate::xlsx::ROW_MAX,
            r matches Err(e) ==> e is Value,
            final(book).sheet_views() == old(book).sheet_views().update(
                self.index as int,
                if r is Ok {
                    crate::xlsx::sheet_with_row_format(old(book).sheet_views()[self.index as int], row, format@)
                } else {
                    old(book).sheet_views()[self.index as int]
                },
            ),
    {
        let state = &mut book.worksheets[self.index];
        if state.options.cache_row_formats {
            grow_formats(&mut state.caches.row_formats_setted, row as usize);
            let ghost grown = state.caches.row_formats_setted@;
            proof {
                lemma_formats_view(grown);
            }
            state.caches.row_formats_setted.set(row as usize, clone_format(Some(format)));
            proof {
                lemma_formats_view(grown);
                lemma_formats_view(state.caches.row_formats_setted@);
                assert(formats_view(state.caches.row_formats_setted@) =~= formats_view(grown).update(row as int, Some(format@)));
            }
        }
        let f = format.to_format();
        let res = match crate::xlsx::book_sheet(&mut book.workbook, self.index) {
            Ok(ws) => crate::xlsx::sheet_set_row_format(ws, row, &f),
            Err(e) => Err(e),
        };
        assert(book.sheet_names() =~= old(book).sheet_names());
        assert(book.sheet_views() =~= old(book).sheet_views().update(self.index as int, book.sheet_views()[self.index as int]));
        match res {
            Ok(()) => Ok(()),
            Err(e) => Err(XioError::Value(xlsx_error_message(&e))),
        }
    }

}

} // verus!
