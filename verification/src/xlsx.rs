//! The `rust_xlsxwriter` engine as this crate uses it: its types, the
//! limits it enforces, and one trusted wrapper per engine function that the
//! verified code calls. A workbook is modelled by the names of its sheets,
//! a worksheet by its name and by what it holds (`SheetV`), a format by its
//! number format and boldness. Float cells are not written through this
//! crate and are not modelled.
use vstd::prelude::*;
use rust_xlsxwriter::{ExcelDateTime, Format, Workbook, Worksheet, XlsxError};
use crate::text::nat_digits;
use crate::write::writer::FormatV;

verus! {

#[verifier::external_type_specification]
#[verifier::external_body]
pub struct ExWorkbook(Workbook);

#[verifier::external_type_specification]
#[verifier::external_body]
pub struct ExWorksheet(Worksheet);

#[verifier::external_type_specification]
#[verifier::external_body]
pub struct ExFormat(Format);

#[verifier::external_type_specification]
#[verifier::external_body]
pub struct ExExcelDateTime(ExcelDateTime);

#[verifier::external_type_specification]
#[verifier::external_body]
pub struct ExXlsxError(XlsxError);

/// Rows are `0 .. ROW_MAX` in a worksheet.
pub const ROW_MAX: u32 = 1048576;

/// Columns are `0 .. COL_MAX` in a worksheet.
pub const COL_MAX: u16 = 16384;

/// The longest string, in UTF-16 code units, that a cell can hold.
pub const MAX_STRING_LEN: usize = 32767;

/// The names of a workbook's sheets, in the order they were added.
pub uninterp spec fn book_sheet_names(wb: Workbook) -> Seq<Seq<char>>;

/// How many sheets the workbook has added itself (its `u16` counter); it
/// numbers default names.
pub uninterp spec fn book_sheets_added(wb: Workbook) -> u16;

/// The name of a worksheet.
pub uninterp spec fn sheet_name(ws: Worksheet) -> Seq<char>;

/// What a cell written through this crate holds.
pub enum SheetValue {
    /// A string.
    Text(Seq<char>),
    /// A number that is an integer.
    Number(int),
    Boolean(bool),
    /// A date, a time of day or both.
    DateTime(ExcelDateTime),
    /// A formatted empty cell.
    Blank,
}

/// A written cell: its value, and the format it was written with, if one
/// was given (without one the engine falls back on the row's or the
/// column's format).
pub struct SheetCell {
    pub value: SheetValue,
    pub format: Option<FormatV>,
}

/// What this crate models of a worksheet: the cells written to it (kept in
/// memory or, in constant-memory mode, already flushed to its file), the
/// formats set on columns and rows, the cells of its merged ranges, whether
/// it is a constant-memory sheet, and in that mode the row it is at: rows
/// above it are flushed, and later writes to them are ignored.
pub struct SheetV {
    pub cells: Map<(u32, u16), SheetCell>,
    pub col_formats: Map<u16, FormatV>,
    pub row_formats: Map<u32, FormatV>,
    pub merged: Set<(u32, u16)>,
    pub constant_memory: bool,
    pub floor: u32,
}

/// A new worksheet.
pub open spec fn empty_sheet(constant_memory: bool) -> SheetV {
    SheetV {
        cells: Map::empty(),
        col_formats: Map::empty(),
        row_formats: Map::empty(),
        merged: Set::empty(),
        constant_memory,
        floor: 0,
    }
}

/// A cell stored at `(row, col)`, which must be inside the sheet. In
/// constant-memory mode a row above the current one is ignored, and a row
/// below it becomes the current one.
pub open spec fn sheet_put(s: SheetV, row: u32, col: u16, c: SheetCell) -> SheetV {
    if s.constant_memory && row < s.floor {
        s
    } else {
        SheetV {
            cells: s.cells.insert((row, col), c),
            col_formats: s.col_formats,
            row_formats: s.row_formats,
            merged: s.merged,
            constant_memory: s.constant_memory,
            floor: if s.constant_memory && row > s.floor { row } else { s.floor },
        }
    }
}

/// What a write stores is read back: after storing a cell, the sheet holds
/// it at its position (unless it went to a flushed row of a constant-memory
/// sheet), and every other cell is as before.
pub proof fn lemma_put_reads_back(s: SheetV, row: u32, col: u16, c: SheetCell)
    ensures
        (!s.constant_memory || row >= s.floor) ==> sheet_put(s, row, col, c).cells.dom().contains((row, col))
            && sheet_put(s, row, col, c).cells[(row, col)] == c,
        forall|k: (u32, u16)| k != (row, col) ==> (#[trigger] sheet_put(s, row, col, c).cells.dom().contains(k) <==> s.cells.dom().contains(k)),
        forall|k: (u32, u16)| k != (row, col) && s.cells.dom().contains(k) ==> #[trigger] sheet_put(s, row, col, c).cells[k] == s.cells[k],
{
}

/// The same sheet with another format on column `col`.
pub open spec fn sheet_with_col_format(s: SheetV, col: u16, f: FormatV) -> SheetV {
    SheetV {
        cells: s.cells,
        col_formats: s.col_formats.insert(col, f),
        row_formats: s.row_formats,
        merged: s.merged,
        constant_memory: s.constant_memory,
        floor: s.floor,
    }
}

/// The same sheet with another format on row `row`.
pub open spec fn sheet_with_row_format(s: SheetV, row: u32, f: FormatV) -> SheetV {
    SheetV {
        cells: s.cells,
        col_formats: s.col_formats,
        row_formats: s.row_formats.insert(row, f),
        merged: s.merged,
        constant_memory: s.constant_memory,
        floor: s.floor,
    }
}

/// Whether `(r, c)` lies in the range from `(fr, fc)` to `(lr, lc)`.
pub open spec fn in_range(r: u32, c: u16, fr: u32, fc: u16, lr: u32, lc: u16) -> bool {
    fr <= r <= lr && fc <= c <= lc
}

/// The cells of a range.
pub open spec fn range_cells(fr: u32, fc: u16, lr: u32, lc: u16) -> Set<(u32, u16)> {
    Set::new(|k: (u32, u16)| in_range(k.0, k.1, fr, fc, lr, lc))
}

/// The view of a format.
pub open spec fn format_view(f: Format) -> FormatV {
    FormatV { num_format: format_num_format(f), bold: format_bold(f) }
}

/// What this crate models of a worksheet.
pub uninterp spec fn sheet_view(ws: Worksheet) -> SheetV;

/// What this crate models of each of a workbook's sheets, in order.
pub uninterp spec fn book_sheet_views(wb: Workbook) -> Seq<SheetV>;

/// The date that `ExcelDateTime::from_ymd` makes of a year, month and day.
pub uninterp spec fn excel_date(year: u16, month: u8, day: u8) -> ExcelDateTime;

/// The time of day that `ExcelDateTime::from_hms` makes of whole hours,
/// minutes and seconds.
pub uninterp spec fn excel_time(hour: u16, minute: u8, second: u8) -> ExcelDateTime;

/// What `ExcelDateTime::and_hms` makes of a date and a time of day in whole
/// seconds.
pub uninterp spec fn excel_with_time(date: ExcelDateTime, hour: u16, minute: u8, second: u16) -> ExcelDateTime;

/// The number format a format holds (its `num_format` property).
pub uninterp spec fn format_num_format(f: Format) -> Seq<char>;

/// Whether a format sets bold text (its font's `bold` property).
pub uninterp spec fn format_bold(f: Format) -> bool;

/// Length of a string in UTF-16 code units.
pub open spec fn utf16_len(s: Seq<char>) -> nat
    decreases s.len(),
{
    if s.len() == 0 {
        0
    } else {
        utf16_len(s.drop_last()) + if (s.last() as nat) > 0xFFFF {
            2nat
        } else {
            1nat
        }
    }
}

/// Whether `(row, col)` lies inside a worksheet.
pub open spec fn in_sheet(row: u32, col: u16) -> bool {
    row < ROW_MAX && col < COL_MAX
}

/// Whether a string is short enough for a cell.
pub open spec fn fits_cell(s: Seq<char>) -> bool {
    utf16_len(s) <= MAX_STRING_LEN
}

/// The characters that a sheet name cannot hold.
pub open spec fn forbidden_in_sheet_name(c: char) -> bool {
    c == '*' || c == '?' || c == ':' || c == '[' || c == ']' || c == '\\' || c == '/'
}

/// Excel's rules for a sheet name: not empty, at most 31 UTF-16 units, none
/// of `*?:[]\/`, and not starting or ending with an apostrophe.
pub open spec fn valid_sheet_name(s: Seq<char>) -> bool {
    &&& s.len() > 0
    &&& utf16_len(s) <= 31
    &&& forall|i: int| 0 <= i < s.len() ==> !forbidden_in_sheet_name(#[trigger] s[i])
    &&& s[0] != '\''
    &&& s.last() != '\''
}

/// The name a new sheet gets: "Sheet" and its number.
pub open spec fn default_sheet_name(n: nat) -> Seq<char> {
    seq!['S', 'h', 'e', 'e', 't'] + nat_digits(n)
}

/// Leap years of the Gregorian calendar.
pub open spec fn is_leap_year(y: nat) -> bool {
    y % 4 == 0 && (y % 100 != 0 || y % 400 == 0)
}

/// Days in a month; February has 29 in leap years and, as in Excel, in 1900.
pub open spec fn days_in_month(y: nat, m: nat) -> nat {
    if m == 2 {
        if is_leap_year(y) || y == 1900 {
            29
        } else {
            28
        }
    } else if m == 4 || m == 6 || m == 9 || m == 11 {
        30
    } else {
        31
    }
}

/// The dates Excel can hold: 1900-01-01 to 9999-12-31, and 1899-12-31.
pub open spec fn valid_ymd(year: u16, month: u8, day: u8) -> bool {
    &&& year <= 9999
    &&& (year >= 1900 || (year == 1899 && month == 12 && day == 31))
    &&& 1 <= month <= 12
    &&& 1 <= day <= days_in_month(year as nat, month as nat)
}

/// `ExcelDateTime::from_ymd`: succeeds exactly on the dates Excel can hold.
#[verifier::external_body]
pub(crate) fn date_from_ymd(year: u16, month: u8, day: u8) -> (r: Result<ExcelDateTime, XlsxError>)
    ensures
        r is Ok <==> valid_ymd(year, month, day),
        r matches Ok(x) ==> x == excel_date(year, month, day),
{
    ExcelDateTime::from_ymd(year, month, day)
}

/// `ExcelDateTime::from_hms` with whole seconds: the hour is not checked,
/// minutes must be at most 60 and seconds at most 59.999.
#[verifier::external_body]
pub(crate) fn time_from_hms(hour: u16, minute: u8, second: u8) -> (r: Result<ExcelDateTime, XlsxError>)
    ensures
        r is Ok <==> (minute <= 60 && second <= 59),
        r matches Ok(x) ==> x == excel_time(hour, minute, second),
{
    ExcelDateTime::from_hms(hour, minute, second)
}

/// `ExcelDateTime::and_hms` with whole seconds: adds a time of day under the
/// same checks as `time_from_hms`.
#[verifier::external_body]
pub(crate) fn datetime_and_hms(date: ExcelDateTime, hour: u16, minute: u8, second: u16) -> (r: Result<
    ExcelDateTime,
    XlsxError,
>)
    ensures
        r is Ok <==> (minute <= 60 && second <= 59),
        r matches Ok(x) ==> x == excel_with_time(date, hour, minute, second),
{
    date.and_hms(hour, minute, second)
}

/// `Workbook::new`: a workbook without sheets.
#[verifier::external_body]
pub(crate) fn book_new() -> (r: Workbook)
    ensures
        book_sheet_names(r) == Seq::<Seq<char>>::empty(),
        book_sheets_added(r) == 0,
        book_sheet_views(r) == Seq::<SheetV>::empty(),
{
    Workbook::new()
}

/// `Workbook::add_worksheet`: appends a sheet named "Sheet<n>", `n` the
/// number of sheets the workbook has added so far plus one, and hands it
/// out; renaming it renames the workbook's last sheet. The count is a `u16`
/// that the call increments, so it must not be at its maximum.
#[verifier::external_body]
pub(crate) fn book_add_sheet(wb: &mut Workbook) -> (r: &mut Worksheet)
    requires
        book_sheets_added(*old(wb)) < u16::MAX,
    ensures
        sheet_name(*r) == default_sheet_name((book_sheets_added(*old(wb)) + 1) as nat),
        book_sheet_names(*final(wb)) == book_sheet_names(*old(wb)).push(sheet_name(*final(r))),
        book_sheets_added(*final(wb)) == book_sheets_added(*old(wb)) + 1,
        sheet_view(*r) == empty_sheet(false),
        book_sheet_views(*final(wb)) == book_sheet_views(*old(wb)).push(sheet_view(*final(r))),
{
    wb.add_worksheet()
}

/// `Workbook::add_worksheet_with_constant_memory`: like `book_add_sheet`,
/// for a sheet whose rows are flushed to a temporary file. Making that file
/// can fail; the workbook is then unchanged. When it fails is not stated.
#[verifier::external_body]
pub(crate) fn book_add_sheet_constant_memory(wb: &mut Workbook) -> (r: Result<&mut Worksheet, XlsxError>)
    requires
        book_sheets_added(*old(wb)) < u16::MAX,
    ensures
        r matches Ok(ws) ==> sheet_name(*ws) == default_sheet_name((book_sheets_added(*old(wb)) + 1) as nat),
        r matches Ok(ws) ==> book_sheet_names(*final(wb)) == book_sheet_names(*old(wb)).push(sheet_name(*final(ws))),
        r is Ok ==> book_sheets_added(*final(wb)) == book_sheets_added(*old(wb)) + 1,
        r matches Ok(ws) ==> sheet_view(*ws) == empty_sheet(true),
        r matches Ok(ws) ==> book_sheet_views(*final(wb)) == book_sheet_views(*old(wb)).push(sheet_view(*final(ws))),
        r is Err ==> *final(wb) == *old(wb),
{
    wb.add_worksheet_with_constant_memory()
}

/// `Workbook::worksheet_from_index`: the sheet at `index`, if there is one.
/// Changing the sheet's name changes the workbook's list of names.
#[verifier::external_body]
pub(crate) fn book_sheet(wb: &mut Workbook, index: usize) -> (r: Result<&mut Worksheet, XlsxError>)
    ensures
        r is Ok <==> index < book_sheet_names(*old(wb)).len(),
        r matches Ok(ws) ==> sheet_name(*ws) == book_sheet_names(*old(wb))[index as int],
        r matches Ok(ws) ==> book_sheet_names(*final(wb)) == book_sheet_names(*old(wb)).update(
            index as int,
            sheet_name(*final(ws)),
        ),
        r matches Ok(ws) ==> book_sheets_added(*final(wb)) == book_sheets_added(*old(wb)),
        r matches Ok(ws) ==> sheet_view(*ws) == book_sheet_views(*old(wb))[index as int],
        r matches Ok(ws) ==> book_sheet_views(*final(wb)) == book_sheet_views(*old(wb)).update(
            index as int,
            sheet_view(*final(ws)),
        ),
        r is Err ==> *final(wb) == *old(wb),
{
    wb.worksheet_from_index(index)
}

/// `Worksheet::set_name`: renames the sheet when the name is valid.
#[verifier::external_body]
pub(crate) fn sheet_set_name(ws: &mut Worksheet, name: &str) -> (r: Result<(), XlsxError>)
    ensures
        r is Ok <==> valid_sheet_name(name@),
        r is Ok ==> sheet_name(*final(ws)) == name@,
        r is Err ==> sheet_name(*final(ws)) == sheet_name(*old(ws)),
        sheet_view(*final(ws)) == sheet_view(*old(ws)),
{
    ws.set_name(name).map(|_| ())
}

/// `Worksheet::name`.
#[verifier::external_body]
pub(crate) fn sheet_get_name(ws: &Worksheet) -> (r: String)
    ensures
        r@ == sheet_name(*ws),
{
    ws.name()
}

/// `Worksheet::write_string`: an empty string is ignored; otherwise the cell
/// must be inside the sheet and the string short enough, and the string is
/// stored there.
#[verifier::external_body]
pub(crate) fn sheet_write_string(ws: &mut Worksheet, row: u32, col: u16, s: &str) -> (r: Result<
    (),
    XlsxError,
>)
    ensures
        r is Ok <==> (s@.len() == 0 || (in_sheet(row, col) && fits_cell(s@))),
        sheet_name(*final(ws)) == sheet_name(*old(ws)),
        r is Ok ==> sheet_view(*final(ws)) == if s@.len() == 0 {
            sheet_view(*old(ws))
        } else {
            sheet_put(sheet_view(*old(ws)), row, col, SheetCell { value: SheetValue::Text(s@), format: None })
        },
        r is Err ==> sheet_view(*final(ws)) == sheet_view(*old(ws)),
{
    ws.write_string(row, col, s).map(|_| ())
}

/// `Worksheet::write_string_with_format`: an empty string writes a formatted
/// blank; otherwise as `sheet_write_string`, with the format.
#[verifier::external_body]
pub(crate) fn sheet_write_string_with_format(
    ws: &mut Worksheet,
    row: u32,
    col: u16,
    s: &str,
    format: &Format,
) -> (r: Result<(), XlsxError>)
    ensures
        r is Ok <==> (in_sheet(row, col) && (s@.len() == 0 || fits_cell(s@))),
        sheet_name(*final(ws)) == sheet_name(*old(ws)),
        r is Ok ==> sheet_view(*final(ws)) == if s@.len() == 0 {
            sheet_put(sheet_view(*old(ws)), row, col, SheetCell { value: SheetValue::Blank, format: Some(format_view(*format)) })
        } else {
            sheet_put(sheet_view(*old(ws)), row, col, SheetCell { value: SheetValue::Text(s@), format: Some(format_view(*format)) })
        },
        r is Err ==> sheet_view(*final(ws)) == sheet_view(*old(ws)),
{
    ws.write_string_with_format(row, col, s, format).map(|_| ())
}

/// `Worksheet::write_number` with an `i32`.
#[verifier::external_body]
pub(crate) fn sheet_write_int(ws: &mut Worksheet, row: u32, col: u16, n: i32) -> (r: Result<(), XlsxError>)
    ensures
        r is Ok <==> in_sheet(row, col),
        sheet_name(*final(ws)) == sheet_name(*old(ws)),
        r is Ok ==> sheet_view(*final(ws)) == sheet_put(sheet_view(*old(ws)), row, col, SheetCell { value: SheetValue::Number(n as int), format: None }),
        r is Err ==> sheet_view(*final(ws)) == sheet_view(*old(ws)),
{
    ws.write_number(row, col, n).map(|_| ())
}

/// `Worksheet::write_number_with_format` with an `i32`.
#[verifier::external_body]
pub(crate) fn sheet_write_int_with_format(
    ws: &mut Worksheet,
    row: u32,
    col: u16,
    n: i32,
    format: &Format,
) -> (r: Result<(), XlsxError>)
    ensures
        r is Ok <==> in_sheet(row, col),
        sheet_name(*final(ws)) == sheet_name(*old(ws)),
        r is Ok ==> sheet_view(*final(ws)) == sheet_put(sheet_view(*old(ws)), row, col, SheetCell { value: SheetValue::Number(n as int), format: Some(format_view(*format)) }),
        r is Err ==> sheet_view(*final(ws)) == sheet_view(*old(ws)),
{
    ws.write_number_with_format(row, col, n, format).map(|_| ())
}

/// `Worksheet::write_boolean`.
#[verifier::external_body]
pub(crate) fn sheet_write_bool(ws: &mut Worksheet, row: u32, col: u16, b: bool) -> (r: Result<(), XlsxError>)
    ensures
        r is Ok <==> in_sheet(row, col),
        sheet_name(*final(ws)) == sheet_name(*old(ws)),
        r is Ok ==> sheet_view(*final(ws)) == sheet_put(sheet_view(*old(ws)), row, col, SheetCell { value: SheetValue::Boolean(b), format: None }),
        r is Err ==> sheet_view(*final(ws)) == sheet_view(*old(ws)),
{
    ws.write_boolean(row, col, b).map(|_| ())
}

/// `Worksheet::write_boolean_with_format`.
#[verifier::external_body]
pub(crate) fn sheet_write_bool_with_format(
    ws: &mut Worksheet,
    row: u32,
    col: u16,
    b: bool,
    format: &Format,
) -> (r: Result<(), XlsxError>)
    ensures
        r is Ok <==> in_sheet(row, col),
        sheet_name(*final(ws)) == sheet_name(*old(ws)),
        r is Ok ==> sheet_view(*final(ws)) == sheet_put(sheet_view(*old(ws)), row, col, SheetCell { value: SheetValue::Boolean(b), format: Some(format_view(*format)) }),
        r is Err ==> sheet_view(*final(ws)) == sheet_view(*old(ws)),
{
    ws.write_boolean_with_format(row, col, b, format).map(|_| ())
}

/// `Worksheet::write_datetime`.
#[verifier::external_body]
pub(crate) fn sheet_write_datetime(ws: &mut Worksheet, row: u32, col: u16, dt: &ExcelDateTime) -> (r:
    Result<(), XlsxError>)
    ensures
        r is Ok <==> in_sheet(row, col),
        sheet_name(*final(ws)) == sheet_name(*old(ws)),
        r is Ok ==> sheet_view(*final(ws)) == sheet_put(sheet_view(*old(ws)), row, col, SheetCell { value: SheetValue::DateTime(*dt), format: None }),
        r is Err ==> sheet_view(*final(ws)) == sheet_view(*old(ws)),
{
    ws.write_datetime(row, col, dt).map(|_| ())
}

/// `Worksheet::write_datetime_with_format`.
#[verifier::external_body]
pub(crate) fn sheet_write_datetime_with_format(
    ws: &mut Worksheet,
    row: u32,
    col: u16,
    dt: &ExcelDateTime,
    format: &Format,
) -> (r: Result<(), XlsxError>)
    ensures
        r is Ok <==> in_sheet(row, col),
        sheet_name(*final(ws)) == sheet_name(*old(ws)),
        r is Ok ==> sheet_view(*final(ws)) == sheet_put(sheet_view(*old(ws)), row, col, SheetCell { value: SheetValue::DateTime(*dt), format: Some(format_view(*format)) }),
        r is Err ==> sheet_view(*final(ws)) == sheet_view(*old(ws)),
{
    ws.write_datetime_with_format(row, col, dt, format).map(|_| ())
}

/// `Worksheet::write_blank`: a formatted empty cell.
#[verifier::external_body]
pub(crate) fn sheet_write_blank(ws: &mut Worksheet, row: u32, col: u16, format: &Format) -> (r: Result<
    (),
    XlsxError,
>)
    ensures
        r is Ok <==> in_sheet(row, col),
        sheet_name(*final(ws)) == sheet_name(*old(ws)),
        r is Ok ==> sheet_view(*final(ws)) == sheet_put(sheet_view(*old(ws)), row, col, SheetCell { value: SheetValue::Blank, format: Some(format_view(*format)) }),
        r is Err ==> sheet_view(*final(ws)) == sheet_view(*old(ws)),
{
    ws.write_blank(row, col, format).map(|_| ())
}

/// Whether a range can be merged: both corners inside the sheet, in order,
/// more than one cell, and text short enough for a cell.
pub open spec fn merge_args_ok(fr: u32, fc: u16, lr: u32, lc: u16, text: Seq<char>) -> bool {
    &&& in_sheet(fr, fc) && in_sheet(lr, lc)
    &&& fr <= lr && fc <= lc
    &&& !(fr == lr && fc == lc)
    &&& fits_cell(text)
}

/// The cells after merging a range: the text (a blank when it is empty) in
/// its first cell, formatted blanks in the others; rows above `from` are
/// left as they were.
pub open spec fn merged_range_cells(
    cells: Map<(u32, u16), SheetCell>,
    fr: u32,
    fc: u16,
    lr: u32,
    lc: u16,
    text: Seq<char>,
    f: FormatV,
    from: u32,
) -> Map<(u32, u16), SheetCell> {
    Map::new(
        |k: (u32, u16)| cells.dom().contains(k) || (in_range(k.0, k.1, fr, fc, lr, lc) && k.0 >= from),
        |k: (u32, u16)|
            if in_range(k.0, k.1, fr, fc, lr, lc) && k.0 >= from {
                if k == (fr, fc) {
                    SheetCell {
                        value: if text.len() == 0 { SheetValue::Blank } else { SheetValue::Text(text) },
                        format: Some(f),
                    }
                } else {
                    SheetCell { value: SheetValue::Blank, format: Some(f) }
                }
            } else {
                cells[k]
            },
    )
}

/// A sheet after merging a range with text and a format. The text (a blank
/// when it is empty) goes in the range's first cell and formatted blanks in
/// the others, and the range's cells are recorded as merged. In
/// constant-memory mode the first row is written as ordinary cells (so it
/// becomes the current row if it is below it), later rows are written ahead
/// of the current row, and rows above the current row are ignored.
pub open spec fn merged_sheet(s: SheetV, fr: u32, fc: u16, lr: u32, lc: u16, text: Seq<char>, f: FormatV) -> SheetV {
    let from = if s.constant_memory { s.floor } else { 0 };
    SheetV {
        cells: merged_range_cells(s.cells, fr, fc, lr, lc, text, f, from),
        col_formats: s.col_formats,
        row_formats: s.row_formats,
        merged: s.merged + range_cells(fr, fc, lr, lc),
        constant_memory: s.constant_memory,
        floor: if s.constant_memory && fr > s.floor { fr } else { s.floor },
    }
}

/// `Worksheet::merge_range`, on a range that shares no cell with an earlier
/// merged range when it is valid (the engine records a range's cells as
/// merged before it checks for an overlap, and a later merge touching such
/// a cell of a refused range panics). It succeeds exactly when the range is
/// valid (`merge_args_ok`) and then merges it as `merged_sheet` says; a
/// refused range changes nothing.
#[verifier::external_body]
pub(crate) fn sheet_merge_range(
    ws: &mut Worksheet,
    first_row: u32,
    first_col: u16,
    last_row: u32,
    last_col: u16,
    s: &str,
    format: &Format,
) -> (r: Result<(), XlsxError>)
    requires
        merge_args_ok(first_row, first_col, last_row, last_col, s@)
            ==> range_cells(first_row, first_col, last_row, last_col).disjoint(sheet_view(*old(ws)).merged),
    ensures
        r is Ok <==> merge_args_ok(first_row, first_col, last_row, last_col, s@),
        r is Ok ==> sheet_view(*final(ws)) == merged_sheet(sheet_view(*old(ws)), first_row, first_col, last_row, last_col, s@,
            format_view(*format)),
        r is Err ==> sheet_view(*final(ws)) == sheet_view(*old(ws)),
        sheet_name(*final(ws)) == sheet_name(*old(ws)),
{
    ws.merge_range(first_row, first_col, last_row, last_col, s, format).map(|_| ())
}

/// `Worksheet::set_column_format`.
#[verifier::external_body]
pub(crate) fn sheet_set_column_format(ws: &mut Worksheet, col: u16, format: &Format) -> (r: Result<
    (),
    XlsxError,
>)
    ensures
        r is Ok <==> col < COL_MAX,
        sheet_name(*final(ws)) == sheet_name(*old(ws)),
        r is Ok ==> sheet_view(*final(ws)) == sheet_with_col_format(sheet_view(*old(ws)), col, format_view(*format)),
        r is Err ==> sheet_view(*final(ws)) == sheet_view(*old(ws)),
{
    ws.set_column_format(col, format).map(|_| ())
}

/// `Worksheet::set_row_format`.
#[verifier::external_body]
pub(crate) fn sheet_set_row_format(ws: &mut Worksheet, row: u32, format: &Format) -> (r: Result<
    (),
    XlsxError,
>)
    ensures
        r is Ok <==> row < ROW_MAX,
        sheet_name(*final(ws)) == sheet_name(*old(ws)),
        r is Ok ==> sheet_view(*final(ws)) == sheet_with_row_format(sheet_view(*old(ws)), row, format_view(*format)),
        r is Err ==> sheet_view(*final(ws)) == sheet_view(*old(ws)),
{
    ws.set_row_format(row, format).map(|_| ())
}

/// `Format::new`: the default format, with an empty number format and
/// without bold. Of a format only these two properties are modelled.
#[verifier::external_body]
pub(crate) fn format_new() -> (r: Format)
    ensures
        format_num_format(r) == Seq::<char>::empty(),
        !format_bold(r),
{
    Format::new()
}

/// `Format::set_num_format`: the same format with the given number format.
#[verifier::external_body]
pub(crate) fn format_set_num_format(format: Format, num_format: &str) -> (r: Format)
    ensures
        format_num_format(r) == num_format@,
        format_bold(r) == format_bold(format),
{
    format.set_num_format(num_format)
}

/// `Format::set_bold`: the same format with bold text.
#[verifier::external_body]
pub(crate) fn format_set_bold(format: Format) -> (r: Format)
    ensures
        format_bold(r),
        format_num_format(r) == format_num_format(format),
{
    format.set_bold()
}

/// `XlsxError::RowColumnLimitError`, the error of a write outside the sheet.
#[verifier::external_body]
pub(crate) fn row_col_limit_error() -> (r: XlsxError) {
    XlsxError::RowColumnLimitError
}

/// A range in A1 notation, "A1:B2", or one cell's name when the corners
/// are the same cell.
pub open spec fn range_text(fr: u32, fc: u16, lr: u32, lc: u16) -> Seq<char> {
    if fr == lr && fc == lc {
        crate::read::spec_idx_to_addr(fr as nat, fc as nat)
    } else {
        crate::read::spec_idx_to_addr(fr as nat, fc as nat) + ":"@ + crate::read::spec_idx_to_addr(lr as nat, lc as nat)
    }
}

/// `utility::cell_range`: the range in A1 notation (`range_text`).
#[verifier::external_body]
pub(crate) fn cell_range_text(first_row: u32, first_col: u16, last_row: u32, last_col: u16) -> (r: String)
    requires
        in_sheet(first_row, first_col),
        in_sheet(last_row, last_col),
    ensures
        r@ == range_text(first_row, first_col, last_row, last_col),
{
    rust_xlsxwriter::utility::cell_range(first_row, first_col, last_row, last_col)
}

/// `XlsxError::MergeRangeOverlaps`, the error of a merge range that
/// overlaps an earlier one, from the two ranges' descriptions.
#[verifier::external_body]
pub(crate) fn merge_overlap_error(current: String, previous: String) -> (r: XlsxError) {
    XlsxError::MergeRangeOverlaps(current, previous)
}

/// The message of an engine error (its `Display`); the text is not stated.
#[verifier::external_body]
pub(crate) fn xlsx_error_message(e: &XlsxError) -> (r: String) {
    e.to_string()
}

} // verus!
