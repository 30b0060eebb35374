use fastxlsxio::error::XioError;
use fastxlsxio::pyvalue::{PropValue, PyValue};
use fastxlsxio::write::writer::{ColTypeHint, XIOFormat, XIOWOptions, XIOWWorkbook};

fn standard() -> XIOWOptions {
    XIOWOptions::new(Some(false), None, None, None).unwrap()
}

fn int_value(v: i64) -> PyValue {
    PyValue::Int { value: Some(v), exact: true, float_bits: Some((v as f64).to_bits()), text: v.to_string() }
}

fn float(x: f64) -> PyValue {
    PyValue::Float { bits: x.to_bits(), exact: true, text: String::new() }
}

fn string(s: &str) -> PyValue {
    PyValue::Str { text: s.to_string(), exact: true }
}

#[test]
fn new_workbook_has_defaults() {
    let book = XIOWWorkbook::new(Some("out.xlsx".to_string()), None);
    assert_eq!(book.options(), XIOWOptions::default());
    assert_eq!(book.save_path(None).unwrap(), "out.xlsx");
    assert_eq!(book.save_path(Some("other.xlsx".to_string())).unwrap(), "other.xlsx");
}

#[test]
fn save_needs_a_path() {
    let book = XIOWWorkbook::new(None, Some(standard()));
    match book.save_path(None) {
        Err(XioError::Value(m)) => assert_eq!(m, "Expected provided path or inited filepath. Got nothing."),
        other => panic!("unexpected {:?}", other),
    }
}

#[test]
fn worksheets_are_named_in_order() {
    let mut book = XIOWWorkbook::new(None, Some(standard()));
    let a = book.add_worksheet("Data", None).unwrap();
    let b = book.add_worksheet("bad/name", None).unwrap();
    let c = book.add_worksheet("Totals", None).unwrap();
    assert_eq!(a.index, 0);
    assert_eq!(b.index, 1);
    assert_eq!(c.index, 2);
    assert_eq!(book.sheetnames(), vec!["Data".to_string(), "Sheet2".to_string(), "Totals".to_string()]);
    assert_eq!(a.name(&mut book), "Data");
    assert_eq!(b.name(&mut book), "Sheet2");
    assert_eq!(book.repr(), "<XIOWWorkbook(sheetnames=[\"Data\", \"Sheet2\", \"Totals\"])>");
    assert_eq!(a.repr(&mut book), "<XIOWWorksheet \"Data\">");
}

#[test]
fn empty_workbook_repr() {
    let mut book = XIOWWorkbook::new(None, None);
    assert_eq!(book.repr(), "<XIOWWorkbook(sheetnames=[])>");
    assert!(book.sheetnames().is_empty());
}

#[test]
fn worksheet_lookup() {
    let mut book = XIOWWorkbook::new(None, Some(standard()));
    book.add_worksheet("One", None).unwrap();
    book.add_worksheet("Two", None).unwrap();
    assert_eq!(book.get_by_idx(1).unwrap().index, 1);
    match book.get_by_idx(5) {
        Err(XioError::Value(m)) => assert_eq!(m, "Worksheet at index 5 not found"),
        other => panic!("unexpected {:?}", other),
    }
    assert_eq!(book.get_by_name("Two").unwrap().index, 1);
    match book.get_by_name("Three") {
        Err(XioError::Value(m)) => assert_eq!(m, "Worksheet 'Three' not found"),
        other => panic!("unexpected {:?}", other),
    }
}

#[test]
fn worksheet_options_come_from_the_workbook_unless_given() {
    let mut book = XIOWWorkbook::new(None, Some(standard()));
    let a = book.add_worksheet("A", None).unwrap();
    let mem = XIOWOptions::new(Some(true), None, None, None).unwrap();
    let b = book.add_worksheet("B", Some(mem)).unwrap();
    assert!(!a.constant_memory(&book));
    assert!(b.constant_memory(&book));
    assert_eq!(b.options(&book), mem);
}

#[test]
fn binding_a_format_to_a_placeholder_is_refused() {
    let mut book = XIOWWorkbook::new(None, None);
    let props = vec![(PropValue::Str("bold".to_string()), PropValue::Bool(true))];
    match book.add_format(&props, Some(ColTypeHint::Dynamic)) {
        Err(XioError::Value(m)) => assert_eq!(m, "Cannot bind a format to ColTypeHint.Unknown or ColTypeHint.Dynamic — they're internal placeholders, not real cell types"),
        other => panic!("unexpected {:?}", other),
    }
    assert!(book.add_format(&props, Some(ColTypeHint::Unknown)).is_err());
    let f = book.add_format(&props, Some(ColTypeHint::Int)).unwrap();
    assert!(f.bold);
}

#[test]
fn writing_cells() {
    let mut book = XIOWWorkbook::new(None, Some(standard()));
    let ws = book.add_worksheet("S", None).unwrap();
    assert!(ws.write_cell(&mut book, 0, 0, &int_value(5), None).unwrap().is_none());
    assert!(ws.write_cell(&mut book, 1, 0, &string("text"), None).unwrap().is_none());
    let pending = ws.write_cell(&mut book, 2, 0, &float(2.5), None).unwrap().unwrap();
    assert_eq!((pending.row, pending.col, pending.bits), (2, 0, 2.5f64.to_bits()));
    assert!(pending.format.is_none());
}

#[test]
fn writing_outside_the_sheet_fails() {
    let mut book = XIOWWorkbook::new(None, Some(standard()));
    let ws = book.add_worksheet("S", None).unwrap();
    assert!(matches!(ws.write_cell(&mut book, 1_048_576, 0, &int_value(1), None), Err(XioError::Value(_))));
    assert!(matches!(ws.write_cell(&mut book, 0, 16_384, &float(1.0), None), Err(XioError::Value(_))));
    // unformatted blanks and empty strings are not written, so they cannot fail
    assert!(ws.write_cell(&mut book, 0, 16_384, &PyValue::NoneValue, None).is_ok());
    assert!(ws.write_cell(&mut book, 0, 16_384, &string(""), None).is_ok());
}

#[test]
fn long_strings_are_refused() {
    let mut book = XIOWWorkbook::new(None, Some(standard()));
    let ws = book.add_worksheet("S", None).unwrap();
    let long = "x".repeat(32_768);
    assert!(matches!(ws.write_cell(&mut book, 0, 0, &string(&long), None), Err(XioError::Value(_))));
    let ok = "x".repeat(32_767);
    assert!(ws.write_cell(&mut book, 0, 0, &string(&ok), None).is_ok());
}

#[test]
fn bound_format_goes_with_floats_of_that_type() {
    let mut book = XIOWWorkbook::new(None, Some(standard()));
    let props = vec![(PropValue::Str("num_format".to_string()), PropValue::Str("0.000".to_string()))];
    book.add_format(&props, Some(ColTypeHint::Float)).unwrap();
    let ws = book.add_worksheet("S", None).unwrap();
    // first float in the column: the column format is set, the cell carries it
    let p = ws.write_cell(&mut book, 0, 3, &float(1.0), None).unwrap().unwrap();
    assert_eq!(p.format.unwrap().num_format, "0.000");
    // second float in the column: the cached column format applies
    let p = ws.write_cell(&mut book, 1, 3, &float(2.0), None).unwrap().unwrap();
    assert!(p.format.is_none());
}

#[test]
fn write_row_returns_floats_and_stops_at_failure() {
    let mut book = XIOWWorkbook::new(None, Some(standard()));
    let ws = book.add_worksheet("S", None).unwrap();
    let values = vec![int_value(1), float(0.5), string("a"), float(1.5)];
    let (pending, r) = ws.write_row(&mut book, 4, 2, &values, None);
    assert!(r.is_ok());
    assert_eq!(pending.iter().map(|p| (p.row, p.col)).collect::<Vec<_>>(), vec![(4, 3), (4, 5)]);

    let values = vec![float(0.5), PyValue::Int { value: Some(1 << 40), exact: true, float_bits: None, text: String::new() }, float(9.0)];
    let (pending, r) = ws.write_row(&mut book, 5, 0, &values, None);
    assert!(matches!(r, Err(XioError::Overflow(_))));
    assert_eq!(pending.len(), 1);
}

#[test]
fn write_row_uses_formats_by_position() {
    let mut book = XIOWWorkbook::new(None, Some(XIOWOptions::new(Some(false), Some(false), None, None).unwrap()));
    let ws = book.add_worksheet("S", None).unwrap();
    let formats = vec![None, Some(XIOFormat { num_format: "0%".to_string(), bold: false })];
    let (pending, r) = ws.write_row(&mut book, 0, 0, &vec![float(0.1), float(0.2), float(0.3)], Some(&formats));
    assert!(r.is_ok());
    assert!(pending[0].format.is_none());
    assert_eq!(pending[1].format.as_ref().unwrap().num_format, "0%");
    assert!(pending[2].format.is_none());
}

#[test]
fn write_rows_pauses_after_rows_with_floats() {
    let mut book = XIOWWorkbook::new(None, Some(standard()));
    let ws = book.add_worksheet("S", None).unwrap();
    let rows = vec![vec![int_value(1), int_value(2)], vec![int_value(3), float(4.0)], vec![string("x")], vec![float(5.0)]];
    let (pending, r) = ws.write_rows(&mut book, 0, 0, &rows, None, 0);
    assert_eq!(r.unwrap(), Some(2));
    assert_eq!(pending.len(), 1);
    assert_eq!((pending[0].row, pending[0].col), (1, 1));
    let (pending, r) = ws.write_rows(&mut book, 0, 0, &rows, None, 2);
    assert_eq!(r.unwrap(), None);
    assert_eq!((pending[0].row, pending[0].col), (3, 0));
}

#[test]
fn write_column_checks_mode_and_format() {
    let mut book = XIOWWorkbook::new(None, None);
    let ws = book.add_worksheet("Mem", None).unwrap();
    let (_, r) = ws.write_column(&mut book, 0, 0, &vec![int_value(1)], None);
    match r {
        Err(XioError::Runtime(m)) => assert_eq!(m, "Cannot write columnar data in constant_memory worksheet mode"),
        other => panic!("unexpected {:?}", other),
    }
    let mut book = XIOWWorkbook::new(None, Some(standard()));
    let ws = book.add_worksheet("Std", None).unwrap();
    let f = XIOFormat { num_format: String::new(), bold: true };
    let (_, r) = ws.write_column(&mut book, 0, 0, &vec![int_value(1)], Some(&f));
    match r {
        Err(XioError::Value(m)) => assert_eq!(m, "Formatted write not supported for write_column"),
        other => panic!("unexpected {:?}", other),
    }
    let (pending, r) = ws.write_column(&mut book, 10, 1, &vec![float(1.0), int_value(2), float(3.0)], None);
    assert!(r.is_ok());
    assert_eq!(pending.iter().map(|p| (p.row, p.col)).collect::<Vec<_>>(), vec![(10, 1), (12, 1)]);
}

#[test]
fn merge_range_checks_the_range() {
    let mut book = XIOWWorkbook::new(None, Some(standard()));
    let ws = book.add_worksheet("S", None).unwrap();
    assert!(ws.merge_range(&mut book, 0, 0, 1, 3, "title", None).is_ok());
    assert!(matches!(ws.merge_range(&mut book, 5, 5, 5, 5, "one cell", None), Err(XioError::Value(_))));
    assert!(matches!(ws.merge_range(&mut book, 6, 5, 5, 6, "reversed", None), Err(XioError::Value(_))));
    assert!(matches!(ws.merge_range(&mut book, 0, 1, 2, 2, "overlap", None), Err(XioError::Value(_))));
}

#[test]
fn column_and_row_formats() {
    let mut book = XIOWWorkbook::new(None, Some(standard()));
    let ws = book.add_worksheet("S", None).unwrap();
    let f = XIOFormat { num_format: "0".to_string(), bold: false };
    assert!(ws.set_column_format(&mut book, 3, &f).is_ok());
    assert!(matches!(ws.set_column_format(&mut book, 16_384, &f), Err(XioError::Value(_))));
    assert!(ws.set_row_format(&mut book, 3, &f).is_ok());
    assert!(matches!(ws.set_row_format(&mut book, 1_048_576, &f), Err(XioError::Value(_))));
    // after an explicit column format, writing the same format again is left to the column
    let p = ws.write_cell(&mut book, 0, 3, &float(1.0), Some(&f)).unwrap().unwrap();
    assert!(p.format.is_none());
}

#[test]
fn constant_memory_sheet_can_be_added() {
    let mut book = XIOWWorkbook::new(None, None);
    let ws = book.add_worksheet("Fast", None).unwrap();
    assert!(ws.constant_memory(&book));
    assert_eq!(ws.name(&mut book), "Fast");
    assert!(ws.write_cell(&mut book, 0, 0, &int_value(1), None).is_ok());
}

#[test]
fn write_row_past_the_last_column_stops_at_the_edge() {
    let mut book = XIOWWorkbook::new(None, Some(standard()));
    let ws = book.add_worksheet("Edge", None).unwrap();
    let values = vec![int_value(1), int_value(2), int_value(3)];
    let (pending, res) = ws.write_row(&mut book, 0, 16383, &values, None);
    assert!(pending.is_empty());
    assert!(matches!(res, Err(XioError::Value(_))));
}

#[test]
fn write_column_past_the_last_row_stops_at_the_edge() {
    let mut book = XIOWWorkbook::new(None, Some(standard()));
    let ws = book.add_worksheet("Edge", None).unwrap();
    let values = vec![int_value(1), int_value(2)];
    let (pending, res) = ws.write_column(&mut book, 1048575, 0, &values, None);
    assert!(pending.is_empty());
    assert!(matches!(res, Err(XioError::Value(_))));
}

#[test]
fn blanks_run_past_the_end_of_the_column_numbers() {
    let mut book = XIOWWorkbook::new(None, Some(standard()));
    let ws = book.add_worksheet("Blanks", None).unwrap();
    let values = vec![PyValue::NoneValue, PyValue::NoneValue, PyValue::NoneValue];
    let (pending, res) = ws.write_row(&mut book, 0, u16::MAX, &values, None);
    assert!(pending.is_empty());
    assert!(res.is_ok());
}

#[test]
fn merge_ranges_side_by_side() {
    let mut book = XIOWWorkbook::new(None, Some(standard()));
    let ws = book.add_worksheet("Merged", None).unwrap();
    assert!(ws.merge_range(&mut book, 0, 0, 0, 1, "a", None).is_ok());
    assert!(ws.merge_range(&mut book, 0, 2, 0, 3, "b", None).is_ok());
    assert!(ws.merge_range(&mut book, 1, 0, 1, 3, "", None).is_ok());
    assert!(matches!(ws.merge_range(&mut book, 0, 3, 1, 4, "c", None), Err(XioError::Value(_))));
}

#[test]
fn a_refused_overlapping_merge_leaves_no_trace() {
    let mut book = XIOWWorkbook::new(None, Some(standard()));
    let ws = book.add_worksheet("Merged", None).unwrap();
    assert!(ws.merge_range(&mut book, 1, 0, 1, 1, "a", None).is_ok());
    assert!(matches!(ws.merge_range(&mut book, 0, 0, 1, 0, "b", None), Err(XioError::Value(_))));
    assert!(ws.merge_range(&mut book, 0, 0, 0, 1, "c", None).is_ok());
}

#[test]
fn overlapping_merge_message_names_both_ranges() {
    let mut book = XIOWWorkbook::new(None, Some(standard()));
    let ws = book.add_worksheet("Merged", None).unwrap();
    assert!(ws.merge_range(&mut book, 0, 0, 1, 3, "title", None).is_ok());
    match ws.merge_range(&mut book, 0, 1, 2, 2, "overlap", None) {
        Err(XioError::Value(m)) => assert_eq!(
            m,
            "Merge range (0, 1, 2, 2) / B1:C3 overlaps with previous merge range (0, 0, 1, 3) / A1:D2."
        ),
        other => panic!("unexpected {:?}", other),
    }
}

#[test]
fn merging_on_a_constant_memory_sheet() {
    let mut book = XIOWWorkbook::new(None, None);
    let ws = book.add_worksheet("Merged", None).unwrap();
    assert!(ws.merge_range(&mut book, 2, 0, 3, 2, "x", None).is_ok());
    assert!(matches!(ws.merge_range(&mut book, 3, 2, 4, 3, "y", None), Err(XioError::Value(_))));
    assert!(ws.merge_range(&mut book, 5, 0, 5, 1, "z", None).is_ok());
}
