use fastxlsxio::error::XioError;
use fastxlsxio::pyvalue::{DateParts, PyValue, SeqItem, TimeParts};
use fastxlsxio::write::{DateTimeValue, ExcelCell, XIOFormat, XIOWorkbook};

fn float(x: f64) -> PyValue {
    PyValue::Float { bits: x.to_bits(), exact: true, text: String::new() }
}

fn int_of(v: i64) -> PyValue {
    PyValue::Int { value: Some(v), exact: true, float_bits: Some((v as f64).to_bits()), text: v.to_string() }
}

fn string(s: &str) -> PyValue {
    PyValue::Str { text: s.to_string(), exact: true }
}

#[test]
fn plain_conversion() {
    assert!(matches!(ExcelCell::from_py(&string("a")).unwrap(), ExcelCell::String(s) if s == "a"));
    assert!(matches!(ExcelCell::from_py(&PyValue::Str { text: "b".to_string(), exact: false }).unwrap(), ExcelCell::String(s) if s == "b"));
    assert!(matches!(ExcelCell::from_py(&PyValue::NoneValue).unwrap(), ExcelCell::Blank));
    let sub = PyValue::Float { bits: 0.5f64.to_bits(), exact: false, text: "x".to_string() };
    assert!(matches!(ExcelCell::from_py(&sub).unwrap(), ExcelCell::Float(b) if b == 0.5f64.to_bits()));
    assert!(matches!(ExcelCell::from_py(&int_of(3)).unwrap(), ExcelCell::Int(3)));
    let d = PyValue::Date { parts: DateParts { year: 2021, month: 3, day: 4 }, exact: true };
    assert!(matches!(ExcelCell::from_py(&d).unwrap(), ExcelCell::DateTime(DateTimeValue::Date(_))));
    let t = PyValue::Time { parts: TimeParts { hour: 3, minute: 4, second: 5 }, exact: true };
    assert!(matches!(ExcelCell::from_py(&t).unwrap(), ExcelCell::DateTime(DateTimeValue::Time(_))));
}

#[test]
fn unsupported_types_are_refused() {
    let list = PyValue::Sequence { items: vec![SeqItem::Int(Some(1))], class_name: "list".to_string() };
    match ExcelCell::from_py(&list) {
        Err(XioError::Value(m)) => assert_eq!(m, "Unsupported type for Excel export: list"),
        other => panic!("unexpected {:?}", other),
    }
    let obj = PyValue::Other { text: "o".to_string(), class_name: "Widget".to_string(), index: None, float_bits: None };
    match ExcelCell::from_py(&obj) {
        Err(XioError::Value(m)) => assert_eq!(m, "Unsupported type for Excel export: Widget"),
        other => panic!("unexpected {:?}", other),
    }
}

#[test]
fn speculative_float_hint_reads_integers_as_floats() {
    let c = ExcelCell::from_py_speculative(&int_of(7), &ExcelCell::Float(0)).unwrap();
    assert!(matches!(c, ExcelCell::Float(b) if b == 7.0f64.to_bits()));
    let obj = PyValue::Other { text: "f".to_string(), class_name: "Fraction".to_string(), index: None, float_bits: Some(0.25f64.to_bits()) };
    assert!(matches!(ExcelCell::from_py_speculative(&obj, &ExcelCell::Float(0)).unwrap(), ExcelCell::Float(b) if b == 0.25f64.to_bits()));
    // a bool is never read as a float
    assert!(matches!(ExcelCell::from_py_speculative(&PyValue::Bool(true), &ExcelCell::Float(0)).unwrap(), ExcelCell::Bool(true)));
}

#[test]
fn speculative_int_hint_reads_index_values() {
    let obj = PyValue::Other { text: "n".to_string(), class_name: "int64".to_string(), index: Some(12), float_bits: Some(12.0f64.to_bits()) };
    assert!(matches!(ExcelCell::from_py_speculative(&obj, &ExcelCell::Int(0)).unwrap(), ExcelCell::Int(12)));
    // an index value too large for the cell integer is read as without a hint, and refused
    let big = PyValue::Other { text: "n".to_string(), class_name: "int64".to_string(), index: Some(1 << 40), float_bits: None };
    assert!(matches!(ExcelCell::from_py_speculative(&big, &ExcelCell::Int(0)), Err(XioError::Value(_))));
}

#[test]
fn speculative_other_hints_fall_back() {
    assert!(matches!(ExcelCell::from_py_speculative(&PyValue::NoneValue, &ExcelCell::Int(1)).unwrap(), ExcelCell::Blank));
    assert!(matches!(ExcelCell::from_py_speculative(&string("s"), &ExcelCell::Int(1)).unwrap(), ExcelCell::String(_)));
    assert!(matches!(ExcelCell::from_py_speculative(&int_of(5), &ExcelCell::Blank).unwrap(), ExcelCell::Int(5)));
}

#[test]
fn worksheet_with_a_bad_name_is_not_kept() {
    let mut book = XIOWorkbook::new(None);
    match book.add_worksheet("a:b", false) {
        Err(XioError::Value(_)) => {},
        other => panic!("unexpected {:?}", other),
    }
    let ws = book.add_worksheet("Good", false).unwrap();
    assert_eq!(ws.index, 1);
    assert_eq!(book.sheetnames(), vec!["Good".to_string()]);
    assert_eq!(book.repr(), "<XIOWorkbook(sheetnames=[\"Sheet1\", \"Good\"])>");
    assert_eq!(book.get_by_idx(0).unwrap(), ws);
    assert_eq!(book.get_by_name("Good").unwrap(), ws);
    assert!(book.get_by_name("Sheet1").is_err());
    assert_eq!(ws.repr(&mut book), "<XIOWorksheet \"Good\">");
}

#[test]
fn plain_writes() {
    let mut book = XIOWorkbook::new(Some("a.xlsx".to_string()));
    let ws = book.add_worksheet("S", false).unwrap();
    assert!(!ws.constant_memory());
    assert_eq!(ws.write_cell(&mut book, 0, 0, &float(1.25), None).unwrap().unwrap().bits, 1.25f64.to_bits());
    let f = XIOFormat { num_format: "0".to_string(), bold: true };
    let (pending, r) = ws.write_row(&mut book, 1, 0, &vec![int_of(1), float(2.0)], Some(&vec![Some(f)]));
    assert!(r.is_ok());
    assert_eq!((pending[0].row, pending[0].col), (1, 1));
    assert!(pending[0].format.is_none());
    assert_eq!(book.save_path(None).unwrap(), "a.xlsx");
}

#[test]
fn column_guided_by_its_first_value() {
    let mut book = XIOWorkbook::new(None);
    let ws = book.add_worksheet("S", false).unwrap();
    let (pending, r) = ws.write_column(&mut book, 0, 0, &vec![float(1.0), PyValue::NoneValue, int_of(3)], None);
    assert!(r.is_ok());
    // the integer under a float column becomes a float
    assert_eq!(pending.iter().map(|p| (p.row, p.bits)).collect::<Vec<_>>(), vec![(0, 1.0f64.to_bits()), (2, 3.0f64.to_bits())]);
    let mem = book.add_worksheet("M", true).unwrap();
    let (_, r) = mem.write_column(&mut book, 0, 0, &vec![float(1.0)], None);
    assert!(matches!(r, Err(XioError::Runtime(_))));
}

#[test]
fn rows_guided_by_the_first_row() {
    let mut book = XIOWorkbook::new(None);
    let ws = book.add_worksheet("S", false).unwrap();
    let rows = vec![vec![float(1.0), string("h")], vec![int_of(2), string("x")], vec![string("y"), int_of(4)]];
    let (pending, r) = ws.write_rows(&mut book, 0, 0, &rows, None, 0);
    assert_eq!(r.unwrap(), Some(1));
    assert_eq!(pending.len(), 1);
    let (pending, r) = ws.write_rows(&mut book, 0, 0, &rows, None, 1);
    assert_eq!(r.unwrap(), Some(2));
    assert_eq!((pending[0].row, pending[0].bits), (1, 2.0f64.to_bits()));
    let (pending, r) = ws.write_rows(&mut book, 0, 0, &rows, None, 2);
    assert_eq!(r.unwrap(), None);
    assert!(pending.is_empty());
}

#[test]
fn plain_merge_range() {
    let mut book = XIOWorkbook::new(None);
    let ws = book.add_worksheet("S", false).unwrap();
    assert!(ws.merge_range(&mut book, 0, 0, 0, 1, "m", None).is_ok());
    assert!(ws.merge_range(&mut book, 2, 2, 2, 2, "m", None).is_err());
}

#[test]
fn plain_merge_refuses_overlap_without_a_trace() {
    let mut book = XIOWorkbook::new(None);
    let ws = book.add_worksheet("S", false).unwrap();
    assert!(ws.merge_range(&mut book, 1, 0, 1, 1, "a", None).is_ok());
    match ws.merge_range(&mut book, 0, 0, 1, 0, "b", None) {
        Err(XioError::Value(m)) => assert_eq!(
            m,
            "Merge range (0, 0, 1, 0) / A1:A2 overlaps with previous merge range (1, 0, 1, 1) / A2:B2."
        ),
        other => panic!("unexpected {:?}", other),
    }
    assert!(ws.merge_range(&mut book, 0, 0, 0, 1, "c", None).is_ok());
}
