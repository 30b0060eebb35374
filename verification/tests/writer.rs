use fastxlsxio::error::XioError;
use fastxlsxio::pyvalue::{DateParts, DateTimeParts, PropValue, PyValue, SeqItem, TimeParts};
use fastxlsxio::write::writer::{resolve_format_cache, ColTypeHint, ExcelCell, XIOFormat, XIOWOptions};

fn exact_float(x: f64) -> PyValue {
    PyValue::Float { bits: x.to_bits(), exact: true, text: String::new() }
}

fn exact_int(v: i64) -> PyValue {
    PyValue::Int { value: Some(v), exact: true, float_bits: Some((v as f64).to_bits()), text: v.to_string() }
}

fn exact_str(s: &str) -> PyValue {
    PyValue::Str { text: s.to_string(), exact: true }
}

fn date(y: u16, m: u8, d: u8) -> DateParts {
    DateParts { year: y, month: m, day: d }
}

fn cell_of(v: &PyValue) -> ExcelCell {
    ExcelCell::from_py(v).unwrap()
}

fn text_of(c: &ExcelCell) -> String {
    match c {
        ExcelCell::String(s) | ExcelCell::Sequence(s) => s.clone(),
        other => panic!("not text: {:?}", other),
    }
}

#[test]
fn exact_builtins_become_their_cells() {
    assert!(matches!(cell_of(&exact_float(1.5)), ExcelCell::Float(b) if b == 1.5f64.to_bits()));
    assert!(matches!(cell_of(&exact_int(42)), ExcelCell::Int(42)));
    assert!(matches!(cell_of(&exact_int(-2147483648)), ExcelCell::Int(-2147483648)));
    assert_eq!(text_of(&cell_of(&exact_str("héllo"))), "héllo");
    assert!(matches!(cell_of(&PyValue::NoneValue), ExcelCell::Blank));
    assert!(matches!(cell_of(&PyValue::Bool(true)), ExcelCell::Bool(true)));
    assert!(matches!(cell_of(&PyValue::Decimal { bits: 2.25f64.to_bits() }), ExcelCell::Float(b) if b == 2.25f64.to_bits()));
}

#[test]
fn subclass_values_fall_back_to_text() {
    let f = PyValue::Float { bits: 1.0f64.to_bits(), exact: false, text: "MyFloat(1.0)".to_string() };
    assert!(matches!(cell_of(&f), ExcelCell::String(s) if s == "MyFloat(1.0)"));
    let i = PyValue::Int { value: Some(3), exact: false, float_bits: None, text: "Color.RED".to_string() };
    assert!(matches!(cell_of(&i), ExcelCell::String(s) if s == "Color.RED"));
    let o = PyValue::Other { text: "<object>".to_string(), class_name: "object".to_string(), index: None, float_bits: None };
    assert!(matches!(cell_of(&o), ExcelCell::String(s) if s == "<object>"));
}

#[test]
fn str_subclass_is_written_as_a_sequence_of_characters() {
    let s = PyValue::Str { text: "abc".to_string(), exact: false };
    assert!(matches!(cell_of(&s), ExcelCell::Sequence(t) if t == "a, b, c"));
    let e = PyValue::Str { text: String::new(), exact: false };
    assert!(matches!(cell_of(&e), ExcelCell::Sequence(t) if t.is_empty()));
}

#[test]
fn sequences_become_joined_text() {
    let v = PyValue::Sequence {
        items: vec![SeqItem::Int(Some(1)), SeqItem::Missing, SeqItem::Bool(false), SeqItem::Text("0.333".to_string())],
        class_name: "list".to_string(),
    };
    assert!(matches!(cell_of(&v), ExcelCell::Sequence(t) if t == "1, , Нет, 0.333"));
}

#[test]
fn integers_outside_i32_overflow() {
    match ExcelCell::from_py(&exact_int(2_147_483_648)) {
        Err(XioError::Overflow(m)) => assert_eq!(m, "out of range integral type conversion attempted"),
        other => panic!("unexpected {:?}", other),
    }
    let huge = PyValue::Int { value: None, exact: true, float_bits: None, text: "1".repeat(30) };
    match ExcelCell::from_py(&huge) {
        Err(XioError::Overflow(m)) => assert_eq!(m, "Python int too large to convert to C long"),
        other => panic!("unexpected {:?}", other),
    }
}

#[test]
fn dates_and_times_are_checked() {
    let d = PyValue::Date { parts: date(2024, 5, 17), exact: true };
    assert!(matches!(cell_of(&d), ExcelCell::Date(p) if p == date(2024, 5, 17)));
    let bad = PyValue::Date { parts: date(1800, 1, 1), exact: true };
    assert!(matches!(ExcelCell::from_py(&bad), Err(XioError::Value(_))));
    let t = PyValue::Time { parts: TimeParts { hour: 8, minute: 0, second: 1 }, exact: false };
    assert!(matches!(cell_of(&t), ExcelCell::Time(_)));
    let dt = PyValue::DateTime { parts: DateTimeParts { date: date(2000, 1, 1), time: TimeParts { hour: 0, minute: 0, second: 0 } }, exact: true };
    assert!(matches!(cell_of(&dt), ExcelCell::DateTime(_)));
}

#[test]
fn hint_index_and_count() {
    assert_eq!(ColTypeHint::COUNT, 11);
    assert_eq!(ColTypeHint::Float.as_index(), 0);
    assert_eq!(ColTypeHint::Blank.as_index(), 4);
    assert_eq!(ColTypeHint::Dynamic.as_index(), 10);
    assert_eq!(ColTypeHint::from_excel_cell(&ExcelCell::Int(1)), ColTypeHint::Int);
    assert_eq!(ColTypeHint::from_excel_cell(&ExcelCell::Sequence(String::new())), ColTypeHint::Sequence);
    assert_eq!(ColTypeHint::from_excel_cell(&ExcelCell::Blank), ColTypeHint::Blank);
}

#[test]
fn matching_value_keeps_the_hint() {
    let (c, h) = ExcelCell::from_py_hinted(&exact_int(7), Some(ColTypeHint::Int)).unwrap();
    assert!(matches!(c, ExcelCell::Int(7)));
    assert_eq!(h, ColTypeHint::Int);
    let (c, h) = ExcelCell::from_py_hinted(&exact_str("x"), Some(ColTypeHint::String)).unwrap();
    assert_eq!(text_of(&c), "x");
    assert_eq!(h, ColTypeHint::String);
}

#[test]
fn other_value_under_a_fast_hint_makes_the_column_dynamic() {
    let (c, h) = ExcelCell::from_py_hinted(&PyValue::Bool(true), Some(ColTypeHint::Int)).unwrap();
    assert!(matches!(c, ExcelCell::Bool(true)));
    assert_eq!(h, ColTypeHint::Dynamic);
    let dt = PyValue::DateTime { parts: DateTimeParts { date: date(2000, 1, 1), time: TimeParts { hour: 1, minute: 2, second: 3 } }, exact: true };
    let (c, h) = ExcelCell::from_py_hinted(&dt, Some(ColTypeHint::Date)).unwrap();
    assert!(matches!(c, ExcelCell::DateTime(_)));
    assert_eq!(h, ColTypeHint::Dynamic);
}

#[test]
fn dynamic_column_stays_dynamic() {
    for v in [exact_int(1), PyValue::NoneValue, exact_str("s"), exact_float(0.5)] {
        let (_, h) = ExcelCell::from_py_hinted(&v, Some(ColTypeHint::Dynamic)).unwrap();
        assert_eq!(h, ColTypeHint::Dynamic);
    }
}

#[test]
fn none_resets_a_hint_to_blank() {
    let (c, h) = ExcelCell::from_py_hinted(&PyValue::NoneValue, Some(ColTypeHint::Float)).unwrap();
    assert!(matches!(c, ExcelCell::Blank));
    assert_eq!(h, ColTypeHint::Blank);
}

#[test]
fn no_or_slow_hint_takes_the_cell_type() {
    let (c, h) = ExcelCell::from_py_hinted(&exact_float(2.0), None).unwrap();
    assert!(matches!(c, ExcelCell::Float(_)));
    assert_eq!(h, ColTypeHint::Float);
    let (_, h) = ExcelCell::from_py_hinted(&exact_int(2), Some(ColTypeHint::Unknown)).unwrap();
    assert_eq!(h, ColTypeHint::Int);
    let (_, h) = ExcelCell::from_py_hinted(&exact_int(2), Some(ColTypeHint::Sequence)).unwrap();
    assert_eq!(h, ColTypeHint::Int);
}

#[test]
fn hinted_conversion_fails_like_plain_conversion() {
    assert!(matches!(ExcelCell::from_py_hinted(&exact_int(1 << 40), Some(ColTypeHint::Int)), Err(XioError::Overflow(_))));
    assert!(matches!(ExcelCell::from_py_hinted(&exact_int(1 << 40), Some(ColTypeHint::Float)), Err(XioError::Overflow(_))));
}

#[test]
fn hint_never_changes_the_cell() {
    let values = vec![
        exact_float(3.25),
        exact_int(-9),
        exact_str("t"),
        PyValue::NoneValue,
        PyValue::Bool(false),
        PyValue::Date { parts: date(2020, 2, 2), exact: true },
        PyValue::Str { text: "xy".to_string(), exact: false },
    ];
    let hints = [None, Some(ColTypeHint::Float), Some(ColTypeHint::Int), Some(ColTypeHint::String), Some(ColTypeHint::Bool),
        Some(ColTypeHint::Date), Some(ColTypeHint::Unknown), Some(ColTypeHint::Dynamic), Some(ColTypeHint::Blank)];
    for v in &values {
        let plain = format!("{:?}", ExcelCell::from_py(v).unwrap());
        for h in hints {
            let (c, _) = ExcelCell::from_py_hinted(v, h).unwrap();
            assert_eq!(format!("{:?}", c), plain);
        }
    }
}

#[test]
fn options_default_and_overrides() {
    let o = XIOWOptions::new(None, None, None, None).unwrap();
    assert_eq!(o, XIOWOptions { constant_memory: true, cache_col_formats: true, cache_row_formats: false, cache_typehints_write_optimization: true });
    assert_eq!(XIOWOptions::default(), o);
    let o = XIOWOptions::new(Some(false), Some(false), Some(true), Some(false)).unwrap();
    assert_eq!(o, XIOWOptions { constant_memory: false, cache_col_formats: false, cache_row_formats: true, cache_typehints_write_optimization: false });
}

#[test]
fn options_refuse_both_caches() {
    match XIOWOptions::new(None, None, Some(true), None) {
        Err(XioError::Value(m)) => assert_eq!(m, "Recommended to not use both of caches. Col cache is prioritized in branching even if both enabled"),
        other => panic!("unexpected {:?}", other),
    }
}

#[test]
fn options_repr() {
    let o = XIOWOptions::new(Some(false), None, None, None).unwrap();
    assert_eq!(o.repr(), "XIOWOptions(constant_memory=false, cache_col_formats=true, cache_row_formats=false, cache_typehints_write_optimization=true)");
}

fn key(s: &str) -> PropValue {
    PropValue::Str(s.to_string())
}

#[test]
fn format_from_properties() {
    let f = XIOFormat::from_properties(&vec![(key("num_format"), key("0.00")), (key("bold"), PropValue::Bool(true))]).unwrap();
    assert_eq!(f.num_format, "0.00");
    assert!(f.bold);
    let f = XIOFormat::from_properties(&vec![]).unwrap();
    assert_eq!(f.num_format, "");
    assert!(!f.bold);
}

#[test]
fn format_bold_false_is_not_implemented() {
    match XIOFormat::from_properties(&vec![(key("bold"), PropValue::Bool(false))]) {
        Err(XioError::Runtime(m)) => assert_eq!(m, "Set format by bold is not implemented"),
        other => panic!("unexpected {:?}", other),
    }
}

#[test]
fn format_unknown_property_is_not_implemented() {
    match XIOFormat::from_properties(&vec![(key("num_format"), key("0")), (key("italic"), PropValue::Bool(true))]) {
        Err(XioError::Runtime(m)) => assert_eq!(m, "Set format by italic is not implemented"),
        other => panic!("unexpected {:?}", other),
    }
}

#[test]
fn format_wrong_types() {
    match XIOFormat::from_properties(&vec![(PropValue::Other("int".to_string()), key("x"))]) {
        Err(XioError::Type { found, expected }) => {
            assert_eq!(found, "int");
            assert_eq!(expected, "str");
        },
        other => panic!("unexpected {:?}", other),
    }
    match XIOFormat::from_properties(&vec![(key("num_format"), PropValue::NoneValue)]) {
        Err(XioError::Type { found, expected }) => {
            assert_eq!(found, "NoneType");
            assert_eq!(expected, "str");
        },
        other => panic!("unexpected {:?}", other),
    }
    match XIOFormat::from_properties(&vec![(key("bold"), key("yes"))]) {
        Err(XioError::Type { found, expected }) => {
            assert_eq!(found, "str");
            assert_eq!(expected, "bool");
        },
        other => panic!("unexpected {:?}", other),
    }
}

fn fmt(nf: &str, bold: bool) -> XIOFormat {
    XIOFormat { num_format: nf.to_string(), bold }
}

#[test]
fn format_cache_first_format_wins() {
    let mut cache: Vec<Option<XIOFormat>> = Vec::new();
    let a = fmt("0.0", false);
    let (set, cell) = resolve_format_cache(&mut cache, 2, Some(&a));
    assert!(set);
    assert_eq!(cell.unwrap().num_format, "0.0");
    assert_eq!(cache.len(), 3);
    assert!(cache[0].is_none() && cache[1].is_none());
    assert_eq!(cache[2].as_ref().unwrap().num_format, "0.0");

    let (set, cell) = resolve_format_cache(&mut cache, 2, Some(&fmt("0.0", false)));
    assert!(!set);
    assert!(cell.is_none());

    let (set, cell) = resolve_format_cache(&mut cache, 2, Some(&fmt("0.0", true)));
    assert!(!set);
    assert!(cell.unwrap().bold);
    assert_eq!(cache[2].as_ref().unwrap().bold, false);

    let (set, cell) = resolve_format_cache(&mut cache, 1, None);
    assert!(!set);
    assert!(cell.is_none());
    assert_eq!(cache.len(), 3);
}

#[test]
fn to_format_carries_number_format_and_bold() {
    let f = XIOFormat { num_format: String::from("0.00"), bold: true };
    let expected = rust_xlsxwriter::Format::new().set_num_format("0.00").set_bold();
    assert!(f.to_format() == expected);
    assert!(f.to_format() != rust_xlsxwriter::Format::new());
    let plain = XIOFormat { num_format: String::new(), bold: false };
    assert!(plain.to_format() == rust_xlsxwriter::Format::new());
}
