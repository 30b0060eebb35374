use fastxlsxio::error::XioError;
use fastxlsxio::pyconv;
use fastxlsxio::pyvalue::{DateParts, DateTimeParts, SeqItem, TimeParts};
use fastxlsxio::write::pyconv as wpyconv;

fn text(s: &str) -> SeqItem {
    SeqItem::Text(s.to_string())
}

#[test]
fn booleans_read_in_russian() {
    assert_eq!(pyconv::pybool_xlsx_format(true), "Да");
    assert_eq!(pyconv::pybool_xlsx_format(false), "Нет");
    assert_eq!(wpyconv::pybool_xlsx_format(true), "Да");
}

#[test]
fn sequence_is_joined_with_commas() {
    let items = vec![SeqItem::Int(Some(1)), text("x"), SeqItem::Bool(true), SeqItem::Int(Some(-25))];
    assert_eq!(pyconv::pyone_dimensional_iter_xlsx_format(&items).unwrap(), "1, x, Да, -25");
    assert_eq!(wpyconv::pyone_dimensional_iter_xlsx_format(&items).unwrap(), "1, x, Да, -25");
}

#[test]
fn missing_elements_keep_their_separator() {
    let items = vec![SeqItem::Missing, text("a"), SeqItem::Missing, SeqItem::Missing, text("b")];
    assert_eq!(wpyconv::pyone_dimensional_iter_xlsx_format(&items).unwrap(), ", a, , , b");
    assert_eq!(wpyconv::pyone_dimensional_iter_xlsx_format(&vec![SeqItem::Missing]).unwrap(), "");
}

#[test]
fn empty_sequence_is_empty_text() {
    assert_eq!(wpyconv::pyone_dimensional_iter_xlsx_format(&vec![]).unwrap(), "");
}

#[test]
fn sequence_integers_must_fit_the_cell_integer() {
    let items = vec![text("a"), SeqItem::Int(Some(3_000_000_000))];
    match wpyconv::pyone_dimensional_iter_xlsx_format(&items) {
        Err(XioError::Overflow(m)) => assert_eq!(m, "out of range integral type conversion attempted"),
        other => panic!("unexpected {:?}", other),
    }
    assert_eq!(pyconv::pyone_dimensional_iter_xlsx_format(&items).unwrap(), "a, 3000000000");
    assert_eq!(
        pyconv::pyone_dimensional_iter_xlsx_format(&vec![SeqItem::Int(Some(i64::MIN))]).unwrap(),
        "-9223372036854775808"
    );
}

#[test]
fn sequence_integers_beyond_i64_overflow() {
    let items = vec![SeqItem::Int(None), SeqItem::Int(Some(2_000_000_000_000))];
    match pyconv::pyone_dimensional_iter_xlsx_format(&items) {
        Err(XioError::Overflow(m)) => assert_eq!(m, "Python int too large to convert to C long"),
        other => panic!("unexpected {:?}", other),
    }
}

#[test]
fn dates_in_excel_range_convert() {
    assert!(pyconv::pydate_xlsx_format(&DateParts { year: 2024, month: 2, day: 29 }).is_ok());
    assert!(pyconv::pydate_xlsx_format(&DateParts { year: 1900, month: 2, day: 29 }).is_ok());
    assert!(pyconv::pydate_xlsx_format(&DateParts { year: 1899, month: 12, day: 31 }).is_ok());
    assert!(pyconv::pydate_xlsx_format(&DateParts { year: 9999, month: 12, day: 31 }).is_ok());
}

#[test]
fn dates_outside_excel_range_fail() {
    for d in [
        DateParts { year: 2023, month: 2, day: 29 },
        DateParts { year: 1899, month: 12, day: 30 },
        DateParts { year: 1000, month: 1, day: 1 },
        DateParts { year: 10000, month: 1, day: 1 },
        DateParts { year: 2020, month: 13, day: 1 },
        DateParts { year: 2020, month: 4, day: 31 },
        DateParts { year: 2020, month: 4, day: 0 },
    ] {
        assert!(matches!(pyconv::pydate_xlsx_format(&d), Err(XioError::Value(_))), "{:?}", d);
    }
}

#[test]
fn times_convert_when_minutes_and_seconds_fit() {
    assert!(pyconv::pytime_xlsx_format(&TimeParts { hour: 23, minute: 59, second: 59 }).is_ok());
    assert!(pyconv::pytime_xlsx_format(&TimeParts { hour: 0, minute: 60, second: 0 }).is_ok());
    assert!(matches!(pyconv::pytime_xlsx_format(&TimeParts { hour: 0, minute: 61, second: 0 }), Err(XioError::Value(_))));
    assert!(matches!(pyconv::pytime_xlsx_format(&TimeParts { hour: 0, minute: 0, second: 60 }), Err(XioError::Value(_))));
}

#[test]
fn datetimes_need_both_parts_valid() {
    let ok = DateTimeParts { date: DateParts { year: 2023, month: 1, day: 25 }, time: TimeParts { hour: 12, minute: 30, second: 45 } };
    assert!(pyconv::pydatetime_xlsx_format(&ok).is_ok());
    let bad_date = DateTimeParts { date: DateParts { year: 1800, month: 1, day: 1 }, ..ok };
    assert!(matches!(pyconv::pydatetime_xlsx_format(&bad_date), Err(XioError::Value(_))));
    let bad_time = DateTimeParts { time: TimeParts { hour: 1, minute: 2, second: 70 }, ..ok };
    assert!(matches!(pyconv::pydatetime_xlsx_format(&bad_time), Err(XioError::Value(_))));
}

#[test]
fn date_error_message_comes_from_the_engine() {
    match pyconv::pydate_xlsx_format(&DateParts { year: 1000, month: 1, day: 1 }) {
        Err(XioError::Value(m)) => assert!(m.contains("1000"), "{}", m),
        other => panic!("unexpected {:?}", other.is_ok()),
    }
}
