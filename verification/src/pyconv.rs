//! Conversions of single Python values into what the spreadsheet engine
//! takes: dates and times, booleans as text, and sequences flattened into
//! one line of text.
use vstd::prelude::*;
use rust_xlsxwriter::ExcelDateTime;
use crate::error::XioError;
use crate::pyvalue::{DateParts, DateTimeParts, SeqItem, SeqItemV, TimeParts, items_view};
use crate::text::{int_decimal, push_decimal_i64, push_str};
use crate::xlsx::{
    date_from_ymd, datetime_and_hms, excel_date, excel_time, excel_with_time, time_from_hms, valid_ymd,
    xlsx_error_message,
};

verus! {

/// How a boolean reads in a cell of text: "Да" or "Нет".
pub open spec fn bool_text(b: bool) -> Seq<char> {
    if b {
        seq!['Д', 'а']
    } else {
        seq!['Н', 'е', 'т']
    }
}

/// A date that Excel can hold.
pub open spec fn date_ok(d: DateParts) -> bool {
    valid_ymd(d.year, d.month, d.day)
}

/// A time that Excel can hold.
pub open spec fn time_ok(t: TimeParts) -> bool {
    t.minute <= 60 && t.second <= 59
}

/// A date and time that Excel can hold.
pub open spec fn datetime_ok(dt: DateTimeParts) -> bool {
    date_ok(dt.date) && time_ok(dt.time)
}

/// The engine's value for a date.
pub open spec fn date_value(d: DateParts) -> ExcelDateTime {
    excel_date(d.year, d.month, d.day)
}

/// The engine's value for a time of day.
pub open spec fn time_value(t: TimeParts) -> ExcelDateTime {
    excel_time(t.hour as u16, t.minute, t.second)
}

/// The engine's value for a date and a time of day.
pub open spec fn datetime_value(dt: DateTimeParts) -> ExcelDateTime {
    excel_with_time(date_value(dt.date), dt.time.hour as u16, dt.time.minute, dt.time.second as u16)
}

/// A datetime becomes the engine's date for its year, month and day with
/// its own time of day added: the hour, the minute and the second, each as
/// given.
pub proof fn lemma_datetime_is_date_at_its_time(dt: DateTimeParts)
    ensures
        datetime_value(dt) == excel_with_time(
            excel_date(dt.date.year, dt.date.month, dt.date.day),
            dt.time.hour as u16,
            dt.time.minute,
            dt.time.second as u16,
        ),
        date_value(dt.date) == excel_date(dt.date.year, dt.date.month, dt.date.day),
        time_value(dt.time) == excel_time(dt.time.hour as u16, dt.time.minute, dt.time.second),
{
}

/// Two datetimes on the same date convert through the same engine call,
/// with their own hours, minutes and seconds: datetimes that differ only in
/// the time of day are built from different times.
pub proof fn lemma_datetime_time_of_day_passes_through(a: DateTimeParts, b: DateTimeParts)
    requires
        a.date == b.date,
    ensures
        (a.time.hour != b.time.hour || a.time.minute != b.time.minute || a.time.second != b.time.second)
            ==> datetime_value(a) == excel_with_time(date_value(b.date), a.time.hour as u16, a.time.minute, a.time.second as u16)
                && datetime_value(b) == excel_with_time(date_value(a.date), b.time.hour as u16, b.time.minute, b.time.second as u16)
                && (a.time.hour as u16, a.time.minute, a.time.second as u16) != (b.time.hour as u16, b.time.minute, b.time.second as u16),
{
}

/// CPython's message for an `int` beyond a C `long`.
pub open spec fn too_large_message() -> Seq<char> {
    "Python int too large to convert to C long"@
}

/// The message for an integer that does not fit a narrower Rust type.
pub open spec fn out_of_range_message() -> Seq<char> {
    "out of range integral type conversion attempted"@
}

/// An integer as a cell number: `wide` takes any `i64`, otherwise it must
/// fit in an `i32`. `Err` holds the overflow message.
pub open spec fn int_outcome(value: Option<i64>, wide: bool) -> Result<i64, Seq<char>> {
    match value {
        None => Err(too_large_message()),
        Some(v) => if wide || (i32::MIN <= v && v <= i32::MAX) {
            Ok(v)
        } else {
            Err(out_of_range_message())
        },
    }
}

/// The text of one element of a joined sequence.
pub open spec fn item_outcome(item: SeqItemV, wide: bool) -> Result<Seq<char>, Seq<char>> {
    match item {
        SeqItemV::Missing => Ok(Seq::empty()),
        SeqItemV::Int(v) => match int_outcome(v, wide) {
            Ok(n) => Ok(int_decimal(n as int)),
            Err(m) => Err(m),
        },
        SeqItemV::Bool(b) => Ok(bool_text(b)),
        SeqItemV::Text(t) => Ok(t),
    }
}

/// The elements' texts, with ", " between each two (also around a missing
/// element), or the message of the first element that cannot be written.
pub open spec fn join_outcome(items: Seq<SeqItemV>, wide: bool) -> Result<Seq<char>, Seq<char>>
    decreases items.len(),
{
    if items.len() == 0 {
        Ok(Seq::empty())
    } else {
        match join_outcome(items.drop_last(), wide) {
            Err(m) => Err(m),
            Ok(prefix) => match item_outcome(items.last(), wide) {
                Err(m) => Err(m),
                Ok(t) => Ok(
                    if items.len() == 1 {
                        t
                    } else {
                        prefix + ", "@ + t
                    },
                ),
            },
        }
    }
}

/// Joining two non-empty lists of elements one after the other gives the
/// first list's text, ", ", and the second list's text; if either list
/// cannot be written, the first failure in order is the result.
pub proof fn lemma_join_concat(a: Seq<SeqItemV>, b: Seq<SeqItemV>, wide: bool)
    requires
        a.len() > 0,
        b.len() > 0,
    ensures
        match (join_outcome(a, wide), join_outcome(b, wide)) {
            (Ok(x), Ok(y)) => join_outcome(a + b, wide) == Ok::<Seq<char>, Seq<char>>(x + ", "@ + y),
            (Err(m), _) => join_outcome(a + b, wide) == Err::<Seq<char>, Seq<char>>(m),
            (Ok(_), Err(m)) => join_outcome(a + b, wide) == Err::<Seq<char>, Seq<char>>(m),
        },
    decreases b.len(),
{
    let ab = a + b;
    assert(ab.last() == b.last());
    if b.len() == 1 {
        assert(ab.drop_last() =~= a);
    } else {
        let b1 = b.drop_last();
        assert(ab.drop_last() =~= a + b1);
        lemma_join_concat(a, b1, wide);
        match (join_outcome(a, wide), join_outcome(b1, wide), item_outcome(b.last(), wide)) {
            (Ok(x), Ok(y1), Ok(t)) => {
                assert(x + ", "@ + y1 + ", "@ + t =~= x + ", "@ + (y1 + ", "@ + t));
            },
            _ => {},
        }
    }
}

/// Once a prefix of the elements fails, every longer prefix fails the same way.
proof fn lemma_join_err_extends(items: Seq<SeqItemV>, wide: bool, k: int, j: int)
    requires
        0 <= k <= j <= items.len(),
        join_outcome(items.take(k), wide) is Err,
    ensures
        join_outcome(items.take(j), wide) == join_outcome(items.take(k), wide),
    decreases j - k,
{
    if j > k {
        lemma_join_err_extends(items, wide, k, j - 1);
        assert(items.take(j).drop_last() =~= items.take(j - 1));
    }
}

/// "Да" for true, "Нет" for false.
pub fn pybool_xlsx_format(b: bool) -> (r: &'static str)
    ensures
        r@ == bool_text(b),
{
    proof {
        reveal_strlit("Да");
        reveal_strlit("Нет");
    }
    if b {
        "Да"
    } else {
        "Нет"
    }
}

/// The engine's value for a time of day.
pub fn pytime_xlsx_format(t: &TimeParts) -> (r: Result<ExcelDateTime, XioError>)
    ensures
        r is Ok <==> time_ok(*t),
        r matches Ok(x) ==> x == time_value(*t),
        r is Err ==> r->Err_0 is Value,
{
    match time_from_hms(t.hour as u16, t.minute, t.second) {
        Ok(dt) => Ok(dt),
        Err(e) => Err(XioError::Value(xlsx_error_message(&e))),
    }
}

/// The engine's value for a date.
pub fn pydate_xlsx_format(d: &DateParts) -> (r: Result<ExcelDateTime, XioError>)
    ensures
        r is Ok <==> date_ok(*d),
        r matches Ok(x) ==> x == date_value(*d),
        r is Err ==> r->Err_0 is Value,
{
    match date_from_ymd(d.year, d.month, d.day) {
        Ok(dt) => Ok(dt),
        Err(e) => Err(XioError::Value(xlsx_error_message(&e))),
    }
}

/// The engine's value for a date and time of day.
pub fn pydatetime_xlsx_format(dt: &DateTimeParts) -> (r: Result<ExcelDateTime, XioError>)
    ensures
        r is Ok <==> datetime_ok(*dt),
        r matches Ok(x) ==> x == datetime_value(*dt),
        r is Err ==> r->Err_0 is Value,
{
    let date = match date_from_ymd(dt.date.year, dt.date.month, dt.date.day) {
        Ok(d) => d,
        Err(e) => {
            return Err(XioError::Value(xlsx_error_message(&e)));
        },
    };
    match datetime_and_hms(date, dt.time.hour as u16, dt.time.minute, dt.time.second as u16) {
        Ok(d) => Ok(d),
        Err(e) => Err(XioError::Value(xlsx_error_message(&e))),
    }
}

fn int_text(value: Option<i64>, wide: bool) -> (r: Result<String, XioError>)
    ensures
        int_outcome(value, wide) matches Ok(n) ==> r matches Ok(s) && s@ == int_decimal(n as int),
        int_outcome(value, wide) matches Err(m) ==> r matches Err(XioError::Overflow(s)) && s@ == m,
{
    match value {
        None => Err(XioError::Overflow(String::from_str("Python int too large to convert to C long"))),
        Some(v) => {
            if wide || (i32::MIN as i64 <= v && v <= i32::MAX as i64) {
                let mut s = String::new();
                push_decimal_i64(&mut s, v);
                assert(s@ =~= int_decimal(v as int));
                Ok(s)
            } else {
                Err(XioError::Overflow(String::from_str("out of range integral type conversion attempted")))
            }
        },
    }
}

/// Joins the elements of a sequence into one text, as `join_outcome`
/// describes; integers must fit in an `i64` (`wide`) or an `i32`.
pub fn join_items(items: &Vec<SeqItem>, wide: bool) -> (r: Result<String, XioError>)
    ensures
        join_outcome(items_view(items@), wide) matches Ok(t) ==> r matches Ok(s) && s@ == t,
        join_outcome(items_view(items@), wide) matches Err(m) ==> r matches Err(XioError::Overflow(s)) && s@ == m,
{
    let ghost views = items_view(items@);
    let mut buffer = String::new();
    let mut i: usize = 0;
    while i < items.len()
        invariant
            i <= items.len(),
            views == items_view(items@),
            join_outcome(views.take(i as int), wide) == Ok::<Seq<char>, Seq<char>>(buffer@),
        decreases items.len() - i,
    {
        assert(views.take(i + 1).drop_last() =~= views.take(i as int));
        assert(views.take(i + 1).last() == items@[i as int]@);
        if i > 0 {
            push_str(&mut buffer, ", ");
        }
        match &items[i] {
            SeqItem::Missing => {},
            SeqItem::Int(v) => {
                match int_text(*v, wide) {
                    Ok(t) => {
                        push_str(&mut buffer, t.as_str());
                    },
                    Err(e) => {
                        proof {
                            lemma_join_err_extends(views, wide, i + 1, items.len() as int);
                            assert(views.take(items.len() as int) =~= views);
                        }
                        return Err(e);
                    },
                }
            },
            SeqItem::Bool(b) => {
                push_str(&mut buffer, pybool_xlsx_format(*b));
            },
            SeqItem::Text(t) => {
                push_str(&mut buffer, t.as_str());
            },
        }
        proof {
            if i == 0 {
                assert(views.take(0) =~= Seq::<SeqItemV>::empty());
            }
        }
        assert(join_outcome(views.take(i + 1), wide) == Ok::<Seq<char>, Seq<char>>(buffer@));
        i = i + 1;
    }
    assert(views.take(items.len() as int) =~= views);
    Ok(buffer)
}

/// Writes a sequence as one line of text: integers (any `i64`), booleans as
/// "Да"/"Нет", other elements as their text, with ", " between elements.
pub fn pyone_dimensional_iter_xlsx_format(items: &Vec<SeqItem>) -> (r: Result<String, XioError>)
    ensures
        join_outcome(items_view(items@), true) matches Ok(t) ==> r matches Ok(s) && s@ == t,
        join_outcome(items_view(items@), true) matches Err(m) ==> r matches Err(XioError::Overflow(s)) && s@ == m,
{
    join_items(items, true)
}

} // verus!
