//! Conversions used by the workbook writer. Integers written as part of a
//! sequence must fit in the writer's cell integer, an `i32`.
use vstd::prelude::*;
use crate::error::XioError;
use crate::pyconv::{join_items, join_outcome};
use crate::pyvalue::{SeqItem, items_view};

pub use crate::pyconv::{pybool_xlsx_format, pydate_xlsx_format, pydatetime_xlsx_format, pytime_xlsx_format};

verus! {

/// The integer type of the writer's cells.
pub type XlsxInt = i32;

/// Writes a sequence as one line of text: integers (which must fit in an
/// `i32`), booleans as "Да"/"Нет", other elements as their text, with ", "
/// between elements.
pub fn pyone_dimensional_iter_xlsx_format(items: &Vec<SeqItem>) -> (r: Result<String, XioError>)
    ensures
        join_outcome(items_view(items@), false) matches Ok(t) ==> r matches Ok(s) && s@ == t,
        join_outcome(items_view(items@), false) matches Err(m) ==> r matches Err(XioError::Overflow(s)) && s@ == m,
{
    join_items(items, false)
}

} // verus!
