//! Gathering the facts of a day from what the fact store returned.
//!
//! The store is read by the caller, with two lookups under the same date:
//! the observances, any number of rows, and the note, at most one row. Here
//! the rows become the facts of the day.

use vstd::prelude::*;
use vstd::string::*;
use crate::models::{national_day_views, optional_text, DailyData, DailyDataView, NationalDay, NationalDayView};

verus! {

/// Why the facts of a day could not be had.
#[derive(Debug, PartialEq, Eq)]
pub enum StoreError {
    /// The store could not be reached or refused a lookup.
    Unavailable(String),
    /// A row of the store does not have the expected shape.
    Schema(String),
}

/// Mathematical value of a [`StoreError`].
pub enum StoreErrorView {
    Unavailable(Seq<char>),
    Schema(Seq<char>),
}

impl View for StoreError {
    type V = StoreErrorView;

    open spec fn view(&self) -> StoreErrorView {
        match self {
            StoreError::Unavailable(reason) => StoreErrorView::Unavailable(reason@),
            StoreError::Schema(reason) => StoreErrorView::Schema(reason@),
        }
    }
}

/// The observances that rows of name and path stand for, in the order of
/// the rows.
pub open spec fn observances_of_rows(rows: Seq<(String, String)>) -> Seq<NationalDayView> {
    Seq::new(rows.len(), |i: int| NationalDayView { name: rows[i].0@, url: rows[i].1@ })
}

/// Turns the rows of the observance lookup into observances, one per row
/// and in the order of the rows.
pub fn get_national_days(rows: &Vec<(String, String)>) -> (days: Vec<NationalDay>)
    ensures
        national_day_views(days@) == observances_of_rows(rows@),
{
    let mut days: Vec<NationalDay> = Vec::new();
    let mut i: usize = 0;
    assert(national_day_views(days@) =~= observances_of_rows(rows@.take(0)));
    while i < rows.len()
        invariant
            i <= rows@.len(),
            days@.len() == i,
            national_day_views(days@) == observances_of_rows(rows@.take(i as int)),
        decreases rows@.len() - i,
    {
        let row = &rows[i];
        let ghost before = days@;
        let day = NationalDay { name: row.0.clone(), url: row.1.clone() };
        assert(day@ == NationalDayView { name: rows@[i as int].0@, url: rows@[i as int].1@ });
        days.push(day);
        proof {
            let next = observances_of_rows(rows@.take(i + 1));
            assert forall|k: int| 0 <= k < next.len() implies national_day_views(days@)[k]
                == next[k] by {
                if k < i {
                    assert(days@[k] == before[k]);
                    assert(national_day_views(before)[k] == observances_of_rows(
                        rows@.take(i as int),
                    )[k]);
                }
            }
            assert(national_day_views(days@) =~= next);
        }
        i += 1;
    }
    assert(rows@.take(rows@.len() as int) =~= rows@);
    days
}

/// The note among the rows of the note lookup: the first row, if there is
/// one.
pub fn get_birthday(rows: &Vec<String>) -> (note: Option<String>)
    ensures
        optional_text(note) == if rows@.len() == 0 {
            None
        } else {
            Some(rows@[0]@)
        },
{
    if rows.len() == 0 {
        None
    } else {
        Some(rows[0].clone())
    }
}

/// The facts of a day out of the two lookups, or the reason why they could
/// not be had.
pub open spec fn daily_data_of(
    date_str: Seq<char>,
    formatted_date: Seq<char>,
    national_days: Result<Vec<NationalDay>, StoreError>,
    birthday: Result<Option<String>, StoreError>,
) -> Result<DailyDataView, StoreErrorView> {
    match national_days {
        Err(error) => Err(error@),
        Ok(days) => match birthday {
            Err(error) => Err(error@),
            Ok(note) => Ok(
                DailyDataView {
                    date_str,
                    formatted_date,
                    national_days: national_day_views(days@),
                    birthday: optional_text(note),
                },
            ),
        },
    }
}

/// The view of the result of [`fetch_daily_data`].
pub open spec fn fetched_view(result: Result<DailyData, StoreError>) -> Result<
    DailyDataView,
    StoreErrorView,
> {
    match result {
        Ok(data) => Ok(data@),
        Err(error) => Err(error@),
    }
}

/// Puts the facts of a day together from the outcomes of the two lookups.
/// A failed lookup fails the whole; the observance lookup comes first. A
/// day without observances and without a note is a day like any other.
pub fn fetch_daily_data(
    date_str: &str,
    formatted_date: &str,
    national_days: Result<Vec<NationalDay>, StoreError>,
    birthday: Result<Option<String>, StoreError>,
) -> (result: Result<DailyData, StoreError>)
    ensures
        fetched_view(result) == daily_data_of(date_str@, formatted_date@, national_days, birthday),
{
    match national_days {
        Err(error) => Err(error),
        Ok(days) => match birthday {
            Err(error) => Err(error),
            Ok(note) => Ok(
                DailyData {
                    date_str: date_str.to_owned(),
                    formatted_date: formatted_date.to_owned(),
                    national_days: days,
                    birthday: note,
                },
            ),
        },
    }
}

} // verus!
