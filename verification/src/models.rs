//! The facts of one calendar day.

use vstd::prelude::*;

verus! {

/// A named observance with the path of its page, relative to a base URL.
#[derive(Debug)]
pub struct NationalDay {
    /// Display name of the observance.
    pub name: String,
    /// Path of its page, starting with a slash.
    pub url: String,
}

/// Mathematical value of a [`NationalDay`].
pub struct NationalDayView {
    pub name: Seq<char>,
    pub url: Seq<char>,
}

impl View for NationalDay {
    type V = NationalDayView;

    open spec fn view(&self) -> NationalDayView {
        NationalDayView { name: self.name@, url: self.url@ }
    }
}

/// Everything known about one day: its date in two renderings, its
/// observances in the order of the store, and a note if the day has one.
#[derive(Debug)]
pub struct DailyData {
    /// The date as `YYYY-MM-DD`, the key of the fact store.
    pub date_str: String,
    /// The date as it is shown to readers.
    pub formatted_date: String,
    /// The observances of the day, in the order in which the store gave them.
    pub national_days: Vec<NationalDay>,
    /// The note of the day, if there is one.
    pub birthday: Option<String>,
}

/// Mathematical value of a [`DailyData`].
pub struct DailyDataView {
    pub date_str: Seq<char>,
    pub formatted_date: Seq<char>,
    pub national_days: Seq<NationalDayView>,
    pub birthday: Option<Seq<char>>,
}

/// The values of a list of observances, in order.
pub open spec fn national_day_views(days: Seq<NationalDay>) -> Seq<NationalDayView> {
    Seq::new(days.len(), |i: int| days[i]@)
}

/// The value of a text that may be absent.
pub open spec fn optional_text(note: Option<String>) -> Option<Seq<char>> {
    match note {
        Some(text) => Some(text@),
        None => None,
    }
}

impl View for DailyData {
    type V = DailyDataView;

    open spec fn view(&self) -> DailyDataView {
        DailyDataView {
            date_str: self.date_str@,
            formatted_date: self.formatted_date@,
            national_days: national_day_views(self.national_days@),
            birthday: optional_text(self.birthday),
        }
    }
}

} // verus!
