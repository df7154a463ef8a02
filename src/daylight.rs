use vstd::prelude::*;

verus! {

/// A calendar date.
#[derive(Clone, Copy, Debug, PartialEq, Eq, Structural)]
pub struct CalendarDate {
    pub year: i32,
    pub month: u32,
    pub day: u32,
}

/// When daylight saving applies, as `(month, day)` bounds, and the UTC
/// offsets in hours of the daylight-saving zone, of the standard zone and of
/// the machine's own zone.
#[derive(Clone, Copy, Debug, PartialEq, Eq)]
pub struct DaylightSavingConfig {
    /// First day on which daylight saving is in effect, normally in spring.
    pub start: (u32, u32),
    /// Last day on which daylight saving is in effect, normally in fall.
    pub end: (u32, u32),
    pub effective: i32,
    pub standard: i32,
    pub local: i32,
}

/// The configuration as it is stored: under a `daylight_saving` key.
#[derive(Clone, Copy, Debug, PartialEq, Eq)]
pub struct DaylightSavingConfigWrapper {
    pub daylight_saving: DaylightSavingConfig,
}

/// `(m1, d1)` does not come after `(m2, d2)` in the year.
pub open spec fn month_day_le(a: (u32, u32), b: (u32, u32)) -> bool {
    a.0 < b.0 || (a.0 == b.0 && a.1 <= b.1)
}

impl DaylightSavingConfig {
    pub open spec fn in_daylight_saving(&self, date: CalendarDate) -> bool {
        month_day_le(self.start, (date.month, date.day)) && month_day_le(
            (date.month, date.day),
            self.end,
        )
    }

    /// The hours to add to the machine's time to get the time of the
    /// configured zone on `date`.
    pub fn get_offset_on(&self, date: &CalendarDate) -> (r: i32)
        requires
            i32::MIN <= self.effective - self.local <= i32::MAX,
            i32::MIN <= self.standard - self.local <= i32::MAX,
        ensures
            r == if self.in_daylight_saving(*date) {
                self.effective - self.local
            } else {
                self.standard - self.local
            },
    {
        let md = (date.month, date.day);
        let after_start = self.start.0 < md.0 || (self.start.0 == md.0 && self.start.1 <= md.1);
        let before_end = md.0 < self.end.0 || (md.0 == self.end.0 && md.1 <= self.end.1);
        if after_start && before_end {
            self.effective - self.local
        } else {
            self.standard - self.local
        }
    }
}

} // verus!
