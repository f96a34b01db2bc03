//! The browser's modes and the steps of its delete flow.

use vstd::prelude::*;
use crate::db::{SECONDS_PER_DAY, SECONDS_PER_HOUR};

verus! {

/// A period of recent history that a bulk delete can remove.
#[derive(Debug, Clone, Copy, PartialEq, Eq, Structural)]
pub enum DeletePeriod {
    Hour,
    Day,
    Week,
    Month,
    Year,
    All,
}

/// How many periods the period dialog offers.
pub const PERIOD_COUNT: usize = 6;

impl DeletePeriod {
    /// Length of the period in whole days; `None` for `All`.
    pub open spec fn days(self) -> Option<int> {
        match self {
            DeletePeriod::Hour => Some(1),
            DeletePeriod::Day => Some(1),
            DeletePeriod::Week => Some(7),
            DeletePeriod::Month => Some(30),
            DeletePeriod::Year => Some(365),
            DeletePeriod::All => None,
        }
    }

    /// The time that the period spans, as a count of units and the seconds
    /// of one unit: one hour, or 1, 7, 30 or 365 days. `None` for `All`,
    /// which is no span of time.
    pub open spec fn span(self) -> Option<(int, int)> {
        match self {
            DeletePeriod::Hour => Some((1, SECONDS_PER_HOUR as int)),
            DeletePeriod::All => None,
            _ => Some((self.days().unwrap(), SECONDS_PER_DAY as int)),
        }
    }

    /// The period's name in the dialog.
    pub open spec fn label(self) -> Seq<char> {
        match self {
            DeletePeriod::Hour => "Last Hour"@,
            DeletePeriod::Day => "Last Day"@,
            DeletePeriod::Week => "Last Week"@,
            DeletePeriod::Month => "Last Month"@,
            DeletePeriod::Year => "Last Year"@,
            DeletePeriod::All => "ALL ENTRIES"@,
        }
    }

    /// The period on the given row of the dialog; `Day` for a row that the
    /// dialog does not have.
    pub open spec fn at(index: int) -> DeletePeriod {
        if index == 0 {
            DeletePeriod::Hour
        } else if index == 1 {
            DeletePeriod::Day
        } else if index == 2 {
            DeletePeriod::Week
        } else if index == 3 {
            DeletePeriod::Month
        } else if index == 4 {
            DeletePeriod::Year
        } else if index == 5 {
            DeletePeriod::All
        } else {
            DeletePeriod::Day
        }
    }

    pub fn to_days(&self) -> (r: Option<i64>)
        ensures
            r is Some == self.days() is Some,
            r matches Some(d) ==> self.days() == Some(d as int),
    {
        match self {
            DeletePeriod::Hour => Some(1),
            DeletePeriod::Day => Some(1),
            DeletePeriod::Week => Some(7),
            DeletePeriod::Month => Some(30),
            DeletePeriod::Year => Some(365),
            DeletePeriod::All => None,
        }
    }

    /// The time that the period spans: a count of units and the seconds of
    /// one unit.
    pub fn to_span(&self) -> (r: Option<(i64, i64)>)
        ensures
            r is Some == self.span() is Some,
            r is None == (*self == DeletePeriod::All),
            r matches Some(s) ==> self.span() == Some((s.0 as int, s.1 as int)),
    {
        match self {
            DeletePeriod::Hour => Some((1, SECONDS_PER_HOUR)),
            DeletePeriod::Day => Some((1, SECONDS_PER_DAY)),
            DeletePeriod::Week => Some((7, SECONDS_PER_DAY)),
            DeletePeriod::Month => Some((30, SECONDS_PER_DAY)),
            DeletePeriod::Year => Some((365, SECONDS_PER_DAY)),
            DeletePeriod::All => None,
        }
    }

    pub fn display(&self) -> (r: &'static str)
        ensures
            r@ == self.label(),
    {
        match self {
            DeletePeriod::Hour => "Last Hour",
            DeletePeriod::Day => "Last Day",
            DeletePeriod::Week => "Last Week",
            DeletePeriod::Month => "Last Month",
            DeletePeriod::Year => "Last Year",
            DeletePeriod::All => "ALL ENTRIES",
        }
    }

    pub fn from_index(index: usize) -> (r: DeletePeriod)
        ensures
            r == DeletePeriod::at(index as int),
    {
        if index == 0 {
            DeletePeriod::Hour
        } else if index == 1 {
            DeletePeriod::Day
        } else if index == 2 {
            DeletePeriod::Week
        } else if index == 3 {
            DeletePeriod::Month
        } else if index == 4 {
            DeletePeriod::Year
        } else if index == 5 {
            DeletePeriod::All
        } else {
            DeletePeriod::Day
        }
    }
}

/// The one mode the browser is in. Filtering and the steps of the delete
/// flow exclude one another by construction.
#[derive(Debug, Clone, Copy, PartialEq, Eq, Structural)]
pub enum Mode {
    /// Navigating the list.
    Normal,
    /// Typing a filter.
    Filtering,
    /// Choosing the period of a bulk delete.
    SelectingPeriod,
    /// Asked once whether to delete the selected entry.
    ConfirmingSingle,
    /// Asked once whether to delete the entries of a period.
    ConfirmingBulk { period: DeletePeriod },
    /// Asked repeatedly whether to delete everything;
    /// `confirmation_count` counts the consecutive yeses so far.
    ConfirmingAll { confirmation_count: u8 },
}

/// Where the delete flow stands; `Inactive` outside of it.
#[derive(Debug, Clone, Copy, PartialEq, Eq, Structural)]
pub enum DeleteMode {
    Inactive,
    SelectingPeriod,
    ConfirmingBulk { period: DeletePeriod },
    ConfirmingSingle,
    ConfirmingAll { confirmation_count: u8 },
}

/// How many consecutive yeses a full wipe needs.
pub const CONFIRMATIONS_FOR_ALL: u8 = 3;

impl Mode {
    /// The step of the delete flow that this mode is, if any.
    pub open spec fn delete_step(self) -> DeleteMode {
        match self {
            Mode::Normal => DeleteMode::Inactive,
            Mode::Filtering => DeleteMode::Inactive,
            Mode::SelectingPeriod => DeleteMode::SelectingPeriod,
            Mode::ConfirmingSingle => DeleteMode::ConfirmingSingle,
            Mode::ConfirmingBulk { period } => DeleteMode::ConfirmingBulk { period },
            Mode::ConfirmingAll { confirmation_count } => DeleteMode::ConfirmingAll {
                confirmation_count,
            },
        }
    }

    /// The mode is a step of the delete flow.
    pub open spec fn in_delete_flow(self) -> bool {
        self.delete_step() != DeleteMode::Inactive
    }

    /// The consecutive yeses counted towards a full wipe; 0 in every mode
    /// but `ConfirmingAll`.
    pub open spec fn confirmations(self) -> int {
        match self {
            Mode::ConfirmingAll { confirmation_count } => confirmation_count as int,
            _ => 0,
        }
    }

    pub fn delete_mode(&self) -> (r: DeleteMode)
        ensures
            r == self.delete_step(),
    {
        match self {
            Mode::Normal => DeleteMode::Inactive,
            Mode::Filtering => DeleteMode::Inactive,
            Mode::SelectingPeriod => DeleteMode::SelectingPeriod,
            Mode::ConfirmingSingle => DeleteMode::ConfirmingSingle,
            Mode::ConfirmingBulk { period } => DeleteMode::ConfirmingBulk { period: *period },
            Mode::ConfirmingAll { confirmation_count } => DeleteMode::ConfirmingAll {
                confirmation_count: *confirmation_count,
            },
        }
    }
}

} // verus!
