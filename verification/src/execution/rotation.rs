//! Daily rotation of the heartbeat log.
//!
//! The log is kept in one file per day. Whoever writes it asks [`LogRotation`] on
//! every line whether the day has changed, and names the file of a day with
//! [`heartbeat_log_file_name`].
use crate::text::{decimal_digits, padded_digits, push_digits, push_padded};
use vstd::prelude::*;

verus! {

/// The day whose file is open, if any.
pub struct LogRotation {
    /// Year, month and day.
    pub current_date: Option<(i32, u32, u32)>,
}

impl LogRotation {
    /// A rotation with no file open.
    pub fn new() -> (r: Self)
        ensures
            r.current_date is None,
    {
        Self { current_date: None }
    }

    /// Turns to the day given and says whether its file has yet to be opened: that is so
    /// for the first line ever and whenever the day differs from that of the line before.
    pub fn turn_to(&mut self, year: i32, month: u32, day: u32) -> (fresh: bool)
        ensures
            fresh == (old(self).current_date != Some((year, month, day))),
            final(self).current_date == Some((year, month, day)),
    {
        let fresh = match self.current_date {
            None => true,
            Some(prev) => prev.0 != year || prev.1 != month || prev.2 != day,
        };
        self.current_date = Some((year, month, day));
        fresh
    }
}

/// `n` in decimal, with zeros in front up to `width` digits where it has fewer; `limit`
/// is ten to the power of `width`.
pub open spec fn zero_padded(n: nat, width: nat, limit: nat) -> Seq<char> {
    if n < limit {
        padded_digits(n, width)
    } else {
        decimal_digits(n)
    }
}

/// A year in at least four characters, the sign of a negative year among them.
pub open spec fn year_text(year: i32) -> Seq<char> {
    if year >= 0 {
        zero_padded(year as nat, 4, 10_000)
    } else {
        seq!['-'] + zero_padded((-year) as nat, 3, 1_000)
    }
}

/// The name of the log file of a day: `heartbeat-`, the year in four digits, month and
/// day in two digits each, and `.jsonl`.
pub open spec fn log_file_name(year: i32, month: u32, day: u32) -> Seq<char> {
    "heartbeat-"@ + year_text(year) + zero_padded(month as nat, 2, 100) + zero_padded(
        day as nat,
        2,
        100,
    ) + ".jsonl"@
}

fn push_zero_padded(out: &mut String, n: u128, width: u32, limit: u128)
    ensures
        final(out)@ == old(out)@ + zero_padded(n as nat, width as nat, limit as nat),
{
    if n < limit {
        push_padded(out, n, width);
    } else {
        push_digits(out, n);
    }
}

/// The name of the log file of a day.
pub fn heartbeat_log_file_name(year: i32, month: u32, day: u32) -> (name: String)
    ensures
        name@ == log_file_name(year, month, day),
{
    let mut name = String::from_str("heartbeat-");
    if year >= 0 {
        push_zero_padded(&mut name, year as u128, 4, 10_000);
    } else {
        proof {
            reveal_strlit("-");
        }
        name.append("-");
        push_zero_padded(&mut name, (-(year as i64)) as u128, 3, 1_000);
    }
    push_zero_padded(&mut name, month as u128, 2, 100);
    push_zero_padded(&mut name, day as u128, 2, 100);
    name.append(".jsonl");
    proof {
        assert(name@ =~= log_file_name(year, month, day));
    }
    name
}

} // verus!
