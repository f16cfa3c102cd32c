use vstd::prelude::*;

verus! {

/// Which of the two closing messages a run prints.
#[derive(Clone, Copy, Debug, PartialEq, Eq, Structural)]
pub enum Status {
    /// The salary went up since the last payment.
    Affirmative,
    /// The salary stayed the same or went down.
    Warning,
}

/// The status that a difference between the current and the previous salary calls for.
pub open spec fn status_for(salary_diff: int) -> Status {
    if salary_diff > 0 {
        Status::Affirmative
    } else {
        Status::Warning
    }
}

/// Selects the closing status from the salary difference: only a strictly
/// positive difference is good news.
pub fn status_of(salary_diff: i128) -> (r: Status)
    ensures
        r == status_for(salary_diff as int),
{
    if salary_diff > 0 {
        Status::Affirmative
    } else {
        Status::Warning
    }
}

} // verus!
