use vstd::prelude::*;
use crate::fetch::{rate_from_reply, reply_outcome, FetchError, Reply};
use crate::projection::{project, projects, SalaryProjection};
use crate::status::{status_for, status_of, Status};

verus! {

/// All that one run shows: the current bid, the figures derived from it and
/// the closing status.
#[derive(Clone, Copy, Debug, PartialEq, Eq, Structural)]
pub struct Report {
    /// The current bid, in millionths.
    pub current_bid: u64,
    pub projection: SalaryProjection,
    pub status: Status,
}

/// Turns the service's reply into the report for `salary` whole units, given
/// the bid of the last payment in millionths; a failed reply gives its error
/// and no figures.
pub fn build_report(salary: u16, last_bid: u64, reply: &Reply) -> (r: Result<Report, FetchError>)
    ensures
        r matches Ok(rep) ==> {
            &&& reply_outcome(*reply) == Ok::<nat, FetchError>(rep.current_bid as nat)
            &&& projects(rep.projection, salary as int, rep.current_bid as int, last_bid as int)
            &&& rep.status == status_for(rep.projection.salary_diff as int)
        },
        r matches Err(e) ==> reply_outcome(*reply) == Err::<nat, FetchError>(e),
{
    match rate_from_reply(reply) {
        Ok(current_bid) => {
            let projection = project(salary, current_bid, last_bid);
            let status = status_of(projection.salary_diff);
            Ok(Report { current_bid, projection, status })
        },
        Err(e) => Err(e),
    }
}

} // verus!
