//! One report request: what the history fetch came to decides whether a
//! report is made, and from which ledger.
use crate::aggregate::{aggregate, fits, fold_jobs, JobRecord};
use crate::ledger::Ledger;
use crate::report::{render_report, report_cells, table_text};
use vstd::prelude::*;

verus! {

/// What one fetch of the job history came to.
pub enum FetchOutcome {
    /// The service answered with `status`; `jobs` holds the parsed job
    /// list, or `None` where the body did not have the expected shape.
    Answered { status: u16, jobs: Option<Vec<JobRecord>> },
    /// The request did not complete: connection refused, timeout and the like.
    Unreachable,
}

/// Why no report was made.
#[derive(Debug, PartialEq, Eq, Structural)]
pub enum ReportError {
    /// The history service could not be reached.
    Transport,
    /// The history service answered with this non-success status.
    Status(u16),
    /// A spool's total does not fit in the ledger's integer range.
    Overflow,
}

/// A 2xx status.
pub open spec fn is_success(status: u16) -> bool {
    200 <= status <= 299
}

/// The report text for `seed` and a fetch, or why there is none. A body of
/// the wrong shape counts as no jobs; a failed request or a non-success
/// status gives no report.
pub open spec fn report_result(seed: Map<Seq<char>, int>, fetch: FetchOutcome) -> Result<
    Seq<char>,
    ReportError,
> {
    match fetch {
        FetchOutcome::Unreachable => Err(ReportError::Transport),
        FetchOutcome::Answered { status, jobs } => {
            if !is_success(status) {
                Err(ReportError::Status(status))
            } else {
                match jobs {
                    None => Ok(table_text(report_cells(seed))),
                    Some(js) => {
                        if fits(fold_jobs(seed, js@)) {
                            Ok(table_text(report_cells(fold_jobs(seed, js@))))
                        } else {
                            Err(ReportError::Overflow)
                        }
                    },
                }
            }
        },
    }
}

/// Whether `status` is a 2xx status.
pub fn status_is_success(status: u16) -> (r: bool)
    ensures
        r == is_success(status),
{
    200 <= status && status <= 299
}

/// The usage report for `seed` and what the history fetch came to.
pub fn build_report(seed: Ledger, fetch: FetchOutcome) -> (r: Result<String, ReportError>)
    requires
        seed.wf(),
    ensures
        match r {
            Ok(text) => report_result(seed@, fetch) == Ok::<Seq<char>, ReportError>(text@),
            Err(e) => report_result(seed@, fetch) == Err::<Seq<char>, ReportError>(e),
        },
{
    match fetch {
        FetchOutcome::Unreachable => Err(ReportError::Transport),
        FetchOutcome::Answered { status, jobs } => {
            if !status_is_success(status) {
                return Err(ReportError::Status(status));
            }
            match jobs {
                None => Ok(render_report(&seed)),
                Some(js) => {
                    match aggregate(seed, &js) {
                        Some(ledger) => Ok(render_report(&ledger)),
                        None => Err(ReportError::Overflow),
                    }
                },
            }
        },
    }
}

/// A body of the wrong shape under a success status gives the report of the
/// seed itself, unchanged.
pub proof fn lemma_schema_error_renders_seed(seed: &Ledger, status: u16)
    requires
        seed.wf(),
        is_success(status),
    ensures
        report_result(seed@, FetchOutcome::Answered { status, jobs: None }) == Ok::<
            Seq<char>,
            ReportError,
        >(table_text(report_cells(seed@))),
{
}

/// A failed request, or any non-success status, gives no report at all.
pub proof fn lemma_transport_failure_gives_no_report(
    seed: &Ledger,
    status: u16,
    jobs: Option<Vec<JobRecord>>,
)
    requires
        seed.wf(),
        !is_success(status),
    ensures
        report_result(seed@, FetchOutcome::Unreachable) is Err,
        report_result(seed@, FetchOutcome::Answered { status, jobs }) is Err,
{
}

} // verus!
