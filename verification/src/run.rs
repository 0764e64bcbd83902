//! The course of a download run: progress reports, rows in order, one job per
//! non-empty cell, and what happens after each download.
use vstd::prelude::*;
use crate::images::{
    cell_job, cell_missing, lemma_planned_job_is_named_from_its_row, manual_message_of,
    opt_chars, DownloadImages, Job, JobView,
};
use crate::table::{lookup, well_formed, Table, TableView};
use crate::text::copy_str;

verus! {

/// Where a run stands.
#[derive(Clone, Copy, Debug, PartialEq, Eq)]
pub enum Phase {
    /// Nothing reported yet.
    Begin,
    /// About to start row `i` (or to finish, when every row was started).
    Row(usize),
    /// Row `i` was reported; its record is to be checked.
    Check(usize),
    /// About to look at image column `c` of row `i`.
    Cell(usize, usize),
    /// The job of row `i`, image column `c` was handed out for download.
    Waiting(usize, usize),
    /// The run is over.
    Ended,
}

/// What the program is to do next.
pub enum RunAction {
    /// Report that `done` of `total` rows were started.
    Progress(usize, usize),
    /// Stop the run with this error.
    Fail(String),
    /// Stop: the row lacks this column.
    MissingColumn(String),
    /// Download this job and tell whether it succeeded.
    Download(Job),
    /// Print this message: the last job needs a manual download.
    Notice(String),
    /// Nothing to do; ask again.
    Continue,
    /// The run is complete.
    Done,
}

/// The model of an action.
pub enum RunActionView {
    Progress(int, int),
    Fail(Seq<char>),
    MissingColumn(Seq<char>),
    Download(JobView),
    Notice(Seq<char>),
    Continue,
    Done,
}

/// The model of an action.
pub open spec fn action_view(a: RunAction) -> RunActionView {
    match a {
        RunAction::Progress(d, t) => RunActionView::Progress(d as int, t as int),
        RunAction::Fail(e) => RunActionView::Fail(e@),
        RunAction::MissingColumn(c) => RunActionView::MissingColumn(c@),
        RunAction::Download(j) => RunActionView::Download(j@),
        RunAction::Notice(m) => RunActionView::Notice(m@),
        RunAction::Continue => RunActionView::Continue,
        RunAction::Done => RunActionView::Done,
    }
}

/// One step of a run of `request` over `table` into `dir`, from `phase`,
/// told whether the last download succeeded: the action and the next phase.
///
/// The run reports `0` of `n` rows, then for each row reports it started,
/// stops with the record's map-read error if it has one, and offers each
/// image column in order: it stops when the row lacks a column the job
/// reads, skips an empty URL, and hands out the job; after a failed
/// download it prints the manual-download message and goes on.  After the
/// last row it is done.
pub open spec fn run_step(
    phase: Phase,
    request: DownloadImages,
    table: TableView,
    dir: Seq<char>,
    last_succeeded: bool,
) -> (RunActionView, Phase) {
    let n = table.row_errors.len();
    let m = request.image_column@.len();
    match phase {
        Phase::Begin => (RunActionView::Progress(0, n as int), Phase::Row(0)),
        Phase::Row(i) => if i < n {
            (RunActionView::Progress(i + 1, n as int), Phase::Check(i))
        } else {
            (RunActionView::Done, Phase::Ended)
        },
        Phase::Check(i) => if i >= n {
            (RunActionView::Done, Phase::Ended)
        } else {
            match table.row_errors[i as int] {
                Some(e) => (RunActionView::Fail(e), Phase::Ended),
                None => (RunActionView::Continue, Phase::Cell(i, 0)),
            }
        },
        Phase::Cell(i, c) => if i >= n {
            (RunActionView::Done, Phase::Ended)
        } else if c >= m {
            (RunActionView::Continue, Phase::Row((i + 1) as usize))
        } else {
            match table.row_errors[i as int] {
                Some(e) => (RunActionView::Fail(e), Phase::Ended),
                None => match cell_missing(request, table, i as int, c as int) {
                    Some(col) => (RunActionView::MissingColumn(col), Phase::Ended),
                    None => match cell_job(request, table, i as int, c as int, dir) {
                        None => (RunActionView::Continue, Phase::Cell(i, (c + 1) as usize)),
                        Some(j) => (RunActionView::Download(j), Phase::Waiting(i, c)),
                    },
                },
            }
        },
        Phase::Waiting(i, c) => if i >= n || c >= m {
            (RunActionView::Done, Phase::Ended)
        } else if last_succeeded || table.row_errors[i as int] is Some || cell_missing(
            request,
            table,
            i as int,
            c as int,
        ) is Some {
            (RunActionView::Continue, Phase::Cell(i, (c + 1) as usize))
        } else {
            match cell_job(request, table, i as int, c as int, dir) {
                Some(j) => (RunActionView::Notice(manual_message_of(j)), Phase::Cell(i, (c + 1) as usize)),
                None => (RunActionView::Continue, Phase::Cell(i, (c + 1) as usize)),
            }
        },
        Phase::Ended => (RunActionView::Done, Phase::Ended),
    }
}

/// A run of a download request.
pub struct Run {
    pub phase: Phase,
}

impl Run {
    /// A run that has not begun.
    pub fn new() -> (res: Run)
        ensures
            res.phase == Phase::Begin,
    {
        Run { phase: Phase::Begin }
    }

    /// The next action of the run of `request` over `table` into `dir`, told
    /// whether the last download succeeded (`false` when there was none).
    pub fn next(&mut self, request: &DownloadImages, table: &Table, dir: &str, last_succeeded: bool) -> (action: RunAction)
        requires
            well_formed(table@),
        ensures
            (action_view(action), final(self).phase) == run_step(
                old(self).phase,
                *request,
                table@,
                dir@,
                last_succeeded,
            ),
    {
        let n = table.row_count();
        let m = request.image_column.len();
        match self.phase {
            Phase::Begin => {
                self.phase = Phase::Row(0);
                RunAction::Progress(0, n)
            },
            Phase::Row(i) => {
                if i < n {
                    self.phase = Phase::Check(i);
                    RunAction::Progress(i + 1, n)
                } else {
                    self.phase = Phase::Ended;
                    RunAction::Done
                }
            },
            Phase::Check(i) => {
                if i >= n {
                    self.phase = Phase::Ended;
                    return RunAction::Done;
                }
                match table.row_error(i) {
                    Some(e) => {
                        self.phase = Phase::Ended;
                        RunAction::Fail(e)
                    },
                    None => {
                        self.phase = Phase::Cell(i, 0);
                        RunAction::Continue
                    },
                }
            },
            Phase::Cell(i, c) => {
                if i >= n {
                    self.phase = Phase::Ended;
                    return RunAction::Done;
                }
                if c >= m {
                    self.phase = Phase::Row(i + 1);
                    return RunAction::Continue;
                }
                if let Some(e) = table.row_error(i) {
                    self.phase = Phase::Ended;
                    return RunAction::Fail(e);
                }
                if let Some(col) = request.missing_column(table, i, c) {
                    self.phase = Phase::Ended;
                    return RunAction::MissingColumn(col);
                }
                match request.plan(table, i, c, dir) {
                    Ok(Some(job)) => {
                        self.phase = Phase::Waiting(i, c);
                        RunAction::Download(job)
                    },
                    _ => {
                        self.phase = Phase::Cell(i, c + 1);
                        RunAction::Continue
                    },
                }
            },
            Phase::Waiting(i, c) => {
                if i >= n || c >= m {
                    self.phase = Phase::Ended;
                    return RunAction::Done;
                }
                self.phase = Phase::Cell(i, c + 1);
                if last_succeeded || table.row_error(i).is_some() || request.missing_column(
                    table,
                    i,
                    c,
                ).is_some() {
                    return RunAction::Continue;
                }
                match request.plan(table, i, c, dir) {
                    Ok(Some(job)) => RunAction::Notice(job.manual_download_message()),
                    _ => RunAction::Continue,
                }
            },
            Phase::Ended => RunAction::Done,
        }
    }
}

/// Where a phase stands in the order of a run: by row, then stage, then column.
pub open spec fn position(p: Phase) -> (int, int, int) {
    match p {
        Phase::Begin => (-1, 0, 0),
        Phase::Row(i) => (i as int, 0, 0),
        Phase::Check(i) => (i as int, 1, 0),
        Phase::Cell(i, c) => (i as int, 2, 2 * c),
        Phase::Waiting(i, c) => (i as int, 2, 2 * c + 1),
        Phase::Ended => (-1, 0, 0),
    }
}

/// Whether position `a` comes before position `b`.
pub open spec fn before(a: (int, int, int), b: (int, int, int)) -> bool {
    a.0 < b.0 || (a.0 == b.0 && (a.1 < b.1 || (a.1 == b.1 && a.2 < b.2)))
}

/// A run only moves forward: every step either ends it or goes to a later
/// phase, by row, then by column, so no cell is offered twice and rows and
/// columns are taken in order.  A failed download never ends the run, and
/// the first action reports that none of the rows were started.
pub proof fn lemma_run_moves_forward(
    phase: Phase,
    request: DownloadImages,
    table: TableView,
    dir: Seq<char>,
    last_succeeded: bool,
)
    requires
        table.row_errors.len() <= usize::MAX,
        request.image_column@.len() <= usize::MAX,
    ensures
        ({
            let (action, next) = run_step(phase, request, table, dir, last_succeeded);
            &&& next == Phase::Ended || before(position(phase), position(next)) || phase
                == Phase::Begin
            &&& phase == Phase::Begin ==> action == RunActionView::Progress(
                0,
                table.row_errors.len() as int,
            ) && next == Phase::Row(0)
            &&& phase matches Phase::Waiting(i, c) ==> (i < table.row_errors.len() && c
                < request.image_column@.len() ==> next == Phase::Cell(i, (c + 1) as usize))
            &&& action is Download ==> phase is Cell && next is Waiting
        }),
{
}

/// Every cell of a readable row that has the columns a job reads is taken in
/// its turn: an empty URL skips only its own column, going on to the next
/// one; a non-empty URL is handed out for download, and afterwards the run
/// goes on to the next column, printing that the file needs a manual
/// download when the download failed.
pub proof fn lemma_run_offers_every_cell(
    request: DownloadImages,
    table: TableView,
    dir: Seq<char>,
    i: usize,
    c: usize,
    last_succeeded: bool,
)
    requires
        well_formed(table),
        i < table.row_errors.len(),
        c < request.image_column@.len(),
        table.row_errors[i as int] is None,
        lookup(table.headers->Ok_0, table.records[i as int]->Ok_0, request.creator_column@) is Some,
        lookup(
            table.headers->Ok_0,
            table.records[i as int]->Ok_0,
            request.image_column@[c as int].column@,
        ) is Some,
        request.extra_info_column matches Some(x) ==> lookup(
            table.headers->Ok_0,
            table.records[i as int]->Ok_0,
            x@,
        ) is Some,
    ensures
        ({
            let names = table.headers->Ok_0;
            let fields = table.records[i as int]->Ok_0;
            let column = request.image_column@[c as int].column@;
            let url = lookup(names, fields, column)->0;
            let creator = lookup(names, fields, request.creator_column@)->0;
            let at_cell = run_step(Phase::Cell(i, c), request, table, dir, last_succeeded);
            &&& url.len() == 0 ==> at_cell == (RunActionView::Continue, Phase::Cell(i, (c + 1) as usize))
            &&& url.len() > 0 ==> at_cell.1 == Phase::Waiting(i, c)
            &&& url.len() > 0 ==> (at_cell.0 matches RunActionView::Download(j) && j.url == url
                && j.column == column)
            &&& url.len() > 0 ==> run_step(Phase::Waiting(i, c), request, table, dir, false) == (
                RunActionView::Notice(
                    creator + "'s file in column `"@ + column + "` needs a manual download: "@ + url,
                ),
                Phase::Cell(i, (c + 1) as usize),
            )
            &&& run_step(Phase::Waiting(i, c), request, table, dir, true) == (
                RunActionView::Continue,
                Phase::Cell(i, (c + 1) as usize),
            )
        }),
{
    lemma_planned_job_is_named_from_its_row(request, table, i as int, c as int, dir);
    match request.extra_info_column {
        Some(x) => assert(opt_chars(request.extra_info_column) == Some(x@)),
        None => {},
    }
    assert(cell_missing(request, table, i as int, c as int) is None);
}

} // verus!
