//! The execution orchestrator's state machine. A run moves strictly forward
//! from idle through connecting and executing to exactly one terminal
//! outcome; each step here is one atomic mutation of the shared state,
//! applied under the embedding program's exclusive-access guard. The
//! engine's own network calls live outside; they hand their outcomes to
//! these transitions as plain values.

use vstd::prelude::*;
use crate::params::QueryType;
use crate::state::{
    is_stamped, terminal, exec_wf, AppModel, AppState, ExecModel, ExecutionResult, ExecutionState,
    InfoModel, ResultInfo, ResultModel, connecting_exec, init_app,
};
use crate::strutil::{spec_decimal, u64_to_string, usize_to_string};

verus! {

/// Why an operation on the orchestrator was refused.
#[derive(Debug, Clone, Copy, PartialEq, Eq, Structural)]
pub enum ExecRefusal {
    /// No start time is set on the current request.
    MissingStart,
    /// A run is already executing.
    AlreadyRunning,
    /// No run is executing.
    NotRunning,
}

/// The log label of a query type as it appears in the run-started line.
pub open spec fn run_label_of(qt: QueryType) -> Seq<char> {
    match qt {
        QueryType::Flights => "flight list"@,
        QueryType::Trajectory => "trajectory"@,
        QueryType::Rawdata => "raw data"@,
    }
}

/// The state after a run was accepted: a fresh connecting record whose log
/// holds the single entry `e`.
pub open spec fn spec_start(m: AppModel, e: Seq<char>) -> AppModel {
    AppModel {
        execution: ExecModel { logs: seq![e], ..connecting_exec() },
        ..m
    }
}

/// The state after one more log entry.
pub open spec fn spec_logged(m: AppModel, e: Seq<char>) -> AppModel {
    AppModel {
        execution: ExecModel { logs: m.execution.logs.push(e), ..m.execution },
        ..m
    }
}

/// The state after the engine connection succeeded.
pub open spec fn spec_connected(m: AppModel, e: Seq<char>) -> AppModel {
    AppModel {
        execution: ExecModel {
            status: "Executing query..."@,
            logs: m.execution.logs.push(e),
            ..m.execution
        },
        ..m
    }
}

/// The status line shown while the engine reports progress.
pub open spec fn progress_status(label: Seq<char>, prog: Seq<char>, rows: nat) -> Seq<char> {
    label + " | "@ + prog + "% | "@ + spec_decimal(rows) + " rows"@
}

/// A progress report that carries no new query handle: only the status
/// line changes.
pub open spec fn spec_progress_noid(
    m: AppModel,
    label: Seq<char>,
    prog: Seq<char>,
    rows: nat,
) -> AppModel {
    AppModel {
        execution: ExecModel { status: progress_status(label, prog, rows), ..m.execution },
        ..m
    }
}

/// The first progress report with a query handle: the handle is recorded
/// and two log entries are written.
pub open spec fn spec_progress_newid(
    m: AppModel,
    label: Seq<char>,
    prog: Seq<char>,
    rows: nat,
    q: Seq<char>,
    e1: Seq<char>,
    e2: Seq<char>,
) -> AppModel {
    AppModel {
        execution: ExecModel {
            status: progress_status(label, prog, rows),
            query_id: Some(q),
            logs: m.execution.logs.push(e1).push(e2),
            ..m.execution
        },
        ..m
    }
}

/// A terminal failure: the message becomes the result, the status reads
/// Error, and nothing is left executing.
pub open spec fn spec_failed(m: AppModel, e: Seq<char>, msg: Seq<char>) -> AppModel {
    AppModel {
        execution: ExecModel {
            is_executing: false,
            status: "Error"@,
            logs: m.execution.logs.push(e),
            query_id: m.execution.query_id,
            result: Some(ResultModel::Error { message: msg }),
        },
        ..m
    }
}

/// A terminal empty result.
pub open spec fn spec_no_data(m: AppModel, e: Seq<char>) -> AppModel {
    AppModel {
        execution: ExecModel {
            is_executing: false,
            status: "No data found"@,
            logs: m.execution.logs.push(e),
            query_id: m.execution.query_id,
            result: Some(ResultModel::NoData { message: "No data found"@, row_count: 0 }),
        },
        ..m
    }
}

/// A terminal successful result; the size and columns are also stored as
/// the last result for later export.
pub open spec fn spec_success(m: AppModel, e: Seq<char>, rows: int, cols: Seq<Seq<char>>) -> AppModel {
    AppModel {
        execution: ExecModel {
            is_executing: false,
            status: "Complete"@,
            logs: m.execution.logs.push(e),
            query_id: m.execution.query_id,
            result: Some(ResultModel::Success { success: true, row_count: rows, columns: cols }),
        },
        last_result: Some(InfoModel { row_count: rows, columns: cols }),
        ..m
    }
}

/// The state after cancellation was requested on a run without a recorded
/// handle.
pub open spec fn spec_cancel_begin_noid(m: AppModel, e1: Seq<char>) -> AppModel {
    AppModel {
        execution: ExecModel {
            status: "Cancelling..."@,
            logs: m.execution.logs.push(e1),
            ..m.execution
        },
        ..m
    }
}

/// The state after cancellation was requested on a run whose handle is
/// recorded: one more log entry announces the remote cancel attempt.
pub open spec fn spec_cancel_begin_id(m: AppModel, e1: Seq<char>, e2: Seq<char>) -> AppModel {
    AppModel {
        execution: ExecModel {
            status: "Cancelling..."@,
            logs: m.execution.logs.push(e1).push(e2),
            ..m.execution
        },
        ..m
    }
}

/// The forced terminal outcome of a cancellation, applied whether or not
/// the remote side acknowledged.
pub open spec fn spec_cancel_finish(m: AppModel) -> AppModel {
    AppModel {
        execution: ExecModel {
            is_executing: false,
            status: "Cancelled"@,
            logs: m.execution.logs,
            query_id: m.execution.query_id,
            result: Some(ResultModel::Cancelled { cancelled: true }),
        },
        ..m
    }
}

impl AppState {
    /// Accepts or refuses a new run. A request without a start time is
    /// refused; so is a start while a run is executing, which changes
    /// nothing. An accepted start resets the record to a fresh connecting
    /// state with one log entry; all later changes happen through the
    /// transitions below.
    pub fn start_query(&mut self) -> (r: Result<(), ExecRefusal>)
        ensures
            old(self)@.execution.is_executing ==> r is Err && final(self)@ == old(self)@,
            old(self)@.query_params.start is None ==> r == Err::<(), ExecRefusal>(
                ExecRefusal::MissingStart,
            ) && final(self)@ == old(self)@,
            old(self)@.query_params.start is Some && old(self)@.execution.is_executing ==> r
                == Err::<(), ExecRefusal>(ExecRefusal::AlreadyRunning),
            old(self)@.query_params.start is Some && !old(self)@.execution.is_executing ==> r
                is Ok && (exists|e: Seq<char>|
                is_stamped(e, "Starting query execution"@) && final(self)@ == #[trigger] spec_start(
                    old(self)@,
                    e,
                )),
    {
        if self.query_params.start.is_none() {
            return Err(ExecRefusal::MissingStart);
        }
        if self.execution.is_executing {
            return Err(ExecRefusal::AlreadyRunning);
        }
        self.reset_execution();
        let entry = self.add_log("Starting query execution");
        proof {
            assert(self@ =~= spec_start(old(self)@, entry@));
        }
        Ok(())
    }

    /// Logs that the background unit took up the run, naming the query
    /// shape.
    pub fn log_run_started(&mut self, query_type: QueryType)
        ensures
            exists|e: Seq<char>|
                is_stamped(e, "Starting "@ + run_label_of(query_type) + " query execution"@)
                    && final(self)@ == #[trigger] spec_logged(old(self)@, e),
    {
        let msg = String::from_str("Starting ").concat(query_type.run_label()).concat(
            " query execution",
        );
        let entry = self.add_log(msg.as_str());
        proof {
            assert(self@ =~= spec_logged(old(self)@, entry@));
        }
    }

    /// Records that the connection to the engine failed: a terminal error
    /// before the run ever reached the executing stage.
    pub fn apply_connection_failed(&mut self, error: &str)
        ensures
            exists|e: Seq<char>|
                is_stamped(e, "Connection error: "@ + error@) && final(self)@
                    == #[trigger] spec_failed(old(self)@, e, error@),
    {
        let msg = String::from_str("Connection error: ").concat(error);
        let entry = self.add_log(msg.as_str());
        self.execution.status = String::from_str("Error");
        self.execution.result = Some(ExecutionResult::Error { error: error.to_owned() });
        self.execution.is_executing = false;
        proof {
            assert(self@ =~= spec_failed(old(self)@, entry@, error@));
        }
    }

    /// Records that the connection stands and the engine call was issued.
    pub fn apply_connected(&mut self)
        ensures
            exists|e: Seq<char>|
                is_stamped(e, "Connected to OpenSky Trino"@) && final(self)@
                    == #[trigger] spec_connected(old(self)@, e),
    {
        let entry = self.add_log("Connected to OpenSky Trino");
        self.execution.status = String::from_str("Executing query...");
        proof {
            assert(self@ =~= spec_connected(old(self)@, entry@));
        }
    }

    /// Applies one progress report. The status line is rebuilt from the
    /// engine's state label, the rendered percentage, and the running row
    /// count. The first report that carries a query handle records it and
    /// logs it, exactly once; later handles are ignored.
    pub fn apply_progress(
        &mut self,
        state_label: &str,
        progress_text: &str,
        row_count: u64,
        query_id: Option<String>,
    )
        ensures
            (old(self)@.execution.query_id is Some || query_id is None) ==> final(self)@
                == spec_progress_noid(
                old(self)@,
                state_label@,
                progress_text@,
                row_count as nat,
            ),
            match query_id {
                Some(q) => old(self)@.execution.query_id is None ==> exists|
                    e1: Seq<char>,
                    e2: Seq<char>,
                |
                    {
                        &&& is_stamped(e1, "Query ID: "@ + q@)
                        &&& is_stamped(
                            e2,
                            "Check progress at: https://trino.opensky-network.org/ui/query.html?"@
                                + q@,
                        )
                        &&& final(self)@ == #[trigger] spec_progress_newid(
                            old(self)@,
                            state_label@,
                            progress_text@,
                            row_count as nat,
                            q@,
                            e1,
                            e2,
                        )
                    },
                None => true,
            },
    {
        let line = state_label.to_owned().concat(" | ").concat(progress_text).concat(
            "% | ",
        ).concat(u64_to_string(row_count).as_str()).concat(" rows");
        proof {
            assert(line@ =~= progress_status(state_label@, progress_text@, row_count as nat));
        }
        self.execution.status = line;
        if self.execution.query_id.is_none() {
            if let Some(q) = query_id {
                let m1 = String::from_str("Query ID: ").concat(q.as_str());
                let e1 = self.add_log(m1.as_str());
                let m2 = String::from_str(
                    "Check progress at: https://trino.opensky-network.org/ui/query.html?",
                ).concat(q.as_str());
                let e2 = self.add_log(m2.as_str());
                self.execution.query_id = Some(q);
                proof {
                    assert(self@ =~= spec_progress_newid(
                        old(self)@,
                        state_label@,
                        progress_text@,
                        row_count as nat,
                        q@,
                        e1@,
                        e2@,
                    ));
                }
            } else {
                proof {
                    assert(self@ =~= spec_progress_noid(
                        old(self)@,
                        state_label@,
                        progress_text@,
                        row_count as nat,
                    ));
                }
            }
        } else {
            proof {
                assert(self@ =~= spec_progress_noid(
                    old(self)@,
                    state_label@,
                    progress_text@,
                    row_count as nat,
                ));
            }
        }
    }

    /// Records the engine's successful return: zero rows end the run with
    /// an empty terminal result; one or more rows end it with a successful
    /// one, whose size and columns also become the last result.
    pub fn apply_query_result(&mut self, row_count: usize, columns: Vec<String>)
        ensures
            row_count == 0 ==> exists|e: Seq<char>|
                is_stamped(e, "No data found"@) && final(self)@ == #[trigger] spec_no_data(
                    old(self)@,
                    e,
                ),
            row_count > 0 ==> exists|e: Seq<char>|
                is_stamped(e, "Retrieved "@ + spec_decimal(row_count as nat) + " rows"@)
                    && final(self)@ == #[trigger] spec_success(
                    old(self)@,
                    e,
                    row_count as int,
                    columns.deep_view(),
                ),
    {
        if row_count == 0 {
            let entry = self.add_log("No data found");
            self.execution.status = String::from_str("No data found");
            self.execution.result = Some(
                ExecutionResult::NoData { error: String::from_str("No data found"), row_count: 0 },
            );
            self.execution.is_executing = false;
            proof {
                assert(self@ =~= spec_no_data(old(self)@, entry@));
            }
        } else {
            let msg = String::from_str("Retrieved ").concat(usize_to_string(row_count).as_str())
                .concat(" rows");
            let entry = self.add_log(msg.as_str());
            self.execution.status = String::from_str("Complete");
            let cols = clone_string_vec(&columns);
            self.execution.result = Some(
                ExecutionResult::Success { success: true, row_count, columns: cols },
            );
            self.last_result = Some(ResultInfo { row_count, columns });
            self.execution.is_executing = false;
            proof {
                assert(self@ =~= spec_success(
                    old(self)@,
                    entry@,
                    row_count as int,
                    columns.deep_view(),
                ));
            }
        }
    }

    /// Records the engine's failure: a terminal error carrying the
    /// engine's message.
    pub fn apply_query_error(&mut self, error: &str)
        ensures
            exists|e: Seq<char>|
                is_stamped(e, "Error: "@ + error@) && final(self)@ == #[trigger] spec_failed(
                    old(self)@,
                    e,
                    error@,
                ),
    {
        let msg = String::from_str("Error: ").concat(error);
        let entry = self.add_log(msg.as_str());
        self.execution.status = String::from_str("Error");
        self.execution.result = Some(ExecutionResult::Error { error: error.to_owned() });
        self.execution.is_executing = false;
        proof {
            assert(self@ =~= spec_failed(old(self)@, entry@, error@));
        }
    }

    /// Accepts or refuses a cancellation. Refusal changes nothing. An
    /// accepted request marks the run as cancelling and hands back the
    /// recorded query handle, if any: the caller attempts a remote cancel
    /// exactly when one is returned, then forces the terminal outcome with
    /// `cancel_finish` either way.
    pub fn cancel_begin(&mut self) -> (r: Result<Option<String>, ExecRefusal>)
        ensures
            !old(self)@.execution.is_executing ==> r == Err::<Option<String>, ExecRefusal>(
                ExecRefusal::NotRunning,
            ) && final(self)@ == old(self)@,
            old(self)@.execution.is_executing && old(self)@.execution.query_id is None ==> (
            r matches Ok(h) && h is None) && (exists|e1: Seq<char>|
                is_stamped(e1, "Cancellation requested..."@) && final(self)@
                    == #[trigger] spec_cancel_begin_noid(old(self)@, e1)),
            match old(self)@.execution.query_id {
                Some(q) => old(self)@.execution.is_executing ==> (r matches Ok(h) && (
                h matches Some(hs) && hs@ == q)) && (exists|e1: Seq<char>, e2: Seq<char>|
                    {
                        &&& is_stamped(e1, "Cancellation requested..."@)
                        &&& is_stamped(e2, "Cancelling Trino query "@ + q + "..."@)
                        &&& final(self)@ == #[trigger] spec_cancel_begin_id(old(self)@, e1, e2)
                    }),
                None => true,
            },
    {
        if !self.execution.is_executing {
            return Err(ExecRefusal::NotRunning);
        }
        let e1 = self.add_log("Cancellation requested...");
        self.execution.status = String::from_str("Cancelling...");
        let handle: Option<String> = match &self.execution.query_id {
            Some(q) => Some(q.clone()),
            None => None,
        };
        match &handle {
            Some(q) => {
                let m2 = String::from_str("Cancelling Trino query ").concat(q.as_str()).concat(
                    "...",
                );
                let e2 = self.add_log(m2.as_str());
                proof {
                    assert(self@ =~= spec_cancel_begin_id(old(self)@, e1@, e2@));
                }
            },
            None => {
                proof {
                    assert(self@ =~= spec_cancel_begin_noid(old(self)@, e1@));
                }
            },
        }
        Ok(handle)
    }

    /// Forces the terminal cancelled outcome, whatever the remote side
    /// answered; after this, nothing is left executing.
    pub fn cancel_finish(&mut self)
        ensures
            final(self)@ == spec_cancel_finish(old(self)@),
    {
        self.execution.status = String::from_str("Cancelled");
        self.execution.result = Some(ExecutionResult::Cancelled { cancelled: true });
        self.execution.is_executing = false;
        proof {
            assert(self@ =~= spec_cancel_finish(old(self)@));
        }
    }
}

fn clone_string_vec(v: &Vec<String>) -> (r: Vec<String>)
    ensures
        r.deep_view() == v.deep_view(),
{
    let mut r: Vec<String> = Vec::new();
    let mut i: usize = 0;
    while i < v.len()
        invariant
            i <= v@.len(),
            r@.len() == i,
            forall|k: int| 0 <= k < i ==> r@[k]@ == #[trigger] v@[k]@,
        decreases v@.len() - i,
    {
        r.push(v[i].clone());
        i += 1;
    }
    proof {
        assert(r.deep_view() =~= v.deep_view());
    }
    r
}

/// What a poller sees: one consistent snapshot of the execution record.
#[derive(Debug, Clone)]
pub struct StatusView {
    pub is_executing: bool,
    pub status: String,
    pub logs: Vec<String>,
    pub complete: bool,
    pub result: Option<ExecutionResult>,
    pub can_cancel: bool,
}

fn clone_result(r: &ExecutionResult) -> (c: ExecutionResult)
    ensures
        c@ == r@,
{
    match r {
        ExecutionResult::Success { success, row_count, columns } => {
            let c = ExecutionResult::Success {
                success: *success,
                row_count: *row_count,
                columns: clone_string_vec(columns),
            };
            proof {
                assert(c@ =~= r@);
            }
            c
        },
        ExecutionResult::NoData { error, row_count } => ExecutionResult::NoData {
            error: error.clone(),
            row_count: *row_count,
        },
        ExecutionResult::Error { error } => ExecutionResult::Error { error: error.clone() },
        ExecutionResult::Cancelled { cancelled } => ExecutionResult::Cancelled {
            cancelled: *cancelled,
        },
    }
}

impl AppState {
    /// Reads the execution record for display. Completion is advertised
    /// exactly when a terminal result exists, and cancellation is offered
    /// only while a run is executing with a recorded handle.
    pub fn status_snapshot(&self) -> (r: StatusView)
        ensures
            r.is_executing == self@.execution.is_executing,
            r.status@ == self@.execution.status,
            r.logs.deep_view() == self@.execution.logs,
            r.complete == terminal(self@.execution),
            match r.result {
                Some(x) => self@.execution.result == Some(x@),
                None => self@.execution.result is None,
            },
            r.can_cancel == (self@.execution.is_executing && self@.execution.query_id is Some),
    {
        let result = match &self.execution.result {
            Some(x) => Some(clone_result(x)),
            None => None,
        };
        let complete = match &self.execution.result {
            Some(_) => true,
            None => false,
        };
        let can_cancel = self.execution.is_executing && match &self.execution.query_id {
            Some(_) => true,
            None => false,
        };
        StatusView {
            is_executing: self.execution.is_executing,
            status: self.execution.status.clone(),
            logs: clone_string_vec(&self.execution.logs),
            complete,
            result,
            can_cancel,
        }
    }
}

/// A record that reached a terminal outcome is not executing, whichever
/// transition produced it; so a poller that sees a result sees the run
/// stopped.
pub proof fn lemma_terminal_not_executing(
    m: AppModel,
    e: Seq<char>,
    msg: Seq<char>,
    rows: int,
    cols: Seq<Seq<char>>,
)
    ensures
        terminal(spec_failed(m, e, msg).execution) && !spec_failed(m, e, msg).execution.is_executing,
        terminal(spec_no_data(m, e).execution) && !spec_no_data(m, e).execution.is_executing,
        terminal(spec_success(m, e, rows, cols).execution) && !spec_success(
            m,
            e,
            rows,
            cols,
        ).execution.is_executing,
        terminal(spec_cancel_finish(m).execution) && !spec_cancel_finish(m).execution.is_executing,
{
}

/// The converse direction: in a well-formed record, an executing run never
/// carries a terminal result.
pub proof fn lemma_no_result_while_executing(e: ExecModel)
    requires
        exec_wf(e),
        e.is_executing,
    ensures
        !terminal(e),
{
}

/// Well-formedness holds of the starting state and is preserved by every
/// transition, so every reachable record satisfies it.
pub proof fn lemma_wf_preserved(
    m: AppModel,
    e1: Seq<char>,
    e2: Seq<char>,
    label: Seq<char>,
    prog: Seq<char>,
    rows: nat,
    q: Seq<char>,
    msg: Seq<char>,
    count: int,
    cols: Seq<Seq<char>>,
)
    requires
        exec_wf(m.execution),
    ensures
        exec_wf(init_app().execution),
        exec_wf(spec_start(m, e1).execution),
        exec_wf(spec_logged(m, e1).execution),
        exec_wf(spec_connected(m, e1).execution),
        exec_wf(spec_progress_noid(m, label, prog, rows).execution),
        exec_wf(spec_progress_newid(m, label, prog, rows, q, e1, e2).execution),
        exec_wf(spec_failed(m, e1, msg).execution),
        exec_wf(spec_no_data(m, e1).execution),
        exec_wf(spec_success(m, e1, count, cols).execution),
        exec_wf(spec_cancel_begin_noid(m, e1).execution),
        exec_wf(spec_cancel_begin_id(m, e1, e2).execution),
        exec_wf(spec_cancel_finish(m).execution),
{
}

/// Cancelling an executing run that has no recorded handle hands back no
/// handle (so no remote cancel is attempted) and still ends, after the
/// forced finish, in a terminal cancelled record with nothing executing.
pub proof fn lemma_cancel_without_handle(m: AppModel, e1: Seq<char>)
    requires
        m.execution.is_executing,
        m.execution.query_id is None,
    ensures
        ({
            let after = spec_cancel_finish(spec_cancel_begin_noid(m, e1));
            &&& !after.execution.is_executing
            &&& after.execution.result == Some(ResultModel::Cancelled { cancelled: true })
            &&& terminal(after.execution)
        }),
{
}

/// One log is a prefix of another: nothing already written ever changes.
pub open spec fn log_prefix(a: Seq<Seq<char>>, b: Seq<Seq<char>>) -> bool {
    a.len() <= b.len() && b.subrange(0, a.len() as int) == a
}

/// Within a run the log is append-only: every transition after the start
/// keeps what was already written and only adds to it. (An accepted start
/// deliberately begins a fresh log.)
pub proof fn lemma_logs_append_only(
    m: AppModel,
    e1: Seq<char>,
    e2: Seq<char>,
    label: Seq<char>,
    prog: Seq<char>,
    rows: nat,
    q: Seq<char>,
    msg: Seq<char>,
    count: int,
    cols: Seq<Seq<char>>,
)
    ensures
        log_prefix(m.execution.logs, spec_logged(m, e1).execution.logs),
        log_prefix(m.execution.logs, spec_connected(m, e1).execution.logs),
        log_prefix(m.execution.logs, spec_progress_noid(m, label, prog, rows).execution.logs),
        log_prefix(
            m.execution.logs,
            spec_progress_newid(m, label, prog, rows, q, e1, e2).execution.logs,
        ),
        log_prefix(m.execution.logs, spec_failed(m, e1, msg).execution.logs),
        log_prefix(m.execution.logs, spec_no_data(m, e1).execution.logs),
        log_prefix(m.execution.logs, spec_success(m, e1, count, cols).execution.logs),
        log_prefix(m.execution.logs, spec_cancel_begin_noid(m, e1).execution.logs),
        log_prefix(m.execution.logs, spec_cancel_begin_id(m, e1, e2).execution.logs),
        log_prefix(m.execution.logs, spec_cancel_finish(m).execution.logs),
{
    let l = m.execution.logs;
    assert(l.push(e1).subrange(0, l.len() as int) =~= l);
    assert(l.push(e1).push(e2).subrange(0, l.len() as int) =~= l);
    assert(l.subrange(0, l.len() as int) =~= l);
}

} // verus!
