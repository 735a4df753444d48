//! Shared application state: the chat transcript, the current request, the
//! last engine result, and the per-run execution record that the
//! orchestrator mutates. Exactly one instance exists per process, behind an
//! exclusive-access guard owned by the embedding program.

use vstd::prelude::*;
use crate::clock::local_time_hms;
use crate::params::{empty_params, opt_str_view, ParamsModel, QueryParams, QueryType};

verus! {

/// One chat transcript entry. The type tag distinguishes plain text from
/// renderable code previews and error notices.
#[derive(Debug, Clone)]
pub struct ChatMessage {
    pub role: String,
    pub content: String,
    pub msg_type: String,
}

/// The mathematical value of a `ChatMessage`.
#[verifier::ext_equal]
pub struct MsgModel {
    pub role: Seq<char>,
    pub content: Seq<char>,
    pub msg_type: Seq<char>,
}

impl View for ChatMessage {
    type V = MsgModel;

    open spec fn view(&self) -> MsgModel {
        MsgModel { role: self.role@, content: self.content@, msg_type: self.msg_type@ }
    }
}

impl ChatMessage {
    /// Builds a transcript entry from its three parts.
    pub fn new(role: &str, content: &str, msg_type: &str) -> (r: Self)
        ensures
            r@ == (MsgModel { role: role@, content: content@, msg_type: msg_type@ }),
    {
        let r = ChatMessage {
            role: role.to_owned(),
            content: content.to_owned(),
            msg_type: msg_type.to_owned(),
        };
        proof {
            assert(r@ =~= (MsgModel { role: role@, content: content@, msg_type: msg_type@ }));
        }
        r
    }
}

/// The one terminal outcome of a run.
#[derive(Debug, Clone)]
pub enum ExecutionResult {
    /// The engine returned at least one row.
    Success { success: bool, row_count: usize, columns: Vec<String> },
    /// The engine finished with zero rows.
    NoData { error: String, row_count: usize },
    /// The connection or the query failed.
    Error { error: String },
    /// The run was cancelled locally.
    Cancelled { cancelled: bool },
}

/// The mathematical value of an `ExecutionResult`.
#[verifier::ext_equal]
pub enum ResultModel {
    Success { success: bool, row_count: int, columns: Seq<Seq<char>> },
    NoData { message: Seq<char>, row_count: int },
    Error { message: Seq<char> },
    Cancelled { cancelled: bool },
}

impl View for ExecutionResult {
    type V = ResultModel;

    open spec fn view(&self) -> ResultModel {
        match self {
            ExecutionResult::Success { success, row_count, columns } => ResultModel::Success {
                success: *success,
                row_count: *row_count as int,
                columns: columns.deep_view(),
            },
            ExecutionResult::NoData { error, row_count } => ResultModel::NoData {
                message: error@,
                row_count: *row_count as int,
            },
            ExecutionResult::Error { error } => ResultModel::Error { message: error@ },
            ExecutionResult::Cancelled { cancelled } => ResultModel::Cancelled {
                cancelled: *cancelled,
            },
        }
    }
}

/// What the library keeps of a successful engine result: its size and
/// column names. The row payload itself stays with the engine client.
#[derive(Debug, Clone)]
pub struct ResultInfo {
    pub row_count: usize,
    pub columns: Vec<String>,
}

/// The mathematical value of a `ResultInfo`.
#[verifier::ext_equal]
pub struct InfoModel {
    pub row_count: int,
    pub columns: Seq<Seq<char>>,
}

impl View for ResultInfo {
    type V = InfoModel;

    open spec fn view(&self) -> InfoModel {
        InfoModel { row_count: self.row_count as int, columns: self.columns.deep_view() }
    }
}

/// The per-run execution record, reset at the start of each run and frozen
/// once a terminal result is set.
#[derive(Debug, Clone)]
pub struct ExecutionState {
    pub is_executing: bool,
    pub status: String,
    pub logs: Vec<String>,
    pub query_id: Option<String>,
    pub result: Option<ExecutionResult>,
}

/// The mathematical value of an `ExecutionState`.
#[verifier::ext_equal]
pub struct ExecModel {
    pub is_executing: bool,
    pub status: Seq<char>,
    pub logs: Seq<Seq<char>>,
    pub query_id: Option<Seq<char>>,
    pub result: Option<ResultModel>,
}

impl View for ExecutionState {
    type V = ExecModel;

    open spec fn view(&self) -> ExecModel {
        ExecModel {
            is_executing: self.is_executing,
            status: self.status@,
            logs: self.logs.deep_view(),
            query_id: opt_str_view(self.query_id),
            result: match self.result {
                Some(r) => Some(r@),
                None => None,
            },
        }
    }
}

/// The idle record: nothing running, nothing reported.
pub open spec fn idle_exec() -> ExecModel {
    ExecModel {
        is_executing: false,
        status: Seq::empty(),
        logs: Seq::empty(),
        query_id: None,
        result: None,
    }
}

/// The fresh record a run starts from.
pub open spec fn connecting_exec() -> ExecModel {
    ExecModel {
        is_executing: true,
        status: "Connecting to OpenSky..."@,
        logs: Seq::empty(),
        query_id: None,
        result: None,
    }
}

/// A record is terminal once a result has been written.
pub open spec fn terminal(e: ExecModel) -> bool {
    e.result is Some
}

/// Well-formedness of the execution record: while a run is executing no
/// terminal result has been written, so a poller never sees both.
pub open spec fn exec_wf(e: ExecModel) -> bool {
    e.is_executing ==> e.result is None
}

impl Default for ExecutionState {
    /// The idle record.
    fn default() -> (r: Self)
        ensures
            r@ == idle_exec(),
    {
        let r = ExecutionState {
            is_executing: false,
            status: String::new(),
            logs: Vec::new(),
            query_id: None,
            result: None,
        };
        proof {
            assert(r@ =~= idle_exec());
        }
        r
    }
}

/// A log entry: the timestamp in brackets, then the message.
pub open spec fn log_line(ts: Seq<char>, msg: Seq<char>) -> Seq<char> {
    seq!['['] + ts + seq![']', ' '] + msg
}

/// Whether `entry` is `msg` under some eight-character timestamp.
pub open spec fn is_stamped(entry: Seq<char>, msg: Seq<char>) -> bool {
    exists|ts: Seq<char>| ts.len() == 8 && entry == #[trigger] log_line(ts, msg)
}

/// Application state shared between the command surface and the
/// orchestrator.
#[derive(Debug)]
pub struct AppState {
    /// Current query parameters.
    pub query_params: QueryParams,
    /// Which query shape the next run uses.
    pub query_type: QueryType,
    /// Chat message history.
    pub messages: Vec<ChatMessage>,
    /// Size and columns of the last successful result.
    pub last_result: Option<ResultInfo>,
    /// Current execution record.
    pub execution: ExecutionState,
    /// Agent status.
    pub agent_configured: bool,
    pub provider_name: String,
    pub model_name: String,
    pub error_message: Option<String>,
}

/// The mathematical value of an `AppState`.
#[verifier::ext_equal]
pub struct AppModel {
    pub query_params: ParamsModel,
    pub query_type: QueryType,
    pub messages: Seq<MsgModel>,
    pub last_result: Option<InfoModel>,
    pub execution: ExecModel,
    pub agent_configured: bool,
    pub provider_name: Seq<char>,
    pub model_name: Seq<char>,
    pub error_message: Option<Seq<char>>,
}

impl View for AppState {
    type V = AppModel;

    open spec fn view(&self) -> AppModel {
        AppModel {
            query_params: self.query_params@,
            query_type: self.query_type,
            messages: Seq::new(self.messages@.len(), |i: int| self.messages@[i]@),
            last_result: match self.last_result {
                Some(r) => Some(r@),
                None => None,
            },
            execution: self.execution@,
            agent_configured: self.agent_configured,
            provider_name: self.provider_name@,
            model_name: self.model_name@,
            error_message: opt_str_view(self.error_message),
        }
    }
}

/// The starting state of the process.
pub open spec fn init_app() -> AppModel {
    AppModel {
        query_params: empty_params(),
        query_type: QueryType::Flights,
        messages: Seq::empty(),
        last_result: None,
        execution: idle_exec(),
        agent_configured: false,
        provider_name: Seq::empty(),
        model_name: Seq::empty(),
        error_message: None,
    }
}

impl Default for AppState {
    /// The starting state.
    fn default() -> (r: Self)
        ensures
            r@ == init_app(),
    {
        let r = AppState {
            query_params: QueryParams::new(),
            query_type: QueryType::Flights,
            messages: Vec::new(),
            last_result: None,
            execution: ExecutionState::default(),
            agent_configured: false,
            provider_name: String::new(),
            model_name: String::new(),
            error_message: None,
        };
        proof {
            assert(r@ =~= init_app());
        }
        r
    }
}

impl AppState {
    /// The starting state.
    pub fn new() -> (r: Self)
        ensures
            r@ == init_app(),
    {
        Self::default()
    }

    /// Appends a chat message.
    pub fn add_message(&mut self, role: &str, content: &str, msg_type: &str)
        ensures
            final(self)@ == (AppModel {
                messages: old(self)@.messages.push(
                    MsgModel { role: role@, content: content@, msg_type: msg_type@ },
                ),
                ..old(self)@
            }),
    {
        self.messages.push(ChatMessage::new(role, content, msg_type));
        proof {
            assert(self@ =~= (AppModel {
                messages: old(self)@.messages.push(
                    MsgModel { role: role@, content: content@, msg_type: msg_type@ },
                ),
                ..old(self)@
            }));
        }
    }

    /// Clears the chat transcript.
    pub fn clear_messages(&mut self)
        ensures
            final(self)@ == (AppModel { messages: Seq::empty(), ..old(self)@ }),
    {
        self.messages = Vec::new();
        proof {
            assert(self@ =~= (AppModel { messages: Seq::empty(), ..old(self)@ }));
        }
    }

    /// Appends a timestamped line to the run log. The timestamp comes from
    /// the wall clock; everything else about the entry is exact.
    pub fn add_log(&mut self, message: &str) -> (entry: Ghost<Seq<char>>)
        ensures
            final(self)@ == (AppModel {
                execution: ExecModel {
                    logs: old(self)@.execution.logs.push(entry@),
                    ..old(self)@.execution
                },
                ..old(self)@
            }),
            is_stamped(entry@, message@),
    {
        let ts = local_time_hms();
        let line = String::from_str("[").concat(ts.as_str()).concat("] ").concat(message);
        proof {
            reveal_strlit("[");
            reveal_strlit("] ");
            assert(line@ =~= log_line(ts@, message@));
        }
        self.execution.logs.push(line);
        proof {
            assert(self@ =~= (AppModel {
                execution: ExecModel {
                    logs: old(self)@.execution.logs.push(log_line(ts@, message@)),
                    ..old(self)@.execution
                },
                ..old(self)@
            }));
        }
        Ghost(log_line(ts@, message@))
    }

    /// Resets the execution record for a new run: executing, connecting,
    /// with an empty log.
    pub fn reset_execution(&mut self)
        ensures
            final(self)@ == (AppModel { execution: connecting_exec(), ..old(self)@ }),
    {
        self.execution = ExecutionState {
            is_executing: true,
            status: String::from_str("Connecting to OpenSky..."),
            logs: Vec::new(),
            query_id: None,
            result: None,
        };
        proof {
            assert(self@ =~= (AppModel { execution: connecting_exec(), ..old(self)@ }));
        }
    }
}

} // verus!
