use vstd::prelude::*;

use crate::func_backend::{
    computed_view, execute_in_process, in_process_result, is_script_backed, kind_name, ComputedValue,
    FuncBackendError, FuncBackendKind,
};
use crate::ids::FuncId;
use crate::json::str_eq;

verus! {

/// Where one execution stands.
#[derive(Clone, Copy, Debug, PartialEq, Eq, Structural)]
pub enum FuncExecutionState {
    Start,
    Dispatch,
    Run,
    Success,
    Failure,
}

/// Whether an execution may move from `from` to `to`: `Start`, then `Dispatch` for work sent
/// out of process, then `Run`, then one of the two terminal states.
pub open spec fn allowed_transition(from: FuncExecutionState, to: FuncExecutionState) -> bool {
    match (from, to) {
        (FuncExecutionState::Start, FuncExecutionState::Dispatch) => true,
        (FuncExecutionState::Start, FuncExecutionState::Run) => true,
        (FuncExecutionState::Dispatch, FuncExecutionState::Run) => true,
        (FuncExecutionState::Run, FuncExecutionState::Success) => true,
        (FuncExecutionState::Run, FuncExecutionState::Failure) => true,
        _ => false,
    }
}

/// Whether no transition leaves the state.
pub open spec fn is_terminal(s: FuncExecutionState) -> bool {
    s == FuncExecutionState::Success || s == FuncExecutionState::Failure
}

/// A transition that the execution state machine does not allow.
#[derive(Clone, Copy, Debug, PartialEq, Eq, Structural)]
pub enum FuncExecutionError {
    InvalidTransition(FuncExecutionState, FuncExecutionState),
}

/// The record of one invocation: its state, the output lines it produced and its result.
#[derive(Debug)]
pub struct FuncExecution {
    func_id: FuncId,
    state: FuncExecutionState,
    history: Vec<FuncExecutionState>,
    output: Vec<String>,
    value: Option<ComputedValue>,
}

impl FuncExecution {
    pub closed spec fn spec_state(&self) -> FuncExecutionState {
        self.state
    }

    /// Every state the execution has been in, oldest first.
    pub closed spec fn spec_history(&self) -> Seq<FuncExecutionState> {
        self.history@
    }

    pub closed spec fn spec_output(&self) -> Seq<String> {
        self.output@
    }

    pub closed spec fn spec_value(&self) -> Option<(Option<Seq<char>>, Option<Seq<char>>)> {
        match self.value {
            Some(v) => Some(computed_view(v)),
            None => None,
        }
    }

    pub closed spec fn spec_func_id(&self) -> FuncId {
        self.func_id
    }

    pub fn new(func_id: FuncId) -> (e: Self)
        ensures
            e.spec_state() == FuncExecutionState::Start,
            e.spec_history() == seq![FuncExecutionState::Start],
            e.spec_output().len() == 0,
            e.spec_value() is None,
            e.spec_func_id() == func_id,
    {
        FuncExecution {
            func_id,
            state: FuncExecutionState::Start,
            history: vec![FuncExecutionState::Start],
            output: Vec::new(),
            value: None,
        }
    }

    pub fn state(&self) -> (r: FuncExecutionState)
        ensures
            r == self.spec_state(),
    {
        self.state
    }

    pub fn func_id(&self) -> (r: FuncId)
        ensures
            r == self.spec_func_id(),
    {
        self.func_id
    }

    /// The states the execution has been in, oldest first.
    pub fn history(&self) -> (r: &Vec<FuncExecutionState>)
        ensures
            r@ == self.spec_history(),
    {
        &self.history
    }

    /// The captured output lines.
    pub fn output_stream(&self) -> (r: &Vec<String>)
        ensures
            r@ == self.spec_output(),
    {
        &self.output
    }

    /// The recorded result, once there is one.
    pub fn value(&self) -> (r: &Option<ComputedValue>)
        ensures
            match r {
                Some(v) => self.spec_value() == Some(computed_view(*v)),
                None => self.spec_value() is None,
            },
    {
        &self.value
    }

    /// Moves to `to` when the state machine allows it; a terminal state is never left.
    pub fn set_state(&mut self, to: FuncExecutionState) -> (r: Result<(), FuncExecutionError>)
        ensures
            final(self).spec_output() == old(self).spec_output(),
            final(self).spec_value() == old(self).spec_value(),
            final(self).spec_func_id() == old(self).spec_func_id(),
            allowed_transition(old(self).spec_state(), to) ==> r is Ok && final(self).spec_state() == to
                && final(self).spec_history() == old(self).spec_history().push(to),
            !allowed_transition(old(self).spec_state(), to) ==> r == Err::<(), FuncExecutionError>(
                FuncExecutionError::InvalidTransition(old(self).spec_state(), to),
            ) && final(self).spec_state() == old(self).spec_state()
                && final(self).spec_history() == old(self).spec_history(),
    {
        let ok = match (self.state, to) {
            (FuncExecutionState::Start, FuncExecutionState::Dispatch) => true,
            (FuncExecutionState::Start, FuncExecutionState::Run) => true,
            (FuncExecutionState::Dispatch, FuncExecutionState::Run) => true,
            (FuncExecutionState::Run, FuncExecutionState::Success) => true,
            (FuncExecutionState::Run, FuncExecutionState::Failure) => true,
            _ => false,
        };
        if ok {
            self.state = to;
            self.history.push(to);
            Ok(())
        } else {
            Err(FuncExecutionError::InvalidTransition(self.state, to))
        }
    }

    /// Records the output lines the invocation produced.
    pub fn set_output_stream(&mut self, output: Vec<String>)
        ensures
            final(self).spec_output() == output@,
            final(self).spec_state() == old(self).spec_state(),
            final(self).spec_history() == old(self).spec_history(),
            final(self).spec_value() == old(self).spec_value(),
            final(self).spec_func_id() == old(self).spec_func_id(),
    {
        self.output = output;
    }

    /// Records the result of the invocation.
    pub fn process_return_value(&mut self, value: ComputedValue)
        ensures
            final(self).spec_value() == Some(computed_view(value)),
            final(self).spec_output() == old(self).spec_output(),
            final(self).spec_state() == old(self).spec_state(),
            final(self).spec_history() == old(self).spec_history(),
            final(self).spec_func_id() == old(self).spec_func_id(),
    {
        self.value = Some(value);
    }
}

/// A function as the dispatcher needs it.
#[derive(Debug)]
pub struct Func {
    pub id: FuncId,
    pub backend_kind: FuncBackendKind,
    pub handler: Option<String>,
    pub code_base64: Option<String>,
    pub code_sha256: String,
}

/// A function bound to concrete arguments (JSON text), with the hash of the function's code
/// at binding time.
#[derive(Debug)]
pub struct FuncBinding {
    args: String,
    func_id: FuncId,
    backend_kind: FuncBackendKind,
    code_sha256: String,
}

/// Why a binding could not be executed.
#[derive(Debug)]
pub enum FuncBindingError {
    /// The function reported a failure of its own.
    FuncBackendResultFailure { kind: String, message: String, backend: String },
    /// An in-process backend rejected its arguments.
    FuncBackend(FuncBackendError),
    /// The execution record refused a transition.
    FuncExecutionError(FuncExecutionError),
    /// The function handed over is not the one the binding refers to.
    FuncMismatch(FuncId),
    /// A script-backed function lacks its handler or its code.
    JsFuncNotFound(FuncId),
}

/// A request to the external execution service.
#[derive(Debug)]
pub struct ExecutionRequest {
    pub backend_kind: FuncBackendKind,
    pub handler: String,
    pub code_base64: String,
    pub args: String,
}

/// The terminal result that the external execution service returns.
#[derive(Debug)]
pub enum RemoteResult {
    Success { unprocessed_value: Option<String>, processed_value: Option<String> },
    Failure { kind: String, message: String },
}

/// Where an execution goes after it has been prepared.
#[derive(Debug)]
pub enum Dispatched {
    /// Computed in process.
    Done(FuncExecution, ComputedValue),
    /// To be sent to the external execution service.
    Remote(FuncExecution, ExecutionRequest),
}

impl FuncBinding {
    pub closed spec fn spec_args(&self) -> Seq<char> {
        self.args@
    }

    pub closed spec fn spec_func_id(&self) -> FuncId {
        self.func_id
    }

    pub closed spec fn spec_backend_kind(&self) -> FuncBackendKind {
        self.backend_kind
    }

    pub closed spec fn spec_code_sha256(&self) -> Seq<char> {
        self.code_sha256@
    }

    /// Binds `args` to `func`, capturing the hash of its code; nothing is executed.
    pub fn new(args: String, func: &Func, backend_kind: FuncBackendKind) -> (b: Self)
        ensures
            b.spec_args() == args@,
            b.spec_func_id() == func.id,
            b.spec_backend_kind() == backend_kind,
            b.spec_code_sha256() == func.code_sha256@,
    {
        FuncBinding { args, func_id: func.id, backend_kind, code_sha256: func.code_sha256.clone() }
    }

    /// Binds `args` to `func` and records `value` as the result, with nothing executed: used
    /// to seed a value.
    pub fn create_with_existing_value(args: String, value: Option<String>, func: &Func) -> (r: (Self, ComputedValue))
        ensures
            r.0.spec_args() == args@,
            r.0.spec_func_id() == func.id,
            r.0.spec_backend_kind() == func.backend_kind,
            r.0.spec_code_sha256() == func.code_sha256@,
            computed_view(r.1) == (match value { Some(v) => Some(v@), None => None::<Seq<char>> },
                match value { Some(v) => Some(v@), None => None::<Seq<char>> }),
    {
        let binding = FuncBinding::new(args, func, func.backend_kind);
        let copy = clone_text(&value);
        (binding, ComputedValue { unprocessed_value: copy, processed_value: value })
    }

    /// Binds `args` to `func` with the function's own backend kind, and executes the binding.
    pub fn create_and_execute(args: String, func: &Func) -> (r: (Self, Result<Dispatched, FuncBindingError>))
        ensures
            r.0.spec_args() == args@,
            r.0.spec_func_id() == func.id,
            r.0.spec_backend_kind() == func.backend_kind,
            r.0.spec_code_sha256() == func.code_sha256@,
            !is_script_backed(func.backend_kind) ==> match r.1 {
                Ok(Dispatched::Done(e, v)) => in_process_result(func.backend_kind, args@) == Some(computed_view(v))
                    && e.spec_state() == FuncExecutionState::Success && e.spec_value() == Some(computed_view(v))
                    && e.spec_history() == seq![FuncExecutionState::Start, FuncExecutionState::Run, FuncExecutionState::Success],
                Err(FuncBindingError::FuncBackend(_)) => in_process_result(func.backend_kind, args@) is None,
                _ => false,
            },
            is_script_backed(func.backend_kind) ==> match r.1 {
                Ok(Dispatched::Remote(e, req)) => e.spec_state() == FuncExecutionState::Run && req.args@ == args@
                    && e.spec_history() == seq![FuncExecutionState::Start, FuncExecutionState::Dispatch, FuncExecutionState::Run],
                Err(FuncBindingError::JsFuncNotFound(_)) => func.handler is None || func.code_base64 is None,
                _ => false,
            },
    {
        let binding = FuncBinding::new(args, func, func.backend_kind);
        let result = binding.execute(func);
        (binding, result)
    }

    pub fn args(&self) -> (r: &String)
        ensures
            r@ == self.spec_args(),
    {
        &self.args
    }

    pub fn func_id(&self) -> (r: FuncId)
        ensures
            r == self.spec_func_id(),
    {
        self.func_id
    }

    pub fn backend_kind(&self) -> (r: FuncBackendKind)
        ensures
            r == self.spec_backend_kind(),
    {
        self.backend_kind
    }

    pub fn code_sha256(&self) -> (r: &String)
        ensures
            r@ == self.spec_code_sha256(),
    {
        &self.code_sha256
    }

    /// Whether the function's code changed after it was bound.
    pub fn is_stale(&self, func: &Func) -> (r: bool)
        ensures
            r == (func.code_sha256@ != self.spec_code_sha256()),
    {
        !str_eq(func.code_sha256.as_str(), self.code_sha256.as_str())
    }

    /// Creates the execution record and walks it to `Run`, through `Dispatch` for a
    /// script-backed kind.
    pub fn prepare_execution(&self, func: &Func) -> (r: Result<FuncExecution, FuncBindingError>)
        ensures
            func.id != self.spec_func_id() <==> r is Err,
            r matches Err(e) ==> e == FuncBindingError::FuncMismatch(func.id),
            r matches Ok(e) ==> e.spec_state() == FuncExecutionState::Run && e.spec_func_id() == func.id
                && e.spec_output().len() == 0 && e.spec_value() is None
                && e.spec_history() == (if is_script_backed(self.spec_backend_kind()) {
                    seq![FuncExecutionState::Start, FuncExecutionState::Dispatch, FuncExecutionState::Run]
                } else {
                    seq![FuncExecutionState::Start, FuncExecutionState::Run]
                }),
    {
        if func.id != self.func_id {
            return Err(FuncBindingError::FuncMismatch(func.id));
        }
        let mut execution = FuncExecution::new(func.id);
        if self.backend_kind.is_script_backed() {
            let _ = execution.set_state(FuncExecutionState::Dispatch);
        }
        let _ = execution.set_state(FuncExecutionState::Run);
        proof {
            if is_script_backed(self.spec_backend_kind()) {
                assert(execution.spec_history() =~= seq![FuncExecutionState::Start, FuncExecutionState::Dispatch, FuncExecutionState::Run]);
            } else {
                assert(execution.spec_history() =~= seq![FuncExecutionState::Start, FuncExecutionState::Run]);
            }
        }
        Ok(execution)
    }

    /// Dispatches on the backend kind: an in-process kind is computed here, a script-backed
    /// kind becomes a request for the external execution service.
    pub fn execute_critical_section(&self, func: &Func) -> (r: Result<Result<ComputedValue, ExecutionRequest>, FuncBindingError>)
        ensures
            !is_script_backed(self.spec_backend_kind()) ==> match r {
                Ok(Ok(v)) => in_process_result(self.spec_backend_kind(), self.spec_args()) == Some(computed_view(v)),
                Err(FuncBindingError::FuncBackend(e)) => in_process_result(self.spec_backend_kind(), self.spec_args()) is None
                    && e == FuncBackendError::InvalidArgs(self.spec_backend_kind()),
                _ => false,
            },
            is_script_backed(self.spec_backend_kind()) ==> match r {
                Ok(Err(req)) => func.handler matches Some(h) && func.code_base64 matches Some(c)
                    && req.handler@ == h@ && req.code_base64@ == c@ && req.args@ == self.spec_args()
                    && req.backend_kind == self.spec_backend_kind(),
                Err(FuncBindingError::JsFuncNotFound(id)) => id == func.id && (func.handler is None || func.code_base64 is None),
                _ => false,
            },
    {
        if self.backend_kind.is_script_backed() {
            match (&func.handler, &func.code_base64) {
                (Some(h), Some(c)) => Ok(Err(ExecutionRequest {
                    backend_kind: self.backend_kind,
                    handler: h.clone(),
                    code_base64: c.clone(),
                    args: self.args.clone(),
                })),
                _ => Err(FuncBindingError::JsFuncNotFound(func.id)),
            }
        } else {
            match execute_in_process(self.backend_kind, &self.args) {
                Ok(v) => Ok(Ok(v)),
                Err(e) => Err(FuncBindingError::FuncBackend(e)),
            }
        }
    }

    /// Records the output and the result on the execution, which then succeeds.
    pub fn postprocess_execution(
        &self,
        execution: &mut FuncExecution,
        output: Vec<String>,
        value: ComputedValue,
    ) -> (r: Result<ComputedValue, FuncBindingError>)
        requires
            old(execution).spec_state() == FuncExecutionState::Run,
        ensures
            r matches Ok(v) && computed_view(v) == computed_view(value),
            final(execution).spec_state() == FuncExecutionState::Success,
            final(execution).spec_history() == old(execution).spec_history().push(FuncExecutionState::Success),
            final(execution).spec_output() == output@,
            final(execution).spec_value() == Some(computed_view(value)),
            final(execution).spec_func_id() == old(execution).spec_func_id(),
    {
        execution.set_output_stream(output);
        let kept = ComputedValue {
            unprocessed_value: clone_text(&value.unprocessed_value),
            processed_value: clone_text(&value.processed_value),
        };
        execution.process_return_value(value);
        let _ = execution.set_state(FuncExecutionState::Success);
        Ok(kept)
    }

    /// Executes the binding: prepares the record, dispatches, and for an in-process kind
    /// finishes the record with the computed value.
    pub fn execute(&self, func: &Func) -> (r: Result<Dispatched, FuncBindingError>)
        ensures
            func.id != self.spec_func_id() ==> r matches Err(FuncBindingError::FuncMismatch(_)),
            func.id == self.spec_func_id() && !is_script_backed(self.spec_backend_kind()) ==> match r {
                Ok(Dispatched::Done(e, v)) => in_process_result(self.spec_backend_kind(), self.spec_args()) == Some(computed_view(v))
                    && e.spec_state() == FuncExecutionState::Success && e.spec_value() == Some(computed_view(v))
                    && e.spec_history() == seq![FuncExecutionState::Start, FuncExecutionState::Run, FuncExecutionState::Success]
                    && e.spec_output().len() == 0,
                Err(FuncBindingError::FuncBackend(_)) => in_process_result(self.spec_backend_kind(), self.spec_args()) is None,
                _ => false,
            },
            func.id == self.spec_func_id() && is_script_backed(self.spec_backend_kind()) ==> match r {
                Ok(Dispatched::Remote(e, req)) => e.spec_state() == FuncExecutionState::Run
                    && e.spec_history() == seq![FuncExecutionState::Start, FuncExecutionState::Dispatch, FuncExecutionState::Run]
                    && req.args@ == self.spec_args() && req.backend_kind == self.spec_backend_kind(),
                Err(FuncBindingError::JsFuncNotFound(_)) => func.handler is None || func.code_base64 is None,
                _ => false,
            },
    {
        let mut execution = match self.prepare_execution(func) {
            Ok(e) => e,
            Err(e) => return Err(e),
        };
        match self.execute_critical_section(func) {
            Ok(Ok(value)) => {
                match self.postprocess_execution(&mut execution, Vec::new(), value) {
                    Ok(v) => Ok(Dispatched::Done(execution, v)),
                    Err(e) => Err(e),
                }
            },
            Ok(Err(request)) => Ok(Dispatched::Remote(execution, request)),
            Err(e) => Err(e),
        }
    }

    /// Takes the external service's terminal result for a dispatched execution: a success is
    /// recorded with the streamed output; a failure reported by the function becomes a
    /// structured error naming this binding's backend, and the execution fails.
    pub fn finish_remote(
        &self,
        execution: &mut FuncExecution,
        output: Vec<String>,
        result: RemoteResult,
    ) -> (r: Result<ComputedValue, FuncBindingError>)
        requires
            old(execution).spec_state() == FuncExecutionState::Run,
        ensures
            match result {
                RemoteResult::Success { unprocessed_value, processed_value } => r matches Ok(v)
                    && computed_view(v) == computed_view(ComputedValue { unprocessed_value, processed_value })
                    && final(execution).spec_state() == FuncExecutionState::Success
                    && final(execution).spec_history() == old(execution).spec_history().push(FuncExecutionState::Success)
                    && final(execution).spec_output() == output@
                    && final(execution).spec_value() == Some(computed_view(v)),
                RemoteResult::Failure { kind, message } => r matches Err(FuncBindingError::FuncBackendResultFailure { kind: k, message: m, backend: b })
                    && k@ == kind@ && m@ == message@ && b@ == kind_name(self.spec_backend_kind())
                    && final(execution).spec_state() == FuncExecutionState::Failure
                    && final(execution).spec_history() == old(execution).spec_history().push(FuncExecutionState::Failure)
                    && final(execution).spec_output() == output@,
            },
    {
        match result {
            RemoteResult::Success { unprocessed_value, processed_value } => {
                self.postprocess_execution(execution, output, ComputedValue { unprocessed_value, processed_value })
            },
            RemoteResult::Failure { kind, message } => {
                execution.set_output_stream(output);
                let _ = execution.set_state(FuncExecutionState::Failure);
                Err(FuncBindingError::FuncBackendResultFailure {
                    kind,
                    message,
                    backend: self.backend_kind.as_str().to_string(),
                })
            },
        }
    }
}

fn clone_text(s: &Option<String>) -> (r: Option<String>)
    ensures
        match (r, *s) {
            (Some(a), Some(b)) => a@ == b@,
            (None, None) => true,
            _ => false,
        },
{
    match s {
        Some(t) => Some(t.clone()),
        None => None,
    }
}

} // verus!
