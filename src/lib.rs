//! Dependent-value propagation: the dependency graph of a run, the client side of the
//! admission protocol, the per-run status ledger and the function-binding dispatcher.

mod council;
mod dependent_values_update;
mod func_backend;
mod func_binding;
mod graph;
mod ids;
mod json;
mod local_run;
mod pkg_node;
mod requests;
mod schematic;
mod status;

pub use council::{
    ready_in, Admission, CouncilError, CouncilRequest, CouncilResponse, CouncilSession, CreateOutcome,
    SessionState,
};
pub use dependent_values_update::{
    describes, lemma_retire_absent, Abort, DependentValuesUpdate, DependentValuesUpdateError, Step, UpdateRun,
};
pub use func_backend::{
    bool_text, compared_members, computed_view, execute_in_process, in_process_result, is_script_backed,
    kind_name, lemma_identity_round_trip, required_kind, stored_text, ComputedValue, FuncBackendError,
    FuncBackendKind,
};
pub use func_binding::{
    allowed_transition, is_terminal, Dispatched, ExecutionRequest, Func, FuncBinding, FuncBindingError,
    FuncExecution, FuncExecutionError, FuncExecutionState, RemoteResult,
};
pub use graph::{pruned, referenced, referenced_set, DependencyGraph, GraphEntry};
pub use ids::{
    base32_digit, base32_prefix_value, first_members, lemma_first_members, parse_id, ulid_value, AttributeValueId, ComponentId, FuncId};
pub use json::{
    find_member, json_kind, json_kind_of, json_member, json_member_text, member_of, parsed_json, JsonKind,
};
pub use local_run::{acyclic, flat, lemma_some_node_ready, ranks, run_locally};
pub use pkg_node::{node_kind_name, PkgNode};
pub use requests::{
    ActionPrototypeId, ChangeSetPk, CompareRecommendation, ExecFuncRequest, ExecFuncResponse, FixBatchId,
    FixRunRequest, FixesRunRequest, FixesRunResponse, ResourceRefreshId, Visibility,
};
pub use schematic::{Connection, EdgeId, EdgeKind, NodeId, NodeView, Schematic, SchematicKind, Vertex};
pub use status::{
    ids_of, owners_of, AttributeValueKind, AttributeValueMetadata, PropId, SocketId, StatusMessage,
    StatusMessageState, StatusUpdatePk, StatusUpdater, StatusUpdaterError, ValueSource, classify_value,
    kind_from_source,
};
