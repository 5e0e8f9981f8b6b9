use vstd::prelude::*;

use crate::ids::{ComponentId, FuncId};

verus! {

/// Identifier of a change set.
pub type ChangeSetPk = u128;

/// Identifier of an action prototype.
pub type ActionPrototypeId = u128;

/// Identifier of a batch of fixes.
pub type FixBatchId = u128;

/// The change set a request reads and writes, and, for a deleted object, when it was
/// deleted (seconds since the epoch).
#[derive(Clone, Copy, Debug, PartialEq, Eq, Structural)]
pub struct Visibility {
    pub change_set_pk: ChangeSetPk,
    pub deleted_at: Option<i64>,
}

/// Run one action on one component.
#[derive(Clone, Copy, Debug, PartialEq, Eq, Structural)]
pub struct FixRunRequest {
    pub component_id: ComponentId,
    pub action_prototype_id: ActionPrototypeId,
}

/// Run a list of actions as one batch.
#[derive(Debug)]
pub struct FixesRunRequest {
    pub list: Vec<FixRunRequest>,
    pub visibility: Visibility,
}

/// The batch that a run of fixes created.
#[derive(Clone, Copy, Debug, PartialEq, Eq, Structural)]
pub struct FixesRunResponse {
    pub id: FixBatchId,
}

/// Execute one function again, with the values that use it.
#[derive(Clone, Copy, Debug, PartialEq, Eq, Structural)]
pub struct ExecFuncRequest {
    pub id: FuncId,
    pub visibility: Visibility,
}

/// Whether the execution went through.
#[derive(Clone, Copy, Debug, PartialEq, Eq, Structural)]
pub struct ExecFuncResponse {
    pub success: bool,
}

/// The component whose resource was refreshed.
#[derive(Clone, Copy, Debug, PartialEq, Eq, Structural)]
pub struct ResourceRefreshId {
    pub component_id: ComponentId,
}

/// How two copies of a function compare, and which one to keep.
#[derive(Clone, Copy, Debug, PartialEq, Eq, Structural)]
pub enum CompareRecommendation {
    Same,
    TakeRight,
    YouFigureItOut,
    TakeLeft,
}

} // verus!
