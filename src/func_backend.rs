use vstd::prelude::*;

use crate::json::{json_kind, json_kind_of, json_member, json_member_text, str_eq, JsonKind};

verus! {

/// The closed set of strategies by which a function computes a value.
#[derive(Clone, Copy, Debug, PartialEq, Eq, Structural)]
pub enum FuncBackendKind {
    Array,
    Boolean,
    Diff,
    Identity,
    Integer,
    JsAction,
    JsAttribute,
    JsReconciliation,
    JsSchemaVariantDefinition,
    JsValidation,
    Dictionary,
    Object,
    String,
    Unset,
    Validation,
}

/// Whether the kind is computed by the external execution service rather than in process.
pub open spec fn is_script_backed(kind: FuncBackendKind) -> bool {
    match kind {
        FuncBackendKind::JsAction
        | FuncBackendKind::JsAttribute
        | FuncBackendKind::JsReconciliation
        | FuncBackendKind::JsSchemaVariantDefinition
        | FuncBackendKind::JsValidation => true,
        _ => false,
    }
}

/// The name of a backend kind.
pub open spec fn kind_name(kind: FuncBackendKind) -> Seq<char> {
    match kind {
        FuncBackendKind::Array => "Array"@,
        FuncBackendKind::Boolean => "Boolean"@,
        FuncBackendKind::Diff => "Diff"@,
        FuncBackendKind::Identity => "Identity"@,
        FuncBackendKind::Integer => "Integer"@,
        FuncBackendKind::JsAction => "JsAction"@,
        FuncBackendKind::JsAttribute => "JsAttribute"@,
        FuncBackendKind::JsReconciliation => "JsReconciliation"@,
        FuncBackendKind::JsSchemaVariantDefinition => "JsSchemaVariantDefinition"@,
        FuncBackendKind::JsValidation => "JsValidation"@,
        FuncBackendKind::Dictionary => "Dictionary"@,
        FuncBackendKind::Object => "Object"@,
        FuncBackendKind::String => "String"@,
        FuncBackendKind::Unset => "Unset"@,
        FuncBackendKind::Validation => "Validation"@,
    }
}

impl FuncBackendKind {
    pub fn is_script_backed(&self) -> (r: bool)
        ensures
            r == is_script_backed(*self),
    {
        match self {
            FuncBackendKind::JsAction
            | FuncBackendKind::JsAttribute
            | FuncBackendKind::JsReconciliation
            | FuncBackendKind::JsSchemaVariantDefinition
            | FuncBackendKind::JsValidation => true,
            _ => false,
        }
    }

    pub fn as_str(&self) -> (r: &'static str)
        ensures
            r@ == kind_name(*self),
    {
        match self {
            FuncBackendKind::Array => "Array",
            FuncBackendKind::Boolean => "Boolean",
            FuncBackendKind::Diff => "Diff",
            FuncBackendKind::Identity => "Identity",
            FuncBackendKind::Integer => "Integer",
            FuncBackendKind::JsAction => "JsAction",
            FuncBackendKind::JsAttribute => "JsAttribute",
            FuncBackendKind::JsReconciliation => "JsReconciliation",
            FuncBackendKind::JsSchemaVariantDefinition => "JsSchemaVariantDefinition",
            FuncBackendKind::JsValidation => "JsValidation",
            FuncBackendKind::Dictionary => "Dictionary",
            FuncBackendKind::Object => "Object",
            FuncBackendKind::String => "String",
            FuncBackendKind::Unset => "Unset",
            FuncBackendKind::Validation => "Validation",
        }
    }
}

/// The pair that one execution produces: the value as computed, and the value as stored on
/// the node (a container is stored empty; its elements are nodes of their own).
#[derive(Debug)]
pub struct ComputedValue {
    pub unprocessed_value: Option<String>,
    pub processed_value: Option<String>,
}

/// An in-process backend was handed arguments of the wrong shape.
#[derive(Clone, Copy, Debug, PartialEq, Eq, Structural)]
pub enum FuncBackendError {
    InvalidArgs(FuncBackendKind),
}

/// The JSON kind that a coercing backend requires of its argument.
pub open spec fn required_kind(kind: FuncBackendKind) -> Option<JsonKind> {
    match kind {
        FuncBackendKind::Boolean => Some(JsonKind::Bool),
        FuncBackendKind::Integer => Some(JsonKind::Number),
        FuncBackendKind::String => Some(JsonKind::String),
        FuncBackendKind::Array => Some(JsonKind::Array),
        FuncBackendKind::Object | FuncBackendKind::Dictionary => Some(JsonKind::Object),
        _ => None,
    }
}

/// What an in-process backend stores for a value of its kind.
pub open spec fn stored_text(kind: FuncBackendKind, args: Seq<char>) -> Seq<char> {
    match kind {
        FuncBackendKind::Array => "[]"@,
        FuncBackendKind::Object | FuncBackendKind::Dictionary => "{}"@,
        _ => args,
    }
}

/// The JSON text of a boolean.
pub open spec fn bool_text(b: bool) -> Seq<char> {
    if b { "true"@ } else { "false"@ }
}

/// The names of the two members that a comparing backend reads.
pub open spec fn compared_members(kind: FuncBackendKind) -> (Seq<char>, Seq<char>) {
    if kind == FuncBackendKind::Diff {
        ("first"@, "second"@)
    } else {
        ("value"@, "expected"@)
    }
}

/// The result of an in-process backend on the JSON text `args`:
/// - identity hands member `identity` back as both values, or no value when it is absent;
///   unset yields no value;
/// - a coercing backend checks the kind of member `value` and stores containers empty;
/// - diff reports whether members `first` and `second` differ, validation whether member
///   `value` equals member `expected`.
pub open spec fn in_process_result(kind: FuncBackendKind, args: Seq<char>) -> Option<(Option<Seq<char>>, Option<Seq<char>>)> {
    match kind {
        FuncBackendKind::Identity => match json_member(args, "identity"@) {
            Some(v) => Some((Some(v@), Some(v@))),
            None => Some((None, None)),
        },
        FuncBackendKind::Unset => Some((None, None)),
        FuncBackendKind::Diff | FuncBackendKind::Validation => {
            let (a, b) = compared_members(kind);
            match (json_member(args, a), json_member(args, b)) {
                (Some(x), Some(y)) => {
                    let same = x@ == y@;
                    let t = if kind == FuncBackendKind::Diff { bool_text(!same) } else { bool_text(same) };
                    Some((Some(t), Some(t)))
                },
                _ => None,
            }
        },
        _ => match json_member(args, "value"@) {
            Some(v) => if json_kind_of(v@) == required_kind(kind) {
                Some((Some(v@), Some(stored_text(kind, v@))))
            } else {
                None
            },
            None => None,
        },
    }
}

/// Executing the identity backend on arguments whose member `identity` is the value `v`
/// hands `v` back unchanged, as both the computed and the stored value.
pub proof fn lemma_identity_round_trip(args: Seq<char>, v: String)
    requires
        json_member(args, "identity"@) == Some(v),
    ensures
        in_process_result(FuncBackendKind::Identity, args) == Some((Some(v@), Some(v@))),
{
}

/// The view of a computed pair.
pub open spec fn computed_view(v: ComputedValue) -> (Option<Seq<char>>, Option<Seq<char>>) {
    (
        match v.unprocessed_value { Some(s) => Some(s@), None => None },
        match v.processed_value { Some(s) => Some(s@), None => None },
    )
}

fn text(s: &str) -> (r: String)
    ensures
        r@ == s@,
{
    s.to_string()
}

fn string_eq(a: &String, b: &String) -> (r: bool)
    ensures
        r == (a@ == b@),
{
    str_eq(a.as_str(), b.as_str())
}

/// Runs an in-process backend on the JSON text `args`.
pub fn execute_in_process(kind: FuncBackendKind, args: &String) -> (r: Result<ComputedValue, FuncBackendError>)
    requires
        !is_script_backed(kind),
    ensures
        match r {
            Ok(v) => in_process_result(kind, args@) == Some(computed_view(v)),
            Err(e) => in_process_result(kind, args@) is None && e == FuncBackendError::InvalidArgs(kind),
        },
{
    match kind {
        FuncBackendKind::Identity => {
            proof {
                reveal_strlit("identity");
            }
            match json_member_text(args.as_str(), "identity") {
                Some(v) => Ok(ComputedValue { unprocessed_value: Some(v.clone()), processed_value: Some(v) }),
                None => Ok(ComputedValue { unprocessed_value: None, processed_value: None }),
            }
        },
        FuncBackendKind::Unset => Ok(ComputedValue { unprocessed_value: None, processed_value: None }),
        FuncBackendKind::Diff | FuncBackendKind::Validation => {
            let (a, b) = if kind == FuncBackendKind::Diff { ("first", "second") } else { ("value", "expected") };
            proof {
                reveal_strlit("first");
                reveal_strlit("second");
                reveal_strlit("value");
                reveal_strlit("expected");
            }
            match (json_member_text(args.as_str(), a), json_member_text(args.as_str(), b)) {
                (Some(x), Some(y)) => {
                    let same = string_eq(&x, &y);
                    let flag = if kind == FuncBackendKind::Diff { !same } else { same };
                    let t = if flag { text("true") } else { text("false") };
                    let t2 = if flag { text("true") } else { text("false") };
                    Ok(ComputedValue { unprocessed_value: Some(t), processed_value: Some(t2) })
                },
                _ => Err(FuncBackendError::InvalidArgs(kind)),
            }
        },
        _ => {
            let required = match kind {
                FuncBackendKind::Boolean => JsonKind::Bool,
                FuncBackendKind::Integer => JsonKind::Number,
                FuncBackendKind::String => JsonKind::String,
                FuncBackendKind::Array => JsonKind::Array,
                _ => JsonKind::Object,
            };
            proof {
                reveal_strlit("value");
            }
            let value = match json_member_text(args.as_str(), "value") {
                Some(v) => v,
                None => return Err(FuncBackendError::InvalidArgs(kind)),
            };
            match json_kind(value.as_str()) {
                Some(k) => {
                    if k == required {
                        let stored = match kind {
                            FuncBackendKind::Array => text("[]"),
                            FuncBackendKind::Object | FuncBackendKind::Dictionary => text("{}"),
                            _ => value.clone(),
                        };
                        Ok(ComputedValue { unprocessed_value: Some(value), processed_value: Some(stored) })
                    } else {
                        Err(FuncBackendError::InvalidArgs(kind))
                    }
                },
                None => Err(FuncBackendError::InvalidArgs(kind)),
            }
        },
    }
}

} // verus!
