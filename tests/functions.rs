use dependent_values::{
    execute_in_process, json_kind, json_member_text, parse_id, Dispatched, Func, FuncBackendError,
    FuncBackendKind, FuncBinding, FuncBindingError, FuncExecution, FuncExecutionError, FuncExecutionState,
    JsonKind, RemoteResult,
};

fn func(kind: FuncBackendKind, code: bool) -> Func {
    Func {
        id: 5,
        backend_kind: kind,
        handler: if code { Some("main".to_string()) } else { None },
        code_base64: if code { Some("Y29kZQ==".to_string()) } else { None },
        code_sha256: "abc".to_string(),
    }
}

#[test]
fn identity_hands_input_back_as_both_values() {
    let f = func(FuncBackendKind::Identity, false);
    let input = "{\"identity\": {\"a\": [1, 2]}}".to_string();
    let value = "{\"a\":[1,2]}".to_string();
    let binding = FuncBinding::new(input, &f, FuncBackendKind::Identity);
    match binding.execute(&f).ok().unwrap() {
        Dispatched::Done(execution, computed) => {
            assert_eq!(computed.unprocessed_value, Some(value.clone()));
            assert_eq!(computed.processed_value, Some(value.clone()));
            assert_eq!(execution.state(), FuncExecutionState::Success);
            assert_eq!(execution.history(), &vec![FuncExecutionState::Start, FuncExecutionState::Run, FuncExecutionState::Success]);
        }
        Dispatched::Remote(..) => panic!("identity runs in process"),
    }
}

#[test]
fn boolean_accepts_only_booleans() {
    let ok = execute_in_process(FuncBackendKind::Boolean, &"{\"value\": true}".to_string()).ok().unwrap();
    assert_eq!(ok.processed_value, Some("true".to_string()));
    let err = execute_in_process(FuncBackendKind::Boolean, &"{\"value\": \"yes\"}".to_string());
    assert!(matches!(err, Err(FuncBackendError::InvalidArgs(FuncBackendKind::Boolean))));
}

#[test]
fn containers_are_stored_empty() {
    let arr = execute_in_process(FuncBackendKind::Array, &"{\"value\": [1, 2, 3]}".to_string()).ok().unwrap();
    assert_eq!(arr.unprocessed_value, Some("[1,2,3]".to_string()));
    assert_eq!(arr.processed_value, Some("[]".to_string()));
    let obj = execute_in_process(FuncBackendKind::Object, &"{\"value\": {\"k\": 1}}".to_string()).ok().unwrap();
    assert_eq!(obj.processed_value, Some("{}".to_string()));
    let map = execute_in_process(FuncBackendKind::Dictionary, &"{\"value\": {}}".to_string()).ok().unwrap();
    assert_eq!(map.processed_value, Some("{}".to_string()));
    assert!(execute_in_process(FuncBackendKind::Array, &"{\"value\": {}}".to_string()).is_err());
}

#[test]
fn integer_and_string_coercions() {
    assert!(execute_in_process(FuncBackendKind::Integer, &"{\"value\": 42}".to_string()).is_ok());
    assert!(execute_in_process(FuncBackendKind::Integer, &"{\"value\": \"42\"}".to_string()).is_err());
    assert!(execute_in_process(FuncBackendKind::String, &"{\"value\": \"42\"}".to_string()).is_ok());
    assert!(execute_in_process(FuncBackendKind::String, &"not json".to_string()).is_err());
}

#[test]
fn unset_yields_nothing() {
    let v = execute_in_process(FuncBackendKind::Unset, &"whatever".to_string()).ok().unwrap();
    assert_eq!(v.unprocessed_value, None);
    assert_eq!(v.processed_value, None);
}

#[test]
fn diff_reports_structural_difference() {
    let same = execute_in_process(FuncBackendKind::Diff, &"{\"first\":{\"a\":1,\"b\":2},\"second\":{\"b\":2,\"a\":1}}".to_string()).ok().unwrap();
    assert_eq!(same.processed_value, Some("false".to_string()));
    let differ = execute_in_process(FuncBackendKind::Diff, &"{\"first\":1,\"second\":2}".to_string()).ok().unwrap();
    assert_eq!(differ.processed_value, Some("true".to_string()));
    assert!(execute_in_process(FuncBackendKind::Diff, &"{\"first\":1}".to_string()).is_err());
}

#[test]
fn validation_compares_value_with_expected() {
    let valid = execute_in_process(FuncBackendKind::Validation, &"{\"value\":33,\"expected\":33}".to_string()).ok().unwrap();
    assert_eq!(valid.processed_value, Some("true".to_string()));
    let invalid = execute_in_process(FuncBackendKind::Validation, &"{\"value\":32,\"expected\":33}".to_string()).ok().unwrap();
    assert_eq!(invalid.processed_value, Some("false".to_string()));
}

#[test]
fn script_backed_kind_is_dispatched() {
    let f = func(FuncBackendKind::JsAttribute, true);
    let binding = FuncBinding::new("{}".to_string(), &f, FuncBackendKind::JsAttribute);
    match binding.execute(&f).ok().unwrap() {
        Dispatched::Remote(mut execution, request) => {
            assert_eq!(request.handler, "main");
            assert_eq!(request.args, "{}");
            assert_eq!(execution.history(), &vec![FuncExecutionState::Start, FuncExecutionState::Dispatch, FuncExecutionState::Run]);
            let out = binding.finish_remote(
                &mut execution,
                vec!["line one".to_string()],
                RemoteResult::Success { unprocessed_value: Some("1".to_string()), processed_value: Some("1".to_string()) },
            );
            assert_eq!(out.ok().unwrap().processed_value, Some("1".to_string()));
            assert_eq!(execution.state(), FuncExecutionState::Success);
            assert_eq!(execution.output_stream(), &vec!["line one".to_string()]);
        }
        Dispatched::Done(..) => panic!("scripts run out of process"),
    }
}

#[test]
fn script_failure_is_structured() {
    let f = func(FuncBackendKind::JsAction, true);
    let binding = FuncBinding::new("{}".to_string(), &f, FuncBackendKind::JsAction);
    let mut execution = binding.prepare_execution(&f).ok().unwrap();
    let r = binding.finish_remote(
        &mut execution,
        vec![],
        RemoteResult::Failure { kind: "UserCodeException".to_string(), message: "bad".to_string() },
    );
    match r {
        Err(FuncBindingError::FuncBackendResultFailure { kind, message, backend }) => {
            assert_eq!(kind, "UserCodeException");
            assert_eq!(message, "bad");
            assert_eq!(backend, "JsAction");
        }
        _ => panic!("expected a structured failure"),
    }
    assert_eq!(execution.state(), FuncExecutionState::Failure);
}

#[test]
fn script_without_code_is_not_found() {
    let f = func(FuncBackendKind::JsValidation, false);
    let binding = FuncBinding::new("{}".to_string(), &f, FuncBackendKind::JsValidation);
    assert!(matches!(binding.execute(&f), Err(FuncBindingError::JsFuncNotFound(5))));
}

#[test]
fn terminal_states_are_final() {
    let mut e = FuncExecution::new(1);
    assert!(e.set_state(FuncExecutionState::Success).is_err());
    assert!(e.set_state(FuncExecutionState::Run).is_ok());
    assert!(e.set_state(FuncExecutionState::Failure).is_ok());
    assert_eq!(
        e.set_state(FuncExecutionState::Run),
        Err(FuncExecutionError::InvalidTransition(FuncExecutionState::Failure, FuncExecutionState::Run))
    );
}

#[test]
fn binding_detects_stale_code() {
    let mut f = func(FuncBackendKind::Identity, false);
    let binding = FuncBinding::new("{\"identity\": 1}".to_string(), &f, FuncBackendKind::Identity);
    assert!(!binding.is_stale(&f));
    f.code_sha256 = "def".to_string();
    assert!(binding.is_stale(&f));
    assert!(matches!(binding.execute(&Func { id: 6, ..f }), Err(FuncBindingError::FuncMismatch(6))));
}

#[test]
fn json_helpers_read_text() {
    assert_eq!(json_kind("true"), Some(JsonKind::Bool));
    assert_eq!(json_kind("[1]"), Some(JsonKind::Array));
    assert_eq!(json_kind("{"), None);
    assert_eq!(json_member_text("{\"a\": [1, 2]}", "a"), Some("[1,2]".to_string()));
    assert_eq!(json_member_text("[1]", "a"), None);
}

#[test]
fn ids_parse_from_text() {
    assert_eq!(parse_id("21850M2GA1850M2GA1850M2GA1"), Some(0x41414141414141414141414141414141));
    assert_eq!(parse_id("0000000000000000000000000A"), Some(10));
    assert_eq!(parse_id("too short"), None);
    assert_eq!(parse_id("0000000000000000000000000U"), None);
}

#[test]
fn binding_reports_rejected_arguments() {
    let f = func(FuncBackendKind::Integer, false);
    let (binding, result) = FuncBinding::create_and_execute("\"x\"".to_string(), &f);
    assert_eq!(binding.backend_kind(), FuncBackendKind::Integer);
    assert!(matches!(result, Err(FuncBindingError::FuncBackend(FuncBackendError::InvalidArgs(FuncBackendKind::Integer)))));
}

#[test]
fn seeded_binding_keeps_value() {
    let f = func(FuncBackendKind::JsAttribute, true);
    let (binding, value) = FuncBinding::create_with_existing_value("{}".to_string(), Some("7".to_string()), &f);
    assert_eq!(binding.code_sha256(), "abc");
    assert_eq!(value.unprocessed_value, Some("7".to_string()));
    assert_eq!(value.processed_value, Some("7".to_string()));
}

#[test]
fn identity_without_member_yields_nothing() {
    let v = execute_in_process(FuncBackendKind::Identity, &"{}".to_string()).ok().unwrap();
    assert_eq!(v.unprocessed_value, None);
    assert_eq!(v.processed_value, None);
    let one = execute_in_process(FuncBackendKind::Identity, &"{\"identity\": 1}".to_string()).ok().unwrap();
    assert_eq!(one.unprocessed_value, Some("1".to_string()));
    assert_eq!(one.processed_value, Some("1".to_string()));
}
