use cairo_bridge::errors::HintError;
use cairo_bridge::exec_scope::{ExecutionScopes, ScopeFrame, ScopeValue};
use cairo_bridge::felt::Felt;
use cairo_bridge::python_executor::{
    enter_scope, get_py_scope, update_scope, PythonExecutor, ScopeSignals,
};
use cairo_bridge::relocatable::MaybeRelocatable;

fn felt(byte: u8) -> ScopeValue {
    ScopeValue::Value(MaybeRelocatable::Int(Felt::from_bytes_be(&[byte])))
}

fn frame(bindings: &[(&str, u8)]) -> ScopeFrame {
    let mut frame = ScopeFrame::new();
    for (name, byte) in bindings {
        frame.insert(name.to_string(), felt(*byte));
    }
    frame
}

fn top(scopes: &ExecutionScopes, name: &str) -> Option<ScopeValue> {
    scopes.get_local_variables().get(&name.to_string()).cloned()
}

#[test]
fn frame_insert_and_get() {
    let mut frame = ScopeFrame::new();
    assert_eq!(frame.len(), 0);
    assert_eq!(frame.get(&"x".to_string()), None);
    frame.insert("x".to_string(), felt(1));
    frame.insert("y".to_string(), felt(2));
    assert_eq!(frame.get(&"x".to_string()), Some(&felt(1)));
    assert_eq!(frame.get(&"y".to_string()), Some(&felt(2)));
    assert_eq!(frame.get(&"z".to_string()), None);
    frame.insert("x".to_string(), felt(3));
    assert_eq!(frame.get(&"x".to_string()), Some(&felt(3)));
    assert_eq!(frame.get(&"y".to_string()), Some(&felt(2)));
    assert_eq!(frame.len(), 2);
    assert_eq!(frame.binding(0), (&"x".to_string(), &felt(3)));
    assert_eq!(frame.binding(1), (&"y".to_string(), &felt(2)));
    assert_eq!(frame.clone(), frame);
}

#[test]
fn frame_merge_adds_and_updates() {
    let mut frame = frame(&[("x", 1), ("y", 2)]);
    frame.merge(&self::frame(&[("y", 20), ("z", 30)]));
    assert_eq!(frame.get(&"x".to_string()), Some(&felt(1)));
    assert_eq!(frame.get(&"y".to_string()), Some(&felt(20)));
    assert_eq!(frame.get(&"z".to_string()), Some(&felt(30)));
    assert_eq!(frame.len(), 3);
}

#[test]
fn new_scopes_hold_an_empty_main_frame() {
    let scopes = ExecutionScopes::new();
    assert_eq!(scopes.get_local_variables(), &ScopeFrame::new());
}

#[test]
fn exit_of_the_main_scope_is_an_underflow() {
    let mut scopes = ExecutionScopes::new();
    assert_eq!(scopes.exit_scope(), Err(HintError::ScopeUnderflow));
    assert_eq!(scopes, ExecutionScopes::new());
}

#[test]
fn nested_scopes_restore_the_frame_below() {
    for depth in 0..6u8 {
        let mut scopes = ExecutionScopes::new();
        scopes.assign_or_update_variable("kept".to_string(), felt(42));
        let mut before = ExecutionScopes::new();
        before.assign_or_update_variable("kept".to_string(), felt(42));
        for level in 0..depth {
            scopes.enter_scope(frame(&[("level", level)]));
            assert_eq!(top(&scopes, "level"), Some(felt(level)));
            assert_eq!(top(&scopes, "kept"), None);
        }
        for level in (0..depth).rev() {
            assert_eq!(top(&scopes, "level"), Some(felt(level)));
            assert_eq!(scopes.exit_scope(), Ok(()));
        }
        assert_eq!(scopes, before);
        assert_eq!(top(&scopes, "kept"), Some(felt(42)));
        assert_eq!(scopes.exit_scope(), Err(HintError::ScopeUnderflow));
        assert_eq!(scopes, before);
    }
}

#[test]
fn assignments_go_to_the_top_frame() {
    let mut scopes = ExecutionScopes::new();
    scopes.assign_or_update_variable("x".to_string(), felt(1));
    scopes.enter_scope(ScopeFrame::new());
    scopes.assign_or_update_variable("x".to_string(), felt(2));
    scopes.assign_or_update_variable("y".to_string(), felt(3));
    assert_eq!(top(&scopes, "x"), Some(felt(2)));
    assert_eq!(top(&scopes, "y"), Some(felt(3)));
    scopes.exit_scope().unwrap();
    assert_eq!(top(&scopes, "x"), Some(felt(1)));
    assert_eq!(top(&scopes, "y"), None);
}

#[test]
fn py_scope_is_a_copy_of_the_top_frame() {
    let mut scopes = ExecutionScopes::new();
    scopes.assign_or_update_variable("x".to_string(), felt(1));
    let mut copy = get_py_scope(&scopes);
    assert_eq!(copy, frame(&[("x", 1)]));
    copy.insert("x".to_string(), felt(9));
    assert_eq!(top(&scopes, "x"), Some(felt(1)));
}

#[test]
fn update_scope_merges_by_name() {
    let mut scopes = ExecutionScopes::new();
    scopes.assign_or_update_variable("x".to_string(), felt(1));
    scopes.enter_scope(frame(&[("a", 1), ("b", 2)]));
    update_scope(&mut scopes, &frame(&[("b", 20), ("c", 30)]));
    assert_eq!(top(&scopes, "a"), Some(felt(1)));
    assert_eq!(top(&scopes, "b"), Some(felt(20)));
    assert_eq!(top(&scopes, "c"), Some(felt(30)));
    scopes.exit_scope().unwrap();
    assert_eq!(scopes.get_local_variables(), &frame(&[("x", 1)]));
}

#[test]
fn enter_scope_copies_the_frame() {
    let mut scopes = ExecutionScopes::new();
    let seed = frame(&[("n", 5)]);
    enter_scope(&mut scopes, &seed);
    assert_eq!(scopes.get_local_variables(), &seed);
    assert_eq!(scopes.exit_scope(), Ok(()));
}

#[test]
fn scope_changes_without_signals_only_merge() {
    let mut scopes = ExecutionScopes::new();
    let applied =
        PythonExecutor::apply_scope_changes(&mut scopes, &frame(&[("x", 1)]), &ScopeSignals::new());
    assert_eq!(applied, Ok(()));
    assert_eq!(scopes.get_local_variables(), &frame(&[("x", 1)]));
    assert_eq!(scopes.exit_scope(), Err(HintError::ScopeUnderflow));
}

#[test]
fn scope_changes_enter_after_the_merge() {
    let mut scopes = ExecutionScopes::new();
    let signals = ScopeSignals { new_scope: Some(frame(&[("n", 5)])), exit_scope: false };
    let applied = PythonExecutor::apply_scope_changes(&mut scopes, &frame(&[("x", 1)]), &signals);
    assert_eq!(applied, Ok(()));
    assert_eq!(scopes.get_local_variables(), &frame(&[("n", 5)]));
    assert_eq!(scopes.exit_scope(), Ok(()));
    assert_eq!(scopes.get_local_variables(), &frame(&[("x", 1)]));
}

#[test]
fn scope_changes_exit_after_the_merge() {
    let mut scopes = ExecutionScopes::new();
    scopes.assign_or_update_variable("kept".to_string(), felt(42));
    scopes.enter_scope(frame(&[("n", 5)]));
    let signals = ScopeSignals { new_scope: None, exit_scope: true };
    let applied = PythonExecutor::apply_scope_changes(&mut scopes, &frame(&[("x", 1)]), &signals);
    assert_eq!(applied, Ok(()));
    assert_eq!(scopes.get_local_variables(), &frame(&[("kept", 42)]));
}

#[test]
fn scope_changes_exit_of_the_main_scope_fails() {
    let mut scopes = ExecutionScopes::new();
    let signals = ScopeSignals { new_scope: None, exit_scope: true };
    let applied = PythonExecutor::apply_scope_changes(&mut scopes, &frame(&[("x", 1)]), &signals);
    assert_eq!(applied, Err(HintError::ScopeUnderflow));
    assert_eq!(scopes.get_local_variables(), &frame(&[("x", 1)]));
}

#[test]
fn scope_changes_enter_then_exit_leaves_the_merged_frame() {
    let mut scopes = ExecutionScopes::new();
    let signals = ScopeSignals { new_scope: Some(frame(&[("n", 5)])), exit_scope: true };
    let applied = PythonExecutor::apply_scope_changes(&mut scopes, &frame(&[("x", 1)]), &signals);
    assert_eq!(applied, Ok(()));
    assert_eq!(scopes.get_local_variables(), &frame(&[("x", 1)]));
    assert_eq!(scopes.exit_scope(), Err(HintError::ScopeUnderflow));
}

#[test]
fn scopes_keep_objects_of_the_scripting_side_by_number() {
    let mut scopes = ExecutionScopes::new();
    scopes.assign_or_update_variable("math".to_string(), ScopeValue::Object(7));
    scopes.assign_or_update_variable("n".to_string(), felt(3));
    assert_eq!(top(&scopes, "math"), Some(ScopeValue::Object(7)));
    let mut delta = ScopeFrame::new();
    delta.insert("math".to_string(), ScopeValue::Object(9));
    delta.insert("cache".to_string(), ScopeValue::Object(10));
    let signals = ScopeSignals { new_scope: None, exit_scope: false };
    assert_eq!(PythonExecutor::apply_scope_changes(&mut scopes, &delta, &signals), Ok(()));
    assert_eq!(top(&scopes, "math"), Some(ScopeValue::Object(9)));
    assert_eq!(top(&scopes, "cache"), Some(ScopeValue::Object(10)));
    assert_eq!(top(&scopes, "n"), Some(felt(3)));
    assert_eq!(get_py_scope(&scopes).len(), 3);
    assert_ne!(ScopeValue::Object(3), felt(3));
    assert_eq!(ScopeValue::Object(3).clone(), ScopeValue::Object(3));
}
