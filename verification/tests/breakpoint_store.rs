use zed_core::breakpoints::{
    Breakpoint, BreakpointEditAction, BreakpointKind, BreakpointStore, SerializedBreakpoint,
};

fn standard(position: u32) -> (u32, Breakpoint) {
    (position, Breakpoint { kind: BreakpointKind::Standard })
}

#[test]
fn kind_to_int_values() {
    assert_eq!(BreakpointKind::Standard.to_int(), 0);
    assert_eq!(BreakpointKind::Log("trace".to_string()).to_int(), 1);
}

#[test]
fn kind_log_message_access() {
    assert!(BreakpointKind::Standard.log_message().is_none());
    let message = BreakpointKind::Log("hit {x}".to_string()).log_message().unwrap();
    assert_eq!(message.as_str(), "hit {x}");
}

#[test]
fn kinds_compare_by_sort_alone() {
    assert_eq!(BreakpointKind::Log("a".to_string()), BreakpointKind::Log("b".to_string()));
    assert_ne!(BreakpointKind::Standard, BreakpointKind::Log("a".to_string()));
}

#[test]
fn toggle_adds_then_removes() {
    let mut store = BreakpointStore::local();
    let path = "src/main.rs".to_string();
    store.toggle_breakpoint(path.clone(), standard(12), BreakpointEditAction::Toggle);
    let found = store.breakpoints(&path, Some((0, 100)));
    assert_eq!(found.len(), 1);
    assert_eq!(found[0].0, 12);
    assert_eq!(found[0].1.kind.to_int(), 0);

    store.toggle_breakpoint(path.clone(), standard(12), BreakpointEditAction::Toggle);
    assert!(store.breakpoints(&path, Some((0, 100))).is_empty());
}

#[test]
fn toggle_keeps_other_positions() {
    let mut store = BreakpointStore::local();
    let path = "src/lib.rs".to_string();
    store.toggle_breakpoint(path.clone(), standard(3), BreakpointEditAction::Toggle);
    store.toggle_breakpoint(path.clone(), standard(9), BreakpointEditAction::Toggle);
    store.toggle_breakpoint(path.clone(), standard(3), BreakpointEditAction::Toggle);
    let found = store.breakpoints(&path, Some((0, 100)));
    assert_eq!(found.len(), 1);
    assert_eq!(found[0].0, 9);
}

#[test]
fn log_message_edit_creates_log_point() {
    let mut store = BreakpointStore::local();
    let path = "src/a.rs".to_string();
    store.toggle_breakpoint(
        path.clone(),
        standard(7),
        BreakpointEditAction::EditLogMessage("x = {x}".to_string()),
    );
    let found = store.breakpoints(&path, Some((0, 100)));
    assert_eq!(found.len(), 1);
    assert_eq!(found[0].1.kind.to_int(), 1);

    // An empty message removes the log point again.
    let log_point = (7, Breakpoint { kind: BreakpointKind::Log("x = {x}".to_string()) });
    store.toggle_breakpoint(path.clone(), log_point, BreakpointEditAction::EditLogMessage(String::new()));
    assert!(store.breakpoints(&path, Some((0, 100))).is_empty());
}

#[test]
fn rename_moves_breakpoints() {
    let mut store = BreakpointStore::local();
    let old_path = "src/old.rs".to_string();
    let new_path = "src/new.rs".to_string();
    store.toggle_breakpoint(old_path.clone(), standard(5), BreakpointEditAction::Toggle);
    store.on_file_rename(old_path.clone(), new_path.clone());
    assert!(store.breakpoints(&old_path, Some((0, 100))).is_empty());
    let found = store.breakpoints(&new_path, Some((0, 100)));
    assert_eq!(found.len(), 1);
    assert_eq!(found[0].0, 5);
}

#[test]
fn range_query_filters_positions() {
    let mut store = BreakpointStore::local();
    let path = "src/b.rs".to_string();
    store.toggle_breakpoint(path.clone(), standard(2), BreakpointEditAction::Toggle);
    store.toggle_breakpoint(path.clone(), standard(20), BreakpointEditAction::Toggle);
    store.toggle_breakpoint(path.clone(), standard(200), BreakpointEditAction::Toggle);
    let middle = store.breakpoints(&path, Some((10, 100)));
    assert_eq!(middle.len(), 1);
    assert_eq!(middle[0].0, 20);
    // Without a range nothing is reported.
    assert!(store.breakpoints(&path, None).is_empty());
}

#[test]
fn active_stack_frames_tracked_per_thread() {
    let mut store = BreakpointStore::local();
    store.set_active_stack_frame(1, "src/x.rs".to_string(), 10);
    store.set_active_stack_frame(2, "src/y.rs".to_string(), 20);
    store.set_active_stack_frame(1, "src/z.rs".to_string(), 30);
    // Queries go through the breakpoint API only; frames do not disturb it.
    assert!(store.breakpoints(&"src/x.rs".to_string(), Some((0, 100))).is_empty());
}

#[test]
fn serialized_breakpoint_carries_fields() {
    let serialized = SerializedBreakpoint {
        position: 42,
        path: "src/main.rs".to_string(),
        kind: BreakpointKind::Standard,
    };
    assert_eq!(serialized.position, 42);
    assert_eq!(serialized.kind.to_int(), 0);
}
