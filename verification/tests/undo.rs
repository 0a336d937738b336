use zed_core::undo;
use zed_core::undo::{
    EntryOutcome, EntryRequest, OperationError, ProjectPanelOperation, ProjectPath, UndoManager,
    WorktreeId,
};

fn path(name: &str) -> ProjectPath {
    ProjectPath { worktree_id: WorktreeId(1), path: name.to_owned() }
}

fn build_create_operation(name: &str) -> ProjectPanelOperation {
    ProjectPanelOperation::Create { project_path: path(name) }
}

fn build_trash_operation(name: &str) -> ProjectPanelOperation {
    ProjectPanelOperation::Trash { project_path: path(name) }
}

fn build_rename_operation(from: &str, to: &str) -> ProjectPanelOperation {
    ProjectPanelOperation::Rename { from: path(from), to: path(to) }
}

fn undo_last(manager: &mut UndoManager) {
    let operation = manager.undo().expect("an operation to undo");
    let outcomes = operation.steps().iter().map(|_| Ok(())).collect();
    let result = undo::execute_operation(&operation, outcomes);
    assert_eq!(manager.finish_undo(result), None);
}

fn redo_last(manager: &mut UndoManager) {
    let operation = manager.redo().expect("an operation to redo");
    let outcomes = operation.steps().iter().map(|_| Ok(())).collect();
    let result = undo::execute_operation(&operation, outcomes);
    assert_eq!(manager.finish_redo(result), None);
}

#[test]
fn test_limit() {
    let operation_a = build_create_operation("file_a.txt");
    let operation_b = build_create_operation("file_b.txt");
    let operation_c = build_create_operation("file_c.txt");
    let operation_d = build_create_operation("file_d.txt");
    let mut manager = UndoManager::new_with_limit(3);
    manager.record(operation_a);
    manager.record(operation_b);
    manager.record(operation_c);
    manager.record(operation_d);
    assert_eq!(manager.undo_stack.len(), 3);
}

#[test]
fn test_undo_redo_stacks() {
    let mut manager = UndoManager::new();
    manager.record(build_rename_operation("a.txt", "1.txt"));
    assert_eq!(manager.undo_stack, vec![build_rename_operation("1.txt", "a.txt")]);
    assert!(manager.redo_stack.is_empty());

    undo_last(&mut manager);
    assert!(manager.undo_stack.is_empty());
    assert_eq!(manager.redo_stack, vec![build_rename_operation("a.txt", "1.txt")]);

    redo_last(&mut manager);
    assert_eq!(manager.undo_stack, vec![build_rename_operation("1.txt", "a.txt")]);
    assert!(manager.redo_stack.is_empty());
}

#[test]
fn test_undo_redo_trash() {
    let mut manager = UndoManager::new();
    manager.undo_stack.push_back(build_trash_operation("a.txt"));

    undo_last(&mut manager);
    assert!(manager.undo_stack.is_empty());
    assert_eq!(manager.redo_stack, vec![build_create_operation("a.txt")]);

    redo_last(&mut manager);
    assert_eq!(manager.undo_stack, vec![build_trash_operation("a.txt")]);
    assert!(manager.redo_stack.is_empty());
}

#[test]
fn test_undo_redo_batch() {
    let mut manager = UndoManager::new();
    manager.record_batch(vec![
        build_rename_operation("1.txt", "a.txt"),
        build_rename_operation("2.txt", "b.txt"),
    ]);
    assert_eq!(
        manager.undo_stack,
        vec![ProjectPanelOperation::Batch(vec![
            build_rename_operation("b.txt", "2.txt"),
            build_rename_operation("a.txt", "1.txt"),
        ])]
    );
    assert!(manager.redo_stack.is_empty());

    undo_last(&mut manager);
    assert!(manager.undo_stack.is_empty());
    assert_eq!(
        manager.redo_stack,
        vec![ProjectPanelOperation::Batch(vec![
            build_rename_operation("1.txt", "a.txt"),
            build_rename_operation("2.txt", "b.txt"),
        ])]
    );

    redo_last(&mut manager);
    assert_eq!(
        manager.undo_stack,
        vec![ProjectPanelOperation::Batch(vec![
            build_rename_operation("b.txt", "2.txt"),
            build_rename_operation("a.txt", "1.txt"),
        ])]
    );
    assert!(manager.redo_stack.is_empty());
}

#[test]
fn oldest_operation_is_forgotten_first() {
    let mut manager = UndoManager::new_with_limit(2);
    for name in ["a", "b", "c"] {
        manager.record(build_create_operation(name));
    }
    assert_eq!(manager.undo_stack, vec![build_trash_operation("b"), build_trash_operation("c")]);
}

#[test]
fn new_manager_remembers_ten_thousand_operations() {
    let manager = UndoManager::new();
    assert_eq!(manager.limit, 10_000);
    assert_eq!(undo::MAX_UNDO_OPERATIONS, 10_000);
    assert!(!manager.can_undo());
    assert!(!manager.can_redo());
}

#[test]
fn recording_drops_what_could_be_redone() {
    let mut manager = UndoManager::new();
    manager.record(build_create_operation("a"));
    undo_last(&mut manager);
    assert!(manager.can_redo());
    manager.record(build_create_operation("b"));
    assert!(!manager.can_redo());
    assert!(manager.can_undo());
}

#[test]
fn inverse_of_an_inverse_is_the_operation() {
    let operation = ProjectPanelOperation::Batch(vec![
        build_create_operation("src"),
        ProjectPanelOperation::Batch(vec![
            build_rename_operation("a", "b"),
            build_trash_operation("c"),
        ]),
    ]);
    assert_eq!(operation.inverse().inverse(), operation);
    assert_eq!(
        operation.inverse(),
        ProjectPanelOperation::Batch(vec![
            ProjectPanelOperation::Batch(vec![
                build_create_operation("c"),
                build_rename_operation("b", "a"),
            ]),
            build_trash_operation("src"),
        ])
    );
}

#[test]
fn steps_of_a_batch_are_those_of_its_parts() {
    let operation = ProjectPanelOperation::Batch(vec![
        build_create_operation("src"),
        ProjectPanelOperation::Batch(vec![build_rename_operation("a", "b")]),
    ]);
    assert_eq!(
        operation.steps(),
        vec![build_create_operation("src"), build_rename_operation("a", "b")]
    );
}

#[test]
fn failed_undo_is_reported_and_forgotten() {
    let mut manager = UndoManager::new();
    manager.record(build_create_operation("a"));
    let operation = manager.undo().expect("an operation to undo");
    let result = undo::execute_operation(&operation, vec![Err(OperationError::NoEntry)]);
    let notification = manager.finish_undo(result).expect("a notification");
    assert_eq!(notification.message, "No entry for path.");
    assert_eq!(notification.id, "project_panel_undo");
    assert!(!manager.can_undo());
    assert!(!manager.can_redo());
    assert!(manager.undo().is_none());
}

#[test]
fn failed_redo_is_reported() {
    let mut manager = UndoManager::new();
    manager.record(build_create_operation("a"));
    undo_last(&mut manager);
    let operation = manager.redo().expect("an operation to redo");
    let result =
        undo::execute_operation(&operation, vec![Err(OperationError::Failed("no disk".to_owned()))]);
    let notification = manager.finish_redo(result).expect("a notification");
    assert_eq!(notification.message, "no disk");
    assert!(!manager.can_redo());
    assert!(manager.redo().is_none());
}

#[test]
fn first_failure_of_a_batch_is_reported() {
    let operation = ProjectPanelOperation::Batch(vec![
        build_create_operation("a"),
        build_create_operation("b"),
        build_create_operation("c"),
    ]);
    let result = undo::execute_operation(
        &operation,
        vec![Ok(()), Err(OperationError::NotTrashed), Err(OperationError::NoEntry)],
    );
    assert_eq!(result, Err(OperationError::NotTrashed));
}

#[test]
fn requests_need_a_workspace_and_an_entry() {
    assert_eq!(undo::rename(false, Some(7), &path("b")), Err(OperationError::NoWorkspace));
    assert_eq!(undo::rename(true, None, &path("b")), Err(OperationError::NoEntry));
    assert_eq!(
        undo::rename(true, Some(7), &path("b")),
        Ok(EntryRequest::Rename { entry_id: 7, to: path("b") })
    );
    assert_eq!(undo::create(false, &path("b")), Err(OperationError::NoWorkspace));
    assert_eq!(
        undo::create(true, &path("b")),
        Ok(EntryRequest::Create { project_path: path("b"), is_directory: false })
    );
    assert_eq!(undo::trash(false, Some(7)), Err(OperationError::NoWorkspace));
    assert_eq!(undo::trash(true, None), Err(OperationError::NoEntry));
    assert_eq!(undo::trash(true, Some(7)), Ok(EntryRequest::Delete { entry_id: 7, trash: true }));
}

#[test]
fn outcomes_of_steps() {
    assert_eq!(undo::step_outcome(EntryOutcome::Done), Ok(()));
    assert_eq!(undo::step_outcome(EntryOutcome::Refused), Err(OperationError::NotTrashed));
    assert_eq!(
        undo::step_outcome(EntryOutcome::Failed("gone".to_owned())),
        Err(OperationError::Failed("gone".to_owned()))
    );
    assert_eq!(OperationError::NoWorkspace.message(), "Failed to obtain workspace.");
    assert_eq!(OperationError::NotTrashed.message(), "Failed to trash entry.");
}

#[test]
fn batches_of_one_and_of_none() {
    let mut manager = UndoManager::new();
    manager.record_batch(Vec::new());
    assert!(manager.undo_stack.is_empty());
    manager.record_batch(vec![build_create_operation("a")]);
    assert_eq!(manager.undo_stack, vec![build_trash_operation("a")]);
}

#[test]
fn limit_of_zero_keeps_nothing() {
    let mut manager = UndoManager::new_with_limit(0);
    manager.record(build_create_operation("a"));
    manager.record(build_rename_operation("a", "b"));
    assert!(manager.undo_stack.is_empty());
    assert!(manager.redo_stack.is_empty());
    assert!(!manager.can_undo());
    assert!(manager.undo().is_none());
}

#[test]
fn redoing_keeps_the_limit() {
    let mut manager = UndoManager::new_with_limit(1);
    manager.record(build_create_operation("a"));
    let undone = manager.undo().expect("an operation to undo");
    manager.record(build_create_operation("b"));
    let outcome = undo::execute_operation(&undone, vec![Ok(())]);
    assert_eq!(manager.finish_undo(outcome), None);
    assert_eq!(manager.undo_stack.len(), 1);
    assert_eq!(manager.redo_stack.len(), 1);
    redo_last(&mut manager);
    assert_eq!(manager.undo_stack, vec![build_trash_operation("a")]);
    let mut manager = UndoManager::new_with_limit(0);
    assert_eq!(manager.finish_redo(Ok(build_create_operation("a"))), None);
    assert!(manager.undo_stack.is_empty());
}
