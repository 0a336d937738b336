//! Undo and redo of file operations made in the project panel.

use std::collections::VecDeque;
use vstd::prelude::*;

verus! {

/// How many operations a manager remembers unless told otherwise.
pub const MAX_UNDO_OPERATIONS: usize = 10_000;

/// Identifies one worktree of a project.
#[derive(Clone, Copy, Debug, PartialEq, Eq, Structural)]
pub struct WorktreeId(pub usize);

/// A file or directory, by the worktree that holds it and its path inside it.
#[derive(Debug, PartialEq, Eq)]
pub struct ProjectPath {
    pub worktree_id: WorktreeId,
    pub path: String,
}

/// What a [`ProjectPath`] says.
pub struct ProjectPathView {
    pub worktree_id: WorktreeId,
    pub path: Seq<char>,
}

impl View for ProjectPath {
    type V = ProjectPathView;

    open spec fn view(&self) -> ProjectPathView {
        ProjectPathView { worktree_id: self.worktree_id, path: self.path@ }
    }
}

impl Clone for ProjectPath {
    fn clone(&self) -> (copy: Self)
        ensures
            copy == *self,
    {
        ProjectPath { worktree_id: self.worktree_id, path: self.path.clone() }
    }
}

/// One operation on the project's files, or a batch of them done in order.
#[derive(Debug, PartialEq)]
pub enum ProjectPanelOperation {
    Batch(Vec<ProjectPanelOperation>),
    Create { project_path: ProjectPath },
    Trash { project_path: ProjectPath },
    Rename { from: ProjectPath, to: ProjectPath },
}

/// What a [`ProjectPanelOperation`] says.
pub enum OperationView {
    Batch(Seq<OperationView>),
    Create { project_path: ProjectPathView },
    Trash { project_path: ProjectPathView },
    Rename { from: ProjectPathView, to: ProjectPathView },
}

impl ProjectPanelOperation {
    /// The operation, as the contracts speak of it.
    pub open spec fn view(&self) -> OperationView
        decreases self,
    {
        match self {
            ProjectPanelOperation::Batch(operations) => OperationView::Batch(
                Seq::new(
                    operations@.len(),
                    |i: int|
                        if 0 <= i < operations@.len() {
                            operations@[i].view()
                        } else {
                            arbitrary()
                        },
                ),
            ),
            ProjectPanelOperation::Create { project_path } => OperationView::Create {
                project_path: project_path@,
            },
            ProjectPanelOperation::Trash { project_path } => OperationView::Trash {
                project_path: project_path@,
            },
            ProjectPanelOperation::Rename { from, to } => OperationView::Rename {
                from: from@,
                to: to@,
            },
        }
    }
}

/// What the operations of a list say.
pub open spec fn views(operations: Seq<ProjectPanelOperation>) -> Seq<OperationView> {
    Seq::new(operations.len(), |i: int| operations[i]@)
}

impl OperationView {
    /// The operation that takes this one back. A batch is taken back from its end, so
    /// that whatever was built on an earlier step is gone before that step is undone.
    pub open spec fn inverse(self) -> OperationView
        decreases self,
    {
        match self {
            OperationView::Batch(operations) => OperationView::Batch(
                Seq::new(
                    operations.len(),
                    |i: int|
                        if 0 <= i < operations.len() {
                            operations[operations.len() - 1 - i].inverse()
                        } else {
                            arbitrary()
                        },
                ),
            ),
            OperationView::Create { project_path } => OperationView::Trash { project_path },
            OperationView::Trash { project_path } => OperationView::Create { project_path },
            OperationView::Rename { from, to } => OperationView::Rename { from: to, to: from },
        }
    }

    /// The single operations that this one is made of, in the order they are started.
    pub open spec fn steps(self) -> Seq<OperationView>
        decreases self,
    {
        match self {
            OperationView::Batch(operations) => OperationView::all_steps(operations),
            _ => seq![self],
        }
    }

    /// The single operations of a list of operations, one after the other.
    pub open spec fn all_steps(operations: Seq<OperationView>) -> Seq<OperationView>
        decreases operations,
    {
        if operations.len() == 0 {
            Seq::empty()
        } else {
            OperationView::all_steps(operations.drop_last()) + operations.last().steps()
        }
    }
}

/// The operations that take each of `operations` back, from the last to the first.
pub open spec fn retraced(operations: Seq<OperationView>) -> Seq<OperationView> {
    Seq::new(operations.len(), |i: int| operations[operations.len() - 1 - i].inverse())
}

impl ProjectPanelOperation {
    /// The operation that takes this one back.
    pub fn inverse(&self) -> (inverted: Self)
        ensures
            inverted@ == self@.inverse(),
        decreases self,
    {
        match self {
            ProjectPanelOperation::Create { project_path } => ProjectPanelOperation::Trash {
                project_path: project_path.clone(),
            },
            ProjectPanelOperation::Trash { project_path } => ProjectPanelOperation::Create {
                project_path: project_path.clone(),
            },
            ProjectPanelOperation::Rename { from, to } => ProjectPanelOperation::Rename {
                from: to.clone(),
                to: from.clone(),
            },
            ProjectPanelOperation::Batch(operations) => {
                let mut inverted: Vec<ProjectPanelOperation> = Vec::new();
                let mut left: usize = operations.len();
                while left > 0
                    invariant
                        left <= operations@.len(),
                        inverted@.len() == operations@.len() - left,
                        *self == ProjectPanelOperation::Batch(*operations),
                        forall|i: int|
                            0 <= i < inverted@.len() ==> #[trigger] inverted@[i]@
                                == operations@[operations@.len() - 1 - i]@.inverse(),
                    decreases left,
                {
                    left = left - 1;
                    assert(decreases_to!(*operations => operations@));
                    assert(decreases_to!(operations@ => operations@[left as int]));
                    assert(decreases_to!(*self => self->Batch_0));
                    inverted.push(operations[left].inverse());
                }
                let batch = ProjectPanelOperation::Batch(inverted);
                assert(self@->Batch_0 =~= views(operations@));
                assert(batch@->Batch_0 =~= views(inverted@));
                assert(self@.inverse()->Batch_0 =~= retraced(views(operations@)));
                assert(views(inverted@) =~= retraced(views(operations@)));
                batch
            },
        }
    }

    /// The single operations that this one is made of, in the order they are started.
    pub fn steps(&self) -> (steps: Vec<ProjectPanelOperation>)
        ensures
            views(steps@) == self@.steps(),
        decreases self,
    {
        match self {
            ProjectPanelOperation::Batch(operations) => {
                let mut steps: Vec<ProjectPanelOperation> = Vec::new();
                let mut next: usize = 0;
                assert(views(operations@).take(0) =~= Seq::empty());
                assert(views(steps@) =~= Seq::empty());
                while next < operations.len()
                    invariant
                        next <= operations@.len(),
                        *self == ProjectPanelOperation::Batch(*operations),
                        views(steps@) == OperationView::all_steps(
                            views(operations@).take(next as int),
                        ),
                    decreases operations@.len() - next,
                {
                    assert(decreases_to!(*operations => operations@));
                    assert(decreases_to!(operations@ => operations@[next as int]));
                    assert(decreases_to!(*self => self->Batch_0));
                    let ghost before = steps@;
                    let mut more = operations[next].steps();
                    let ghost added = more@;
                    steps.append(&mut more);
                    assert(views(steps@) =~= views(before) + views(added));
                    assert(views(operations@).take(next + 1).drop_last() =~= views(
                        operations@,
                    ).take(next as int));
                    next = next + 1;
                }
                assert(views(operations@).take(next as int) =~= views(operations@));
                assert(self@->Batch_0 =~= views(operations@));
                steps
            },
            ProjectPanelOperation::Create { project_path } => {
                let mut steps: Vec<ProjectPanelOperation> = Vec::new();
                steps.push(ProjectPanelOperation::Create { project_path: project_path.clone() });
                assert(views(steps@) =~= self@.steps());
                steps
            },
            ProjectPanelOperation::Trash { project_path } => {
                let mut steps: Vec<ProjectPanelOperation> = Vec::new();
                steps.push(ProjectPanelOperation::Trash { project_path: project_path.clone() });
                assert(views(steps@) =~= self@.steps());
                steps
            },
            ProjectPanelOperation::Rename { from, to } => {
                let mut steps: Vec<ProjectPanelOperation> = Vec::new();
                steps.push(ProjectPanelOperation::Rename { from: from.clone(), to: to.clone() });
                assert(views(steps@) =~= self@.steps());
                steps
            },
        }
    }
}

/// Why a single operation was not carried out.
#[derive(Debug, PartialEq, Eq)]
pub enum OperationError {
    /// The window that held the project is gone.
    NoWorkspace,
    /// The project has no file at the path.
    NoEntry,
    /// The project would not move the file to the trash.
    NotTrashed,
    /// The project's own account of what went wrong.
    Failed(String),
}

impl OperationError {
    /// The sentence shown to the user.
    pub open spec fn text(self) -> Seq<char> {
        match self {
            OperationError::NoWorkspace => "Failed to obtain workspace."@,
            OperationError::NoEntry => "No entry for path."@,
            OperationError::NotTrashed => "Failed to trash entry."@,
            OperationError::Failed(reason) => reason@,
        }
    }

    /// The sentence shown to the user.
    pub fn message(&self) -> (message: String)
        ensures
            message@ == self.text(),
    {
        match self {
            OperationError::NoWorkspace => "Failed to obtain workspace.".to_owned(),
            OperationError::NoEntry => "No entry for path.".to_owned(),
            OperationError::NotTrashed => "Failed to trash entry.".to_owned(),
            OperationError::Failed(reason) => reason.clone(),
        }
    }
}

/// What the project is asked to do for a single operation.
#[derive(Debug, PartialEq, Eq)]
pub enum EntryRequest {
    Rename { entry_id: u64, to: ProjectPath },
    Create { project_path: ProjectPath, is_directory: bool },
    Delete { entry_id: u64, trash: bool },
}

/// Starts a rename: `entry_id` is the project's entry at the old path.
pub fn rename(workspace_open: bool, entry_id: Option<u64>, to: &ProjectPath) -> (request: Result<
    EntryRequest,
    OperationError,
>)
    ensures
        request == (if !workspace_open {
            Err(OperationError::NoWorkspace)
        } else {
            match entry_id {
                None => Err(OperationError::NoEntry),
                Some(entry_id) => Ok((EntryRequest::Rename { entry_id, to: *to })),
            }
        }),
{
    if !workspace_open {
        return Err(OperationError::NoWorkspace);
    }
    match entry_id {
        None => Err(OperationError::NoEntry),
        Some(entry_id) => Ok(EntryRequest::Rename { entry_id, to: to.clone() }),
    }
}

/// Starts the creation of a file. What is created is always a file, never a directory.
pub fn create(workspace_open: bool, project_path: &ProjectPath) -> (request: Result<
    EntryRequest,
    OperationError,
>)
    ensures
        request == (if !workspace_open {
            Err(OperationError::NoWorkspace)
        } else {
            Ok((EntryRequest::Create { project_path: *project_path, is_directory: false }))
        }),
{
    if !workspace_open {
        return Err(OperationError::NoWorkspace);
    }
    Ok(EntryRequest::Create { project_path: project_path.clone(), is_directory: false })
}

/// Starts moving a file to the trash: `entry_id` is the project's entry at the path.
pub fn trash(workspace_open: bool, entry_id: Option<u64>) -> (request: Result<
    EntryRequest,
    OperationError,
>)
    ensures
        request == (if !workspace_open {
            Err(OperationError::NoWorkspace)
        } else {
            match entry_id {
                None => Err(OperationError::NoEntry),
                Some(entry_id) => Ok((EntryRequest::Delete { entry_id, trash: true })),
            }
        }),
{
    if !workspace_open {
        return Err(OperationError::NoWorkspace);
    }
    match entry_id {
        None => Err(OperationError::NoEntry),
        Some(entry_id) => Ok(EntryRequest::Delete { entry_id, trash: true }),
    }
}

/// What came of a request to the project.
#[derive(Debug, PartialEq, Eq)]
pub enum EntryOutcome {
    /// The project refused to start the work.
    Refused,
    /// The work was started and failed.
    Failed(String),
    /// The work was done.
    Done,
}

/// How a single operation ended, given what came of its request. Only the trash can
/// refuse to start.
pub fn step_outcome(outcome: EntryOutcome) -> (result: Result<(), OperationError>)
    ensures
        result == (match outcome {
            EntryOutcome::Refused => Err(OperationError::NotTrashed),
            EntryOutcome::Failed(reason) => Err(OperationError::Failed(reason)),
            EntryOutcome::Done => Ok(()),
        }),
{
    match outcome {
        EntryOutcome::Refused => Err(OperationError::NotTrashed),
        EntryOutcome::Failed(reason) => Err(OperationError::Failed(reason)),
        EntryOutcome::Done => Ok(()),
    }
}

/// The first failure among the outcomes of the steps, in the order they were started.
pub open spec fn first_failure(outcomes: Seq<Result<(), OperationError>>) -> Option<OperationError>
    decreases outcomes.len(),
{
    if outcomes.len() == 0 {
        None
    } else {
        match first_failure(outcomes.drop_last()) {
            Some(error) => Some(error),
            None => match outcomes.last() {
                Err(error) => Some(error),
                Ok(_) => None,
            },
        }
    }
}

/// The result of carrying out `operation`, given how its steps ended. The steps are
/// awaited in order and the wait ends with the first failure, so that `outcomes` may stop
/// there. Where every step was done the result is the operation that takes it all back.
pub fn execute_operation(
    operation: &ProjectPanelOperation,
    outcomes: Vec<Result<(), OperationError>>,
) -> (result: Result<ProjectPanelOperation, OperationError>)
    requires
        first_failure(outcomes@) is None ==> outcomes@.len() == operation@.steps().len(),
    ensures
        match first_failure(outcomes@) {
            Some(error) => result == Err::<ProjectPanelOperation, _>(error),
            None => result is Ok && result->Ok_0@ == operation@.inverse(),
        },
{
    let mut outcomes = outcomes;
    let ghost all = outcomes@;
    let mut failure: Option<OperationError> = None;
    assert(all.take(all.len() as int) =~= all);
    assert(all.skip(all.len() as int) =~= Seq::empty());
    while outcomes.len() > 0
        invariant
            outcomes@.len() <= all.len(),
            outcomes@ == all.take(outcomes@.len() as int),
            first_failure(all) == (match first_failure(outcomes@) {
                Some(error) => Some(error),
                None => failure,
            }),
        decreases outcomes@.len(),
    {
        let ghost before = outcomes@;
        let last = outcomes.pop().unwrap();
        assert(outcomes@ =~= before.drop_last());
        if let Err(error) = last {
            failure = Some(error);
        }
    }
    match failure {
        Some(error) => Err(error),
        None => Ok(operation.inverse()),
    }
}

/// Taking an operation back twice is the operation itself.
pub proof fn inverse_is_involutive(operation: OperationView)
    ensures
        operation.inverse().inverse() == operation,
    decreases operation,
{
    if let OperationView::Batch(operations) = operation {
        assert forall|i: int| 0 <= i < operations.len() implies (
        #[trigger] operations[i]).inverse().inverse() == operations[i] by {
            inverse_is_involutive(operations[i]);
        }
        assert(operation.inverse().inverse()->Batch_0 =~= operations);
    }
}

proof fn all_steps_of_concatenation(left: Seq<OperationView>, right: Seq<OperationView>)
    ensures
        OperationView::all_steps(left + right) == OperationView::all_steps(left)
            + OperationView::all_steps(right),
    decreases right.len(),
{
    if right.len() == 0 {
        assert(left + right =~= left);
    } else {
        assert((left + right).drop_last() =~= left + right.drop_last());
        all_steps_of_concatenation(left, right.drop_last());
    }
}

proof fn all_steps_retraced(operations: Seq<OperationView>)
    ensures
        OperationView::all_steps(retraced(operations)) == retraced(
            OperationView::all_steps(operations),
        ),
    decreases operations,
{
    if operations.len() == 0 {
        assert(retraced(operations) =~= Seq::empty());
        assert(retraced(OperationView::all_steps(operations)) =~= Seq::empty());
    } else {
        let last = operations.last();
        let front = operations.drop_last();
        assert(retraced(operations) =~= seq![last.inverse()] + retraced(front));
        all_steps_of_concatenation(seq![last.inverse()], retraced(front));
        assert(seq![last.inverse()].drop_last() =~= Seq::<OperationView>::empty());
        assert(OperationView::all_steps(Seq::<OperationView>::empty()) =~= Seq::empty());
        assert(OperationView::all_steps(seq![last.inverse()]) =~= last.inverse().steps());
        inverse_retraces_steps(last);
        all_steps_retraced(front);
        let front_steps = OperationView::all_steps(front);
        assert(retraced(last.steps()) + retraced(front_steps) =~= retraced(
            front_steps + last.steps(),
        ));
    }
}

/// The inverse of an operation takes its single steps back from the last to the first,
/// however deep the batches are nested.
pub proof fn inverse_retraces_steps(operation: OperationView)
    ensures
        operation.inverse().steps() == retraced(operation.steps()),
    decreases operation,
{
    if let OperationView::Batch(operations) = operation {
        assert(operation.inverse()->Batch_0 =~= retraced(operations));
        all_steps_retraced(operations);
    } else {
        assert(operation.inverse().steps() =~= retraced(operation.steps()));
    }
}

/// A notice to the user that an operation failed.
#[derive(Debug, PartialEq, Eq)]
pub struct ErrorNotification {
    pub id: String,
    pub title: String,
    pub message: String,
}

/// The notice under the manager's own id, with the given title and the error's sentence.
pub fn show_error(title: &str, error: &OperationError) -> (notification: ErrorNotification)
    ensures
        notification.id@ == "project_panel_undo"@,
        notification.title@ == title@,
        notification.message@ == error.text(),
{
    ErrorNotification {
        id: "project_panel_undo".to_owned(),
        title: title.to_owned(),
        message: error.message(),
    }
}

/// Remembers how to take back what was done, and how to do again what was taken back.
pub struct UndoManager {
    pub undo_stack: VecDeque<ProjectPanelOperation>,
    pub redo_stack: Vec<ProjectPanelOperation>,
    /// Maximum number of operations to keep on the undo history.
    pub limit: usize,
}

/// What an [`UndoManager`] remembers: the last operation of each list is the next to be
/// carried out.
pub struct History {
    pub undo: Seq<OperationView>,
    pub redo: Seq<OperationView>,
    pub limit: nat,
}

impl History {
    /// What there is to undo once `operation` was added: a full list has lost its oldest
    /// operation, and where nothing may be kept nothing is.
    pub open spec fn undo_with(self, operation: OperationView) -> Seq<OperationView> {
        if self.limit == 0 {
            Seq::empty()
        } else if self.undo.len() >= self.limit {
            self.undo.skip(1).push(operation)
        } else {
            self.undo.push(operation)
        }
    }

    /// After the user did `operation`: its inverse is the next to undo, and nothing is left to
    /// redo.
    pub open spec fn recorded(self, operation: OperationView) -> History {
        History {
            undo: self.undo_with(operation.inverse()),
            redo: Seq::empty(),
            limit: self.limit,
        }
    }

    /// After the next operation to undo was taken off the list.
    pub open spec fn undo_taken(self) -> History {
        History { undo: self.undo.drop_last(), ..self }
    }

    /// After the next operation to redo was taken off the list.
    pub open spec fn redo_taken(self) -> History {
        History { redo: self.redo.drop_last(), ..self }
    }

    /// After the last operation was undone: what was carried out can be taken back again.
    pub open spec fn undone(self) -> History {
        History {
            redo: self.redo.push(self.undo.last().inverse()),
            ..self.undo_taken()
        }
    }

    /// After the last undone operation was done again.
    pub open spec fn redone(self) -> History {
        History {
            undo: self.undo_with(self.redo.last().inverse()),
            ..self.redo_taken()
        }
    }

    /// Whether there is no more to undo than may be kept.
    pub open spec fn is_within_limit(self) -> bool {
        self.undo.len() <= self.limit
    }

    /// Whether all that is remembered fits the limit.
    pub open spec fn fits(self) -> bool {
        self.undo.len() + self.redo.len() <= self.limit
    }
}

impl View for UndoManager {
    type V = History;

    open spec fn view(&self) -> History {
        History {
            undo: views(self.undo_stack@),
            redo: views(self.redo_stack@),
            limit: self.limit as nat,
        }
    }
}

impl UndoManager {
    /// A manager with nothing to undo and room for ten thousand operations.
    pub fn new() -> (manager: Self)
        ensures
            manager@ == (History {
                undo: Seq::empty(),
                redo: Seq::empty(),
                limit: MAX_UNDO_OPERATIONS as nat,
            }),
    {
        UndoManager::new_with_limit(MAX_UNDO_OPERATIONS)
    }

    /// A manager with nothing to undo and room for `limit` operations.
    pub fn new_with_limit(limit: usize) -> (manager: Self)
        ensures
            manager@ == (History { undo: Seq::empty(), redo: Seq::empty(), limit: limit as nat }),
    {
        let manager = UndoManager { undo_stack: VecDeque::new(), redo_stack: Vec::new(), limit };
        assert(manager@.undo =~= Seq::empty());
        assert(manager@.redo =~= Seq::empty());
        manager
    }

    /// Whether there is something to undo.
    pub fn can_undo(&self) -> (can: bool)
        ensures
            can == (self@.undo.len() > 0),
    {
        self.undo_stack.len() > 0
    }

    /// Whether there is something to do again.
    pub fn can_redo(&self) -> (can: bool)
        ensures
            can == (self@.redo.len() > 0),
    {
        self.redo_stack.len() > 0
    }

    /// Takes the next operation to undo off the list: it is to be carried out, and
    /// [`UndoManager::finish_undo`] is to be told how that went.
    pub fn undo(&mut self) -> (operation: Option<ProjectPanelOperation>)
        ensures
            match operation {
                Some(operation) => old(self)@.undo.len() > 0 && operation@
                    == old(self)@.undo.last() && final(self)@ == old(self)@.undo_taken(),
                None => old(self)@.undo.len() == 0 && final(self)@ == old(self)@,
            },
    {
        let operation = self.undo_stack.pop_back();
        proof {
            if operation is Some {
                assert(self@.undo =~= old(self)@.undo_taken().undo);
            }
        }
        operation
    }

    /// Takes the next operation to redo off the list: it is to be carried out, and
    /// [`UndoManager::finish_redo`] is to be told how that went.
    pub fn redo(&mut self) -> (operation: Option<ProjectPanelOperation>)
        ensures
            match operation {
                Some(operation) => old(self)@.redo.len() > 0 && operation@
                    == old(self)@.redo.last() && final(self)@ == old(self)@.redo_taken(),
                None => old(self)@.redo.len() == 0 && final(self)@ == old(self)@,
            },
    {
        let operation = self.redo_stack.pop();
        proof {
            if operation is Some {
                assert(self@.redo =~= old(self)@.redo_taken().redo);
            }
        }
        operation
    }

    /// Ends an undo. What takes the carried out operation back becomes the next to redo; a
    /// failure leaves the lists alone and is shown to the user.
    pub fn finish_undo(
        &mut self,
        result: Result<ProjectPanelOperation, OperationError>,
    ) -> (notification: Option<ErrorNotification>)
        ensures
            match result {
                Ok(operation) => {
                    &&& notification is None
                    &&& final(self)@ == (History {
                        redo: old(self)@.redo.push(operation@),
                        ..old(self)@
                    })
                },
                Err(error) => {
                    &&& final(self)@ == old(self)@
                    &&& notification is Some
                    &&& notification->0.id@ == "project_panel_undo"@
                    &&& notification->0.title@ == "Failed to undo Project Panel Operation(s)"@
                    &&& notification->0.message@ == error.text()
                },
            },
    {
        match result {
            Ok(operation) => {
                self.redo_stack.push(operation);
                assert(self@.redo =~= old(self)@.redo.push(operation@));
                None
            },
            Err(error) => Some(show_error("Failed to undo Project Panel Operation(s)", &error)),
        }
    }

    /// Ends a redo. What takes the carried out operation back becomes the next to undo; a
    /// failure leaves the lists alone and is shown to the user.
    pub fn finish_redo(
        &mut self,
        result: Result<ProjectPanelOperation, OperationError>,
    ) -> (notification: Option<ErrorNotification>)
        ensures
            match result {
                Ok(operation) => {
                    &&& notification is None
                    &&& final(self)@ == (History {
                        undo: old(self)@.undo_with(operation@),
                        ..old(self)@
                    })
                },
                Err(error) => {
                    &&& final(self)@ == old(self)@
                    &&& notification is Some
                    &&& notification->0.id@ == "project_panel_undo"@
                    &&& notification->0.title@ == "Failed to redo Project Panel Operation(s)"@
                    &&& notification->0.message@ == error.text()
                },
            },
    {
        match result {
            Ok(operation) => {
                self.remember(operation);
                None
            },
            Err(error) => Some(show_error("Failed to redo Project Panel Operation(s)", &error)),
        }
    }

    /// Puts an operation on the list of what there is to undo, and keeps the list within its
    /// limit.
    fn remember(&mut self, operation: ProjectPanelOperation)
        ensures
            final(self)@ == (History {
                undo: old(self)@.undo_with(operation@),
                ..old(self)@
            }),
    {
        if self.limit == 0 {
            self.undo_stack.clear();
            assert(self@.undo =~= Seq::empty());
            return ;
        }
        if self.undo_stack.len() >= self.limit {
            self.undo_stack.pop_front();
            assert(self@.undo =~= old(self)@.undo.skip(1));
        }
        let ghost kept = self@.undo;
        self.undo_stack.push_back(operation);
        assert(self@.undo =~= kept.push(operation@));
    }

    /// Remembers how to take back an operation that the user made. What was undone before
    /// can no longer be done again, since the files have gone another way.
    pub fn record(&mut self, operation: ProjectPanelOperation)
        ensures
            final(self)@ == old(self)@.recorded(operation@),
            old(self)@.is_within_limit() ==> final(self)@.is_within_limit(),
    {
        self.redo_stack.clear();
        assert(self@.redo =~= Seq::empty());
        self.remember(operation.inverse());
    }

    /// Remembers how to take back several operations at once. No operation is no batch, and
    /// a single one is remembered as itself.
    pub fn record_batch(&mut self, operations: Vec<ProjectPanelOperation>)
        ensures
            final(self)@ == (if operations@.len() == 0 {
                old(self)@
            } else if operations@.len() == 1 {
                old(self)@.recorded(operations@[0]@)
            } else {
                old(self)@.recorded(OperationView::Batch(views(operations@)))
            }),
    {
        let mut operations = operations;
        if operations.len() == 0 {
            return ;
        }
        if operations.len() == 1 {
            let operation = operations.pop().unwrap();
            self.record(operation);
            return ;
        }
        let batch = ProjectPanelOperation::Batch(operations);
        assert(batch@->Batch_0 =~= views(operations@));
        self.record(batch);
    }
}

/// The operation recorded last is the first to be undone, and carrying out what was recorded
/// for it is carrying out its inverse. Nothing is left to redo.
pub proof fn last_recorded_is_first_undone(history: History, operation: OperationView)
    requires
        history.limit > 0,
    ensures
        history.recorded(operation).undo.len() > 0,
        history.recorded(operation).undo.last() == operation.inverse(),
        history.recorded(operation).redo.len() == 0,
{
}

/// Redoing what was just undone, and undoing what was just redone, leaves the history as it
/// was, as long as no operation has to be forgotten for want of room.
pub proof fn undo_and_redo_cancel(history: History)
    ensures
        history.undo.len() > 0 && history.is_within_limit() ==> history.undone().redone()
            == history,
        history.redo.len() > 0 && history.undo.len() < history.limit
            ==> history.redone().undone() == history,
{
    if history.undo.len() > 0 && history.is_within_limit() {
        inverse_is_involutive(history.undo.last());
        assert(history.undone().redone().undo =~= history.undo);
        assert(history.undone().redone().redo =~= history.redo);
    }
    if history.redo.len() > 0 && history.undo.len() < history.limit {
        inverse_is_involutive(history.redo.last());
        assert(history.redone().undone().undo =~= history.undo);
        assert(history.redone().undone().redo =~= history.redo);
    }
}

/// Undoing a just recorded operation carries out its inverse and offers the operation itself
/// to redo.
pub proof fn undoing_the_last_recorded_offers_it_again(history: History, operation: OperationView)
    requires
        history.limit > 0,
    ensures
        history.recorded(operation).undone().redo == seq![operation],
{
    inverse_is_involutive(operation);
    assert(history.recorded(operation).undone().redo =~= seq![operation]);
}

/// There is never more to undo than may be kept, whatever is recorded, undone or redone, and
/// recording drops nothing but the oldest operation of a full list. As long as each undo and
/// redo is over before anything else is recorded, what there is to redo fits as well.
pub proof fn history_keeps_its_limit(history: History, operation: OperationView)
    requires
        history.is_within_limit(),
    ensures
        history.recorded(operation).is_within_limit(),
        history.recorded(operation).fits(),
        history.undo.len() < history.limit ==> history.recorded(operation).undo
            == history.undo.push(operation.inverse()),
        history.undo.len() > 0 ==> history.undone().is_within_limit(),
        history.redo.len() > 0 ==> history.redone().is_within_limit(),
        history.fits() && history.undo.len() > 0 ==> history.undone().fits(),
        history.fits() && history.redo.len() > 0 ==> history.redone().fits(),
{
}

impl OperationView {
    /// Whether the step can be carried out where these files are: what is created is not there
    /// yet, what is trashed or moved is, and nothing is where it is moved to.
    pub open spec fn applies(self, files: Set<ProjectPathView>) -> bool {
        match self {
            OperationView::Batch(_) => false,
            OperationView::Create { project_path } => !files.contains(project_path),
            OperationView::Trash { project_path } => files.contains(project_path),
            OperationView::Rename { from, to } => files.contains(from) && !files.contains(to),
        }
    }

    /// The files there are after the step was carried out.
    pub open spec fn effect(self, files: Set<ProjectPathView>) -> Set<ProjectPathView> {
        match self {
            OperationView::Batch(_) => files,
            OperationView::Create { project_path } => files.insert(project_path),
            OperationView::Trash { project_path } => files.remove(project_path),
            OperationView::Rename { from, to } => files.remove(from).insert(to),
        }
    }
}

/// The files there are after the steps were carried out one behind the other.
pub open spec fn files_after(files: Set<ProjectPathView>, steps: Seq<OperationView>) -> Set<
    ProjectPathView,
>
    decreases steps.len(),
{
    if steps.len() == 0 {
        files
    } else {
        steps.last().effect(files_after(files, steps.drop_last()))
    }
}

/// Whether each of the steps can be carried out once those before it were.
pub open spec fn steps_apply(files: Set<ProjectPathView>, steps: Seq<OperationView>) -> bool
    decreases steps.len(),
{
    steps.len() > 0 ==> steps_apply(files, steps.drop_last()) && steps.last().applies(
        files_after(files, steps.drop_last()),
    )
}

proof fn files_after_both(
    files: Set<ProjectPathView>,
    first: Seq<OperationView>,
    second: Seq<OperationView>,
)
    ensures
        files_after(files, first + second) == files_after(files_after(files, first), second),
        steps_apply(files, first + second) == (steps_apply(files, first) && steps_apply(
            files_after(files, first),
            second,
        )),
    decreases second.len(),
{
    if second.len() == 0 {
        assert(first + second =~= first);
    } else {
        files_after_both(files, first, second.drop_last());
        assert((first + second).drop_last() =~= first + second.drop_last());
    }
}

proof fn one_step_is_taken_back(files: Set<ProjectPathView>, step: OperationView)
    requires
        step.applies(files),
    ensures
        step.inverse().applies(step.effect(files)),
        step.inverse().effect(step.effect(files)) == files,
{
    assert(step.inverse().effect(step.effect(files)) =~= files);
}

proof fn steps_are_taken_back(files: Set<ProjectPathView>, steps: Seq<OperationView>)
    requires
        steps_apply(files, steps),
    ensures
        steps_apply(files_after(files, steps), retraced(steps)),
        files_after(files_after(files, steps), retraced(steps)) == files,
    decreases steps.len(),
{
    if steps.len() == 0 {
        assert(retraced(steps) =~= Seq::empty());
    } else {
        let front = steps.drop_last();
        let last = steps.last();
        let between = files_after(files, front);
        one_step_is_taken_back(between, last);
        steps_are_taken_back(files, front);
        let one = seq![last.inverse()];
        assert(retraced(steps) =~= one + retraced(front));
        assert(one.drop_last() =~= Seq::empty());
        assert(files_after(files_after(files, steps), one.drop_last()) == files_after(
            files,
            steps,
        ));
        assert(steps_apply(files_after(files, steps), one.drop_last()));
        files_after_both(files_after(files, steps), one, retraced(front));
    }
}

/// Undoing takes an operation back: wherever all its steps could be carried out, its inverse can be
/// carried out afterwards, and leaves the files that were there before.
pub proof fn undoing_restores_the_files(files: Set<ProjectPathView>, operation: OperationView)
    requires
        steps_apply(files, operation.steps()),
    ensures
        steps_apply(files_after(files, operation.steps()), operation.inverse().steps()),
        files_after(files_after(files, operation.steps()), operation.inverse().steps()) == files,
{
    inverse_retraces_steps(operation);
    steps_are_taken_back(files, operation.steps());
}

/// A batch does what its parts do, all of it and in their order; an operation that is no batch is a
/// step of its own.
pub proof fn batches_do_what_their_parts_do(
    first: Seq<OperationView>,
    second: Seq<OperationView>,
    operation: OperationView,
)
    ensures
        OperationView::Batch(first + second).steps() == OperationView::Batch(first).steps()
            + OperationView::Batch(second).steps(),
        OperationView::Batch(seq![operation]).steps() == operation.steps(),
        OperationView::Batch(Seq::empty()).steps().len() == 0,
        !(operation is Batch) ==> operation.steps() == seq![operation],
{
    let one = seq![operation];
    let none = Seq::<OperationView>::empty();
    all_steps_of_concatenation(first, second);
    assert(one.drop_last() =~= none);
    assert(OperationView::all_steps(none) =~= none);
    assert(OperationView::all_steps(one) =~= operation.steps());
}

/// An operation fails with the first of its steps that does, and succeeds where none does.
pub proof fn first_failed_step_counts(outcomes: Seq<Result<(), OperationError>>, at: int)
    requires
        0 <= at <= outcomes.len(),
        forall|i: int| 0 <= i < at ==> #[trigger] outcomes[i] is Ok,
        at < outcomes.len() ==> outcomes[at] is Err,
    ensures
        first_failure(outcomes) == (if at < outcomes.len() {
            Some(outcomes[at]->Err_0)
        } else {
            None
        }),
    decreases outcomes.len(),
{
    if outcomes.len() > 0 {
        let front = outcomes.drop_last();
        assert forall|i: int| 0 <= i < at && i < front.len() implies #[trigger] front[i] is Ok by {
            assert(front[i] == outcomes[i]);
        }
        if at < front.len() {
            assert(front[at] == outcomes[at]);
            first_failed_step_counts(front, at);
        } else {
            first_failed_step_counts(front, front.len() as int);
            assert(outcomes[outcomes.len() - 1] == outcomes.last());
        }
    }
}

/// Of what there is to undo, recording keeps all but what there is no room for, and that is the
/// oldest: as many of the latest operations stay as fit beside the new one, in their order. Undoing
/// takes nothing but the latest, and offers what takes it back as the next to redo; redoing takes
/// nothing but the next to redo.
pub proof fn latest_operations_are_kept(history: History, operation: OperationView)
    requires
        history.limit > 0,
        history.is_within_limit(),
    ensures
        ({
            let kept = history.recorded(operation).undo.drop_last();
            let count = if history.undo.len() < history.limit {
                history.undo.len() as int
            } else {
                history.limit - 1
            };
            kept == history.undo.skip(history.undo.len() - count)
        }),
        history.recorded(operation).limit == history.limit,
        history.undo.len() > 0 ==> {
            &&& history.undone().undo == history.undo.take(history.undo.len() - 1)
            &&& history.undone().redo == history.redo + seq![history.undo.last().inverse()]
            &&& history.undone().limit == history.limit
            &&& history.undo_taken() == (History {
                undo: history.undo.take(history.undo.len() - 1),
                ..history
            })
        },
        history.redo.len() > 0 ==> {
            &&& history.redone().redo == history.redo.take(history.redo.len() - 1)
            &&& history.redone().undo.last() == history.redo.last().inverse()
            &&& history.redone().limit == history.limit
            &&& history.redo_taken() == (History {
                redo: history.redo.take(history.redo.len() - 1),
                ..history
            })
        },
{
    let count = if history.undo.len() < history.limit {
        history.undo.len() as int
    } else {
        history.limit - 1
    };
    assert(history.recorded(operation).undo.drop_last() =~= history.undo.skip(
        history.undo.len() - count,
    ));
    if history.undo.len() > 0 {
        assert(history.undone().undo =~= history.undo.take(history.undo.len() - 1));
        assert(history.undone().redo =~= history.redo + seq![history.undo.last().inverse()]);
    }
    if history.redo.len() > 0 {
        assert(history.redone().redo =~= history.redo.take(history.redo.len() - 1));
    }
}

} // verus!
