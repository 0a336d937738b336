//! Finding the repository that git has to be asked through, and taking a worktree away with it.

use crate::lists;
use crate::worktree_archive::{
    find_repository, is_checked_out_at, repositories_of, AffectedProject, ProjectId, Repository,
    RepositoryId, RootPlan, Workspace, WorkspaceId,
};
use vstd::prelude::*;

verus! {

/// What came back from a request to git.
#[derive(Debug, PartialEq, Eq)]
pub enum Reply<T> {
    /// The request was dropped before git answered.
    Canceled,
    /// Git refused, for the given reason.
    Failed(String),
    /// Git did as asked.
    Done(T),
}

/// Why no repository could be had.
#[derive(Debug, PartialEq, Eq)]
pub enum LookupError {
    NoAppState,
    WorktreeNotCreated(String),
    NoRepository(LookupPurpose),
    BarrierCanceled,
}

/// What a repository is wanted for.
#[derive(Clone, Copy, Debug, PartialEq, Eq, Structural)]
pub enum LookupPurpose {
    /// To archive or restore a worktree.
    Archive,
    /// To remove the worktree of an archived thread.
    Cleanup,
}

impl LookupError {
    /// The sentence that describes the error.
    pub open spec fn text(self) -> Seq<char> {
        match self {
            LookupError::NoAppState => "no app state available for temporary project"@,
            LookupError::WorktreeNotCreated(reason) => reason@,
            LookupError::NoRepository(LookupPurpose::Archive) =>
                "failed to resolve temporary repository handle"@,
            LookupError::NoRepository(LookupPurpose::Cleanup) =>
                "failed to resolve temporary main repository handle"@,
            LookupError::BarrierCanceled => "temporary repository barrier canceled"@,
        }
    }

    /// The sentence that describes the error.
    pub fn message(&self) -> (message: String)
        ensures
            message@ == self.text(),
    {
        match self {
            LookupError::NoAppState => "no app state available for temporary project".to_owned(),
            LookupError::WorktreeNotCreated(reason) => reason.clone(),
            LookupError::NoRepository(LookupPurpose::Archive) =>
                "failed to resolve temporary repository handle".to_owned(),
            LookupError::NoRepository(LookupPurpose::Cleanup) =>
                "failed to resolve temporary main repository handle".to_owned(),
            LookupError::BarrierCanceled => "temporary repository barrier canceled".to_owned(),
        }
    }
}

/// How far the search for a repository has come, and so what has to be done next.
#[derive(Debug, PartialEq, Eq)]
pub enum Lookup {
    /// Open a temporary project with the application state of the given workspace.
    OpenProject { app_state: WorkspaceId },
    /// Add the repository's directory to the temporary project.
    AddWorktree { project: ProjectId },
    /// Wait until the temporary project has read the directory.
    AwaitScan { project: ProjectId },
    /// List the repositories of the temporary project.
    ListRepositories { project: ProjectId },
    /// Wait until the repository has done all that was asked of it before.
    AwaitBarrier { project: ProjectId, repository: RepositoryId },
    /// The repository, and the temporary project that has to be kept while it is used.
    Found { repository: RepositoryId, temporary_project: Option<ProjectId> },
    /// There is none.
    Failed(LookupError),
}

/// What the outside world reports to the search.
#[derive(Debug)]
pub enum LookupEvent {
    ProjectOpened(ProjectId),
    WorktreeAdded(Result<(), String>),
    Scanned,
    Repositories(Vec<Repository>),
    BarrierPassed(Reply<()>),
}

impl Lookup {
    /// Whether the event answers what the search asked for.
    pub open spec fn expects(self, event: LookupEvent) -> bool {
        match self {
            Lookup::OpenProject { .. } => event is ProjectOpened,
            Lookup::AddWorktree { .. } => event is WorktreeAdded,
            Lookup::AwaitScan { .. } => event is Scanned,
            Lookup::ListRepositories { .. } => event is Repositories,
            Lookup::AwaitBarrier { .. } => event is BarrierPassed,
            Lookup::Found { .. } => false,
            Lookup::Failed(_) => false,
        }
    }

    /// The search after the event. What a barrier reports other than that it was dropped makes
    /// no difference.
    pub open spec fn after(
        self,
        purpose: LookupPurpose,
        path: Seq<char>,
        event: LookupEvent,
    ) -> Lookup {
        match (self, event) {
            (Lookup::OpenProject { .. }, LookupEvent::ProjectOpened(project)) =>
                Lookup::AddWorktree { project },
            (Lookup::AddWorktree { project }, LookupEvent::WorktreeAdded(result)) =>
                match result {
                    Ok(_) => Lookup::AwaitScan { project },
                    Err(reason) => Lookup::Failed(LookupError::WorktreeNotCreated(reason)),
                },
            (Lookup::AwaitScan { project }, LookupEvent::Scanned) =>
                Lookup::ListRepositories { project },
            (Lookup::ListRepositories { project }, LookupEvent::Repositories(repositories)) =>
                match lists::first_where(repositories@, is_checked_out_at(path)) {
                    Some(repository) => Lookup::AwaitBarrier { project, repository: repository.id },
                    None => Lookup::Failed(LookupError::NoRepository(purpose)),
                },
            (Lookup::AwaitBarrier { project, repository }, LookupEvent::BarrierPassed(reply)) =>
                match reply {
                    Reply::Canceled => Lookup::Failed(LookupError::BarrierCanceled),
                    _ => Lookup::Found { repository, temporary_project: Some(project) },
                },
            _ => self,
        }
    }

    /// Takes the search one step further.
    pub fn advance(self, purpose: LookupPurpose, path: &str, event: LookupEvent) -> (next: Lookup)
        requires
            self.expects(event),
        ensures
            next == self.after(purpose, path@, event),
    {
        match (self, event) {
            (Lookup::OpenProject { .. }, LookupEvent::ProjectOpened(project)) =>
                Lookup::AddWorktree { project },
            (Lookup::AddWorktree { project }, LookupEvent::WorktreeAdded(result)) =>
                match result {
                    Ok(_) => Lookup::AwaitScan { project },
                    Err(reason) => Lookup::Failed(LookupError::WorktreeNotCreated(reason)),
                },
            (Lookup::AwaitScan { project }, LookupEvent::Scanned) =>
                Lookup::ListRepositories { project },
            (Lookup::ListRepositories { project }, LookupEvent::Repositories(repositories)) =>
                match find_repository(&repositories, path) {
                    Some(repository) => Lookup::AwaitBarrier { project, repository },
                    None => Lookup::Failed(LookupError::NoRepository(purpose)),
                },
            (Lookup::AwaitBarrier { project, repository }, LookupEvent::BarrierPassed(reply)) =>
                match reply {
                    Reply::Canceled => Lookup::Failed(LookupError::BarrierCanceled),
                    _ => Lookup::Found { repository, temporary_project: Some(project) },
                },
            (lookup, _) => lookup,
        }
    }
}

/// The workspace whose application state a temporary project borrows: the first that is open.
pub fn current_app_state(workspaces: &Vec<&Workspace>) -> (workspace: Option<WorkspaceId>)
    ensures
        workspace == (if workspaces@.len() == 0 {
            None
        } else {
            Some(workspaces@[0].id)
        }),
{
    if workspaces.len() == 0 {
        None
    } else {
        Some(workspaces[0].id)
    }
}

/// Starts the search for the repository checked out at `path`. One that an open workspace
/// already has is taken; a temporary project is opened only where there is none.
pub fn find_or_create_repository(path: &str, workspaces: &Vec<&Workspace>) -> (lookup: Lookup)
    ensures
        lookup == (match lists::first_where(
            repositories_of(crate::worktree_archive::referents(workspaces@)),
            is_checked_out_at(path@),
        ) {
            Some(repository) => Lookup::Found {
                repository: repository.id,
                temporary_project: None,
            },
            None => if workspaces@.len() == 0 {
                Lookup::Failed(LookupError::NoAppState)
            } else {
                Lookup::OpenProject { app_state: workspaces@[0].id }
            },
        }),
{
    let ghost all = crate::worktree_archive::referents(workspaces@);
    let mut at: usize = 0;
    assert(all.take(0) =~= Seq::empty());
    while at < workspaces.len()
        invariant
            at <= workspaces@.len(),
            all == crate::worktree_archive::referents(workspaces@),
            lists::first_where(
                repositories_of(all.take(at as int)),
                is_checked_out_at(path@),
            ) is None,
        decreases workspaces@.len() - at,
    {
        let workspace = workspaces[at];
        proof {
            assert(all.take(at + 1).drop_last() =~= all.take(at as int));
            lists::first_where_in_both(
                repositories_of(all.take(at as int)),
                workspace.repositories@,
                is_checked_out_at(path@),
            );
            found_in_front_is_found(all, at + 1, is_checked_out_at(path@));
        }
        if let Some(repository) = find_repository(&workspace.repositories, path) {
            return Lookup::Found { repository, temporary_project: None };
        }
        at = at + 1;
    }
    assert(all.take(at as int) =~= all);
    match current_app_state(workspaces) {
        Some(app_state) => Lookup::OpenProject { app_state },
        None => Lookup::Failed(LookupError::NoAppState),
    }
}

proof fn found_in_front_is_found(
    workspaces: Seq<Workspace>,
    count: int,
    wanted: spec_fn(Repository) -> bool,
)
    requires
        0 <= count <= workspaces.len(),
    ensures
        lists::first_where(repositories_of(workspaces.take(count)), wanted) is Some
            ==> lists::first_where(repositories_of(workspaces), wanted) == lists::first_where(
            repositories_of(workspaces.take(count)),
            wanted,
        ),
    decreases workspaces.len(),
{
    if count == workspaces.len() {
        assert(workspaces.take(count) =~= workspaces);
    } else {
        found_in_front_is_found(workspaces.drop_last(), count, wanted);
        assert(workspaces.drop_last().take(count) =~= workspaces.take(count));
        lists::first_where_in_both(
            repositories_of(workspaces.drop_last()),
            workspaces.last().repositories@,
            wanted,
        );
    }
}

/// Why a worktree was not removed.
#[derive(Debug, PartialEq, Eq)]
pub enum RemovalError {
    NotReleased(String),
    NoRepository(LookupError),
    Canceled,
    Failed(String),
}

impl RemovalError {
    /// The sentence that describes the error.
    pub open spec fn text(self) -> Seq<char> {
        match self {
            RemovalError::NotReleased(reason) => reason@,
            RemovalError::NoRepository(error) => error.text(),
            RemovalError::Canceled => "git worktree removal was canceled"@,
            RemovalError::Failed(reason) => reason@,
        }
    }

    /// The sentence that describes the error.
    pub fn message(&self) -> (message: String)
        ensures
            message@ == self.text(),
    {
        match self {
            RemovalError::NotReleased(reason) => reason.clone(),
            RemovalError::NoRepository(error) => error.message(),
            RemovalError::Canceled => "git worktree removal was canceled".to_owned(),
            RemovalError::Failed(reason) => reason.clone(),
        }
    }
}

/// How far the removal of a worktree has come. Before it starts, every affected project has
/// been told to let the worktree go.
#[derive(Debug, PartialEq, Eq)]
pub enum Removal {
    /// Waiting for the affected project with this number to let go.
    AwaitingRelease(usize),
    /// Looking for the main repository.
    FindingRepository,
    /// Waiting for git to remove the worktree.
    Removing(RepositoryId),
    /// The removal failed: the worktree is being put back into the affected project with this
    /// number.
    PuttingBack(usize, RemovalError),
    /// All is done.
    Finished(Result<(), RemovalError>),
}

/// What has to be done next to remove a worktree.
#[derive(Debug, PartialEq, Eq)]
pub enum RemovalAction {
    AwaitRelease(AffectedProject),
    FindRepository { path: String },
    RemoveWorktree { repository: RepositoryId, path: String, force: bool },
    CreateWorktree { project: ProjectId, path: String, visible: bool },
    Finish,
}

/// What the outside world reports to a removal.
#[derive(Debug, PartialEq, Eq)]
pub enum RemovalEvent {
    Released(Result<(), String>),
    RepositoryFound(Result<RepositoryId, LookupError>),
    Removed(Reply<()>),
    /// Whether the worktree could be put back makes no difference.
    PutBack,
}

impl Removal {
    /// Whether the event answers what the removal asked for.
    pub open spec fn expects(self, event: RemovalEvent) -> bool {
        match self {
            Removal::AwaitingRelease(_) => event is Released,
            Removal::FindingRepository => event is RepositoryFound,
            Removal::Removing(_) => event is Removed,
            Removal::PuttingBack(_, _) => event is PutBack,
            Removal::Finished(_) => false,
        }
    }

    /// The start of a removal from so many projects.
    pub open spec fn started(projects: nat) -> Removal {
        if projects == 0 {
            Removal::FindingRepository
        } else {
            Removal::AwaitingRelease(0)
        }
    }

    /// The removal after a failure: the worktree is put back everywhere, then the error stands.
    pub open spec fn failed(projects: nat, error: RemovalError) -> Removal {
        if projects == 0 {
            Removal::Finished(Err(error))
        } else {
            Removal::PuttingBack(0, error)
        }
    }

    /// Whether the removal is about one of so many projects.
    pub open spec fn is_within(self, projects: nat) -> bool {
        match self {
            Removal::AwaitingRelease(at) => at < projects,
            Removal::PuttingBack(at, _) => at < projects,
            _ => true,
        }
    }

    /// The removal after the event.
    pub open spec fn after(self, projects: nat, event: RemovalEvent) -> Removal {
        match (self, event) {
            (Removal::AwaitingRelease(at), RemovalEvent::Released(result)) => match result {
                Ok(_) => if at + 1 < projects {
                    Removal::AwaitingRelease((at + 1) as usize)
                } else {
                    Removal::FindingRepository
                },
                Err(reason) => Removal::failed(projects, RemovalError::NotReleased(reason)),
            },
            (Removal::FindingRepository, RemovalEvent::RepositoryFound(result)) => match result {
                Ok(repository) => Removal::Removing(repository),
                Err(error) => Removal::failed(projects, RemovalError::NoRepository(error)),
            },
            (Removal::Removing(_), RemovalEvent::Removed(reply)) => match reply {
                Reply::Done(_) => Removal::Finished(Ok(())),
                Reply::Canceled => Removal::failed(projects, RemovalError::Canceled),
                Reply::Failed(reason) => Removal::failed(projects, RemovalError::Failed(reason)),
            },
            (Removal::PuttingBack(at, error), RemovalEvent::PutBack) => if at + 1 < projects {
                Removal::PuttingBack((at + 1) as usize, error)
            } else {
                Removal::Finished(Err(error))
            },
            _ => self,
        }
    }

    fn fail(root: &RootPlan, error: RemovalError) -> (removal: Removal)
        ensures
            removal == Removal::failed(root.affected_projects@.len(), error),
    {
        if root.affected_projects.len() == 0 {
            Removal::Finished(Err(error))
        } else {
            Removal::PuttingBack(0, error)
        }
    }

    /// Takes the removal one step further.
    pub fn advance(self, root: &RootPlan, event: RemovalEvent) -> (next: Removal)
        requires
            self.expects(event),
            self.is_within(root.affected_projects@.len()),
        ensures
            next == self.after(root.affected_projects@.len(), event),
            next.is_within(root.affected_projects@.len()),
    {
        match (self, event) {
            (Removal::AwaitingRelease(at), RemovalEvent::Released(result)) => match result {
                Ok(_) => if root.affected_projects.len() - at > 1 {
                    Removal::AwaitingRelease(at + 1)
                } else {
                    Removal::FindingRepository
                },
                Err(reason) => Removal::fail(root, RemovalError::NotReleased(reason)),
            },
            (Removal::FindingRepository, RemovalEvent::RepositoryFound(result)) => match result {
                Ok(repository) => Removal::Removing(repository),
                Err(error) => Removal::fail(root, RemovalError::NoRepository(error)),
            },
            (Removal::Removing(_), RemovalEvent::Removed(reply)) => match reply {
                Reply::Done(_) => Removal::Finished(Ok(())),
                Reply::Canceled => Removal::fail(root, RemovalError::Canceled),
                Reply::Failed(reason) => Removal::fail(root, RemovalError::Failed(reason)),
            },
            (Removal::PuttingBack(at, error), RemovalEvent::PutBack) => if root
                .affected_projects.len() - at > 1 {
                Removal::PuttingBack(at + 1, error)
            } else {
                Removal::Finished(Err(error))
            },
            (removal, _) => removal,
        }
    }

    /// What has to be done in this state.
    pub open spec fn next_action(self, root: RootPlan) -> RemovalAction {
        match self {
            Removal::AwaitingRelease(at) => RemovalAction::AwaitRelease(
                root.affected_projects@[at as int],
            ),
            Removal::FindingRepository => RemovalAction::FindRepository {
                path: root.main_repo_path,
            },
            Removal::Removing(repository) => RemovalAction::RemoveWorktree {
                repository,
                path: root.root_path,
                force: false,
            },
            Removal::PuttingBack(at, _) => RemovalAction::CreateWorktree {
                project: root.affected_projects@[at as int].project,
                path: root.root_path,
                visible: true,
            },
            Removal::Finished(_) => RemovalAction::Finish,
        }
    }

    /// What has to be done next.
    pub fn action(&self, root: &RootPlan) -> (action: RemovalAction)
        requires
            self.is_within(root.affected_projects@.len()),
        ensures
            action == self.next_action(*root),
    {
        match self {
            Removal::AwaitingRelease(at) => RemovalAction::AwaitRelease(
                root.affected_projects[*at],
            ),
            Removal::FindingRepository => RemovalAction::FindRepository {
                path: root.main_repo_path.clone(),
            },
            Removal::Removing(repository) => RemovalAction::RemoveWorktree {
                repository: *repository,
                path: root.root_path.clone(),
                force: false,
            },
            Removal::PuttingBack(at, _) => RemovalAction::CreateWorktree {
                project: root.affected_projects[*at].project,
                path: root.root_path.clone(),
                visible: true,
            },
            Removal::Finished(_) => RemovalAction::Finish,
        }
    }
}

/// Starts removing a worktree that every affected project has been told to let go.
pub fn remove_root(root: &RootPlan) -> (removal: Removal)
    ensures
        removal == Removal::started(root.affected_projects@.len()),
        removal.is_within(root.affected_projects@.len()),
{
    if root.affected_projects.len() == 0 {
        Removal::FindingRepository
    } else {
        Removal::AwaitingRelease(0)
    }
}

/// The removal after all the events.
pub open spec fn removal_after(projects: nat, events: Seq<RemovalEvent>) -> Removal
    decreases events.len(),
{
    if events.len() == 0 {
        Removal::started(projects)
    } else {
        removal_after(projects, events.drop_last()).after(projects, events.last())
    }
}

/// Whether each event answered what the removal had asked for.
pub open spec fn removal_expects(projects: nat, events: Seq<RemovalEvent>) -> bool
    decreases events.len(),
{
    events.len() > 0 ==> removal_expects(projects, events.drop_last()) && removal_after(
        projects,
        events.drop_last(),
    ).expects(events.last())
}

/// The numbers of the projects into which the worktree was put back, in order.
pub open spec fn put_back(projects: nat, events: Seq<RemovalEvent>) -> Seq<int>
    decreases events.len(),
{
    if events.len() == 0 {
        Seq::empty()
    } else {
        let before = put_back(projects, events.drop_last());
        match removal_after(projects, events.drop_last()) {
            Removal::PuttingBack(at, _) => before.push(at as int),
            _ => before,
        }
    }
}

/// A removal that fails puts the worktree back into every project it was taken from, in order
/// and once each; one that succeeds puts it back nowhere.
pub proof fn failed_removal_puts_worktree_back(projects: nat, events: Seq<RemovalEvent>)
    requires
        projects <= usize::MAX,
        removal_expects(projects, events),
    ensures
        removal_after(projects, events).is_within(projects),
        put_back(projects, events) == (match removal_after(projects, events) {
            Removal::PuttingBack(at, _) => Seq::new(at as nat, |i: int| i),
            Removal::Finished(Err(_)) => Seq::new(projects, |i: int| i),
            _ => Seq::<int>::empty(),
        }),
    decreases events.len(),
{
    if events.len() > 0 {
        failed_removal_puts_worktree_back(projects, events.drop_last());
        assert(put_back(projects, events) =~= (match removal_after(projects, events) {
            Removal::PuttingBack(at, _) => Seq::new(at as nat, |i: int| i),
            Removal::Finished(Err(_)) => Seq::new(projects, |i: int| i),
            _ => Seq::<int>::empty(),
        }));
    } else {
        assert(put_back(projects, events) =~= Seq::<int>::empty());
    }
}

/// A repository that is found is one checked out at the path that was asked for.
pub proof fn found_repository_is_at_path(
    purpose: LookupPurpose,
    path: Seq<char>,
    project: ProjectId,
    repositories: Vec<Repository>,
)
    ensures
        match (Lookup::ListRepositories { project }).after(
            purpose,
            path,
            LookupEvent::Repositories(repositories),
        ) {
            Lookup::AwaitBarrier { repository, .. } => exists|i: int|
                0 <= i < repositories@.len() && (#[trigger] repositories@[i]).id == repository
                    && repositories@[i].work_directory_abs_path@ == path,
            Lookup::Failed(error) => error == LookupError::NoRepository(purpose) && forall|i: int|
                0 <= i < repositories@.len() ==> (
                #[trigger] repositories@[i]).work_directory_abs_path@ != path,
            _ => false,
        },
{
    lists::first_where_is_wanted(repositories@, is_checked_out_at(path));
    if let Some(repository) = lists::first_where(repositories@, is_checked_out_at(path)) {
        let i = choose|i: int| 0 <= i < repositories@.len() && repositories@[i] == repository;
        assert(repositories@[i].id == repository.id);
    } else {
        assert forall|i: int| 0 <= i < repositories@.len() implies (
        #[trigger] repositories@[i]).work_directory_abs_path@ != path by {
            assert(!is_checked_out_at(path)(repositories@[i]));
        }
    }
}

/// The numbers of the projects that let the worktree go, in order.
pub open spec fn released(projects: nat, events: Seq<RemovalEvent>) -> Seq<int>
    decreases events.len(),
{
    if events.len() == 0 {
        Seq::empty()
    } else {
        let before = released(projects, events.drop_last());
        match (removal_after(projects, events.drop_last()), events.last()) {
            (Removal::AwaitingRelease(at), RemovalEvent::Released(Ok(_))) => before.push(at as int),
            _ => before,
        }
    }
}

spec fn let_go(projects: nat, events: Seq<RemovalEvent>) -> bool {
    let gone = released(projects, events);
    match removal_after(projects, events) {
        Removal::AwaitingRelease(at) => gone == Seq::new(at as nat, |i: int| i),
        Removal::FindingRepository => gone == Seq::new(projects, |i: int| i),
        Removal::Removing(_) => gone == Seq::new(projects, |i: int| i),
        Removal::Finished(Ok(_)) => gone == Seq::new(projects, |i: int| i),
        _ => true,
    }
}

proof fn projects_let_go_in_order(projects: nat, events: Seq<RemovalEvent>)
    requires
        projects <= usize::MAX,
        removal_expects(projects, events),
    ensures
        removal_after(projects, events).is_within(projects),
        let_go(projects, events),
    decreases events.len(),
{
    if events.len() > 0 {
        projects_let_go_in_order(projects, events.drop_last());
        let gone = released(projects, events);
        match removal_after(projects, events) {
            Removal::AwaitingRelease(at) => {
                assert(gone =~= Seq::new(at as nat, |i: int| i));
            },
            Removal::FindingRepository => {
                assert(gone =~= Seq::new(projects, |i: int| i));
            },
            _ => {},
        }
    } else {
        assert(released(projects, events) =~= Seq::<int>::empty());
        assert(released(projects, events) =~= Seq::new(0, |i: int| i));
    }
}

/// Git is asked to remove the worktree only once every project has let it go, each in its turn,
/// and through the main repository that was found. The removal ends well exactly where git did
/// it.
pub proof fn removal_waits_for_every_project(projects: nat, events: Seq<RemovalEvent>)
    requires
        projects <= usize::MAX,
        removal_expects(projects, events),
    ensures
        removal_after(projects, events) matches Removal::Removing(repository) ==> released(
            projects,
            events,
        ) == Seq::new(projects, |i: int| i) && events.len() > 0 && events.last()
            == RemovalEvent::RepositoryFound(Ok(repository)),
        (removal_after(projects, events) matches Removal::Finished(Ok(_))) == (events.len() > 0 && (
        events.last() matches RemovalEvent::Removed(reply) && reply is Done)),
{
    projects_let_go_in_order(projects, events);
}

impl RemovalEvent {
    /// Whether the error is the one that this answer stands for.
    pub open spec fn explains(self, error: RemovalError) -> bool {
        match error {
            RemovalError::NotReleased(reason) => self == RemovalEvent::Released(Err(reason)),
            RemovalError::NoRepository(reason) => self == RemovalEvent::RepositoryFound(
                Err(reason),
            ),
            RemovalError::Canceled => self == RemovalEvent::Removed(Reply::Canceled),
            RemovalError::Failed(reason) => self == RemovalEvent::Removed(Reply::Failed(reason)),
        }
    }
}

impl Removal {
    /// The error that the removal ends with, once it is known to fail.
    pub open spec fn told(self) -> Option<RemovalError> {
        match self {
            Removal::PuttingBack(_, error) => Some(error),
            Removal::Finished(Err(error)) => Some(error),
            _ => None,
        }
    }
}

/// A removal fails exactly with the first thing that is refused, and the error says what that
/// was. It is the error that stands in the end.
pub proof fn removal_fails_for_a_reason(removal: Removal, projects: nat, event: RemovalEvent)
    requires
        removal.expects(event),
    ensures
        removal.told() is Some ==> removal.after(projects, event).told() == removal.told(),
        removal.told() is None ==> (removal.after(projects, event).told() matches Some(error)
            ==> event.explains(error)),
        removal.told() is None ==> (removal.after(projects, event).told() is Some == (match event {
            RemovalEvent::Released(result) => result is Err,
            RemovalEvent::RepositoryFound(found) => found is Err,
            RemovalEvent::Removed(reply) => !(reply is Done),
            RemovalEvent::PutBack => false,
        })),
{
}

/// The search after all the events.
pub open spec fn lookup_after(
    start: Lookup,
    purpose: LookupPurpose,
    path: Seq<char>,
    events: Seq<LookupEvent>,
) -> Lookup
    decreases events.len(),
{
    if events.len() == 0 {
        start
    } else {
        lookup_after(start, purpose, path, events.drop_last()).after(purpose, path, events.last())
    }
}

/// Whether each event answered what the search had asked for.
pub open spec fn lookup_expects(
    start: Lookup,
    purpose: LookupPurpose,
    path: Seq<char>,
    events: Seq<LookupEvent>,
) -> bool
    decreases events.len(),
{
    events.len() > 0 ==> lookup_expects(start, purpose, path, events.drop_last()) && lookup_after(
        start,
        purpose,
        path,
        events.drop_last(),
    ).expects(events.last())
}

spec fn lookup_came_by(events: Seq<LookupEvent>, path: Seq<char>, now: Lookup) -> bool {
    let opened = |project: ProjectId| events[0] == LookupEvent::ProjectOpened(project);
    let added = events[1] matches LookupEvent::WorktreeAdded(result) && result is Ok;
    let listed = |repository: RepositoryId|
        {
            &&& events[3] matches LookupEvent::Repositories(repositories)
            &&& exists|i: int|
                0 <= i < repositories@.len() && (#[trigger] repositories@[i]).id == repository
                    && repositories@[i].work_directory_abs_path@ == path
        };
    match now {
        Lookup::OpenProject { .. } => events.len() == 0,
        Lookup::AddWorktree { project } => events.len() == 1 && opened(project),
        Lookup::AwaitScan { project } => events.len() == 2 && opened(project) && added,
        Lookup::ListRepositories { project } => events.len() == 3 && opened(project) && added
            && events[2] is Scanned,
        Lookup::AwaitBarrier { project, repository } => events.len() == 4 && opened(project)
            && added && events[2] is Scanned && listed(repository),
        Lookup::Found { repository, temporary_project } => events.len() == 5
            && temporary_project is Some && opened(temporary_project->0) && added && events[2]
            is Scanned && listed(repository) && events[4] is BarrierPassed && !(
        events[4]->BarrierPassed_0 is Canceled),
        Lookup::Failed(_) => true,
    }
}

proof fn lookup_comes_by(
    start: Lookup,
    purpose: LookupPurpose,
    path: Seq<char>,
    events: Seq<LookupEvent>,
)
    requires
        start is OpenProject,
        lookup_expects(start, purpose, path, events),
    ensures
        lookup_came_by(events, path, lookup_after(start, purpose, path, events)),
    decreases events.len(),
{
    if events.len() > 0 {
        let before = events.drop_last();
        lookup_comes_by(start, purpose, path, before);
        if let Lookup::ListRepositories { project } = lookup_after(start, purpose, path, before) {
            if let LookupEvent::Repositories(repositories) = events.last() {
                found_repository_is_at_path(purpose, path, project, repositories);
            }
        }
    }
}

/// A repository found through a temporary project comes from a project that was opened, given the
/// directory, left to read it and asked for its repositories, and that had nothing left to do in
/// the end. It is checked out at the path, and the project is kept with it.
pub proof fn temporary_project_is_ready(
    start: Lookup,
    purpose: LookupPurpose,
    path: Seq<char>,
    events: Seq<LookupEvent>,
)
    requires
        start is OpenProject,
        lookup_expects(start, purpose, path, events),
        lookup_after(start, purpose, path, events) is Found,
    ensures
        lookup_after(start, purpose, path, events) matches Lookup::Found {
            repository,
            temporary_project,
        } && {
            &&& events.len() == 5
            &&& temporary_project matches Some(project) && events[0] == LookupEvent::ProjectOpened(
                project,
            )
            &&& events[1] matches LookupEvent::WorktreeAdded(result) && result is Ok
            &&& events[2] is Scanned
            &&& events[3] matches LookupEvent::Repositories(repositories) && exists|i: int|
                0 <= i < repositories@.len() && (#[trigger] repositories@[i]).id == repository
                    && repositories@[i].work_directory_abs_path@ == path
            &&& events[4] matches LookupEvent::BarrierPassed(reply) && !(reply is Canceled)
        },
{
    lookup_comes_by(start, purpose, path, events);
}

/// A search fails exactly where the directory cannot be added, none of the repositories is
/// checked out at the path, or the wait for the repository is dropped, and the error says which.
pub proof fn search_fails_for_a_reason(
    lookup: Lookup,
    purpose: LookupPurpose,
    path: Seq<char>,
    event: LookupEvent,
)
    requires
        lookup.expects(event),
    ensures
        (lookup.after(purpose, path, event) is Failed) == (match event {
            LookupEvent::WorktreeAdded(result) => result is Err,
            LookupEvent::Repositories(repositories) => forall|i: int|
                0 <= i < repositories@.len() ==> (
                #[trigger] repositories@[i]).work_directory_abs_path@ != path,
            LookupEvent::BarrierPassed(reply) => reply is Canceled,
            _ => false,
        }),
        lookup.after(purpose, path, event) matches Lookup::Failed(error) ==> match error {
            LookupError::NoAppState => false,
            LookupError::WorktreeNotCreated(reason) => event == LookupEvent::WorktreeAdded(
                Err(reason),
            ),
            LookupError::NoRepository(wanted_for) => event is Repositories && wanted_for == purpose,
            LookupError::BarrierCanceled => event == LookupEvent::BarrierPassed(Reply::Canceled),
        },
{
    if let Lookup::ListRepositories { project } = lookup {
        if let LookupEvent::Repositories(repositories) = event {
            found_repository_is_at_path(purpose, path, project, repositories);
        }
    }
}

/// The repository that is used is the first of those checked out at the path.
pub proof fn first_repository_at_the_path_is_used(
    project: ProjectId,
    purpose: LookupPurpose,
    path: Seq<char>,
    repositories: Vec<Repository>,
    at: int,
)
    requires
        0 <= at < repositories@.len(),
        repositories@[at].work_directory_abs_path@ == path,
        forall|i: int|
            0 <= i < at ==> (#[trigger] repositories@[i]).work_directory_abs_path@ != path,
    ensures
        (Lookup::ListRepositories { project }).after(
            purpose,
            path,
            LookupEvent::Repositories(repositories),
        ) == (Lookup::AwaitBarrier { project, repository: repositories@[at].id }),
{
    lists::first_where_at(repositories@, is_checked_out_at(path), at);
}

/// The projects that the worktree is put back into are those that were waited for, place by place,
/// and what is put back, where it can be seen, is what git was asked to remove. Git is never told
/// to remove a worktree with changes in it.
pub proof fn what_was_removed_is_put_back(
    root: RootPlan,
    at: usize,
    error: RemovalError,
    repository: RepositoryId,
)
    requires
        at < root.affected_projects@.len(),
    ensures
        ({
            let waiting = Removal::AwaitingRelease(at).next_action(root);
            let removing = Removal::Removing(repository).next_action(root);
            let putting = Removal::PuttingBack(at, error).next_action(root);
            &&& waiting is AwaitRelease && removing is RemoveWorktree && putting is CreateWorktree
            &&& waiting->AwaitRelease_0 == root.affected_projects@[at as int]
            &&& putting->CreateWorktree_project == waiting->AwaitRelease_0.project
            &&& putting->CreateWorktree_path == removing->RemoveWorktree_path
            &&& putting->visible
            &&& removing->RemoveWorktree_path == root.root_path
            &&& removing->RemoveWorktree_repository == repository
            &&& !removing->force
        }),
        Removal::FindingRepository.next_action(root) == (RemovalAction::FindRepository {
            path: root.main_repo_path,
        }),
{
}

/// The search takes no step that the state before it does not ask for: it fails or goes on with
/// the project it has.
pub proof fn search_keeps_its_project(
    lookup: Lookup,
    purpose: LookupPurpose,
    path: Seq<char>,
    event: LookupEvent,
    project: ProjectId,
)
    requires
        lookup.expects(event),
        match lookup {
            Lookup::OpenProject { .. } => event == LookupEvent::ProjectOpened(project),
            Lookup::AddWorktree { project: own } => own == project,
            Lookup::AwaitScan { project: own } => own == project,
            Lookup::ListRepositories { project: own } => own == project,
            Lookup::AwaitBarrier { project: own, .. } => own == project,
            _ => true,
        },
    ensures
        match lookup.after(purpose, path, event) {
            Lookup::OpenProject { .. } => false,
            Lookup::AddWorktree { project: own } => own == project,
            Lookup::AwaitScan { project: own } => own == project,
            Lookup::ListRepositories { project: own } => own == project,
            Lookup::AwaitBarrier { project: own, .. } => own == project,
            Lookup::Found { temporary_project, .. } => temporary_project == Some(project),
            Lookup::Failed(_) => true,
        },
{
}

} // verus!
