//! Making an archived worktree again.
//!
//! The worktree is checked out at the commit that holds all its files. A mixed reset to the
//! commit that holds what was staged, and a soft one to the commit from before, then take the
//! two commits off again without losing anything.

use crate::text;
use crate::worktree_archive::{
    archived_ref, archived_refs_differ, archived_worktree_ref_name, RepositoryId,
};
use crate::worktree_persist::{
    is_run, persist_after, record_names_the_commits, takes_back_everything, world_after, Cleanup,
    CleanupAction, Exchange, Persist, ResetMode, Tree, World,
};
use crate::worktree_removal::{LookupError, Reply};
use vstd::prelude::*;

verus! {

/// The record of an archived worktree.
#[derive(Debug, PartialEq, Eq)]
pub struct ArchivedGitWorktree {
    pub id: i64,
    pub worktree_path: String,
    pub main_repo_path: String,
    pub branch_name: Option<String>,
    pub staged_commit_hash: String,
    pub unstaged_commit_hash: String,
    pub original_commit_hash: String,
}

/// Why a worktree was not restored.
#[derive(Debug, PartialEq, Eq)]
pub enum RestoreError {
    NoRepository(LookupError),
    NoAppState,
    PathUnreadable(String),
    RepairCanceled,
    RepairFailed(String),
    CreationCanceled,
    CreationFailed(String),
    FallbackCanceled { original: String },
    FallbackFailed { original: String, reason: String },
    HeadCanceled,
    HeadUnreadable(String),
    NoHead,
    WrongHead { head: String, original: String },
}

impl RestoreError {
    /// The sentence that describes the error.
    pub open spec fn text(self) -> Seq<char> {
        match self {
            RestoreError::NoRepository(error) => error.text(),
            RestoreError::NoAppState => "no app state available"@,
            RestoreError::PathUnreadable(reason) => reason@,
            RestoreError::RepairCanceled => "worktree repair was canceled"@,
            RestoreError::RepairFailed(_) => "failed to repair worktrees"@,
            RestoreError::CreationCanceled => "worktree creation was canceled"@,
            RestoreError::CreationFailed(_) => "failed to create worktree"@,
            RestoreError::FallbackCanceled { original } => "fallback reset to original commit "@
                + original@ + " was canceled"@,
            RestoreError::FallbackFailed { original, .. } => "fallback reset to original commit "@
                + original@ + " also failed"@,
            RestoreError::HeadCanceled => "post-restore head_sha was canceled"@,
            RestoreError::HeadUnreadable(_) => "failed to read HEAD after restore"@,
            RestoreError::NoHead => "HEAD is None after restore"@,
            RestoreError::WrongHead { head, original } => "After restore, HEAD is at "@ + head@
                + " but expected "@ + original@
                + ". The worktree may be in an inconsistent state."@,
        }
    }

    /// The sentence that describes the error.
    pub fn message(&self) -> (message: String)
        ensures
            message@ == self.text(),
    {
        match self {
            RestoreError::NoRepository(error) => error.message(),
            RestoreError::NoAppState => "no app state available".to_owned(),
            RestoreError::PathUnreadable(reason) => reason.clone(),
            RestoreError::RepairCanceled => "worktree repair was canceled".to_owned(),
            RestoreError::RepairFailed(_) => "failed to repair worktrees".to_owned(),
            RestoreError::CreationCanceled => "worktree creation was canceled".to_owned(),
            RestoreError::CreationFailed(_) => "failed to create worktree".to_owned(),
            RestoreError::FallbackCanceled { original } => {
                let mut message = text::joined(
                    "fallback reset to original commit ",
                    original.as_str(),
                );
                message.append(" was canceled");
                message
            },
            RestoreError::FallbackFailed { original, reason: _ } => {
                let mut message = text::joined(
                    "fallback reset to original commit ",
                    original.as_str(),
                );
                message.append(" also failed");
                message
            },
            RestoreError::HeadCanceled => "post-restore head_sha was canceled".to_owned(),
            RestoreError::HeadUnreadable(_) => "failed to read HEAD after restore".to_owned(),
            RestoreError::NoHead => "HEAD is None after restore".to_owned(),
            RestoreError::WrongHead { head, original } => {
                let mut message = text::joined("After restore, HEAD is at ", head.as_str());
                message.append(" but expected ");
                message.append(original.as_str());
                message.append(". The worktree may be in an inconsistent state.");
                message
            },
        }
    }
}

/// What is at the path of the worktree.
#[derive(Debug, PartialEq, Eq)]
pub enum PathCheck {
    NoAppState,
    Unreadable(String),
    Missing,
    Exists,
}

/// How far the restoration of a worktree has come.
#[derive(Debug, PartialEq, Eq)]
pub enum Restore {
    FindingMainRepository,
    CheckingPath { main: RepositoryId },
    ResolvingWorktree { main: RepositoryId },
    Repairing { main: RepositoryId },
    Creating { main: RepositoryId },
    FindingWorktreeRepository,
    /// Going back to the commit that holds what was staged.
    ResettingToStaged { repository: RepositoryId },
    /// Going back to the commit from before.
    ResettingToOriginal { repository: RepositoryId },
    /// One of the two resets failed: going to the commit from before in one step.
    FallingBack { repository: RepositoryId },
    ReadingHead { repository: RepositoryId },
    SwitchingBranch { repository: RepositoryId },
    ReadingBranchHead { repository: RepositoryId },
    /// The branch is somewhere else by now: leaving it again.
    LeavingBranch { repository: RepositoryId },
    /// Making the branch where the worktree is.
    CreatingBranch { repository: RepositoryId },
    Finished(Result<String, RestoreError>),
}

/// What the outside world reports to a restoration.
#[derive(Debug, PartialEq, Eq)]
pub enum RestoreEvent {
    RepositoryFound(Result<RepositoryId, LookupError>),
    PathChecked(PathCheck),
    /// Whether the directory is a git worktree already.
    WorktreeResolved(bool),
    Repaired(Reply<()>),
    Created(Reply<()>),
    ResetEnded(Reply<()>),
    HeadRead(Reply<Option<String>>),
    BranchSwitched(Reply<()>),
    BranchCreated(Reply<()>),
}

/// Whether the reply says that the given commit is the current one.
pub open spec fn is_head(reply: Reply<Option<String>>, commit: String) -> bool {
    reply matches Reply::Done(Some(head)) && head@ == commit@
}

impl Restore {
    /// Whether the event answers what was asked for.
    pub open spec fn expects(self, event: RestoreEvent) -> bool {
        match self {
            Restore::FindingMainRepository => event is RepositoryFound,
            Restore::CheckingPath { .. } => event is PathChecked,
            Restore::ResolvingWorktree { .. } => event is WorktreeResolved,
            Restore::Repairing { .. } => event is Repaired,
            Restore::Creating { .. } => event is Created,
            Restore::FindingWorktreeRepository => event is RepositoryFound,
            Restore::ResettingToStaged { .. } => event is ResetEnded,
            Restore::ResettingToOriginal { .. } => event is ResetEnded,
            Restore::FallingBack { .. } => event is ResetEnded,
            Restore::ReadingHead { .. } => event is HeadRead,
            Restore::SwitchingBranch { .. } => event is BranchSwitched,
            Restore::ReadingBranchHead { .. } => event is HeadRead,
            Restore::LeavingBranch { .. } => event is ResetEnded,
            Restore::CreatingBranch { .. } => event is BranchCreated,
            Restore::Finished(_) => false,
        }
    }

    /// Whether a branch is only dealt with where there is one.
    pub open spec fn is_valid(self, row: ArchivedGitWorktree) -> bool {
        self is SwitchingBranch || self is ReadingBranchHead || self is LeavingBranch
            || self is CreatingBranch ==> row.branch_name is Some
    }

    /// What follows the event.
    pub open spec fn after(self, row: ArchivedGitWorktree, event: RestoreEvent) -> Restore {
        match (self, event) {
            (Restore::FindingMainRepository, RestoreEvent::RepositoryFound(result)) =>
                match result {
                    Ok(main) => Restore::CheckingPath { main },
                    Err(error) => Restore::Finished(Err(RestoreError::NoRepository(error))),
                },
            (Restore::CheckingPath { main }, RestoreEvent::PathChecked(check)) => match check {
                PathCheck::NoAppState => Restore::Finished(Err(RestoreError::NoAppState)),
                PathCheck::Unreadable(reason) => Restore::Finished(
                    Err(RestoreError::PathUnreadable(reason)),
                ),
                PathCheck::Missing => Restore::Creating { main },
                PathCheck::Exists => Restore::ResolvingWorktree { main },
            },
            (Restore::ResolvingWorktree { main }, RestoreEvent::WorktreeResolved(is_worktree)) =>
                if is_worktree {
                    Restore::Finished(Ok(row.worktree_path))
                } else {
                    Restore::Repairing { main }
                },
            (Restore::Repairing { .. }, RestoreEvent::Repaired(reply)) => match reply {
                Reply::Canceled => Restore::Finished(Err(RestoreError::RepairCanceled)),
                Reply::Failed(reason) => Restore::Finished(Err(RestoreError::RepairFailed(reason))),
                Reply::Done(_) => Restore::FindingWorktreeRepository,
            },
            (Restore::Creating { .. }, RestoreEvent::Created(reply)) => match reply {
                Reply::Canceled => Restore::Finished(Err(RestoreError::CreationCanceled)),
                Reply::Failed(reason) => Restore::Finished(
                    Err(RestoreError::CreationFailed(reason)),
                ),
                Reply::Done(_) => Restore::FindingWorktreeRepository,
            },
            (Restore::FindingWorktreeRepository, RestoreEvent::RepositoryFound(result)) =>
                match result {
                    Ok(repository) => Restore::ResettingToStaged { repository },
                    Err(error) => Restore::Finished(Err(RestoreError::NoRepository(error))),
                },
            (Restore::ResettingToStaged { repository }, RestoreEvent::ResetEnded(reply)) =>
                if reply is Done {
                    Restore::ResettingToOriginal { repository }
                } else {
                    Restore::FallingBack { repository }
                },
            (Restore::ResettingToOriginal { repository }, RestoreEvent::ResetEnded(reply)) =>
                if reply is Done {
                    Restore::ReadingHead { repository }
                } else {
                    Restore::FallingBack { repository }
                },
            (Restore::FallingBack { repository }, RestoreEvent::ResetEnded(reply)) => match reply {
                Reply::Canceled => Restore::Finished(
                    Err((RestoreError::FallbackCanceled { original: row.original_commit_hash })),
                ),
                Reply::Failed(reason) => Restore::Finished(
                    Err(
                        (RestoreError::FallbackFailed {
                            original: row.original_commit_hash,
                            reason,
                        }),
                    ),
                ),
                Reply::Done(_) => Restore::ReadingHead { repository },
            },
            (Restore::ReadingHead { repository }, RestoreEvent::HeadRead(reply)) => match reply {
                Reply::Canceled => Restore::Finished(Err(RestoreError::HeadCanceled)),
                Reply::Failed(reason) => Restore::Finished(
                    Err(RestoreError::HeadUnreadable(reason)),
                ),
                Reply::Done(None) => Restore::Finished(Err(RestoreError::NoHead)),
                Reply::Done(Some(head)) => if head@ != row.original_commit_hash@ {
                    Restore::Finished(
                        Err(
                            (RestoreError::WrongHead {
                                head,
                                original: row.original_commit_hash,
                            }),
                        ),
                    )
                } else if row.branch_name is Some {
                    Restore::SwitchingBranch { repository }
                } else {
                    Restore::Finished(Ok(row.worktree_path))
                },
            },
            (Restore::SwitchingBranch { repository }, RestoreEvent::BranchSwitched(reply)) =>
                if reply is Done {
                    Restore::ReadingBranchHead { repository }
                } else {
                    Restore::CreatingBranch { repository }
                },
            (Restore::ReadingBranchHead { repository }, RestoreEvent::HeadRead(reply)) =>
                if is_head(reply, row.original_commit_hash) {
                    Restore::Finished(Ok(row.worktree_path))
                } else {
                    Restore::LeavingBranch { repository }
                },
            (Restore::LeavingBranch { repository }, RestoreEvent::ResetEnded(_)) =>
                Restore::CreatingBranch { repository },
            (Restore::CreatingBranch { .. }, RestoreEvent::BranchCreated(_)) => Restore::Finished(
                Ok(row.worktree_path),
            ),
            _ => self,
        }
    }

    /// Takes what was reported into account.
    pub fn advance(self, row: &ArchivedGitWorktree, event: RestoreEvent) -> (next: Restore)
        requires
            self.expects(event),
            self.is_valid(*row),
        ensures
            next == self.after(*row, event),
            next.is_valid(*row),
    {
        match (self, event) {
            (Restore::FindingMainRepository, RestoreEvent::RepositoryFound(result)) =>
                match result {
                    Ok(main) => Restore::CheckingPath { main },
                    Err(error) => Restore::Finished(Err(RestoreError::NoRepository(error))),
                },
            (Restore::CheckingPath { main }, RestoreEvent::PathChecked(check)) => match check {
                PathCheck::NoAppState => Restore::Finished(Err(RestoreError::NoAppState)),
                PathCheck::Unreadable(reason) => Restore::Finished(
                    Err(RestoreError::PathUnreadable(reason)),
                ),
                PathCheck::Missing => Restore::Creating { main },
                PathCheck::Exists => Restore::ResolvingWorktree { main },
            },
            (Restore::ResolvingWorktree { main }, RestoreEvent::WorktreeResolved(is_worktree)) =>
                if is_worktree {
                    Restore::Finished(Ok(row.worktree_path.clone()))
                } else {
                    Restore::Repairing { main }
                },
            (Restore::Repairing { .. }, RestoreEvent::Repaired(reply)) => match reply {
                Reply::Canceled => Restore::Finished(Err(RestoreError::RepairCanceled)),
                Reply::Failed(reason) => Restore::Finished(Err(RestoreError::RepairFailed(reason))),
                Reply::Done(_) => Restore::FindingWorktreeRepository,
            },
            (Restore::Creating { .. }, RestoreEvent::Created(reply)) => match reply {
                Reply::Canceled => Restore::Finished(Err(RestoreError::CreationCanceled)),
                Reply::Failed(reason) => Restore::Finished(
                    Err(RestoreError::CreationFailed(reason)),
                ),
                Reply::Done(_) => Restore::FindingWorktreeRepository,
            },
            (Restore::FindingWorktreeRepository, RestoreEvent::RepositoryFound(result)) =>
                match result {
                    Ok(repository) => Restore::ResettingToStaged { repository },
                    Err(error) => Restore::Finished(Err(RestoreError::NoRepository(error))),
                },
            (Restore::ResettingToStaged { repository }, RestoreEvent::ResetEnded(reply)) =>
                match reply {
                    Reply::Done(_) => Restore::ResettingToOriginal { repository },
                    _ => Restore::FallingBack { repository },
                },
            (Restore::ResettingToOriginal { repository }, RestoreEvent::ResetEnded(reply)) =>
                match reply {
                    Reply::Done(_) => Restore::ReadingHead { repository },
                    _ => Restore::FallingBack { repository },
                },
            (Restore::FallingBack { repository }, RestoreEvent::ResetEnded(reply)) => match reply {
                Reply::Canceled => Restore::Finished(
                    Err(
                        RestoreError::FallbackCanceled {
                            original: row.original_commit_hash.clone(),
                        },
                    ),
                ),
                Reply::Failed(reason) => Restore::Finished(
                    Err(
                        RestoreError::FallbackFailed {
                            original: row.original_commit_hash.clone(),
                            reason,
                        },
                    ),
                ),
                Reply::Done(_) => Restore::ReadingHead { repository },
            },
            (Restore::ReadingHead { repository }, RestoreEvent::HeadRead(reply)) => match reply {
                Reply::Canceled => Restore::Finished(Err(RestoreError::HeadCanceled)),
                Reply::Failed(reason) => Restore::Finished(
                    Err(RestoreError::HeadUnreadable(reason)),
                ),
                Reply::Done(None) => Restore::Finished(Err(RestoreError::NoHead)),
                Reply::Done(Some(head)) => if !text::same_text(
                    head.as_str(),
                    row.original_commit_hash.as_str(),
                ) {
                    Restore::Finished(
                        Err(
                            RestoreError::WrongHead {
                                head,
                                original: row.original_commit_hash.clone(),
                            },
                        ),
                    )
                } else if row.branch_name.is_some() {
                    Restore::SwitchingBranch { repository }
                } else {
                    Restore::Finished(Ok(row.worktree_path.clone()))
                },
            },
            (Restore::SwitchingBranch { repository }, RestoreEvent::BranchSwitched(reply)) =>
                match reply {
                    Reply::Done(_) => Restore::ReadingBranchHead { repository },
                    _ => Restore::CreatingBranch { repository },
                },
            (Restore::ReadingBranchHead { repository }, RestoreEvent::HeadRead(reply)) => {
                let unmoved = match &reply {
                    Reply::Done(Some(head)) => text::same_text(
                        head.as_str(),
                        row.original_commit_hash.as_str(),
                    ),
                    _ => false,
                };
                if unmoved {
                    Restore::Finished(Ok(row.worktree_path.clone()))
                } else {
                    Restore::LeavingBranch { repository }
                }
            },
            (Restore::LeavingBranch { repository }, RestoreEvent::ResetEnded(_)) =>
                Restore::CreatingBranch { repository },
            (Restore::CreatingBranch { .. }, RestoreEvent::BranchCreated(_)) => Restore::Finished(
                Ok(row.worktree_path.clone()),
            ),
            (restore, _) => restore,
        }
    }
}

/// Starts the restoration of an archived worktree.
pub fn restore_worktree_via_git() -> (restore: Restore)
    ensures
        restore is FindingMainRepository,
        forall|row: ArchivedGitWorktree| restore.is_valid(row),
{
    Restore::FindingMainRepository
}

/// What has to be done next to restore a worktree.
#[derive(Debug, PartialEq, Eq)]
pub enum RestoreAction {
    FindRepository { path: String },
    CheckPath { path: String },
    ResolveWorktree { path: String },
    RepairWorktrees { repository: RepositoryId },
    CreateWorktreeDetached { repository: RepositoryId, path: String, commit: String },
    Reset { repository: RepositoryId, commit: String, mode: ResetMode },
    ReadHead { repository: RepositoryId },
    ChangeBranch { repository: RepositoryId, branch: String },
    CreateBranch { repository: RepositoryId, branch: String, base: Option<String> },
    Finish,
}

impl Restore {
    /// What has to be done in this state.
    pub open spec fn next_action(self, row: ArchivedGitWorktree) -> RestoreAction {
        match self {
            Restore::FindingMainRepository => RestoreAction::FindRepository {
                path: row.main_repo_path,
            },
            Restore::CheckingPath { .. } => RestoreAction::CheckPath { path: row.worktree_path },
            Restore::ResolvingWorktree { .. } => RestoreAction::ResolveWorktree {
                path: row.worktree_path,
            },
            Restore::Repairing { main } => RestoreAction::RepairWorktrees { repository: main },
            Restore::Creating { main } => RestoreAction::CreateWorktreeDetached {
                repository: main,
                path: row.worktree_path,
                commit: row.unstaged_commit_hash,
            },
            Restore::FindingWorktreeRepository => RestoreAction::FindRepository {
                path: row.worktree_path,
            },
            Restore::ResettingToStaged { repository } => RestoreAction::Reset {
                repository,
                commit: row.staged_commit_hash,
                mode: ResetMode::Mixed,
            },
            Restore::ResettingToOriginal { repository } => RestoreAction::Reset {
                repository,
                commit: row.original_commit_hash,
                mode: ResetMode::Soft,
            },
            Restore::FallingBack { repository } => RestoreAction::Reset {
                repository,
                commit: row.original_commit_hash,
                mode: ResetMode::Mixed,
            },
            Restore::ReadingHead { repository } => RestoreAction::ReadHead { repository },
            Restore::SwitchingBranch { repository } => RestoreAction::ChangeBranch {
                repository,
                branch: row.branch_name->0,
            },
            Restore::ReadingBranchHead { repository } => RestoreAction::ReadHead { repository },
            Restore::LeavingBranch { repository } => RestoreAction::Reset {
                repository,
                commit: row.original_commit_hash,
                mode: ResetMode::Mixed,
            },
            Restore::CreatingBranch { repository } => RestoreAction::CreateBranch {
                repository,
                branch: row.branch_name->0,
                base: None,
            },
            Restore::Finished(_) => RestoreAction::Finish,
        }
    }

    /// What has to be done next.
    pub fn action(&self, row: &ArchivedGitWorktree) -> (action: RestoreAction)
        requires
            self.is_valid(*row),
        ensures
            action == self.next_action(*row),
    {
        match self {
            Restore::FindingMainRepository => RestoreAction::FindRepository {
                path: row.main_repo_path.clone(),
            },
            Restore::CheckingPath { .. } => RestoreAction::CheckPath {
                path: row.worktree_path.clone(),
            },
            Restore::ResolvingWorktree { .. } => RestoreAction::ResolveWorktree {
                path: row.worktree_path.clone(),
            },
            Restore::Repairing { main } => RestoreAction::RepairWorktrees { repository: *main },
            Restore::Creating { main } => RestoreAction::CreateWorktreeDetached {
                repository: *main,
                path: row.worktree_path.clone(),
                commit: row.unstaged_commit_hash.clone(),
            },
            Restore::FindingWorktreeRepository => RestoreAction::FindRepository {
                path: row.worktree_path.clone(),
            },
            Restore::ResettingToStaged { repository } => RestoreAction::Reset {
                repository: *repository,
                commit: row.staged_commit_hash.clone(),
                mode: ResetMode::Mixed,
            },
            Restore::ResettingToOriginal { repository } => RestoreAction::Reset {
                repository: *repository,
                commit: row.original_commit_hash.clone(),
                mode: ResetMode::Soft,
            },
            Restore::FallingBack { repository } => RestoreAction::Reset {
                repository: *repository,
                commit: row.original_commit_hash.clone(),
                mode: ResetMode::Mixed,
            },
            Restore::ReadingHead { repository } => RestoreAction::ReadHead {
                repository: *repository,
            },
            Restore::SwitchingBranch { repository } => match &row.branch_name {
                Some(branch) => RestoreAction::ChangeBranch {
                    repository: *repository,
                    branch: branch.clone(),
                },
                None => RestoreAction::Finish,
            },
            Restore::ReadingBranchHead { repository } => RestoreAction::ReadHead {
                repository: *repository,
            },
            Restore::LeavingBranch { repository } => RestoreAction::Reset {
                repository: *repository,
                commit: row.original_commit_hash.clone(),
                mode: ResetMode::Mixed,
            },
            Restore::CreatingBranch { repository } => match &row.branch_name {
                Some(branch) => RestoreAction::CreateBranch {
                    repository: *repository,
                    branch: branch.clone(),
                    base: None,
                },
                None => RestoreAction::Finish,
            },
            Restore::Finished(_) => RestoreAction::Finish,
        }
    }
}

impl ArchivedGitWorktree {
    /// Whether the action is what has to be done in the given state to wipe out the traces of the
    /// worktree.
    pub open spec fn is_forgotten_by(self, cleanup: Cleanup, action: CleanupAction) -> bool {
        match cleanup {
            Cleanup::FindingRepository => action == (CleanupAction::FindRepository {
                path: self.main_repo_path,
            }),
            Cleanup::DeletingRef(repository) => {
                &&& action matches CleanupAction::DeleteRef { repository: asked, name }
                &&& asked == repository
                &&& name@ == archived_ref(self.id as int)
            },
            Cleanup::DeletingRecord => action == (CleanupAction::DeleteRecord { record: self.id }),
            _ => action is Finish,
        }
    }
}

/// Starts wiping out the traces of an archived worktree that is no longer needed.
pub fn cleanup_archived_worktree_record() -> (cleanup: Cleanup)
    ensures
        cleanup is FindingRepository,
{
    Cleanup::FindingRepository
}

/// What has to be done next to wipe out the traces of an archived worktree. Its commits are
/// nowhere checked out, so none is taken back.
pub fn cleanup_action(cleanup: &Cleanup, row: &ArchivedGitWorktree) -> (action: CleanupAction)
    requires
        !(cleanup is Resetting),
    ensures
        row.is_forgotten_by(*cleanup, action),
{
    match cleanup {
        Cleanup::FindingRepository => CleanupAction::FindRepository {
            path: row.main_repo_path.clone(),
        },
        Cleanup::DeletingRef(repository) => CleanupAction::DeleteRef {
            repository: *repository,
            name: archived_worktree_ref_name(row.id),
        },
        Cleanup::DeletingRecord => CleanupAction::DeleteRecord { record: row.id },
        _ => CleanupAction::Finish,
    }
}

/// A worktree as git sees it: the trees of all commits, the current commit, what is staged and
/// what is in the directory.
pub struct Checkout {
    pub trees: Map<Seq<char>, Tree>,
    pub head: Seq<char>,
    pub index: Tree,
    pub files: Tree,
}

impl Checkout {
    /// After a reset to the given commit.
    pub open spec fn reset(self, commit: Seq<char>, mode: ResetMode) -> Checkout {
        match mode {
            ResetMode::Mixed => Checkout { head: commit, index: self.trees[commit], ..self },
            ResetMode::Soft => Checkout { head: commit, ..self },
        }
    }

    /// Whether the worktree may have become `later` while git answered with the event. A new
    /// worktree holds the tree of its commit. Switching to a branch at the current commit
    /// changes nothing; making a branch never does.
    pub open spec fn answers(
        self,
        restore: Restore,
        row: ArchivedGitWorktree,
        event: RestoreEvent,
        later: Checkout,
    ) -> bool {
        match event {
            RestoreEvent::Created(Reply::Done(_)) => later == (Checkout {
                trees: self.trees,
                head: row.unstaged_commit_hash@,
                index: self.trees[row.unstaged_commit_hash@],
                files: self.trees[row.unstaged_commit_hash@],
            }),
            RestoreEvent::Repaired(_) => later.trees == self.trees,
            RestoreEvent::ResetEnded(Reply::Done(_)) =>
                restore.next_action(row) matches RestoreAction::Reset { commit, mode, .. } ==> later
                    == self.reset(commit@, mode),
            RestoreEvent::HeadRead(reply) => {
                &&& later == self
                &&& reply matches Reply::Done(Some(head)) ==> head@ == self.head
            },
            RestoreEvent::BranchSwitched(Reply::Done(_)) => {
                &&& later.trees == self.trees
                &&& later.head == self.head ==> later == self
            },
            _ => later == self,
        }
    }
}

/// One answer, and the worktree after it.
pub struct RestoreExchange {
    pub event: RestoreEvent,
    pub checkout: Checkout,
}

/// What follows all the answers.
pub open spec fn restore_after(row: ArchivedGitWorktree, exchanges: Seq<RestoreExchange>) -> Restore
    decreases exchanges.len(),
{
    if exchanges.len() == 0 {
        Restore::FindingMainRepository
    } else {
        restore_after(row, exchanges.drop_last()).after(row, exchanges.last().event)
    }
}

/// The worktree after all the answers.
pub open spec fn checkout_after(checkout: Checkout, exchanges: Seq<RestoreExchange>) -> Checkout {
    if exchanges.len() == 0 {
        checkout
    } else {
        exchanges.last().checkout
    }
}

/// Whether git answered what it was asked, step by step.
pub open spec fn is_restore_run(
    row: ArchivedGitWorktree,
    checkout: Checkout,
    exchanges: Seq<RestoreExchange>,
) -> bool
    decreases exchanges.len(),
{
    exchanges.len() > 0 ==> {
        let before = exchanges.drop_last();
        &&& is_restore_run(row, checkout, before)
        &&& restore_after(row, before).expects(exchanges.last().event)
        &&& checkout_after(checkout, before).answers(
            restore_after(row, before),
            row,
            exchanges.last().event,
            exchanges.last().checkout,
        )
    }
}

/// Whether the worktree had to be made anew, rather than adopted from a directory that was
/// already there.
pub open spec fn starts_anew(exchanges: Seq<RestoreExchange>) -> bool {
    forall|i: int|
        0 <= i < exchanges.len() ==> !((#[trigger] exchanges[i]).event is WorktreeResolved)
}

/// Whether git did every reset.
pub open spec fn resets_succeed(exchanges: Seq<RestoreExchange>) -> bool {
    forall|i: int|
        0 <= i < exchanges.len() ==> ((#[trigger] exchanges[i]).event matches RestoreEvent::ResetEnded(
            reply,
        ) ==> reply is Done)
}

/// Whether git did every reset that was to leave a branch again.
pub open spec fn branches_are_left(row: ArchivedGitWorktree, exchanges: Seq<RestoreExchange>) -> bool {
    forall|i: int|
        0 <= i < exchanges.len() && restore_after(row, exchanges.take(i)) is LeavingBranch ==> ((
        #[trigger] exchanges[i]).event matches RestoreEvent::ResetEnded(reply) ==> reply is Done)
}

/// Whether the branch was never found to be anywhere but at the original commit.
pub open spec fn branch_is_unmoved(row: ArchivedGitWorktree, exchanges: Seq<RestoreExchange>) -> bool {
    forall|i: int|
        0 <= i < exchanges.len() ==> ((#[trigger] exchanges[i]).event matches RestoreEvent::HeadRead(
            reply,
        ) ==> is_head(reply, row.original_commit_hash))
}

impl Restore {
    spec fn shows_head(self, row: ArchivedGitWorktree, now: Checkout) -> bool {
        match self {
            Restore::SwitchingBranch { .. } => now.head == row.original_commit_hash@,
            Restore::CreatingBranch { .. } => now.head == row.original_commit_hash@,
            Restore::Finished(Ok(_)) => now.head == row.original_commit_hash@,
            _ => true,
        }
    }

    spec fn shows_everything(
        self,
        row: ArchivedGitWorktree,
        trees: Map<Seq<char>, Tree>,
        now: Checkout,
    ) -> bool {
        let same = |head: String, index: String|
            {
                &&& now.head == head@
                &&& now.index == trees[index@]
                &&& now.files == trees[row.unstaged_commit_hash@]
            };
        let whole = same(row.original_commit_hash, row.staged_commit_hash);
        now.trees == trees && match self {
            Restore::ResolvingWorktree { .. } => true,
            Restore::Repairing { .. } => false,
            Restore::FindingWorktreeRepository => same(
                row.unstaged_commit_hash,
                row.unstaged_commit_hash,
            ),
            Restore::ResettingToStaged { .. } => same(
                row.unstaged_commit_hash,
                row.unstaged_commit_hash,
            ),
            Restore::ResettingToOriginal { .. } => same(
                row.staged_commit_hash,
                row.staged_commit_hash,
            ),
            Restore::FallingBack { .. } => false,
            Restore::ReadingHead { .. } => whole,
            Restore::SwitchingBranch { .. } => whole,
            Restore::ReadingBranchHead { .. } => now.head == row.original_commit_hash@ ==> whole,
            Restore::LeavingBranch { .. } => false,
            Restore::CreatingBranch { .. } => whole,
            Restore::Finished(Ok(_)) => whole,
            _ => true,
        }
    }
}

proof fn run_shows_head(
    row: ArchivedGitWorktree,
    checkout: Checkout,
    exchanges: Seq<RestoreExchange>,
)
    requires
        is_restore_run(row, checkout, exchanges),
        branches_are_left(row, exchanges),
        forall|i: int|
            0 <= i < exchanges.len() ==> ((
            #[trigger] exchanges[i]).event matches RestoreEvent::WorktreeResolved(is_worktree)
                ==> !is_worktree),
    ensures
        restore_after(row, exchanges).is_valid(row),
        restore_after(row, exchanges).shows_head(row, checkout_after(checkout, exchanges)),
    decreases exchanges.len(),
{
    if exchanges.len() > 0 {
        let before = exchanges.drop_last();
        let last = exchanges.len() - 1;
        assert forall|i: int|
            0 <= i < before.len() && restore_after(row, before.take(i)) is LeavingBranch implies ((
        #[trigger] before[i]).event matches RestoreEvent::ResetEnded(reply) ==> reply is Done) by {
            assert(before[i] == exchanges[i]);
            assert(before.take(i) =~= exchanges.take(i));
        }
        assert forall|i: int| 0 <= i < before.len() implies ((
        #[trigger] before[i]).event matches RestoreEvent::WorktreeResolved(is_worktree)
            ==> !is_worktree) by {
            assert(before[i] == exchanges[i]);
        }
        run_shows_head(row, checkout, before);
        assert(exchanges.take(last) =~= before);
        assert(exchanges.last() == exchanges[last]);
    }
}

proof fn run_shows_everything(
    row: ArchivedGitWorktree,
    checkout: Checkout,
    exchanges: Seq<RestoreExchange>,
)
    requires
        is_restore_run(row, checkout, exchanges),
        resets_succeed(exchanges),
        starts_anew(exchanges),
        branch_is_unmoved(row, exchanges),
    ensures
        restore_after(row, exchanges).shows_everything(
            row,
            checkout.trees,
            checkout_after(checkout, exchanges),
        ),
    decreases exchanges.len(),
{
    if exchanges.len() > 0 {
        let before = exchanges.drop_last();
        assert forall|i: int| 0 <= i < before.len() implies ((
        #[trigger] before[i]).event matches RestoreEvent::ResetEnded(reply) ==> reply is Done)
            && !(before[i].event is WorktreeResolved) && (
        before[i].event matches RestoreEvent::HeadRead(reply) ==> is_head(
            reply,
            row.original_commit_hash,
        )) by {
            assert(before[i] == exchanges[i]);
        }
        run_shows_everything(row, checkout, before);
        assert(exchanges.last() == exchanges[exchanges.len() - 1]);
    }
}

/// Where a worktree is restored, rather than found to be there already, its current commit is
/// the one from before it was archived, whichever resets failed on the way. Only where its branch
/// turned out to be somewhere else by now, git has to do the reset that leaves the branch again.
pub proof fn restored_worktree_is_at_original_commit(
    row: ArchivedGitWorktree,
    checkout: Checkout,
    exchanges: Seq<RestoreExchange>,
)
    requires
        is_restore_run(row, checkout, exchanges),
        branches_are_left(row, exchanges),
        forall|i: int|
            0 <= i < exchanges.len() ==> ((
            #[trigger] exchanges[i]).event matches RestoreEvent::WorktreeResolved(is_worktree)
                ==> !is_worktree),
        restore_after(row, exchanges) matches Restore::Finished(Ok(_)),
    ensures
        checkout_after(checkout, exchanges).head == row.original_commit_hash@,
{
    run_shows_head(row, checkout, exchanges);
}

/// Archiving a worktree and restoring it gives it back as it was: the same current commit, the
/// same files, and the same of them staged. This is for a worktree whose directory is gone and
/// whose branch is where it was left, with a git that does the resets it is asked for.
pub proof fn restore_gives_back_what_was_archived(
    world: World,
    archiving: Seq<Exchange>,
    row: ArchivedGitWorktree,
    checkout: Checkout,
    restoring: Seq<RestoreExchange>,
)
    requires
        is_run(world, archiving),
        takes_back_everything(archiving),
        persist_after(archiving) == (Persist::CreatingRecord {
            original: row.original_commit_hash,
            staged: row.staged_commit_hash,
            unstaged: row.unstaged_commit_hash,
        }),
        world_after(world, archiving).trees.submap_of(checkout.trees),
        is_restore_run(row, checkout, restoring),
        resets_succeed(restoring),
        starts_anew(restoring),
        branch_is_unmoved(row, restoring),
        restore_after(row, restoring) matches Restore::Finished(Ok(_)),
    ensures
        ({
            let now = checkout_after(checkout, restoring);
            &&& world.commits.len() > 0
            &&& now.head == world.commits.last()
            &&& now.index == world.index
            &&& now.files == world.files
        }),
{
    record_names_the_commits(world, archiving);
    run_shows_everything(row, checkout, restoring);
    let trees = world_after(world, archiving).trees;
    assert(trees.dom().contains(row.staged_commit_hash@));
    assert(trees.dom().contains(row.unstaged_commit_hash@));
    assert(checkout.trees.dom().contains(row.staged_commit_hash@));
    assert(checkout.trees.dom().contains(row.unstaged_commit_hash@));
}

impl RestoreEvent {
    /// Whether the error is the one that this answer stands for.
    pub open spec fn explains(self, row: ArchivedGitWorktree, error: RestoreError) -> bool {
        match error {
            RestoreError::NoRepository(reason) => self == RestoreEvent::RepositoryFound(
                Err(reason),
            ),
            RestoreError::NoAppState => self == RestoreEvent::PathChecked(PathCheck::NoAppState),
            RestoreError::PathUnreadable(reason) => self == RestoreEvent::PathChecked(
                PathCheck::Unreadable(reason),
            ),
            RestoreError::RepairCanceled => self == RestoreEvent::Repaired(Reply::Canceled),
            RestoreError::RepairFailed(reason) => self == RestoreEvent::Repaired(
                Reply::Failed(reason),
            ),
            RestoreError::CreationCanceled => self == RestoreEvent::Created(Reply::Canceled),
            RestoreError::CreationFailed(reason) => self == RestoreEvent::Created(
                Reply::Failed(reason),
            ),
            RestoreError::FallbackCanceled { original } => self == RestoreEvent::ResetEnded(
                Reply::Canceled,
            ) && original == row.original_commit_hash,
            RestoreError::FallbackFailed { original, reason } => self == RestoreEvent::ResetEnded(
                Reply::Failed(reason),
            ) && original == row.original_commit_hash,
            RestoreError::HeadCanceled => self == RestoreEvent::HeadRead(Reply::Canceled),
            RestoreError::HeadUnreadable(reason) => self == RestoreEvent::HeadRead(
                Reply::Failed(reason),
            ),
            RestoreError::NoHead => self == RestoreEvent::HeadRead(Reply::Done(None)),
            RestoreError::WrongHead { head, original } => self == RestoreEvent::HeadRead(
                Reply::Done(Some(head)),
            ) && head@ != row.original_commit_hash@ && original == row.original_commit_hash,
        }
    }
}

/// A restoration fails exactly where a repository or the path is not to be had, the worktree can
/// be neither made nor repaired, no reset at all leads to the original commit, or the commit that
/// is current in the end is another. The error says which, and why.
pub proof fn restore_fails_for_a_reason(
    restore: Restore,
    row: ArchivedGitWorktree,
    event: RestoreEvent,
)
    requires
        restore.expects(event),
    ensures
        restore.after(row, event) matches Restore::Finished(Err(error)) ==> event.explains(
            row,
            error,
        ),
        (restore.after(row, event) matches Restore::Finished(Err(_))) == (match event {
            RestoreEvent::RepositoryFound(found) => found is Err,
            RestoreEvent::PathChecked(check) => check is NoAppState || check is Unreadable,
            RestoreEvent::Repaired(reply) => !(reply is Done),
            RestoreEvent::Created(reply) => !(reply is Done),
            RestoreEvent::ResetEnded(reply) => restore is FallingBack && !(reply is Done),
            RestoreEvent::HeadRead(reply) => restore is ReadingHead && !is_head(
                reply,
                row.original_commit_hash,
            ),
            _ => false,
        }),
{
}

/// A restoration ends well only with the path of the worktree, and only where it was there
/// already, has no branch to go to, is on its branch at the original commit, or had the branch
/// made for it.
pub proof fn restore_ends_at_the_worktree(
    restore: Restore,
    row: ArchivedGitWorktree,
    event: RestoreEvent,
)
    requires
        restore.expects(event),
    ensures
        restore.after(row, event) matches Restore::Finished(Ok(path)) ==> path
            == row.worktree_path && match event {
            RestoreEvent::WorktreeResolved(is_worktree) => is_worktree,
            RestoreEvent::HeadRead(reply) => is_head(reply, row.original_commit_hash) && (
            row.branch_name is None || restore is ReadingBranchHead),
            RestoreEvent::BranchCreated(_) => true,
            _ => false,
        },
{
}

/// A worktree that had a branch and is restored, rather than found to be there already, is on
/// that branch: either git switched to it and it is at the original commit, or git was asked to
/// make it at the current commit.
pub proof fn restored_worktree_gets_its_branch(
    row: ArchivedGitWorktree,
    checkout: Checkout,
    exchanges: Seq<RestoreExchange>,
)
    requires
        is_restore_run(row, checkout, exchanges),
        row.branch_name is Some,
        restore_after(row, exchanges) matches Restore::Finished(Ok(_)),
    ensures
        exchanges.len() > 0,
        match exchanges.last().event {
            RestoreEvent::WorktreeResolved(is_worktree) => is_worktree,
            RestoreEvent::HeadRead(reply) => {
                let before = exchanges.drop_last();
                &&& is_head(reply, row.original_commit_hash)
                &&& before.len() > 0
                &&& before.last().event matches RestoreEvent::BranchSwitched(switched) && switched
                    is Done
                &&& restore_after(row, before.drop_last()).next_action(
                    row,
                ) matches RestoreAction::ChangeBranch { branch, .. } && Some(branch)
                    == row.branch_name
            },
            RestoreEvent::BranchCreated(_) => restore_after(row, exchanges.drop_last()).next_action(
                row,
            ) matches RestoreAction::CreateBranch { branch, base, .. } && Some(branch)
                == row.branch_name && base is None,
            _ => false,
        },
{
    let before = exchanges.drop_last();
    restore_ends_at_the_worktree(restore_after(row, before), row, exchanges.last().event);
    if restore_after(row, before) is ReadingBranchHead {
        assert(before.len() > 0);
        assert(is_restore_run(row, checkout, before));
    }
}

/// A reset that git refuses leads to one straight to the original commit, unless it was that one
/// already. After the reset to what was staged comes the one that keeps it staged; after any other
/// the current commit is read, or the branch made that is somewhere else.
pub proof fn resets_come_one_after_the_other(
    restore: Restore,
    row: ArchivedGitWorktree,
    reply: Reply<()>,
)
    requires
        restore.expects(RestoreEvent::ResetEnded(reply)),
    ensures
        restore.next_action(row) matches RestoreAction::Reset { repository, commit, mode } && {
            let next = restore.after(row, RestoreEvent::ResetEnded(reply)).next_action(row);
            match restore {
                Restore::ResettingToStaged { .. } => {
                    &&& commit == row.staged_commit_hash && mode is Mixed
                    &&& reply is Done ==> next == (RestoreAction::Reset {
                        repository,
                        commit: row.original_commit_hash,
                        mode: ResetMode::Soft,
                    })
                    &&& !(reply is Done) ==> next == (RestoreAction::Reset {
                        repository,
                        commit: row.original_commit_hash,
                        mode: ResetMode::Mixed,
                    })
                },
                Restore::ResettingToOriginal { .. } => {
                    &&& commit == row.original_commit_hash && mode is Soft
                    &&& reply is Done ==> next == (RestoreAction::ReadHead { repository })
                    &&& !(reply is Done) ==> next == (RestoreAction::Reset {
                        repository,
                        commit: row.original_commit_hash,
                        mode: ResetMode::Mixed,
                    })
                },
                Restore::FallingBack { .. } => {
                    &&& commit == row.original_commit_hash && mode is Mixed
                    &&& reply is Done ==> next == (RestoreAction::ReadHead { repository })
                },
                _ => {
                    &&& commit == row.original_commit_hash && mode is Mixed
                    &&& next matches RestoreAction::CreateBranch { .. }
                },
            }
        },
{
}

/// A branch that git cannot switch to is made; one that it switched to is asked for its commit,
/// and left again where that is not the original one.
pub proof fn moved_branches_are_left(
    restore: Restore,
    row: ArchivedGitWorktree,
    event: RestoreEvent,
)
    requires
        restore.expects(event),
        restore is SwitchingBranch || restore is ReadingBranchHead,
    ensures
        ({
            let next = restore.after(row, event).next_action(row);
            match event {
                RestoreEvent::BranchSwitched(reply) => if reply is Done {
                    next is ReadHead
                } else {
                    next is CreateBranch
                },
                RestoreEvent::HeadRead(reply) => is_head(reply, row.original_commit_hash) || (
                next matches RestoreAction::Reset { commit, .. } && commit
                    == row.original_commit_hash),
                _ => false,
            }
        }),
{
}

/// A directory that is missing is made, at the commit that holds all the files. One that is there
/// is left as it is where it is a worktree, and repaired otherwise. Either way its own repository
/// is looked for next, and reset.
pub proof fn worktree_is_made_or_repaired(
    restore: Restore,
    row: ArchivedGitWorktree,
    event: RestoreEvent,
)
    requires
        restore.expects(event),
        !(restore.after(row, event) is Finished),
    ensures
        Restore::FindingMainRepository.next_action(row) == (RestoreAction::FindRepository {
            path: row.main_repo_path,
        }),
        ({
            let next = restore.after(row, event).next_action(row);
            match event {
                RestoreEvent::RepositoryFound(Ok(repository)) => if restore
                    is FindingMainRepository {
                    next == (RestoreAction::CheckPath { path: row.worktree_path })
                } else {
                    next == (RestoreAction::Reset {
                        repository,
                        commit: row.staged_commit_hash,
                        mode: ResetMode::Mixed,
                    })
                },
                RestoreEvent::PathChecked(check) => if check is Missing {
                    next matches RestoreAction::CreateWorktreeDetached { path, commit, .. } && path
                        == row.worktree_path && commit == row.unstaged_commit_hash
                } else {
                    next == (RestoreAction::ResolveWorktree { path: row.worktree_path })
                },
                RestoreEvent::WorktreeResolved(is_worktree) => !is_worktree && next
                    is RepairWorktrees,
                RestoreEvent::Repaired(_) | RestoreEvent::Created(_) => next == (
                RestoreAction::FindRepository { path: row.worktree_path }),
                _ => true,
            }
        }),
{
}

/// The repository that was found last.
pub open spec fn last_found(exchanges: Seq<RestoreExchange>) -> Option<RepositoryId>
    decreases exchanges.len(),
{
    if exchanges.len() == 0 {
        None
    } else {
        match exchanges.last().event {
            RestoreEvent::RepositoryFound(Ok(repository)) => Some(repository),
            _ => last_found(exchanges.drop_last()),
        }
    }
}

/// Git is always asked through the repository that was found last: the main one until the
/// worktree is there, and the worktree's own from then on.
pub proof fn git_is_asked_through_the_found_repository(
    row: ArchivedGitWorktree,
    checkout: Checkout,
    exchanges: Seq<RestoreExchange>,
)
    requires
        is_restore_run(row, checkout, exchanges),
    ensures
        match restore_after(row, exchanges).next_action(row) {
            RestoreAction::RepairWorktrees { repository } => last_found(exchanges) == Some(
                repository,
            ),
            RestoreAction::CreateWorktreeDetached { repository, .. } => last_found(exchanges)
                == Some(repository),
            RestoreAction::Reset { repository, .. } => last_found(exchanges) == Some(repository),
            RestoreAction::ReadHead { repository } => last_found(exchanges) == Some(repository),
            RestoreAction::ChangeBranch { repository, .. } => last_found(exchanges) == Some(
                repository,
            ),
            RestoreAction::CreateBranch { repository, .. } => last_found(exchanges) == Some(
                repository,
            ),
            _ => true,
        },
        match restore_after(row, exchanges) {
            Restore::CheckingPath { main } => last_found(exchanges) == Some(main),
            Restore::ResolvingWorktree { main } => last_found(exchanges) == Some(main),
            _ => true,
        },
    decreases exchanges.len(),
{
    if exchanges.len() > 0 {
        git_is_asked_through_the_found_repository(row, checkout, exchanges.drop_last());
    }
}

/// Wiping out the traces of an archived worktree takes away its own record and its own reference
/// and nothing else: the branch, the files, what is staged, and the records and references of
/// other worktrees stay.
pub proof fn only_own_traces_are_wiped_out(
    row: ArchivedGitWorktree,
    found: RepositoryId,
    deleting_ref: CleanupAction,
    deleting_record: CleanupAction,
    before: World,
    between: World,
    after: World,
    other: i64,
)
    requires
        row.is_forgotten_by(Cleanup::DeletingRef(found), deleting_ref),
        row.is_forgotten_by(Cleanup::DeletingRecord, deleting_record),
        before.wipes(deleting_ref, between),
        between.wipes(deleting_record, after),
    ensures
        !after.records.contains(row.id),
        !after.refs.contains_key(archived_ref(row.id as int)),
        other != row.id ==> after.records.contains(other) == before.records.contains(other),
        other != row.id ==> after.refs.contains_key(archived_ref(other as int))
            == before.refs.contains_key(archived_ref(other as int)),
        after.commits == before.commits,
        after.files == before.files,
        after.index == before.index,
        deleting_ref matches CleanupAction::DeleteRef { repository, .. } && repository == found,
{
    if other != row.id {
        archived_refs_differ(other as int, row.id as int);
    }
}

} // verus!
