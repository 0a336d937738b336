//! Keeping the state of a worktree in two commits before it is removed.
//!
//! What is staged goes into a first commit and everything else into a second. Both are
//! recorded, so that the worktree can be made again as it was. Whatever fails on the way, the
//! commits made so far are taken back.

use crate::text;
use crate::worktree_archive::{archived_ref, archived_worktree_ref_name, RepositoryId, RootPlan};
use crate::worktree_removal::{LookupError, Reply};
use vstd::prelude::*;

verus! {

/// One of the two commits.
#[derive(Clone, Copy, Debug, PartialEq, Eq, Structural)]
pub enum WipCommit {
    Staged,
    Unstaged,
}

impl WipCommit {
    /// The commit's message.
    pub open spec fn text(self) -> Seq<char> {
        match self {
            WipCommit::Staged => "WIP staged"@,
            WipCommit::Unstaged => "WIP unstaged"@,
        }
    }

    /// The commit's message.
    pub fn message(&self) -> (message: String)
        ensures
            message@ == self.text(),
    {
        match self {
            WipCommit::Staged => "WIP staged".to_owned(),
            WipCommit::Unstaged => "WIP unstaged".to_owned(),
        }
    }
}

/// One of the three times that the current commit is read.
#[derive(Clone, Copy, Debug, PartialEq, Eq, Structural)]
pub enum HeadRead {
    /// Before the first commit.
    Original,
    /// After the first commit.
    Staged,
    /// After both commits.
    Unstaged,
}

/// Why a worktree's state was not kept.
#[derive(Debug, PartialEq, Eq)]
pub enum PersistError {
    NoWorktreeRepository,
    HeadCanceled,
    HeadUnreadable(HeadRead, String),
    NoHead(HeadRead),
    CommitCanceled(WipCommit),
    CommitFailed(String),
    StagingCanceled,
    StagingFailed(String),
    RecordNotCreated(String),
    ThreadNotLinked(String),
}

impl PersistError {
    /// The sentence that describes the error.
    pub open spec fn text(self) -> Seq<char> {
        match self {
            PersistError::NoWorktreeRepository => "no worktree repo entity for persistence"@,
            PersistError::HeadCanceled => "head_sha canceled"@,
            PersistError::HeadUnreadable(HeadRead::Original, _) =>
                "failed to read original HEAD SHA"@,
            PersistError::HeadUnreadable(HeadRead::Staged, _) =>
                "failed to read HEAD SHA after staged commit"@,
            PersistError::HeadUnreadable(HeadRead::Unstaged, _) =>
                "failed to read HEAD SHA after WIP commits"@,
            PersistError::NoHead(HeadRead::Original) => "HEAD SHA is None before WIP commits"@,
            PersistError::NoHead(HeadRead::Staged) => "HEAD SHA is None after staged commit"@,
            PersistError::NoHead(HeadRead::Unstaged) => "HEAD SHA is None after WIP commits"@,
            PersistError::CommitCanceled(WipCommit::Staged) => "WIP staged commit canceled"@,
            PersistError::CommitCanceled(WipCommit::Unstaged) => "WIP unstaged commit canceled"@,
            PersistError::CommitFailed(reason) => reason@,
            PersistError::StagingCanceled => "failed to stage all files including untracked"@,
            PersistError::StagingFailed(_) => "failed to stage all files including untracked"@,
            PersistError::RecordNotCreated(_) => "failed to create archived worktree DB record"@,
            PersistError::ThreadNotLinked(_) => "failed to link thread to archived worktree"@,
        }
    }

    /// The sentence that describes the error.
    pub fn message(&self) -> (message: String)
        ensures
            message@ == self.text(),
    {
        match self {
            PersistError::NoWorktreeRepository =>
                "no worktree repo entity for persistence".to_owned(),
            PersistError::HeadCanceled => "head_sha canceled".to_owned(),
            PersistError::HeadUnreadable(HeadRead::Original, _) =>
                "failed to read original HEAD SHA".to_owned(),
            PersistError::HeadUnreadable(HeadRead::Staged, _) =>
                "failed to read HEAD SHA after staged commit".to_owned(),
            PersistError::HeadUnreadable(HeadRead::Unstaged, _) =>
                "failed to read HEAD SHA after WIP commits".to_owned(),
            PersistError::NoHead(HeadRead::Original) =>
                "HEAD SHA is None before WIP commits".to_owned(),
            PersistError::NoHead(HeadRead::Staged) =>
                "HEAD SHA is None after staged commit".to_owned(),
            PersistError::NoHead(HeadRead::Unstaged) =>
                "HEAD SHA is None after WIP commits".to_owned(),
            PersistError::CommitCanceled(WipCommit::Staged) =>
                "WIP staged commit canceled".to_owned(),
            PersistError::CommitCanceled(WipCommit::Unstaged) =>
                "WIP unstaged commit canceled".to_owned(),
            PersistError::CommitFailed(reason) => reason.clone(),
            PersistError::StagingCanceled =>
                "failed to stage all files including untracked".to_owned(),
            PersistError::StagingFailed(_) =>
                "failed to stage all files including untracked".to_owned(),
            PersistError::RecordNotCreated(_) =>
                "failed to create archived worktree DB record".to_owned(),
            PersistError::ThreadNotLinked(_) =>
                "failed to link thread to archived worktree".to_owned(),
        }
    }
}

/// The record of a worktree whose state was kept.
#[derive(Debug, PartialEq, Eq)]
pub struct PersistOutcome {
    pub archived_worktree_id: i64,
    pub staged_commit_hash: String,
}

/// The commit that a reset goes to.
#[derive(Debug, PartialEq, Eq)]
pub enum ResetTarget {
    /// The parent of the current commit.
    HeadParent,
    /// The parent of the given commit.
    ParentOf(String),
}

impl ResetTarget {
    /// The target as git reads it.
    pub open spec fn revision(self) -> Seq<char> {
        match self {
            ResetTarget::HeadParent => "HEAD~1"@,
            ResetTarget::ParentOf(commit) => commit@ + "~1"@,
        }
    }

    /// The target as git reads it.
    pub fn to_revision(&self) -> (revision: String)
        ensures
            revision@ == self.revision(),
    {
        match self {
            ResetTarget::HeadParent => "HEAD~1".to_owned(),
            ResetTarget::ParentOf(commit) => text::joined(commit.as_str(), "~1"),
        }
    }
}

/// How far keeping a worktree's state has come.
#[derive(Debug, PartialEq, Eq)]
pub enum Persist {
    ReadingOriginalHead,
    CommittingStaged { original: String },
    ReadingStagedHead { original: String },
    StagingAll { original: String, staged: String },
    CommittingUnstaged { original: String, staged: String },
    ReadingUnstagedHead { original: String, staged: String },
    CreatingRecord { original: String, staged: String, unstaged: String },
    ListingThreads { staged: String, unstaged: String, record: i64 },
    LinkingThread {
        staged: String,
        unstaged: String,
        record: i64,
        sessions: Vec<String>,
        next: usize,
    },
    /// A thread could not be linked: the record is taken back.
    DeletingRecord { staged: String, record: i64, error: PersistError },
    /// Something failed: the commits are taken back.
    Resetting { target: ResetTarget, error: PersistError },
    FindingMainRepository { staged: String, unstaged: String, record: i64 },
    UpdatingRef { repository: RepositoryId, staged: String, unstaged: String, record: i64 },
    Finished(Result<PersistOutcome, PersistError>),
}

/// What the outside world reports while a worktree's state is kept.
#[derive(Debug, PartialEq, Eq)]
pub enum PersistEvent {
    HeadRead(Reply<Option<String>>),
    Committed(Reply<()>),
    AllStaged(Reply<()>),
    RecordCreated(Result<i64, String>),
    ThreadsListed(Vec<String>),
    ThreadLinked(Result<(), String>),
    RecordDeleted(Result<(), String>),
    ResetEnded(Reply<()>),
    RepositoryFound(Result<RepositoryId, LookupError>),
    RefUpdated(Reply<()>),
}

/// The commit that was read, or why there is none.
pub open spec fn head_of(read: HeadRead, reply: Reply<Option<String>>) -> Result<
    String,
    PersistError,
> {
    match reply {
        Reply::Canceled => Err(PersistError::HeadCanceled),
        Reply::Failed(reason) => Err(PersistError::HeadUnreadable(read, reason)),
        Reply::Done(None) => Err(PersistError::NoHead(read)),
        Reply::Done(Some(head)) => Ok(head),
    }
}

fn read_head(read: HeadRead, reply: Reply<Option<String>>) -> (head: Result<String, PersistError>)
    ensures
        head == head_of(read, reply),
{
    match reply {
        Reply::Canceled => Err(PersistError::HeadCanceled),
        Reply::Failed(reason) => Err(PersistError::HeadUnreadable(read, reason)),
        Reply::Done(None) => Err(PersistError::NoHead(read)),
        Reply::Done(Some(head)) => Ok(head),
    }
}

impl Persist {
    /// Whether the event answers what was asked for.
    pub open spec fn expects(self, event: PersistEvent) -> bool {
        match self {
            Persist::ReadingOriginalHead => event is HeadRead,
            Persist::CommittingStaged { .. } => event is Committed,
            Persist::ReadingStagedHead { .. } => event is HeadRead,
            Persist::StagingAll { .. } => event is AllStaged,
            Persist::CommittingUnstaged { .. } => event is Committed,
            Persist::ReadingUnstagedHead { .. } => event is HeadRead,
            Persist::CreatingRecord { .. } => event is RecordCreated,
            Persist::ListingThreads { .. } => event is ThreadsListed,
            Persist::LinkingThread { .. } => event is ThreadLinked,
            Persist::DeletingRecord { .. } => event is RecordDeleted,
            Persist::Resetting { .. } => event is ResetEnded,
            Persist::FindingMainRepository { .. } => event is RepositoryFound,
            Persist::UpdatingRef { .. } => event is RefUpdated,
            Persist::Finished(_) => false,
        }
    }

    /// Whether the thread to be linked next is one of those listed.
    pub open spec fn is_valid(self) -> bool {
        self matches Persist::LinkingThread { sessions, next, .. } ==> next < sessions@.len()
    }

    /// After the record was made, the thread with this number is linked to it; when all are,
    /// the commits get a reference.
    pub open spec fn linking(
        staged: String,
        unstaged: String,
        record: i64,
        sessions: Vec<String>,
        next: int,
    ) -> Persist {
        if next < sessions@.len() {
            Persist::LinkingThread { staged, unstaged, record, sessions, next: next as usize }
        } else {
            Persist::FindingMainRepository { staged, unstaged, record }
        }
    }

    /// What follows the event.
    pub open spec fn after(self, event: PersistEvent) -> Persist {
        match (self, event) {
            (Persist::ReadingOriginalHead, PersistEvent::HeadRead(reply)) =>
                match head_of(HeadRead::Original, reply) {
                    Ok(original) => Persist::CommittingStaged { original },
                    Err(error) => Persist::Finished(Err(error)),
                },
            (Persist::CommittingStaged { original }, PersistEvent::Committed(reply)) =>
                match reply {
                    Reply::Canceled => Persist::Finished(
                        Err(PersistError::CommitCanceled(WipCommit::Staged)),
                    ),
                    Reply::Failed(reason) => Persist::Finished(
                        Err(PersistError::CommitFailed(reason)),
                    ),
                    Reply::Done(_) => Persist::ReadingStagedHead { original },
                },
            (Persist::ReadingStagedHead { original }, PersistEvent::HeadRead(reply)) =>
                match head_of(HeadRead::Staged, reply) {
                    Ok(staged) => Persist::StagingAll { original, staged },
                    Err(error) => Persist::Resetting { target: ResetTarget::HeadParent, error },
                },
            (Persist::StagingAll { original, staged }, PersistEvent::AllStaged(reply)) =>
                match reply {
                    Reply::Canceled => Persist::Resetting {
                        target: ResetTarget::HeadParent,
                        error: PersistError::StagingCanceled,
                    },
                    Reply::Failed(reason) => Persist::Resetting {
                        target: ResetTarget::HeadParent,
                        error: PersistError::StagingFailed(reason),
                    },
                    Reply::Done(_) => Persist::CommittingUnstaged { original, staged },
                },
            (Persist::CommittingUnstaged { original, staged }, PersistEvent::Committed(reply)) =>
                match reply {
                    Reply::Canceled => Persist::Resetting {
                        target: ResetTarget::HeadParent,
                        error: PersistError::CommitCanceled(WipCommit::Unstaged),
                    },
                    Reply::Failed(reason) => Persist::Resetting {
                        target: ResetTarget::HeadParent,
                        error: PersistError::CommitFailed(reason),
                    },
                    Reply::Done(_) => Persist::ReadingUnstagedHead { original, staged },
                },
            (Persist::ReadingUnstagedHead { original, staged }, PersistEvent::HeadRead(reply)) =>
                match head_of(HeadRead::Unstaged, reply) {
                    Ok(unstaged) => Persist::CreatingRecord { original, staged, unstaged },
                    Err(error) => Persist::Resetting {
                        target: ResetTarget::ParentOf(staged),
                        error,
                    },
                },
            (
                Persist::CreatingRecord { staged, unstaged, .. },
                PersistEvent::RecordCreated(result),
            ) => match result {
                Ok(record) => Persist::ListingThreads { staged, unstaged, record },
                Err(reason) => Persist::Resetting {
                    target: ResetTarget::ParentOf(staged),
                    error: PersistError::RecordNotCreated(reason),
                },
            },
            (
                Persist::ListingThreads { staged, unstaged, record },
                PersistEvent::ThreadsListed(sessions),
            ) => Persist::linking(staged, unstaged, record, sessions, 0),
            (
                Persist::LinkingThread { staged, unstaged, record, sessions, next },
                PersistEvent::ThreadLinked(result),
            ) => match result {
                Ok(_) => Persist::linking(staged, unstaged, record, sessions, next + 1),
                Err(reason) => Persist::DeletingRecord {
                    staged,
                    record,
                    error: PersistError::ThreadNotLinked(reason),
                },
            },
            (Persist::DeletingRecord { staged, error, .. }, PersistEvent::RecordDeleted(_)) =>
                Persist::Resetting { target: ResetTarget::ParentOf(staged), error },
            (Persist::Resetting { error, .. }, PersistEvent::ResetEnded(_)) => Persist::Finished(
                Err(error),
            ),
            (
                Persist::FindingMainRepository { staged, unstaged, record },
                PersistEvent::RepositoryFound(result),
            ) => match result {
                Ok(repository) => Persist::UpdatingRef { repository, staged, unstaged, record },
                Err(_) => Persist::Finished(
                    Ok(
                        (PersistOutcome {
                            archived_worktree_id: record,
                            staged_commit_hash: staged,
                        }),
                    ),
                ),
            },
            (Persist::UpdatingRef { staged, record, .. }, PersistEvent::RefUpdated(_)) =>
                Persist::Finished(
                    Ok(
                        (PersistOutcome {
                            archived_worktree_id: record,
                            staged_commit_hash: staged,
                        }),
                    ),
                ),
            _ => self,
        }
    }

    /// Takes what was reported into account.
    pub fn advance(self, event: PersistEvent) -> (next: Persist)
        requires
            self.expects(event),
            self.is_valid(),
        ensures
            next == self.after(event),
            next.is_valid(),
    {
        match (self, event) {
            (Persist::ReadingOriginalHead, PersistEvent::HeadRead(reply)) =>
                match read_head(HeadRead::Original, reply) {
                    Ok(original) => Persist::CommittingStaged { original },
                    Err(error) => Persist::Finished(Err(error)),
                },
            (Persist::CommittingStaged { original }, PersistEvent::Committed(reply)) =>
                match reply {
                    Reply::Canceled => Persist::Finished(
                        Err(PersistError::CommitCanceled(WipCommit::Staged)),
                    ),
                    Reply::Failed(reason) => Persist::Finished(
                        Err(PersistError::CommitFailed(reason)),
                    ),
                    Reply::Done(_) => Persist::ReadingStagedHead { original },
                },
            (Persist::ReadingStagedHead { original }, PersistEvent::HeadRead(reply)) =>
                match read_head(HeadRead::Staged, reply) {
                    Ok(staged) => Persist::StagingAll { original, staged },
                    Err(error) => Persist::Resetting { target: ResetTarget::HeadParent, error },
                },
            (Persist::StagingAll { original, staged }, PersistEvent::AllStaged(reply)) =>
                match reply {
                    Reply::Canceled => Persist::Resetting {
                        target: ResetTarget::HeadParent,
                        error: PersistError::StagingCanceled,
                    },
                    Reply::Failed(reason) => Persist::Resetting {
                        target: ResetTarget::HeadParent,
                        error: PersistError::StagingFailed(reason),
                    },
                    Reply::Done(_) => Persist::CommittingUnstaged { original, staged },
                },
            (Persist::CommittingUnstaged { original, staged }, PersistEvent::Committed(reply)) =>
                match reply {
                    Reply::Canceled => Persist::Resetting {
                        target: ResetTarget::HeadParent,
                        error: PersistError::CommitCanceled(WipCommit::Unstaged),
                    },
                    Reply::Failed(reason) => Persist::Resetting {
                        target: ResetTarget::HeadParent,
                        error: PersistError::CommitFailed(reason),
                    },
                    Reply::Done(_) => Persist::ReadingUnstagedHead { original, staged },
                },
            (Persist::ReadingUnstagedHead { original, staged }, PersistEvent::HeadRead(reply)) =>
                match read_head(HeadRead::Unstaged, reply) {
                    Ok(unstaged) => Persist::CreatingRecord { original, staged, unstaged },
                    Err(error) => Persist::Resetting {
                        target: ResetTarget::ParentOf(staged),
                        error,
                    },
                },
            (
                Persist::CreatingRecord { original: _, staged, unstaged },
                PersistEvent::RecordCreated(result),
            ) => match result {
                Ok(record) => Persist::ListingThreads { staged, unstaged, record },
                Err(reason) => Persist::Resetting {
                    target: ResetTarget::ParentOf(staged),
                    error: PersistError::RecordNotCreated(reason),
                },
            },
            (
                Persist::ListingThreads { staged, unstaged, record },
                PersistEvent::ThreadsListed(sessions),
            ) => if sessions.len() > 0 {
                Persist::LinkingThread { staged, unstaged, record, sessions, next: 0 }
            } else {
                Persist::FindingMainRepository { staged, unstaged, record }
            },
            (
                Persist::LinkingThread { staged, unstaged, record, sessions, next },
                PersistEvent::ThreadLinked(result),
            ) => match result {
                Ok(_) => if sessions.len() - next > 1 {
                    Persist::LinkingThread { staged, unstaged, record, sessions, next: next + 1 }
                } else {
                    Persist::FindingMainRepository { staged, unstaged, record }
                },
                Err(reason) => Persist::DeletingRecord {
                    staged,
                    record,
                    error: PersistError::ThreadNotLinked(reason),
                },
            },
            (
                Persist::DeletingRecord { staged, record: _, error },
                PersistEvent::RecordDeleted(_),
            ) => Persist::Resetting { target: ResetTarget::ParentOf(staged), error },
            (Persist::Resetting { target: _, error }, PersistEvent::ResetEnded(_)) =>
                Persist::Finished(Err(error)),
            (
                Persist::FindingMainRepository { staged, unstaged, record },
                PersistEvent::RepositoryFound(result),
            ) => match result {
                Ok(repository) => Persist::UpdatingRef { repository, staged, unstaged, record },
                Err(_) => Persist::Finished(
                    Ok(
                        PersistOutcome {
                            archived_worktree_id: record,
                            staged_commit_hash: staged,
                        },
                    ),
                ),
            },
            (
                Persist::UpdatingRef { repository: _, staged, unstaged: _, record },
                PersistEvent::RefUpdated(_),
            ) => Persist::Finished(
                Ok(PersistOutcome { archived_worktree_id: record, staged_commit_hash: staged }),
            ),
            (persist, _) => persist,
        }
    }
}

/// Starts keeping the state of the worktree.
pub fn persist_worktree_state(root: &RootPlan) -> (persist: Persist)
    ensures
        persist == (if root.worktree_repo is Some {
            Persist::ReadingOriginalHead
        } else {
            Persist::Finished(Err(PersistError::NoWorktreeRepository))
        }),
        persist.is_valid(),
{
    if root.worktree_repo.is_some() {
        Persist::ReadingOriginalHead
    } else {
        Persist::Finished(Err(PersistError::NoWorktreeRepository))
    }
}

/// How a reset treats the files: a mixed one keeps them and empties the index, a soft one keeps
/// both.
#[derive(Clone, Copy, Debug, PartialEq, Eq, Structural)]
pub enum ResetMode {
    Mixed,
    Soft,
}

/// What has to be done next to keep a worktree's state.
#[derive(Debug, PartialEq, Eq)]
pub enum PersistAction {
    ReadHead { repository: RepositoryId },
    Commit { repository: RepositoryId, message: String, allow_empty: bool },
    StageAllIncludingUntracked { repository: RepositoryId },
    CreateRecord {
        worktree_path: String,
        main_repo_path: String,
        branch_name: Option<String>,
        staged_commit_hash: String,
        unstaged_commit_hash: String,
        original_commit_hash: String,
    },
    /// Lists the threads that were about any of these folders.
    ListThreads { folder_paths: Vec<String> },
    LinkThread { session_id: String, record: i64 },
    DeleteRecord { record: i64 },
    Reset { repository: RepositoryId, revision: String, mode: ResetMode },
    FindRepository { path: String },
    UpdateRef { repository: RepositoryId, name: String, commit: String },
    Finish,
}

impl PersistAction {
    /// Whether this is what has to be done in the given state, where the project has the given
    /// folders.
    pub open spec fn follows(
        self,
        persist: Persist,
        root: RootPlan,
        folder_paths: Seq<Seq<char>>,
    ) -> bool {
        match persist {
            Persist::ReadingOriginalHead => self == (PersistAction::ReadHead {
                repository: root.worktree_repo->0,
            }),
            Persist::ReadingStagedHead { .. } => self == (PersistAction::ReadHead {
                repository: root.worktree_repo->0,
            }),
            Persist::ReadingUnstagedHead { .. } => self == (PersistAction::ReadHead {
                repository: root.worktree_repo->0,
            }),
            Persist::CommittingStaged { .. } => {
                &&& self matches PersistAction::Commit { repository, message, allow_empty }
                &&& repository == root.worktree_repo->0
                &&& message@ == WipCommit::Staged.text()
                &&& allow_empty
            },
            Persist::CommittingUnstaged { .. } => {
                &&& self matches PersistAction::Commit { repository, message, allow_empty }
                &&& repository == root.worktree_repo->0
                &&& message@ == WipCommit::Unstaged.text()
                &&& allow_empty
            },
            Persist::StagingAll { .. } => self == (PersistAction::StageAllIncludingUntracked {
                repository: root.worktree_repo->0,
            }),
            Persist::CreatingRecord { original, staged, unstaged } => self == (
            PersistAction::CreateRecord {
                worktree_path: root.root_path,
                main_repo_path: root.main_repo_path,
                branch_name: root.branch_name,
                staged_commit_hash: staged,
                unstaged_commit_hash: unstaged,
                original_commit_hash: original,
            }),
            Persist::ListingThreads { .. } => {
                &&& self matches PersistAction::ListThreads { folder_paths: asked }
                &&& text::texts(asked@) == folder_paths
            },
            Persist::LinkingThread { record, sessions, next, .. } => self == (
            PersistAction::LinkThread { session_id: sessions@[next as int], record }),
            Persist::DeletingRecord { record, .. } => self == (PersistAction::DeleteRecord {
                record,
            }),
            Persist::Resetting { target, .. } => {
                &&& self matches PersistAction::Reset { repository, revision, mode }
                &&& repository == root.worktree_repo->0
                &&& revision@ == target.revision()
                &&& mode is Mixed
            },
            Persist::FindingMainRepository { .. } => self == (PersistAction::FindRepository {
                path: root.main_repo_path,
            }),
            Persist::UpdatingRef { repository, unstaged, record, .. } => {
                &&& self matches PersistAction::UpdateRef { repository: asked, name, commit }
                &&& asked == repository
                &&& name@ == archived_ref(record as int)
                &&& commit == unstaged
            },
            Persist::Finished(_) => self is Finish,
        }
    }
}

impl Persist {
    /// What has to be done next.
    pub fn action(&self, root: &RootPlan, folder_paths: &Vec<String>) -> (action: PersistAction)
        requires
            self.is_valid(),
            root.worktree_repo is Some || self is Finished,
        ensures
            action.follows(*self, *root, text::texts(folder_paths@)),
    {
        let repository = match root.worktree_repo {
            Some(repository) => repository,
            None => return PersistAction::Finish,
        };
        match self {
            Persist::ReadingOriginalHead => PersistAction::ReadHead { repository },
            Persist::ReadingStagedHead { .. } => PersistAction::ReadHead { repository },
            Persist::ReadingUnstagedHead { .. } => PersistAction::ReadHead { repository },
            Persist::CommittingStaged { .. } => PersistAction::Commit {
                repository,
                message: WipCommit::Staged.message(),
                allow_empty: true,
            },
            Persist::CommittingUnstaged { .. } => PersistAction::Commit {
                repository,
                message: WipCommit::Unstaged.message(),
                allow_empty: true,
            },
            Persist::StagingAll { .. } => PersistAction::StageAllIncludingUntracked { repository },
            Persist::CreatingRecord { original, staged, unstaged } => PersistAction::CreateRecord {
                worktree_path: root.root_path.clone(),
                main_repo_path: root.main_repo_path.clone(),
                branch_name: text::copied(&root.branch_name),
                staged_commit_hash: staged.clone(),
                unstaged_commit_hash: unstaged.clone(),
                original_commit_hash: original.clone(),
            },
            Persist::ListingThreads { .. } => PersistAction::ListThreads {
                folder_paths: text::copied_texts(folder_paths),
            },
            Persist::LinkingThread { staged: _, unstaged: _, record, sessions, next } =>
                PersistAction::LinkThread { session_id: sessions[*next].clone(), record: *record },
            Persist::DeletingRecord { staged: _, record, error: _ } =>
                PersistAction::DeleteRecord { record: *record },
            Persist::Resetting { target, error: _ } => PersistAction::Reset {
                repository,
                revision: target.to_revision(),
                mode: ResetMode::Mixed,
            },
            Persist::FindingMainRepository { .. } => PersistAction::FindRepository {
                path: root.main_repo_path.clone(),
            },
            Persist::UpdatingRef { repository, staged: _, unstaged, record } =>
                PersistAction::UpdateRef {
                    repository: *repository,
                    name: archived_worktree_ref_name(*record),
                    commit: unstaged.clone(),
                },
            Persist::Finished(_) => PersistAction::Finish,
        }
    }
}

/// The contents of files, by their paths.
pub struct Tree {
    pub files: Map<Seq<char>, Seq<u8>>,
}

/// What git and the thread store hold: the commits of the worktree's branch from the first to
/// the current one, the tree of every commit, what is staged, what is in the directory, the
/// records of archived worktrees, the threads linked to each, and the references kept for them.
pub struct World {
    pub commits: Seq<Seq<char>>,
    pub trees: Map<Seq<char>, Tree>,
    pub index: Tree,
    pub files: Tree,
    pub records: Set<i64>,
    pub links: Set<(Seq<char>, i64)>,
    pub refs: Map<Seq<char>, Seq<char>>,
}

impl World {
    /// The commits that a reset leaves.
    pub open spec fn reset_to(self, target: ResetTarget) -> Seq<Seq<char>> {
        match target {
            ResetTarget::HeadParent => self.commits.drop_last(),
            ResetTarget::ParentOf(commit) => self.commits.take(self.commits.index_of(commit@)),
        }
    }

    /// Whether the world may have become `later` while it answered with the event: git reports
    /// the current commit, a commit that was made is a new one and holds what was staged, a
    /// mixed reset leaves the files alone, and what was not done left no trace.
    pub open spec fn answers(self, persist: Persist, event: PersistEvent, later: World) -> bool {
        match (persist, event) {
            (_, PersistEvent::HeadRead(reply)) => {
                &&& later == self
                &&& reply matches Reply::Done(Some(head)) ==> self.commits.len() > 0 && head@
                    == self.commits.last()
            },
            (_, PersistEvent::Committed(Reply::Done(_))) => {
                &&& later.commits.len() == self.commits.len() + 1
                &&& later == (World {
                    commits: self.commits.push(later.commits.last()),
                    trees: self.trees.insert(later.commits.last(), self.index),
                    ..self
                })
                &&& !self.commits.contains(later.commits.last())
                &&& !self.trees.contains_key(later.commits.last())
            },
            (_, PersistEvent::AllStaged(Reply::Done(_))) => later == (World {
                index: self.files,
                ..self
            }),
            (_, PersistEvent::RecordCreated(Ok(record))) => {
                &&& !self.records.contains(record)
                &&& later == (World { records: self.records.insert(record), ..self })
            },
            (
                Persist::LinkingThread { record, sessions, next, .. },
                PersistEvent::ThreadLinked(Ok(_)),
            ) => later == (World {
                links: self.links.insert((sessions@[next as int]@, record)),
                ..self
            }),
            (Persist::DeletingRecord { record, .. }, PersistEvent::RecordDeleted(Ok(_))) => later
                == (World { records: self.records.remove(record), ..self }),
            (Persist::Resetting { target, .. }, PersistEvent::ResetEnded(Reply::Done(_))) => later
                == (World { commits: self.reset_to(target), index: later.index, ..self }),
            (
                Persist::UpdatingRef { unstaged, record, .. },
                PersistEvent::RefUpdated(Reply::Done(_)),
            ) => later == (World {
                refs: self.refs.insert(archived_ref(record as int), unstaged@),
                ..self
            }),
            _ => later == self,
        }
    }
}

/// One answer, and the world after it.
pub struct Exchange {
    pub event: PersistEvent,
    pub world: World,
}

/// What follows all the answers.
pub open spec fn persist_after(exchanges: Seq<Exchange>) -> Persist
    decreases exchanges.len(),
{
    if exchanges.len() == 0 {
        Persist::ReadingOriginalHead
    } else {
        persist_after(exchanges.drop_last()).after(exchanges.last().event)
    }
}

/// The world after all the answers.
pub open spec fn world_after(world: World, exchanges: Seq<Exchange>) -> World {
    if exchanges.len() == 0 {
        world
    } else {
        exchanges.last().world
    }
}

/// Whether the world answered what it was asked, step by step.
pub open spec fn is_run(world: World, exchanges: Seq<Exchange>) -> bool
    decreases exchanges.len(),
{
    exchanges.len() > 0 ==> {
        let before = exchanges.drop_last();
        &&& is_run(world, before)
        &&& persist_after(before).expects(exchanges.last().event)
        &&& world_after(world, before).answers(
            persist_after(before),
            exchanges.last().event,
            exchanges.last().world,
        )
    }
}

/// Whether every reset and every deletion of a record succeeded.
pub open spec fn takes_back_everything(exchanges: Seq<Exchange>) -> bool {
    forall|i: int|
        0 <= i < exchanges.len() ==> match (#[trigger] exchanges[i]).event {
            PersistEvent::ResetEnded(reply) => reply is Done,
            PersistEvent::RecordDeleted(result) => result is Ok,
            _ => true,
        }
}

impl Persist {
    /// What the state says of the world, compared with the world before the start.
    spec fn describes(self, before: World, now: World) -> bool {
        let same_commits = now.commits == before.commits;
        let was_current = |original: Seq<char>|
            before.commits.len() > 0 && original == before.commits.last();
        let one_commit = |staged: Seq<char>|
            {
                &&& now.commits == before.commits.push(staged)
                &&& !before.commits.contains(staged)
            };
        let two_commits = |staged: Seq<char>|
            {
                &&& now.commits.len() == before.commits.len() + 2
                &&& now.commits == before.commits.push(staged).push(now.commits.last())
                &&& !before.commits.contains(staged)
                &&& staged != now.commits.last()
            };
        let holds = |commit: Seq<char>, tree: Tree|
            now.trees.contains_key(commit) && now.trees[commit] == tree;
        let recorded = |record: i64|
            {
                &&& !before.records.contains(record)
                &&& now.records == before.records.insert(record)
            };
        now.files == before.files && match self {
            Persist::ReadingOriginalHead => now == before,
            Persist::CommittingStaged { original } => {
                &&& now == before
                &&& was_current(original@)
            },
            Persist::ReadingStagedHead { original } => {
                &&& was_current(original@)
                &&& now.commits.len() > 0
                &&& one_commit(now.commits.last())
                &&& holds(now.commits.last(), before.index)
                &&& now.records == before.records
            },
            Persist::StagingAll { original, staged } => {
                &&& was_current(original@)
                &&& one_commit(staged@)
                &&& holds(staged@, before.index)
                &&& now.records == before.records
            },
            Persist::CommittingUnstaged { original, staged } => {
                &&& was_current(original@)
                &&& one_commit(staged@)
                &&& holds(staged@, before.index)
                &&& now.index == before.files
                &&& now.records == before.records
            },
            Persist::ReadingUnstagedHead { original, staged } => {
                &&& was_current(original@)
                &&& two_commits(staged@)
                &&& holds(staged@, before.index)
                &&& holds(now.commits.last(), before.files)
                &&& now.records == before.records
            },
            Persist::CreatingRecord { original, staged, unstaged } => {
                &&& was_current(original@)
                &&& two_commits(staged@)
                &&& holds(staged@, before.index)
                &&& holds(unstaged@, before.files)
                &&& now.records == before.records
                &&& unstaged@ == now.commits.last()
            },
            Persist::ListingThreads { staged, unstaged, record } => two_commits(staged@) && recorded(
                record,
            ) && unstaged@ == now.commits.last(),
            Persist::LinkingThread { staged, unstaged, record, sessions, next } => {
                &&& two_commits(staged@)
                &&& recorded(record)
                &&& unstaged@ == now.commits.last()
                &&& forall|i: int|
                    0 <= i < next ==> now.links.contains((#[trigger] sessions@[i]@, record))
            },
            Persist::DeletingRecord { staged, record, .. } => two_commits(staged@) && recorded(
                record,
            ),
            Persist::Resetting { target, .. } => {
                &&& now.records == before.records
                &&& match target {
                    ResetTarget::HeadParent => now.commits.len() > 0 && one_commit(
                        now.commits.last(),
                    ),
                    ResetTarget::ParentOf(staged) => two_commits(staged@),
                }
            },
            Persist::FindingMainRepository { staged, unstaged, record } => two_commits(staged@)
                && recorded(record) && unstaged@ == now.commits.last(),
            Persist::UpdatingRef { staged, unstaged, record, .. } => two_commits(staged@)
                && recorded(record) && unstaged@ == now.commits.last(),
            Persist::Finished(Ok(outcome)) => two_commits(outcome.staged_commit_hash@) && recorded(
                outcome.archived_worktree_id,
            ),
            Persist::Finished(Err(_)) => same_commits && now.records == before.records,
        }
    }
}

proof fn reset_drops_the_commits(before: Seq<Seq<char>>, staged: Seq<char>, unstaged: Seq<char>)
    requires
        !before.contains(staged),
        staged != unstaged,
    ensures
        before.push(staged).push(unstaged).take(
            before.push(staged).push(unstaged).index_of(staged),
        ) == before,
{
    let commits = before.push(staged).push(unstaged);
    assert(commits[before.len() as int] == staged);
    let at = commits.index_of(staged);
    assert(commits.contains(staged));
    assert(0 <= at < commits.len() && commits[at] == staged);
    assert(at == before.len()) by {
        if at < before.len() {
            assert(before[at] == staged);
        }
    }
    assert(commits.take(at) =~= before);
}

proof fn run_is_described(world: World, exchanges: Seq<Exchange>)
    requires
        is_run(world, exchanges),
        takes_back_everything(exchanges),
    ensures
        persist_after(exchanges).is_valid(),
        persist_after(exchanges).describes(world, world_after(world, exchanges)),
    decreases exchanges.len(),
{
    if exchanges.len() > 0 {
        let before = exchanges.drop_last();
        assert forall|i: int| 0 <= i < before.len() implies match (#[trigger] before[i]).event {
            PersistEvent::ResetEnded(reply) => reply is Done,
            PersistEvent::RecordDeleted(result) => result is Ok,
            _ => true,
        } by {
            assert(before[i] == exchanges[i]);
        }
        run_is_described(world, before);
        let state = persist_after(before);
        let now = world_after(world, before);
        let later = exchanges.last().world;
        assert(exchanges.last() == exchanges[exchanges.len() - 1]);
        if let Persist::Resetting { target, .. } = state {
            match target {
                ResetTarget::HeadParent => {
                    assert(now.commits.drop_last() =~= world.commits);
                },
                ResetTarget::ParentOf(staged) => {
                    reset_drops_the_commits(world.commits, staged@, now.commits.last());
                },
            }
        }
        if let Persist::DeletingRecord { record, .. } = state {
            assert(world.records.insert(record).remove(record) =~= world.records);
        }
        if let Persist::CommittingUnstaged { staged, .. } = state {
            assert(now.commits.last() == staged@);
            assert(now.commits.contains(staged@));
        }
    }
}

/// Keeping a worktree's state either succeeds or leaves the branch, the files and the records as
/// they were, as long as git can reset and the record can be deleted. (What was staged need not
/// be staged any more.)
pub proof fn failed_persist_leaves_nothing_behind(world: World, exchanges: Seq<Exchange>)
    requires
        is_run(world, exchanges),
        takes_back_everything(exchanges),
        persist_after(exchanges) is Finished,
        persist_after(exchanges)->Finished_0 is Err,
    ensures
        world_after(world, exchanges).commits == world.commits,
        world_after(world, exchanges).files == world.files,
        world_after(world, exchanges).records == world.records,
{
    run_is_described(world, exchanges);
}

/// The record of a worktree names the commit that was current before the start and the two
/// commits that were put on top of it: one holds what was staged, the other the files.
pub proof fn record_names_the_commits(world: World, exchanges: Seq<Exchange>)
    requires
        is_run(world, exchanges),
        takes_back_everything(exchanges),
        persist_after(exchanges) is CreatingRecord,
    ensures
        persist_after(exchanges) matches Persist::CreatingRecord { original, staged, unstaged } && {
            let now = world_after(world, exchanges);
            &&& world.commits.len() > 0
            &&& original@ == world.commits.last()
            &&& now.commits == world.commits.push(staged@).push(unstaged@)
            &&& now.trees.contains_key(staged@) && now.trees[staged@] == world.index
            &&& now.trees.contains_key(unstaged@) && now.trees[unstaged@] == world.files
        },
{
    run_is_described(world, exchanges);
}

/// The threads that the store listed for the worktree.
pub open spec fn listed_threads(exchanges: Seq<Exchange>) -> Seq<String>
    decreases exchanges.len(),
{
    if exchanges.len() == 0 {
        Seq::empty()
    } else {
        match exchanges.last().event {
            PersistEvent::ThreadsListed(sessions) => sessions@,
            _ => listed_threads(exchanges.drop_last()),
        }
    }
}

impl Persist {
    spec fn has_linked(self, sessions: Seq<String>, links: Set<(Seq<char>, i64)>) -> bool {
        let all_linked = |record: i64|
            forall|i: int|
                0 <= i < sessions.len() ==> links.contains((#[trigger] sessions[i]@, record));
        match self {
            Persist::LinkingThread { record, sessions: left, next, .. } => {
                &&& left@ == sessions
                &&& forall|i: int|
                    0 <= i < next ==> links.contains((#[trigger] sessions[i]@, record))
            },
            Persist::FindingMainRepository { record, .. } => all_linked(record),
            Persist::UpdatingRef { record, .. } => all_linked(record),
            Persist::Finished(Ok(outcome)) => all_linked(outcome.archived_worktree_id),
            _ => true,
        }
    }
}

/// Where a worktree's state was kept, every thread listed for it is linked to its record.
pub proof fn persisted_threads_are_linked(world: World, exchanges: Seq<Exchange>)
    requires
        is_run(world, exchanges),
    ensures
        persist_after(exchanges).is_valid(),
        persist_after(exchanges) matches Persist::Finished(Ok(outcome)) ==> forall|i: int|
            0 <= i < listed_threads(exchanges).len() ==> world_after(
                world,
                exchanges,
            ).links.contains(
                (
                    #[trigger] listed_threads(exchanges)[i]@,
                    outcome.archived_worktree_id,
                ),
            ),
{
    linking_is_complete(world, exchanges);
}

proof fn linking_is_complete(world: World, exchanges: Seq<Exchange>)
    requires
        is_run(world, exchanges),
    ensures
        persist_after(exchanges).is_valid(),
        persist_after(exchanges).has_linked(
            listed_threads(exchanges),
            world_after(world, exchanges).links,
        ),
    decreases exchanges.len(),
{
    if exchanges.len() > 0 {
        linking_is_complete(world, exchanges.drop_last());
    }
}

/// Where a worktree's state was kept, its branch has exactly the two commits more, the first of
/// them being the one in the outcome, and there is exactly the one record more.
pub proof fn persisted_state_is_on_the_branch(world: World, exchanges: Seq<Exchange>)
    requires
        is_run(world, exchanges),
        takes_back_everything(exchanges),
        persist_after(exchanges) is Finished,
        persist_after(exchanges)->Finished_0 is Ok,
    ensures
        ({
            let outcome = persist_after(exchanges)->Finished_0->Ok_0;
            let now = world_after(world, exchanges);
            &&& now.commits.len() == world.commits.len() + 2
            &&& now.commits == world.commits.push(outcome.staged_commit_hash@).push(
                now.commits.last(),
            )
            &&& !world.records.contains(outcome.archived_worktree_id)
            &&& now.records == world.records.insert(outcome.archived_worktree_id)
        }),
{
    run_is_described(world, exchanges);
}

/// How far the traces of an archived worktree have been wiped out.
#[derive(Debug, PartialEq, Eq)]
pub enum Cleanup {
    /// Taking the two commits back.
    Resetting,
    /// Looking for the main repository.
    FindingRepository,
    /// Deleting the reference to the commits.
    DeletingRef(RepositoryId),
    /// Deleting the record.
    DeletingRecord,
    Finished,
}

/// What the outside world reports to a cleanup. Whether anything failed makes no difference
/// but for the repository that the reference would be deleted through.
#[derive(Debug, PartialEq, Eq)]
pub enum CleanupEvent {
    ResetEnded(Reply<()>),
    RepositoryFound(Result<RepositoryId, LookupError>),
    RefDeleted(Reply<()>),
    RecordDeleted(Result<(), String>),
}

/// What has to be done next to wipe out the traces of an archived worktree.
#[derive(Debug, PartialEq, Eq)]
pub enum CleanupAction {
    Reset { repository: RepositoryId, revision: String, mode: ResetMode },
    FindRepository { path: String },
    DeleteRef { repository: RepositoryId, name: String },
    DeleteRecord { record: i64 },
    Finish,
}

impl Cleanup {
    /// Whether the event answers what was asked for.
    pub open spec fn expects(self, event: CleanupEvent) -> bool {
        match self {
            Cleanup::Resetting => event is ResetEnded,
            Cleanup::FindingRepository => event is RepositoryFound,
            Cleanup::DeletingRef(_) => event is RefDeleted,
            Cleanup::DeletingRecord => event is RecordDeleted,
            Cleanup::Finished => false,
        }
    }

    /// What follows the event.
    pub open spec fn after(self, event: CleanupEvent) -> Cleanup {
        match (self, event) {
            (Cleanup::Resetting, _) => Cleanup::FindingRepository,
            (Cleanup::FindingRepository, CleanupEvent::RepositoryFound(Ok(repository))) =>
                Cleanup::DeletingRef(repository),
            (Cleanup::FindingRepository, _) => Cleanup::DeletingRecord,
            (Cleanup::DeletingRef(_), _) => Cleanup::DeletingRecord,
            _ => Cleanup::Finished,
        }
    }

    /// Takes what was reported into account.
    pub fn advance(self, event: CleanupEvent) -> (next: Cleanup)
        requires
            self.expects(event),
        ensures
            next == self.after(event),
    {
        match (self, event) {
            (Cleanup::Resetting, _) => Cleanup::FindingRepository,
            (Cleanup::FindingRepository, CleanupEvent::RepositoryFound(Ok(repository))) =>
                Cleanup::DeletingRef(repository),
            (Cleanup::FindingRepository, _) => Cleanup::DeletingRecord,
            (Cleanup::DeletingRef(_), _) => Cleanup::DeletingRecord,
            _ => Cleanup::Finished,
        }
    }
}

/// Starts taking back a worktree's state that was kept. The commits can be taken back only
/// where the worktree's repository is known.
pub fn rollback_persist(root: &RootPlan) -> (cleanup: Cleanup)
    ensures
        cleanup == (if root.worktree_repo is Some {
            Cleanup::Resetting
        } else {
            Cleanup::FindingRepository
        }),
{
    if root.worktree_repo.is_some() {
        Cleanup::Resetting
    } else {
        Cleanup::FindingRepository
    }
}

impl CleanupAction {
    /// Whether this is what has to be done in the given state to take back a state that was kept.
    pub open spec fn rolls_back(
        self,
        cleanup: Cleanup,
        outcome: PersistOutcome,
        root: RootPlan,
    ) -> bool {
        match cleanup {
            Cleanup::Resetting => {
                &&& self matches CleanupAction::Reset { repository, revision, mode }
                &&& repository == root.worktree_repo->0
                &&& revision@ == ResetTarget::ParentOf(outcome.staged_commit_hash).revision()
                &&& mode is Mixed
            },
            Cleanup::FindingRepository => self == (CleanupAction::FindRepository {
                path: root.main_repo_path,
            }),
            Cleanup::DeletingRef(repository) => {
                &&& self matches CleanupAction::DeleteRef { repository: asked, name }
                &&& asked == repository
                &&& name@ == archived_ref(outcome.archived_worktree_id as int)
            },
            Cleanup::DeletingRecord => self == (CleanupAction::DeleteRecord {
                record: outcome.archived_worktree_id,
            }),
            Cleanup::Finished => self is Finish,
        }
    }
}

/// What has to be done next to take back a worktree's state that was kept.
pub fn rollback_action(cleanup: &Cleanup, outcome: &PersistOutcome, root: &RootPlan) -> (action:
    CleanupAction)
    requires
        cleanup is Resetting ==> root.worktree_repo is Some,
    ensures
        action.rolls_back(*cleanup, *outcome, *root),
{
    match cleanup {
        Cleanup::Resetting => {
            let target = ResetTarget::ParentOf(outcome.staged_commit_hash.clone());
            CleanupAction::Reset {
                repository: root.worktree_repo.unwrap(),
                revision: target.to_revision(),
                mode: ResetMode::Mixed,
            }
        },
        Cleanup::FindingRepository => CleanupAction::FindRepository {
            path: root.main_repo_path.clone(),
        },
        Cleanup::DeletingRef(repository) => CleanupAction::DeleteRef {
            repository: *repository,
            name: archived_worktree_ref_name(outcome.archived_worktree_id),
        },
        Cleanup::DeletingRecord => CleanupAction::DeleteRecord {
            record: outcome.archived_worktree_id,
        },
        Cleanup::Finished => CleanupAction::Finish,
    }
}

/// The world after a rollback in which git and the store did all that they were asked.
pub open spec fn rolled_back(world: World, outcome: PersistOutcome) -> World {
    let commits = world.reset_to(ResetTarget::ParentOf(outcome.staged_commit_hash));
    World {
        commits,
        index: world.trees[commits.last()],
        records: world.records.remove(outcome.archived_worktree_id),
        refs: world.refs.remove(archived_ref(outcome.archived_worktree_id as int)),
        ..world
    }
}

/// Rolling back a state that was just kept gives the branch and the records from before.
pub proof fn rollback_undoes_persist(world: World, exchanges: Seq<Exchange>)
    requires
        is_run(world, exchanges),
        takes_back_everything(exchanges),
        persist_after(exchanges) is Finished,
        persist_after(exchanges)->Finished_0 is Ok,
    ensures
        ({
            let outcome = persist_after(exchanges)->Finished_0->Ok_0;
            let back = rolled_back(world_after(world, exchanges), outcome);
            &&& back.commits == world.commits
            &&& back.records == world.records
            &&& !back.refs.contains_key(archived_ref(outcome.archived_worktree_id as int))
        }),
{
    run_is_described(world, exchanges);
    let outcome = persist_after(exchanges)->Finished_0->Ok_0;
    let now = world_after(world, exchanges);
    reset_drops_the_commits(world.commits, outcome.staged_commit_hash@, now.commits.last());
    assert(world.records.insert(outcome.archived_worktree_id).remove(
        outcome.archived_worktree_id,
    ) =~= world.records);
}

impl PersistEvent {
    /// Whether something was not done that keeping the state cannot do without.
    pub open spec fn is_refusal(self) -> bool {
        match self {
            PersistEvent::HeadRead(reply) => !(reply is Done && reply->Done_0 is Some),
            PersistEvent::Committed(reply) => !(reply is Done),
            PersistEvent::AllStaged(reply) => !(reply is Done),
            PersistEvent::RecordCreated(result) => result is Err,
            PersistEvent::ThreadLinked(result) => result is Err,
            _ => false,
        }
    }

    /// Whether something that changes git or the thread store was done.
    pub open spec fn is_done(self) -> bool {
        match self {
            PersistEvent::Committed(reply) => reply is Done,
            PersistEvent::AllStaged(reply) => reply is Done,
            PersistEvent::ThreadLinked(result) => result is Ok,
            PersistEvent::RecordDeleted(result) => result is Ok,
            PersistEvent::ResetEnded(reply) => reply is Done,
            PersistEvent::RefUpdated(reply) => reply is Done,
            _ => false,
        }
    }

    /// Whether the error is the one that this refusal stands for.
    pub open spec fn explains(self, error: PersistError) -> bool {
        match error {
            PersistError::NoWorktreeRepository => false,
            PersistError::HeadCanceled => self == PersistEvent::HeadRead(Reply::Canceled),
            PersistError::HeadUnreadable(_, reason) => self == PersistEvent::HeadRead(
                Reply::Failed(reason),
            ),
            PersistError::NoHead(_) => self == PersistEvent::HeadRead(Reply::Done(None)),
            PersistError::CommitCanceled(_) => self == PersistEvent::Committed(Reply::Canceled),
            PersistError::CommitFailed(reason) => self == PersistEvent::Committed(
                Reply::Failed(reason),
            ),
            PersistError::StagingCanceled => self == PersistEvent::AllStaged(Reply::Canceled),
            PersistError::StagingFailed(reason) => self == PersistEvent::AllStaged(
                Reply::Failed(reason),
            ),
            PersistError::RecordNotCreated(reason) => self == PersistEvent::RecordCreated(
                Err(reason),
            ),
            PersistError::ThreadNotLinked(reason) => self == PersistEvent::ThreadLinked(
                Err(reason),
            ),
        }
    }
}

impl Persist {
    /// The error that keeping the state ends with, once it is known to fail.
    pub open spec fn told(self) -> Option<PersistError> {
        match self {
            Persist::DeletingRecord { error, .. } => Some(error),
            Persist::Resetting { error, .. } => Some(error),
            Persist::Finished(Err(error)) => Some(error),
            _ => None,
        }
    }
}

/// Keeping the state fails exactly where something it cannot do without was refused. The error
/// says what that was, and whatever fails while the commits are taken back does not replace it.
pub proof fn first_refusal_is_told(persist: Persist, event: PersistEvent)
    requires
        persist.expects(event),
    ensures
        persist.told() is Some ==> persist.after(event).told() == persist.told(),
        persist.told() is None ==> (persist.after(event).told() is Some == event.is_refusal()),
        persist.told() is None ==> (persist.after(event).told() matches Some(error)
            ==> event.explains(error)),
        persist.told() is None ==> (persist.after(event).told() matches Some(error)
            ==> match error {
            PersistError::HeadUnreadable(read, _) | PersistError::NoHead(read) => match read {
                HeadRead::Original => persist is ReadingOriginalHead,
                HeadRead::Staged => persist is ReadingStagedHead,
                HeadRead::Unstaged => persist is ReadingUnstagedHead,
            },
            PersistError::CommitCanceled(commit) => match commit {
                WipCommit::Staged => persist is CommittingStaged,
                WipCommit::Unstaged => persist is CommittingUnstaged,
            },
            _ => true,
        }),
{
}

/// Keeping the state that ends well has told the last of the two commits to a reference, unless
/// the main repository is not to be found, and no refusal came before.
pub proof fn kept_commits_get_a_reference(world: World, exchanges: Seq<Exchange>)
    requires
        is_run(world, exchanges),
        takes_back_everything(exchanges),
        persist_after(exchanges) matches Persist::Finished(Ok(_)),
    ensures
        exchanges.len() > 0,
        forall|i: int| 0 <= i < exchanges.len() ==> !(#[trigger] exchanges[i]).event.is_refusal(),
        exchanges.last().event is RefUpdated || (
        exchanges.last().event matches PersistEvent::RepositoryFound(found) && found is Err),
        exchanges.last().event is RefUpdated && exchanges.last().event.is_done() ==> ({
            let record = (persist_after(exchanges)->Finished_0)->Ok_0.archived_worktree_id;
            let now = world_after(world, exchanges);
            now.refs.contains_key(archived_ref(record as int)) && now.refs[archived_ref(
                record as int,
            )] == now.commits.last()
        }),
{
    let before = exchanges.drop_last();
    assert forall|i: int| 0 <= i < before.len() implies match (#[trigger] before[i]).event {
        PersistEvent::ResetEnded(reply) => reply is Done,
        PersistEvent::RecordDeleted(result) => result is Ok,
        _ => true,
    } by {
        assert(before[i] == exchanges[i]);
    }
    run_is_described(world, before);
    no_refusal_came(world, exchanges);
}

proof fn no_refusal_came(world: World, exchanges: Seq<Exchange>)
    requires
        is_run(world, exchanges),
        persist_after(exchanges).told() is None,
    ensures
        forall|i: int| 0 <= i < exchanges.len() ==> !(#[trigger] exchanges[i]).event.is_refusal(),
    decreases exchanges.len(),
{
    if exchanges.len() > 0 {
        let before = exchanges.drop_last();
        first_refusal_is_told(persist_after(before), exchanges.last().event);
        no_refusal_came(world, before);
        assert forall|i: int| 0 <= i < exchanges.len() implies !(
        #[trigger] exchanges[i]).event.is_refusal() by {
            if i < before.len() {
                assert(before[i] == exchanges[i]);
            }
        }
    }
}

impl World {
    /// Whether the world may have become `later` while it did what it was asked, and said so.
    pub open spec fn does(self, action: PersistAction, later: World) -> bool {
        match action {
            PersistAction::Commit { .. } => later.commits.len() == self.commits.len() + 1 && later
                == (World {
                commits: self.commits.push(later.commits.last()),
                trees: self.trees.insert(later.commits.last(), self.index),
                ..self
            }) && !self.commits.contains(later.commits.last()) && !self.trees.contains_key(
                later.commits.last(),
            ),
            PersistAction::StageAllIncludingUntracked { .. } => later == (World {
                index: self.files,
                ..self
            }),
            PersistAction::LinkThread { session_id, record } => later == (World {
                links: self.links.insert((session_id@, record)),
                ..self
            }),
            PersistAction::DeleteRecord { record } => later == (World {
                records: self.records.remove(record),
                ..self
            }),
            PersistAction::Reset { revision, mode, .. } => {
                &&& later == (World { commits: later.commits, index: later.index, ..self })
                &&& revision@ == "HEAD~1"@ ==> later.commits == self.commits.drop_last()
                &&& forall|commit: Seq<char>| #[trigger]
                    (commit + "~1"@) == revision@ ==> later.commits == self.commits.take(
                        self.commits.index_of(commit),
                    )
                &&& later.index == (match mode {
                    ResetMode::Mixed => self.trees[later.commits.last()],
                    ResetMode::Soft => self.index,
                })
            },
            PersistAction::UpdateRef { name, commit, .. } => later == (World {
                refs: self.refs.insert(name@, commit@),
                ..self
            }),
            _ => later == self,
        }
    }
}

/// What is asked of git and of the thread store has the effect that is counted on: a world that
/// did it and said so has answered the state in which it was asked. Nothing is left staged by a
/// reset, a commit is made even where nothing changed, and the git commands go to the worktree's
/// own repository.
pub proof fn actions_have_the_effect_counted_on(
    persist: Persist,
    action: PersistAction,
    event: PersistEvent,
    root: RootPlan,
    folder_paths: Seq<Seq<char>>,
    world: World,
    later: World,
)
    requires
        persist.is_valid(),
        persist.expects(event),
        action.follows(persist, root, folder_paths),
        world.does(action, later),
    ensures
        event.is_done() ==> world.answers(persist, event, later),
        event is ResetEnded ==> later.index == world.trees[later.commits.last()],
        action matches PersistAction::Commit { message, allow_empty, .. } ==> allow_empty && (
        message@ == "WIP staged"@ || message@ == "WIP unstaged"@),
        match action {
            PersistAction::ReadHead { repository } => Some(repository) == root.worktree_repo
                || root.worktree_repo is None,
            PersistAction::Commit { repository, .. } => Some(repository) == root.worktree_repo
                || root.worktree_repo is None,
            PersistAction::StageAllIncludingUntracked { repository } => Some(repository)
                == root.worktree_repo || root.worktree_repo is None,
            PersistAction::Reset { repository, .. } => Some(repository) == root.worktree_repo
                || root.worktree_repo is None,
            _ => true,
        },
{
    if let Persist::Resetting { target, .. } = persist {
        if let PersistAction::Reset { revision, .. } = action {
            if let ResetTarget::ParentOf(commit) = target {
                assert((commit@ + "~1"@) == revision@);
            }
            assert(later.commits == world.reset_to(target));
        }
    }
}

/// The record that is asked for names the branch and the places of the worktree, the commit that
/// was current before the start and the two that were put on top of it.
pub proof fn record_describes_the_worktree(
    world: World,
    exchanges: Seq<Exchange>,
    action: PersistAction,
    root: RootPlan,
    folder_paths: Seq<Seq<char>>,
)
    requires
        is_run(world, exchanges),
        takes_back_everything(exchanges),
        action.follows(persist_after(exchanges), root, folder_paths),
        action is CreateRecord,
    ensures
        action matches PersistAction::CreateRecord {
            worktree_path,
            main_repo_path,
            branch_name,
            staged_commit_hash,
            unstaged_commit_hash,
            original_commit_hash,
        } && {
            let now = world_after(world, exchanges).commits;
            &&& worktree_path == root.root_path
            &&& main_repo_path == root.main_repo_path
            &&& branch_name == root.branch_name
            &&& now == world.commits.push(staged_commit_hash@).push(unstaged_commit_hash@)
            &&& original_commit_hash@ == world.commits.last()
        },
{
    run_is_described(world, exchanges);
}

/// What follows the events of a cleanup that began in the given state.
pub open spec fn cleanup_after(start: Cleanup, events: Seq<CleanupEvent>) -> Cleanup
    decreases events.len(),
{
    if events.len() == 0 {
        start
    } else {
        cleanup_after(start, events.drop_last()).after(events.last())
    }
}

/// Whether every event answers what was asked for before it.
pub open spec fn is_cleanup_run(start: Cleanup, events: Seq<CleanupEvent>) -> bool {
    forall|i: int|
        0 <= i < events.len() ==> cleanup_after(start, events.take(i)).expects(#[trigger] events[i])
}

spec fn cleanup_came_by(start: Cleanup, events: Seq<CleanupEvent>, now: Cleanup) -> bool {
    let n = events.len() as int;
    let k = if start is Resetting {
        1int
    } else {
        0
    };
    &&& n > 0 && start is Resetting ==> events[0] is ResetEnded
    &&& n > k ==> events[k] is RepositoryFound
    &&& match now {
        Cleanup::Resetting => n == 0 && start is Resetting,
        Cleanup::FindingRepository => n == k,
        Cleanup::DeletingRef(repository) => n == k + 1 && events[k]
            == CleanupEvent::RepositoryFound(Ok(repository)),
        Cleanup::DeletingRecord => if n == k + 1 {
            events[k]->RepositoryFound_0 is Err
        } else {
            n == k + 2 && events[k]->RepositoryFound_0 is Ok && events[k + 1] is RefDeleted
        },
        Cleanup::Finished => events.last() is RecordDeleted && if n == k + 2 {
            events[k]->RepositoryFound_0 is Err
        } else {
            n == k + 3 && events[k]->RepositoryFound_0 is Ok && events[k + 1] is RefDeleted
        },
    }
}

proof fn cleanup_comes_by(start: Cleanup, events: Seq<CleanupEvent>)
    requires
        start is Resetting || start is FindingRepository,
        is_cleanup_run(start, events),
    ensures
        cleanup_came_by(start, events, cleanup_after(start, events)),
    decreases events.len(),
{
    if events.len() > 0 {
        let before = events.drop_last();
        assert(events.take(events.len() - 1) =~= before);
        assert forall|i: int| 0 <= i < before.len() implies cleanup_after(
            start,
            before.take(i),
        ).expects(#[trigger] before[i]) by {
            assert(before.take(i) =~= events.take(i));
            assert(before[i] == events[i]);
        }
        cleanup_comes_by(start, before);
        assert(cleanup_after(start, before).expects(events[events.len() - 1]));
    }
}

/// A cleanup that has come to its end has reset the branch where it could, has deleted the
/// reference through the main repository wherever that was found, and has deleted the record, each
/// once and in this order, whatever of it failed.
pub proof fn cleanup_wipes_out_every_trace(start: Cleanup, events: Seq<CleanupEvent>)
    requires
        start is Resetting || start is FindingRepository,
        is_cleanup_run(start, events),
        cleanup_after(start, events) is Finished,
    ensures
        ({
            let at = if start is Resetting {
                1int
            } else {
                0
            };
            &&& start is Resetting ==> events[0] is ResetEnded
            &&& events[at] matches CleanupEvent::RepositoryFound(found) && match found {
                Ok(repository) => {
                    &&& events.len() == at + 3
                    &&& cleanup_after(start, events.take(at + 1)) == Cleanup::DeletingRef(
                        repository,
                    )
                    &&& events[at + 1] is RefDeleted
                },
                Err(_) => events.len() == at + 2,
            }
            &&& events.last() is RecordDeleted
        }),
{
    cleanup_comes_by(start, events);
    let at = if start is Resetting {
        1int
    } else {
        0
    };
    let part = events.take(at + 1);
    assert forall|i: int| 0 <= i < part.len() implies cleanup_after(start, part.take(i)).expects(
        #[trigger] part[i],
    ) by {
        assert(part.take(i) =~= events.take(i));
        assert(part[i] == events[i]);
    }
    cleanup_comes_by(start, part);
    assert(part[at] == events[at]);
}

impl World {
    /// Whether the world may have become `later` while it did what a cleanup asked of it.
    pub open spec fn wipes(self, action: CleanupAction, later: World) -> bool {
        match action {
            CleanupAction::Reset { revision, mode, .. } => {
                &&& later == (World { commits: later.commits, index: later.index, ..self })
                &&& forall|commit: Seq<char>| #[trigger]
                    (commit + "~1"@) == revision@ ==> later.commits == self.commits.take(
                        self.commits.index_of(commit),
                    )
                &&& later.index == (match mode {
                    ResetMode::Mixed => self.trees[later.commits.last()],
                    ResetMode::Soft => self.index,
                })
            },
            CleanupAction::DeleteRef { name, .. } => later == (World {
                refs: self.refs.remove(name@),
                ..self
            }),
            CleanupAction::DeleteRecord { record } => later == (World {
                records: self.records.remove(record),
                ..self
            }),
            _ => later == self,
        }
    }
}

/// What a rollback asks for, done step by step right after a state was kept, gives the branch and
/// the records from before, leaves the files alone and stages nothing but what is in the commit
/// from before.
pub proof fn rollback_actions_undo_persist(
    world: World,
    exchanges: Seq<Exchange>,
    root: RootPlan,
    found: RepositoryId,
    actions: Seq<CleanupAction>,
    worlds: Seq<World>,
)
    requires
        is_run(world, exchanges),
        takes_back_everything(exchanges),
        persist_after(exchanges) matches Persist::Finished(Ok(_)),
        actions.len() == 4,
        worlds.len() == 5,
        worlds[0] == world_after(world, exchanges),
        ({
            let outcome = persist_after(exchanges)->Finished_0->Ok_0;
            &&& actions[0].rolls_back(Cleanup::Resetting, outcome, root)
            &&& actions[1].rolls_back(Cleanup::FindingRepository, outcome, root)
            &&& actions[2].rolls_back(Cleanup::DeletingRef(found), outcome, root)
            &&& actions[3].rolls_back(Cleanup::DeletingRecord, outcome, root)
        }),
        worlds[0].wipes(actions[0], worlds[1]),
        worlds[1].wipes(actions[1], worlds[2]),
        worlds[2].wipes(actions[2], worlds[3]),
        worlds[3].wipes(actions[3], worlds[4]),
    ensures
        worlds[4].commits == world.commits,
        worlds[4].records == world.records,
        worlds[4].files == world.files,
        worlds[4].index == worlds[4].trees[worlds[4].commits.last()],
        !worlds[4].refs.contains_key(
            archived_ref(persist_after(exchanges)->Finished_0->Ok_0.archived_worktree_id as int),
        ),
        worlds[4].links == worlds[0].links,
        actions[0] matches CleanupAction::Reset { repository, .. } && repository
            == root.worktree_repo->0,
        actions[2] matches CleanupAction::DeleteRef { repository, .. } && repository == found,
        worlds[4] == rolled_back(worlds[0], persist_after(exchanges)->Finished_0->Ok_0),
{
    let outcome = persist_after(exchanges)->Finished_0->Ok_0;
    run_is_described(world, exchanges);
    rollback_undoes_persist(world, exchanges);
    if let CleanupAction::Reset { revision, .. } = actions[0] {
        assert((outcome.staged_commit_hash@ + "~1"@) == revision@);
    }
    assert(worlds[1].commits == worlds[0].reset_to(
        ResetTarget::ParentOf(outcome.staged_commit_hash),
    ));
}

} // verus!
