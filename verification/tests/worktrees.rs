use zed_core::undo::WorktreeId;
use zed_core::worktree_archive;
use zed_core::worktree_archive::{
    AffectedProject, ProjectId, Repository, RepositoryId, RootPlan, Thread, Window, WindowId,
    Workspace, WorkspaceId, Worktree,
};
use zed_core::worktree_persist;
use zed_core::worktree_persist::{
    Cleanup, CleanupAction, CleanupEvent, HeadRead, Persist, PersistAction, PersistError,
    PersistEvent, PersistOutcome, ResetMode, ResetTarget, WipCommit,
};
use zed_core::worktree_removal;
use zed_core::worktree_removal::{
    Lookup, LookupError, LookupEvent, LookupPurpose, Removal, RemovalAction, RemovalError,
    RemovalEvent, Reply,
};
use zed_core::worktree_restore;
use zed_core::worktree_restore::{
    ArchivedGitWorktree, PathCheck, Restore, RestoreAction, RestoreError, RestoreEvent,
};

const WORKTREE: RepositoryId = RepositoryId(2);
const MAIN: RepositoryId = RepositoryId(1);

fn root() -> RootPlan {
    RootPlan {
        root_path: "/trees/feature".to_owned(),
        main_repo_path: "/repo".to_owned(),
        affected_projects: vec![
            AffectedProject { project: ProjectId(1), worktree_id: WorktreeId(10) },
            AffectedProject { project: ProjectId(2), worktree_id: WorktreeId(20) },
        ],
        worktree_repo: Some(WORKTREE),
        branch_name: Some("feature".to_owned()),
    }
}

fn row() -> ArchivedGitWorktree {
    ArchivedGitWorktree {
        id: 7,
        worktree_path: "/trees/feature".to_owned(),
        main_repo_path: "/repo".to_owned(),
        branch_name: Some("feature".to_owned()),
        staged_commit_hash: "staged".to_owned(),
        unstaged_commit_hash: "unstaged".to_owned(),
        original_commit_hash: "original".to_owned(),
    }
}

fn repository(id: u64, directory: &str, original: &str, linked: bool) -> Repository {
    Repository {
        id: RepositoryId(id),
        work_directory_abs_path: directory.to_owned(),
        original_repo_abs_path: original.to_owned(),
        is_linked_worktree: linked,
        branch: Some("feature".to_owned()),
    }
}

fn workspace(id: u64, roots: &[&str], repositories: Vec<Repository>) -> Workspace {
    Workspace {
        id: WorkspaceId(id),
        project: ProjectId(id),
        root_paths: roots.iter().map(|path| (*path).to_owned()).collect(),
        path_list: roots.iter().map(|path| (*path).to_owned()).collect(),
        visible_worktrees: roots
            .iter()
            .enumerate()
            .map(|(at, path)| Worktree {
                id: WorktreeId(id as usize * 10 + at),
                abs_path: (*path).to_owned(),
            })
            .collect(),
        repositories,
    }
}

/// A repository in which a file has one content in the commits, in the index and on disk.
struct Git {
    commits: Vec<(String, String)>,
    index: String,
    disk: String,
    records: Vec<i64>,
    links: Vec<(String, i64)>,
    refs: Vec<(String, String)>,
    fail_at: Option<usize>,
    requests: usize,
}

impl Git {
    fn new(fail_at: Option<usize>) -> Git {
        Git {
            commits: vec![("original".to_owned(), "old".to_owned())],
            index: "in index".to_owned(),
            disk: "on disk".to_owned(),
            records: Vec::new(),
            links: Vec::new(),
            refs: Vec::new(),
            fail_at,
            requests: 0,
        }
    }

    fn head(&self) -> String {
        self.commits.last().expect("a commit").0.clone()
    }

    fn reset(&mut self, revision: &str, mode: ResetMode) {
        let before = match revision.strip_suffix("~1") {
            Some("HEAD") => self.commits.len() - 1,
            Some(commit) => {
                self.commits.iter().position(|(hash, _)| hash == commit).expect("the commit")
            }
            None => {
                self.commits.iter().position(|(hash, _)| hash == revision).expect("the commit") + 1
            }
        };
        self.commits.truncate(before);
        if mode == ResetMode::Mixed {
            self.index = self.commits.last().expect("a commit").1.clone();
        }
    }

    fn answer(&mut self, action: PersistAction) -> PersistEvent {
        let fails = self.fail_at == Some(self.requests);
        self.requests += 1;
        match action {
            PersistAction::ReadHead { repository } => {
                assert_eq!(repository, WORKTREE);
                if fails {
                    PersistEvent::HeadRead(Reply::Done(None))
                } else {
                    PersistEvent::HeadRead(Reply::Done(Some(self.head())))
                }
            }
            PersistAction::Commit { message, allow_empty, .. } => {
                assert!(allow_empty);
                if fails {
                    return PersistEvent::Committed(Reply::Canceled);
                }
                let hash = match message.as_str() {
                    "WIP staged" => "staged",
                    "WIP unstaged" => "unstaged",
                    other => panic!("unexpected message {other}"),
                };
                self.commits.push((hash.to_owned(), self.index.clone()));
                PersistEvent::Committed(Reply::Done(()))
            }
            PersistAction::StageAllIncludingUntracked { .. } => {
                if fails {
                    return PersistEvent::AllStaged(Reply::Failed("lock".to_owned()));
                }
                self.index = self.disk.clone();
                PersistEvent::AllStaged(Reply::Done(()))
            }
            PersistAction::CreateRecord {
                worktree_path,
                main_repo_path,
                branch_name,
                staged_commit_hash,
                unstaged_commit_hash,
                original_commit_hash,
            } => {
                assert_eq!(worktree_path, "/trees/feature");
                assert_eq!(main_repo_path, "/repo");
                assert_eq!(branch_name.as_deref(), Some("feature"));
                assert_eq!(staged_commit_hash, "staged");
                assert_eq!(unstaged_commit_hash, "unstaged");
                assert_eq!(original_commit_hash, "original");
                if fails {
                    return PersistEvent::RecordCreated(Err("db".to_owned()));
                }
                self.records.push(7);
                PersistEvent::RecordCreated(Ok(7))
            }
            PersistAction::ListThreads { folder_paths } => {
                assert_eq!(folder_paths, ["/trees/feature", "/repo"]);
                PersistEvent::ThreadsListed(vec!["one".to_owned(), "two".to_owned()])
            }
            PersistAction::LinkThread { session_id, record } => {
                if fails {
                    return PersistEvent::ThreadLinked(Err("db".to_owned()));
                }
                self.links.push((session_id, record));
                PersistEvent::ThreadLinked(Ok(()))
            }
            PersistAction::DeleteRecord { record } => {
                self.records.retain(|known| *known != record);
                PersistEvent::RecordDeleted(Ok(()))
            }
            PersistAction::Reset { revision, mode, .. } => {
                self.reset(&revision, mode);
                PersistEvent::ResetEnded(Reply::Done(()))
            }
            PersistAction::FindRepository { path } => {
                assert_eq!(path, "/repo");
                if fails {
                    return PersistEvent::RepositoryFound(Err(LookupError::NoAppState));
                }
                PersistEvent::RepositoryFound(Ok(MAIN))
            }
            PersistAction::UpdateRef { repository, name, commit } => {
                assert_eq!(repository, MAIN);
                if fails {
                    return PersistEvent::RefUpdated(Reply::Canceled);
                }
                self.refs.push((name, commit));
                PersistEvent::RefUpdated(Reply::Done(()))
            }
            PersistAction::Finish => panic!("nothing to do"),
        }
    }

    fn persist(&mut self) -> Result<PersistOutcome, PersistError> {
        let plan = root();
        let folders = vec!["/trees/feature".to_owned(), "/repo".to_owned()];
        let mut persist = worktree_persist::persist_worktree_state(&plan);
        loop {
            if let Persist::Finished(result) = persist {
                return result;
            }
            let event = self.answer(persist.action(&plan, &folders));
            persist = persist.advance(event);
        }
    }
}

#[test]
fn archived_worktree_has_a_ref_of_its_own() {
    assert_eq!(worktree_archive::archived_worktree_ref_name(42), "refs/archived-worktrees/42");
    assert_eq!(worktree_archive::archived_worktree_ref_name(-3), "refs/archived-worktrees/-3");
    assert_eq!(
        worktree_archive::archived_worktree_ref_name(i64::MIN),
        "refs/archived-worktrees/-9223372036854775808"
    );
    assert_eq!(worktree_archive::archived_worktree_ref_name(0), "refs/archived-worktrees/0");
}

#[test]
fn archived_worktrees_share_no_ref() {
    let ids = [0, 1, -1, 10, 11, 101, i64::MIN, i64::MAX];
    let names: Vec<String> =
        ids.iter().map(|id| worktree_archive::archived_worktree_ref_name(*id)).collect();
    for (at, name) in names.iter().enumerate() {
        assert!(!names[..at].contains(name));
    }
}

#[test]
fn plan_is_made_for_linked_worktrees_only() {
    let first = workspace(
        1,
        &["/trees/feature", "/repo"],
        vec![
            repository(1, "/repo", "/repo", false),
            repository(2, "/trees/feature", "/repo", true),
        ],
    );
    let second = workspace(2, &["/trees/feature"], Vec::new());
    let third = workspace(3, &["/elsewhere"], Vec::new());
    let open = vec![&first, &second, &third];
    let plan = worktree_archive::build_root_plan("/trees/feature", &open).expect("a plan");
    assert_eq!(plan.root_path, "/trees/feature");
    assert_eq!(plan.main_repo_path, "/repo");
    assert_eq!(plan.worktree_repo, Some(RepositoryId(2)));
    assert_eq!(plan.branch_name.as_deref(), Some("feature"));
    assert_eq!(
        plan.affected_projects,
        vec![
            AffectedProject { project: ProjectId(1), worktree_id: WorktreeId(10) },
            AffectedProject { project: ProjectId(2), worktree_id: WorktreeId(20) },
        ]
    );
    assert!(worktree_archive::build_root_plan("/repo", &open).is_none());
    assert!(worktree_archive::build_root_plan("/elsewhere", &open).is_none());
}

#[test]
fn worktree_is_kept_for_other_threads() {
    let thread = |session: &str, archived: bool, paths: &[&str]| Thread {
        session_id: session.to_owned(),
        archived,
        folder_paths: paths.iter().map(|path| (*path).to_owned()).collect(),
        ordered_paths: paths.iter().map(|path| (*path).to_owned()).collect(),
    };
    let threads =
        vec![thread("one", false, &["/a"]), thread("two", true, &["/b"]), thread("three", false, &["/c"])];
    let referenced = |session: &str, path: &str| {
        worktree_archive::path_is_referenced_by_other_unarchived_threads(session, path, &threads)
    };
    assert!(!referenced("one", "/a"));
    assert!(referenced("two", "/a"));
    assert!(!referenced("one", "/b"));
    assert!(referenced("one", "/c"));
    assert!(!referenced("one", "/d"));
}

#[test]
fn workspaces_of_unreadable_windows_are_left_out() {
    let windows = vec![
        Window { id: WindowId(1), workspaces: Some(vec![workspace(1, &[], Vec::new())]) },
        Window { id: WindowId(2), workspaces: None },
        Window {
            id: WindowId(3),
            workspaces: Some(vec![workspace(2, &[], Vec::new()), workspace(3, &[], Vec::new())]),
        },
    ];
    let ids: Vec<u64> =
        worktree_archive::all_open_workspaces(&windows).iter().map(|found| found.id.0).collect();
    assert_eq!(ids, [1, 2, 3]);
}

#[test]
fn open_repository_is_found_without_a_temporary_project() {
    let open = workspace(1, &["/repo"], vec![repository(5, "/repo", "/repo", false)]);
    let lookup = worktree_removal::find_or_create_repository("/repo", &vec![&open]);
    assert_eq!(lookup, Lookup::Found { repository: RepositoryId(5), temporary_project: None });
    assert_eq!(worktree_removal::current_app_state(&vec![&open]), Some(WorkspaceId(1)));
}

#[test]
fn repository_is_opened_in_a_temporary_project() {
    let open = workspace(1, &["/other"], Vec::new());
    let purpose = LookupPurpose::Archive;
    let mut lookup = worktree_removal::find_or_create_repository("/repo", &vec![&open]);
    assert_eq!(lookup, Lookup::OpenProject { app_state: WorkspaceId(1) });
    lookup = lookup.advance(purpose, "/repo", LookupEvent::ProjectOpened(ProjectId(9)));
    lookup = lookup.advance(purpose, "/repo", LookupEvent::WorktreeAdded(Ok(())));
    lookup = lookup.advance(purpose, "/repo", LookupEvent::Scanned);
    let found = vec![repository(4, "/no", "/no", false), repository(5, "/repo", "/repo", false)];
    lookup = lookup.advance(purpose, "/repo", LookupEvent::Repositories(found));
    assert_eq!(
        lookup,
        Lookup::AwaitBarrier { project: ProjectId(9), repository: RepositoryId(5) }
    );
    lookup = lookup.advance(purpose, "/repo", LookupEvent::BarrierPassed(Reply::Done(())));
    assert_eq!(
        lookup,
        Lookup::Found { repository: RepositoryId(5), temporary_project: Some(ProjectId(9)) }
    );
}

#[test]
fn lookups_fail_for_a_reason() {
    let none: Vec<&Workspace> = Vec::new();
    let lookup = worktree_removal::find_or_create_repository("/repo", &none);
    assert_eq!(lookup, Lookup::Failed(LookupError::NoAppState));
    assert_eq!(
        LookupError::NoAppState.message(),
        "no app state available for temporary project"
    );
    let adding = Lookup::AddWorktree { project: ProjectId(1) };
    assert_eq!(
        adding.advance(
            LookupPurpose::Archive,
            "/repo",
            LookupEvent::WorktreeAdded(Err("denied".to_owned()))
        ),
        Lookup::Failed(LookupError::WorktreeNotCreated("denied".to_owned()))
    );
    for (purpose, message) in [
        (LookupPurpose::Archive, "failed to resolve temporary repository handle"),
        (LookupPurpose::Cleanup, "failed to resolve temporary main repository handle"),
    ] {
        let listing = Lookup::ListRepositories { project: ProjectId(1) };
        let failed = listing.advance(purpose, "/repo", LookupEvent::Repositories(Vec::new()));
        assert_eq!(failed, Lookup::Failed(LookupError::NoRepository(purpose)));
        assert_eq!(LookupError::NoRepository(purpose).message(), message);
    }
    let waiting = Lookup::AwaitBarrier { project: ProjectId(1), repository: RepositoryId(2) };
    assert_eq!(
        waiting.advance(
            LookupPurpose::Archive,
            "/repo",
            LookupEvent::BarrierPassed(Reply::Canceled)
        ),
        Lookup::Failed(LookupError::BarrierCanceled)
    );
    assert_eq!(
        LookupError::BarrierCanceled.message(),
        "temporary repository barrier canceled"
    );
    assert_eq!(LookupError::WorktreeNotCreated("denied".to_owned()).message(), "denied");
}

#[test]
fn worktree_is_removed_once_every_project_let_it_go() {
    let plan = root();
    let mut removal = worktree_removal::remove_root(&plan);
    assert_eq!(removal.action(&plan), RemovalAction::AwaitRelease(plan.affected_projects[0]));
    removal = removal.advance(&plan, RemovalEvent::Released(Ok(())));
    assert_eq!(removal.action(&plan), RemovalAction::AwaitRelease(plan.affected_projects[1]));
    removal = removal.advance(&plan, RemovalEvent::Released(Ok(())));
    assert_eq!(removal.action(&plan), RemovalAction::FindRepository { path: "/repo".to_owned() });
    removal = removal.advance(&plan, RemovalEvent::RepositoryFound(Ok(MAIN)));
    assert_eq!(
        removal.action(&plan),
        RemovalAction::RemoveWorktree {
            repository: MAIN,
            path: "/trees/feature".to_owned(),
            force: false,
        }
    );
    removal = removal.advance(&plan, RemovalEvent::Removed(Reply::Done(())));
    assert_eq!(removal, Removal::Finished(Ok(())));
    assert_eq!(removal.action(&plan), RemovalAction::Finish);
}

#[test]
fn failed_removal_puts_the_worktree_back_everywhere() {
    let plan = root();
    let events = [
        (RemovalEvent::Released(Err("busy".to_owned())), "busy"),
        (
            RemovalEvent::RepositoryFound(Err(LookupError::BarrierCanceled)),
            "temporary repository barrier canceled",
        ),
        (RemovalEvent::Removed(Reply::Canceled), "git worktree removal was canceled"),
        (RemovalEvent::Removed(Reply::Failed("dirty".to_owned())), "dirty"),
    ];
    for (event, message) in events {
        let mut removal = match &event {
            RemovalEvent::Released(_) => worktree_removal::remove_root(&plan),
            RemovalEvent::RepositoryFound(_) => Removal::FindingRepository,
            _ => Removal::Removing(MAIN),
        };
        removal = removal.advance(&plan, event);
        for project in [ProjectId(1), ProjectId(2)] {
            assert_eq!(
                removal.action(&plan),
                RemovalAction::CreateWorktree {
                    project,
                    path: "/trees/feature".to_owned(),
                    visible: true,
                }
            );
            removal = removal.advance(&plan, RemovalEvent::PutBack);
        }
        match removal {
            Removal::Finished(Err(error)) => assert_eq!(error.message(), message),
            other => panic!("unexpected {other:?}"),
        }
    }
}

#[test]
fn worktree_that_no_project_shows_is_removed_at_once() {
    let mut plan = root();
    plan.affected_projects.clear();
    let removal = worktree_removal::remove_root(&plan);
    assert_eq!(removal, Removal::FindingRepository);
    let removal =
        Removal::Removing(MAIN).advance(&plan, RemovalEvent::Removed(Reply::Canceled));
    assert_eq!(removal, Removal::Finished(Err(RemovalError::Canceled)));
}

#[test]
fn state_of_a_worktree_is_kept_in_two_commits() {
    let mut git = Git::new(None);
    let outcome = git.persist().expect("an outcome");
    assert_eq!(
        outcome,
        PersistOutcome { archived_worktree_id: 7, staged_commit_hash: "staged".to_owned() }
    );
    assert_eq!(
        git.commits,
        vec![
            ("original".to_owned(), "old".to_owned()),
            ("staged".to_owned(), "in index".to_owned()),
            ("unstaged".to_owned(), "on disk".to_owned()),
        ]
    );
    assert_eq!(git.records, vec![7]);
    assert_eq!(git.links, vec![("one".to_owned(), 7), ("two".to_owned(), 7)]);
    assert_eq!(
        git.refs,
        vec![("refs/archived-worktrees/7".to_owned(), "unstaged".to_owned())]
    );
}

#[test]
fn failed_archiving_leaves_nothing_behind() {
    for fail_at in 0..10 {
        let mut git = Git::new(Some(fail_at));
        let result = git.persist();
        if fail_at == 7 {
            assert!(result.is_ok());
            continue;
        }
        assert!(result.is_err(), "request {fail_at}");
        assert_eq!(git.commits.len(), 1, "request {fail_at}");
        assert!(git.records.is_empty(), "request {fail_at}");
        assert!(git.refs.is_empty(), "request {fail_at}");
    }
}

#[test]
fn missing_ref_does_not_stop_archiving() {
    for fail_at in [10, 11] {
        let mut git = Git::new(Some(fail_at));
        assert!(git.persist().is_ok());
        assert!(git.refs.is_empty());
        assert_eq!(git.commits.len(), 3);
        assert_eq!(git.records, vec![7]);
    }
}

#[test]
fn worktree_without_a_repository_is_not_archived() {
    let mut plan = root();
    plan.worktree_repo = None;
    assert_eq!(
        worktree_persist::persist_worktree_state(&plan),
        Persist::Finished(Err(PersistError::NoWorktreeRepository))
    );
}

#[test]
fn errors_of_archiving_are_described() {
    let reason = || "reason".to_owned();
    let errors = [
        (PersistError::NoWorktreeRepository, "no worktree repo entity for persistence"),
        (PersistError::HeadCanceled, "head_sha canceled"),
        (
            PersistError::HeadUnreadable(HeadRead::Original, reason()),
            "failed to read original HEAD SHA",
        ),
        (
            PersistError::HeadUnreadable(HeadRead::Staged, reason()),
            "failed to read HEAD SHA after staged commit",
        ),
        (
            PersistError::HeadUnreadable(HeadRead::Unstaged, reason()),
            "failed to read HEAD SHA after WIP commits",
        ),
        (PersistError::NoHead(HeadRead::Original), "HEAD SHA is None before WIP commits"),
        (PersistError::NoHead(HeadRead::Staged), "HEAD SHA is None after staged commit"),
        (PersistError::NoHead(HeadRead::Unstaged), "HEAD SHA is None after WIP commits"),
        (PersistError::CommitCanceled(WipCommit::Staged), "WIP staged commit canceled"),
        (PersistError::CommitCanceled(WipCommit::Unstaged), "WIP unstaged commit canceled"),
        (PersistError::CommitFailed(reason()), "reason"),
        (PersistError::StagingCanceled, "failed to stage all files including untracked"),
        (PersistError::StagingFailed(reason()), "failed to stage all files including untracked"),
        (
            PersistError::RecordNotCreated(reason()),
            "failed to create archived worktree DB record",
        ),
        (PersistError::ThreadNotLinked(reason()), "failed to link thread to archived worktree"),
    ];
    for (error, message) in errors {
        assert_eq!(error.message(), message);
    }
    assert_eq!(WipCommit::Staged.message(), "WIP staged");
    assert_eq!(WipCommit::Unstaged.message(), "WIP unstaged");
    assert_eq!(ResetTarget::HeadParent.to_revision(), "HEAD~1");
    assert_eq!(ResetTarget::ParentOf("abc".to_owned()).to_revision(), "abc~1");
}

#[test]
fn first_head_that_cannot_be_read_ends_archiving() {
    let reading = Persist::ReadingOriginalHead;
    assert_eq!(
        reading.advance(PersistEvent::HeadRead(Reply::Canceled)),
        Persist::Finished(Err(PersistError::HeadCanceled))
    );
    let committing = Persist::CommittingStaged { original: "o".to_owned() };
    assert_eq!(
        committing.advance(PersistEvent::Committed(Reply::Failed("hook".to_owned()))),
        Persist::Finished(Err(PersistError::CommitFailed("hook".to_owned())))
    );
}

#[test]
fn archived_state_can_be_taken_back() {
    let plan = root();
    let mut git = Git::new(None);
    let outcome = git.persist().expect("an outcome");
    let mut cleanup = worktree_persist::rollback_persist(&plan);
    loop {
        let event = match worktree_persist::rollback_action(&cleanup, &outcome, &plan) {
            CleanupAction::Reset { repository, revision, mode } => {
                assert_eq!(repository, WORKTREE);
                git.reset(&revision, mode);
                CleanupEvent::ResetEnded(Reply::Done(()))
            }
            CleanupAction::FindRepository { path } => {
                assert_eq!(path, "/repo");
                CleanupEvent::RepositoryFound(Ok(MAIN))
            }
            CleanupAction::DeleteRef { repository, name } => {
                assert_eq!(repository, MAIN);
                git.refs.retain(|(known, _)| *known != name);
                CleanupEvent::RefDeleted(Reply::Done(()))
            }
            CleanupAction::DeleteRecord { record } => {
                git.records.retain(|known| *known != record);
                CleanupEvent::RecordDeleted(Ok(()))
            }
            CleanupAction::Finish => break,
        };
        cleanup = cleanup.advance(event);
    }
    assert_eq!(git.head(), "original");
    assert!(git.records.is_empty());
    assert!(git.refs.is_empty());
}

#[test]
fn record_is_deleted_even_without_a_repository() {
    let cleanup = worktree_restore::cleanup_archived_worktree_record();
    assert_eq!(
        worktree_restore::cleanup_action(&cleanup, &row()),
        CleanupAction::FindRepository { path: "/repo".to_owned() }
    );
    let cleanup = cleanup.advance(CleanupEvent::RepositoryFound(Err(LookupError::NoAppState)));
    assert_eq!(
        worktree_restore::cleanup_action(&cleanup, &row()),
        CleanupAction::DeleteRecord { record: 7 }
    );
    let cleanup = cleanup.advance(CleanupEvent::RecordDeleted(Err("db".to_owned())));
    assert_eq!(cleanup, Cleanup::Finished);
    let deleting = Cleanup::DeletingRef(MAIN);
    assert_eq!(
        worktree_restore::cleanup_action(&deleting, &row()),
        CleanupAction::DeleteRef {
            repository: MAIN,
            name: "refs/archived-worktrees/7".to_owned(),
        }
    );
    assert_eq!(
        deleting.advance(CleanupEvent::RefDeleted(Reply::Canceled)),
        Cleanup::DeletingRecord
    );
}

/// Restores the archived worktree with a branch that has stayed or has moved.
fn restore(branch_head: Option<&str>, fail_reset: bool) -> (Git, Vec<String>, Restore) {
    let row = row();
    let mut git = Git::new(None);
    git.persist().expect("an outcome");
    let mut log: Vec<String> = Vec::new();
    let mut on_branch = false;
    let mut restore = worktree_restore::restore_worktree_via_git();
    loop {
        let event = match restore.action(&row) {
            RestoreAction::FindRepository { path } => {
                RestoreEvent::RepositoryFound(Ok(if path == "/repo" { MAIN } else { WORKTREE }))
            }
            RestoreAction::CheckPath { path } => {
                assert_eq!(path, "/trees/feature");
                RestoreEvent::PathChecked(PathCheck::Missing)
            }
            RestoreAction::ResolveWorktree { .. } => RestoreEvent::WorktreeResolved(false),
            RestoreAction::RepairWorktrees { .. } => RestoreEvent::Repaired(Reply::Done(())),
            RestoreAction::CreateWorktreeDetached { repository, path, commit } => {
                assert_eq!(repository, MAIN);
                assert_eq!(path, "/trees/feature");
                assert_eq!(commit, "unstaged");
                git.index = "on disk".to_owned();
                git.disk = "on disk".to_owned();
                RestoreEvent::Created(Reply::Done(()))
            }
            RestoreAction::Reset { commit, mode, .. } => {
                log.push(format!("reset {commit} {mode:?}"));
                if fail_reset && log.len() == 1 {
                    RestoreEvent::ResetEnded(Reply::Failed("no".to_owned()))
                } else {
                    git.reset(&commit, mode);
                    RestoreEvent::ResetEnded(Reply::Done(()))
                }
            }
            RestoreAction::ReadHead { .. } => {
                let head = match branch_head {
                    Some(head) if on_branch => head.to_owned(),
                    _ => git.head(),
                };
                RestoreEvent::HeadRead(Reply::Done(Some(head)))
            }
            RestoreAction::ChangeBranch { branch, .. } => {
                log.push(format!("change {branch}"));
                on_branch = branch_head.is_some();
                RestoreEvent::BranchSwitched(if on_branch {
                    Reply::Done(())
                } else {
                    Reply::Failed("gone".to_owned())
                })
            }
            RestoreAction::CreateBranch { branch, base, .. } => {
                log.push(format!("create {branch} {base:?}"));
                RestoreEvent::BranchCreated(Reply::Done(()))
            }
            RestoreAction::Finish => break,
        };
        restore = restore.advance(&row, event);
    }
    (git, log, restore)
}

#[test]
fn restored_worktree_is_as_it_was_archived() {
    let (git, log, restore) = restore(Some("original"), false);
    assert_eq!(restore, Restore::Finished(Ok("/trees/feature".to_owned())));
    assert_eq!(git.head(), "original");
    assert_eq!(git.index, "in index");
    assert_eq!(git.disk, "on disk");
    assert_eq!(
        log,
        ["reset staged Mixed", "reset original Soft", "change feature"]
    );
}

#[test]
fn branch_that_is_gone_is_made_again() {
    let (git, log, restore) = restore(None, false);
    assert_eq!(restore, Restore::Finished(Ok("/trees/feature".to_owned())));
    assert_eq!(git.head(), "original");
    assert_eq!(log.last().map(|line| line.as_str()), Some("create feature None"));
}

#[test]
fn failed_reset_goes_straight_to_the_original_commit() {
    let (git, log, restore) = restore(Some("original"), true);
    assert_eq!(restore, Restore::Finished(Ok("/trees/feature".to_owned())));
    assert_eq!(git.head(), "original");
    assert_eq!(&log[..2], ["reset staged Mixed", "reset original Mixed"]);
}

#[test]
fn worktree_that_is_still_there_is_used() {
    let row = row();
    let checking = Restore::CheckingPath { main: MAIN };
    let resolving = checking.advance(&row, RestoreEvent::PathChecked(PathCheck::Exists));
    assert_eq!(
        resolving.action(&row),
        RestoreAction::ResolveWorktree { path: "/trees/feature".to_owned() }
    );
    assert_eq!(
        resolving.advance(&row, RestoreEvent::WorktreeResolved(true)),
        Restore::Finished(Ok("/trees/feature".to_owned()))
    );
    let resolving = Restore::ResolvingWorktree { main: MAIN };
    let repairing = resolving.advance(&row, RestoreEvent::WorktreeResolved(false));
    assert_eq!(repairing.action(&row), RestoreAction::RepairWorktrees { repository: MAIN });
    assert_eq!(
        repairing.advance(&row, RestoreEvent::Repaired(Reply::Done(()))),
        Restore::FindingWorktreeRepository
    );
}

#[test]
fn restoring_fails_for_a_reason() {
    let row = row();
    let reason = || "reason".to_owned();
    let cases: Vec<(Restore, RestoreEvent, &str)> = vec![
        (
            Restore::FindingMainRepository,
            RestoreEvent::RepositoryFound(Err(LookupError::NoAppState)),
            "no app state available for temporary project",
        ),
        (
            Restore::CheckingPath { main: MAIN },
            RestoreEvent::PathChecked(PathCheck::NoAppState),
            "no app state available",
        ),
        (
            Restore::CheckingPath { main: MAIN },
            RestoreEvent::PathChecked(PathCheck::Unreadable(reason())),
            "reason",
        ),
        (
            Restore::Repairing { main: MAIN },
            RestoreEvent::Repaired(Reply::Canceled),
            "worktree repair was canceled",
        ),
        (
            Restore::Repairing { main: MAIN },
            RestoreEvent::Repaired(Reply::Failed(reason())),
            "failed to repair worktrees",
        ),
        (
            Restore::Creating { main: MAIN },
            RestoreEvent::Created(Reply::Canceled),
            "worktree creation was canceled",
        ),
        (
            Restore::Creating { main: MAIN },
            RestoreEvent::Created(Reply::Failed(reason())),
            "failed to create worktree",
        ),
        (
            Restore::FallingBack { repository: WORKTREE },
            RestoreEvent::ResetEnded(Reply::Canceled),
            "fallback reset to original commit original was canceled",
        ),
        (
            Restore::FallingBack { repository: WORKTREE },
            RestoreEvent::ResetEnded(Reply::Failed(reason())),
            "fallback reset to original commit original also failed",
        ),
        (
            Restore::ReadingHead { repository: WORKTREE },
            RestoreEvent::HeadRead(Reply::Canceled),
            "post-restore head_sha was canceled",
        ),
        (
            Restore::ReadingHead { repository: WORKTREE },
            RestoreEvent::HeadRead(Reply::Failed(reason())),
            "failed to read HEAD after restore",
        ),
        (
            Restore::ReadingHead { repository: WORKTREE },
            RestoreEvent::HeadRead(Reply::Done(None)),
            "HEAD is None after restore",
        ),
        (
            Restore::ReadingHead { repository: WORKTREE },
            RestoreEvent::HeadRead(Reply::Done(Some("other".to_owned()))),
            "After restore, HEAD is at other but expected original. The worktree may be in an \
             inconsistent state.",
        ),
    ];
    for (state, event, message) in cases {
        match state.advance(&row, event) {
            Restore::Finished(Err(error)) => assert_eq!(error.message(), message),
            other => panic!("unexpected {other:?}"),
        }
    }
    assert_eq!(RestoreError::NoHead.message(), "HEAD is None after restore");
}
