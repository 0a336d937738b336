use zed_core::cleanup_plan;
use zed_core::cleanup_plan::{ArchiveOutcome, CleanupPlan, FallbackTarget, Surroundings};
use zed_core::cleanup_run;
use zed_core::cleanup_run::{
    CleanupPhase, CleanupRun, CleanupRunAction, CleanupRunEvent, FallbackAction, RootFailure,
    SaveRequest, ThreadArchiveCleanupCoordinator, Toast,
};
use zed_core::undo::WorktreeId;
use zed_core::worktree_archive::{
    ProjectId, Repository, RepositoryId, RootPlan, Thread, Window, WindowId, Workspace,
    WorkspaceId, Worktree,
};
use zed_core::worktree_removal::RemovalError;

fn texts(list: &[&str]) -> Vec<String> {
    list.iter().map(|text| (*text).to_owned()).collect()
}

fn thread(session: &str, archived: bool, paths: &[&str]) -> Thread {
    Thread {
        session_id: session.to_owned(),
        archived,
        folder_paths: texts(paths),
        ordered_paths: texts(paths),
    }
}

/// A workspace that shows the given directories, of which those under `/trees` are linked
/// worktrees of `/repo`.
fn workspace(id: u64, roots: &[&str]) -> Workspace {
    Workspace {
        id: WorkspaceId(id),
        project: ProjectId(id),
        root_paths: texts(roots),
        path_list: texts(roots),
        visible_worktrees: roots
            .iter()
            .enumerate()
            .map(|(at, path)| Worktree { id: WorktreeId(at), abs_path: (*path).to_owned() })
            .collect(),
        repositories: roots
            .iter()
            .enumerate()
            .map(|(at, path)| Repository {
                id: RepositoryId(id * 10 + at as u64),
                work_directory_abs_path: (*path).to_owned(),
                original_repo_abs_path: "/repo".to_owned(),
                is_linked_worktree: path.starts_with("/trees"),
                branch: None,
            })
            .collect(),
    }
}

fn window(id: u64, workspaces: Vec<Workspace>) -> Window {
    Window { id: WindowId(id), workspaces: Some(workspaces) }
}

fn root(path: &str) -> RootPlan {
    RootPlan {
        root_path: path.to_owned(),
        main_repo_path: "/repo".to_owned(),
        affected_projects: Vec::new(),
        worktree_repo: None,
        branch_name: None,
    }
}

fn paths(roots: &[RootPlan]) -> Vec<&str> {
    roots.iter().map(|root| root.root_path.as_str()).collect()
}

fn plan(current: Option<u64>, affected: &[u64], roots: &[&str]) -> CleanupPlan {
    CleanupPlan {
        roots: roots.iter().map(|path| root(path)).collect(),
        current_workspace: current.map(WorkspaceId),
        current_workspace_will_be_empty: current.is_some(),
        fallback: current.map(|_| FallbackTarget::OpenEmpty { requesting_window: WindowId(1) }),
        affected_workspaces: affected.iter().map(|id| WorkspaceId(*id)).collect(),
    }
}

fn start(plan: CleanupPlan) -> (CleanupRun, ThreadArchiveCleanupCoordinator) {
    let mut coordinator = ThreadArchiveCleanupCoordinator::default();
    let run = cleanup_run::run_cleanup(plan, &mut coordinator).expect("a cleanup");
    (run, coordinator)
}

#[test]
fn only_what_no_other_thread_needs_can_go() {
    let surroundings = Surroundings {
        threads: vec![
            thread("one", false, &["/trees/a", "/trees/b", "/repo"]),
            thread("two", false, &["/trees/b"]),
            thread("three", true, &["/trees/a"]),
        ],
        windows: vec![window(1, vec![workspace(1, &["/trees/a", "/trees/b", "/repo"])])],
    };
    let plan = cleanup_plan::build_cleanup_plan(
        "one",
        Some(WorkspaceId(1)),
        WindowId(1),
        &surroundings,
    )
    .expect("a plan");
    assert_eq!(paths(&plan.roots), ["/trees/a"]);
    assert_eq!(plan.affected_workspaces, [WorkspaceId(1)]);
    assert!(!plan.current_workspace_will_be_empty);
    assert_eq!(plan.fallback, None);
}

#[test]
fn unknown_threads_leave_nothing_behind() {
    let surroundings = Surroundings { threads: Vec::new(), windows: Vec::new() };
    let (outcome, plan) =
        cleanup_plan::archive_thread("one", None, WindowId(1), &surroundings);
    assert!(plan.is_none());
    assert_eq!(outcome, ArchiveOutcome { archived_immediately: true, roots_to_delete: Vec::new() });
}

#[test]
fn archiving_tells_what_will_be_deleted() {
    let surroundings = Surroundings {
        threads: vec![thread("one", false, &["/trees/a"])],
        windows: vec![window(1, vec![workspace(1, &["/trees/a"]), workspace(2, &["/repo"])])],
    };
    let (outcome, plan) = cleanup_plan::archive_thread(
        "one",
        Some(WorkspaceId(1)),
        WindowId(1),
        &surroundings,
    );
    assert_eq!(outcome.roots_to_delete, ["/trees/a"]);
    let plan = plan.expect("a plan");
    assert!(plan.current_workspace_will_be_empty);
    assert_eq!(
        plan.fallback,
        Some(FallbackTarget::ExistingWorkspace {
            window: WindowId(1),
            workspace: WorkspaceId(2),
        })
    );
}

#[test]
fn user_is_taken_to_the_nearest_workspace_that_stays() {
    let roots = vec![root("/trees/a")];
    let choose = |windows: Vec<Window>| {
        let surroundings = Surroundings {
            threads: vec![thread("one", false, &["/trees/a"])],
            windows,
        };
        cleanup_plan::choose_fallback_target(
            "one",
            Some(WorkspaceId(1)),
            &roots,
            WindowId(1),
            &surroundings,
        )
    };
    assert_eq!(
        choose(vec![
            window(2, vec![workspace(3, &["/repo"])]),
            window(1, vec![workspace(1, &["/trees/a"]), workspace(2, &["/x"])]),
        ]),
        FallbackTarget::ExistingWorkspace { window: WindowId(1), workspace: WorkspaceId(2) }
    );
    assert_eq!(
        choose(vec![
            window(1, vec![workspace(1, &["/trees/a"])]),
            window(2, vec![workspace(2, &["/trees/a"]), workspace(3, &["/repo"])]),
        ]),
        FallbackTarget::ExistingWorkspace { window: WindowId(2), workspace: WorkspaceId(3) }
    );
    assert_eq!(
        choose(vec![window(1, vec![workspace(1, &["/trees/a"])])]),
        FallbackTarget::OpenPaths { requesting_window: WindowId(1), path: "/repo".to_owned() }
    );
}

#[test]
fn nowhere_to_go_but_an_empty_workspace() {
    let surroundings = Surroundings { threads: Vec::new(), windows: Vec::new() };
    assert_eq!(
        cleanup_plan::choose_fallback_target("one", None, &Vec::new(), WindowId(1), &surroundings),
        FallbackTarget::OpenEmpty { requesting_window: WindowId(1) }
    );
}

#[test]
fn workspaces_survive_with_a_directory_that_stays() {
    let roots = vec![root("/trees/a")];
    assert!(!cleanup_plan::workspace_survives(&workspace(1, &["/trees/a"]), &roots));
    assert!(cleanup_plan::workspace_survives(&workspace(1, &["/trees/a", "/b"]), &roots));
    assert!(!cleanup_plan::workspace_survives(&workspace(1, &[]), &roots));
    let windows = vec![
        Window { id: WindowId(1), workspaces: None },
        window(2, vec![workspace(5, &[])]),
    ];
    assert_eq!(
        cleanup_plan::window_for_workspace(WorkspaceId(5), &windows),
        Some(WindowId(2))
    );
    assert_eq!(cleanup_plan::window_for_workspace(WorkspaceId(6), &windows), None);
}

#[test]
fn worktrees_are_claimed_by_one_cleanup_at_a_time() {
    let mut coordinator = ThreadArchiveCleanupCoordinator::default();
    let first = coordinator.claim(vec![root("/a"), root("/b"), root("/a")]);
    assert_eq!(paths(&first), ["/a", "/b"]);
    let second = coordinator.claim(vec![root("/b"), root("/c")]);
    assert_eq!(paths(&second), ["/c"]);
    coordinator.release_in_flight_roots(&first);
    let third = coordinator.claim(vec![root("/a"), root("/c")]);
    assert_eq!(paths(&third), ["/a"]);
}

#[test]
fn nothing_runs_where_others_have_everything() {
    let mut coordinator = ThreadArchiveCleanupCoordinator::default();
    coordinator.claim(vec![root("/a")]);
    assert!(cleanup_run::run_cleanup(plan(None, &[], &["/a"]), &mut coordinator).is_none());
}

#[test]
fn cleanup_saves_moves_and_removes_in_that_order() {
    let (mut run, _) = start(plan(Some(1), &[1, 2], &["/a", "/b"]));
    assert_eq!(run.action(), CleanupRunAction::FindWindow(WorkspaceId(1)));
    run.advance(CleanupRunEvent::WindowFound(Some(WindowId(1))));
    assert_eq!(run.action(), CleanupRunAction::Save(WorkspaceId(1), WindowId(1)));
    run.advance(CleanupRunEvent::Saved(true));
    assert_eq!(run.action(), CleanupRunAction::FindWindow(WorkspaceId(2)));
    run.advance(CleanupRunEvent::WindowFound(None));
    assert_eq!(run.action(), CleanupRunAction::ActivateFallback);
    run.advance(CleanupRunEvent::FallbackActivated);
    assert_eq!(run.action(), CleanupRunAction::RemoveRoot(0));
    run.advance(CleanupRunEvent::RootRemoved(Ok(())));
    assert_eq!(run.action(), CleanupRunAction::RemoveRoot(1));
    run.advance(CleanupRunEvent::RootRemoved(Err(RemovalError::Canceled)));
    assert_eq!(run.action(), CleanupRunAction::CheckWorkspace(WorkspaceId(1)));
    run.advance(CleanupRunEvent::WorkspaceChecked { is_empty: true, window: Some(WindowId(1)) });
    assert_eq!(run.action(), CleanupRunAction::RemoveWorkspace(WorkspaceId(1), WindowId(1)));
    run.advance(CleanupRunEvent::WorkspaceRemoved(false));
    assert_eq!(run.action(), CleanupRunAction::RemoveWindow(WindowId(1)));
    run.advance(CleanupRunEvent::WindowRemoved);
    assert_eq!(run.action(), CleanupRunAction::CheckWorkspace(WorkspaceId(2)));
    run.advance(CleanupRunEvent::WorkspaceChecked { is_empty: false, window: Some(WindowId(2)) });
    assert_eq!(run.action(), CleanupRunAction::ShowError);
    assert_eq!(
        run.error_toast(),
        Some(Toast {
            workspace: WorkspaceId(1),
            message: "Thread archived, but linked worktree cleanup failed: /b: git worktree \
                      removal was canceled"
                .to_owned(),
        })
    );
    run.advance(CleanupRunEvent::ErrorShown);
    assert_eq!(run.action(), CleanupRunAction::ReleaseRoots);
    run.advance(CleanupRunEvent::RootsReleased);
    assert_eq!(run.phase, CleanupPhase::Finished);
    assert_eq!(run.action(), CleanupRunAction::Finish);
}

#[test]
fn refused_save_keeps_every_worktree() {
    let (mut run, _) = start(plan(None, &[2], &["/a"]));
    run.advance(CleanupRunEvent::WindowFound(Some(WindowId(1))));
    run.advance(CleanupRunEvent::Saved(false));
    assert_eq!(run.action(), CleanupRunAction::ReleaseRoots);
    let (mut run, _) = start(plan(Some(1), &[1], &["/a"]));
    run.advance(CleanupRunEvent::WindowFound(None));
    assert_eq!(run.action(), CleanupRunAction::ReleaseRoots);
}

#[test]
fn changed_workspaces_are_shown_before_they_are_saved() {
    assert_eq!(
        cleanup_run::save_workspace_for_root_removal(
            WorkspaceId(1),
            WindowId(2),
            &vec![false, true]
        ),
        SaveRequest { workspace: WorkspaceId(1), window: WindowId(2), activate: true }
    );
    assert!(
        !cleanup_run::save_workspace_for_root_removal(WorkspaceId(1), WindowId(2), &vec![false])
            .activate
    );
    assert!(cleanup_run::save_allows_removal(Some(Ok(true))));
    assert!(!cleanup_run::save_allows_removal(Some(Ok(false))));
    assert!(!cleanup_run::save_allows_removal(Some(Err("closed".to_owned()))));
    assert!(!cleanup_run::save_allows_removal(None));
}

#[test]
fn fallback_may_need_an_open_workspace() {
    let existing = || FallbackTarget::ExistingWorkspace {
        window: WindowId(1),
        workspace: WorkspaceId(2),
    };
    assert_eq!(
        cleanup_run::activate_fallback(existing(), None),
        Ok(FallbackAction::Activate { window: WindowId(1), workspace: WorkspaceId(2) })
    );
    let open = || FallbackTarget::OpenPaths {
        requesting_window: WindowId(1),
        path: "/repo".to_owned(),
    };
    assert_eq!(
        cleanup_run::activate_fallback(open(), Some(WorkspaceId(3))),
        Ok(FallbackAction::OpenPaths {
            path: "/repo".to_owned(),
            requesting_window: WindowId(1),
            app_state: WorkspaceId(3),
        })
    );
    assert_eq!(
        cleanup_run::activate_fallback(open(), None),
        Err("no workspace app state available".to_owned())
    );
    let empty = FallbackTarget::OpenEmpty { requesting_window: WindowId(1) };
    assert_eq!(
        cleanup_run::activate_fallback(empty, Some(WorkspaceId(3))),
        Ok(FallbackAction::OpenNew { requesting_window: WindowId(1), app_state: WorkspaceId(3) })
    );
}

#[test]
fn errors_are_shown_where_the_user_is() {
    let toast = |current: Option<u64>, affected: &[u64], detail: &str| {
        cleanup_run::show_error_toast(
            "Oh no",
            detail,
            current.map(WorkspaceId),
            &affected.iter().map(|id| WorkspaceId(*id)).collect(),
        )
    };
    assert_eq!(toast(None, &[], "x"), None);
    assert_eq!(
        toast(None, &[4, 5], ""),
        Some(Toast { workspace: WorkspaceId(4), message: "Oh no".to_owned() })
    );
    assert_eq!(
        toast(Some(1), &[4], "x"),
        Some(Toast { workspace: WorkspaceId(1), message: "Oh no: x".to_owned() })
    );
    let failure =
        RootFailure { path: "/a".to_owned(), error: RemovalError::Failed("dirty".to_owned()) };
    assert_eq!(failure.to_line(), "/a: dirty");
}
