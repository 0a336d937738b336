//! Deciding what an archived thread leaves behind that can go: which worktrees, and where the
//! user is taken when the workspace before their eyes goes with them.

use crate::lists;
use crate::text;
use crate::worktree_archive;
use crate::worktree_archive::{
    all_open_workspaces, build_root_plan, keeps_path, linked_repository,
    path_is_referenced_by_other_unarchived_threads, referents, workspaces_of, RootPlan, Thread,
    Window, WindowId, Workspace, WorkspaceId,
};
use vstd::prelude::*;

verus! {

/// What became of a thread that was archived.
#[derive(Debug, PartialEq, Eq)]
pub struct ArchiveOutcome {
    pub archived_immediately: bool,
    pub roots_to_delete: Vec<String>,
}

/// Where the user is taken when their workspace goes.
#[derive(Clone, Debug, PartialEq, Eq)]
pub enum FallbackTarget {
    ExistingWorkspace { window: WindowId, workspace: WorkspaceId },
    OpenPaths { requesting_window: WindowId, path: String },
    OpenEmpty { requesting_window: WindowId },
}

/// What an archived thread leaves behind that can go.
#[derive(Debug)]
pub struct CleanupPlan {
    pub roots: Vec<RootPlan>,
    pub current_workspace: Option<WorkspaceId>,
    pub current_workspace_will_be_empty: bool,
    pub fallback: Option<FallbackTarget>,
    pub affected_workspaces: Vec<WorkspaceId>,
}

/// The paths of the worktrees to be removed.
pub open spec fn root_paths(roots: Seq<RootPlan>) -> Seq<Seq<char>> {
    Seq::new(roots.len(), |i: int| roots[i].root_path@)
}

impl Workspace {
    /// Whether the workspace shows a directory that stays.
    pub open spec fn survives(self, doomed: Seq<Seq<char>>) -> bool {
        exists|i: int|
            0 <= i < self.root_paths@.len() && !doomed.contains((#[trigger] self.root_paths@[i])@)
    }

    /// Whether the workspace shows a directory that goes.
    pub open spec fn is_affected(self, doomed: Seq<Seq<char>>) -> bool {
        exists|i: int|
            0 <= i < self.root_paths@.len() && doomed.contains((#[trigger] self.root_paths@[i])@)
    }
}

fn is_doomed(roots: &Vec<RootPlan>, path: &str) -> (doomed: bool)
    ensures
        doomed == root_paths(roots@).contains(path@),
{
    let mut at: usize = 0;
    while at < roots.len()
        invariant
            at <= roots@.len(),
            forall|i: int| 0 <= i < at ==> root_paths(roots@)[i] != path@,
        decreases roots@.len() - at,
    {
        if text::same_text(roots[at].root_path.as_str(), path) {
            assert(root_paths(roots@)[at as int] == path@);
            return true;
        }
        at = at + 1;
    }
    false
}

/// Whether the workspace shows a directory that is not about to be removed.
pub fn workspace_survives(workspace: &Workspace, roots: &Vec<RootPlan>) -> (survives: bool)
    ensures
        survives == workspace.survives(root_paths(roots@)),
{
    let mut at: usize = 0;
    while at < workspace.root_paths.len()
        invariant
            at <= workspace.root_paths@.len(),
            forall|i: int|
                0 <= i < at ==> root_paths(roots@).contains((#[trigger] workspace.root_paths@[i])@),
        decreases workspace.root_paths@.len() - at,
    {
        if !is_doomed(roots, workspace.root_paths[at].as_str()) {
            return true;
        }
        at = at + 1;
    }
    false
}

fn workspace_is_affected(workspace: &Workspace, roots: &Vec<RootPlan>) -> (affected: bool)
    ensures
        affected == workspace.is_affected(root_paths(roots@)),
{
    let mut at: usize = 0;
    while at < workspace.root_paths.len()
        invariant
            at <= workspace.root_paths@.len(),
            forall|i: int|
                0 <= i < at ==> !root_paths(roots@).contains((#[trigger] workspace.root_paths@[i])@),
        decreases workspace.root_paths@.len() - at,
    {
        if is_doomed(roots, workspace.root_paths[at].as_str()) {
            return true;
        }
        at = at + 1;
    }
    false
}

/// Says of a window whether it holds the given workspace.
pub open spec fn holds(workspace: WorkspaceId) -> spec_fn(Window) -> bool {
    |window: Window|
        exists|i: int| 0 <= i < window.all().len() && (#[trigger] window.all()[i]).id == workspace
}

fn window_holds(window: &Window, workspace: WorkspaceId) -> (found: bool)
    ensures
        found == holds(workspace)(*window),
{
    match &window.workspaces {
        None => false,
        Some(workspaces) => {
            let mut at: usize = 0;
            while at < workspaces.len()
                invariant
                    at <= workspaces@.len(),
                    window.all() == workspaces@,
                    forall|i: int| 0 <= i < at ==> (#[trigger] workspaces@[i]).id != workspace,
                decreases workspaces@.len() - at,
            {
                if workspaces[at].id == workspace {
                    assert(window.all()[at as int].id == workspace);
                    return true;
                }
                at = at + 1;
            }
            false
        },
    }
}

/// The first window that holds the workspace.
pub fn window_for_workspace(workspace: WorkspaceId, windows: &Vec<Window>) -> (window: Option<
    WindowId,
>)
    ensures
        window == (match lists::first_where(windows@, holds(workspace)) {
            Some(window) => Some(window.id),
            None => None,
        }),
{
    let mut at: usize = 0;
    while at < windows.len()
        invariant
            at <= windows@.len(),
            forall|i: int| 0 <= i < at ==> !holds(workspace)(#[trigger] windows@[i]),
        decreases windows@.len() - at,
    {
        if window_holds(&windows[at], workspace) {
            proof {
                lists::first_where_at(windows@, holds(workspace), at as int);
            }
            return Some(windows[at].id);
        }
        at = at + 1;
    }
    proof {
        lists::first_where_at(windows@, holds(workspace), at as int);
    }
    None
}

/// Says of a workspace whether it is another than the current one and shows a directory that
/// stays.
pub open spec fn survives_beside(current: Option<WorkspaceId>, doomed: Seq<Seq<char>>) -> spec_fn(
    Workspace,
) -> bool {
    |workspace: Workspace| Some(workspace.id) != current && workspace.survives(doomed)
}

fn find_survivor(
    workspaces: &Vec<Workspace>,
    current: Option<WorkspaceId>,
    roots: &Vec<RootPlan>,
) -> (found: Option<WorkspaceId>)
    ensures
        found == (match lists::first_where(
            workspaces@,
            survives_beside(current, root_paths(roots@)),
        ) {
            Some(workspace) => Some(workspace.id),
            None => None,
        }),
{
    let ghost wanted = survives_beside(current, root_paths(roots@));
    let mut at: usize = 0;
    while at < workspaces.len()
        invariant
            at <= workspaces@.len(),
            wanted == survives_beside(current, root_paths(roots@)),
            forall|i: int| 0 <= i < at ==> !wanted(#[trigger] workspaces@[i]),
        decreases workspaces@.len() - at,
    {
        let is_current = match current {
            Some(current) => workspaces[at].id == current,
            None => false,
        };
        if !is_current && workspace_survives(&workspaces[at], roots) {
            proof {
                lists::first_where_at(workspaces@, wanted, at as int);
            }
            return Some(workspaces[at].id);
        }
        at = at + 1;
    }
    proof {
        lists::first_where_at(workspaces@, wanted, at as int);
    }
    None
}

/// Says of a window whether it is the given one.
pub open spec fn is_window(id: WindowId) -> spec_fn(Window) -> bool {
    |window: Window| window.id == id
}

/// Where the user can go without leaving their window: another of its workspaces that stays.
pub open spec fn survivor_in_window(
    windows: Seq<Window>,
    window: WindowId,
    current: Option<WorkspaceId>,
    doomed: Seq<Seq<char>>,
) -> Option<WorkspaceId> {
    match lists::first_where(windows, is_window(window)) {
        Some(window) => match lists::first_where(window.all(), survives_beside(current, doomed)) {
            Some(workspace) => Some(workspace.id),
            None => None,
        },
        None => None,
    }
}

/// Where the user can go in the windows other than the given one: the first workspace that
/// stays, in the first window that has one.
pub open spec fn survivor_elsewhere(
    windows: Seq<Window>,
    window: WindowId,
    doomed: Seq<Seq<char>>,
) -> Option<(WindowId, WorkspaceId)>
    decreases windows.len(),
{
    if windows.len() == 0 {
        None
    } else {
        match lists::first_where(windows[0].all(), survives_beside(None, doomed)) {
            Some(workspace) if windows[0].id != window => Some((windows[0].id, workspace.id)),
            _ => survivor_elsewhere(windows.skip(1), window, doomed),
        }
    }
}

/// Says of a workspace whether it shows exactly the folders of the thread.
pub open spec fn shows_folders_of(thread: Thread) -> spec_fn(Workspace) -> bool {
    |workspace: Workspace|
        text::texts(workspace.path_list@) == text::texts(thread.folder_paths@)
}

/// Where the user can go to another thread: the first workspace that shows the folders of a
/// thread that is neither archived nor the current one, and that stays.
pub open spec fn survivor_with_thread(
    threads: Seq<Thread>,
    session: Seq<char>,
    workspaces: Seq<Workspace>,
    doomed: Seq<Seq<char>>,
) -> Option<WorkspaceId>
    decreases threads.len(),
{
    if threads.len() == 0 {
        None
    } else {
        let thread = threads[0];
        match lists::first_where(workspaces, shows_folders_of(thread)) {
            Some(workspace) if thread.session_id@ != session && !thread.archived
                && workspace.survives(doomed) => Some(workspace.id),
            _ => survivor_with_thread(threads.skip(1), session, workspaces, doomed),
        }
    }
}

/// What the outside shows at the time a thread is archived.
#[derive(Debug)]
pub struct Surroundings {
    pub threads: Vec<Thread>,
    pub windows: Vec<Window>,
}

/// Whether `target` is where the user has to be taken: to another workspace in the same window,
/// else to one in another window, else to that of another thread, else to the main repository
/// of the first worktree to be removed.
pub open spec fn is_fallback(
    target: FallbackTarget,
    session: Seq<char>,
    current: Option<WorkspaceId>,
    roots: Seq<RootPlan>,
    window: WindowId,
    surroundings: Surroundings,
) -> bool {
    let doomed = root_paths(roots);
    let windows = surroundings.windows@;
    match survivor_in_window(windows, window, current, doomed) {
        Some(workspace) => target == (FallbackTarget::ExistingWorkspace { window, workspace }),
        None => match survivor_elsewhere(windows, window, doomed) {
            Some((other, workspace)) => target == (FallbackTarget::ExistingWorkspace {
                window: other,
                workspace,
            }),
            None => match survivor_with_thread(
                surroundings.threads@,
                session,
                workspaces_of(windows),
                doomed,
            ) {
                Some(workspace) => target == (FallbackTarget::ExistingWorkspace {
                    window: match lists::first_where(windows, holds(workspace)) {
                        Some(window) => window.id,
                        None => window,
                    },
                    workspace,
                }),
                None => if roots.len() > 0 {
                    target == (FallbackTarget::OpenPaths {
                        requesting_window: window,
                        path: roots[0].main_repo_path,
                    })
                } else {
                    target == (FallbackTarget::OpenEmpty { requesting_window: window })
                },
            },
        },
    }
}

fn find_survivor_in_window(
    windows: &Vec<Window>,
    window: WindowId,
    current: Option<WorkspaceId>,
    roots: &Vec<RootPlan>,
) -> (found: Option<WorkspaceId>)
    ensures
        found == survivor_in_window(windows@, window, current, root_paths(roots@)),
{
    let mut at: usize = 0;
    while at < windows.len()
        invariant
            at <= windows@.len(),
            forall|i: int| 0 <= i < at ==> !is_window(window)(#[trigger] windows@[i]),
        decreases windows@.len() - at,
    {
        if windows[at].id == window {
            proof {
                lists::first_where_at(windows@, is_window(window), at as int);
            }
            return match &windows[at].workspaces {
                Some(workspaces) => find_survivor(workspaces, current, roots),
                None => None,
            };
        }
        at = at + 1;
    }
    proof {
        lists::first_where_at(windows@, is_window(window), at as int);
    }
    None
}

fn find_survivor_elsewhere(windows: &Vec<Window>, window: WindowId, roots: &Vec<RootPlan>) -> (found:
    Option<(WindowId, WorkspaceId)>)
    ensures
        found == survivor_elsewhere(windows@, window, root_paths(roots@)),
{
    let mut at: usize = 0;
    assert(windows@.skip(0) =~= windows@);
    while at < windows.len()
        invariant
            at <= windows@.len(),
            survivor_elsewhere(windows@, window, root_paths(roots@)) == survivor_elsewhere(
                windows@.skip(at as int),
                window,
                root_paths(roots@),
            ),
        decreases windows@.len() - at,
    {
        assert(windows@.skip(at as int).skip(1) =~= windows@.skip(at + 1));
        if windows[at].id != window {
            if let Some(workspaces) = &windows[at].workspaces {
                if let Some(workspace) = find_survivor(workspaces, None, roots) {
                    return Some((windows[at].id, workspace));
                }
            }
        }
        at = at + 1;
    }
    None
}

fn find_workspace_of_thread<'a>(thread: &Thread, workspaces: &Vec<&'a Workspace>) -> (found: Option<
    &'a Workspace,
>)
    ensures
        found == (match lists::first_where(referents(workspaces@), shows_folders_of(*thread)) {
            Some(workspace) => Some(&workspace),
            None => None,
        }),
{
    let ghost all = referents(workspaces@);
    let mut at: usize = 0;
    while at < workspaces.len()
        invariant
            at <= workspaces@.len(),
            all == referents(workspaces@),
            forall|i: int| 0 <= i < at ==> !shows_folders_of(*thread)(#[trigger] all[i]),
        decreases workspaces@.len() - at,
    {
        if text::same_texts(&workspaces[at].path_list, &thread.folder_paths) {
            proof {
                lists::first_where_at(all, shows_folders_of(*thread), at as int);
            }
            return Some(workspaces[at]);
        }
        at = at + 1;
    }
    proof {
        lists::first_where_at(all, shows_folders_of(*thread), at as int);
    }
    None
}

fn find_survivor_with_thread(
    threads: &Vec<Thread>,
    session: &str,
    workspaces: &Vec<&Workspace>,
    roots: &Vec<RootPlan>,
) -> (found: Option<WorkspaceId>)
    ensures
        found == survivor_with_thread(
            threads@,
            session@,
            referents(workspaces@),
            root_paths(roots@),
        ),
{
    let mut at: usize = 0;
    assert(threads@.skip(0) =~= threads@);
    while at < threads.len()
        invariant
            at <= threads@.len(),
            survivor_with_thread(
                threads@,
                session@,
                referents(workspaces@),
                root_paths(roots@),
            ) == survivor_with_thread(
                threads@.skip(at as int),
                session@,
                referents(workspaces@),
                root_paths(roots@),
            ),
        decreases threads@.len() - at,
    {
        assert(threads@.skip(at as int).skip(1) =~= threads@.skip(at + 1));
        let thread = &threads[at];
        if !text::same_text(thread.session_id.as_str(), session) && !thread.archived {
            if let Some(workspace) = find_workspace_of_thread(thread, workspaces) {
                if workspace_survives(workspace, roots) {
                    return Some(workspace.id);
                }
            }
        }
        at = at + 1;
    }
    None
}

/// Where the user is taken when their workspace goes.
pub fn choose_fallback_target(
    current_session_id: &str,
    current_workspace: Option<WorkspaceId>,
    roots: &Vec<RootPlan>,
    requesting_window: WindowId,
    surroundings: &Surroundings,
) -> (target: FallbackTarget)
    ensures
        is_fallback(
            target,
            current_session_id@,
            current_workspace,
            roots@,
            requesting_window,
            *surroundings,
        ),
{
    if let Some(workspace) = find_survivor_in_window(
        &surroundings.windows,
        requesting_window,
        current_workspace,
        roots,
    ) {
        return FallbackTarget::ExistingWorkspace { window: requesting_window, workspace };
    }
    if let Some((window, workspace)) = find_survivor_elsewhere(
        &surroundings.windows,
        requesting_window,
        roots,
    ) {
        return FallbackTarget::ExistingWorkspace { window, workspace };
    }
    let workspaces = all_open_workspaces(&surroundings.windows);
    if let Some(workspace) = find_survivor_with_thread(
        &surroundings.threads,
        current_session_id,
        &workspaces,
        roots,
    ) {
        let window = match window_for_workspace(workspace, &surroundings.windows) {
            Some(window) => window,
            None => requesting_window,
        };
        return FallbackTarget::ExistingWorkspace { window, workspace };
    }
    if roots.len() > 0 {
        FallbackTarget::OpenPaths { requesting_window, path: roots[0].main_repo_path.clone() }
    } else {
        FallbackTarget::OpenEmpty { requesting_window }
    }
}

/// Says of a thread whether it has the given id.
pub open spec fn is_thread(session: Seq<char>) -> spec_fn(Thread) -> bool {
    |thread: Thread| thread.session_id@ == session
}

/// Whether the directory at `path` can go with the thread: it is a linked worktree, and no other
/// thread that is not archived needs it.
pub open spec fn can_go(path: Seq<char>, session: Seq<char>, surroundings: Surroundings) -> bool {
    &&& linked_repository(path, workspaces_of(surroundings.windows@)) is Some
    &&& !lists::any_where(surroundings.threads@, keeps_path(session, path))
}

/// The directories that can go with the thread, in the order of its folders.
pub open spec fn paths_that_go(
    paths: Seq<String>,
    session: Seq<char>,
    surroundings: Surroundings,
) -> Seq<Seq<char>>
    decreases paths.len(),
{
    if paths.len() == 0 {
        Seq::empty()
    } else {
        let others = paths_that_go(paths.drop_last(), session, surroundings);
        if can_go(paths.last()@, session, surroundings) {
            others.push(paths.last()@)
        } else {
            others
        }
    }
}

/// Whether each plan is the one for the directory at its path.
pub open spec fn are_plans(roots: Seq<RootPlan>, workspaces: Seq<Workspace>) -> bool {
    forall|i: int|
        0 <= i < roots.len() ==> {
            &&& linked_repository((#[trigger] roots[i]).root_path@, workspaces) is Some
            &&& roots[i].is_for(
                roots[i].root_path@,
                linked_repository(roots[i].root_path@, workspaces)->0,
                workspaces,
            )
        }
}

/// The workspaces that show a directory that goes.
pub open spec fn affected(workspaces: Seq<Workspace>, doomed: Seq<Seq<char>>) -> Seq<WorkspaceId>
    decreases workspaces.len(),
{
    if workspaces.len() == 0 {
        Seq::empty()
    } else {
        let others = affected(workspaces.drop_last(), doomed);
        if workspaces.last().is_affected(doomed) {
            others.push(workspaces.last().id)
        } else {
            others
        }
    }
}

/// Says of a workspace whether it is the given one and is affected.
pub open spec fn is_affected_current(current: Option<WorkspaceId>, doomed: Seq<Seq<char>>) -> spec_fn(
    Workspace,
) -> bool {
    |workspace: Workspace| Some(workspace.id) == current && workspace.is_affected(doomed)
}

/// Whether the current workspace loses every directory it shows. Of several that go by the same
/// id, the last one counts.
pub open spec fn loses_everything(
    workspaces: Seq<Workspace>,
    current: Option<WorkspaceId>,
    doomed: Seq<Seq<char>>,
) -> bool
    decreases workspaces.len(),
{
    if workspaces.len() == 0 {
        false
    } else if is_affected_current(current, doomed)(workspaces.last()) {
        !workspaces.last().survives(doomed)
    } else {
        loses_everything(workspaces.drop_last(), current, doomed)
    }
}

/// Whether the plan says what can go with the thread.
pub open spec fn is_plan(
    plan: CleanupPlan,
    thread: Thread,
    session: Seq<char>,
    current: Option<WorkspaceId>,
    window: WindowId,
    surroundings: Surroundings,
) -> bool {
    let workspaces = workspaces_of(surroundings.windows@);
    let doomed = paths_that_go(thread.ordered_paths@, session, surroundings);
    &&& root_paths(plan.roots@) == doomed
    &&& are_plans(plan.roots@, workspaces)
    &&& plan.current_workspace == current
    &&& plan.affected_workspaces@ == affected(workspaces, doomed)
    &&& plan.current_workspace_will_be_empty == loses_everything(workspaces, current, doomed)
    &&& match plan.fallback {
        Some(target) => plan.current_workspace_will_be_empty && is_fallback(
            target,
            session,
            current,
            plan.roots@,
            window,
            surroundings,
        ),
        None => !plan.current_workspace_will_be_empty,
    }
}

fn find_thread<'a>(threads: &'a Vec<Thread>, session: &str) -> (found: Option<&'a Thread>)
    ensures
        found == (match lists::first_where(threads@, is_thread(session@)) {
            Some(thread) => Some(&thread),
            None => None,
        }),
{
    let mut at: usize = 0;
    while at < threads.len()
        invariant
            at <= threads@.len(),
            forall|i: int| 0 <= i < at ==> !is_thread(session@)(#[trigger] threads@[i]),
        decreases threads@.len() - at,
    {
        if text::same_text(threads[at].session_id.as_str(), session) {
            proof {
                lists::first_where_at(threads@, is_thread(session@), at as int);
            }
            return Some(&threads[at]);
        }
        at = at + 1;
    }
    proof {
        lists::first_where_at(threads@, is_thread(session@), at as int);
    }
    None
}

fn find_roots(paths: &Vec<String>, session: &str, surroundings: &Surroundings) -> (roots: Vec<
    RootPlan,
>)
    ensures
        root_paths(roots@) == paths_that_go(paths@, session@, *surroundings),
        are_plans(roots@, workspaces_of(surroundings.windows@)),
{
    let workspaces = all_open_workspaces(&surroundings.windows);
    let mut roots: Vec<RootPlan> = Vec::new();
    let mut at: usize = 0;
    assert(paths@.take(0) =~= Seq::empty());
    assert(root_paths(roots@) =~= Seq::empty());
    while at < paths.len()
        invariant
            at <= paths@.len(),
            referents(workspaces@) == workspaces_of(surroundings.windows@),
            root_paths(roots@) == paths_that_go(paths@.take(at as int), session@, *surroundings),
            are_plans(roots@, workspaces_of(surroundings.windows@)),
        decreases paths@.len() - at,
    {
        assert(paths@.take(at + 1).drop_last() =~= paths@.take(at as int));
        let ghost before = roots@;
        let path = paths[at].as_str();
        if let Some(plan) = build_root_plan(path, &workspaces) {
            if !path_is_referenced_by_other_unarchived_threads(
                session,
                plan.root_path.as_str(),
                &surroundings.threads,
            ) {
                roots.push(plan);
                assert(root_paths(roots@) =~= root_paths(before).push(path@));
            }
        }
        at = at + 1;
    }
    assert(paths@.take(at as int) =~= paths@);
    roots
}

proof fn nothing_goes(workspaces: Seq<Workspace>, current: Option<WorkspaceId>)
    ensures
        affected(workspaces, Seq::empty()) == Seq::<WorkspaceId>::empty(),
        !loses_everything(workspaces, current, Seq::empty()),
    decreases workspaces.len(),
{
    if workspaces.len() > 0 {
        nothing_goes(workspaces.drop_last(), current);
    }
}

/// What can go with a thread. Nothing is known of a thread that the store does not have.
pub fn build_cleanup_plan(
    session_id: &str,
    current_workspace: Option<WorkspaceId>,
    requesting_window: WindowId,
    surroundings: &Surroundings,
) -> (plan: Option<CleanupPlan>)
    ensures
        match lists::first_where(surroundings.threads@, is_thread(session_id@)) {
            Some(thread) => plan is Some && is_plan(
                plan->0,
                thread,
                session_id@,
                current_workspace,
                requesting_window,
                *surroundings,
            ),
            None => plan is None,
        },
{
    let thread = match find_thread(&surroundings.threads, session_id) {
        Some(thread) => thread,
        None => return None,
    };
    let roots = find_roots(&thread.ordered_paths, session_id, surroundings);
    let ghost doomed = root_paths(roots@);
    let workspaces = all_open_workspaces(&surroundings.windows);
    let ghost all = workspaces_of(surroundings.windows@);
    if roots.len() == 0 {
        assert(doomed =~= Seq::empty());
        proof {
            nothing_goes(all, current_workspace);
        }
        return Some(
            CleanupPlan {
                roots,
                current_workspace,
                current_workspace_will_be_empty: false,
                fallback: None,
                affected_workspaces: Vec::new(),
            },
        );
    }
    let mut affected_workspaces: Vec<WorkspaceId> = Vec::new();
    let mut will_be_empty = false;
    let mut at: usize = 0;
    assert(all.take(0) =~= Seq::empty());
    while at < workspaces.len()
        invariant
            at <= workspaces@.len(),
            all == referents(workspaces@),
            doomed == root_paths(roots@),
            affected_workspaces@ == affected(all.take(at as int), doomed),
            will_be_empty == loses_everything(all.take(at as int), current_workspace, doomed),
        decreases workspaces@.len() - at,
    {
        let workspace = workspaces[at];
        assert(all.take(at + 1).drop_last() =~= all.take(at as int));
        if workspace_is_affected(workspace, &roots) {
            let is_current = match current_workspace {
                Some(current) => workspace.id == current,
                None => false,
            };
            if is_current {
                will_be_empty = !workspace_survives(workspace, &roots);
            }
            affected_workspaces.push(workspace.id);
        }
        at = at + 1;
    }
    assert(all.take(at as int) =~= all);
    let fallback = if will_be_empty {
        Some(
            choose_fallback_target(
                session_id,
                current_workspace,
                &roots,
                requesting_window,
                surroundings,
            ),
        )
    } else {
        None
    };
    Some(
        CleanupPlan {
            roots,
            current_workspace,
            current_workspace_will_be_empty: will_be_empty,
            fallback,
            affected_workspaces,
        },
    )
}

fn paths_of(roots: &Vec<RootPlan>) -> (paths: Vec<String>)
    ensures
        text::texts(paths@) == root_paths(roots@),
{
    let mut paths: Vec<String> = Vec::new();
    let mut at: usize = 0;
    while at < roots.len()
        invariant
            at <= roots@.len(),
            paths@.len() == at,
            forall|i: int| 0 <= i < at ==> (#[trigger] paths@[i])@ == roots@[i].root_path@,
        decreases roots@.len() - at,
    {
        paths.push(roots[at].root_path.clone());
        at = at + 1;
    }
    assert(text::texts(paths@) =~= root_paths(roots@));
    paths
}

/// What archiving a thread comes to: what the user is told, and the plan to carry out, if there
/// is anything to remove. The thread itself is archived in any case.
pub fn archive_thread(
    session_id: &str,
    current_workspace: Option<WorkspaceId>,
    requesting_window: WindowId,
    surroundings: &Surroundings,
) -> (outcome: (ArchiveOutcome, Option<CleanupPlan>))
    ensures
        outcome.0.archived_immediately,
        match lists::first_where(surroundings.threads@, is_thread(session_id@)) {
            Some(thread) => {
                let doomed = paths_that_go(thread.ordered_paths@, session_id@, *surroundings);
                &&& text::texts(outcome.0.roots_to_delete@) == doomed
                &&& outcome.1 is Some == (doomed.len() > 0)
                &&& outcome.1 matches Some(plan) ==> is_plan(
                    plan,
                    thread,
                    session_id@,
                    current_workspace,
                    requesting_window,
                    *surroundings,
                )
            },
            None => outcome.0.roots_to_delete@.len() == 0 && outcome.1 is None,
        },
{
    match build_cleanup_plan(session_id, current_workspace, requesting_window, surroundings) {
        Some(plan) => {
            let roots_to_delete = paths_of(&plan.roots);
            let outcome = ArchiveOutcome { archived_immediately: true, roots_to_delete };
            if plan.roots.len() > 0 {
                (outcome, Some(plan))
            } else {
                (outcome, None)
            }
        },
        None => (
            ArchiveOutcome { archived_immediately: true, roots_to_delete: Vec::new() },
            None,
        ),
    }
}

proof fn paths_that_go_can_go(paths: Seq<String>, session: Seq<char>, surroundings: Surroundings)
    ensures
        forall|i: int|
            #![trigger paths_that_go(paths, session, surroundings)[i]]
            0 <= i < paths_that_go(paths, session, surroundings).len() ==> can_go(
                paths_that_go(paths, session, surroundings)[i],
                session,
                surroundings,
            ),
    decreases paths.len(),
{
    if paths.len() > 0 {
        paths_that_go_can_go(paths.drop_last(), session, surroundings);
        let others = paths_that_go(paths.drop_last(), session, surroundings);
        let all = paths_that_go(paths, session, surroundings);
        assert forall|i: int| 0 <= i < all.len() implies can_go(
            #[trigger] all[i],
            session,
            surroundings,
        ) by {
            if i < others.len() {
                assert(all[i] == others[i]);
            }
        }
    }
}

/// No directory is removed that another thread still needs: whatever a plan removes is in no
/// folder of a thread that is neither archived nor the current one.
pub proof fn plan_spares_what_threads_need(
    plan: CleanupPlan,
    thread: Thread,
    session: Seq<char>,
    current: Option<WorkspaceId>,
    window: WindowId,
    surroundings: Surroundings,
    root: int,
    other: int,
)
    requires
        is_plan(plan, thread, session, current, window, surroundings),
        0 <= root < plan.roots@.len(),
        0 <= other < surroundings.threads@.len(),
        surroundings.threads@[other].session_id@ != session,
        !surroundings.threads@[other].archived,
    ensures
        !surroundings.threads@[other].mentions(plan.roots@[root].root_path@),
{
    paths_that_go_can_go(thread.ordered_paths@, session, surroundings);
    let doomed = paths_that_go(thread.ordered_paths@, session, surroundings);
    assert(root_paths(plan.roots@)[root] == plan.roots@[root].root_path@);
    assert(can_go(doomed[root], session, surroundings));
    assert(!keeps_path(session, doomed[root])(surroundings.threads@[other]));
}

/// The user is never taken to a workspace that loses everything it shows: a workspace chosen
/// from the open ones keeps at least one directory.
pub proof fn fallback_survives(
    target: FallbackTarget,
    session: Seq<char>,
    current: Option<WorkspaceId>,
    roots: Seq<RootPlan>,
    window: WindowId,
    surroundings: Surroundings,
)
    requires
        is_fallback(target, session, current, roots, window, surroundings),
    ensures
        target matches FallbackTarget::ExistingWorkspace { workspace, .. } ==> exists|i: int|
            #![trigger workspaces_of(surroundings.windows@)[i]]
            0 <= i < workspaces_of(surroundings.windows@).len() && workspaces_of(
                surroundings.windows@,
            )[i].id == workspace && workspaces_of(surroundings.windows@)[i].survives(
                root_paths(roots),
            ),
{
    let doomed = root_paths(roots);
    let windows = surroundings.windows@;
    match survivor_in_window(windows, window, current, doomed) {
        Some(_) => {
            lists::first_where_is_wanted(windows, is_window(window));
            let found = lists::first_where(windows, is_window(window))->0;
            let at = choose|i: int| 0 <= i < windows.len() && windows[i] == found;
            lists::first_where_is_wanted(found.all(), survives_beside(current, doomed));
            let kept = lists::first_where(found.all(), survives_beside(current, doomed))->0;
            workspace_is_open(windows, at, kept);
        },
        None => match survivor_elsewhere(windows, window, doomed) {
            Some(_) => {
                elsewhere_survives(windows, window, doomed);
            },
            None => match survivor_with_thread(
                surroundings.threads@,
                session,
                workspaces_of(windows),
                doomed,
            ) {
                Some(_) => {
                    with_thread_survives(
                        surroundings.threads@,
                        session,
                        workspaces_of(windows),
                        doomed,
                    );
                },
                None => {},
            },
        },
    }
}

proof fn workspace_is_open(windows: Seq<Window>, at: int, workspace: Workspace)
    requires
        0 <= at < windows.len(),
        windows[at].all().contains(workspace),
    ensures
        workspaces_of(windows).contains(workspace),
    decreases windows.len(),
{
    let front = workspaces_of(windows.drop_last());
    let back = windows.last().all();
    if at == windows.len() - 1 {
        let i = choose|i: int| 0 <= i < back.len() && back[i] == workspace;
        assert((front + back)[front.len() + i] == workspace);
    } else {
        workspace_is_open(windows.drop_last(), at, workspace);
        let i = choose|i: int| 0 <= i < front.len() && front[i] == workspace;
        assert((front + back)[i] == workspace);
    }
}

proof fn elsewhere_survives(windows: Seq<Window>, window: WindowId, doomed: Seq<Seq<char>>)
    ensures
        survivor_elsewhere(windows, window, doomed) matches Some((_, id)) ==> exists|
            workspace: Workspace,
        | #[trigger]
            workspaces_of(windows).contains(workspace) && workspace.id == id && workspace.survives(
                doomed,
            ),
    decreases windows.len(),
{
    if windows.len() > 0 && survivor_elsewhere(windows, window, doomed) is Some {
        let wanted = survives_beside(None, doomed);
        lists::first_where_is_wanted(windows[0].all(), wanted);
        match lists::first_where(windows[0].all(), wanted) {
            Some(workspace) if windows[0].id != window => {
                workspace_is_open(windows, 0, workspace);
            },
            _ => {
                elsewhere_survives(windows.skip(1), window, doomed);
                let (_, id) = survivor_elsewhere(windows, window, doomed)->0;
                let workspace = choose|workspace: Workspace| #[trigger]
                    workspaces_of(windows.skip(1)).contains(workspace) && workspace.id == id
                        && workspace.survives(doomed);
                open_in_rest(windows, workspace);
            },
        }
    }
}

proof fn open_in_rest(windows: Seq<Window>, workspace: Workspace)
    requires
        windows.len() > 0,
        workspaces_of(windows.skip(1)).contains(workspace),
    ensures
        workspaces_of(windows).contains(workspace),
    decreases windows.len(),
{
    let rest = windows.skip(1);
    if rest.len() > 0 {
        assert(rest.drop_last() =~= windows.drop_last().skip(1));
        assert(rest.last() == windows.last());
        let front = workspaces_of(rest.drop_last());
        let back = rest.last().all();
        let i = choose|i: int| 0 <= i < (front + back).len() && (front + back)[i] == workspace;
        if i < front.len() {
            assert(front[i] == workspace);
            open_in_rest(windows.drop_last(), workspace);
            let all = workspaces_of(windows.drop_last());
            let j = choose|j: int| 0 <= j < all.len() && all[j] == workspace;
            assert((all + back)[j] == workspace);
        } else {
            assert(back[i - front.len()] == workspace);
            workspace_is_open(windows, windows.len() - 1, workspace);
        }
    }
}

proof fn with_thread_survives(
    threads: Seq<Thread>,
    session: Seq<char>,
    workspaces: Seq<Workspace>,
    doomed: Seq<Seq<char>>,
)
    ensures
        survivor_with_thread(threads, session, workspaces, doomed) matches Some(id) ==> exists|
            workspace: Workspace,
        | #[trigger]
            workspaces.contains(workspace) && workspace.id == id && workspace.survives(doomed),
    decreases threads.len(),
{
    if threads.len() > 0 {
        lists::first_where_is_wanted(workspaces, shows_folders_of(threads[0]));
        with_thread_survives(threads.skip(1), session, workspaces, doomed);
    }
}

/// Says of a path whether a linked worktree is open there that no other thread needs.
pub open spec fn is_free(session: Seq<char>, surroundings: Surroundings) -> spec_fn(
    Seq<char>,
) -> bool {
    |path: Seq<char>|
        worktree_archive::is_open_linked_worktree(surroundings.windows@, path)
            && !worktree_archive::is_needed_by_another(surroundings.threads@, session, path)
}

/// Exactly the folders of the thread go that are linked worktrees of an open workspace and that no
/// other thread needs which is not archived: all of them, as often and in the order in which the
/// thread has them.
pub proof fn free_worktrees_go(paths: Seq<String>, session: Seq<char>, surroundings: Surroundings)
    ensures
        paths_that_go(paths, session, surroundings) == text::texts(paths).filter(
            is_free(session, surroundings),
        ),
    decreases paths.len(),
{
    reveal(Seq::filter);
    let free = is_free(session, surroundings);
    if paths.len() == 0 {
        assert(text::texts(paths) =~= Seq::empty());
        assert(text::texts(paths).filter(free) =~= Seq::empty());
    } else {
        let path = paths.last()@;
        free_worktrees_go(paths.drop_last(), session, surroundings);
        worktree_archive::plan_needs_an_open_linked_worktree(surroundings.windows@, path);
        worktree_archive::references_are_folders_of_others(surroundings.threads@, session, path);
        assert(text::texts(paths).drop_last() =~= text::texts(paths.drop_last()));
        assert(can_go(path, session, surroundings) == free(path));
        assert(paths_that_go(paths, session, surroundings) =~= text::texts(paths).filter(free));
    }
}

/// Whether the workspace shows a directory that is not removed.
pub open spec fn keeps_a_directory(workspace: Workspace, roots: Seq<RootPlan>) -> bool {
    exists|i: int|
        0 <= i < workspace.root_paths@.len() && !is_removed(
            #[trigger] workspace.root_paths@[i],
            roots,
        )
}

/// Whether the workspace shows a directory that is removed.
pub open spec fn loses_a_directory(workspace: Workspace, roots: Seq<RootPlan>) -> bool {
    exists|i: int|
        0 <= i < workspace.root_paths@.len() && is_removed(
            #[trigger] workspace.root_paths@[i],
            roots,
        )
}

/// Whether the directory is one of those that are removed.
pub open spec fn is_removed(path: String, roots: Seq<RootPlan>) -> bool {
    exists|j: int| 0 <= j < roots.len() && (#[trigger] roots[j]).root_path@ == path@
}

proof fn removed_are_doomed(path: String, roots: Seq<RootPlan>)
    ensures
        is_removed(path, roots) == root_paths(roots).contains(path@),
{
    if is_removed(path, roots) {
        let j = choose|j: int| 0 <= j < roots.len() && (#[trigger] roots[j]).root_path@ == path@;
        assert(root_paths(roots)[j] == path@);
    }
    if root_paths(roots).contains(path@) {
        let j = choose|j: int| 0 <= j < roots.len() && root_paths(roots)[j] == path@;
        assert(roots[j].root_path@ == path@);
    }
}

proof fn what_a_workspace_keeps(workspace: Workspace, roots: Seq<RootPlan>)
    ensures
        workspace.survives(root_paths(roots)) == keeps_a_directory(workspace, roots),
        workspace.is_affected(root_paths(roots)) == loses_a_directory(workspace, roots),
{
    assert forall|i: int| 0 <= i < workspace.root_paths@.len() implies is_removed(
        #[trigger] workspace.root_paths@[i],
        roots,
    ) == root_paths(roots).contains(workspace.root_paths@[i]@) by {
        removed_are_doomed(workspace.root_paths@[i], roots);
    }
}

/// Says of a workspace whether it loses a directory.
pub open spec fn loses_one_of(roots: Seq<RootPlan>) -> spec_fn(Workspace) -> bool {
    |workspace: Workspace| loses_a_directory(workspace, roots)
}

/// Gives the id of a workspace.
pub open spec fn workspace_id() -> spec_fn(Workspace) -> WorkspaceId {
    |workspace: Workspace| workspace.id
}

/// Exactly the workspaces that lose a directory are affected, in the order in which they are open.
pub proof fn affected_workspaces_lose_a_directory(workspaces: Seq<Workspace>, roots: Seq<RootPlan>)
    ensures
        affected(workspaces, root_paths(roots)) == workspaces.filter(
            loses_one_of(roots),
        ).map_values(workspace_id()),
    decreases workspaces.len(),
{
    reveal(Seq::filter);
    let lost = workspaces.filter(loses_one_of(roots));
    if workspaces.len() > 0 {
        affected_workspaces_lose_a_directory(workspaces.drop_last(), roots);
        what_a_workspace_keeps(workspaces.last(), roots);
    }
    assert(affected(workspaces, root_paths(roots)) =~= lost.map_values(workspace_id()));
}

/// The current workspace is said to become empty exactly where it shows directories and all of
/// them are removed.
pub proof fn current_workspace_becomes_empty(
    workspaces: Seq<Workspace>,
    current: Option<WorkspaceId>,
    roots: Seq<RootPlan>,
    at: int,
)
    requires
        forall|i: int, j: int|
            0 <= i < j < workspaces.len() ==> (#[trigger] workspaces[i]).id != (
            #[trigger] workspaces[j]).id,
        0 <= at <= workspaces.len(),
        at < workspaces.len() ==> Some(workspaces[at].id) == current,
        at == workspaces.len() ==> forall|i: int|
            0 <= i < workspaces.len() ==> Some((#[trigger] workspaces[i]).id) != current,
    ensures
        loses_everything(workspaces, current, root_paths(roots)) == (at < workspaces.len()
            && loses_a_directory(workspaces[at], roots) && !keeps_a_directory(
            workspaces[at],
            roots,
        )),
    decreases workspaces.len(),
{
    if workspaces.len() > 0 {
        let front = workspaces.drop_last();
        let last = workspaces.last();
        what_a_workspace_keeps(last, roots);
        assert forall|i: int, j: int| 0 <= i < j < front.len() implies (#[trigger] front[i]).id != (
        #[trigger] front[j]).id by {
            assert(workspaces[i].id != workspaces[j].id);
        }
        if at < front.len() {
            assert(workspaces[at].id != workspaces[workspaces.len() - 1].id);
            assert(front[at] == workspaces[at]);
            current_workspace_becomes_empty(front, current, roots, at);
        } else {
            assert forall|i: int| 0 <= i < front.len() implies Some((#[trigger] front[i]).id)
                != current by {
                assert(front[i] == workspaces[i]);
                if at < workspaces.len() {
                    assert(workspaces[i].id != workspaces[at].id);
                }
            }
            if at == workspaces.len() {
                assert(workspaces[workspaces.len() - 1] == last);
            }
            current_workspace_becomes_empty(front, current, roots, front.len() as int);
        }
    }
}

/// A plan removes exactly the free worktrees of the thread, each by the plan for its own path,
/// deals with every workspace that loses a directory, and takes the user elsewhere exactly where
/// the current workspace will be empty.
pub proof fn plan_is_complete(
    plan: CleanupPlan,
    thread: Thread,
    session: Seq<char>,
    current: Option<WorkspaceId>,
    window: WindowId,
    surroundings: Surroundings,
)
    requires
        is_plan(plan, thread, session, current, window, surroundings),
    ensures
        root_paths(plan.roots@) == text::texts(thread.ordered_paths@).filter(
            is_free(session, surroundings),
        ),
        forall|i: int|
            0 <= i < plan.roots@.len() ==> exists|repository: worktree_archive::Repository|
                repository.is_linked_worktree && repository.work_directory_abs_path@ == (
                #[trigger] plan.roots@[i]).root_path@ && #[trigger] plan.roots@[i].is_for(
                    plan.roots@[i].root_path@,
                    repository,
                    workspaces_of(surroundings.windows@),
                ),
        plan.affected_workspaces@ == workspaces_of(surroundings.windows@).filter(
            loses_one_of(plan.roots@),
        ).map_values(workspace_id()),
        plan.current_workspace == current,
        plan.fallback is Some == plan.current_workspace_will_be_empty,
        plan.current_workspace_will_be_empty == loses_everything(
            workspaces_of(surroundings.windows@),
            current,
            root_paths(plan.roots@),
        ),
        plan.fallback matches Some(target) ==> is_fallback(
            target,
            session,
            current,
            plan.roots@,
            window,
            surroundings,
        ),
{
    let workspaces = workspaces_of(surroundings.windows@);
    free_worktrees_go(thread.ordered_paths@, session, surroundings);
    affected_workspaces_lose_a_directory(workspaces, plan.roots@);
    assert forall|i: int| 0 <= i < plan.roots@.len() implies exists|
        repository: worktree_archive::Repository,
    |
        repository.is_linked_worktree && repository.work_directory_abs_path@ == (
        #[trigger] plan.roots@[i]).root_path@ && #[trigger] plan.roots@[i].is_for(
            plan.roots@[i].root_path@,
            repository,
            workspaces,
        ) by {
        let path = plan.roots@[i].root_path@;
        worktree_archive::plan_needs_an_open_linked_worktree(surroundings.windows@, path);
        let repository = linked_repository(path, workspaces)->0;
        assert(plan.roots@[i].is_for(path, repository, workspaces));
    }
}

/// Whether the workspace is another than the current one and keeps a directory.
pub open spec fn is_a_place_to_go(
    workspace: Workspace,
    current: Option<WorkspaceId>,
    roots: Seq<RootPlan>,
) -> bool {
    Some(workspace.id) != current && keeps_a_directory(workspace, roots)
}

/// Whether there is a place to go among the workspaces, and the one with this number is the first.
pub open spec fn is_first_place_to_go(
    workspaces: Seq<Workspace>,
    current: Option<WorkspaceId>,
    roots: Seq<RootPlan>,
    at: int,
) -> bool {
    &&& 0 <= at < workspaces.len()
    &&& is_a_place_to_go(workspaces[at], current, roots)
    &&& forall|i: int|
        0 <= i < at ==> !is_a_place_to_go(#[trigger] workspaces[i], current, roots)
}

/// Whether there is no place to go among the workspaces.
pub open spec fn is_no_place_to_go(
    workspaces: Seq<Workspace>,
    current: Option<WorkspaceId>,
    roots: Seq<RootPlan>,
) -> bool {
    forall|i: int|
        0 <= i < workspaces.len() ==> !is_a_place_to_go(#[trigger] workspaces[i], current, roots)
}

proof fn first_survivor(
    workspaces: Seq<Workspace>,
    current: Option<WorkspaceId>,
    roots: Seq<RootPlan>,
    at: int,
)
    requires
        is_first_place_to_go(workspaces, current, roots, at) || (at == workspaces.len()
            && is_no_place_to_go(workspaces, current, roots)),
    ensures
        lists::first_where(workspaces, survives_beside(current, root_paths(roots))) == (if at
            < workspaces.len() {
            Some(workspaces[at])
        } else {
            None
        }),
{
    let wanted = survives_beside(current, root_paths(roots));
    assert forall|i: int| 0 <= i < workspaces.len() implies wanted(#[trigger] workspaces[i])
        == is_a_place_to_go(workspaces[i], current, roots) by {
        what_a_workspace_keeps(workspaces[i], roots);
    }
    lists::first_where_at(workspaces, wanted, at);
}

/// The user stays in their window where they can: the first of its other workspaces that keeps a
/// directory is taken.
pub proof fn fallback_stays_in_the_window(
    target: FallbackTarget,
    session: Seq<char>,
    current: Option<WorkspaceId>,
    roots: Seq<RootPlan>,
    window: WindowId,
    surroundings: Surroundings,
    own: int,
    at: int,
)
    requires
        is_fallback(target, session, current, roots, window, surroundings),
        0 <= own < surroundings.windows@.len(),
        surroundings.windows@[own].id == window,
        forall|i: int| 0 <= i < own ==> (#[trigger] surroundings.windows@[i]).id != window,
        is_first_place_to_go(surroundings.windows@[own].all(), current, roots, at),
    ensures
        target == (FallbackTarget::ExistingWorkspace {
            window,
            workspace: surroundings.windows@[own].all()[at].id,
        }),
{
    lists::first_where_at(surroundings.windows@, is_window(window), own);
    first_survivor(surroundings.windows@[own].all(), current, roots, at);
}

/// Whether the user cannot stay in their window.
pub open spec fn window_is_lost(
    windows: Seq<Window>,
    window: WindowId,
    current: Option<WorkspaceId>,
    roots: Seq<RootPlan>,
) -> bool {
    forall|i: int|
        0 <= i < windows.len() && (#[trigger] windows[i]).id == window ==> is_no_place_to_go(
            windows[i].all(),
            current,
            roots,
        )
}

proof fn lost_window_has_no_survivor(
    windows: Seq<Window>,
    window: WindowId,
    current: Option<WorkspaceId>,
    roots: Seq<RootPlan>,
)
    requires
        window_is_lost(windows, window, current, roots),
    ensures
        survivor_in_window(windows, window, current, root_paths(roots)) is None,
{
    lists::first_where_is_wanted(windows, is_window(window));
    if lists::first_where(windows, is_window(window)) is Some {
        let found = lists::first_where(windows, is_window(window))->0;
        let i = choose|i: int| 0 <= i < windows.len() && windows[i] == found;
        assert(windows[i].id == window);
        first_survivor(found.all(), current, roots, found.all().len() as int);
    }
}

proof fn first_survivor_elsewhere(
    windows: Seq<Window>,
    window: WindowId,
    roots: Seq<RootPlan>,
    other: int,
    at: int,
)
    requires
        0 <= other <= windows.len(),
        forall|i: int|
            0 <= i < other && (#[trigger] windows[i]).id != window ==> is_no_place_to_go(
                windows[i].all(),
                None,
                roots,
            ),
        other < windows.len() ==> windows[other].id != window && is_first_place_to_go(
            windows[other].all(),
            None,
            roots,
            at,
        ),
    ensures
        survivor_elsewhere(windows, window, root_paths(roots)) == (if other < windows.len() {
            Some((windows[other].id, windows[other].all()[at].id))
        } else {
            None
        }),
    decreases windows.len(),
{
    if windows.len() > 0 {
        if other == 0 {
            first_survivor(windows[0].all(), None, roots, at);
        } else {
            if windows[0].id != window {
                first_survivor(windows[0].all(), None, roots, windows[0].all().len() as int);
            }
            let rest = windows.skip(1);
            assert forall|i: int|
                0 <= i < other - 1 && (#[trigger] rest[i]).id
                    != window implies is_no_place_to_go(rest[i].all(), None, roots) by {
                assert(rest[i] == windows[i + 1]);
            }
            if other < windows.len() {
                assert(rest[other - 1] == windows[other]);
            }
            first_survivor_elsewhere(rest, window, roots, other - 1, at);
        }
    }
}

/// Where the user cannot stay in their window, they are taken to the first other window that has a
/// workspace which keeps a directory, and to the first such workspace in it.
pub proof fn fallback_goes_to_another_window(
    target: FallbackTarget,
    session: Seq<char>,
    current: Option<WorkspaceId>,
    roots: Seq<RootPlan>,
    window: WindowId,
    surroundings: Surroundings,
    other: int,
    at: int,
)
    requires
        is_fallback(target, session, current, roots, window, surroundings),
        window_is_lost(surroundings.windows@, window, current, roots),
        0 <= other < surroundings.windows@.len(),
        surroundings.windows@[other].id != window,
        is_first_place_to_go(surroundings.windows@[other].all(), None, roots, at),
        forall|i: int|
            0 <= i < other && (#[trigger] surroundings.windows@[i]).id != window
                ==> is_no_place_to_go(surroundings.windows@[i].all(), None, roots),
    ensures
        target == (FallbackTarget::ExistingWorkspace {
            window: surroundings.windows@[other].id,
            workspace: surroundings.windows@[other].all()[at].id,
        }),
{
    lost_window_has_no_survivor(surroundings.windows@, window, current, roots);
    first_survivor_elsewhere(surroundings.windows@, window, roots, other, at);
}

/// Whether the thread is another one and not archived, the workspace with this number is the first
/// that shows its folders, and it keeps a directory.
pub open spec fn is_thread_to_go_to(
    thread: Thread,
    session: Seq<char>,
    workspaces: Seq<Workspace>,
    roots: Seq<RootPlan>,
    at: int,
) -> bool {
    &&& thread.session_id@ != session
    &&& !thread.archived
    &&& 0 <= at < workspaces.len()
    &&& text::texts(workspaces[at].path_list@) == text::texts(thread.folder_paths@)
    &&& forall|i: int|
        0 <= i < at ==> text::texts((#[trigger] workspaces[i]).path_list@) != text::texts(
            thread.folder_paths@,
        )
    &&& keeps_a_directory(workspaces[at], roots)
}

proof fn thread_leads_nowhere(
    thread: Thread,
    session: Seq<char>,
    workspaces: Seq<Workspace>,
    roots: Seq<RootPlan>,
)
    requires
        forall|k: int| !#[trigger] is_thread_to_go_to(thread, session, workspaces, roots, k),
    ensures
        lists::first_where(workspaces, shows_folders_of(thread)) matches Some(workspace)
            ==> thread.session_id@ == session || thread.archived || !workspace.survives(
            root_paths(roots),
        ),
{
    let wanted = shows_folders_of(thread);
    lists::first_where_is_wanted(workspaces, wanted);
    if lists::first_where(workspaces, wanted) is Some {
        let at = first_place(workspaces, wanted);
        what_a_workspace_keeps(workspaces[at], roots);
        assert(!is_thread_to_go_to(thread, session, workspaces, roots, at));
    }
}

proof fn first_place(workspaces: Seq<Workspace>, wanted: spec_fn(Workspace) -> bool) -> (at: int)
    requires
        lists::first_where(workspaces, wanted) is Some,
    ensures
        0 <= at < workspaces.len(),
        lists::first_where(workspaces, wanted) == Some(workspaces[at]),
        wanted(workspaces[at]),
        forall|i: int| 0 <= i < at ==> !wanted(#[trigger] workspaces[i]),
    decreases workspaces.len(),
{
    if wanted(workspaces[0]) {
        0
    } else {
        let rest = workspaces.skip(1);
        let at = first_place(rest, wanted);
        assert forall|i: int| 0 <= i < at + 1 implies !wanted(#[trigger] workspaces[i]) by {
            if i > 0 {
                assert(rest[i - 1] == workspaces[i]);
            }
        }
        at + 1
    }
}

proof fn first_thread_to_go_to(
    threads: Seq<Thread>,
    session: Seq<char>,
    workspaces: Seq<Workspace>,
    roots: Seq<RootPlan>,
    chosen: int,
    at: int,
)
    requires
        0 <= chosen <= threads.len(),
        forall|i: int, k: int|
            0 <= i < chosen ==> !#[trigger] is_thread_to_go_to(
                threads[i],
                session,
                workspaces,
                roots,
                k,
            ),
        chosen < threads.len() ==> is_thread_to_go_to(
            threads[chosen],
            session,
            workspaces,
            roots,
            at,
        ),
    ensures
        survivor_with_thread(threads, session, workspaces, root_paths(roots)) == (if chosen
            < threads.len() {
            Some(workspaces[at].id)
        } else {
            None
        }),
    decreases threads.len(),
{
    if threads.len() > 0 {
        if chosen == 0 {
            lists::first_where_at(workspaces, shows_folders_of(threads[0]), at);
            what_a_workspace_keeps(workspaces[at], roots);
        } else {
            thread_leads_nowhere(threads[0], session, workspaces, roots);
            let rest = threads.skip(1);
            assert forall|i: int, k: int| 0 <= i < chosen - 1 implies !#[trigger] is_thread_to_go_to(
                rest[i],
                session,
                workspaces,
                roots,
                k,
            ) by {
                assert(rest[i] == threads[i + 1]);
                assert(!is_thread_to_go_to(threads[i + 1], session, workspaces, roots, k));
            }
            if chosen < threads.len() {
                assert(rest[chosen - 1] == threads[chosen]);
            }
            first_thread_to_go_to(rest, session, workspaces, roots, chosen - 1, at);
        }
    }
}

/// Whether no window has a workspace to go to.
pub open spec fn every_window_is_lost(
    windows: Seq<Window>,
    window: WindowId,
    current: Option<WorkspaceId>,
    roots: Seq<RootPlan>,
) -> bool {
    window_is_lost(windows, window, current, roots) && forall|i: int|
        0 <= i < windows.len() && (#[trigger] windows[i]).id != window ==> is_no_place_to_go(
            windows[i].all(),
            None,
            roots,
        )
}

/// Where no window has a place to go, the user is taken to the workspace of the first other thread
/// that has one which keeps a directory; and where there is none either, the main repository of
/// the first worktree that goes is opened.
pub proof fn fallback_of_last_resort(
    target: FallbackTarget,
    session: Seq<char>,
    current: Option<WorkspaceId>,
    roots: Seq<RootPlan>,
    window: WindowId,
    surroundings: Surroundings,
    chosen: int,
    at: int,
)
    requires
        is_fallback(target, session, current, roots, window, surroundings),
        every_window_is_lost(surroundings.windows@, window, current, roots),
        0 <= chosen <= surroundings.threads@.len(),
        forall|i: int, k: int|
            0 <= i < chosen ==> !#[trigger] is_thread_to_go_to(
                surroundings.threads@[i],
                session,
                workspaces_of(surroundings.windows@),
                roots,
                k,
            ),
        chosen < surroundings.threads@.len() ==> is_thread_to_go_to(
            surroundings.threads@[chosen],
            session,
            workspaces_of(surroundings.windows@),
            roots,
            at,
        ),
    ensures
        chosen < surroundings.threads@.len() ==> (
        target matches FallbackTarget::ExistingWorkspace { workspace, .. } && workspace
            == workspaces_of(surroundings.windows@)[at].id),
        chosen == surroundings.threads@.len() && roots.len() > 0 ==> target == (
        FallbackTarget::OpenPaths { requesting_window: window, path: roots[0].main_repo_path }),
        chosen == surroundings.threads@.len() && roots.len() == 0 ==> target == (
        FallbackTarget::OpenEmpty { requesting_window: window }),
{
    let windows = surroundings.windows@;
    lost_window_has_no_survivor(windows, window, current, roots);
    first_survivor_elsewhere(windows, window, roots, windows.len() as int, 0);
    first_thread_to_go_to(
        surroundings.threads@,
        session,
        workspaces_of(windows),
        roots,
        chosen,
        at,
    );
}

/// The user is taken to a window that has the workspace.
pub proof fn fallback_window_has_the_workspace(
    target: FallbackTarget,
    session: Seq<char>,
    current: Option<WorkspaceId>,
    roots: Seq<RootPlan>,
    window: WindowId,
    surroundings: Surroundings,
)
    requires
        is_fallback(target, session, current, roots, window, surroundings),
    ensures
        target matches FallbackTarget::ExistingWorkspace { window: chosen, workspace } ==> exists|
            i: int,
            k: int,
        |
            0 <= i < surroundings.windows@.len() && surroundings.windows@[i].id == chosen && 0 <= k
                < surroundings.windows@[i].all().len() && (
            #[trigger] surroundings.windows@[i].all()[k]).id == workspace,
{
    let doomed = root_paths(roots);
    let windows = surroundings.windows@;
    match survivor_in_window(windows, window, current, doomed) {
        Some(workspace) => {
            lists::first_where_is_wanted(windows, is_window(window));
            let found = lists::first_where(windows, is_window(window))->0;
            let i = choose|i: int| 0 <= i < windows.len() && windows[i] == found;
            lists::first_where_is_wanted(found.all(), survives_beside(current, doomed));
            let kept = lists::first_where(found.all(), survives_beside(current, doomed))->0;
            let k = choose|k: int| 0 <= k < found.all().len() && found.all()[k] == kept;
            assert(windows[i].all()[k].id == workspace);
        },
        None => match survivor_elsewhere(windows, window, doomed) {
            Some((other, workspace)) => {
                elsewhere_is_held(windows, window, doomed);
            },
            None => match survivor_with_thread(
                surroundings.threads@,
                session,
                workspaces_of(windows),
                doomed,
            ) {
                Some(id) => {
                    with_thread_survives(
                        surroundings.threads@,
                        session,
                        workspaces_of(windows),
                        doomed,
                    );
                    let workspace = choose|workspace: Workspace| #[trigger]
                        workspaces_of(windows).contains(workspace) && workspace.id == id
                            && workspace.survives(doomed);
                    worktree_archive::open_workspaces_are_those_of_the_windows(windows, 0);
                    let i = choose|i: int|
                        0 <= i < windows.len() && (#[trigger] windows[i]).workspaces is Some
                            && windows[i].workspaces->0@.contains(workspace);
                    let all = windows[i].all();
                    let k = choose|k: int| 0 <= k < all.len() && all[k] == workspace;
                    assert(windows[i].all()[k].id == id);
                    assert(holds(id)(windows[i]));
                    lists::first_where_is_wanted(windows, holds(id));
                    let found = lists::first_where(windows, holds(id))->0;
                    let j = choose|j: int| 0 <= j < windows.len() && windows[j] == found;
                    let m = choose|m: int|
                        0 <= m < found.all().len() && (#[trigger] found.all()[m]).id == id;
                    assert(windows[j].all()[m].id == id);
                },
                None => {},
            },
        },
    }
}

proof fn elsewhere_is_held(windows: Seq<Window>, window: WindowId, doomed: Seq<Seq<char>>)
    ensures
        survivor_elsewhere(windows, window, doomed) matches Some((other, id)) ==> exists|
            i: int,
            k: int,
        |
            0 <= i < windows.len() && windows[i].id == other && 0 <= k < windows[i].all().len() && (
            #[trigger] windows[i].all()[k]).id == id,
    decreases windows.len(),
{
    if windows.len() > 0 && survivor_elsewhere(windows, window, doomed) is Some {
        let wanted = survives_beside(None, doomed);
        lists::first_where_is_wanted(windows[0].all(), wanted);
        match lists::first_where(windows[0].all(), wanted) {
            Some(workspace) if windows[0].id != window => {
                let all = windows[0].all();
                let k = choose|k: int| 0 <= k < all.len() && all[k] == workspace;
                assert(windows[0].all()[k].id == workspace.id);
            },
            _ => {
                let rest = windows.skip(1);
                elsewhere_is_held(rest, window, doomed);
                let (other, id) = survivor_elsewhere(windows, window, doomed)->0;
                let (i, k) = choose|i: int, k: int|
                    0 <= i < rest.len() && rest[i].id == other && 0 <= k < rest[i].all().len() && (
                    #[trigger] rest[i].all()[k]).id == id;
                assert(windows[i + 1] == rest[i]);
                assert(windows[i + 1].all()[k].id == id);
            },
        }
    }
}

/// The thread that is cleaned up after is the one with the id that was given, and no other.
pub proof fn threads_are_found_by_their_id(threads: Seq<Thread>, session: Seq<char>, at: int)
    requires
        0 <= at <= threads.len(),
        at < threads.len() ==> threads[at].session_id@ == session,
        forall|i: int| 0 <= i < at ==> (#[trigger] threads[i]).session_id@ != session,
    ensures
        lists::first_where(threads, is_thread(session)) == (if at < threads.len() {
            Some(threads[at])
        } else {
            None
        }),
{
    lists::first_where_at(threads, is_thread(session), at);
}

} // verus!
