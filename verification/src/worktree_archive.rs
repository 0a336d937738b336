//! Taking a git worktree out of every open project, and what is needed to know before.
//!
//! Paths are texts in normal form, so that two of them name the same place exactly when they
//! are the same text.

use crate::lists;
use crate::text;
use crate::undo::WorktreeId;
use vstd::prelude::*;

verus! {

/// Identifies an open project.
#[derive(Clone, Copy, Debug, PartialEq, Eq, Structural)]
pub struct ProjectId(pub u64);

/// Identifies a git repository that some project keeps open.
#[derive(Clone, Copy, Debug, PartialEq, Eq, Structural)]
pub struct RepositoryId(pub u64);

/// Identifies a workspace.
#[derive(Clone, Copy, Debug, PartialEq, Eq, Structural)]
pub struct WorkspaceId(pub u64);

/// Identifies a window.
#[derive(Clone, Copy, Debug, PartialEq, Eq, Structural)]
pub struct WindowId(pub u64);

/// A directory that a project has open.
#[derive(Debug)]
pub struct Worktree {
    pub id: WorktreeId,
    pub abs_path: String,
}

/// What a project knows of one of its repositories.
#[derive(Debug)]
pub struct Repository {
    pub id: RepositoryId,
    /// The directory the repository's files are checked out in.
    pub work_directory_abs_path: String,
    /// The directory of the repository that this one is linked to.
    pub original_repo_abs_path: String,
    /// Whether this is a worktree linked to another repository.
    pub is_linked_worktree: bool,
    /// The name of the checked out branch.
    pub branch: Option<String>,
}

/// A workspace and the project it shows.
#[derive(Debug)]
pub struct Workspace {
    pub id: WorkspaceId,
    pub project: ProjectId,
    /// The directories it shows, in the order it shows them.
    pub root_paths: Vec<String>,
    /// The same directories in lexicographic order, which is how lists of them are compared.
    pub path_list: Vec<String>,
    pub visible_worktrees: Vec<Worktree>,
    pub repositories: Vec<Repository>,
}

/// A project that shows a worktree.
#[derive(Clone, Copy, Debug, PartialEq, Eq, Structural)]
pub struct AffectedProject {
    pub project: ProjectId,
    pub worktree_id: WorktreeId,
}

/// All that is needed to archive one linked worktree.
#[derive(Debug)]
pub struct RootPlan {
    pub root_path: String,
    pub main_repo_path: String,
    pub affected_projects: Vec<AffectedProject>,
    pub worktree_repo: Option<RepositoryId>,
    pub branch_name: Option<String>,
}

/// The git reference that keeps the commits of an archived worktree alive.
pub open spec fn archived_ref(id: int) -> Seq<char> {
    "refs/archived-worktrees/"@ + text::signed_decimal(id)
}

/// The git reference that keeps the commits of an archived worktree alive.
pub fn archived_worktree_ref_name(id: i64) -> (name: String)
    ensures
        name@ == archived_ref(id as int),
{
    text::joined("refs/archived-worktrees/", text::signed_decimal_text(id).as_str())
}

/// No two archived worktrees share a git reference.
pub proof fn archived_refs_differ(first: int, second: int)
    requires
        first != second,
    ensures
        archived_ref(first) != archived_ref(second),
{
    let prefix = "refs/archived-worktrees/"@;
    if archived_ref(first) == archived_ref(second) {
        let start = prefix.len() as int;
        assert(archived_ref(first).skip(start) =~= text::signed_decimal(first));
        assert(archived_ref(second).skip(start) =~= text::signed_decimal(second));
        text::signed_decimal_is_injective(first, second);
    }
}

/// Says of a worktree whether it is at the given path.
pub open spec fn is_at(path: Seq<char>) -> spec_fn(Worktree) -> bool {
    |worktree: Worktree| worktree.abs_path@ == path
}

/// The projects that show the given path, in the order of the workspaces they belong to.
pub open spec fn projects_showing(workspaces: Seq<Workspace>, path: Seq<char>) -> Seq<
    AffectedProject,
>
    decreases workspaces.len(),
{
    if workspaces.len() == 0 {
        Seq::empty()
    } else {
        let others = projects_showing(workspaces.drop_last(), path);
        match lists::first_where(workspaces.last().visible_worktrees@, is_at(path)) {
            Some(worktree) => others.push(
                AffectedProject {
                    project: workspaces.last().project,
                    worktree_id: worktree.id,
                },
            ),
            None => others,
        }
    }
}

/// The repositories of every workspace, one workspace after the other.
pub open spec fn repositories_of(workspaces: Seq<Workspace>) -> Seq<Repository>
    decreases workspaces.len(),
{
    if workspaces.len() == 0 {
        Seq::empty()
    } else {
        repositories_of(workspaces.drop_last()) + workspaces.last().repositories@
    }
}

/// Says of a repository whether it is a linked worktree checked out at the given path.
pub open spec fn is_linked_at(path: Seq<char>) -> spec_fn(Repository) -> bool {
    |repository: Repository|
        repository.is_linked_worktree && repository.work_directory_abs_path@ == path
}

/// Says of a repository whether it is checked out at the given path.
pub open spec fn is_checked_out_at(path: Seq<char>) -> spec_fn(Repository) -> bool {
    |repository: Repository| repository.work_directory_abs_path@ == path
}

fn find_worktree(worktrees: &Vec<Worktree>, path: &str) -> (found: Option<WorktreeId>)
    ensures
        found == (match lists::first_where(worktrees@, is_at(path@)) {
            Some(worktree) => Some(worktree.id),
            None => None,
        }),
{
    let mut at: usize = 0;
    while at < worktrees.len()
        invariant
            at <= worktrees@.len(),
            forall|j: int| 0 <= j < at ==> !is_at(path@)(#[trigger] worktrees@[j]),
        decreases worktrees@.len() - at,
    {
        if text::same_text(worktrees[at].abs_path.as_str(), path) {
            proof {
                lists::first_where_at(worktrees@, is_at(path@), at as int);
            }
            return Some(worktrees[at].id);
        }
        at = at + 1;
    }
    proof {
        lists::first_where_at(worktrees@, is_at(path@), at as int);
    }
    None
}

fn find_linked<'a>(repositories: &'a Vec<Repository>, path: &str) -> (found: Option<&'a Repository>)
    ensures
        found == (match lists::first_where(repositories@, is_linked_at(path@)) {
            Some(repository) => Some(&repository),
            None => None,
        }),
{
    let mut at: usize = 0;
    while at < repositories.len()
        invariant
            at <= repositories@.len(),
            forall|j: int| 0 <= j < at ==> !is_linked_at(path@)(#[trigger] repositories@[j]),
        decreases repositories@.len() - at,
    {
        let repository = &repositories[at];
        if repository.is_linked_worktree && text::same_text(
            repository.work_directory_abs_path.as_str(),
            path,
        ) {
            proof {
                lists::first_where_at(repositories@, is_linked_at(path@), at as int);
            }
            return Some(repository);
        }
        at = at + 1;
    }
    proof {
        lists::first_where_at(repositories@, is_linked_at(path@), at as int);
    }
    None
}

/// The first of a project's repositories checked out at the given path.
pub fn find_repository(repositories: &Vec<Repository>, path: &str) -> (found: Option<RepositoryId>)
    ensures
        found == (match lists::first_where(repositories@, is_checked_out_at(path@)) {
            Some(repository) => Some(repository.id),
            None => None,
        }),
{
    let mut at: usize = 0;
    while at < repositories.len()
        invariant
            at <= repositories@.len(),
            forall|j: int| 0 <= j < at ==> !is_checked_out_at(path@)(#[trigger] repositories@[j]),
        decreases repositories@.len() - at,
    {
        if text::same_text(repositories[at].work_directory_abs_path.as_str(), path) {
            proof {
                lists::first_where_at(repositories@, is_checked_out_at(path@), at as int);
            }
            return Some(repositories[at].id);
        }
        at = at + 1;
    }
    proof {
        lists::first_where_at(repositories@, is_checked_out_at(path@), at as int);
    }
    None
}

impl RootPlan {
    /// Whether this is the plan for the worktree at `path`, of which the workspaces know as the
    /// given repository.
    pub open spec fn is_for(
        self,
        path: Seq<char>,
        repository: Repository,
        workspaces: Seq<Workspace>,
    ) -> bool {
        &&& self.root_path@ == path
        &&& self.main_repo_path@ == repository.original_repo_abs_path@
        &&& self.affected_projects@ == projects_showing(workspaces, path)
        &&& self.worktree_repo == Some(repository.id)
        &&& text::said(self.branch_name) == text::said(repository.branch)
    }
}

/// The repository that the workspaces have checked out at `path` as a linked worktree.
pub open spec fn linked_repository(path: Seq<char>, workspaces: Seq<Workspace>) -> Option<
    Repository,
> {
    lists::first_where(repositories_of(workspaces), is_linked_at(path))
}

/// The plan for archiving the linked worktree at `path`. There is one exactly when some open
/// workspace has a linked worktree checked out there; of several the first is taken.
pub fn build_root_plan(path: &str, workspaces: &Vec<&Workspace>) -> (plan: Option<RootPlan>)
    ensures
        match linked_repository(path@, referents(workspaces@)) {
            Some(repository) => plan is Some && plan->0.is_for(
                path@,
                repository,
                referents(workspaces@),
            ),
            None => plan is None,
        },
{
    let ghost all = referents(workspaces@);
    let mut affected: Vec<AffectedProject> = Vec::new();
    let mut linked: Option<&Repository> = None;
    let mut at: usize = 0;
    assert(all.take(0) =~= Seq::empty());
    while at < workspaces.len()
        invariant
            at <= workspaces@.len(),
            all == referents(workspaces@),
            affected@ == projects_showing(all.take(at as int), path@),
            lists::first_where(repositories_of(all.take(at as int)), is_linked_at(path@))
                == (match linked {
                Some(repository) => Some(*repository),
                None => None,
            }),
        decreases workspaces@.len() - at,
    {
        let workspace = workspaces[at];
        proof {
            assert(all.take(at + 1).drop_last() =~= all.take(at as int));
            lists::first_where_in_both(
                repositories_of(all.take(at as int)),
                workspace.repositories@,
                is_linked_at(path@),
            );
        }
        if let Some(worktree_id) = find_worktree(&workspace.visible_worktrees, path) {
            affected.push(AffectedProject { project: workspace.project, worktree_id });
        }
        if linked.is_none() {
            linked = find_linked(&workspace.repositories, path);
        }
        at = at + 1;
    }
    assert(all.take(at as int) =~= all);
    match linked {
        None => None,
        Some(repository) => Some(
            RootPlan {
                root_path: path.to_owned(),
                main_repo_path: repository.original_repo_abs_path.clone(),
                affected_projects: affected,
                worktree_repo: Some(repository.id),
                branch_name: repository.branch.clone(),
            },
        ),
    }
}

/// What the thread store knows of a thread.
#[derive(Debug)]
pub struct Thread {
    pub session_id: String,
    pub archived: bool,
    /// The thread's folders in lexicographic order.
    pub folder_paths: Vec<String>,
    /// The same folders in the order they were chosen.
    pub ordered_paths: Vec<String>,
}

impl Thread {
    /// Whether one of the thread's folders is at the given path.
    pub open spec fn mentions(self, path: Seq<char>) -> bool {
        exists|i: int| 0 <= i < self.folder_paths@.len() && (#[trigger] self.folder_paths@[i])@ == path
    }

    fn mentions_path(&self, path: &str) -> (mentions: bool)
        ensures
            mentions == self.mentions(path@),
    {
        let mut at: usize = 0;
        while at < self.folder_paths.len()
            invariant
                at <= self.folder_paths@.len(),
                forall|j: int| 0 <= j < at ==> (#[trigger] self.folder_paths@[j])@ != path@,
            decreases self.folder_paths@.len() - at,
        {
            if text::same_text(self.folder_paths[at].as_str(), path) {
                return true;
            }
            at = at + 1;
        }
        false
    }
}

/// Says of a thread whether it is another one than the current, is not archived, and has a
/// folder at the given path.
pub open spec fn keeps_path(current_session_id: Seq<char>, path: Seq<char>) -> spec_fn(Thread) -> bool {
    |thread: Thread|
        thread.session_id@ != current_session_id && !thread.archived && thread.mentions(path)
}

/// Whether the directory at `path` is still needed by a thread other than the current one.
pub fn path_is_referenced_by_other_unarchived_threads(
    current_session_id: &str,
    path: &str,
    threads: &Vec<Thread>,
) -> (referenced: bool)
    ensures
        referenced == lists::any_where(threads@, keeps_path(current_session_id@, path@)),
{
    let mut at: usize = 0;
    while at < threads.len()
        invariant
            at <= threads@.len(),
            forall|j: int|
                0 <= j < at ==> !keeps_path(current_session_id@, path@)(#[trigger] threads@[j]),
        decreases threads@.len() - at,
    {
        let thread = &threads[at];
        if !text::same_text(thread.session_id.as_str(), current_session_id) && !thread.archived
            && thread.mentions_path(path) {
            assert(keeps_path(current_session_id@, path@)(threads@[at as int]));
            return true;
        }
        at = at + 1;
    }
    false
}

/// A window, with its workspaces where it is one that can hold several.
#[derive(Debug)]
pub struct Window {
    pub id: WindowId,
    pub workspaces: Option<Vec<Workspace>>,
}

impl Window {
    /// The workspaces of the window.
    pub open spec fn all(self) -> Seq<Workspace> {
        match self.workspaces {
            Some(workspaces) => workspaces@,
            None => Seq::empty(),
        }
    }
}

/// The workspaces of every window, one window after the other.
pub open spec fn workspaces_of(windows: Seq<Window>) -> Seq<Workspace>
    decreases windows.len(),
{
    if windows.len() == 0 {
        Seq::empty()
    } else {
        workspaces_of(windows.drop_last()) + windows.last().all()
    }
}

/// What a list of references refers to.
pub open spec fn referents<T>(references: Seq<&T>) -> Seq<T> {
    Seq::new(references.len(), |i: int| *references[i])
}

/// The workspaces of every window, one window after the other.
pub fn all_open_workspaces(windows: &Vec<Window>) -> (workspaces: Vec<&Workspace>)
    ensures
        referents(workspaces@) == workspaces_of(windows@),
{
    let mut workspaces: Vec<&Workspace> = Vec::new();
    let mut at: usize = 0;
    assert(windows@.take(0) =~= Seq::empty());
    assert(referents(workspaces@) =~= Seq::empty());
    while at < windows.len()
        invariant
            at <= windows@.len(),
            referents(workspaces@) == workspaces_of(windows@.take(at as int)),
        decreases windows@.len() - at,
    {
        let window = &windows[at];
        let ghost before = referents(workspaces@);
        assert(windows@.take(at + 1).drop_last() =~= windows@.take(at as int));
        if let Some(more) = &window.workspaces {
            let mut next: usize = 0;
            assert(before + more@.take(0) =~= before);
            while next < more.len()
                invariant
                    next <= more@.len(),
                    referents(workspaces@) == before + more@.take(next as int),
                decreases more@.len() - next,
            {
                let ghost so_far = workspaces@;
                workspaces.push(&more[next]);
                assert(referents(workspaces@) =~= referents(so_far).push(more@[next as int]));
                assert(more@.take(next + 1) =~= more@.take(next as int).push(more@[next as int]));
                next = next + 1;
                assert(referents(workspaces@) =~= before + more@.take(next as int));
            }
            assert(more@.take(next as int) =~= more@);
        } else {
            assert(before + window.all() =~= before);
        }
        at = at + 1;
    }
    assert(windows@.take(at as int) =~= windows@);
    workspaces
}

/// Whether the workspace has a linked worktree checked out at the path.
pub open spec fn has_linked_worktree(workspace: Workspace, path: Seq<char>) -> bool {
    exists|i: int|
        0 <= i < workspace.repositories@.len() && (
        #[trigger] workspace.repositories@[i]).is_linked_worktree
            && workspace.repositories@[i].work_directory_abs_path@ == path
}

/// Whether one of the workspaces in the windows has a linked worktree checked out at the path.
pub open spec fn is_open_linked_worktree(windows: Seq<Window>, path: Seq<char>) -> bool {
    exists|i: int, k: int|
        0 <= i < windows.len() && windows[i].workspaces is Some && 0 <= k
            < windows[i].workspaces->0@.len() && has_linked_worktree(
            #[trigger] windows[i].workspaces->0@[k],
            path,
        )
}

/// Whether a thread other than the given one, and not archived, has a folder at the path.
pub open spec fn is_needed_by_another(
    threads: Seq<Thread>,
    session: Seq<char>,
    path: Seq<char>,
) -> bool {
    exists|i: int, k: int|
        0 <= i < threads.len() && threads[i].session_id@ != session && !threads[i].archived && 0
            <= k < threads[i].folder_paths@.len() && (#[trigger] threads[i].folder_paths@[k])@
            == path
}

/// The workspaces of the windows are those of each window, in its order, one window behind the
/// other.
pub proof fn open_workspaces_are_those_of_the_windows(windows: Seq<Window>, at: int)
    ensures
        0 <= at < windows.len() ==> exists|from: int|
            0 <= from && #[trigger] workspaces_of(windows).subrange(
                from,
                from + windows[at].all().len(),
            ) == windows[at].all() && workspaces_of(windows.take(at)).len() == from && from
                + windows[at].all().len() <= workspaces_of(windows).len(),
        forall|workspace: Workspace| #[trigger]
            workspaces_of(windows).contains(workspace) ==> exists|i: int|
                0 <= i < windows.len() && (#[trigger] windows[i]).workspaces is Some
                    && windows[i].workspaces->0@.contains(workspace),
        windows.len() == 0 ==> workspaces_of(windows).len() == 0,
    decreases windows.len(),
{
    if windows.len() > 0 {
        let front = windows.drop_last();
        let last = windows.last();
        open_workspaces_are_those_of_the_windows(front, at);
        let before = workspaces_of(front);
        let all = workspaces_of(windows);
        if at == windows.len() - 1 {
            let from = before.len() as int;
            assert(windows.take(at) =~= front);
            assert(all.subrange(from, from + last.all().len()) =~= last.all());
        } else if 0 <= at < front.len() {
            assert(front.take(at) =~= windows.take(at));
            let from = workspaces_of(front.take(at)).len() as int;
            let end = from + front[at].all().len();
            assert(before.subrange(from, end) == front[at].all());
            assert(all.subrange(from, end) =~= before.subrange(from, end));
        }
        assert forall|workspace: Workspace| #[trigger] all.contains(workspace) implies exists|
            i: int,
        |
            0 <= i < windows.len() && (#[trigger] windows[i]).workspaces is Some
                && windows[i].workspaces->0@.contains(workspace) by {
            let j = choose|j: int| 0 <= j < all.len() && all[j] == workspace;
            if j < before.len() {
                assert(before[j] == workspace);
                assert(before.contains(workspace));
                let i = choose|i: int|
                    0 <= i < front.len() && (#[trigger] front[i]).workspaces is Some
                        && front[i].workspaces->0@.contains(workspace);
                assert(windows[i] == front[i]);
            } else {
                assert(last.all()[j - before.len()] == workspace);
                assert(windows[windows.len() - 1] == last);
                assert(last.workspaces->0@.contains(workspace));
            }
        }
    }
}

proof fn repositories_are_those_of_the_workspaces(workspaces: Seq<Workspace>, path: Seq<char>)
    ensures
        lists::any_where(repositories_of(workspaces), is_linked_at(path)) == exists|k: int|
            0 <= k < workspaces.len() && has_linked_worktree(#[trigger] workspaces[k], path),
    decreases workspaces.len(),
{
    if workspaces.len() > 0 {
        let front = workspaces.drop_last();
        let last = workspaces.last();
        let before = repositories_of(front);
        let all = repositories_of(workspaces);
        let wanted = is_linked_at(path);
        repositories_are_those_of_the_workspaces(front, path);
        if lists::any_where(all, wanted) {
            let i = choose|i: int| 0 <= i < all.len() && wanted(#[trigger] all[i]);
            if i < before.len() {
                assert(wanted(before[i]));
                let k = choose|k: int|
                    0 <= k < front.len() && has_linked_worktree(#[trigger] front[k], path);
                assert(workspaces[k] == front[k]);
            } else {
                assert(last.repositories@[i - before.len()] == all[i]);
                assert(has_linked_worktree(workspaces[workspaces.len() - 1], path));
            }
        }
        if exists|k: int|
            0 <= k < workspaces.len() && has_linked_worktree(#[trigger] workspaces[k], path) {
            let k = choose|k: int|
                0 <= k < workspaces.len() && has_linked_worktree(#[trigger] workspaces[k], path);
            if k < front.len() {
                assert(front[k] == workspaces[k]);
                let i = choose|i: int| 0 <= i < before.len() && wanted(#[trigger] before[i]);
                assert(wanted(all[i]));
            } else {
                let i = choose|i: int|
                    0 <= i < last.repositories@.len() && (
                    #[trigger] last.repositories@[i]).is_linked_worktree
                        && last.repositories@[i].work_directory_abs_path@ == path;
                assert(all[before.len() + i] == last.repositories@[i]);
                assert(wanted(all[before.len() + i]));
            }
        }
    }
}

/// There is a plan for a path exactly where a workspace in some window has a linked worktree
/// checked out there; and the repository of the plan is such a one.
pub proof fn plan_needs_an_open_linked_worktree(windows: Seq<Window>, path: Seq<char>)
    ensures
        linked_repository(path, workspaces_of(windows)) is Some == is_open_linked_worktree(
            windows,
            path,
        ),
        linked_repository(path, workspaces_of(windows)) matches Some(repository)
            ==> repository.is_linked_worktree && repository.work_directory_abs_path@ == path,
{
    let workspaces = workspaces_of(windows);
    repositories_are_those_of_the_workspaces(workspaces, path);
    lists::first_where_is_wanted(repositories_of(workspaces), is_linked_at(path));
    if linked_repository(path, workspaces) is Some {
        let repository = linked_repository(path, workspaces)->0;
        let all = repositories_of(workspaces);
        let i = choose|i: int| 0 <= i < all.len() && all[i] == repository;
        assert(is_linked_at(path)(all[i]));
        let k = choose|k: int|
            0 <= k < workspaces.len() && has_linked_worktree(#[trigger] workspaces[k], path);
        open_workspaces_are_those_of_the_windows(windows, 0);
        assert(workspaces.contains(workspaces[k]));
        let w = choose|w: int|
            0 <= w < windows.len() && (#[trigger] windows[w]).workspaces is Some
                && windows[w].workspaces->0@.contains(workspaces[k]);
        let list = windows[w].workspaces->0@;
        let j = choose|j: int| 0 <= j < list.len() && list[j] == workspaces[k];
        assert(has_linked_worktree(windows[w].workspaces->0@[j], path));
    }
    if is_open_linked_worktree(windows, path) {
        let (w, k) = choose|w: int, k: int|
            0 <= w < windows.len() && windows[w].workspaces is Some && 0 <= k
                < windows[w].workspaces->0@.len() && has_linked_worktree(
                #[trigger] windows[w].workspaces->0@[k],
                path,
            );
        open_workspaces_are_those_of_the_windows(windows, w);
        let from = workspaces_of(windows.take(w)).len() as int;
        let part = workspaces.subrange(from, from + windows[w].all().len());
        assert(part[k] == windows[w].workspaces->0@[k]);
        assert(workspaces[from + k] == part[k]);
        assert(has_linked_worktree(workspaces[from + k], path));
        assert(lists::any_where(repositories_of(workspaces), is_linked_at(path)));
    }
}

/// A path is referenced by another thread exactly where a thread with another id, which is not
/// archived, has a folder there.
pub proof fn references_are_folders_of_others(
    threads: Seq<Thread>,
    session: Seq<char>,
    path: Seq<char>,
)
    ensures
        lists::any_where(threads, keeps_path(session, path)) == is_needed_by_another(
            threads,
            session,
            path,
        ),
{
    let keeps = keeps_path(session, path);
    if lists::any_where(threads, keeps) {
        let i = choose|i: int| 0 <= i < threads.len() && keeps(#[trigger] threads[i]);
        let k = choose|k: int|
            0 <= k < threads[i].folder_paths@.len() && (#[trigger] threads[i].folder_paths@[k])@
                == path;
        assert(threads[i].folder_paths@[k]@ == path);
    }
    if is_needed_by_another(threads, session, path) {
        let (i, k) = choose|i: int, k: int|
            0 <= i < threads.len() && threads[i].session_id@ != session && !threads[i].archived && 0
                <= k < threads[i].folder_paths@.len() && (#[trigger] threads[i].folder_paths@[k])@
                == path;
        assert(threads[i].mentions(path));
        assert(keeps(threads[i]));
    }
}

/// Every workspace that shows the path counts with its project, under the id that the project
/// knows the path by, in the order of the workspaces; no other does.
pub proof fn every_project_that_shows_the_path_counts(
    first: Seq<Workspace>,
    second: Seq<Workspace>,
    workspace: Workspace,
    path: Seq<char>,
    at: int,
)
    requires
        0 <= at <= workspace.visible_worktrees@.len(),
        at < workspace.visible_worktrees@.len() ==> workspace.visible_worktrees@[at].abs_path@
            == path,
        forall|i: int|
            0 <= i < at ==> (#[trigger] workspace.visible_worktrees@[i]).abs_path@ != path,
    ensures
        projects_showing(first + second, path) == projects_showing(first, path) + projects_showing(
            second,
            path,
        ),
        projects_showing(seq![workspace], path) == (if at < workspace.visible_worktrees@.len() {
            seq![
                AffectedProject {
                    project: workspace.project,
                    worktree_id: workspace.visible_worktrees@[at].id,
                },
            ]
        } else {
            Seq::empty()
        }),
    decreases second.len(),
{
    let one = seq![workspace];
    assert(one.drop_last() =~= Seq::empty());
    assert(projects_showing(one.drop_last(), path) =~= Seq::empty());
    lists::first_where_at(workspace.visible_worktrees@, is_at(path), at);
    assert(projects_showing(one, path) =~= (if at < workspace.visible_worktrees@.len() {
        seq![
            AffectedProject {
                project: workspace.project,
                worktree_id: workspace.visible_worktrees@[at].id,
            },
        ]
    } else {
        Seq::empty()
    }));
    if second.len() == 0 {
        assert(first + second =~= first);
        assert(projects_showing(first, path) + projects_showing(second, path)
            =~= projects_showing(first, path));
    } else {
        every_project_that_shows_the_path_counts(first, second.drop_last(), workspace, path, at);
        assert((first + second).drop_last() =~= first + second.drop_last());
        assert(projects_showing(first + second, path) =~= projects_showing(first, path)
            + projects_showing(second, path));
    }
}

/// A plan for a linked worktree leads to the repository it is linked to, names its branch, and
/// takes it out of every project that shows it.
pub proof fn plan_is_about_its_worktree(
    plan: RootPlan,
    path: Seq<char>,
    repository: Repository,
    workspaces: Seq<Workspace>,
)
    requires
        plan.is_for(path, repository, workspaces),
    ensures
        plan.root_path@ == path,
        plan.main_repo_path@ == repository.original_repo_abs_path@,
        plan.worktree_repo == Some(repository.id),
        text::said(plan.branch_name) == text::said(repository.branch),
        plan.affected_projects@ == projects_showing(workspaces, path),
{
}

/// The repositories are those of each workspace in its order, one workspace behind the other, so
/// that of several worktrees at a path the first is found.
pub proof fn repositories_come_in_order(
    first: Seq<Workspace>,
    second: Seq<Workspace>,
    workspace: Workspace,
)
    ensures
        repositories_of(first + second) == repositories_of(first) + repositories_of(second),
        repositories_of(seq![workspace]) == workspace.repositories@,
    decreases second.len(),
{
    let one = seq![workspace];
    assert(one.drop_last() =~= Seq::empty());
    assert(repositories_of(one.drop_last()) =~= Seq::empty());
    assert(repositories_of(one) =~= workspace.repositories@);
    if second.len() == 0 {
        assert(first + second =~= first);
        assert(repositories_of(first) + repositories_of(second) =~= repositories_of(first));
    } else {
        repositories_come_in_order(first, second.drop_last(), workspace);
        assert((first + second).drop_last() =~= first + second.drop_last());
        assert(repositories_of(first + second) =~= repositories_of(first) + repositories_of(
            second,
        ));
    }
}

} // verus!
