//! Removing what an archived thread leaves behind, without losing unsaved work on the way.

use crate::cleanup_plan::{root_paths, CleanupPlan, FallbackTarget};
use crate::lists;
use crate::text;
use crate::worktree_archive::{RootPlan, WindowId, WorkspaceId};
use crate::worktree_removal::RemovalError;
use vstd::prelude::*;

verus! {

/// Knows which worktrees are being removed, so that no two cleanups remove the same one.
pub struct ThreadArchiveCleanupCoordinator {
    in_flight_roots: Vec<String>,
}

/// The worktrees of the list that a cleanup may remove: each the first time it is named, and
/// only if no other cleanup is removing it.
pub open spec fn claimed(taken: Set<Seq<char>>, roots: Seq<RootPlan>) -> Seq<RootPlan>
    decreases roots.len(),
{
    if roots.len() == 0 {
        Seq::empty()
    } else {
        let others = claimed(taken, roots.drop_last());
        let path = roots.last().root_path@;
        if taken.contains(path) || root_paths(roots.drop_last()).contains(path) {
            others
        } else {
            others.push(roots.last())
        }
    }
}

impl ThreadArchiveCleanupCoordinator {
    /// The paths of the worktrees that are being removed.
    pub closed spec fn view(&self) -> Set<Seq<char>> {
        text::texts(self.in_flight_roots@).to_set()
    }

    /// Takes the worktrees that no other cleanup is removing, and remembers that they are taken.
    pub fn claim(&mut self, roots: Vec<RootPlan>) -> (mine: Vec<RootPlan>)
        ensures
            mine@ == claimed(old(self)@, roots@),
            final(self)@ == old(self)@.union(root_paths(roots@).to_set()),
    {
        let mut left = roots;
        let ghost all = roots@;
        let mut mine: Vec<RootPlan> = Vec::new();
        let ghost mut done: int = 0;
        assert(all.skip(0) =~= all);
        assert(all.take(0) =~= Seq::empty());
        assert(self@ =~= old(self)@.union(root_paths(all.take(0)).to_set()));
        while left.len() > 0
            invariant
                0 <= done <= all.len(),
                left@ == all.skip(done),
                mine@ == claimed(old(self)@, all.take(done)),
                self@ == old(self)@.union(root_paths(all.take(done)).to_set()),
            decreases left@.len(),
        {
            let root = left.remove(0);
            let ghost before = self@;
            let ghost taken = all.take(done);
            proof {
                assert(root == all[done]);
                assert(all.take(done + 1).drop_last() =~= taken);
                assert(left@ =~= all.skip(done + 1));
                assert(root_paths(all.take(done + 1)) =~= root_paths(taken).push(
                    root.root_path@,
                ));
                assert(before.contains(root.root_path@) == text::texts(
                    self.in_flight_roots@,
                ).contains(root.root_path@));
                root_paths(taken).lemma_push_to_set_commute(root.root_path@);
            }
            if !text::contains_text(&self.in_flight_roots, root.root_path.as_str()) {
                let ghost list = self.in_flight_roots@;
                self.in_flight_roots.push(root.root_path.clone());
                proof {
                    assert(text::texts(self.in_flight_roots@) =~= text::texts(list).push(
                        root.root_path@,
                    ));
                    text::texts(list).lemma_push_to_set_commute(root.root_path@);
                }
                mine.push(root);
            }
            proof {
                assert(self@ =~= old(self)@.union(root_paths(all.take(done + 1)).to_set()));
                done = done + 1;
            }
        }
        assert(all.take(done) =~= all);
        mine
    }

    /// Lets the worktrees go again.
    pub fn release_in_flight_roots(&mut self, roots: &Vec<RootPlan>)
        ensures
            final(self)@ == old(self)@.difference(root_paths(roots@).to_set()),
    {
        let ghost before = text::texts(self.in_flight_roots@);
        let ghost gone = root_paths(roots@);
        let mut kept: Vec<String> = Vec::new();
        let mut at: usize = 0;
        while at < self.in_flight_roots.len()
            invariant
                at <= self.in_flight_roots@.len(),
                before == text::texts(self.in_flight_roots@),
                gone == root_paths(roots@),
                forall|path: Seq<char>| #[trigger]
                    text::texts(kept@).contains(path) <==> before.take(at as int).contains(path)
                        && !gone.contains(path),
            decreases self.in_flight_roots@.len() - at,
        {
            let ghost so_far = kept@;
            let ghost path = before[at as int];
            assert(before.take(at + 1) =~= before.take(at as int).push(path));
            if !names_path(roots, self.in_flight_roots[at].as_str()) {
                kept.push(self.in_flight_roots[at].clone());
                assert(text::texts(kept@) =~= text::texts(so_far).push(path));
            }
            assert forall|other: Seq<char>| #[trigger]
                text::texts(kept@).contains(other) <==> before.take(at + 1).contains(other)
                    && !gone.contains(other) by {
                lists::pushed_contains(before.take(at as int), path, other);
                lists::pushed_contains(text::texts(so_far), path, other);
                assert(text::texts(so_far).contains(other) <==> before.take(at as int).contains(
                    other,
                ) && !gone.contains(other));
            }
            at = at + 1;
        }
        assert(before.take(at as int) =~= before);
        self.in_flight_roots = kept;
        assert(self@ =~= old(self)@.difference(gone.to_set()));
    }
}

impl Default for ThreadArchiveCleanupCoordinator {
    fn default() -> (coordinator: Self)
        ensures
            coordinator@ == Set::<Seq<char>>::empty(),
    {
        let coordinator = ThreadArchiveCleanupCoordinator { in_flight_roots: Vec::new() };
        assert(coordinator@ =~= Set::<Seq<char>>::empty());
        coordinator
    }
}

fn names_path(roots: &Vec<RootPlan>, path: &str) -> (named: bool)
    ensures
        named == root_paths(roots@).contains(path@),
{
    let mut at: usize = 0;
    while at < roots.len()
        invariant
            at <= roots@.len(),
            forall|i: int| 0 <= i < at ==> root_paths(roots@)[i] != path@,
        decreases roots@.len() - at,
    {
        if text::same_text(roots[at].root_path.as_str(), path) {
            assert(root_paths(roots@)[at as int] == path@);
            return true;
        }
        at = at + 1;
    }
    false
}

proof fn claimed_paths(taken: Set<Seq<char>>, roots: Seq<RootPlan>, path: Seq<char>)
    ensures
        root_paths(claimed(taken, roots)).contains(path) <==> root_paths(roots).contains(path)
            && !taken.contains(path),
    decreases roots.len(),
{
    if roots.len() > 0 {
        let front = roots.drop_last();
        let last = roots.last();
        claimed_paths(taken, front, path);
        claimed_paths(taken, front, last.root_path@);
        assert(root_paths(roots) =~= root_paths(front).push(last.root_path@));
        lists::pushed_contains(root_paths(front), last.root_path@, path);
        assert(root_paths(claimed(taken, front).push(last)) =~= root_paths(
            claimed(taken, front),
        ).push(last.root_path@));
        lists::pushed_contains(root_paths(claimed(taken, front)), last.root_path@, path);
    } else {
        assert(root_paths(roots) =~= Seq::empty());
        assert(root_paths(claimed(taken, roots)) =~= Seq::empty());
    }
}

/// No worktree is removed by two cleanups at once: a cleanup gets none that another has, the
/// next cleanup gets none of its own, and each worktree it asked for belongs to one of them.
pub proof fn claims_are_exclusive(
    taken: Set<Seq<char>>,
    first: Seq<RootPlan>,
    second: Seq<RootPlan>,
    path: Seq<char>,
)
    ensures
        root_paths(claimed(taken, first)).contains(path) ==> !taken.contains(path),
        root_paths(claimed(taken, first)).contains(path) ==> !root_paths(
            claimed(taken.union(root_paths(first).to_set()), second),
        ).contains(path),
        root_paths(first).contains(path) ==> taken.contains(path) || root_paths(
            claimed(taken, first),
        ).contains(path),
{
    claimed_paths(taken, first, path);
    claimed_paths(taken.union(root_paths(first).to_set()), second, path);
}

/// Letting go of what was claimed leaves everything taken by others, and nothing else.
pub proof fn release_undoes_claim(taken: Set<Seq<char>>, roots: Seq<RootPlan>)
    ensures
        taken.union(root_paths(roots).to_set()).difference(
            root_paths(claimed(taken, roots)).to_set(),
        ) == taken,
{
    let all = taken.union(root_paths(roots).to_set());
    let mine = root_paths(claimed(taken, roots)).to_set();
    assert forall|path: Seq<char>| all.difference(mine).contains(path) <==> taken.contains(
        path,
    ) by {
        claimed_paths(taken, roots, path);
    }
    assert(all.difference(mine) =~= taken);
}

/// A worktree that could not be removed.
#[derive(Debug, PartialEq, Eq)]
pub struct RootFailure {
    pub path: String,
    pub error: RemovalError,
}

impl RootFailure {
    /// What the user is told of it.
    pub open spec fn line(self) -> Seq<char> {
        self.path@ + ": "@ + self.error.text()
    }

    /// What the user is told of it.
    pub fn to_line(&self) -> (line: String)
        ensures
            line@ == self.line(),
    {
        let mut line = text::joined(self.path.as_str(), ": ");
        line.append(self.error.message().as_str());
        line
    }
}

/// How far a cleanup has come.
#[derive(Clone, Copy, Debug, PartialEq, Eq, Structural)]
pub enum CleanupPhase {
    /// Looking for the window of the current workspace, which will be empty.
    FindingCurrentWindow,
    /// Saving the current workspace.
    SavingCurrent(WindowId),
    /// Looking for the window of the affected workspace with this number.
    FindingWindow(usize),
    /// Saving the affected workspace with this number.
    Saving(usize, WindowId),
    /// Taking the user elsewhere.
    ActivatingFallback,
    /// Removing the worktree with this number.
    RemovingRoot(usize),
    /// Seeing whether the affected workspace with this number is empty now.
    CheckingWorkspace(usize),
    /// Removing the empty workspace with this number from its window.
    RemovingWorkspace(usize, WindowId),
    /// Closing the window that had nothing but the empty workspace with this number.
    RemovingWindow(usize, WindowId),
    /// Telling the user what could not be removed.
    ShowingError,
    /// Letting the worktrees go.
    ReleasingRoots,
    Finished,
}

/// What the outside world reports to a cleanup.
#[derive(Debug, PartialEq, Eq)]
pub enum CleanupRunEvent {
    WindowFound(Option<WindowId>),
    /// Whether the workspace was saved, or had nothing to save, and the cleanup may go on.
    Saved(bool),
    FallbackActivated,
    RootRemoved(Result<(), RemovalError>),
    /// Whether the workspace shows nothing any more, and the window it is in.
    WorkspaceChecked { is_empty: bool, window: Option<WindowId> },
    /// Whether the window had other workspaces and could let this one go.
    WorkspaceRemoved(bool),
    WindowRemoved,
    ErrorShown,
    RootsReleased,
}

/// A cleanup under way.
#[derive(Debug)]
pub struct CleanupRun {
    pub roots: Vec<RootPlan>,
    pub current_workspace: Option<WorkspaceId>,
    pub current_workspace_will_be_empty: bool,
    pub fallback: Option<FallbackTarget>,
    pub affected_workspaces: Vec<WorkspaceId>,
    pub errors: Vec<RootFailure>,
    pub phase: CleanupPhase,
}

/// What a [`CleanupRun`] says.
pub struct CleanupRunView {
    pub roots: Seq<RootPlan>,
    pub current_workspace: Option<WorkspaceId>,
    pub current_workspace_will_be_empty: bool,
    pub fallback: Option<FallbackTarget>,
    pub affected_workspaces: Seq<WorkspaceId>,
    pub errors: Seq<RootFailure>,
    pub phase: CleanupPhase,
}

impl View for CleanupRun {
    type V = CleanupRunView;

    open spec fn view(&self) -> CleanupRunView {
        CleanupRunView {
            roots: self.roots@,
            current_workspace: self.current_workspace,
            current_workspace_will_be_empty: self.current_workspace_will_be_empty,
            fallback: self.fallback,
            affected_workspaces: self.affected_workspaces@,
            errors: self.errors@,
            phase: self.phase,
        }
    }
}

impl CleanupRunView {
    /// Whether the phase is about things that are there.
    pub open spec fn is_valid(self) -> bool {
        &&& self.roots.len() > 0
        &&& match self.phase {
            CleanupPhase::FindingCurrentWindow => self.current_workspace is Some,
            CleanupPhase::SavingCurrent(_) => self.current_workspace is Some,
            CleanupPhase::FindingWindow(at) => at < self.affected_workspaces.len(),
            CleanupPhase::Saving(at, _) => at < self.affected_workspaces.len(),
            CleanupPhase::ActivatingFallback => self.fallback is Some,
            CleanupPhase::RemovingRoot(at) => at < self.roots.len(),
            CleanupPhase::CheckingWorkspace(at) => at < self.affected_workspaces.len(),
            CleanupPhase::RemovingWorkspace(at, _) => at < self.affected_workspaces.len(),
            CleanupPhase::RemovingWindow(at, _) => at < self.affected_workspaces.len(),
            _ => true,
        }
    }

    /// Whether the event answers what was asked for.
    pub open spec fn expects(self, event: CleanupRunEvent) -> bool {
        match self.phase {
            CleanupPhase::FindingCurrentWindow => event is WindowFound,
            CleanupPhase::SavingCurrent(_) => event is Saved,
            CleanupPhase::FindingWindow(_) => event is WindowFound,
            CleanupPhase::Saving(_, _) => event is Saved,
            CleanupPhase::ActivatingFallback => event is FallbackActivated,
            CleanupPhase::RemovingRoot(_) => event is RootRemoved,
            CleanupPhase::CheckingWorkspace(_) => event is WorkspaceChecked,
            CleanupPhase::RemovingWorkspace(_, _) => event is WorkspaceRemoved,
            CleanupPhase::RemovingWindow(_, _) => event is WindowRemoved,
            CleanupPhase::ShowingError => event is ErrorShown,
            CleanupPhase::ReleasingRoots => event is RootsReleased,
            CleanupPhase::Finished => false,
        }
    }

    /// The phase after all is saved: the user is taken elsewhere if need be, then the first
    /// worktree goes.
    pub open spec fn all_saved(self) -> CleanupPhase {
        if self.current_workspace_will_be_empty && self.fallback is Some {
            CleanupPhase::ActivatingFallback
        } else {
            CleanupPhase::RemovingRoot(0)
        }
    }

    /// The phase in which the next affected workspace is saved, from the given number on. The
    /// current one is not saved again.
    pub open spec fn saving_from(self, at: int) -> CleanupPhase
        decreases self.affected_workspaces.len() - at,
    {
        if at >= self.affected_workspaces.len() {
            self.all_saved()
        } else if Some(self.affected_workspaces[at]) == self.current_workspace {
            self.saving_from(at + 1)
        } else {
            CleanupPhase::FindingWindow(at as usize)
        }
    }

    /// The phase in which the next affected workspace is looked at, from the given number on.
    pub open spec fn checking_from(self, at: int) -> CleanupPhase {
        if at < self.affected_workspaces.len() {
            CleanupPhase::CheckingWorkspace(at as usize)
        } else if self.errors.len() > 0 {
            CleanupPhase::ShowingError
        } else {
            CleanupPhase::ReleasingRoots
        }
    }

    /// The first phase.
    pub open spec fn first_phase(self) -> CleanupPhase {
        if self.current_workspace is Some && self.current_workspace_will_be_empty {
            CleanupPhase::FindingCurrentWindow
        } else {
            self.saving_from(0)
        }
    }

    /// The same cleanup in another phase.
    pub open spec fn in_phase(self, phase: CleanupPhase) -> CleanupRunView {
        CleanupRunView { phase, ..self }
    }

    /// The errors after the removal of a worktree.
    pub open spec fn after_removal(self, at: int, result: Result<(), RemovalError>) -> CleanupRunView {
        match result {
            Ok(_) => self,
            Err(error) => CleanupRunView {
                errors: self.errors.push(RootFailure { path: self.roots[at].root_path, error }),
                ..self
            },
        }
    }

    /// The cleanup after the event. A workspace that may not be saved ends it before anything
    /// is removed.
    pub open spec fn after(self, event: CleanupRunEvent) -> CleanupRunView {
        match (self.phase, event) {
            (CleanupPhase::FindingCurrentWindow, CleanupRunEvent::WindowFound(window)) =>
                match window {
                    Some(window) => self.in_phase(CleanupPhase::SavingCurrent(window)),
                    None => self.in_phase(CleanupPhase::ReleasingRoots),
                },
            (CleanupPhase::SavingCurrent(_), CleanupRunEvent::Saved(go_on)) => if go_on {
                self.in_phase(self.saving_from(0))
            } else {
                self.in_phase(CleanupPhase::ReleasingRoots)
            },
            (CleanupPhase::FindingWindow(at), CleanupRunEvent::WindowFound(window)) =>
                match window {
                    Some(window) => self.in_phase(CleanupPhase::Saving(at, window)),
                    None => self.in_phase(self.saving_from(at + 1)),
                },
            (CleanupPhase::Saving(at, _), CleanupRunEvent::Saved(go_on)) => if go_on {
                self.in_phase(self.saving_from(at + 1))
            } else {
                self.in_phase(CleanupPhase::ReleasingRoots)
            },
            (CleanupPhase::ActivatingFallback, _) => self.in_phase(CleanupPhase::RemovingRoot(0)),
            (CleanupPhase::RemovingRoot(at), CleanupRunEvent::RootRemoved(result)) => {
                let next = self.after_removal(at as int, result);
                if at + 1 < self.roots.len() {
                    next.in_phase(CleanupPhase::RemovingRoot((at + 1) as usize))
                } else {
                    next.in_phase(next.checking_from(0))
                }
            },
            (
                CleanupPhase::CheckingWorkspace(at),
                CleanupRunEvent::WorkspaceChecked { is_empty, window },
            ) => match window {
                Some(window) if is_empty => self.in_phase(
                    CleanupPhase::RemovingWorkspace(at, window),
                ),
                _ => self.in_phase(self.checking_from(at + 1)),
            },
            (
                CleanupPhase::RemovingWorkspace(at, window),
                CleanupRunEvent::WorkspaceRemoved(removed),
            ) => if removed {
                self.in_phase(self.checking_from(at + 1))
            } else {
                self.in_phase(CleanupPhase::RemovingWindow(at, window))
            },
            (CleanupPhase::RemovingWindow(at, _), _) => self.in_phase(self.checking_from(at + 1)),
            (CleanupPhase::ShowingError, _) => self.in_phase(CleanupPhase::ReleasingRoots),
            (CleanupPhase::ReleasingRoots, _) => self.in_phase(CleanupPhase::Finished),
            _ => self,
        }
    }
}

impl CleanupRun {
    fn saving_from(&self, at: usize) -> (phase: CleanupPhase)
        requires
            self.roots@.len() > 0,
        ensures
            phase == self@.saving_from(at as int),
            self@.in_phase(phase).is_valid(),
        decreases self.affected_workspaces@.len() - at,
    {
        if at >= self.affected_workspaces.len() {
            return if self.current_workspace_will_be_empty && self.fallback.is_some() {
                CleanupPhase::ActivatingFallback
            } else {
                CleanupPhase::RemovingRoot(0)
            };
        }
        let is_current = match self.current_workspace {
            Some(current) => self.affected_workspaces[at] == current,
            None => false,
        };
        if is_current {
            self.saving_from(at + 1)
        } else {
            CleanupPhase::FindingWindow(at)
        }
    }

    fn checking_from(&self, at: usize) -> (phase: CleanupPhase)
        requires
            self.roots@.len() > 0,
        ensures
            phase == self@.checking_from(at as int),
            self@.in_phase(phase).is_valid(),
    {
        if at < self.affected_workspaces.len() {
            CleanupPhase::CheckingWorkspace(at)
        } else if self.errors.len() > 0 {
            CleanupPhase::ShowingError
        } else {
            CleanupPhase::ReleasingRoots
        }
    }

    /// Takes what was reported into account.
    pub fn advance(&mut self, event: CleanupRunEvent)
        requires
            old(self)@.is_valid(),
            old(self)@.expects(event),
        ensures
            final(self)@ == old(self)@.after(event),
            final(self)@.is_valid(),
    {
        assert(self.affected_workspaces@.len() == self.affected_workspaces.len());
        match (self.phase, event) {
            (CleanupPhase::FindingCurrentWindow, CleanupRunEvent::WindowFound(window)) => {
                self.phase = match window {
                    Some(window) => CleanupPhase::SavingCurrent(window),
                    None => CleanupPhase::ReleasingRoots,
                };
            },
            (CleanupPhase::SavingCurrent(_), CleanupRunEvent::Saved(go_on)) => {
                self.phase = if go_on {
                    self.saving_from(0)
                } else {
                    CleanupPhase::ReleasingRoots
                };
            },
            (CleanupPhase::FindingWindow(at), CleanupRunEvent::WindowFound(window)) => {
                self.phase = match window {
                    Some(window) => CleanupPhase::Saving(at, window),
                    None => self.saving_from(at + 1),
                };
            },
            (CleanupPhase::Saving(at, _), CleanupRunEvent::Saved(go_on)) => {
                self.phase = if go_on {
                    self.saving_from(at + 1)
                } else {
                    CleanupPhase::ReleasingRoots
                };
            },
            (CleanupPhase::ActivatingFallback, _) => {
                self.phase = CleanupPhase::RemovingRoot(0);
            },
            (CleanupPhase::RemovingRoot(at), CleanupRunEvent::RootRemoved(result)) => {
                if let Err(error) = result {
                    let path = self.roots[at].root_path.clone();
                    self.errors.push(RootFailure { path, error });
                }
                self.phase = if self.roots.len() - at > 1 {
                    CleanupPhase::RemovingRoot(at + 1)
                } else {
                    self.checking_from(0)
                };
            },
            (
                CleanupPhase::CheckingWorkspace(at),
                CleanupRunEvent::WorkspaceChecked { is_empty, window },
            ) => {
                self.phase = match window {
                    Some(window) if is_empty => CleanupPhase::RemovingWorkspace(at, window),
                    _ => self.checking_from(at + 1),
                };
            },
            (
                CleanupPhase::RemovingWorkspace(at, window),
                CleanupRunEvent::WorkspaceRemoved(removed),
            ) => {
                self.phase = if removed {
                    self.checking_from(at + 1)
                } else {
                    CleanupPhase::RemovingWindow(at, window)
                };
            },
            (CleanupPhase::RemovingWindow(at, _), _) => {
                self.phase = self.checking_from(at + 1);
            },
            (CleanupPhase::ShowingError, _) => {
                self.phase = CleanupPhase::ReleasingRoots;
            },
            (CleanupPhase::ReleasingRoots, _) => {
                self.phase = CleanupPhase::Finished;
            },
            _ => {},
        }
    }
}

/// Starts the cleanup with those worktrees of the plan that no other cleanup is removing. There
/// is nothing to do where none is left.
pub fn run_cleanup(
    plan: CleanupPlan,
    coordinator: &mut ThreadArchiveCleanupCoordinator,
) -> (run: Option<CleanupRun>)
    ensures
        final(coordinator)@ == old(coordinator)@.union(root_paths(plan.roots@).to_set()),
        claimed(old(coordinator)@, plan.roots@).len() == 0 ==> run is None,
        claimed(old(coordinator)@, plan.roots@).len() > 0 ==> {
            let start = CleanupRunView {
                roots: claimed(old(coordinator)@, plan.roots@),
                current_workspace: plan.current_workspace,
                current_workspace_will_be_empty: plan.current_workspace_will_be_empty,
                fallback: plan.fallback,
                affected_workspaces: plan.affected_workspaces@,
                errors: Seq::empty(),
                phase: CleanupPhase::Finished,
            };
            &&& run is Some
            &&& run->0@ == start.in_phase(start.first_phase())
            &&& run->0@.is_valid()
        },
{
    let CleanupPlan {
        roots,
        current_workspace,
        current_workspace_will_be_empty,
        fallback,
        affected_workspaces,
    } = plan;
    let roots = coordinator.claim(roots);
    if roots.len() == 0 {
        return None;
    }
    let mut run = CleanupRun {
        roots,
        current_workspace,
        current_workspace_will_be_empty,
        fallback,
        affected_workspaces,
        errors: Vec::new(),
        phase: CleanupPhase::Finished,
    };
    run.phase = if run.current_workspace.is_some() && run.current_workspace_will_be_empty {
        CleanupPhase::FindingCurrentWindow
    } else {
        run.saving_from(0)
    };
    Some(run)
}

/// What has to be done next in a cleanup.
#[derive(Debug, PartialEq, Eq)]
pub enum CleanupRunAction {
    FindWindow(WorkspaceId),
    Save(WorkspaceId, WindowId),
    ActivateFallback,
    RemoveRoot(usize),
    CheckWorkspace(WorkspaceId),
    RemoveWorkspace(WorkspaceId, WindowId),
    RemoveWindow(WindowId),
    ShowError,
    ReleaseRoots,
    Finish,
}

impl CleanupRunView {
    /// What has to be done next.
    pub open spec fn next_action(self) -> CleanupRunAction {
        match self.phase {
            CleanupPhase::FindingCurrentWindow => CleanupRunAction::FindWindow(
                self.current_workspace->0,
            ),
            CleanupPhase::SavingCurrent(window) => CleanupRunAction::Save(
                self.current_workspace->0,
                window,
            ),
            CleanupPhase::FindingWindow(at) => CleanupRunAction::FindWindow(
                self.affected_workspaces[at as int],
            ),
            CleanupPhase::Saving(at, window) => CleanupRunAction::Save(
                self.affected_workspaces[at as int],
                window,
            ),
            CleanupPhase::ActivatingFallback => CleanupRunAction::ActivateFallback,
            CleanupPhase::RemovingRoot(at) => CleanupRunAction::RemoveRoot(at),
            CleanupPhase::CheckingWorkspace(at) => CleanupRunAction::CheckWorkspace(
                self.affected_workspaces[at as int],
            ),
            CleanupPhase::RemovingWorkspace(at, window) => CleanupRunAction::RemoveWorkspace(
                self.affected_workspaces[at as int],
                window,
            ),
            CleanupPhase::RemovingWindow(_, window) => CleanupRunAction::RemoveWindow(window),
            CleanupPhase::ShowingError => CleanupRunAction::ShowError,
            CleanupPhase::ReleasingRoots => CleanupRunAction::ReleaseRoots,
            CleanupPhase::Finished => CleanupRunAction::Finish,
        }
    }
}

impl CleanupRun {
    /// What has to be done next.
    pub fn action(&self) -> (action: CleanupRunAction)
        requires
            self@.is_valid(),
        ensures
            action == self@.next_action(),
    {
        match self.phase {
            CleanupPhase::FindingCurrentWindow => CleanupRunAction::FindWindow(
                self.current_workspace.unwrap(),
            ),
            CleanupPhase::SavingCurrent(window) => CleanupRunAction::Save(
                self.current_workspace.unwrap(),
                window,
            ),
            CleanupPhase::FindingWindow(at) => CleanupRunAction::FindWindow(
                self.affected_workspaces[at],
            ),
            CleanupPhase::Saving(at, window) => CleanupRunAction::Save(
                self.affected_workspaces[at],
                window,
            ),
            CleanupPhase::ActivatingFallback => CleanupRunAction::ActivateFallback,
            CleanupPhase::RemovingRoot(at) => CleanupRunAction::RemoveRoot(at),
            CleanupPhase::CheckingWorkspace(at) => CleanupRunAction::CheckWorkspace(
                self.affected_workspaces[at],
            ),
            CleanupPhase::RemovingWorkspace(at, window) => CleanupRunAction::RemoveWorkspace(
                self.affected_workspaces[at],
                window,
            ),
            CleanupPhase::RemovingWindow(_, window) => CleanupRunAction::RemoveWindow(window),
            CleanupPhase::ShowingError => CleanupRunAction::ShowError,
            CleanupPhase::ReleasingRoots => CleanupRunAction::ReleaseRoots,
            CleanupPhase::Finished => CleanupRunAction::Finish,
        }
    }
}

/// What has to be done to save a workspace before directories are taken from it.
#[derive(Debug, PartialEq, Eq)]
pub struct SaveRequest {
    pub workspace: WorkspaceId,
    pub window: WindowId,
    /// Whether the workspace has to be brought before the user, who will be asked what to do
    /// with unsaved changes.
    pub activate: bool,
}

/// Starts saving a workspace before directories are taken from it. `dirty_items` says of each of
/// its items whether it has unsaved changes.
pub fn save_workspace_for_root_removal(
    workspace: WorkspaceId,
    window: WindowId,
    dirty_items: &Vec<bool>,
) -> (request: SaveRequest)
    ensures
        request.workspace == workspace,
        request.window == window,
        request.activate == dirty_items@.contains(true),
{
    let mut activate = false;
    let mut at: usize = 0;
    while at < dirty_items.len()
        invariant
            at <= dirty_items@.len(),
            activate == dirty_items@.take(at as int).contains(true),
        decreases dirty_items@.len() - at,
    {
        proof {
            let item = dirty_items@[at as int];
            assert(dirty_items@.take(at + 1) =~= dirty_items@.take(at as int).push(item));
            lists::pushed_contains(dirty_items@.take(at as int), item, true);
        }
        activate = activate || dirty_items[at];
        at = at + 1;
    }
    assert(dirty_items@.take(at as int) =~= dirty_items@);
    SaveRequest { workspace, window, activate }
}

/// Whether a cleanup may go on after a workspace was asked to save its changes: only where the
/// request reached the workspace, did not fail, and was not refused.
pub fn save_allows_removal(saved: Option<Result<bool, String>>) -> (go_on: bool)
    ensures
        go_on == (saved matches Some(Ok(answer)) && answer),
{
    match saved {
        Some(Ok(answer)) => answer,
        _ => false,
    }
}

/// What has to be done to take the user elsewhere.
#[derive(Debug, PartialEq, Eq)]
pub enum FallbackAction {
    Activate { window: WindowId, workspace: WorkspaceId },
    OpenPaths { path: String, requesting_window: WindowId, app_state: WorkspaceId },
    OpenNew { requesting_window: WindowId, app_state: WorkspaceId },
}

/// What has to be done to take the user elsewhere. Opening something new takes the application
/// state of an open workspace.
pub fn activate_fallback(target: FallbackTarget, app_state: Option<WorkspaceId>) -> (action: Result<
    FallbackAction,
    String,
>)
    ensures
        match target {
            FallbackTarget::ExistingWorkspace { window, workspace } => action == Ok::<_, String>(
                (FallbackAction::Activate { window, workspace }),
            ),
            FallbackTarget::OpenPaths { requesting_window, path } => match app_state {
                Some(app_state) => action == Ok::<_, String>(
                    (FallbackAction::OpenPaths { path, requesting_window, app_state }),
                ),
                None => action is Err && action->Err_0@ == "no workspace app state available"@,
            },
            FallbackTarget::OpenEmpty { requesting_window } => match app_state {
                Some(app_state) => action == Ok::<_, String>(
                    (FallbackAction::OpenNew { requesting_window, app_state }),
                ),
                None => action is Err && action->Err_0@ == "no workspace app state available"@,
            },
        },
{
    match (target, app_state) {
        (FallbackTarget::ExistingWorkspace { window, workspace }, _) => Ok(
            FallbackAction::Activate { window, workspace },
        ),
        (FallbackTarget::OpenPaths { requesting_window, path }, Some(app_state)) => Ok(
            FallbackAction::OpenPaths { path, requesting_window, app_state },
        ),
        (FallbackTarget::OpenEmpty { requesting_window }, Some(app_state)) => Ok(
            FallbackAction::OpenNew { requesting_window, app_state },
        ),
        (_, None) => Err("no workspace app state available".to_owned()),
    }
}

/// A short message in a workspace.
#[derive(Debug, PartialEq, Eq)]
pub struct Toast {
    pub workspace: WorkspaceId,
    pub message: String,
}

/// A summary with its details, where there are any.
pub open spec fn toast_text(summary: Seq<char>, detail: Seq<char>) -> Seq<char> {
    if detail.len() == 0 {
        summary
    } else {
        summary + ": "@ + detail
    }
}

/// The message for the user. It is shown in the current workspace, or else in the first of the
/// affected ones.
pub fn show_error_toast(
    summary: &str,
    detail: &str,
    current_workspace: Option<WorkspaceId>,
    affected_workspaces: &Vec<WorkspaceId>,
) -> (toast: Option<Toast>)
    ensures
        match toast {
            Some(toast) => {
                &&& Some(toast.workspace) == (if current_workspace is Some {
                    current_workspace
                } else {
                    Some(affected_workspaces@[0])
                })
                &&& toast.message@ == toast_text(summary@, detail@)
            },
            None => current_workspace is None && affected_workspaces@.len() == 0,
        },
        current_workspace is None && affected_workspaces@.len() == 0 ==> toast is None,
{
    let workspace = match current_workspace {
        Some(workspace) => workspace,
        None => {
            if affected_workspaces.len() == 0 {
                return None;
            }
            affected_workspaces[0]
        },
    };
    let message = if detail.is_empty() {
        summary.to_owned()
    } else {
        let mut message = text::joined(summary, ": ");
        message.append(detail);
        message
    };
    Some(Toast { workspace, message })
}

/// The lines that tell the user what could not be removed.
pub open spec fn failure_lines(failures: Seq<RootFailure>) -> Seq<Seq<char>> {
    Seq::new(failures.len(), |i: int| failures[i].line())
}

impl CleanupRun {
    /// The message that tells the user what could not be removed, one line for each worktree.
    pub fn error_toast(&self) -> (toast: Option<Toast>)
        ensures
            match toast {
                Some(toast) => {
                    &&& Some(toast.workspace) == (if self.current_workspace is Some {
                        self.current_workspace
                    } else {
                        Some(self.affected_workspaces@[0])
                    })
                    &&& toast.message@ == toast_text(
                        "Thread archived, but linked worktree cleanup failed"@,
                        text::join(failure_lines(self.errors@), "\n"@),
                    )
                },
                None => self.current_workspace is None && self.affected_workspaces@.len() == 0,
            },
            self.current_workspace is None && self.affected_workspaces@.len() == 0
                ==> toast is None,
    {
        let mut lines: Vec<String> = Vec::new();
        let mut at: usize = 0;
        while at < self.errors.len()
            invariant
                at <= self.errors@.len(),
                lines@.len() == at,
                forall|i: int| 0 <= i < at ==> (#[trigger] lines@[i])@ == self.errors@[i].line(),
            decreases self.errors@.len() - at,
        {
            lines.push(self.errors[at].to_line());
            at = at + 1;
        }
        assert(text::texts(lines@) =~= failure_lines(self.errors@));
        show_error_toast(
            "Thread archived, but linked worktree cleanup failed",
            text::join_texts(&lines, "\n").as_str(),
            self.current_workspace,
            &self.affected_workspaces,
        )
    }
}

/// The cleanup after all the events.
pub open spec fn run_after(start: CleanupRunView, events: Seq<CleanupRunEvent>) -> CleanupRunView
    decreases events.len(),
{
    if events.len() == 0 {
        start
    } else {
        run_after(start, events.drop_last()).after(events.last())
    }
}

/// Whether each event answered what the cleanup had asked for.
pub open spec fn is_cleanup(start: CleanupRunView, events: Seq<CleanupRunEvent>) -> bool
    decreases events.len(),
{
    events.len() > 0 ==> is_cleanup(start, events.drop_last()) && run_after(
        start,
        events.drop_last(),
    ).expects(events.last())
}

/// The numbers of the worktrees whose removal was tried, in order.
pub open spec fn tried(start: CleanupRunView, events: Seq<CleanupRunEvent>) -> Seq<int>
    decreases events.len(),
{
    if events.len() == 0 {
        Seq::empty()
    } else {
        let before = tried(start, events.drop_last());
        match run_after(start, events.drop_last()).next_action() {
            CleanupRunAction::RemoveRoot(at) => before.push(at as int),
            _ => before,
        }
    }
}

/// Whether the user was taken elsewhere.
pub open spec fn moved(start: CleanupRunView, events: Seq<CleanupRunEvent>) -> bool
    decreases events.len(),
{
    events.len() > 0 && (moved(start, events.drop_last()) || run_after(
        start,
        events.drop_last(),
    ).next_action() is ActivateFallback)
}

/// Whether a workspace was asked to save its changes and would not go on.
pub open spec fn refused(events: Seq<CleanupRunEvent>) -> bool {
    exists|i: int|
        0 <= i < events.len() && #[trigger] events[i] == CleanupRunEvent::Saved(false)
}

proof fn saving_leads_to_removal(run: CleanupRunView, at: int)
    requires
        at >= 0,
        run.affected_workspaces.len() <= usize::MAX,
    ensures
        match run.saving_from(at) {
            CleanupPhase::FindingWindow(next) => at <= next < run.affected_workspaces.len()
                && Some(run.affected_workspaces[next as int]) != run.current_workspace,
            CleanupPhase::ActivatingFallback => run.current_workspace_will_be_empty
                && run.fallback is Some,
            CleanupPhase::RemovingRoot(next) => next == 0 && !(run.current_workspace_will_be_empty
                && run.fallback is Some),
            _ => false,
        },
    decreases run.affected_workspaces.len() - at,
{
    if at < run.affected_workspaces.len() && Some(run.affected_workspaces[at])
        == run.current_workspace {
        saving_leads_to_removal(run, at + 1);
    }
}

proof fn progress(start: CleanupRunView, events: Seq<CleanupRunEvent>)
    requires
        start.roots.len() > 0,
        start.roots.len() <= usize::MAX,
        start.affected_workspaces.len() <= usize::MAX,
        start.phase == start.first_phase(),
        is_cleanup(start, events),
    ensures
        ({
            let run = run_after(start, events);
            let count = tried(start, events);
            let all = Seq::new(start.roots.len(), |i: int| i);
            let must_move = start.current_workspace_will_be_empty && start.fallback is Some;
            &&& run == (CleanupRunView { phase: run.phase, errors: run.errors, ..start })
            &&& run.is_valid()
            &&& refused(events) ==> count.len() == 0 && (run.phase is ReleasingRoots
                || run.phase is Finished)
            &&& count.len() > 0 && must_move ==> moved(start, events)
            &&& match run.phase {
                CleanupPhase::FindingCurrentWindow => count == Seq::<int>::empty(),
                CleanupPhase::SavingCurrent(_) => count == Seq::<int>::empty(),
                CleanupPhase::FindingWindow(_) => count == Seq::<int>::empty(),
                CleanupPhase::Saving(_, _) => count == Seq::<int>::empty(),
                CleanupPhase::ActivatingFallback => count == Seq::<int>::empty(),
                CleanupPhase::RemovingRoot(at) => count == Seq::new(at as nat, |i: int| i) && (
                must_move ==> moved(start, events)),
                CleanupPhase::ReleasingRoots => count == all || count == Seq::<int>::empty(),
                CleanupPhase::Finished => (count == all || count == Seq::<int>::empty())
                    && events.len() > 0 && events.last() is RootsReleased,
                _ => count == all,
            }
        }),
    decreases events.len(),
{
    if events.len() == 0 {
        saving_leads_to_removal(start, 0);
        assert(tried(start, events) =~= Seq::<int>::empty());
        assert(tried(start, events) =~= Seq::new(0, |i: int| i));
    } else {
        let before = events.drop_last();
        progress(start, before);
        let run = run_after(start, before);
        let event = events.last();
        if refused(events) && event != CleanupRunEvent::Saved(false) {
            let i = choose|i: int|
                0 <= i < events.len() && #[trigger] events[i] == CleanupRunEvent::Saved(false);
            assert(before[i] == CleanupRunEvent::Saved(false));
        }
        match run.phase {
            CleanupPhase::SavingCurrent(_) => saving_leads_to_removal(run, 0),
            CleanupPhase::FindingWindow(at) => saving_leads_to_removal(run, at + 1),
            CleanupPhase::Saving(at, _) => saving_leads_to_removal(run, at + 1),
            _ => {},
        }
        assert(Seq::new(0, |i: int| i) =~= Seq::<int>::empty());
        if let CleanupPhase::RemovingRoot(at) = run.phase {
            assert(tried(start, events) =~= Seq::new((at + 1) as nat, |i: int| i));
        }
    }
}

/// Nothing is removed once a workspace with unsaved changes would not go on: not one worktree
/// was touched before, and none is after.
pub proof fn refusal_keeps_every_worktree(start: CleanupRunView, events: Seq<CleanupRunEvent>)
    requires
        start.roots.len() > 0,
        start.roots.len() <= usize::MAX,
        start.affected_workspaces.len() <= usize::MAX,
        start.phase == start.first_phase(),
        is_cleanup(start, events),
        refused(events),
    ensures
        tried(start, events).len() == 0,
{
    progress(start, events);
}

/// A cleanup that ends has tried to remove all of its worktrees, in order and once each, or none
/// of them; and letting them go is the last thing it does.
pub proof fn cleanup_is_all_or_nothing(start: CleanupRunView, events: Seq<CleanupRunEvent>)
    requires
        start.roots.len() > 0,
        start.roots.len() <= usize::MAX,
        start.affected_workspaces.len() <= usize::MAX,
        start.phase == start.first_phase(),
        is_cleanup(start, events),
        run_after(start, events).phase is Finished,
    ensures
        tried(start, events) == Seq::new(start.roots.len(), |i: int| i) || tried(
            start,
            events,
        ).len() == 0,
        events.len() > 0,
        events.last() is RootsReleased,
{
    progress(start, events);
}

/// Where the current workspace will be empty, the user is elsewhere before the first worktree
/// goes.
pub proof fn user_moves_before_removal(start: CleanupRunView, events: Seq<CleanupRunEvent>)
    requires
        start.roots.len() > 0,
        start.roots.len() <= usize::MAX,
        start.affected_workspaces.len() <= usize::MAX,
        start.phase == start.first_phase(),
        start.current_workspace_will_be_empty,
        start.fallback is Some,
        is_cleanup(start, events),
        tried(start, events).len() > 0,
    ensures
        moved(start, events),
{
    progress(start, events);
}

/// What the cleanup asked for once so many of the events had come.
pub open spec fn asked(
    start: CleanupRunView,
    events: Seq<CleanupRunEvent>,
    at: int,
) -> CleanupRunAction {
    run_after(start, events.take(at)).next_action()
}

/// Whether a cleanup starts here: it has worktrees to remove, and lists that a machine can hold.
pub open spec fn is_cleanup_start(start: CleanupRunView) -> bool {
    &&& 0 < start.roots.len() <= usize::MAX
    &&& start.affected_workspaces.len() <= usize::MAX
    &&& start.errors.len() == 0
    &&& start.phase == start.first_phase()
}

/// Whether the answer says that the workspace was saved.
pub open spec fn says_saved(
    action: CleanupRunAction,
    event: CleanupRunEvent,
    workspace: WorkspaceId,
) -> bool {
    (action matches CleanupRunAction::Save(asked, _) && asked == workspace) && event
        == CleanupRunEvent::Saved(true)
}

/// Whether the answer says that the workspace has no window in which it could be saved.
pub open spec fn says_windowless(
    action: CleanupRunAction,
    event: CleanupRunEvent,
    workspace: WorkspaceId,
) -> bool {
    action == CleanupRunAction::FindWindow(workspace) && event == CleanupRunEvent::WindowFound(None)
}

/// Whether one of the first answers says that the workspace was saved.
pub open spec fn was_saved(
    start: CleanupRunView,
    events: Seq<CleanupRunEvent>,
    before: int,
    workspace: WorkspaceId,
) -> bool {
    exists|i: int|
        0 <= i < before && says_saved(#[trigger] asked(start, events, i), events[i], workspace)
}

/// Whether one of the first answers says that the workspace was saved or has no window.
pub open spec fn was_dealt_with(
    start: CleanupRunView,
    events: Seq<CleanupRunEvent>,
    before: int,
    workspace: WorkspaceId,
) -> bool {
    was_saved(start, events, before, workspace) || exists|i: int|
        0 <= i < before && says_windowless(#[trigger] asked(start, events, i), events[i], workspace)
}

proof fn asked_before(start: CleanupRunView, events: Seq<CleanupRunEvent>, at: int)
    requires
        0 <= at < events.len(),
    ensures
        asked(start, events.drop_last(), at) == asked(start, events, at),
{
    assert(events.drop_last().take(at) =~= events.take(at));
}

proof fn stays_saved(
    start: CleanupRunView,
    events: Seq<CleanupRunEvent>,
    workspace: WorkspaceId,
)
    requires
        events.len() > 0,
        was_saved(start, events.drop_last(), events.len() - 1, workspace),
    ensures
        was_saved(start, events, events.len() as int, workspace),
{
    let before = events.drop_last();
    let i = choose|i: int|
        0 <= i < before.len() && says_saved(
            #[trigger] asked(start, before, i),
            before[i],
            workspace,
        );
    asked_before(start, events, i);
    assert(says_saved(asked(start, events, i), events[i], workspace));
}

proof fn stays_dealt_with(
    start: CleanupRunView,
    events: Seq<CleanupRunEvent>,
    workspace: WorkspaceId,
)
    requires
        events.len() > 0,
        was_dealt_with(start, events.drop_last(), events.len() - 1, workspace),
    ensures
        was_dealt_with(start, events, events.len() as int, workspace),
{
    let before = events.drop_last();
    if was_saved(start, before, events.len() - 1, workspace) {
        stays_saved(start, events, workspace);
    } else {
        let i = choose|i: int|
            0 <= i < before.len() && says_windowless(
                #[trigger] asked(start, before, i),
                before[i],
                workspace,
            );
        asked_before(start, events, i);
        assert(says_windowless(asked(start, events, i), events[i], workspace));
    }
}

/// Whether every affected workspace of the first ones is dealt with, the current one aside.
spec fn dealt_with_until(
    start: CleanupRunView,
    events: Seq<CleanupRunEvent>,
    count: int,
) -> bool {
    forall|k: int|
        0 <= k < count && Some(#[trigger] start.affected_workspaces[k]) != start.current_workspace
            ==> was_dealt_with(
            start,
            events,
            events.len() as int,
            start.affected_workspaces[k],
        )
}

spec fn current_is_saved(start: CleanupRunView, events: Seq<CleanupRunEvent>) -> bool {
    start.current_workspace_will_be_empty && start.current_workspace is Some ==> was_saved(
        start,
        events,
        events.len() as int,
        start.current_workspace->0,
    )
}

proof fn saving_passes_only_the_current(run: CleanupRunView, at: int)
    requires
        0 <= at,
        run.affected_workspaces.len() <= usize::MAX,
    ensures
        forall|k: int|
            at <= k < run.affected_workspaces.len() && Some(
                #[trigger] run.affected_workspaces[k],
            ) != run.current_workspace ==> (run.saving_from(at) matches CleanupPhase::FindingWindow(
                next,
            ) && next <= k),
    decreases run.affected_workspaces.len() - at,
{
    if at < run.affected_workspaces.len() && Some(run.affected_workspaces[at])
        == run.current_workspace {
        saving_passes_only_the_current(run, at + 1);
    }
}

proof fn saving_progress(start: CleanupRunView, events: Seq<CleanupRunEvent>)
    requires
        is_cleanup_start(start),
        is_cleanup(start, events),
    ensures
        ({
            let run = run_after(start, events);
            let all = start.affected_workspaces.len() as int;
            match run.phase {
                CleanupPhase::FindingCurrentWindow => true,
                CleanupPhase::SavingCurrent(_) => true,
                CleanupPhase::FindingWindow(at) => dealt_with_until(start, events, at as int)
                    && current_is_saved(start, events),
                CleanupPhase::Saving(at, _) => dealt_with_until(start, events, at as int)
                    && current_is_saved(start, events),
                CleanupPhase::ReleasingRoots => true,
                CleanupPhase::Finished => true,
                _ => dealt_with_until(start, events, all) && current_is_saved(start, events),
            }
        }),
    decreases events.len(),
{
    progress(start, events);
    if events.len() == 0 {
        saving_leads_to_removal(start, 0);
        saving_passes_only_the_current(start, 0);
    } else {
        let before = events.drop_last();
        saving_progress(start, before);
        progress(start, before);
        let run = run_after(start, before);
        let event = events.last();
        let end = events.len() as int;
        assert(events.take(end - 1) =~= before);
        assert(asked(start, events, end - 1) == run.next_action());
        assert forall|workspace: WorkspaceId|
            was_dealt_with(start, before, end - 1, workspace) implies #[trigger] was_dealt_with(
            start,
            events,
            end,
            workspace,
        ) by {
            stays_dealt_with(start, events, workspace);
        }
        if current_is_saved(start, before) && start.current_workspace_will_be_empty
            && start.current_workspace is Some {
            stays_saved(start, events, start.current_workspace->0);
        }
        match run.phase {
            CleanupPhase::SavingCurrent(_) => {
                saving_leads_to_removal(run, 0);
                saving_passes_only_the_current(run, 0);
                if event == CleanupRunEvent::Saved(true) {
                    assert(says_saved(
                        asked(start, events, end - 1),
                        events[end - 1],
                        start.current_workspace->0,
                    ));
                }
            },
            CleanupPhase::FindingWindow(at) => {
                saving_leads_to_removal(run, at + 1);
                saving_passes_only_the_current(run, at + 1);
                if event == CleanupRunEvent::WindowFound(None) {
                    assert(says_windowless(
                        asked(start, events, end - 1),
                        events[end - 1],
                        start.affected_workspaces[at as int],
                    ));
                }
            },
            CleanupPhase::Saving(at, _) => {
                saving_leads_to_removal(run, at + 1);
                saving_passes_only_the_current(run, at + 1);
                if event == CleanupRunEvent::Saved(true) {
                    assert(says_saved(
                        asked(start, events, end - 1),
                        events[end - 1],
                        start.affected_workspaces[at as int],
                    ));
                }
            },
            _ => {},
        }
    }
}

/// No unsaved work is lost: before the first worktree goes, every affected workspace but the
/// current one was saved, or found to have no window; and where the current workspace will be
/// empty, it was saved as well.
pub proof fn workspaces_are_saved_before_removal(
    start: CleanupRunView,
    events: Seq<CleanupRunEvent>,
    removal: int,
)
    requires
        is_cleanup_start(start),
        is_cleanup(start, events),
        0 <= removal <= events.len(),
        asked(start, events, removal) is RemoveRoot,
    ensures
        forall|k: int|
            0 <= k < start.affected_workspaces.len() && Some(
                #[trigger] start.affected_workspaces[k],
            ) != start.current_workspace ==> was_dealt_with(
                start,
                events,
                removal,
                start.affected_workspaces[k],
            ),
        start.current_workspace_will_be_empty && start.current_workspace is Some ==> was_saved(
            start,
            events,
            removal,
            start.current_workspace->0,
        ),
    decreases events.len(),
{
    if removal == events.len() {
        assert(events.take(removal) =~= events);
        saving_progress(start, events);
    } else {
        let before = events.drop_last();
        asked_before(start, events, removal);
        workspaces_are_saved_before_removal(start, before, removal);
        assert forall|workspace: WorkspaceId|
            was_saved(start, before, removal, workspace) implies #[trigger] was_saved(
            start,
            events,
            removal,
            workspace,
        ) by {
            let i = choose|i: int|
                0 <= i < removal && says_saved(
                    #[trigger] asked(start, before, i),
                    before[i],
                    workspace,
                );
            asked_before(start, events, i);
            assert(says_saved(asked(start, events, i), events[i], workspace));
        }
        assert forall|workspace: WorkspaceId|
            was_dealt_with(start, before, removal, workspace) implies #[trigger] was_dealt_with(
            start,
            events,
            removal,
            workspace,
        ) by {
            if !was_saved(start, before, removal, workspace) {
                let i = choose|i: int|
                    0 <= i < removal && says_windowless(
                        #[trigger] asked(start, before, i),
                        before[i],
                        workspace,
                    );
                asked_before(start, events, i);
                assert(says_windowless(asked(start, events, i), events[i], workspace));
            } else {
                assert(was_saved(start, events, removal, workspace));
            }
        }
    }
}

/// The removals that failed, in order, each with the path of its worktree.
pub open spec fn failed_removals(
    start: CleanupRunView,
    events: Seq<CleanupRunEvent>,
) -> Seq<RootFailure>
    decreases events.len(),
{
    if events.len() == 0 {
        Seq::empty()
    } else {
        let before = failed_removals(start, events.drop_last());
        match (run_after(start, events.drop_last()).next_action(), events.last()) {
            (CleanupRunAction::RemoveRoot(at), CleanupRunEvent::RootRemoved(Err(error))) =>
                before.push(RootFailure { path: start.roots[at as int].root_path, error }),
            _ => before,
        }
    }
}

/// The workspaces that were looked at after the removals, in order.
pub open spec fn checked(start: CleanupRunView, events: Seq<CleanupRunEvent>) -> Seq<WorkspaceId>
    decreases events.len(),
{
    if events.len() == 0 {
        Seq::empty()
    } else {
        let before = checked(start, events.drop_last());
        match run_after(start, events.drop_last()).next_action() {
            CleanupRunAction::CheckWorkspace(workspace) => before.push(workspace),
            _ => before,
        }
    }
}

/// How often the user was told what could not be removed.
pub open spec fn times_told(start: CleanupRunView, events: Seq<CleanupRunEvent>) -> nat
    decreases events.len(),
{
    if events.len() == 0 {
        0
    } else {
        times_told(start, events.drop_last()) + if run_after(
            start,
            events.drop_last(),
        ).next_action() is ShowError {
            1nat
        } else {
            0nat
        }
    }
}

/// How often the user was taken elsewhere.
pub open spec fn times_moved(start: CleanupRunView, events: Seq<CleanupRunEvent>) -> nat
    decreases events.len(),
{
    if events.len() == 0 {
        0
    } else {
        times_moved(start, events.drop_last()) + if run_after(
            start,
            events.drop_last(),
        ).next_action() is ActivateFallback {
            1nat
        } else {
            0nat
        }
    }
}

/// Whether the current workspace had to be saved and has no window.
pub open spec fn current_is_windowless(
    start: CleanupRunView,
    events: Seq<CleanupRunEvent>,
) -> bool {
    start.current_workspace_will_be_empty && start.current_workspace is Some && events.len() > 0
        && events[0] == CleanupRunEvent::WindowFound(None)
}

proof fn removal_progress(start: CleanupRunView, events: Seq<CleanupRunEvent>)
    requires
        is_cleanup_start(start),
        is_cleanup(start, events),
    ensures
        ({
            let run = run_after(start, events);
            let all = start.affected_workspaces;
            let seen = checked(start, events);
            let told = times_told(start, events);
            let moves = times_moved(start, events);
            let must_move = start.current_workspace_will_be_empty && start.fallback is Some;
            let once = if must_move {
                1nat
            } else {
                0nat
            };
            let failed = failed_removals(start, events);
            let none = tried(start, events).len() == 0;
            &&& run.errors == failed
            &&& none ==> failed.len() == 0
            &&& match run.phase {
                CleanupPhase::FindingCurrentWindow => events.len() == 0 && seen.len() == 0 && told
                    == 0 && moves == 0 && start.current_workspace_will_be_empty,
                CleanupPhase::SavingCurrent(_) => seen.len() == 0 && told == 0 && moves == 0
                    && !current_is_windowless(start, events),
                CleanupPhase::FindingWindow(_) => seen.len() == 0 && told == 0 && moves == 0
                    && !current_is_windowless(start, events),
                CleanupPhase::Saving(_, _) => seen.len() == 0 && told == 0 && moves == 0
                    && !current_is_windowless(start, events),
                CleanupPhase::ActivatingFallback => must_move && seen.len() == 0 && told == 0
                    && moves == 0 && !current_is_windowless(start, events),
                CleanupPhase::RemovingRoot(_) => seen.len() == 0 && told == 0 && moves == once
                    && !current_is_windowless(start, events),
                CleanupPhase::CheckingWorkspace(at) => seen == all.take(at as int) && told == 0
                    && moves == once && !current_is_windowless(start, events),
                CleanupPhase::RemovingWorkspace(at, _) => seen == all.take(at + 1) && told == 0
                    && moves == once && !current_is_windowless(start, events),
                CleanupPhase::RemovingWindow(at, _) => seen == all.take(at + 1) && told == 0
                    && moves == once && !current_is_windowless(start, events),
                CleanupPhase::ShowingError => seen == all && told == 0 && failed.len() > 0 && moves
                    == once && !current_is_windowless(start, events),
                _ => if none {
                    seen.len() == 0 && told == 0 && moves == 0 && (refused(events)
                        || current_is_windowless(start, events))
                } else {
                    seen == all && told == (if failed.len() > 0 {
                        1nat
                    } else {
                        0nat
                    }) && moves == once && !current_is_windowless(start, events)
                },
            }
        }),
    decreases events.len(),
{
    progress(start, events);
    let all = start.affected_workspaces;
    assert(all.take(0) =~= Seq::empty());
    assert(all.take(all.len() as int) =~= all);
    if events.len() == 0 {
        saving_leads_to_removal(start, 0);
        assert(checked(start, events) =~= Seq::empty());
        assert(failed_removals(start, events) =~= start.errors);
    } else {
        let before = events.drop_last();
        removal_progress(start, before);
        progress(start, before);
        let run = run_after(start, before);
        let last = events.last();
        assert(events[events.len() - 1] == last);
        if events.len() > 1 {
            assert(before[0] == events[0]);
        }
        if refused(before) {
            let i = choose|i: int|
                0 <= i < before.len() && #[trigger] before[i] == CleanupRunEvent::Saved(false);
            assert(events[i] == CleanupRunEvent::Saved(false));
        }
        match run.phase {
            CleanupPhase::SavingCurrent(_) => saving_leads_to_removal(run, 0),
            CleanupPhase::FindingWindow(at) => saving_leads_to_removal(run, at + 1),
            CleanupPhase::Saving(at, _) => saving_leads_to_removal(run, at + 1),
            CleanupPhase::CheckingWorkspace(at) => {
                assert(checked(start, events) =~= all.take(at + 1));
            },
            _ => {},
        }
    }
}

/// A cleanup that nobody refused removes its worktrees: none is left behind unless a workspace
/// would not go on, or the current one, which would be empty, has no window to save it in; and
/// then none is removed.
pub proof fn cleanup_goes_through(start: CleanupRunView, events: Seq<CleanupRunEvent>)
    requires
        is_cleanup_start(start),
        is_cleanup(start, events),
        run_after(start, events).next_action() is Finish,
    ensures
        (tried(start, events).len() == 0) == (refused(events) || current_is_windowless(
            start,
            events,
        )),
        !refused(events) && !current_is_windowless(start, events) ==> tried(start, events)
            == Seq::new(start.roots.len(), |i: int| i),
{
    progress(start, events);
    removal_progress(start, events);
}

/// What failed is told, all of it and once, and nothing else is: the errors of a cleanup are the
/// removals that failed, in order, each with the path of its own worktree.
pub proof fn every_failed_removal_is_told(start: CleanupRunView, events: Seq<CleanupRunEvent>)
    requires
        is_cleanup_start(start),
        is_cleanup(start, events),
    ensures
        run_after(start, events).errors == failed_removals(start, events),
        run_after(start, events).next_action() is Finish ==> times_told(start, events) == (
        if failed_removals(start, events).len() > 0 {
            1nat
        } else {
            0nat
        }),
        times_told(start, events) > 0 ==> failed_removals(start, events).len() > 0,
{
    removal_progress(start, events);
}

/// Once the worktrees are gone, every affected workspace is looked at, in order and once; where
/// nothing was removed, none is.
pub proof fn every_affected_workspace_is_checked(
    start: CleanupRunView,
    events: Seq<CleanupRunEvent>,
)
    requires
        is_cleanup_start(start),
        is_cleanup(start, events),
    ensures
        run_after(start, events).next_action() is Finish && tried(start, events).len() > 0
            ==> checked(start, events) == start.affected_workspaces,
        tried(start, events).len() < start.roots.len() ==> checked(start, events).len() == 0,
{
    progress(start, events);
    removal_progress(start, events);
}

/// The user is taken elsewhere at most once, and only where the current workspace will be empty
/// and there is somewhere to go.
pub proof fn user_moves_only_where_needed(start: CleanupRunView, events: Seq<CleanupRunEvent>)
    requires
        is_cleanup_start(start),
        is_cleanup(start, events),
    ensures
        times_moved(start, events) <= 1,
        times_moved(start, events) > 0 ==> start.current_workspace_will_be_empty
            && start.fallback is Some,
        tried(start, events).len() > 0 && start.current_workspace_will_be_empty
            && start.fallback is Some ==> times_moved(start, events) == 1,
{
    progress(start, events);
    removal_progress(start, events);
}

/// Each answer is acted upon where it belongs: a workspace is saved in the window it was found in,
/// an empty workspace is taken out of the window it was seen in, and the window is closed exactly
/// where it could not let its workspace go. Nothing else is taken out or closed.
pub proof fn answers_are_acted_upon(run: CleanupRunView, event: CleanupRunEvent)
    requires
        run.is_valid(),
        run.affected_workspaces.len() <= usize::MAX,
        run.expects(event),
    ensures
        ({
            let next = run.after(event).next_action();
            match (run.next_action(), event) {
                (
                    CleanupRunAction::FindWindow(workspace),
                    CleanupRunEvent::WindowFound(Some(window)),
                ) => next == CleanupRunAction::Save(workspace, window),
                (
                    CleanupRunAction::CheckWorkspace(workspace),
                    CleanupRunEvent::WorkspaceChecked { is_empty: true, window: Some(window) },
                ) => next == CleanupRunAction::RemoveWorkspace(workspace, window),
                (
                    CleanupRunAction::RemoveWorkspace(_, window),
                    CleanupRunEvent::WorkspaceRemoved(false),
                ) => next == CleanupRunAction::RemoveWindow(window),
                _ => !(next is Save || next is RemoveWorkspace || next is RemoveWindow),
            }
        }),
{
    match run.phase {
        CleanupPhase::SavingCurrent(_) => saving_leads_to_removal(run, 0),
        CleanupPhase::FindingWindow(at) => saving_leads_to_removal(run, at + 1),
        CleanupPhase::Saving(at, _) => saving_leads_to_removal(run, at + 1),
        _ => {},
    }
}

/// A cleanup takes every worktree it asked for the first time it is named, unless another has it,
/// and in the order they were named: of two lists one behind the other, the second is claimed as
/// if the first were taken.
pub proof fn claims_come_one_behind_the_other(
    taken: Set<Seq<char>>,
    first: Seq<RootPlan>,
    second: Seq<RootPlan>,
    root: RootPlan,
)
    ensures
        claimed(taken, first + second) == claimed(taken, first) + claimed(
            taken.union(root_paths(first).to_set()),
            second,
        ),
        claimed(taken, seq![root]) == (if taken.contains(root.root_path@) {
            Seq::empty()
        } else {
            seq![root]
        }),
    decreases second.len(),
{
    let one = seq![root];
    assert(one.drop_last() =~= Seq::empty());
    assert(root_paths(one.drop_last()) =~= Seq::empty());
    assert(claimed(taken, one.drop_last()) =~= Seq::empty());
    assert(claimed(taken, one) =~= (if taken.contains(root.root_path@) {
        Seq::empty()
    } else {
        one
    }));
    let later = taken.union(root_paths(first).to_set());
    if second.len() == 0 {
        assert(first + second =~= first);
        assert(claimed(taken, first) + claimed(later, second) =~= claimed(taken, first));
    } else {
        let front = second.drop_last();
        let path = second.last().root_path@;
        claims_come_one_behind_the_other(taken, first, front, root);
        assert((first + second).drop_last() =~= first + front);
        assert(root_paths(first + front) =~= root_paths(first) + root_paths(front));
        let both = root_paths(first) + root_paths(front);
        if root_paths(first).contains(path) {
            let i = choose|i: int| 0 <= i < root_paths(first).len() && root_paths(first)[i] == path;
            assert(both[i] == path);
        }
        if root_paths(front).contains(path) {
            let i = choose|i: int| 0 <= i < root_paths(front).len() && root_paths(front)[i] == path;
            assert(both[root_paths(first).len() + i] == path);
        }
        if both.contains(path) {
            let i = choose|i: int| 0 <= i < both.len() && both[i] == path;
            if i < root_paths(first).len() {
                assert(root_paths(first)[i] == path);
            } else {
                assert(root_paths(front)[i - root_paths(first).len()] == path);
            }
        }
        assert(claimed(taken, first + second) =~= claimed(taken, first) + claimed(later, second));
    }
}

} // verus!
