//! The view of what is staged: which files it shows, and where it scrolls to.

use crate::text;
use vstd::prelude::*;

verus! {

/// Why the view is brought up to date.
#[derive(Clone, Copy, Debug, PartialEq, Eq, Structural)]
pub enum RefreshReason {
    /// The changes within a file are others.
    DiffChanged,
    /// The list of files is another.
    StatusesChanged,
}

/// A buffer that the view shows.
#[derive(Clone, Copy, Debug, PartialEq, Eq, Structural)]
pub struct ShownBuffer {
    pub buffer_id: u64,
    /// Whether it has unsaved changes.
    pub is_dirty: bool,
}

/// A file that the view shows, by its path in the repository.
#[derive(Debug, PartialEq, Eq)]
pub struct ShownPath {
    pub path: String,
    pub buffer: Option<ShownBuffer>,
}

/// A file that leaves the view.
#[derive(Debug, PartialEq, Eq)]
pub struct RemovedPath {
    pub path: String,
    pub buffer_id: Option<u64>,
}

/// A file whose changes are watched, and the changes that are.
#[derive(Debug, PartialEq, Eq)]
pub struct WatchedDiff {
    pub path: String,
    pub diff_id: u64,
}

/// The view of what is staged.
#[derive(Debug)]
pub struct StagedDiff {
    watched: Vec<WatchedDiff>,
    pending_scroll: Option<String>,
}

/// What a [`StagedDiff`] holds.
pub struct StagedDiffView {
    /// The changes that are watched, by the path of their file.
    pub watched: Map<Seq<char>, u64>,
    /// The file to scroll to once it is shown.
    pub pending_scroll: Option<Seq<char>>,
}

/// The changes that are watched, by the path of their file; of several for one path the last
/// counts.
pub open spec fn watched_map(watched: Seq<WatchedDiff>) -> Map<Seq<char>, u64>
    decreases watched.len(),
{
    if watched.len() == 0 {
        Map::empty()
    } else {
        watched_map(watched.drop_last()).insert(watched.last().path@, watched.last().diff_id)
    }
}

impl ShownPath {
    /// Whether the file leaves the view: it is no longer listed, and it is not kept because the
    /// user is changing it.
    pub open spec fn leaves(
        self,
        listed: Option<Seq<Seq<char>>>,
        reason: RefreshReason,
    ) -> bool {
        &&& !(listed matches Some(listed) && listed.contains(self.path@))
        &&& !(reason is DiffChanged && (self.buffer matches Some(buffer) && buffer.is_dirty))
    }

    /// The file as one that leaves the view.
    pub open spec fn removed(self) -> RemovedPath {
        RemovedPath {
            path: self.path,
            buffer_id: match self.buffer {
                Some(buffer) => Some(buffer.buffer_id),
                None => None,
            },
        }
    }
}

/// The files that leave the view.
pub open spec fn leaving(
    shown: Seq<ShownPath>,
    listed: Option<Seq<Seq<char>>>,
    reason: RefreshReason,
) -> Seq<RemovedPath>
    decreases shown.len(),
{
    if shown.len() == 0 {
        Seq::empty()
    } else {
        let others = leaving(shown.drop_last(), listed, reason);
        if shown.last().leaves(listed, reason) {
            others.push(shown.last().removed())
        } else {
            others
        }
    }
}

/// The changes that are still watched once files have left the view.
pub open spec fn without_paths(
    watched: Map<Seq<char>, u64>,
    removed: Seq<RemovedPath>,
) -> Map<Seq<char>, u64>
    decreases removed.len(),
{
    if removed.len() == 0 {
        watched
    } else {
        without_paths(watched, removed.drop_last()).remove(removed.last().path@)
    }
}

fn unwatch(watched: Vec<WatchedDiff>, path: &str) -> (kept: Vec<WatchedDiff>)
    ensures
        watched_map(kept@) == watched_map(watched@).remove(path@),
{
    let ghost all = watched@;
    let mut left = watched;
    let mut kept: Vec<WatchedDiff> = Vec::new();
    let ghost mut done: int = 0;
    assert(all.take(0) =~= Seq::empty());
    assert(all.skip(0) =~= all);
    assert(watched_map(kept@) =~= watched_map(all.take(0)).remove(path@));
    while left.len() > 0
        invariant
            0 <= done <= all.len(),
            left@ == all.skip(done),
            watched_map(kept@) == watched_map(all.take(done)).remove(path@),
        decreases left@.len(),
    {
        let next = left.remove(0);
        let ghost before = kept@;
        proof {
            assert(next == all[done]);
            assert(left@ =~= all.skip(done + 1));
            assert(all.take(done + 1).drop_last() =~= all.take(done));
        }
        if !text::same_text(next.path.as_str(), path) {
            kept.push(next);
            assert(kept@.drop_last() =~= before);
        }
        assert(watched_map(kept@) =~= watched_map(all.take(done + 1)).remove(path@));
        proof {
            done = done + 1;
        }
    }
    assert(all.take(done) =~= all);
    kept
}

/// What has to be done with a file that was loaded.
#[derive(Clone, Copy, Debug, PartialEq, Eq, Structural)]
pub struct Registration {
    /// Whether the selection goes to the beginning, since nothing was shown before.
    pub selects_start: bool,
    /// Whether the view scrolls to the file, since the user asked for it before it was there.
    pub scrolls_to_path: bool,
}

/// What comes of a request to show a file.
#[derive(Clone, Copy, Debug, PartialEq, Eq, Structural)]
pub enum MoveOutcome {
    /// The selection goes to this place.
    Select(u64),
    /// The view will scroll there once the file is shown.
    Pending,
}

impl StagedDiff {
    /// What the view holds.
    pub closed spec fn view(&self) -> StagedDiffView {
        StagedDiffView {
            watched: watched_map(self.watched@),
            pending_scroll: text::said(self.pending_scroll),
        }
    }

    /// A view that shows nothing yet.
    pub fn new() -> (diff: Self)
        ensures
            diff@ == (StagedDiffView { watched: Map::empty(), pending_scroll: None }),
    {
        StagedDiff { watched: Vec::new(), pending_scroll: None }
    }

    /// Starts bringing the view up to date: the files that leave it. `listed` is what git lists,
    /// if there is a repository at all.
    pub fn start_refresh(
        &mut self,
        shown: &Vec<ShownPath>,
        listed: Option<&Vec<String>>,
        reason: RefreshReason,
    ) -> (removed: Vec<RemovedPath>)
        ensures
            removed@ == leaving(
                shown@,
                match listed {
                    Some(listed) => Some(text::texts(listed@)),
                    None => None,
                },
                reason,
            ),
            final(self)@ == (StagedDiffView {
                watched: without_paths(old(self)@.watched, removed@),
                ..old(self)@
            }),
    {
        let ghost listing = match listed {
            Some(listed) => Some(text::texts(listed@)),
            None => None,
        };
        let mut removed: Vec<RemovedPath> = Vec::new();
        let mut at: usize = 0;
        assert(shown@.take(0) =~= Seq::empty());
        while at < shown.len()
            invariant
                at <= shown@.len(),
                listing == (match listed {
                    Some(listed) => Some(text::texts(listed@)),
                    None => None,
                }),
                removed@ == leaving(shown@.take(at as int), listing, reason),
                self@ == (StagedDiffView {
                    watched: without_paths(old(self)@.watched, removed@),
                    ..old(self)@
                }),
            decreases shown@.len() - at,
        {
            let entry = &shown[at];
            assert(shown@.take(at + 1).drop_last() =~= shown@.take(at as int));
            let is_listed = match listed {
                Some(listed) => text::contains_text(listed, entry.path.as_str()),
                None => false,
            };
            let is_kept = match (reason, entry.buffer) {
                (RefreshReason::DiffChanged, Some(buffer)) => buffer.is_dirty,
                _ => false,
            };
            if !is_listed && !is_kept {
                let ghost before = removed@;
                let mut watched: Vec<WatchedDiff> = Vec::new();
                std::mem::swap(&mut watched, &mut self.watched);
                self.watched = unwatch(watched, entry.path.as_str());
                let buffer_id = match entry.buffer {
                    Some(buffer) => Some(buffer.buffer_id),
                    None => None,
                };
                removed.push(RemovedPath { path: entry.path.clone(), buffer_id });
                assert(removed@.drop_last() =~= before);
            }
            at = at + 1;
        }
        assert(shown@.take(at as int) =~= shown@);
        removed
    }

    /// Takes a loaded file into the view. `was_empty` says whether anything was shown before.
    pub fn register_buffer(&mut self, path: &str, diff_id: u64, was_empty: bool) -> (registration:
        Registration)
        ensures
            final(self)@ == (StagedDiffView {
                watched: old(self)@.watched.insert(path@, diff_id),
                ..old(self)@
            }),
            registration == (Registration {
                selects_start: was_empty,
                scrolls_to_path: old(self)@.pending_scroll == Some(path@),
            }),
    {
        let mut watched: Vec<WatchedDiff> = Vec::new();
        std::mem::swap(&mut watched, &mut self.watched);
        let mut kept = unwatch(watched, path);
        let ghost before = kept@;
        kept.push(WatchedDiff { path: path.to_owned(), diff_id });
        assert(kept@.drop_last() =~= before);
        assert(watched_map(kept@) =~= old(self)@.watched.insert(path@, diff_id));
        self.watched = kept;
        let scrolls_to_path = match &self.pending_scroll {
            Some(pending) => text::same_text(pending.as_str(), path),
            None => false,
        };
        Registration { selects_start: was_empty, scrolls_to_path }
    }

    /// Shows a file: at once where it has a place in the view, or else when it gets one.
    pub fn move_to_path(&mut self, path: &str, location: Option<u64>) -> (outcome: MoveOutcome)
        ensures
            match location {
                Some(position) => outcome == MoveOutcome::Select(position) && final(self)@ == old(
                    self,
                )@,
                None => outcome is Pending && final(self)@ == (StagedDiffView {
                    pending_scroll: Some(path@),
                    ..old(self)@
                }),
            },
    {
        match location {
            Some(position) => MoveOutcome::Select(position),
            None => {
                self.pending_scroll = Some(path.to_owned());
                MoveOutcome::Pending
            },
        }
    }

    /// Ends bringing the view up to date: what could not be scrolled to is given up.
    pub fn finish_refresh(&mut self)
        ensures
            final(self)@ == (StagedDiffView { pending_scroll: None, ..old(self)@ }),
    {
        self.pending_scroll = None;
    }
}

/// Whether a loaded file is taken into the view. It is not where there was no repository, nor while
/// the user changes it, as long as the view shows the same changes of it already.
pub fn takes_loaded_buffer(
    has_repository: bool,
    reason: RefreshReason,
    is_shown: bool,
    shows_same_diff: bool,
    is_dirty: bool,
) -> (takes: bool)
    ensures
        takes == (has_repository && !(is_shown && shows_same_diff && reason is DiffChanged
            && is_dirty)),
{
    let diff_changed = match reason {
        RefreshReason::DiffChanged => true,
        RefreshReason::StatusesChanged => false,
    };
    has_repository && !(is_shown && shows_same_diff && diff_changed && is_dirty)
}

/// What has to be done to show the view to the user.
#[derive(Debug, PartialEq, Eq)]
pub struct DeployPlan {
    /// The view to activate; where there is none, one is made.
    pub existing: Option<u64>,
    /// The repository that the view has to switch to.
    pub switch_to: Option<u64>,
    /// The file to show.
    pub move_to: Option<String>,
}

impl StagedDiff {
    /// What has to be done to show the view to the user. `current_repo` is the repository that the
    /// view is about; a view that is yet to be made is about the one that it finds.
    pub fn deploy_at(
        existing: Option<u64>,
        intended_repo: Option<u64>,
        current_repo: Option<u64>,
        entry: Option<String>,
    ) -> (plan: DeployPlan)
        ensures
            plan == (DeployPlan {
                existing,
                switch_to: if intended_repo != current_repo {
                    intended_repo
                } else {
                    None
                },
                move_to: entry,
            }),
    {
        let switch_to = match (intended_repo, current_repo) {
            (Some(intended), Some(current)) => if intended != current {
                Some(intended)
            } else {
                None
            },
            (intended, _) => intended,
        };
        DeployPlan { existing, switch_to, move_to: entry }
    }
}

/// Whether the view itself takes the keyboard focus, rather than the editor in it: it does where
/// there is nothing in the editor.
pub fn focuses_itself(is_empty: bool) -> (itself: bool)
    ensures
        itself == is_empty,
{
    is_empty
}

/// Whether the focus has to move from the editor to the view.
pub fn handle_editor_event(editor_has_focus: bool, is_empty: bool) -> (moves_focus: bool)
    ensures
        moves_focus == (editor_has_focus && is_empty),
{
    editor_has_focus && is_empty
}

/// What the keys mean in the view.
pub fn key_context(is_empty: bool) -> (context: &'static str)
    ensures
        context@ == (if is_empty {
            "EmptyPane"@
        } else {
            "GitDiff"@
        }),
{
    if is_empty {
        "EmptyPane"
    } else {
        "GitDiff"
    }
}

/// What the tab of the view says.
pub const TAB_TEXT: &'static str = "Staged Changes";

/// What is counted when the view is opened.
pub const TELEMETRY_EVENT: &'static str = "Git Staged Diff Opened";

/// What a stored view is known as.
pub const SERIALIZED_ITEM_KIND: &'static str = "StagedDiff";

/// What the view says where there is nothing to show.
pub const EMPTY_TEXT: &'static str = "No staged changes";

proof fn leaving_is_exact(
    shown: Seq<ShownPath>,
    listed: Option<Seq<Seq<char>>>,
    reason: RefreshReason,
    at: int,
)
    requires
        0 <= at < shown.len(),
        shown[at].leaves(listed, reason),
    ensures
        leaving(shown, listed, reason).contains(shown[at].removed()),
    decreases shown.len(),
{
    let front = shown.drop_last();
    let others = leaving(front, listed, reason);
    let all = leaving(shown, listed, reason);
    if at == shown.len() - 1 {
        assert(all[others.len() as int] == shown[at].removed());
    } else {
        assert(front[at] == shown[at]);
        leaving_is_exact(front, listed, reason, at);
        let i = choose|i: int| 0 <= i < others.len() && others[i] == shown[at].removed();
        assert(all[i] == others[i]);
    }
}

proof fn leaving_is_shown(
    shown: Seq<ShownPath>,
    listed: Option<Seq<Seq<char>>>,
    reason: RefreshReason,
    removed: RemovedPath,
)
    requires
        leaving(shown, listed, reason).contains(removed),
    ensures
        exists|at: int|
            0 <= at < shown.len() && (#[trigger] shown[at]).leaves(listed, reason)
                && shown[at].removed() == removed,
    decreases shown.len(),
{
    if shown.len() > 0 {
        let front = shown.drop_last();
        let others = leaving(front, listed, reason);
        let all = leaving(shown, listed, reason);
        let i = choose|i: int| 0 <= i < all.len() && all[i] == removed;
        if i < others.len() {
            assert(others[i] == removed);
            leaving_is_shown(front, listed, reason, removed);
            let at = choose|at: int|
                0 <= at < front.len() && (#[trigger] front[at]).leaves(listed, reason)
                    && front[at].removed() == removed;
            assert(shown[at] == front[at]);
        } else {
            assert(shown[shown.len() - 1].removed() == removed);
        }
    }
}

/// A file that the user is changing does not leave the view because its changes are others, and a
/// file that git lists does not leave it at all; every other file does.
pub proof fn refresh_keeps_what_it_must(
    shown: Seq<ShownPath>,
    listed: Option<Seq<Seq<char>>>,
    reason: RefreshReason,
    removed: RemovedPath,
    at: int,
)
    requires
        0 <= at < shown.len(),
    ensures
        leaving(shown, listed, reason).contains(removed) ==> exists|i: int|
            0 <= i < shown.len() && (#[trigger] shown[i]).leaves(listed, reason)
                && shown[i].removed() == removed,
        shown[at].leaves(listed, reason) ==> leaving(shown, listed, reason).contains(
            shown[at].removed(),
        ),
{
    if leaving(shown, listed, reason).contains(removed) {
        leaving_is_shown(shown, listed, reason, removed);
    }
    if shown[at].leaves(listed, reason) {
        leaving_is_exact(shown, listed, reason, at);
    }
}

/// A file leaves the view exactly where git does not list it, unless the refresh is for changed
/// contents and the user is changing the file, too. It leaves with its path and with the buffer
/// that it is open in.
pub proof fn unlisted_files_leave(
    file: ShownPath,
    listed: Option<Seq<Seq<char>>>,
    reason: RefreshReason,
)
    ensures
        listed is Some && listed->0.contains(file.path@) ==> leaving(
            seq![file],
            listed,
            reason,
        ).len() == 0,
        reason is DiffChanged && file.buffer is Some && file.buffer->0.is_dirty ==> leaving(
            seq![file],
            listed,
            reason,
        ).len() == 0,
        (listed is None || !listed->0.contains(file.path@)) && (reason is StatusesChanged
            || file.buffer is None || !file.buffer->0.is_dirty) ==> ({
            let gone = leaving(seq![file], listed, reason);
            &&& gone.len() == 1
            &&& gone[0].path == file.path
            &&& gone[0].buffer_id is Some == file.buffer is Some
            &&& file.buffer is Some ==> gone[0].buffer_id->0 == file.buffer->0.buffer_id
        }),
{
    let one = seq![file];
    assert(one.drop_last() =~= Seq::empty());
    assert(leaving(one.drop_last(), listed, reason) =~= Seq::empty());
}

/// Each file is judged for itself, and those that leave do so in the order in which they are
/// shown.
pub proof fn files_leave_in_order(
    above: Seq<ShownPath>,
    below: Seq<ShownPath>,
    listed: Option<Seq<Seq<char>>>,
    reason: RefreshReason,
)
    ensures
        leaving(above + below, listed, reason) == leaving(above, listed, reason) + leaving(
            below,
            listed,
            reason,
        ),
    decreases below.len(),
{
    if below.len() == 0 {
        assert(above + below =~= above);
        assert(leaving(below, listed, reason) =~= Seq::empty());
    } else {
        assert((above + below).drop_last() =~= above + below.drop_last());
        files_leave_in_order(above, below.drop_last(), listed, reason);
    }
    assert(leaving(above + below, listed, reason) =~= leaving(above, listed, reason) + leaving(
        below,
        listed,
        reason,
    ));
}

/// The changes of a file are watched until the file leaves the view, and those of the others are
/// watched on.
pub proof fn files_that_stay_are_watched(
    watched: Map<Seq<char>, u64>,
    removed: Seq<RemovedPath>,
    path: Seq<char>,
)
    ensures
        without_paths(watched, removed).contains_key(path) == (watched.contains_key(path)
            && forall|i: int| 0 <= i < removed.len() ==> (#[trigger] removed[i]).path@ != path),
        without_paths(watched, removed).contains_key(path) ==> without_paths(watched, removed)[path]
            == watched[path],
    decreases removed.len(),
{
    if removed.len() > 0 {
        let front = removed.drop_last();
        files_that_stay_are_watched(watched, front, path);
        assert(removed.last() == removed[removed.len() - 1]);
        assert forall|i: int| 0 <= i < front.len() implies front[i] == #[trigger] removed[i] by {}
        if forall|i: int| 0 <= i < front.len() ==> (#[trigger] front[i]).path@ != path {
            assert forall|i: int| 0 <= i < removed.len() && removed.last().path@
                != path implies (#[trigger] removed[i]).path@ != path by {
                if i < front.len() {
                    assert(front[i] == removed[i]);
                }
            }
        } else {
            let i = choose|i: int| 0 <= i < front.len() && (#[trigger] front[i]).path@ == path;
            assert(removed[i].path@ == path);
        }
    }
}

} // verus!
