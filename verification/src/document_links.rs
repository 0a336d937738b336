//! Links that language servers find in a document: which of them are known, when they are asked
//! for again, and which are looked up more closely because the user can see them.

use crate::lists;
use crate::text;
use vstd::prelude::*;

verus! {

/// Identifies a language server.
#[derive(Clone, Copy, Debug, PartialEq, Eq, Structural)]
pub struct LanguageServerId(pub u64);

/// A place in a buffer, by the number under which the buffer keeps it.
#[derive(Clone, Copy, Debug, PartialEq, Eq, Structural)]
pub struct Anchor(pub usize);

/// A line and a column in UTF-16 code units, both from zero.
#[derive(Clone, Copy, Debug, PartialEq, Eq, Structural)]
pub struct Position {
    pub line: u32,
    pub character: u32,
}

/// Where a place in a buffer is at one moment.
#[derive(Clone, Copy, Debug, PartialEq, Eq, Structural)]
pub struct AnchorPosition {
    /// The place's rank among all places of the buffer.
    pub order: u64,
    /// The number of bytes before it.
    pub offset: usize,
    /// The same place as language servers count.
    pub position: Position,
}

/// Where each place of a buffer is at one moment.
#[derive(Debug)]
pub struct BufferSnapshot {
    pub positions: Vec<AnchorPosition>,
}

/// A link in a document.
#[derive(Debug, PartialEq, Eq)]
pub struct LspDocumentLink {
    pub start: Anchor,
    pub end: Anchor,
    pub target: Option<String>,
    pub tooltip: Option<String>,
    /// What the server wants back when it is asked for more, as JSON.
    pub data: Option<String>,
}

/// The links that one server found.
#[derive(Debug, PartialEq, Eq)]
pub struct ServerLinks {
    pub server_id: LanguageServerId,
    pub links: Vec<LspDocumentLink>,
}

impl BufferSnapshot {
    /// Whether the snapshot knows the place.
    pub open spec fn knows(self, anchor: Anchor) -> bool {
        anchor.0 < self.positions@.len()
    }

    /// Where the place is.
    pub open spec fn at(self, anchor: Anchor) -> AnchorPosition {
        self.positions@[anchor.0 as int]
    }

    /// Whether the snapshot knows both ends of every link.
    pub open spec fn knows_all(self, links: Seq<LspDocumentLink>) -> bool {
        forall|i: int|
            0 <= i < links.len() ==> self.knows((#[trigger] links[i]).start) && self.knows(
                links[i].end,
            )
    }

    /// Whether a place that ranks before another is not behind it.
    pub open spec fn is_consistent(self) -> bool {
        forall|a: Anchor, b: Anchor|
            self.knows(a) && self.knows(b) && #[trigger] self.at(a).order <= #[trigger] self.at(
                b,
            ).order ==> self.at(a).offset <= self.at(b).offset
    }

    /// Whether the links start one after the other.
    pub open spec fn sorts(self, links: Seq<LspDocumentLink>) -> bool {
        forall|i: int, j: int|
            0 <= i <= j < links.len() ==> self.at((#[trigger] links[i]).start).order <= self.at(
                (#[trigger] links[j]).start,
            ).order
    }

    /// Whether no link starts behind a later one of the list.
    pub open spec fn starts_in_order(self, links: Seq<LspDocumentLink>) -> bool {
        forall|i: int, j: int|
            0 <= i <= j < links.len() ==> self.at((#[trigger] links[i]).start).offset <= self.at(
                (#[trigger] links[j]).start,
            ).offset
    }

    /// Whether the snapshot knows both ends of every link of every list.
    pub fn knows_lists(&self, lists: &Vec<ServerLinks>) -> (known: bool)
        ensures
            known == (forall|i: int|
                0 <= i < lists@.len() ==> self.knows_all((#[trigger] lists@[i]).links@)),
    {
        let mut at: usize = 0;
        while at < lists.len()
            invariant
                at <= lists@.len(),
                forall|i: int| 0 <= i < at ==> self.knows_all((#[trigger] lists@[i]).links@),
            decreases lists@.len() - at,
        {
            if !self.knows_links(&lists[at].links) {
                assert(!self.knows_all(lists@[at as int].links@));
                return false;
            }
            at = at + 1;
        }
        true
    }

    fn knows_links(&self, links: &Vec<LspDocumentLink>) -> (known: bool)
        ensures
            known == self.knows_all(links@),
    {
        let mut at: usize = 0;
        while at < links.len()
            invariant
                at <= links@.len(),
                self.knows_all(links@.take(at as int)),
            decreases links@.len() - at,
        {
            if links[at].start.0 >= self.positions.len() || links[at].end.0
                >= self.positions.len() {
                assert(!(self.knows(links@[at as int].start) && self.knows(
                    links@[at as int].end,
                )));
                return false;
            }
            at = at + 1;
            assert forall|i: int| 0 <= i < at implies self.knows(
                (#[trigger] links@.take(at as int)[i]).start,
            ) && self.knows(links@.take(at as int)[i].end) by {
                if i < at - 1 {
                    assert(links@.take(at - 1)[i] == links@[i]);
                }
            }
        }
        assert(links@.take(at as int) =~= links@);
        true
    }

    fn has_starts_in_order(&self, links: &Vec<LspDocumentLink>) -> (in_order: bool)
        requires
            self.knows_all(links@),
        ensures
            in_order == self.starts_in_order(links@),
    {
        if links.len() == 0 {
            return true;
        }
        let mut at: usize = 1;
        while at < links.len()
            invariant
                1 <= at <= links@.len(),
                self.knows_all(links@),
                forall|i: int, j: int|
                    0 <= i <= j < at ==> self.at((#[trigger] links@[i]).start).offset <= self.at(
                        (#[trigger] links@[j]).start,
                    ).offset,
            decreases links@.len() - at,
        {
            let before: usize = self.positions[links[at - 1].start.0].offset;
            let here: usize = self.positions[links[at].start.0].offset;
            if here < before {
                assert(self.at(links@[at - 1].start).offset > self.at(
                    links@[at as int].start,
                ).offset);
                return false;
            }
            assert forall|i: int, j: int| 0 <= i <= j < at + 1 implies self.at(
                (#[trigger] links@[i]).start,
            ).offset <= self.at((#[trigger] links@[j]).start).offset by {
                if j == at && i < at {
                    assert(self.at(links@[i].start).offset <= self.at(links@[at - 1].start).offset);
                }
            }
            at = at + 1;
        }
        true
    }
}

impl Clone for LspDocumentLink {
    fn clone(&self) -> (copy: Self)
        ensures
            copy == *self,
    {
        LspDocumentLink {
            start: self.start,
            end: self.end,
            target: text::copied(&self.target),
            tooltip: text::copied(&self.tooltip),
            data: text::copied(&self.data),
        }
    }
}

/// The links of one server, as the contracts speak of them.
pub struct Bucket {
    pub server_id: LanguageServerId,
    pub links: Seq<LspDocumentLink>,
}

/// What lists of links say.
pub open spec fn buckets(links: Seq<ServerLinks>) -> Seq<Bucket> {
    Seq::new(
        links.len(),
        |i: int| Bucket { server_id: links[i].server_id, links: links[i].links@ },
    )
}

/// Whether no server has two lists.
pub open spec fn servers_are_distinct(list: Seq<Bucket>) -> bool {
    forall|i: int, j: int|
        0 <= i < j < list.len() ==> (#[trigger] list[i]).server_id != (#[trigger] list[j]).server_id
}

/// Whether the server has a list.
pub open spec fn has_server(list: Seq<Bucket>, server_id: LanguageServerId) -> bool {
    exists|i: int| 0 <= i < list.len() && (#[trigger] list[i]).server_id == server_id
}

/// The links of every server, one server after the other.
pub open spec fn all_links(list: Seq<Bucket>) -> Seq<LspDocumentLink>
    decreases list.len(),
{
    if list.len() == 0 {
        Seq::empty()
    } else {
        all_links(list.drop_last()) + list.last().links
    }
}

/// The number of the server's list.
pub open spec fn index_of_server(list: Seq<Bucket>, server_id: LanguageServerId) -> int {
    choose|i: int| 0 <= i < list.len() && (#[trigger] list[i]).server_id == server_id
}

/// The lists with the links of one server put in place of those it had.
pub open spec fn with_links(list: Seq<Bucket>, bucket: Bucket) -> Seq<Bucket> {
    if has_server(list, bucket.server_id) {
        list.update(index_of_server(list, bucket.server_id), bucket)
    } else {
        list.push(bucket)
    }
}

/// The lists with the links of several servers put in place of those they had.
pub open spec fn merged(list: Seq<Bucket>, more: Seq<Bucket>) -> Seq<Bucket>
    decreases more.len(),
{
    if more.len() == 0 {
        list
    } else {
        with_links(merged(list, more.drop_last()), more.last())
    }
}

/// The lists without that of the server.
pub open spec fn without_server(list: Seq<Bucket>, server_id: LanguageServerId) -> Seq<Bucket> {
    if has_server(list, server_id) {
        list.remove(index_of_server(list, server_id))
    } else {
        list
    }
}

fn find_server(links: &Vec<ServerLinks>, server_id: LanguageServerId) -> (found: Option<usize>)
    requires
        servers_are_distinct(buckets(links@)),
    ensures
        match found {
            Some(at) => at < links@.len() && has_server(buckets(links@), server_id) && at
                == index_of_server(buckets(links@), server_id),
            None => !has_server(buckets(links@), server_id),
        },
{
    let ghost list = buckets(links@);
    let mut at: usize = 0;
    while at < links.len()
        invariant
            at <= links@.len(),
            list == buckets(links@),
            servers_are_distinct(list),
            forall|i: int| 0 <= i < at ==> (#[trigger] list[i]).server_id != server_id,
        decreases links@.len() - at,
    {
        if links[at].server_id == server_id {
            assert(list[at as int].server_id == server_id);
            assert(has_server(list, server_id));
            let ghost chosen = index_of_server(list, server_id);
            assert(list[chosen].server_id == server_id);
            return Some(at);
        }
        assert(list[at as int].server_id != server_id);
        at = at + 1;
    }
    None
}

fn put_links(links: &mut Vec<ServerLinks>, new: ServerLinks)
    requires
        servers_are_distinct(buckets(old(links)@)),
    ensures
        buckets(final(links)@) == with_links(
            buckets(old(links)@),
            (Bucket { server_id: new.server_id, links: new.links@ }),
        ),
        servers_are_distinct(buckets(final(links)@)),
{
    let ghost list = buckets(links@);
    let ghost bucket = Bucket { server_id: new.server_id, links: new.links@ };
    match find_server(links, new.server_id) {
        Some(at) => {
            links[at] = new;
            assert(buckets(links@) =~= list.update(at as int, bucket));
            assert forall|i: int, j: int| 0 <= i < j < buckets(links@).len() implies (
            #[trigger] buckets(links@)[i]).server_id != (
            #[trigger] buckets(links@)[j]).server_id by {
                assert(list[i].server_id != list[j].server_id);
                assert(list[at as int].server_id == bucket.server_id);
            }
        },
        None => {
            links.push(new);
            assert(buckets(links@) =~= list.push(bucket));
            assert forall|i: int, j: int| 0 <= i < j < buckets(links@).len() implies (
            #[trigger] buckets(links@)[i]).server_id != (
            #[trigger] buckets(links@)[j]).server_id by {
                assert(list[i].server_id != bucket.server_id);
            }
        },
    }
}

proof fn merging_keeps_servers_distinct(list: Seq<Bucket>, more: Seq<Bucket>)
    requires
        servers_are_distinct(list),
    ensures
        servers_are_distinct(merged(list, more)),
    decreases more.len(),
{
    if more.len() > 0 {
        merging_keeps_servers_distinct(list, more.drop_last());
        let before = merged(list, more.drop_last());
        let bucket = more.last();
        let after = with_links(before, bucket);
        if has_server(before, bucket.server_id) {
            let at = index_of_server(before, bucket.server_id);
            assert(before[at].server_id == bucket.server_id);
            assert forall|i: int, j: int| 0 <= i < j < after.len() implies (
            #[trigger] after[i]).server_id != (#[trigger] after[j]).server_id by {
                assert(before[i].server_id != before[j].server_id);
            }
        } else {
            assert forall|i: int, j: int| 0 <= i < j < after.len() implies (
            #[trigger] after[i]).server_id != (#[trigger] after[j]).server_id by {
                assert(before[i].server_id != bucket.server_id);
            }
        }
    }
}

/// The links that a document is known to have.
#[derive(Debug)]
pub struct DocumentLinksData<V> {
    /// The links of each server, in the order they start.
    links: Vec<ServerLinks>,
    /// The version of the buffer for which links are being asked for.
    links_update: Option<V>,
    /// The links that are being looked up, by server and number.
    resolving: Vec<(LanguageServerId, usize)>,
}

/// What a [`DocumentLinksData`] holds.
pub struct DocumentLinksView<V> {
    pub links: Seq<Bucket>,
    pub links_update: Option<V>,
    pub resolving: Set<(LanguageServerId, usize)>,
}

impl<V> DocumentLinksView<V> {
    /// Whether no server has two lists.
    pub open spec fn is_valid(self) -> bool {
        servers_are_distinct(self.links)
    }

    /// Whether every link that is being looked up is there.
    pub open spec fn resolving_is_current(self) -> bool {
        forall|server_id: LanguageServerId, index: usize| #[trigger]
            self.resolving.contains((server_id, index)) ==> has_server(self.links, server_id)
                && index < self.links[index_of_server(self.links, server_id)].links.len()
    }

    /// Whether the links of every server are known to the snapshot and start one after the
    /// other.
    pub open spec fn is_sorted(self, snapshot: BufferSnapshot) -> bool {
        forall|i: int|
            0 <= i < self.links.len() ==> snapshot.knows_all((#[trigger] self.links[i]).links)
                && snapshot.sorts(self.links[i].links)
    }

    /// Whether the links can be searched by where they start: the snapshot knows them, and none
    /// starts behind a later one of the same server.
    pub open spec fn can_be_searched(self, snapshot: BufferSnapshot) -> bool {
        forall|i: int|
            0 <= i < self.links.len() ==> snapshot.knows_all((#[trigger] self.links[i]).links)
                && snapshot.starts_in_order(self.links[i].links)
    }
}

/// Links that are sorted can be searched, where the snapshot ranks places as they stand in the
/// buffer.
pub proof fn sorted_links_can_be_searched<V>(data: DocumentLinksView<V>, snapshot: BufferSnapshot)
    requires
        data.is_sorted(snapshot),
        snapshot.is_consistent(),
    ensures
        data.can_be_searched(snapshot),
{
    assert forall|i: int| 0 <= i < data.links.len() implies snapshot.knows_all(
        (#[trigger] data.links[i]).links,
    ) && snapshot.starts_in_order(data.links[i].links) by {
        let links = data.links[i].links;
        assert(snapshot.knows_all(links) && snapshot.sorts(links));
        assert forall|j: int, k: int| 0 <= j <= k < links.len() implies snapshot.at(
            (#[trigger] links[j]).start,
        ).offset <= snapshot.at((#[trigger] links[k]).start).offset by {
            assert(snapshot.at(links[j].start).order <= snapshot.at(links[k].start).order);
        }
    }
}

/// The pairs of a list that are not about the server.
pub open spec fn without_server_pairs(
    pairs: Set<(LanguageServerId, usize)>,
    server_id: LanguageServerId,
) -> Set<(LanguageServerId, usize)> {
    pairs.filter(|pair: (LanguageServerId, usize)| pair.0 != server_id)
}

fn drop_pairs(pairs: &mut Vec<(LanguageServerId, usize)>, server_id: LanguageServerId)
    ensures
        final(pairs)@.to_set() == without_server_pairs(old(pairs)@.to_set(), server_id),
{
    let mut kept: Vec<(LanguageServerId, usize)> = Vec::new();
    let mut at: usize = 0;
    while at < pairs.len()
        invariant
            at <= pairs@.len(),
            pairs@ == old(pairs)@,
            forall|pair: (LanguageServerId, usize)| #[trigger]
                kept@.contains(pair) <==> pairs@.take(at as int).contains(pair) && pair.0
                    != server_id,
        decreases pairs@.len() - at,
    {
        let pair = pairs[at];
        let ghost so_far = kept@;
        assert(pairs@.take(at + 1) =~= pairs@.take(at as int).push(pair));
        if pair.0 != server_id {
            kept.push(pair);
        }
        assert forall|other: (LanguageServerId, usize)| #[trigger]
            kept@.contains(other) <==> pairs@.take(at + 1).contains(other) && other.0
                != server_id by {
            lists::pushed_contains(pairs@.take(at as int), pair, other);
            lists::pushed_contains(so_far, pair, other);
            assert(so_far.contains(other) <==> pairs@.take(at as int).contains(other) && other.0
                != server_id);
        }
        at = at + 1;
    }
    assert(pairs@.take(at as int) =~= pairs@);
    *pairs = kept;
    assert(pairs@.to_set() =~= without_server_pairs(old(pairs)@.to_set(), server_id));
}

fn has_pair(pairs: &Vec<(LanguageServerId, usize)>, server_id: LanguageServerId, index: usize) -> (has:
    bool)
    ensures
        has == pairs@.to_set().contains((server_id, index)),
{
    let mut at: usize = 0;
    while at < pairs.len()
        invariant
            at <= pairs@.len(),
            forall|i: int| 0 <= i < at ==> #[trigger] pairs@[i] != (server_id, index),
        decreases pairs@.len() - at,
    {
        if pairs[at].0 == server_id && pairs[at].1 == index {
            assert(pairs@[at as int] == (server_id, index));
            return true;
        }
        at = at + 1;
    }
    false
}

impl<V> DocumentLinksData<V> {
    /// What the data holds.
    pub closed spec fn view(&self) -> DocumentLinksView<V> {
        DocumentLinksView {
            links: buckets(self.links@),
            links_update: self.links_update,
            resolving: self.resolving@.to_set(),
        }
    }

    /// Nothing known and nothing asked for.
    pub fn new() -> (data: Self)
        ensures
            data@ == (DocumentLinksView::<V> {
                links: Seq::empty(),
                links_update: None,
                resolving: Set::empty(),
            }),
            data@.is_valid(),
    {
        let data = DocumentLinksData {
            links: Vec::new(),
            links_update: None,
            resolving: Vec::new(),
        };
        assert(data@.links =~= Seq::empty());
        assert(data@.resolving =~= Set::empty());
        data
    }

    /// The links of every server, one server after the other.
    pub fn known_links(&self) -> (links: Vec<LspDocumentLink>)
        ensures
            links@ == all_links(self@.links),
    {
        let ghost list = buckets(self.links@);
        let mut links: Vec<LspDocumentLink> = Vec::new();
        let mut at: usize = 0;
        assert(list.take(0) =~= Seq::empty());
        while at < self.links.len()
            invariant
                at <= self.links@.len(),
                list == buckets(self.links@),
                links@ == all_links(list.take(at as int)),
            decreases self.links@.len() - at,
        {
            let more = &self.links[at].links;
            let ghost before = links@;
            let mut next: usize = 0;
            assert(before + more@.take(0) =~= before);
            while next < more.len()
                invariant
                    next <= more@.len(),
                    links@ == before + more@.take(next as int),
                decreases more@.len() - next,
            {
                links.push(more[next].clone());
                next = next + 1;
                assert(links@ =~= before + more@.take(next as int));
            }
            assert(more@.take(next as int) =~= more@);
            assert(list.take(at + 1).drop_last() =~= list.take(at as int));
            at = at + 1;
        }
        assert(list.take(at as int) =~= list);
        links
    }

    /// Forgets everything about a server.
    pub fn remove_server_data(&mut self, server_id: LanguageServerId)
        requires
            old(self)@.is_valid(),
        ensures
            final(self)@ == (DocumentLinksView {
                links: without_server(old(self)@.links, server_id),
                links_update: old(self)@.links_update,
                resolving: without_server_pairs(old(self)@.resolving, server_id),
            }),
            final(self)@.is_valid(),
    {
        let ghost list = buckets(self.links@);
        if let Some(at) = find_server(&self.links, server_id) {
            self.links.remove(at);
            assert(buckets(self.links@) =~= list.remove(at as int));
            assert forall|i: int, j: int| 0 <= i < j < buckets(self.links@).len() implies (
            #[trigger] buckets(self.links@)[i]).server_id != (
            #[trigger] buckets(self.links@)[j]).server_id by {
                let from = |k: int| if k < at { k } else { k + 1 };
                assert(list[from(i)].server_id != list[from(j)].server_id);
            }
        }
        drop_pairs(&mut self.resolving, server_id);
    }
}

/// How many of the first links start no later than the given rank. In links that start one after
/// the other these are all that do.
pub open spec fn starts_until(links: Seq<LspDocumentLink>, order: u64, snapshot: BufferSnapshot) -> int
    decreases links.len(),
{
    if links.len() == 0 {
        0
    } else if snapshot.at(links.last().start).order <= order {
        links.len() as int
    } else {
        starts_until(links.drop_last(), order, snapshot)
    }
}

/// The links in the order they start; of two that start at the same place the one that was
/// first stays first.
pub open spec fn by_start(links: Seq<LspDocumentLink>, snapshot: BufferSnapshot) -> Seq<
    LspDocumentLink,
>
    decreases links.len(),
{
    if links.len() == 0 {
        Seq::empty()
    } else {
        let sorted = by_start(links.drop_last(), snapshot);
        sorted.insert(
            starts_until(sorted, snapshot.at(links.last().start).order, snapshot),
            links.last(),
        )
    }
}

proof fn starts_until_parts(links: Seq<LspDocumentLink>, order: u64, snapshot: BufferSnapshot)
    requires
        snapshot.sorts(links),
    ensures
        ({
            let at = starts_until(links, order, snapshot);
            &&& 0 <= at <= links.len()
            &&& forall|i: int|
                0 <= i < at ==> snapshot.at((#[trigger] links[i]).start).order <= order
            &&& forall|i: int|
                at <= i < links.len() ==> snapshot.at((#[trigger] links[i]).start).order > order
        }),
    decreases links.len(),
{
    if links.len() > 0 && snapshot.at(links.last().start).order > order {
        let front = links.drop_last();
        assert(forall|i: int| 0 <= i < front.len() ==> front[i] == links[i]);
        starts_until_parts(front, order, snapshot);
    }
}

/// Sorting by start neither loses nor adds links and leaves them one after the other.
pub proof fn by_start_sorts(links: Seq<LspDocumentLink>, snapshot: BufferSnapshot)
    ensures
        snapshot.sorts(by_start(links, snapshot)),
        by_start(links, snapshot).len() == links.len(),
        by_start(links, snapshot).to_multiset() == links.to_multiset(),
        snapshot.knows_all(links) ==> snapshot.knows_all(by_start(links, snapshot)),
    decreases links.len(),
{
    broadcast use vstd::seq_lib::group_to_multiset_ensures;

    if links.len() > 0 {
        let front = links.drop_last();
        let last = links.last();
        by_start_sorts(front, snapshot);
        let sorted = by_start(front, snapshot);
        let order = snapshot.at(last.start).order;
        starts_until_parts(sorted, order, snapshot);
        let at = starts_until(sorted, order, snapshot);
        let all = sorted.insert(at, last);
        assert forall|i: int, j: int| 0 <= i <= j < all.len() implies snapshot.at(
            (#[trigger] all[i]).start,
        ).order <= snapshot.at((#[trigger] all[j]).start).order by {
            let from = |k: int| if k < at { k } else { k - 1 };
            if i != at {
                assert(all[i] == sorted[from(i)]);
            }
            if j != at {
                assert(all[j] == sorted[from(j)]);
            }
        }
        assert(front.push(last) =~= links);
        if snapshot.knows_all(links) {
            assert forall|i: int| 0 <= i < front.len() implies snapshot.knows(
                (#[trigger] front[i]).start,
            ) && snapshot.knows(front[i].end) by {
                assert(front[i] == links[i]);
            }
            assert forall|i: int| 0 <= i < all.len() implies snapshot.knows(
                (#[trigger] all[i]).start,
            ) && snapshot.knows(all[i].end) by {
                if i < at {
                    assert(all[i] == sorted[i]);
                } else if i > at {
                    assert(all[i] == sorted[i - 1]);
                }
            }
        }
    }
}

fn sort_by_start(links: Vec<LspDocumentLink>, snapshot: &BufferSnapshot) -> (sorted: Vec<
    LspDocumentLink,
>)
    requires
        snapshot.knows_all(links@),
    ensures
        sorted@ == by_start(links@, *snapshot),
{
    let ghost all = links@;
    let mut left = links;
    let mut sorted: Vec<LspDocumentLink> = Vec::new();
    let ghost mut done: int = 0;
    assert(all.take(0) =~= Seq::empty());
    assert(all.skip(0) =~= all);
    while left.len() > 0
        invariant
            0 <= done <= all.len(),
            left@ == all.skip(done),
            snapshot.knows_all(all),
            sorted@ == by_start(all.take(done), *snapshot),
        decreases left@.len(),
    {
        let link = left.remove(0);
        let ghost before = all.take(done);
        proof {
            assert(link == all[done]);
            assert(left@ =~= all.skip(done + 1));
            assert(all.take(done + 1).drop_last() =~= before);
            assert forall|i: int| 0 <= i < before.len() implies snapshot.knows(
                (#[trigger] before[i]).start,
            ) && snapshot.knows(before[i].end) by {
                assert(before[i] == all[i]);
            }
            by_start_sorts(before, *snapshot);
        }
        let order: u64 = snapshot.positions[link.start.0].order;
        let mut at: usize = sorted.len();
        assert(sorted@.take(at as int) =~= sorted@);
        while at > 0 && snapshot.positions[sorted[at - 1].start.0].order > order
            invariant
                at <= sorted@.len(),
                snapshot.knows_all(sorted@),
                starts_until(sorted@, order, *snapshot) == starts_until(
                    sorted@.take(at as int),
                    order,
                    *snapshot,
                ),
            decreases at,
        {
            assert(sorted@.take(at as int).drop_last() =~= sorted@.take(at - 1));
            at = at - 1;
        }
        assert(at == starts_until(sorted@, order, *snapshot)) by {
            if at > 0 {
                assert(sorted@.take(at as int).last() == sorted@[at - 1]);
            }
        }
        sorted.insert(at, link);
        proof {
            done = done + 1;
        }
    }
    assert(all.take(done) =~= all);
    sorted
}

/// The lists with the links of each server in the order they start.
pub open spec fn all_by_start(list: Seq<Bucket>, snapshot: BufferSnapshot) -> Seq<Bucket> {
    Seq::new(
        list.len(),
        |i: int|
            Bucket { server_id: list[i].server_id, links: by_start(list[i].links, snapshot) },
    )
}

/// How the version that links were asked for stands to the version that the known links are for.
#[derive(Clone, Copy, Debug, PartialEq, Eq, Structural)]
pub enum VersionRelation {
    /// They are the same.
    Same,
    /// The known links are for a version that has nothing the asked for one lacks.
    Newer,
    /// The known links are for a version with changes that the asked for one lacks.
    Outdated,
}

/// What came of taking over links that were asked for.
#[derive(Debug)]
pub struct AppliedLinks {
    /// All links that are known now.
    pub links: Vec<LspDocumentLink>,
    /// Whether what is known is for the version asked for from now on.
    pub adopt_version: bool,
}

/// The pairs that are about none of the servers.
pub open spec fn without_servers_pairs(
    pairs: Set<(LanguageServerId, usize)>,
    list: Seq<Bucket>,
) -> Set<(LanguageServerId, usize)>
    decreases list.len(),
{
    if list.len() == 0 {
        pairs
    } else {
        without_server_pairs(
            without_servers_pairs(pairs, list.drop_last()),
            list.last().server_id,
        )
    }
}

impl<V> DocumentLinksView<V> {
    /// After links were taken over: they replace those of the same servers where they are for
    /// the same version, and all that is known where they are for a newer one. Links for an
    /// outdated version are dropped. The numbers of links that are being looked up mean nothing
    /// any more where the links were replaced.
    pub open spec fn fetched(
        self,
        list: Seq<Bucket>,
        relation: VersionRelation,
        snapshot: BufferSnapshot,
    ) -> DocumentLinksView<V> {
        let sorted = all_by_start(list, snapshot);
        match relation {
            VersionRelation::Same => DocumentLinksView {
                links: merged(self.links, sorted),
                links_update: None,
                resolving: without_servers_pairs(self.resolving, list),
            },
            VersionRelation::Newer => DocumentLinksView {
                links: sorted,
                links_update: None,
                resolving: Set::empty(),
            },
            VersionRelation::Outdated => DocumentLinksView { links_update: None, ..self },
        }
    }
}

impl<V> DocumentLinksData<V> {
    /// Whether the known links make asking again needless: they are for the buffer as it is now,
    /// and from exactly the servers that it is open in. `changed` says whether the buffer has
    /// changed since; `servers` is not known for a buffer of a remote project.
    pub fn has_current_links(&self, changed: bool, servers: Option<&Vec<LanguageServerId>>) -> (
        current: bool)
        requires
            self@.is_valid(),
        ensures
            current == (!changed && (servers matches Some(servers) ==> forall|
                id: LanguageServerId,
            | #[trigger]
                servers@.contains(id) <==> has_server(self@.links, id))),
    {
        if changed {
            return false;
        }
        match servers {
            Some(servers) => self.is_from_servers(servers),
            None => true,
        }
    }

    /// Whether the links can be searched by where they start.
    pub fn is_searchable(&self, snapshot: &BufferSnapshot) -> (searchable: bool)
        ensures
            searchable == self@.can_be_searched(*snapshot),
    {
        let ghost list = buckets(self.links@);
        let mut at: usize = 0;
        while at < self.links.len()
            invariant
                at <= self.links@.len(),
                list == buckets(self.links@),
                list == self@.links,
                forall|i: int|
                    0 <= i < at ==> snapshot.knows_all((#[trigger] list[i]).links)
                        && snapshot.starts_in_order(list[i].links),
            decreases self.links@.len() - at,
        {
            let links = &self.links[at].links;
            assert(list[at as int].links == links@);
            if !snapshot.knows_links(links) || !snapshot.has_starts_in_order(links) {
                return false;
            }
            at = at + 1;
        }
        true
    }

    fn is_from_servers(&self, servers: &Vec<LanguageServerId>) -> (same: bool)
        requires
            self@.is_valid(),
        ensures
            same == forall|id: LanguageServerId| #[trigger]
                servers@.contains(id) <==> has_server(self@.links, id),
    {
        let ghost list = buckets(self.links@);
        let mut at: usize = 0;
        while at < servers.len()
            invariant
                at <= servers@.len(),
                list == buckets(self.links@),
                servers_are_distinct(list),
                forall|i: int| 0 <= i < at ==> has_server(list, #[trigger] servers@[i]),
            decreases servers@.len() - at,
        {
            if find_server(&self.links, servers[at]).is_none() {
                assert(servers@.contains(servers@[at as int]));
                return false;
            }
            at = at + 1;
        }
        let mut at: usize = 0;
        while at < self.links.len()
            invariant
                at <= self.links@.len(),
                list == buckets(self.links@),
                forall|i: int| 0 <= i < at ==> servers@.contains((#[trigger] list[i]).server_id),
            decreases self.links@.len() - at,
        {
            let server_id = self.links[at].server_id;
            let mut found = false;
            let mut next: usize = 0;
            while next < servers.len()
                invariant
                    next <= servers@.len(),
                    found == servers@.take(next as int).contains(server_id),
                decreases servers@.len() - next,
            {
                proof {
                    let server = servers@[next as int];
                    assert(servers@.take(next + 1) =~= servers@.take(next as int).push(server));
                    lists::pushed_contains(servers@.take(next as int), server, server_id);
                }
                found = found || servers[next] == server_id;
                next = next + 1;
            }
            assert(servers@.take(next as int) =~= servers@);
            assert(list[at as int].server_id == server_id);
            if !found {
                assert(has_server(list, server_id));
                return false;
            }
            at = at + 1;
        }
        assert forall|id: LanguageServerId| #[trigger]
            servers@.contains(id) <==> has_server(list, id) by {
            if servers@.contains(id) {
                let i = choose|i: int| 0 <= i < servers@.len() && servers@[i] == id;
                assert(has_server(list, servers@[i]));
            }
            if has_server(list, id) {
                let i = index_of_server(list, id);
                assert(servers@.contains(list[i].server_id));
            }
        }
        true
    }

    /// Asks for links anew, unless they are being asked for already and the buffer has not
    /// changed since: says whether to ask. `changed_since_update` says whether the buffer has
    /// changed since the running update was started.
    pub fn start_update(&mut self, version: V, changed_since_update: bool) -> (start: bool)
        ensures
            start == (old(self)@.links_update is None || changed_since_update),
            final(self)@ == (if start {
                DocumentLinksView { links_update: Some(version), ..old(self)@ }
            } else {
                old(self)@
            }),
    {
        if self.links_update.is_some() && !changed_since_update {
            return false;
        }
        self.links_update = Some(version);
        true
    }

    /// The links that were asked for could not be had.
    pub fn fail_update(&mut self)
        ensures
            final(self)@ == (DocumentLinksView { links_update: None, ..old(self)@ }),
    {
        self.links_update = None;
    }

    /// Takes over links that were asked for. No links at all mean that no server could be asked.
    pub fn apply_fetched(
        &mut self,
        fetched: Option<Vec<ServerLinks>>,
        relation: VersionRelation,
        snapshot: &BufferSnapshot,
    ) -> (applied: Option<AppliedLinks>)
        requires
            old(self)@.is_valid(),
            fetched matches Some(list) ==> servers_are_distinct(buckets(list@)) && forall|i: int|
                0 <= i < list@.len() ==> snapshot.knows_all((#[trigger] list@[i]).links@),
        ensures
            final(self)@.is_valid(),
            final(self)@ == (match fetched {
                Some(list) => old(self)@.fetched(buckets(list@), relation, *snapshot),
                None => DocumentLinksView { links_update: None, ..old(self)@ },
            }),
            applied is Some == (fetched is Some && !(relation is Outdated)),
            applied matches Some(applied) ==> applied.links@ == all_links(final(self)@.links)
                && applied.adopt_version == (relation is Newer),
    {
        self.links_update = None;
        let list = match fetched {
            Some(list) => list,
            None => return None,
        };
        match relation {
            VersionRelation::Outdated => None,
            VersionRelation::Newer => {
                self.links = sort_all(list, snapshot);
                self.resolving = Vec::new();
                assert(self@.resolving =~= Set::empty());
                assert forall|i: int, j: int| 0 <= i < j < self@.links.len() implies (
                #[trigger] self@.links[i]).server_id != (#[trigger] self@.links[j]).server_id by {
                    assert(buckets(list@)[i].server_id != buckets(list@)[j].server_id);
                }
                Some(
                    AppliedLinks {
                        links: self.known_links(),
                        adopt_version: true,
                    },
                )
            },
            VersionRelation::Same => {
                let ghost asked = buckets(list@);
                let mut left = sort_all(list, snapshot);
                let ghost all = buckets(left@);
                let ghost mut done: int = 0;
                assert(all.take(0) =~= Seq::empty());
                assert(asked.take(0) =~= Seq::empty());
                assert(all.skip(0) =~= all);
                while left.len() > 0
                    invariant
                        0 <= done <= all.len(),
                        all.len() == asked.len(),
                        all == all_by_start(asked, *snapshot),
                        buckets(left@) == all.skip(done),
                        servers_are_distinct(self@.links),
                        self@.links_update is None,
                        self@.links == merged(old(self)@.links, all.take(done)),
                        self@.resolving == without_servers_pairs(
                            old(self)@.resolving,
                            asked.take(done),
                        ),
                    decreases left@.len(),
                {
                    let ghost before = left@;
                    let new = left.remove(0);
                    let server_id = new.server_id;
                    proof {
                        assert(buckets(before).len() == before.len());
                        assert(buckets(before)[0] == all[done]);
                        assert(buckets(left@) =~= buckets(before).skip(1));
                        assert(all.skip(done).skip(1) =~= all.skip(done + 1));
                        assert(all.take(done + 1).drop_last() =~= all.take(done));
                        assert(asked.take(done + 1).drop_last() =~= asked.take(done));
                        assert(asked[done].server_id == server_id);
                    }
                    put_links(&mut self.links, new);
                    drop_pairs(&mut self.resolving, server_id);
                    proof {
                        done = done + 1;
                    }
                }
                assert(all.take(done) =~= all);
                assert(asked.take(done) =~= asked);
                Some(
                    AppliedLinks {
                        links: self.known_links(),
                        adopt_version: false,
                    },
                )
            },
        }
    }
}

fn sort_all(list: Vec<ServerLinks>, snapshot: &BufferSnapshot) -> (sorted: Vec<ServerLinks>)
    requires
        forall|i: int| 0 <= i < list@.len() ==> snapshot.knows_all((#[trigger] list@[i]).links@),
    ensures
        buckets(sorted@) == all_by_start(buckets(list@), *snapshot),
{
    let ghost all = list@;
    let mut left = list;
    let mut sorted: Vec<ServerLinks> = Vec::new();
    let ghost mut done: int = 0;
    assert(all.skip(0) =~= all);
    assert(buckets(sorted@) =~= all_by_start(buckets(all), *snapshot).take(0));
    while left.len() > 0
        invariant
            0 <= done <= all.len(),
            left@ == all.skip(done),
            forall|i: int| 0 <= i < all.len() ==> snapshot.knows_all((#[trigger] all[i]).links@),
            buckets(sorted@) == all_by_start(buckets(all), *snapshot).take(done),
        decreases left@.len(),
    {
        let ServerLinks { server_id, links } = left.remove(0);
        let ghost before = sorted@;
        proof {
            assert(all[done] == ServerLinks { server_id, links });
            assert(left@ =~= all.skip(done + 1));
        }
        sorted.push(ServerLinks { server_id, links: sort_by_start(links, snapshot) });
        proof {
            assert(buckets(sorted@) =~= buckets(before).push(
                all_by_start(buckets(all), *snapshot)[done],
            ));
            assert(buckets(sorted@) =~= all_by_start(buckets(all), *snapshot).take(done + 1));
            done = done + 1;
        }
    }
    assert(all_by_start(buckets(all), *snapshot).take(done) =~= all_by_start(
        buckets(all),
        *snapshot,
    ));
    sorted
}

/// What one server answered to a request for links: the links, or what went wrong.
#[derive(Debug)]
pub struct ServerResponse {
    pub server_id: LanguageServerId,
    pub links: Result<Vec<LspDocumentLink>, String>,
}

/// The links of the servers that gave some, in the order of the answers.
pub open spec fn answered(responses: Seq<ServerResponse>) -> Seq<Bucket>
    decreases responses.len(),
{
    if responses.len() == 0 {
        Seq::empty()
    } else {
        let others = answered(responses.drop_last());
        match responses.last().links {
            Ok(links) => others.push(
                Bucket { server_id: responses.last().server_id, links: links@ },
            ),
            Err(_) => others,
        }
    }
}

/// Whether some server failed to give links.
pub open spec fn some_failed(responses: Seq<ServerResponse>) -> bool {
    exists|i: int| 0 <= i < responses.len() && (#[trigger] responses[i]).links is Err
}

/// The links of all servers that gave some; of two answers of one server the later counts. It is
/// an error if servers failed and none gave links.
pub fn combine_responses(responses: Vec<ServerResponse>) -> (links: Result<
    Vec<ServerLinks>,
    String,
>)
    ensures
        match links {
            Ok(links) => {
                &&& buckets(links@) == merged(Seq::empty(), answered(responses@))
                &&& servers_are_distinct(buckets(links@))
            },
            Err(message) => message@ == "Failed to fetch document links"@,
        },
        links is Err == (some_failed(responses@) && answered(responses@).len() == 0),
{
    let ghost all = responses@;
    let mut left = responses;
    let mut links: Vec<ServerLinks> = Vec::new();
    let mut has_errors = false;
    let ghost mut done: int = 0;
    assert(all.take(0) =~= Seq::empty());
    assert(all.skip(0) =~= all);
    assert(buckets(links@) =~= Seq::empty());
    while left.len() > 0
        invariant
            0 <= done <= all.len(),
            left@ == all.skip(done),
            servers_are_distinct(buckets(links@)),
            buckets(links@) == merged(Seq::empty(), answered(all.take(done))),
            has_errors == some_failed(all.take(done)),
            links@.len() == 0 <==> answered(all.take(done)).len() == 0,
        decreases left@.len(),
    {
        let response = left.remove(0);
        proof {
            let before = all.take(done);
            let now = all.take(done + 1);
            assert(response == all[done]);
            assert(left@ =~= all.skip(done + 1));
            assert(now.drop_last() =~= before);
            assert(now.last() == response);
            assert(some_failed(now) == (some_failed(before) || response.links is Err)) by {
                if some_failed(before) {
                    let i = choose|i: int|
                        0 <= i < before.len() && (#[trigger] before[i]).links is Err;
                    assert(now[i] == before[i]);
                }
                if response.links is Err {
                    assert(now[done].links is Err);
                }
                if some_failed(now) && !(response.links is Err) {
                    let i = choose|i: int| 0 <= i < now.len() && (#[trigger] now[i]).links is Err;
                    assert(before[i] == now[i]);
                }
            }
            if response.links is Ok {
                let more = answered(now);
                assert(more.drop_last() =~= answered(before));
                assert(more.last() == (Bucket {
                    server_id: response.server_id,
                    links: response.links->Ok_0@,
                }));
            }
        }
        match response.links {
            Ok(found) => {
                put_links(
                    &mut links,
                    ServerLinks { server_id: response.server_id, links: found },
                );
                assert(buckets(links@).len() == links@.len());
            },
            Err(_) => {
                has_errors = true;
            },
        }
        proof {
            done = done + 1;
        }
    }
    assert(all.take(done) =~= all);
    if has_errors && links.len() == 0 {
        Err("Failed to fetch document links".to_owned())
    } else {
        Ok(links)
    }
}

/// The links that a remote project gives. There are none where no server there knows links,
/// where the store is gone by then, or where the remote project has no answer.
pub fn links_from_upstream(
    capable: bool,
    store_is_open: bool,
    reply: Result<Option<Vec<ServerResponse>>, String>,
) -> (links: Result<Option<Vec<ServerLinks>>, String>)
    ensures
        !capable || !store_is_open ==> links matches Ok(None),
        capable && store_is_open ==> match reply {
            Err(error) => links == Err::<Option<Vec<ServerLinks>>, _>(error),
            Ok(None) => links matches Ok(None),
            Ok(Some(responses)) => {
                &&& links is Err == (some_failed(responses@) && answered(responses@).len() == 0)
                &&& match links {
                    Ok(Some(links)) => {
                        &&& buckets(links@) == merged(Seq::empty(), answered(responses@))
                        &&& servers_are_distinct(buckets(links@))
                    },
                    Ok(None) => false,
                    Err(message) => message@ == "Failed to fetch document links"@,
                }
            },
        },
{
    if !capable || !store_is_open {
        return Ok(None);
    }
    match reply {
        Err(error) => Err(error),
        Ok(None) => Ok(None),
        Ok(Some(responses)) => match combine_responses(responses) {
            Ok(links) => Ok(Some(links)),
            Err(error) => Err(error),
        },
    }
}

/// The links that the servers of a local project give; of two answers of one server the later
/// counts.
pub fn links_from_servers(answers: Vec<ServerLinks>) -> (links: Vec<ServerLinks>)
    ensures
        buckets(links@) == merged(Seq::empty(), buckets(answers@)),
        servers_are_distinct(buckets(links@)),
{
    let ghost all = buckets(answers@);
    let mut left = answers;
    let mut links: Vec<ServerLinks> = Vec::new();
    let ghost mut done: int = 0;
    assert(all.take(0) =~= Seq::empty());
    assert(all.skip(0) =~= all);
    assert(buckets(links@) =~= Seq::empty());
    while left.len() > 0
        invariant
            0 <= done <= all.len(),
            buckets(left@) == all.skip(done),
            servers_are_distinct(buckets(links@)),
            buckets(links@) == merged(Seq::empty(), all.take(done)),
        decreases left@.len(),
    {
        let ghost before = left@;
        let new = left.remove(0);
        proof {
            assert(buckets(before).len() == before.len());
            assert(buckets(before)[0] == all[done]);
            assert(buckets(left@) =~= buckets(before).skip(1));
            assert(all.skip(done).skip(1) =~= all.skip(done + 1));
            assert(all.take(done + 1).drop_last() =~= all.take(done));
        }
        put_links(&mut links, new);
        proof {
            done = done + 1;
        }
    }
    assert(all.take(done) =~= all);
    links
}

/// What a server says it can do with links.
#[derive(Clone, Copy, Debug, PartialEq, Eq, Structural)]
pub struct DocumentLinkOptions {
    pub resolve_provider: Option<bool>,
}

/// What a server says it can do.
#[derive(Clone, Copy, Debug, PartialEq, Eq, Structural)]
pub struct ServerCapabilities {
    pub document_link_provider: Option<DocumentLinkOptions>,
}

impl ServerCapabilities {
    /// Whether the server can look up a link more closely.
    pub open spec fn resolves_links(self) -> bool {
        self.document_link_provider matches Some(options)
            && options.resolve_provider matches Some(resolves) && resolves
    }
}

/// Whether the server can look up a link more closely.
pub fn can_resolve_link(capabilities: &ServerCapabilities) -> (can: bool)
    ensures
        can == capabilities.resolves_links(),
{
    match capabilities.document_link_provider {
        Some(options) => match options.resolve_provider {
            Some(resolves) => resolves,
            None => false,
        },
        None => false,
    }
}

/// A server that is running.
#[derive(Clone, Copy, Debug, PartialEq, Eq, Structural)]
pub struct RunningServer {
    pub server_id: LanguageServerId,
    pub capabilities: ServerCapabilities,
}

/// Says of a running server whether it is the given one.
pub open spec fn is_server(server_id: LanguageServerId) -> spec_fn(RunningServer) -> bool {
    |server: RunningServer| server.server_id == server_id
}

/// Whether the server is running and can look up links.
pub open spec fn is_capable(servers: Seq<RunningServer>, server_id: LanguageServerId) -> bool {
    lists::first_where(servers, is_server(server_id)) matches Some(server)
        && server.capabilities.resolves_links()
}

fn server_is_capable(servers: &Vec<RunningServer>, server_id: LanguageServerId) -> (capable: bool)
    ensures
        capable == is_capable(servers@, server_id),
{
    let mut at: usize = 0;
    while at < servers.len()
        invariant
            at <= servers@.len(),
            forall|i: int| 0 <= i < at ==> !is_server(server_id)(#[trigger] servers@[i]),
        decreases servers@.len() - at,
    {
        if servers[at].server_id == server_id {
            proof {
                lists::first_where_at(servers@, is_server(server_id), at as int);
            }
            return can_resolve_link(&servers[at].capabilities);
        }
        at = at + 1;
    }
    proof {
        lists::first_where_at(servers@, is_server(server_id), at as int);
    }
    false
}

/// A request to a server to look up a link.
#[derive(Debug, PartialEq, Eq)]
pub struct ResolveRequest {
    pub server_id: LanguageServerId,
    pub index: usize,
    pub start: Position,
    pub end: Position,
    pub target: Option<String>,
    pub tooltip: Option<String>,
    pub data: Option<String>,
}

/// The part of a buffer that the user can see, by the bytes before its ends.
#[derive(Clone, Copy, Debug, PartialEq, Eq, Structural)]
pub struct VisibleRange {
    pub start: usize,
    pub end: usize,
}

impl VisibleRange {
    /// Whether the link starts in the part.
    pub open spec fn shows(self, link: LspDocumentLink, snapshot: BufferSnapshot) -> bool {
        self.start <= snapshot.at(link.start).offset <= self.end
    }
}

impl LspDocumentLink {
    /// Whether there is nothing left to look up: the target is known and the server wants nothing
    /// back.
    pub open spec fn is_resolved(self) -> bool {
        self.target is Some && self.data is None
    }

    /// The request to look up the link.
    pub open spec fn request(
        self,
        server_id: LanguageServerId,
        index: int,
        snapshot: BufferSnapshot,
    ) -> ResolveRequest {
        ResolveRequest {
            server_id,
            index: index as usize,
            start: snapshot.at(self.start).position,
            end: snapshot.at(self.end).position,
            target: self.target,
            tooltip: self.tooltip,
            data: self.data,
        }
    }
}

/// Whether the link has to be looked up: it can be seen, is not resolved yet, and is not being
/// looked up already.
pub open spec fn is_wanted(
    bucket: Bucket,
    index: int,
    visible: VisibleRange,
    snapshot: BufferSnapshot,
    resolving: Set<(LanguageServerId, usize)>,
) -> bool {
    &&& visible.shows(bucket.links[index], snapshot)
    &&& !bucket.links[index].is_resolved()
    &&& !resolving.contains((bucket.server_id, index as usize))
}

/// The requests for the first links of a server.
pub open spec fn wanted_in(
    bucket: Bucket,
    count: int,
    visible: VisibleRange,
    snapshot: BufferSnapshot,
    resolving: Set<(LanguageServerId, usize)>,
) -> Seq<ResolveRequest>
    decreases count,
{
    if count <= 0 {
        Seq::empty()
    } else {
        let others = wanted_in(bucket, count - 1, visible, snapshot, resolving);
        if is_wanted(bucket, count - 1, visible, snapshot, resolving) {
            others.push(bucket.links[count - 1].request(bucket.server_id, count - 1, snapshot))
        } else {
            others
        }
    }
}

/// The requests for the links of all servers that can look them up.
pub open spec fn wanted(
    list: Seq<Bucket>,
    servers: Seq<RunningServer>,
    visible: VisibleRange,
    snapshot: BufferSnapshot,
    resolving: Set<(LanguageServerId, usize)>,
) -> Seq<ResolveRequest>
    decreases list.len(),
{
    if list.len() == 0 {
        Seq::empty()
    } else {
        let others = wanted(list.drop_last(), servers, visible, snapshot, resolving);
        let bucket = list.last();
        if is_capable(servers, bucket.server_id) {
            others + wanted_in(bucket, bucket.links.len() as int, visible, snapshot, resolving)
        } else {
            others
        }
    }
}

/// The links that requests are about, by server and number.
pub open spec fn pairs(requests: Seq<ResolveRequest>) -> Set<(LanguageServerId, usize)> {
    Set::new(
        |pair: (LanguageServerId, usize)|
            exists|i: int|
                0 <= i < requests.len() && (#[trigger] requests[i]).server_id == pair.0
                    && requests[i].index == pair.1,
    )
}

proof fn nothing_wanted_between(
    bucket: Bucket,
    from: int,
    to: int,
    visible: VisibleRange,
    snapshot: BufferSnapshot,
    resolving: Set<(LanguageServerId, usize)>,
)
    requires
        0 <= from <= to,
        forall|i: int|
            from <= i < to ==> !visible.shows(#[trigger] bucket.links[i], snapshot),
    ensures
        wanted_in(bucket, to, visible, snapshot, resolving) == wanted_in(
            bucket,
            from,
            visible,
            snapshot,
            resolving,
        ),
    decreases to - from,
{
    if from < to {
        nothing_wanted_between(bucket, from, to - 1, visible, snapshot, resolving);
        assert(!visible.shows(bucket.links[to - 1], snapshot));
    }
}

fn first_from(links: &Vec<LspDocumentLink>, offset: usize, snapshot: &BufferSnapshot) -> (at: usize)
    requires
        snapshot.knows_all(links@),
        snapshot.starts_in_order(links@),
    ensures
        at <= links@.len(),
        forall|i: int| 0 <= i < at ==> snapshot.at((#[trigger] links@[i]).start).offset < offset,
        forall|i: int|
            at <= i < links@.len() ==> snapshot.at((#[trigger] links@[i]).start).offset >= offset,
{
    let mut low: usize = 0;
    let mut high: usize = links.len();
    while low < high
        invariant
            low <= high <= links@.len(),
            snapshot.knows_all(links@),
            snapshot.starts_in_order(links@),
            forall|i: int|
                0 <= i < low ==> snapshot.at((#[trigger] links@[i]).start).offset < offset,
            forall|i: int|
                high <= i < links@.len() ==> snapshot.at((#[trigger] links@[i]).start).offset
                    >= offset,
        decreases high - low,
    {
        let middle: usize = low + (high - low) / 2;
        let start = links[middle].start;
        if snapshot.positions[start.0].offset < offset {
            assert forall|i: int| 0 <= i <= middle implies snapshot.at(
                (#[trigger] links@[i]).start,
            ).offset < offset by {
                let a = snapshot.at(links@[i].start);
                let b = snapshot.at(links@[middle as int].start);
                assert(a.offset <= b.offset);
            }
            low = middle + 1;
        } else {
            assert forall|i: int| middle <= i < links@.len() implies snapshot.at(
                (#[trigger] links@[i]).start,
            ).offset >= offset by {
                let a = snapshot.at(links@[middle as int].start);
                let b = snapshot.at(links@[i].start);
                assert(a.offset <= b.offset);
            }
            high = middle;
        }
    }
    low
}

impl<V> DocumentLinksData<V> {
    /// The requests for the links that the user can see and that are not known well enough yet.
    /// They count as being looked up from now on.
    pub fn resolve_visible_document_links(
        &mut self,
        servers: &Vec<RunningServer>,
        visible: VisibleRange,
        snapshot: &BufferSnapshot,
    ) -> (requests: Vec<ResolveRequest>)
        requires
            old(self)@.is_valid(),
            old(self)@.can_be_searched(*snapshot),
        ensures
            requests@ == wanted(
                old(self)@.links,
                servers@,
                visible,
                *snapshot,
                old(self)@.resolving,
            ),
            final(self)@ == (DocumentLinksView {
                resolving: old(self)@.resolving.union(pairs(requests@)),
                ..old(self)@
            }),
    {
        let ghost list = self@.links;
        let ghost resolving = self@.resolving;
        let mut requests: Vec<ResolveRequest> = Vec::new();
        let mut at: usize = 0;
        assert(list.take(0) =~= Seq::empty());
        while at < self.links.len()
            invariant
                at <= self.links@.len(),
                self@ == old(self)@,
                list == buckets(self.links@),
                resolving == self.resolving@.to_set(),
                old(self)@.links == list,
                old(self)@.can_be_searched(*snapshot),
                requests@ == wanted(
                    list.take(at as int),
                    servers@,
                    visible,
                    *snapshot,
                    resolving,
                ),
            decreases self.links@.len() - at,
        {
            let server_id = self.links[at].server_id;
            let ghost bucket = list[at as int];
            assert(list.take(at + 1).drop_last() =~= list.take(at as int));
            if server_is_capable(servers, server_id) {
                let links = &self.links[at].links;
                assert(bucket == (Bucket { server_id, links: links@ }));
                let ghost others = requests@;
                let from: usize = first_from(links, visible.start, snapshot);
                let mut index: usize = from;
                proof {
                    nothing_wanted_between(
                        bucket,
                        0,
                        from as int,
                        visible,
                        *snapshot,
                        resolving,
                    );
                    assert(others + wanted_in(bucket, 0, visible, *snapshot, resolving)
                        =~= others);
                }
                while index < links.len()
                    invariant_except_break
                        from <= index <= links@.len(),
                        requests@ == others + wanted_in(
                            bucket,
                            index as int,
                            visible,
                            *snapshot,
                            resolving,
                        ),
                    invariant
                        *links == self.links@[at as int].links,
                        at < self.links@.len(),
                        resolving == self.resolving@.to_set(),
                        bucket == (Bucket { server_id, links: links@ }),
                        snapshot.knows_all(links@),
                        snapshot.starts_in_order(links@),
                        forall|i: int|
                            from <= i < links@.len() ==> snapshot.at(
                                (#[trigger] links@[i]).start,
                            ).offset >= visible.start,
                    ensures
                        requests@ == others + wanted_in(
                            bucket,
                            links@.len() as int,
                            visible,
                            *snapshot,
                            resolving,
                        ),
                    decreases links@.len() - index,
                {
                    let link = &links[index];
                    let start = snapshot.positions[link.start.0];
                    if start.offset > visible.end {
                        proof {
                            assert forall|i: int| index <= i < links@.len() implies !visible.shows(
                                #[trigger] bucket.links[i],
                                *snapshot,
                            ) by {
                                let a = snapshot.at(links@[index as int].start);
                                let b = snapshot.at(links@[i].start);
                                assert(a.offset <= b.offset);
                            }
                            nothing_wanted_between(
                                bucket,
                                index as int,
                                links@.len() as int,
                                visible,
                                *snapshot,
                                resolving,
                            );
                        }
                        break;
                    }
                    let ghost so_far = requests@;
                    let is_resolved = link.target.is_some() && link.data.is_none();
                    if !is_resolved && !has_pair(&self.resolving, server_id, index) {
                        let request = ResolveRequest {
                            server_id,
                            index,
                            start: start.position,
                            end: snapshot.positions[link.end.0].position,
                            target: text::copied(&link.target),
                            tooltip: text::copied(&link.tooltip),
                            data: text::copied(&link.data),
                        };
                        requests.push(request);
                    }
                    index = index + 1;
                    assert(requests@ =~= others + wanted_in(
                        bucket,
                        index as int,
                        visible,
                        *snapshot,
                        resolving,
                    ));
                }
            }
            at = at + 1;
        }
        assert(list.take(at as int) =~= list);
        let mut next: usize = 0;
        assert(self@.resolving =~= resolving.union(pairs(requests@.take(0))));
        while next < requests.len()
            invariant
                next <= requests@.len(),
                self@ == (DocumentLinksView {
                    resolving: resolving.union(pairs(requests@.take(next as int))),
                    ..old(self)@
                }),
            decreases requests@.len() - next,
        {
            let ghost before = self.resolving@;
            let pair = (requests[next].server_id, requests[next].index);
            self.resolving.push(pair);
            proof {
                before.lemma_push_to_set_commute(pair);
                let now = requests@.take(next + 1);
                let shorter = requests@.take(next as int);
                assert forall|other: (LanguageServerId, usize)|
                    pairs(now).contains(other) <==> pairs(shorter).contains(other) || other
                        == pair by {
                    if pairs(now).contains(other) && other != pair {
                        let i = choose|i: int|
                            0 <= i < now.len() && (#[trigger] now[i]).server_id == other.0
                                && now[i].index == other.1;
                        assert(shorter[i] == now[i]);
                    }
                    if pairs(shorter).contains(other) {
                        let i = choose|i: int|
                            0 <= i < shorter.len() && (#[trigger] shorter[i]).server_id == other.0
                                && shorter[i].index == other.1;
                        assert(now[i] == shorter[i]);
                    }
                    if other == pair {
                        assert(now[next as int].server_id == pair.0);
                    }
                }
                assert(self@.resolving =~= resolving.union(pairs(now)));
            }
            next = next + 1;
        }
        assert(requests@.take(next as int) =~= requests@);
        requests
    }
}

/// What a server found out about a link.
#[derive(Debug, PartialEq, Eq)]
pub struct ResolvedLink {
    pub server_id: LanguageServerId,
    pub index: usize,
    pub target: Option<String>,
    pub tooltip: Option<String>,
    pub data: Option<String>,
}

impl LspDocumentLink {
    /// The link with what the server found out. A tooltip that the server does not give again
    /// stays.
    pub open spec fn resolved_with(self, resolved: ResolvedLink) -> LspDocumentLink {
        LspDocumentLink {
            start: self.start,
            end: self.end,
            target: resolved.target,
            tooltip: if resolved.tooltip is Some {
                resolved.tooltip
            } else {
                self.tooltip
            },
            data: resolved.data,
        }
    }
}

impl ResolvedLink {
    /// Whether the link is still there.
    pub open spec fn has_link(self, list: Seq<Bucket>) -> bool {
        has_server(list, self.server_id) && self.index < list[index_of_server(
            list,
            self.server_id,
        )].links.len()
    }

    /// The link as it is known now.
    pub open spec fn new_link(self, list: Seq<Bucket>) -> LspDocumentLink {
        list[index_of_server(list, self.server_id)].links[self.index as int].resolved_with(self)
    }

    /// The lists with the link as it is known now.
    pub open spec fn put_into(self, list: Seq<Bucket>) -> Seq<Bucket> {
        let at = index_of_server(list, self.server_id);
        if self.has_link(list) {
            list.update(
                at,
                Bucket {
                    server_id: self.server_id,
                    links: list[at].links.update(self.index as int, self.new_link(list)),
                },
            )
        } else {
            list
        }
    }
}

/// The lists with everything that the servers found out.
pub open spec fn resolved_lists(list: Seq<Bucket>, resolved: Seq<ResolvedLink>) -> Seq<Bucket>
    decreases resolved.len(),
{
    if resolved.len() == 0 {
        list
    } else {
        resolved.last().put_into(resolved_lists(list, resolved.drop_last()))
    }
}

/// The links about which the servers found something out.
pub open spec fn newly_resolved(list: Seq<Bucket>, resolved: Seq<ResolvedLink>) -> Seq<
    LspDocumentLink,
>
    decreases resolved.len(),
{
    if resolved.len() == 0 {
        Seq::empty()
    } else {
        let others = newly_resolved(list, resolved.drop_last());
        let before = resolved_lists(list, resolved.drop_last());
        if resolved.last().has_link(before) {
            others.push(resolved.last().new_link(before))
        } else {
            others
        }
    }
}

fn remove_pair(pairs: &mut Vec<(LanguageServerId, usize)>, pair: (LanguageServerId, usize))
    ensures
        final(pairs)@.to_set() == old(pairs)@.to_set().remove(pair),
{
    let mut kept: Vec<(LanguageServerId, usize)> = Vec::new();
    let mut at: usize = 0;
    while at < pairs.len()
        invariant
            at <= pairs@.len(),
            pairs@ == old(pairs)@,
            forall|other: (LanguageServerId, usize)| #[trigger]
                kept@.contains(other) <==> pairs@.take(at as int).contains(other) && other != pair,
        decreases pairs@.len() - at,
    {
        let next = pairs[at];
        let ghost so_far = kept@;
        assert(pairs@.take(at + 1) =~= pairs@.take(at as int).push(next));
        if next.0 != pair.0 || next.1 != pair.1 {
            kept.push(next);
        }
        assert forall|other: (LanguageServerId, usize)| #[trigger]
            kept@.contains(other) <==> pairs@.take(at + 1).contains(other) && other != pair by {
            lists::pushed_contains(pairs@.take(at as int), next, other);
            lists::pushed_contains(so_far, next, other);
            assert(so_far.contains(other) <==> pairs@.take(at as int).contains(other) && other
                != pair);
        }
        at = at + 1;
    }
    assert(pairs@.take(at as int) =~= pairs@);
    *pairs = kept;
    assert(pairs@.to_set() =~= old(pairs)@.to_set().remove(pair));
}

impl<V> DocumentLinksData<V> {
    /// Takes over what the servers found out, and gives the links it is about. Where the buffer
    /// has changed since the servers were asked, nothing is taken over.
    pub fn apply_resolved(
        &mut self,
        version_is_same: bool,
        requests: &Vec<ResolveRequest>,
        resolved: Vec<ResolvedLink>,
    ) -> (links: Vec<LspDocumentLink>)
        requires
            old(self)@.is_valid(),
        ensures
            final(self)@.is_valid(),
            version_is_same ==> {
                &&& links@ == newly_resolved(old(self)@.links, resolved@)
                &&& final(self)@ == (DocumentLinksView {
                    links: resolved_lists(old(self)@.links, resolved@),
                    links_update: old(self)@.links_update,
                    resolving: old(self)@.resolving.difference(pairs(requests@)),
                })
            },
            !version_is_same ==> links@.len() == 0 && final(self)@ == old(self)@,
    {
        let mut links: Vec<LspDocumentLink> = Vec::new();
        if !version_is_same {
            return links;
        }
        let ghost before = self@;
        let mut next: usize = 0;
        assert(self@.resolving =~= before.resolving.difference(pairs(requests@.take(0))));
        while next < requests.len()
            invariant
                next <= requests@.len(),
                self@ == (DocumentLinksView {
                    resolving: before.resolving.difference(pairs(requests@.take(next as int))),
                    ..before
                }),
            decreases requests@.len() - next,
        {
            let pair = (requests[next].server_id, requests[next].index);
            remove_pair(&mut self.resolving, pair);
            proof {
                let now = requests@.take(next + 1);
                let shorter = requests@.take(next as int);
                assert forall|other: (LanguageServerId, usize)|
                    pairs(now).contains(other) <==> pairs(shorter).contains(other) || other
                        == pair by {
                    if pairs(now).contains(other) && other != pair {
                        let i = choose|i: int|
                            0 <= i < now.len() && (#[trigger] now[i]).server_id == other.0
                                && now[i].index == other.1;
                        assert(shorter[i] == now[i]);
                    }
                    if pairs(shorter).contains(other) {
                        let i = choose|i: int|
                            0 <= i < shorter.len() && (#[trigger] shorter[i]).server_id == other.0
                                && shorter[i].index == other.1;
                        assert(now[i] == shorter[i]);
                    }
                    if other == pair {
                        assert(now[next as int].server_id == pair.0);
                    }
                }
                assert(self@.resolving =~= before.resolving.difference(pairs(now)));
            }
            next = next + 1;
        }
        assert(requests@.take(next as int) =~= requests@);
        let ghost all = resolved@;
        let mut left = resolved;
        let ghost mut done: int = 0;
        assert(all.take(0) =~= Seq::empty());
        assert(all.skip(0) =~= all);
        while left.len() > 0
            invariant
                0 <= done <= all.len(),
                left@ == all.skip(done),
                self@.is_valid(),
                self@ == (DocumentLinksView {
                    links: resolved_lists(before.links, all.take(done)),
                    links_update: before.links_update,
                    resolving: before.resolving.difference(pairs(requests@)),
                }),
                links@ == newly_resolved(before.links, all.take(done)),
            decreases left@.len(),
        {
            let found = left.remove(0);
            let ghost list = self@.links;
            proof {
                assert(found == all[done]);
                assert(left@ =~= all.skip(done + 1));
                assert(all.take(done + 1).drop_last() =~= all.take(done));
            }
            if let Some(at) = find_server(&self.links, found.server_id) {
                if found.index < self.links[at].links.len() {
                    let index = found.index;
                    let old_link = self.links[at].links[index].clone();
                    let link = LspDocumentLink {
                        start: old_link.start,
                        end: old_link.end,
                        target: found.target,
                        tooltip: if found.tooltip.is_some() {
                            found.tooltip
                        } else {
                            old_link.tooltip
                        },
                        data: found.data,
                    };
                    links.push(link.clone());
                    let mut bucket = self.links.remove(at);
                    bucket.links[index] = link;
                    self.links.insert(at, bucket);
                    assert(self@.links =~= found.put_into(list));
                    assert forall|i: int, j: int| 0 <= i < j < self@.links.len() implies (
                    #[trigger] self@.links[i]).server_id != (
                    #[trigger] self@.links[j]).server_id by {
                        assert(list[i].server_id != list[j].server_id);
                        assert(list[at as int].server_id == found.server_id);
                    }
                }
            }
            proof {
                done = done + 1;
            }
        }
        assert(all.take(done) =~= all);
        links
    }
}

proof fn wanted_in_covers(
    bucket: Bucket,
    count: int,
    index: int,
    visible: VisibleRange,
    snapshot: BufferSnapshot,
    resolving: Set<(LanguageServerId, usize)>,
)
    requires
        0 <= index < count,
        is_wanted(bucket, index, visible, snapshot, resolving),
    ensures
        wanted_in(bucket, count, visible, snapshot, resolving).contains(
            bucket.links[index].request(bucket.server_id, index, snapshot),
        ),
    decreases count,
{
    let others = wanted_in(bucket, count - 1, visible, snapshot, resolving);
    let request = bucket.links[count - 1].request(bucket.server_id, count - 1, snapshot);
    if index == count - 1 {
        lists::pushed_contains(others, request, request);
    } else {
        wanted_in_covers(bucket, count - 1, index, visible, snapshot, resolving);
        lists::pushed_contains(
            others,
            request,
            bucket.links[index].request(bucket.server_id, index, snapshot),
        );
    }
}

/// Nothing that can be seen is passed over: of every server that can look links up, each visible
/// link that is not known well enough and not being looked up is asked for.
pub proof fn every_wanted_link_is_asked_for(
    list: Seq<Bucket>,
    at: int,
    index: int,
    servers: Seq<RunningServer>,
    visible: VisibleRange,
    snapshot: BufferSnapshot,
    resolving: Set<(LanguageServerId, usize)>,
)
    requires
        0 <= at < list.len(),
        0 <= index < list[at].links.len(),
        is_capable(servers, list[at].server_id),
        is_wanted(list[at], index, visible, snapshot, resolving),
    ensures
        pairs(wanted(list, servers, visible, snapshot, resolving)).contains(
            (list[at].server_id, index as usize),
        ),
    decreases list.len(),
{
    let front = list.drop_last();
    let bucket = list.last();
    let others = wanted(front, servers, visible, snapshot, resolving);
    let own = wanted_in(bucket, bucket.links.len() as int, visible, snapshot, resolving);
    let all = wanted(list, servers, visible, snapshot, resolving);
    if at == list.len() - 1 {
        wanted_in_covers(
            bucket,
            bucket.links.len() as int,
            index,
            visible,
            snapshot,
            resolving,
        );
        let request = bucket.links[index].request(bucket.server_id, index, snapshot);
        let i = choose|i: int| 0 <= i < own.len() && own[i] == request;
        assert(all[others.len() + i] == request);
    } else {
        assert(front[at] == list[at]);
        every_wanted_link_is_asked_for(front, at, index, servers, visible, snapshot, resolving);
        let i = choose|i: int|
            0 <= i < others.len() && (#[trigger] others[i]).server_id == list[at].server_id
                && others[i].index == index as usize;
        assert(all[i] == others[i]);
    }
}

proof fn nothing_wanted_in(
    bucket: Bucket,
    count: int,
    visible: VisibleRange,
    snapshot: BufferSnapshot,
    resolving: Set<(LanguageServerId, usize)>,
)
    requires
        forall|index: int|
            0 <= index < count ==> !#[trigger] is_wanted(
                bucket,
                index,
                visible,
                snapshot,
                resolving,
            ),
    ensures
        wanted_in(bucket, count, visible, snapshot, resolving).len() == 0,
    decreases count,
{
    if count > 0 {
        nothing_wanted_in(bucket, count - 1, visible, snapshot, resolving);
        assert(!is_wanted(bucket, count - 1, visible, snapshot, resolving));
    }
}

proof fn nothing_wanted(
    list: Seq<Bucket>,
    servers: Seq<RunningServer>,
    visible: VisibleRange,
    snapshot: BufferSnapshot,
    resolving: Set<(LanguageServerId, usize)>,
)
    requires
        forall|at: int, index: int|
            0 <= at < list.len() && 0 <= index < list[at].links.len() && is_capable(
                servers,
                list[at].server_id,
            ) ==> !#[trigger] is_wanted(list[at], index, visible, snapshot, resolving),
    ensures
        wanted(list, servers, visible, snapshot, resolving).len() == 0,
    decreases list.len(),
{
    if list.len() > 0 {
        let front = list.drop_last();
        assert forall|at: int, index: int|
            0 <= at < front.len() && 0 <= index < front[at].links.len() && is_capable(
                servers,
                front[at].server_id,
            ) implies !#[trigger] is_wanted(front[at], index, visible, snapshot, resolving) by {
            assert(front[at] == list[at]);
        }
        nothing_wanted(front, servers, visible, snapshot, resolving);
        let bucket = list.last();
        if is_capable(servers, bucket.server_id) {
            assert forall|index: int| 0 <= index < bucket.links.len() implies !#[trigger] is_wanted(
                bucket,
                index,
                visible,
                snapshot,
                resolving,
            ) by {
                assert(!is_wanted(list[list.len() - 1], index, visible, snapshot, resolving));
            }
            nothing_wanted_in(bucket, bucket.links.len() as int, visible, snapshot, resolving);
        }
    }
}

/// No link is asked for twice: once the requests for what can be seen are under way, the same
/// view asks for nothing more.
pub proof fn resolving_again_asks_nothing(
    list: Seq<Bucket>,
    servers: Seq<RunningServer>,
    visible: VisibleRange,
    snapshot: BufferSnapshot,
    resolving: Set<(LanguageServerId, usize)>,
)
    ensures
        wanted(
            list,
            servers,
            visible,
            snapshot,
            resolving.union(pairs(wanted(list, servers, visible, snapshot, resolving))),
        ).len() == 0,
{
    let first = wanted(list, servers, visible, snapshot, resolving);
    let now = resolving.union(pairs(first));
    assert forall|at: int, index: int|
        0 <= at < list.len() && 0 <= index < list[at].links.len() && is_capable(
            servers,
            list[at].server_id,
        ) implies !#[trigger] is_wanted(list[at], index, visible, snapshot, now) by {
        if is_wanted(list[at], index, visible, snapshot, resolving) {
            every_wanted_link_is_asked_for(list, at, index, servers, visible, snapshot, resolving);
        }
    }
    nothing_wanted(list, servers, visible, snapshot, now);
}

proof fn wanted_in_is_wanted(
    bucket: Bucket,
    count: int,
    visible: VisibleRange,
    snapshot: BufferSnapshot,
    resolving: Set<(LanguageServerId, usize)>,
    request: ResolveRequest,
)
    requires
        wanted_in(bucket, count, visible, snapshot, resolving).contains(request),
    ensures
        exists|index: int|
            0 <= index < count && #[trigger] is_wanted(
                bucket,
                index,
                visible,
                snapshot,
                resolving,
            ) && request == bucket.links[index].request(bucket.server_id, index, snapshot),
    decreases count,
{
    if count > 0 {
        let others = wanted_in(bucket, count - 1, visible, snapshot, resolving);
        let last = bucket.links[count - 1].request(bucket.server_id, count - 1, snapshot);
        lists::pushed_contains(others, last, request);
        if others.contains(request) {
            wanted_in_is_wanted(bucket, count - 1, visible, snapshot, resolving, request);
        }
    }
}

/// Only what is worth asking is asked: every request is to a running server that can look up
/// links, about one of its links that can be seen, is not resolved, and is not being looked up.
pub proof fn requests_are_worthwhile(
    list: Seq<Bucket>,
    servers: Seq<RunningServer>,
    visible: VisibleRange,
    snapshot: BufferSnapshot,
    resolving: Set<(LanguageServerId, usize)>,
    request: ResolveRequest,
)
    requires
        wanted(list, servers, visible, snapshot, resolving).contains(request),
    ensures
        is_capable(servers, request.server_id),
        exists|at: int, index: int|
            0 <= at < list.len() && 0 <= index < list[at].links.len() && list[at].server_id
                == request.server_id && #[trigger] is_wanted(
                list[at],
                index,
                visible,
                snapshot,
                resolving,
            ) && request == list[at].links[index].request(list[at].server_id, index, snapshot),
    decreases list.len(),
{
    if list.len() > 0 {
        let front = list.drop_last();
        let bucket = list.last();
        let others = wanted(front, servers, visible, snapshot, resolving);
        let own = wanted_in(bucket, bucket.links.len() as int, visible, snapshot, resolving);
        let all = wanted(list, servers, visible, snapshot, resolving);
        let i = choose|i: int| 0 <= i < all.len() && all[i] == request;
        if i < others.len() {
            assert(others[i] == request);
            requests_are_worthwhile(front, servers, visible, snapshot, resolving, request);
            let (at, index) = choose|at: int, index: int|
                0 <= at < front.len() && 0 <= index < front[at].links.len() && front[at].server_id
                    == request.server_id && #[trigger] is_wanted(
                    front[at],
                    index,
                    visible,
                    snapshot,
                    resolving,
                ) && request == front[at].links[index].request(
                    front[at].server_id,
                    index,
                    snapshot,
                );
            assert(front[at] == list[at]);
            assert(is_wanted(list[at], index, visible, snapshot, resolving));
        } else {
            assert(own[i - others.len()] == request);
            wanted_in_is_wanted(
                bucket,
                bucket.links.len() as int,
                visible,
                snapshot,
                resolving,
                request,
            );
            let index = choose|index: int|
                0 <= index < bucket.links.len() && #[trigger] is_wanted(
                    bucket,
                    index,
                    visible,
                    snapshot,
                    resolving,
                ) && request == bucket.links[index].request(bucket.server_id, index, snapshot);
            assert(is_wanted(list[list.len() - 1], index, visible, snapshot, resolving));
        }
    }
}

proof fn merging_keeps_links_sorted(
    list: Seq<Bucket>,
    more: Seq<Bucket>,
    snapshot: BufferSnapshot,
)
    requires
        forall|i: int|
            0 <= i < list.len() ==> snapshot.knows_all((#[trigger] list[i]).links)
                && snapshot.sorts(list[i].links),
        forall|i: int|
            0 <= i < more.len() ==> snapshot.knows_all((#[trigger] more[i]).links)
                && snapshot.sorts(more[i].links),
    ensures
        forall|i: int|
            0 <= i < merged(list, more).len() ==> snapshot.knows_all(
                (#[trigger] merged(list, more)[i]).links,
            ) && snapshot.sorts(merged(list, more)[i].links),
    decreases more.len(),
{
    if more.len() > 0 {
        let front = more.drop_last();
        assert(forall|i: int| 0 <= i < front.len() ==> front[i] == more[i]);
        merging_keeps_links_sorted(list, front, snapshot);
        let before = merged(list, front);
        let after = merged(list, more);
        let bucket = more[more.len() - 1];
        assert forall|i: int| 0 <= i < after.len() implies snapshot.knows_all(
            (#[trigger] after[i]).links,
        ) && snapshot.sorts(after[i].links) by {
            if has_server(before, bucket.server_id) {
                let at = index_of_server(before, bucket.server_id);
                if i != at {
                    assert(after[i] == before[i]);
                }
            } else if i < before.len() {
                assert(after[i] == before[i]);
            }
        }
    }
}

/// The links of every server stay in the order they start, whatever is taken over.
pub proof fn fetched_links_are_sorted<V>(
    data: DocumentLinksView<V>,
    list: Seq<Bucket>,
    relation: VersionRelation,
    snapshot: BufferSnapshot,
)
    requires
        data.is_sorted(snapshot),
        forall|i: int| 0 <= i < list.len() ==> snapshot.knows_all((#[trigger] list[i]).links),
    ensures
        data.fetched(list, relation, snapshot).is_sorted(snapshot),
{
    let sorted = all_by_start(list, snapshot);
    assert forall|i: int| 0 <= i < sorted.len() implies snapshot.knows_all(
        (#[trigger] sorted[i]).links,
    ) && snapshot.sorts(sorted[i].links) by {
        assert(snapshot.knows_all(list[i].links));
        by_start_sorts(list[i].links, snapshot);
    }
    merging_keeps_links_sorted(data.links, sorted, snapshot);
}

/// Links that are in order stay in order while the buffer is edited: it is enough that places
/// keep their ranks.
pub proof fn sorted_links_stay_sorted<V>(
    data: DocumentLinksView<V>,
    before: BufferSnapshot,
    after: BufferSnapshot,
)
    requires
        data.is_sorted(before),
        before.positions@.len() <= after.positions@.len(),
        forall|a: Anchor, b: Anchor|
            before.knows(a) && before.knows(b) && #[trigger] before.at(a).order
                <= #[trigger] before.at(b).order ==> after.at(a).order <= after.at(b).order,
    ensures
        data.is_sorted(after),
{
    assert forall|i: int| 0 <= i < data.links.len() implies after.knows_all(
        (#[trigger] data.links[i]).links,
    ) && after.sorts(data.links[i].links) by {
        let links = data.links[i].links;
        assert(before.knows_all(links) && before.sorts(links));
        assert forall|j: int, k: int| 0 <= j <= k < links.len() implies after.at(
            (#[trigger] links[j]).start,
        ).order <= after.at((#[trigger] links[k]).start).order by {
            assert(before.knows(links[j].start));
            assert(before.knows(links[k].start));
            assert(before.at(links[j].start).order <= before.at(links[k].start).order);
        }
    }
}

proof fn server_is_at(list: Seq<Bucket>, at: int)
    requires
        servers_are_distinct(list),
        0 <= at < list.len(),
    ensures
        has_server(list, list[at].server_id),
        index_of_server(list, list[at].server_id) == at,
{
    let chosen = index_of_server(list, list[at].server_id);
    assert(list[chosen].server_id == list[at].server_id);
}

proof fn other_servers_stay(list: Seq<Bucket>, more: Seq<Bucket>, server_id: LanguageServerId)
    requires
        servers_are_distinct(list),
        !has_server(more, server_id),
    ensures
        has_server(merged(list, more), server_id) == has_server(list, server_id),
        has_server(list, server_id) ==> merged(list, more)[index_of_server(
            merged(list, more),
            server_id,
        )] == list[index_of_server(list, server_id)],
    decreases more.len(),
{
    if more.len() > 0 {
        let front = more.drop_last();
        assert(!has_server(front, server_id)) by {
            if has_server(front, server_id) {
                let i = index_of_server(front, server_id);
                assert(more[i].server_id == server_id);
            }
        }
        other_servers_stay(list, front, server_id);
        merging_keeps_servers_distinct(list, front);
        merging_keeps_servers_distinct(list, more);
        let before = merged(list, front);
        let after = merged(list, more);
        let bucket = more.last();
        assert(more[more.len() - 1].server_id != server_id);
        if has_server(before, server_id) {
            let at = index_of_server(before, server_id);
            assert(after[at] == before[at]);
            server_is_at(after, at);
        }
        if has_server(after, server_id) {
            let at = index_of_server(after, server_id);
            assert(at < before.len() && before[at] == after[at]);
        }
    }
}

proof fn dropped_pairs(
    all: Set<(LanguageServerId, usize)>,
    list: Seq<Bucket>,
    pair: (LanguageServerId, usize),
)
    requires
        without_servers_pairs(all, list).contains(pair),
    ensures
        all.contains(pair),
        !has_server(list, pair.0),
    decreases list.len(),
{
    if list.len() > 0 {
        dropped_pairs(all, list.drop_last(), pair);
        if has_server(list, pair.0) {
            let i = index_of_server(list, pair.0);
            if i < list.len() - 1 {
                assert(list.drop_last()[i].server_id == pair.0);
            }
        }
    }
}

proof fn put_into_keeps_shape(list: Seq<Bucket>, resolved: ResolvedLink, server_id: LanguageServerId)
    requires
        servers_are_distinct(list),
    ensures
        servers_are_distinct(resolved.put_into(list)),
        has_server(resolved.put_into(list), server_id) == has_server(list, server_id),
        has_server(list, server_id) ==> resolved.put_into(list)[index_of_server(
            resolved.put_into(list),
            server_id,
        )].links.len() == list[index_of_server(list, server_id)].links.len(),
{
    let after = resolved.put_into(list);
    if resolved.has_link(list) {
        let changed = index_of_server(list, resolved.server_id);
        assert(list[changed].server_id == resolved.server_id);
        assert forall|i: int, j: int| 0 <= i < j < after.len() implies (
        #[trigger] after[i]).server_id != (#[trigger] after[j]).server_id by {
            assert(list[i].server_id != list[j].server_id);
        }
        if has_server(list, server_id) {
            let at = index_of_server(list, server_id);
            assert(after[at].server_id == server_id);
            server_is_at(after, at);
        }
        if has_server(after, server_id) {
            let at = index_of_server(after, server_id);
            assert(list[at].server_id == server_id);
        }
    }
}

proof fn resolving_keeps_shape(
    list: Seq<Bucket>,
    resolved: Seq<ResolvedLink>,
    server_id: LanguageServerId,
)
    requires
        servers_are_distinct(list),
    ensures
        servers_are_distinct(resolved_lists(list, resolved)),
        has_server(resolved_lists(list, resolved), server_id) == has_server(list, server_id),
        has_server(list, server_id) ==> resolved_lists(list, resolved)[index_of_server(
            resolved_lists(list, resolved),
            server_id,
        )].links.len() == list[index_of_server(list, server_id)].links.len(),
    decreases resolved.len(),
{
    if resolved.len() > 0 {
        resolving_keeps_shape(list, resolved.drop_last(), server_id);
        put_into_keeps_shape(
            resolved_lists(list, resolved.drop_last()),
            resolved.last(),
            server_id,
        );
    }
}

/// What is being looked up is always among the known links: the numbers kept for it never
/// outlive the lists that they count in, whether links are taken over, a server goes, requests
/// are made or answers come in.
pub proof fn resolving_stays_current<V>(
    data: DocumentLinksView<V>,
    list: Seq<Bucket>,
    relation: VersionRelation,
    snapshot: BufferSnapshot,
    server_id: LanguageServerId,
    servers: Seq<RunningServer>,
    visible: VisibleRange,
    requests: Seq<ResolveRequest>,
    resolved: Seq<ResolvedLink>,
)
    requires
        data.is_valid(),
        data.resolving_is_current(),
        forall|i: int| 0 <= i < data.links.len() ==> (#[trigger] data.links[i]).links.len() <= usize::MAX,
    ensures
        data.fetched(list, relation, snapshot).resolving_is_current(),
        (DocumentLinksView {
            links: without_server(data.links, server_id),
            links_update: data.links_update,
            resolving: without_server_pairs(data.resolving, server_id),
        }).resolving_is_current(),
        (DocumentLinksView {
            resolving: data.resolving.union(
                pairs(wanted(data.links, servers, visible, snapshot, data.resolving)),
            ),
            ..data
        }).resolving_is_current(),
        (DocumentLinksView {
            links: resolved_lists(data.links, resolved),
            links_update: data.links_update,
            resolving: data.resolving.difference(pairs(requests)),
        }).resolving_is_current(),
{
    let fetched = data.fetched(list, relation, snapshot);
    assert forall|id: LanguageServerId, index: usize| #[trigger]
        fetched.resolving.contains((id, index)) implies has_server(fetched.links, id) && index
        < fetched.links[index_of_server(fetched.links, id)].links.len() by {
        if relation is Same {
            let sorted = all_by_start(list, snapshot);
            dropped_pairs(data.resolving, list, (id, index));
            assert(!has_server(sorted, id)) by {
                if has_server(sorted, id) {
                    let i = index_of_server(sorted, id);
                    assert(list[i].server_id == id);
                }
            }
            other_servers_stay(data.links, sorted, id);
        } else {
            assert(data.resolving.contains((id, index)));
        }
    }
    let removed = DocumentLinksView {
        links: without_server(data.links, server_id),
        links_update: data.links_update,
        resolving: without_server_pairs(data.resolving, server_id),
    };
    assert forall|id: LanguageServerId, index: usize| #[trigger]
        removed.resolving.contains((id, index)) implies has_server(removed.links, id) && index
        < removed.links[index_of_server(removed.links, id)].links.len() by {
        assert(data.resolving.contains((id, index)));
        let at = index_of_server(data.links, id);
        if has_server(data.links, server_id) {
            let gone = index_of_server(data.links, server_id);
            assert(data.links[gone].server_id == server_id);
            let now = if at < gone {
                at
            } else {
                at - 1
            };
            assert(removed.links[now] == data.links[at]);
            assert forall|i: int, j: int| 0 <= i < j < removed.links.len() implies (
            #[trigger] removed.links[i]).server_id != (
            #[trigger] removed.links[j]).server_id by {
                let from = |k: int| if k < gone { k } else { k + 1 };
                assert(data.links[from(i)].server_id != data.links[from(j)].server_id);
            }
            server_is_at(removed.links, now);
        }
    }
    let asked = wanted(data.links, servers, visible, snapshot, data.resolving);
    let waiting = DocumentLinksView { resolving: data.resolving.union(pairs(asked)), ..data };
    assert forall|id: LanguageServerId, index: usize| #[trigger]
        waiting.resolving.contains((id, index)) implies has_server(waiting.links, id) && index
        < waiting.links[index_of_server(waiting.links, id)].links.len() by {
        if !data.resolving.contains((id, index)) {
            let i = choose|i: int|
                0 <= i < asked.len() && (#[trigger] asked[i]).server_id == id && asked[i].index
                    == index;
            requests_are_worthwhile(
                data.links,
                servers,
                visible,
                snapshot,
                data.resolving,
                asked[i],
            );
            let (at, number) = choose|at: int, number: int|
                0 <= at < data.links.len() && 0 <= number < data.links[at].links.len()
                    && data.links[at].server_id == asked[i].server_id && #[trigger] is_wanted(
                    data.links[at],
                    number,
                    visible,
                    snapshot,
                    data.resolving,
                ) && asked[i] == data.links[at].links[number].request(
                    data.links[at].server_id,
                    number,
                    snapshot,
                );
            server_is_at(data.links, at);
            assert(data.links[at].links.len() <= usize::MAX);
        }
    }
    let answered = DocumentLinksView {
        links: resolved_lists(data.links, resolved),
        links_update: data.links_update,
        resolving: data.resolving.difference(pairs(requests)),
    };
    assert forall|id: LanguageServerId, index: usize| #[trigger]
        answered.resolving.contains((id, index)) implies has_server(answered.links, id) && index
        < answered.links[index_of_server(answered.links, id)].links.len() by {
        assert(data.resolving.contains((id, index)));
        resolving_keeps_shape(data.links, resolved, id);
    }
}

proof fn merged_links_are_kept(list: Seq<Bucket>, more: Seq<Bucket>, at: int)
    requires
        servers_are_distinct(list),
        servers_are_distinct(more),
        0 <= at < more.len(),
    ensures
        has_server(merged(list, more), more[at].server_id),
        merged(list, more)[index_of_server(merged(list, more), more[at].server_id)] == more[at],
    decreases more.len(),
{
    let front = more.drop_last();
    let before = merged(list, front);
    let after = merged(list, more);
    let server_id = more[at].server_id;
    merging_keeps_servers_distinct(list, front);
    merging_keeps_servers_distinct(list, more);
    if at == more.len() - 1 {
        let place = if has_server(before, server_id) {
            index_of_server(before, server_id)
        } else {
            before.len() as int
        };
        assert(after[place] == more[at]);
        server_is_at(after, place);
    } else {
        assert(servers_are_distinct(front)) by {
            assert forall|i: int, j: int| 0 <= i < j < front.len() implies (
            #[trigger] front[i]).server_id != (#[trigger] front[j]).server_id by {
                assert(more[i].server_id != more[j].server_id);
            }
        }
        assert(front[at] == more[at]);
        merged_links_are_kept(list, front, at);
        let place = index_of_server(before, server_id);
        assert(more[at].server_id != more[more.len() - 1].server_id);
        assert(after[place] == before[place]);
        server_is_at(after, place);
    }
}

/// Whatever a server answered is known afterwards, in the order it starts, unless the answer was
/// outdated. Where it was for the same version, nothing else changes for the other servers.
pub proof fn fetched_links_are_kept<V>(
    data: DocumentLinksView<V>,
    list: Seq<Bucket>,
    relation: VersionRelation,
    snapshot: BufferSnapshot,
    at: int,
    other: LanguageServerId,
)
    requires
        data.is_valid(),
        servers_are_distinct(list),
        0 <= at < list.len(),
        !(relation is Outdated),
        !has_server(list, other),
    ensures
        ({
            let known = data.fetched(list, relation, snapshot).links;
            let server_id = list[at].server_id;
            &&& has_server(known, server_id)
            &&& known[index_of_server(known, server_id)].links == by_start(
                list[at].links,
                snapshot,
            )
            &&& has_server(known, other) == (relation is Same && has_server(data.links, other))
            &&& has_server(known, other) ==> known[index_of_server(known, other)]
                == data.links[index_of_server(data.links, other)]
        }),
{
    let sorted = all_by_start(list, snapshot);
    assert(servers_are_distinct(sorted)) by {
        assert forall|i: int, j: int| 0 <= i < j < sorted.len() implies (
        #[trigger] sorted[i]).server_id != (#[trigger] sorted[j]).server_id by {
            assert(list[i].server_id != list[j].server_id);
        }
    }
    assert(!has_server(sorted, other)) by {
        if has_server(sorted, other) {
            let i = index_of_server(sorted, other);
            assert(list[i].server_id == other);
        }
    }
    assert(sorted[at].server_id == list[at].server_id);
    if relation is Same {
        merged_links_are_kept(data.links, sorted, at);
        other_servers_stay(data.links, sorted, other);
    } else {
        server_is_at(sorted, at);
    }
}

/// Whether the answer is about the link with this number of the server.
pub open spec fn is_about(answer: ResolvedLink, server_id: LanguageServerId, index: int) -> bool {
    answer.server_id == server_id && answer.index == index
}

proof fn one_answer_changes_one_link(list: Seq<Bucket>, answer: ResolvedLink, at: int, index: int)
    requires
        servers_are_distinct(list),
        0 <= at < list.len(),
        0 <= index < list[at].links.len(),
    ensures
        ({
            let now = answer.put_into(list);
            let old_link = list[at].links[index];
            let link = now[at].links[index];
            &&& servers_are_distinct(now)
            &&& now.len() == list.len()
            &&& now[at].server_id == list[at].server_id
            &&& now[at].links.len() == list[at].links.len()
            &&& !is_about(answer, list[at].server_id, index) ==> link == old_link
            &&& is_about(answer, list[at].server_id, index) ==> {
                &&& answer.has_link(list)
                &&& link == answer.new_link(list)
                &&& link.start == old_link.start
                &&& link.end == old_link.end
                &&& link.target == answer.target
                &&& link.data == answer.data
                &&& answer.tooltip is Some ==> link.tooltip == answer.tooltip
                &&& answer.tooltip is None ==> link.tooltip == old_link.tooltip
            }
        }),
{
    server_is_at(list, at);
    put_into_keeps_shape(list, answer, list[at].server_id);
    if answer.has_link(list) {
        let changed = index_of_server(list, answer.server_id);
        assert(list[changed].server_id == answer.server_id);
        if changed != at {
            assert(list[changed].server_id != list[at].server_id) by {
                if changed < at {
                    assert(list[changed].server_id != list[at].server_id);
                } else {
                    assert(list[at].server_id != list[changed].server_id);
                }
            }
        }
    }
}

/// What the servers found out is taken over as they said it: the link that an answer is about has
/// the target and the data of the last answer about it, stays where it is, and has the tooltip of
/// the answer where it gives one, else its own. So a target without data leaves a link that is
/// resolved. A link that no answer is about stays as it was, and so do all servers and the number
/// of their links.
pub proof fn answers_are_taken_over(
    list: Seq<Bucket>,
    resolved: Seq<ResolvedLink>,
    at: int,
    index: int,
)
    requires
        servers_are_distinct(list),
        0 <= at < list.len(),
        0 <= index < list[at].links.len(),
    ensures
        resolved_lists(list, resolved).len() == list.len(),
        resolved_lists(list, resolved)[at].server_id == list[at].server_id,
        resolved_lists(list, resolved)[at].links.len() == list[at].links.len(),
        resolved_lists(list, resolved)[at].links[index].start == list[at].links[index].start,
        resolved_lists(list, resolved)[at].links[index].end == list[at].links[index].end,
        (forall|j: int|
            0 <= j < resolved.len() ==> !is_about(
                #[trigger] resolved[j],
                list[at].server_id,
                index,
            )) ==> resolved_lists(list, resolved)[at].links[index] == list[at].links[index],
        forall|k: int|
            #![trigger resolved[k]]
            0 <= k < resolved.len() && is_about(resolved[k], list[at].server_id, index) && (forall|
                j: int,
            |
                k < j < resolved.len() ==> !is_about(
                    #[trigger] resolved[j],
                    list[at].server_id,
                    index,
                )) ==> {
                let link = resolved_lists(list, resolved)[at].links[index];
                &&& link.target == resolved[k].target
                &&& link.data == resolved[k].data
                &&& resolved[k].target is Some && resolved[k].data is None ==> link.is_resolved()
                &&& resolved[k].tooltip is Some ==> link.tooltip == resolved[k].tooltip
                &&& resolved[k].tooltip is None && (forall|j: int|
                    0 <= j < k ==> !is_about(
                        #[trigger] resolved[j],
                        list[at].server_id,
                        index,
                    )) ==> link.tooltip == list[at].links[index].tooltip
            },
    decreases resolved.len(),
{
    if resolved.len() > 0 {
        let front = resolved.drop_last();
        let last = resolved.len() - 1;
        let before = resolved_lists(list, front);
        let server_id = list[at].server_id;
        answers_are_taken_over(list, front, at, index);
        resolving_keeps_shape(list, front, server_id);
        one_answer_changes_one_link(before, resolved.last(), at, index);
        assert(resolved.last() == resolved[last]);
        if forall|j: int| 0 <= j < resolved.len() ==> !is_about(
            #[trigger] resolved[j],
            server_id,
            index,
        ) {
            assert forall|j: int| 0 <= j < front.len() implies !is_about(
                #[trigger] front[j],
                server_id,
                index,
            ) by {
                assert(front[j] == resolved[j]);
            }
        }
        assert forall|k: int|
            #![trigger resolved[k]]
            0 <= k < resolved.len() && is_about(resolved[k], server_id, index) && (forall|j: int|
                k < j < resolved.len() ==> !is_about(
                    #[trigger] resolved[j],
                    server_id,
                    index,
                )) implies {
            let link = resolved_lists(list, resolved)[at].links[index];
            &&& link.target == resolved[k].target
            &&& link.data == resolved[k].data
            &&& resolved[k].target is Some && resolved[k].data is None ==> link.is_resolved()
            &&& resolved[k].tooltip is Some ==> link.tooltip == resolved[k].tooltip
            &&& resolved[k].tooltip is None && (forall|j: int|
                0 <= j < k ==> !is_about(#[trigger] resolved[j], server_id, index))
                ==> link.tooltip == list[at].links[index].tooltip
        } by {
            if k < last {
                assert(!is_about(resolved[last], server_id, index));
                assert(front[k] == resolved[k]);
                assert forall|j: int| k < j < front.len() implies !is_about(
                    #[trigger] front[j],
                    server_id,
                    index,
                ) by {
                    assert(front[j] == resolved[j]);
                }
                if forall|j: int| 0 <= j < k ==> !is_about(
                    #[trigger] resolved[j],
                    server_id,
                    index,
                ) {
                    assert forall|j: int| 0 <= j < k implies !is_about(
                        #[trigger] front[j],
                        server_id,
                        index,
                    ) by {
                        assert(front[j] == resolved[j]);
                    }
                }
            } else if forall|j: int| 0 <= j < k ==> !is_about(
                #[trigger] resolved[j],
                server_id,
                index,
            ) {
                assert forall|j: int| 0 <= j < front.len() implies !is_about(
                    #[trigger] front[j],
                    server_id,
                    index,
                ) by {
                    assert(front[j] == resolved[j]);
                }
            }
        }
    }
}

/// The links that are given back are those that the answers are about, as they are known then, one
/// for each answer and in their order; an answer about a link that is not there changes nothing
/// and gives none.
pub proof fn resolved_links_are_given_back(
    list: Seq<Bucket>,
    first: Seq<ResolvedLink>,
    second: Seq<ResolvedLink>,
    answer: ResolvedLink,
    at: int,
)
    requires
        servers_are_distinct(list),
        0 <= at <= list.len(),
        at < list.len() ==> list[at].server_id == answer.server_id,
        at == list.len() ==> forall|i: int|
            0 <= i < list.len() ==> (#[trigger] list[i]).server_id != answer.server_id,
    ensures
        resolved_lists(list, first + second) == resolved_lists(resolved_lists(list, first), second),
        newly_resolved(list, first + second) == newly_resolved(list, first) + newly_resolved(
            resolved_lists(list, first),
            second,
        ),
        at < list.len() && answer.index < list[at].links.len() ==> newly_resolved(
            list,
            seq![answer],
        ) == seq![resolved_lists(list, seq![answer])[at].links[answer.index as int]],
        at == list.len() || answer.index >= list[at].links.len() ==> newly_resolved(
            list,
            seq![answer],
        ).len() == 0 && resolved_lists(list, seq![answer]) == list,
    decreases second.len(),
{
    let one = seq![answer];
    assert(one.drop_last() =~= Seq::empty());
    assert(resolved_lists(list, one.drop_last()) == list);
    assert(newly_resolved(list, one.drop_last()) =~= Seq::empty());
    if at < list.len() {
        server_is_at(list, at);
        if answer.index < list[at].links.len() {
            one_answer_changes_one_link(list, answer, at, answer.index as int);
            assert(newly_resolved(list, one) =~= seq![
                resolved_lists(list, one)[at].links[answer.index as int],
            ]);
        }
    } else if has_server(list, answer.server_id) {
        let i = index_of_server(list, answer.server_id);
        assert(list[i].server_id != answer.server_id);
    }
    if second.len() == 0 {
        assert(first + second =~= first);
        assert(newly_resolved(list, first) + newly_resolved(resolved_lists(list, first), second)
            =~= newly_resolved(list, first));
    } else {
        resolved_links_are_given_back(list, first, second.drop_last(), answer, at);
        assert((first + second).drop_last() =~= first + second.drop_last());
        assert(newly_resolved(list, first + second) =~= newly_resolved(list, first)
            + newly_resolved(resolved_lists(list, first), second));
    }
}

/// A link is asked about exactly where it starts in what can be seen, either its target is not
/// known or the server wants something back, and it is not being looked up; and the request tells
/// the server which link it is, where it stands, and all that is known of it.
pub proof fn open_links_in_view_are_wanted(
    bucket: Bucket,
    index: int,
    visible: VisibleRange,
    snapshot: BufferSnapshot,
    resolving: Set<(LanguageServerId, usize)>,
)
    requires
        0 <= index <= usize::MAX,
    ensures
        ({
            let link = bucket.links[index];
            let offset = snapshot.positions@[link.start.0 as int].offset;
            let request = link.request(bucket.server_id, index, snapshot);
            &&& is_wanted(bucket, index, visible, snapshot, resolving) == (visible.start <= offset
                <= visible.end && (link.target is None || link.data is Some) && !resolving.contains(
                (bucket.server_id, index as usize),
            ))
            &&& request.server_id == bucket.server_id
            &&& request.index == index
            &&& request.start == snapshot.positions@[link.start.0 as int].position
            &&& request.end == snapshot.positions@[link.end.0 as int].position
            &&& request.target == link.target
            &&& request.tooltip == link.tooltip
            &&& request.data == link.data
        }),
{
}

/// A server can be asked exactly where it runs and says that it looks links up; what others say
/// does not matter.
pub proof fn capable_servers_say_so(servers: Seq<RunningServer>, server_id: LanguageServerId, at: int)
    requires
        0 <= at <= servers.len(),
        at < servers.len() ==> servers[at].server_id == server_id,
        forall|i: int| 0 <= i < at ==> (#[trigger] servers[i]).server_id != server_id,
    ensures
        is_capable(servers, server_id) == (at < servers.len() && (
        servers[at].capabilities.document_link_provider matches Some(options)
            && options.resolve_provider == Some(true))),
{
    lists::first_where_at(servers, is_server(server_id), at);
}

proof fn wanted_in_is_in_order(
    bucket: Bucket,
    count: int,
    visible: VisibleRange,
    snapshot: BufferSnapshot,
    resolving: Set<(LanguageServerId, usize)>,
)
    requires
        count <= bucket.links.len() <= usize::MAX,
    ensures
        forall|i: int|
            #![trigger wanted_in(bucket, count, visible, snapshot, resolving)[i]]
            0 <= i < wanted_in(bucket, count, visible, snapshot, resolving).len() ==> wanted_in(
                bucket,
                count,
                visible,
                snapshot,
                resolving,
            )[i].index < count,
        forall|i: int, j: int|
            #![trigger wanted_in(bucket, count, visible, snapshot, resolving)[i], wanted_in(
                bucket,
                count,
                visible,
                snapshot,
                resolving,
            )[j]]
            0 <= i < j < wanted_in(bucket, count, visible, snapshot, resolving).len() ==> wanted_in(
                bucket,
                count,
                visible,
                snapshot,
                resolving,
            )[i].index < wanted_in(bucket, count, visible, snapshot, resolving)[j].index,
    decreases count,
{
    if count > 0 {
        wanted_in_is_in_order(bucket, count - 1, visible, snapshot, resolving);
        let others = wanted_in(bucket, count - 1, visible, snapshot, resolving);
        let all = wanted_in(bucket, count, visible, snapshot, resolving);
        assert forall|i: int| 0 <= i < all.len() implies (#[trigger] all[i]).index < count by {
            if i < others.len() {
                assert(all[i] == others[i]);
            }
        }
        assert forall|i: int, j: int| 0 <= i < j < all.len() implies (#[trigger] all[i]).index < (
        #[trigger] all[j]).index by {
            assert(all[i] == others[i]);
            if j < others.len() {
                assert(all[j] == others[j]);
            }
        }
    }
}

/// The requests come server by server, in the order of the lists, and within a server in the order
/// of its links, each link once; a server that cannot look links up is asked nothing.
pub proof fn requests_come_in_order(
    first: Seq<Bucket>,
    second: Seq<Bucket>,
    bucket: Bucket,
    servers: Seq<RunningServer>,
    visible: VisibleRange,
    snapshot: BufferSnapshot,
    resolving: Set<(LanguageServerId, usize)>,
)
    requires
        bucket.links.len() <= usize::MAX,
    ensures
        wanted(first + second, servers, visible, snapshot, resolving) == wanted(
            first,
            servers,
            visible,
            snapshot,
            resolving,
        ) + wanted(second, servers, visible, snapshot, resolving),
        !is_capable(servers, bucket.server_id) ==> wanted(
            seq![bucket],
            servers,
            visible,
            snapshot,
            resolving,
        ).len() == 0,
        ({
            let own = wanted(seq![bucket], servers, visible, snapshot, resolving);
            forall|i: int, j: int|
                0 <= i < j < own.len() ==> (#[trigger] own[i]).index < (#[trigger] own[j]).index
        }),
    decreases second.len(),
{
    let one = seq![bucket];
    assert(one.drop_last() =~= Seq::empty());
    let count = bucket.links.len() as int;
    wanted_in_is_in_order(bucket, count, visible, snapshot, resolving);
    assert(wanted(one.drop_last(), servers, visible, snapshot, resolving) =~= Seq::empty());
    assert(Seq::<ResolveRequest>::empty() + wanted_in(bucket, count, visible, snapshot, resolving)
        =~= wanted_in(bucket, count, visible, snapshot, resolving));
    let before = wanted(first, servers, visible, snapshot, resolving);
    if second.len() == 0 {
        assert(first + second =~= first);
        assert(before + wanted(second, servers, visible, snapshot, resolving) =~= before);
    } else {
        requests_come_in_order(
            first,
            second.drop_last(),
            bucket,
            servers,
            visible,
            snapshot,
            resolving,
        );
        assert((first + second).drop_last() =~= first + second.drop_last());
        assert(wanted(first + second, servers, visible, snapshot, resolving) =~= before + wanted(
            second,
            servers,
            visible,
            snapshot,
            resolving,
        ));
    }
}

/// Of several lists of one server the last counts, and every server that gave a list or had one
/// has one afterwards: where it gave none, the one it had.
pub proof fn last_list_of_a_server_counts(
    list: Seq<Bucket>,
    more: Seq<Bucket>,
    server_id: LanguageServerId,
    at: int,
)
    requires
        servers_are_distinct(list),
        -1 <= at < more.len(),
        at >= 0 ==> more[at].server_id == server_id,
        forall|i: int| at < i < more.len() ==> (#[trigger] more[i]).server_id != server_id,
    ensures
        servers_are_distinct(merged(list, more)),
        at >= 0 ==> has_server(merged(list, more), server_id) && merged(
            list,
            more,
        )[index_of_server(merged(list, more), server_id)] == more[at],
        at < 0 ==> has_server(merged(list, more), server_id) == has_server(list, server_id),
        at < 0 && has_server(list, server_id) ==> merged(list, more)[index_of_server(
            merged(list, more),
            server_id,
        )] == list[index_of_server(list, server_id)],
    decreases more.len(),
{
    merging_keeps_servers_distinct(list, more);
    if at < 0 {
        if has_server(more, server_id) {
            let i = index_of_server(more, server_id);
            assert(more[i].server_id != server_id);
        }
        other_servers_stay(list, more, server_id);
    } else {
        let front = more.drop_last();
        let before = merged(list, front);
        let after = merged(list, more);
        merging_keeps_servers_distinct(list, front);
        if at == more.len() - 1 {
            let place = if has_server(before, server_id) {
                index_of_server(before, server_id)
            } else {
                before.len() as int
            };
            assert(after[place] == more[at]);
            server_is_at(after, place);
        } else {
            assert(front[at] == more[at]);
            assert forall|i: int| at < i < front.len() implies (#[trigger] front[i]).server_id
                != server_id by {
                assert(front[i] == more[i]);
            }
            last_list_of_a_server_counts(list, front, server_id, at);
            let place = index_of_server(before, server_id);
            assert(more[more.len() - 1].server_id != server_id);
            assert(before[place].server_id == server_id);
            assert(after[place] == before[place]);
            server_is_at(after, place);
        }
    }
}

/// Gives the list that a server answered with, where it did not fail.
pub open spec fn answered_list() -> spec_fn(ServerResponse) -> Option<Bucket> {
    |response: ServerResponse|
        match response.links {
            Ok(links) => Some(Bucket { server_id: response.server_id, links: links@ }),
            Err(_) => None,
        }
}

/// The lists of all servers that did not fail count, in the order of the answers, and no others.
pub proof fn every_answer_counts(responses: Seq<ServerResponse>)
    ensures
        answered(responses) == responses.filter_map(answered_list()),
        some_failed(responses) == (answered(responses).len() < responses.len()),
        answered(responses).len() <= responses.len(),
    decreases responses.len(),
{
    if responses.len() > 0 {
        let front = responses.drop_last();
        every_answer_counts(front);
        assert(answered(responses) =~= responses.filter_map(answered_list()));
        if some_failed(front) {
            let i = choose|i: int| 0 <= i < front.len() && (#[trigger] front[i]).links is Err;
            assert(responses[i].links is Err);
        }
        if responses.last().links is Err {
            assert(responses[responses.len() - 1].links is Err);
        }
        if some_failed(responses) && !(responses.last().links is Err) {
            let i = choose|i: int|
                0 <= i < responses.len() && (#[trigger] responses[i]).links is Err;
            assert(front[i].links is Err);
        }
    }
}

/// Forgetting a server takes its list and what was being looked up of it, and leaves the lists of
/// all others, in their order, and what is being looked up of them.
pub proof fn forgetting_a_server_leaves_the_others(
    list: Seq<Bucket>,
    resolving: Set<(LanguageServerId, usize)>,
    server_id: LanguageServerId,
    at: int,
)
    requires
        servers_are_distinct(list),
        0 <= at <= list.len(),
        at < list.len() ==> list[at].server_id == server_id,
        at == list.len() ==> forall|i: int|
            0 <= i < list.len() ==> (#[trigger] list[i]).server_id != server_id,
    ensures
        without_server(list, server_id) == (if at < list.len() {
            list.take(at) + list.skip(at + 1)
        } else {
            list
        }),
        !has_server(without_server(list, server_id), server_id),
        forall|id: LanguageServerId, index: usize| #[trigger]
            without_server_pairs(resolving, server_id).contains((id, index)) == (
            resolving.contains((id, index)) && id != server_id),
{
    let left = without_server(list, server_id);
    if at < list.len() {
        server_is_at(list, at);
        assert(list.remove(at) =~= list.take(at) + list.skip(at + 1));
        if has_server(left, server_id) {
            let i = index_of_server(left, server_id);
            assert(left[i].server_id == server_id);
            if i < at {
                assert(list[i].server_id != list[at].server_id);
            } else {
                assert(left[i] == list[i + 1]);
                assert(list[at].server_id != list[i + 1].server_id);
            }
        }
    } else if has_server(list, server_id) {
        let i = index_of_server(list, server_id);
        assert(list[i].server_id != server_id);
    }
}

proof fn pairs_of_others_stay(
    all: Set<(LanguageServerId, usize)>,
    list: Seq<Bucket>,
    pair: (LanguageServerId, usize),
)
    ensures
        without_servers_pairs(all, list).contains(pair) == (all.contains(pair) && !has_server(
            list,
            pair.0,
        )),
    decreases list.len(),
{
    if list.len() > 0 {
        let front = list.drop_last();
        pairs_of_others_stay(all, front, pair);
        if has_server(front, pair.0) {
            let i = index_of_server(front, pair.0);
            assert(list[i].server_id == pair.0);
        }
        if has_server(list, pair.0) {
            let i = index_of_server(list, pair.0);
            if i < front.len() {
                assert(front[i].server_id == pair.0);
            }
        }
        if list.last().server_id == pair.0 {
            assert(list[list.len() - 1].server_id == pair.0);
        }
    }
}

/// Whatever comes of a request for links, it is over. Links for a newer version replace all there
/// is, those of servers that gave none as well, and nothing is being looked up any more; links for
/// the same version leave what is being looked up of other servers; and outdated links change
/// nothing.
pub proof fn fetching_ends_the_update<V>(
    data: DocumentLinksView<V>,
    list: Seq<Bucket>,
    relation: VersionRelation,
    snapshot: BufferSnapshot,
    server_id: LanguageServerId,
    index: usize,
)
    ensures
        data.fetched(list, relation, snapshot).links_update is None,
        relation is Newer ==> data.fetched(list, relation, snapshot).links.len() == list.len(),
        data.fetched(list, relation, snapshot).resolving.contains((server_id, index)) == (
        data.resolving.contains((server_id, index)) && match relation {
            VersionRelation::Same => !has_server(list, server_id),
            VersionRelation::Newer => false,
            VersionRelation::Outdated => true,
        }),
        relation is Outdated ==> data.fetched(list, relation, snapshot).links == data.links,
{
    pairs_of_others_stay(data.resolving, list, (server_id, index));
}

/// All known links are those of each server in its order, one server behind the other.
pub proof fn known_links_are_those_of_the_servers(
    first: Seq<Bucket>,
    second: Seq<Bucket>,
    bucket: Bucket,
)
    ensures
        all_links(first + second) == all_links(first) + all_links(second),
        all_links(seq![bucket]) == bucket.links,
    decreases second.len(),
{
    let one = seq![bucket];
    assert(one.drop_last() =~= Seq::empty());
    assert(all_links(one.drop_last()) =~= Seq::empty());
    assert(all_links(one) =~= bucket.links);
    if second.len() == 0 {
        assert(first + second =~= first);
        assert(all_links(first) + all_links(second) =~= all_links(first));
    } else {
        known_links_are_those_of_the_servers(first, second.drop_last(), bucket);
        assert((first + second).drop_last() =~= first + second.drop_last());
        assert(all_links(first + second) =~= all_links(first) + all_links(second));
    }
}

/// Says of a link whether it starts at a place of the given rank.
pub open spec fn starts_at_rank(order: u64, snapshot: BufferSnapshot) -> spec_fn(
    LspDocumentLink,
) -> bool {
    |link: LspDocumentLink| snapshot.positions@[link.start.0 as int].order == order
}

proof fn none_starts_there(links: Seq<LspDocumentLink>, order: u64, snapshot: BufferSnapshot)
    requires
        forall|i: int|
            0 <= i < links.len() ==> snapshot.at((#[trigger] links[i]).start).order != order,
    ensures
        links.filter(starts_at_rank(order, snapshot)) == Seq::<LspDocumentLink>::empty(),
    decreases links.len(),
{
    reveal(Seq::filter);
    if links.len() > 0 {
        let front = links.drop_last();
        assert forall|i: int| 0 <= i < front.len() implies snapshot.at(
            (#[trigger] front[i]).start,
        ).order != order by {
            assert(front[i] == links[i]);
        }
        none_starts_there(front, order, snapshot);
        assert(links[links.len() - 1] == links.last());
    }
}

/// Links that start at the same place keep the order in which the server gave them.
pub proof fn sorting_keeps_the_order_of_equals(
    links: Seq<LspDocumentLink>,
    snapshot: BufferSnapshot,
    order: u64,
)
    ensures
        by_start(links, snapshot).filter(starts_at_rank(order, snapshot)) == links.filter(
            starts_at_rank(order, snapshot),
        ),
    decreases links.len(),
{
    reveal(Seq::filter);
    let here = starts_at_rank(order, snapshot);
    if links.len() == 0 {
        assert(by_start(links, snapshot) =~= links);
    } else {
        let front = links.drop_last();
        let last = links.last();
        sorting_keeps_the_order_of_equals(front, snapshot, order);
        by_start_sorts(front, snapshot);
        let sorted = by_start(front, snapshot);
        let rank = snapshot.at(last.start).order;
        starts_until_parts(sorted, rank, snapshot);
        let at = starts_until(sorted, rank, snapshot);
        let left = sorted.take(at);
        let right = sorted.skip(at);
        assert(sorted =~= left + right);
        assert(by_start(links, snapshot) =~= left.push(last) + right);
        Seq::filter_distributes_over_add(left, right, here);
        Seq::filter_distributes_over_add(left.push(last), right, here);
        assert(left.push(last).drop_last() =~= left);
        if rank == order {
            assert forall|i: int| 0 <= i < right.len() implies snapshot.at(
                (#[trigger] right[i]).start,
            ).order != order by {
                assert(right[i] == sorted[at + i]);
            }
            none_starts_there(right, order, snapshot);
            assert(by_start(links, snapshot).filter(here) =~= links.filter(here));
        } else {
            assert(by_start(links, snapshot).filter(here) =~= links.filter(here));
        }
    }
}

} // verus!
