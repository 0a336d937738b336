//! What language servers have found out about the buffers that are open.

use crate::document_links;
use crate::document_links::{
    AppliedLinks, BufferSnapshot, DocumentLinksData, LanguageServerId, LspDocumentLink,
    ResolveRequest, ResolvedLink, RunningServer, ServerLinks, VersionRelation, VisibleRange,
};
use vstd::prelude::*;

verus! {

/// Identifies a buffer.
#[derive(Clone, Copy, Debug, PartialEq, Eq, Structural)]
pub struct BufferId(pub u64);

#[derive(Debug)]
struct BufferLspData<V> {
    buffer_id: BufferId,
    document_links: DocumentLinksData<V>,
}

/// What is known about the links of the buffers.
#[derive(Debug)]
pub struct LspStore<V> {
    lsp_data: Vec<BufferLspData<V>>,
}

/// What comes of a request for the links of a buffer.
#[derive(Debug)]
pub enum LinksFetch {
    /// The links that are known are still good: there is nothing to ask and nothing new to show.
    Current,
    /// The servers are being asked already: what they answer answers this request too.
    Running,
    /// The servers have to be asked.
    Start,
}

/// What is known of a buffer before anything was asked.
pub open spec fn no_links<V>() -> document_links::DocumentLinksView<V> {
    document_links::DocumentLinksView {
        links: Seq::empty(),
        links_update: None,
        resolving: Set::empty(),
    }
}

/// What is known of a buffer, if that is not outdated.
pub open spec fn latest<V>(
    known: Map<BufferId, document_links::DocumentLinksView<V>>,
    buffer_id: BufferId,
    is_outdated: bool,
) -> document_links::DocumentLinksView<V> {
    if known.contains_key(buffer_id) && !is_outdated {
        known[buffer_id]
    } else {
        no_links()
    }
}

/// Whether links of the given servers were found.
pub open spec fn are_from(list: Seq<document_links::Bucket>, servers: Option<&Vec<LanguageServerId>>) -> bool {
    servers matches Some(servers) ==> forall|id: LanguageServerId| #[trigger]
        servers@.contains(id) <==> document_links::has_server(list, id)
}

impl<V> LspStore<V> {
    spec fn has(self, buffer_id: BufferId) -> bool {
        exists|i: int| 0 <= i < self.lsp_data@.len() && (#[trigger] self.lsp_data@[i]).buffer_id == buffer_id
    }

    spec fn place(self, buffer_id: BufferId) -> int {
        choose|i: int| 0 <= i < self.lsp_data@.len() && (#[trigger] self.lsp_data@[i]).buffer_id == buffer_id
    }

    /// What is known of the links of each buffer.
    pub closed spec fn view(&self) -> Map<BufferId, document_links::DocumentLinksView<V>> {
        Map::new(
            |buffer_id: BufferId| self.has(buffer_id),
            |buffer_id: BufferId| self.lsp_data@[self.place(buffer_id)].document_links@,
        )
    }

    /// Whether what is known of a buffer is in one place, and no server has two lists in it.
    pub closed spec fn is_valid(self) -> bool {
        &&& forall|i: int, j: int|
            0 <= i < j < self.lsp_data@.len() ==> (#[trigger] self.lsp_data@[i]).buffer_id != (
            #[trigger] self.lsp_data@[j]).buffer_id
        &&& forall|i: int|
            0 <= i < self.lsp_data@.len() ==> (#[trigger] self.lsp_data@[i]).document_links@.is_valid()
    }

    /// Nothing is known of any buffer.
    pub fn new() -> (store: Self)
        ensures
            store.is_valid(),
            store@ == Map::<BufferId, document_links::DocumentLinksView<V>>::empty(),
    {
        let store = LspStore { lsp_data: Vec::new() };
        assert(store@ =~= Map::empty());
        store
    }

    proof fn place_is(self, buffer_id: BufferId, at: int)
        requires
            self.is_valid(),
            0 <= at < self.lsp_data@.len(),
            self.lsp_data@[at].buffer_id == buffer_id,
        ensures
            self@.contains_key(buffer_id),
            self@[buffer_id] == self.lsp_data@[at].document_links@,
            self.place(buffer_id) == at,
    {
        let place = self.place(buffer_id);
        assert(self.has(buffer_id));
        assert(self.lsp_data@[place].buffer_id == buffer_id);
        if place < at {
            assert(self.lsp_data@[place].buffer_id != self.lsp_data@[at].buffer_id);
        }
        if at < place {
            assert(self.lsp_data@[at].buffer_id != self.lsp_data@[place].buffer_id);
        }
    }

    fn find(&self, buffer_id: BufferId) -> (found: Option<usize>)
        requires
            self.is_valid(),
        ensures
            match found {
                Some(at) => at < self.lsp_data@.len() && self.lsp_data@[at as int].buffer_id
                    == buffer_id && self@.contains_key(buffer_id) && self@[buffer_id]
                    == self.lsp_data@[at as int].document_links@,
                None => !self@.contains_key(buffer_id),
            },
    {
        let mut at: usize = 0;
        while at < self.lsp_data.len()
            invariant
                self.is_valid(),
                at <= self.lsp_data@.len(),
                forall|i: int| 0 <= i < at ==> (#[trigger] self.lsp_data@[i]).buffer_id != buffer_id,
            decreases self.lsp_data@.len() - at,
        {
            if self.lsp_data[at].buffer_id == buffer_id {
                proof {
                    self.place_is(buffer_id, at as int);
                }
                return Some(at);
            }
            at = at + 1;
        }
        None
    }

    /// Takes what is known of a buffer out of the store.
    fn take(&mut self, buffer_id: BufferId) -> (data: Option<DocumentLinksData<V>>)
        requires
            old(self).is_valid(),
        ensures
            final(self).is_valid(),
            final(self)@ == old(self)@.remove(buffer_id),
            data is Some == old(self)@.contains_key(buffer_id),
            data matches Some(data) ==> data@ == old(self)@[buffer_id] && data@.is_valid(),
    {
        let ghost before = *self;
        match self.find(buffer_id) {
            Some(at) => {
                let data = self.lsp_data.remove(at);
                assert(self.lsp_data@ == before.lsp_data@.remove(at as int));
                proof {
                    let from = |k: int| if k < at { k } else { k + 1 };
                    assert forall|i: int, j: int| 0 <= i < j < self.lsp_data@.len() implies (
                    #[trigger] self.lsp_data@[i]).buffer_id != (
                    #[trigger] self.lsp_data@[j]).buffer_id by {
                        assert(before.lsp_data@[from(i)].buffer_id != before.lsp_data@[from(
                            j,
                        )].buffer_id);
                    }
                    assert(self.is_valid());
                    assert forall|id: BufferId|
                        #![trigger self@.dom().contains(id)]
                        #![trigger self@[id]]
                        self@.dom().contains(id) == before@.remove(buffer_id).dom().contains(id)
                            && (self@.dom().contains(id) ==> self@[id] == before@.remove(
                            buffer_id,
                        )[id]) by {
                        if self.has(id) {
                            let i = self.place(id);
                            self.place_is(id, i);
                            assert(self.lsp_data@[i] == before.lsp_data@[from(i)]);
                            before.place_is(id, from(i));
                            if id == buffer_id {
                                before.place_is(id, at as int);
                                assert(false);
                            }
                        }
                        if before.has(id) && id != buffer_id {
                            let i = before.place(id);
                            let to = if i < at { i } else { i - 1 };
                            before.place_is(id, i);
                            assert(self.lsp_data@[to] == before.lsp_data@[i]);
                            self.place_is(id, to);
                        }
                    }
                    assert(self@ =~= before@.remove(buffer_id));
                }
                Some(data.document_links)
            },
            None => {
                assert(self@ =~= before@.remove(buffer_id));
                None
            },
        }
    }

    /// Puts what is known of a buffer into the store.
    fn put(&mut self, buffer_id: BufferId, data: DocumentLinksData<V>)
        requires
            old(self).is_valid(),
            !old(self)@.contains_key(buffer_id),
            data@.is_valid(),
        ensures
            final(self).is_valid(),
            final(self)@ == old(self)@.insert(buffer_id, data@),
    {
        let ghost before = *self;
        self.lsp_data.push(BufferLspData { buffer_id, document_links: data });
        proof {
            let last = before.lsp_data@.len() as int;
            assert forall|i: int, j: int| 0 <= i < j < self.lsp_data@.len() implies (
            #[trigger] self.lsp_data@[i]).buffer_id != (
            #[trigger] self.lsp_data@[j]).buffer_id by {
                assert(self.lsp_data@[i] == before.lsp_data@[i]);
                if j == last {
                    if before.lsp_data@[i].buffer_id == buffer_id {
                        before.place_is(buffer_id, i);
                    }
                }
            }
            assert forall|i: int| 0 <= i < self.lsp_data@.len() implies (
            #[trigger] self.lsp_data@[i]).document_links@.is_valid() by {
                if i < last {
                    assert(self.lsp_data@[i] == before.lsp_data@[i]);
                }
            }
            assert(self.is_valid());
            assert forall|id: BufferId|
                #![trigger self@.dom().contains(id)]
                #![trigger self@[id]]
                self@.dom().contains(id) == before@.insert(buffer_id, data@).dom().contains(id) && (
                self@.dom().contains(id) ==> self@[id] == before@.insert(buffer_id, data@)[id]) by {
                self.place_is(buffer_id, last);
                if self.has(id) && id != buffer_id {
                    let i = self.place(id);
                    self.place_is(id, i);
                    assert(self.lsp_data@[i] == before.lsp_data@[i]);
                    before.place_is(id, i);
                }
                if before.has(id) {
                    let i = before.place(id);
                    before.place_is(id, i);
                    assert(self.lsp_data@[i] == before.lsp_data@[i]);
                    self.place_is(id, i);
                }
            }
            assert(self@ =~= before@.insert(buffer_id, data@));
        }
    }

    /// Takes what is known of a buffer out of the store, without what is outdated.
    fn take_latest(&mut self, buffer_id: BufferId, is_outdated: bool) -> (data: DocumentLinksData<
        V,
    >)
        requires
            old(self).is_valid(),
        ensures
            final(self).is_valid(),
            final(self)@ == old(self)@.remove(buffer_id),
            data@ == latest(old(self)@, buffer_id, is_outdated),
            data@.is_valid(),
    {
        match self.take(buffer_id) {
            Some(data) => {
                if is_outdated {
                    DocumentLinksData::new()
                } else {
                    data
                }
            },
            None => DocumentLinksData::new(),
        }
    }

    /// The links of a buffer, if anything is known of them.
    pub fn document_links_for_buffer(&self, buffer_id: BufferId) -> (links: Option<
        Vec<LspDocumentLink>,
    >)
        requires
            self.is_valid(),
        ensures
            links is Some == self@.contains_key(buffer_id),
            links matches Some(links) ==> links@ == document_links::all_links(
                self@[buffer_id].links,
            ),
    {
        match self.find(buffer_id) {
            Some(at) => Some(self.lsp_data[at].document_links.known_links()),
            None => None,
        }
    }

    /// Answers a request for the links of a buffer. There is nothing to do where the buffer has
    /// not changed since they were found (`changed`), and they are from exactly the servers that it
    /// is open in (`servers`, not known for a remote project). Otherwise what is known is dropped
    /// first where it is too old to build on (`is_outdated`). Then the servers are asked, unless
    /// they are being asked already and the buffer has not changed since
    /// (`changed_since_update`).
    pub fn fetch_document_links(
        &mut self,
        buffer_id: BufferId,
        version: V,
        changed: bool,
        servers: Option<&Vec<LanguageServerId>>,
        is_outdated: bool,
        changed_since_update: bool,
    ) -> (fetch: LinksFetch)
        requires
            old(self).is_valid(),
        ensures
            final(self).is_valid(),
            ({
                let base = latest(old(self)@, buffer_id, is_outdated);
                if old(self)@.contains_key(buffer_id) && !changed && are_from(
                    old(self)@[buffer_id].links,
                    servers,
                ) {
                    &&& fetch is Current
                    &&& final(self)@ == old(self)@
                } else if base.links_update is Some && !changed_since_update {
                    &&& fetch is Running
                    &&& final(self)@ == old(self)@.insert(buffer_id, base)
                } else {
                    &&& fetch is Start
                    &&& final(self)@ == old(self)@.insert(
                        buffer_id,
                        document_links::DocumentLinksView { links_update: Some(version), ..base },
                    )
                }
            }),
    {
        let ghost before = self@;
        if let Some(at) = self.find(buffer_id) {
            if self.lsp_data[at].document_links.has_current_links(changed, servers) {
                return LinksFetch::Current;
            }
        }
        let mut data = self.take_latest(buffer_id, is_outdated);
        let start = data.start_update(version, changed_since_update);
        let ghost updated = data@;
        self.put(buffer_id, data);
        assert(before.remove(buffer_id).insert(buffer_id, updated) =~= before.insert(
            buffer_id,
            updated,
        ));
        if start {
            LinksFetch::Start
        } else {
            LinksFetch::Running
        }
    }

    /// Ends a request for links that could not be answered.
    pub fn fail_fetch(&mut self, buffer_id: BufferId)
        requires
            old(self).is_valid(),
        ensures
            final(self).is_valid(),
            final(self)@ == (if old(self)@.contains_key(buffer_id) {
                old(self)@.insert(
                    buffer_id,
                    document_links::DocumentLinksView {
                        links_update: None,
                        ..old(self)@[buffer_id]
                    },
                )
            } else {
                old(self)@
            }),
    {
        let ghost before = self@;
        match self.take(buffer_id) {
            Some(data) => {
                let mut data = data;
                data.fail_update();
                let ghost updated = data@;
                self.put(buffer_id, data);
                assert(before.remove(buffer_id).insert(buffer_id, updated) =~= before.insert(
                    buffer_id,
                    updated,
                ));
            },
            None => {
                assert(self@ =~= before);
            },
        }
    }

    /// Ends a request for links with what the servers answered. What is known is dropped first
    /// where it is too old to build on (`is_outdated`).
    pub fn finish_fetch(
        &mut self,
        buffer_id: BufferId,
        is_outdated: bool,
        fetched: Option<Vec<ServerLinks>>,
        relation: VersionRelation,
        snapshot: &BufferSnapshot,
    ) -> (applied: Option<AppliedLinks>)
        requires
            old(self).is_valid(),
            fetched matches Some(list) ==> document_links::servers_are_distinct(
                document_links::buckets(list@),
            ) && forall|i: int|
                0 <= i < list@.len() ==> snapshot.knows_all((#[trigger] list@[i]).links@),
        ensures
            final(self).is_valid(),
            ({
                let base = latest(old(self)@, buffer_id, is_outdated);
                final(self)@ == old(self)@.insert(
                    buffer_id,
                    match fetched {
                        Some(list) => base.fetched(
                            document_links::buckets(list@),
                            relation,
                            *snapshot,
                        ),
                        None => document_links::DocumentLinksView { links_update: None, ..base },
                    },
                )
            }),
            applied is Some == (fetched is Some && !(relation is Outdated)),
            applied matches Some(applied) ==> applied.links@ == document_links::all_links(
                final(self)@[buffer_id].links,
            ) && applied.adopt_version == (relation is Newer),
    {
        let ghost before = self@;
        let mut data = self.take_latest(buffer_id, is_outdated);
        let applied = data.apply_fetched(fetched, relation, snapshot);
        let ghost updated = data@;
        self.put(buffer_id, data);
        assert(before.remove(buffer_id).insert(buffer_id, updated) =~= before.insert(
            buffer_id,
            updated,
        ));
        applied
    }

    /// Whether the links of a buffer can be searched by where they start.
    pub fn is_searchable(&self, buffer_id: BufferId, snapshot: &BufferSnapshot) -> (searchable: bool)
        requires
            self.is_valid(),
        ensures
            searchable == (self@.contains_key(buffer_id) ==> self@[buffer_id].can_be_searched(
                *snapshot,
            )),
    {
        match self.find(buffer_id) {
            Some(at) => self.lsp_data[at].document_links.is_searchable(snapshot),
            None => true,
        }
    }

    /// The requests for the links of a buffer that the user can see and that are not known well
    /// enough yet. They count as being looked up from now on.
    pub fn resolve_visible_document_links(
        &mut self,
        buffer_id: BufferId,
        servers: &Vec<RunningServer>,
        visible: VisibleRange,
        snapshot: &BufferSnapshot,
    ) -> (requests: Vec<ResolveRequest>)
        requires
            old(self).is_valid(),
            old(self)@.contains_key(buffer_id) ==> old(self)@[buffer_id].can_be_searched(*snapshot),
        ensures
            final(self).is_valid(),
            if old(self)@.contains_key(buffer_id) {
                let known = old(self)@[buffer_id];
                &&& requests@ == document_links::wanted(
                    known.links,
                    servers@,
                    visible,
                    *snapshot,
                    known.resolving,
                )
                &&& final(self)@ == old(self)@.insert(
                    buffer_id,
                    document_links::DocumentLinksView {
                        resolving: known.resolving.union(document_links::pairs(requests@)),
                        ..known
                    },
                )
            } else {
                requests@.len() == 0 && final(self)@ == old(self)@
            },
    {
        let ghost before = self@;
        match self.take(buffer_id) {
            Some(data) => {
                let mut data = data;
                let requests = data.resolve_visible_document_links(servers, visible, snapshot);
                let ghost updated = data@;
                self.put(buffer_id, data);
                assert(before.remove(buffer_id).insert(buffer_id, updated) =~= before.insert(
                    buffer_id,
                    updated,
                ));
                requests
            },
            None => {
                assert(self@ =~= before);
                Vec::new()
            },
        }
    }

    /// Takes over what the servers found out about links of a buffer, and gives these links. Where
    /// the buffer has changed since the servers were asked, nothing is taken over.
    pub fn finish_resolve(
        &mut self,
        buffer_id: BufferId,
        version_is_same: bool,
        requests: &Vec<ResolveRequest>,
        resolved: Vec<ResolvedLink>,
    ) -> (links: Vec<LspDocumentLink>)
        requires
            old(self).is_valid(),
        ensures
            final(self).is_valid(),
            if old(self)@.contains_key(buffer_id) && version_is_same {
                let known = old(self)@[buffer_id];
                &&& links@ == document_links::newly_resolved(known.links, resolved@)
                &&& final(self)@ == old(self)@.insert(
                    buffer_id,
                    document_links::DocumentLinksView {
                        links: document_links::resolved_lists(known.links, resolved@),
                        links_update: known.links_update,
                        resolving: known.resolving.difference(document_links::pairs(requests@)),
                    },
                )
            } else {
                links@.len() == 0 && final(self)@ == old(self)@
            },
    {
        let ghost before = self@;
        match self.take(buffer_id) {
            Some(data) => {
                let mut data = data;
                let links = data.apply_resolved(version_is_same, requests, resolved);
                let ghost updated = data@;
                self.put(buffer_id, data);
                assert(before.remove(buffer_id).insert(buffer_id, updated) =~= before.insert(
                    buffer_id,
                    updated,
                ));
                assert(updated == before[buffer_id] ==> before.insert(buffer_id, updated)
                    =~= before);
                links
            },
            None => {
                assert(self@ =~= before);
                Vec::new()
            },
        }
    }
}

/// In what is known of any buffer, no server has two lists.
pub proof fn known_buffers_are_valid<V>(store: LspStore<V>, buffer_id: BufferId)
    requires
        store.is_valid(),
        store@.contains_key(buffer_id),
    ensures
        store@[buffer_id].is_valid(),
{
    store.place_is(buffer_id, store.place(buffer_id));
}

/// Nothing that is outdated is built on: no link, no update under way and no link that is being
/// looked up outlasts it. What is not outdated stays as it is, and nothing is made up.
pub proof fn outdated_knowledge_is_dropped<V>(
    known: Map<BufferId, document_links::DocumentLinksView<V>>,
    buffer_id: BufferId,
    is_outdated: bool,
    link: (LanguageServerId, usize),
)
    ensures
        known.contains_key(buffer_id) && !is_outdated ==> latest(known, buffer_id, is_outdated)
            == known[buffer_id],
        is_outdated || !known.contains_key(buffer_id) ==> {
            let base = latest(known, buffer_id, is_outdated);
            &&& base.links.len() == 0
            &&& base.links_update is None
            &&& !base.resolving.contains(link)
        },
{
}

/// Links are still good exactly where every server that the buffer is open in has given some, and
/// none has that it is no longer open in; where the servers are not known, any are.
pub proof fn servers_that_come_or_go_are_noticed(
    list: Seq<document_links::Bucket>,
    servers: Option<&Vec<LanguageServerId>>,
)
    ensures
        servers is None ==> are_from(list, servers),
        servers is Some && are_from(list, servers) ==> forall|i: int|
            0 <= i < list.len() ==> servers->0@.contains((#[trigger] list[i]).server_id),
        servers is Some && are_from(list, servers) ==> forall|j: int|
            0 <= j < servers->0@.len() ==> list.map_values(
                |bucket: document_links::Bucket| bucket.server_id,
            ).contains(#[trigger] servers->0@[j]),
        servers is Some && (forall|id: LanguageServerId| #[trigger]
            servers->0@.contains(id) == document_links::has_server(list, id)) ==> are_from(
            list,
            servers,
        ),
{
    if servers is Some && are_from(list, servers) {
        assert forall|i: int| 0 <= i < list.len() implies servers->0@.contains(
            (#[trigger] list[i]).server_id,
        ) by {
            assert(document_links::has_server(list, list[i].server_id));
            assert(servers->0@.contains(list[i].server_id));
        }
        let ids = list.map_values(|bucket: document_links::Bucket| bucket.server_id);
        assert forall|j: int| 0 <= j < servers->0@.len() implies ids.contains(
            #[trigger] servers->0@[j],
        ) by {
            let id = servers->0@[j];
            assert(servers->0@.contains(id));
            assert(document_links::has_server(list, id));
            let i = choose|i: int| 0 <= i < list.len() && (#[trigger] list[i]).server_id == id;
            assert(ids[i] == id);
        }
    }
}

} // verus!
