use zed_core::document_links;
use zed_core::document_links::{
    Anchor, AnchorPosition, BufferSnapshot, DocumentLinkOptions, DocumentLinksData,
    LanguageServerId, LspDocumentLink, Position, ResolvedLink, RunningServer, ServerCapabilities,
    ServerLinks, ServerResponse, VersionRelation, VisibleRange,
};
use zed_core::lsp_store::{BufferId, LinksFetch, LspStore};

const FIRST: LanguageServerId = LanguageServerId(1);
const SECOND: LanguageServerId = LanguageServerId(2);
const BUFFER: BufferId = BufferId(9);

/// A buffer with a line for each place, ten bytes each.
fn snapshot(places: usize) -> BufferSnapshot {
    BufferSnapshot {
        positions: (0..places)
            .map(|at| AnchorPosition {
                order: at as u64,
                offset: at * 10,
                position: Position { line: at as u32, character: 0 },
            })
            .collect(),
    }
}

fn link(start: usize, target: Option<&str>, data: Option<&str>) -> LspDocumentLink {
    LspDocumentLink {
        start: Anchor(start),
        end: Anchor(start + 1),
        target: target.map(|text| text.to_owned()),
        tooltip: None,
        data: data.map(|text| text.to_owned()),
    }
}

fn of(server_id: LanguageServerId, links: Vec<LspDocumentLink>) -> ServerLinks {
    ServerLinks { server_id, links }
}

fn server(server_id: LanguageServerId, resolve_provider: Option<bool>) -> RunningServer {
    RunningServer {
        server_id,
        capabilities: ServerCapabilities {
            document_link_provider: Some(DocumentLinkOptions { resolve_provider }),
        },
    }
}

fn starts(links: &[LspDocumentLink]) -> Vec<usize> {
    links.iter().map(|link| link.start.0).collect()
}

fn store_with(lists: Vec<ServerLinks>) -> LspStore<u32> {
    let mut store: LspStore<u32> = LspStore::new();
    assert!(matches!(
        store.fetch_document_links(BUFFER, 1, false, None, false, false),
        LinksFetch::Start
    ));
    store
        .finish_fetch(BUFFER, false, Some(lists), VersionRelation::Same, &snapshot(10))
        .expect("the links");
    store
}

#[test]
fn nothing_is_known_before_anything_was_asked() {
    let store: LspStore<u32> = LspStore::new();
    assert_eq!(store.document_links_for_buffer(BUFFER), None);
}

#[test]
fn fetched_links_are_kept_in_the_order_they_start() {
    let store = store_with(vec![of(FIRST, vec![link(5, None, None), link(2, None, None)])]);
    let links = store.document_links_for_buffer(BUFFER).expect("the links");
    assert_eq!(starts(&links), [2, 5]);
    assert_eq!(store.document_links_for_buffer(BufferId(8)), None);
}

#[test]
fn links_that_start_together_keep_their_order() {
    let store = store_with(vec![of(
        FIRST,
        vec![link(3, Some("a"), None), link(1, None, None), link(3, Some("b"), None)],
    )]);
    let links = store.document_links_for_buffer(BUFFER).expect("the links");
    assert_eq!(starts(&links), [1, 3, 3]);
    assert_eq!(links[1].target.as_deref(), Some("a"));
    assert_eq!(links[2].target.as_deref(), Some("b"));
}

#[test]
fn known_links_are_not_asked_for_again() {
    let mut store = store_with(vec![of(FIRST, vec![link(2, None, None)])]);
    let servers = vec![FIRST];
    assert!(matches!(
        store.fetch_document_links(BUFFER, 2, false, Some(&servers), true, true),
        LinksFetch::Current
    ));
    assert!(matches!(
        store.fetch_document_links(BUFFER, 2, false, None, false, false),
        LinksFetch::Current
    ));
    assert_eq!(starts(&store.document_links_for_buffer(BUFFER).expect("the links")), [2]);
    assert!(matches!(
        store.fetch_document_links(BUFFER, 2, true, None, false, false),
        LinksFetch::Start
    ));
}

#[test]
fn servers_are_asked_again_when_something_changed() {
    let mut store = store_with(vec![of(FIRST, vec![link(2, None, None)])]);
    let other = vec![FIRST, SECOND];
    assert!(matches!(
        store.fetch_document_links(BUFFER, 2, false, Some(&other), false, false),
        LinksFetch::Start
    ));
    assert!(matches!(
        store.fetch_document_links(BUFFER, 2, true, None, false, false),
        LinksFetch::Running
    ));
    assert!(matches!(
        store.fetch_document_links(BUFFER, 3, true, None, false, true),
        LinksFetch::Start
    ));
    store.fail_fetch(BUFFER);
    assert!(matches!(
        store.fetch_document_links(BUFFER, 4, true, None, false, false),
        LinksFetch::Start
    ));
    store.fail_fetch(BufferId(1));
    assert_eq!(starts(&store.document_links_for_buffer(BUFFER).expect("the links")), [2]);
}

#[test]
fn outdated_links_are_dropped_before_asking() {
    let mut store = store_with(vec![of(FIRST, vec![link(2, None, None)])]);
    assert!(matches!(
        store.fetch_document_links(BUFFER, 2, true, None, true, false),
        LinksFetch::Start
    ));
    assert_eq!(store.document_links_for_buffer(BUFFER), Some(Vec::new()));
}

#[test]
fn links_for_the_same_version_are_merged() {
    let mut store = store_with(vec![
        of(FIRST, vec![link(1, None, None)]),
        of(SECOND, vec![link(2, None, None)]),
    ]);
    let applied = store
        .finish_fetch(
            BUFFER,
            false,
            Some(vec![of(SECOND, vec![link(7, None, None)])]),
            VersionRelation::Same,
            &snapshot(10),
        )
        .expect("the links");
    assert_eq!(starts(&applied.links), [1, 7]);
    assert!(!applied.adopt_version);
}

#[test]
fn links_for_a_newer_version_replace_all() {
    let mut store = store_with(vec![
        of(FIRST, vec![link(1, None, None)]),
        of(SECOND, vec![link(2, None, None)]),
    ]);
    let applied = store
        .finish_fetch(
            BUFFER,
            false,
            Some(vec![of(SECOND, vec![link(7, None, None)])]),
            VersionRelation::Newer,
            &snapshot(10),
        )
        .expect("the links");
    assert_eq!(starts(&applied.links), [7]);
    assert!(applied.adopt_version);
}

#[test]
fn outdated_answers_are_dropped() {
    let mut store = store_with(vec![of(FIRST, vec![link(1, None, None)])]);
    let applied = store.finish_fetch(
        BUFFER,
        false,
        Some(vec![of(FIRST, Vec::new())]),
        VersionRelation::Outdated,
        &snapshot(10),
    );
    assert!(applied.is_none());
    assert_eq!(starts(&store.document_links_for_buffer(BUFFER).expect("the links")), [1]);
    let applied =
        store.finish_fetch(BUFFER, false, None, VersionRelation::Same, &snapshot(10));
    assert!(applied.is_none());
}

#[test]
fn visible_links_are_looked_up_once() {
    let mut store = store_with(vec![of(
        FIRST,
        vec![
            link(0, None, Some("d")),
            link(2, None, None),
            link(3, Some("t"), None),
            link(4, Some("t"), Some("d")),
            link(6, None, None),
        ],
    )]);
    let servers = vec![server(FIRST, Some(true))];
    let visible = VisibleRange { start: 15, end: 45 };
    let requests =
        store.resolve_visible_document_links(BUFFER, &servers, visible, &snapshot(10));
    let indices: Vec<usize> = requests.iter().map(|request| request.index).collect();
    assert_eq!(indices, [1, 3]);
    assert_eq!(requests[1].target.as_deref(), Some("t"));
    assert_eq!(requests[1].start, Position { line: 4, character: 0 });
    assert_eq!(requests[1].end, Position { line: 5, character: 0 });
    assert!(store
        .resolve_visible_document_links(BUFFER, &servers, visible, &snapshot(10))
        .is_empty());
    let links = store.finish_resolve(
        BUFFER,
        true,
        &requests,
        vec![ResolvedLink {
            server_id: FIRST,
            index: 1,
            target: Some("found".to_owned()),
            tooltip: Some("tip".to_owned()),
            data: None,
        }],
    );
    assert_eq!(links.len(), 1);
    assert_eq!(links[0].target.as_deref(), Some("found"));
    assert_eq!(links[0].tooltip.as_deref(), Some("tip"));
    let requests =
        store.resolve_visible_document_links(BUFFER, &servers, visible, &snapshot(10));
    let indices: Vec<usize> = requests.iter().map(|request| request.index).collect();
    assert_eq!(indices, [3]);
}

#[test]
fn links_at_the_edges_are_visible() {
    let mut store = store_with(vec![of(
        FIRST,
        vec![link(1, None, None), link(2, None, None), link(3, None, None), link(4, None, None)],
    )]);
    let servers = vec![server(FIRST, Some(true))];
    let visible = VisibleRange { start: 20, end: 30 };
    let requests =
        store.resolve_visible_document_links(BUFFER, &servers, visible, &snapshot(10));
    assert_eq!(requests.iter().map(|request| request.index).collect::<Vec<_>>(), [1, 2]);
}

#[test]
fn servers_that_cannot_look_up_are_not_asked() {
    let mut store = store_with(vec![
        of(FIRST, vec![link(1, None, None)]),
        of(SECOND, vec![link(2, None, None)]),
    ]);
    let servers = vec![server(FIRST, None), server(SECOND, Some(false))];
    let visible = VisibleRange { start: 0, end: 100 };
    assert!(store
        .resolve_visible_document_links(BUFFER, &servers, visible, &snapshot(10))
        .is_empty());
    assert!(store
        .resolve_visible_document_links(BUFFER, &Vec::new(), visible, &snapshot(10))
        .is_empty());
    assert!(store
        .resolve_visible_document_links(
            BufferId(1),
            &vec![server(FIRST, Some(true))],
            visible,
            &snapshot(10)
        )
        .is_empty());
    assert!(document_links::can_resolve_link(&server(FIRST, Some(true)).capabilities));
    assert!(!document_links::can_resolve_link(&ServerCapabilities {
        document_link_provider: None
    }));
}

#[test]
fn answers_for_another_version_are_dropped() {
    let mut store = store_with(vec![of(FIRST, vec![link(1, None, None)])]);
    let servers = vec![server(FIRST, Some(true))];
    let visible = VisibleRange { start: 0, end: 100 };
    let requests =
        store.resolve_visible_document_links(BUFFER, &servers, visible, &snapshot(10));
    let resolved = || {
        vec![ResolvedLink {
            server_id: FIRST,
            index: 0,
            target: Some("t".to_owned()),
            tooltip: None,
            data: None,
        }]
    };
    assert!(store.finish_resolve(BUFFER, false, &requests, resolved()).is_empty());
    assert!(store.finish_resolve(BufferId(1), true, &requests, resolved()).is_empty());
    assert!(store
        .resolve_visible_document_links(BUFFER, &servers, visible, &snapshot(10))
        .is_empty());
    assert_eq!(store.finish_resolve(BUFFER, true, &requests, resolved()).len(), 1);
}

#[test]
fn replaced_links_can_be_looked_up_again() {
    let mut store = store_with(vec![of(FIRST, vec![link(1, None, None)])]);
    let servers = vec![server(FIRST, Some(true))];
    let visible = VisibleRange { start: 0, end: 100 };
    store.resolve_visible_document_links(BUFFER, &servers, visible, &snapshot(10));
    store.finish_fetch(
        BUFFER,
        false,
        Some(vec![of(FIRST, vec![link(1, None, None)])]),
        VersionRelation::Same,
        &snapshot(10),
    );
    assert_eq!(
        store.resolve_visible_document_links(BUFFER, &servers, visible, &snapshot(10)).len(),
        1
    );
}

#[test]
fn server_that_stopped_is_forgotten() {
    let mut data: DocumentLinksData<u32> = DocumentLinksData::new();
    assert!(data.start_update(1, false));
    data.apply_fetched(
        Some(vec![of(FIRST, vec![link(1, None, None)]), of(SECOND, vec![link(2, None, None)])]),
        VersionRelation::Same,
        &snapshot(10),
    );
    data.remove_server_data(FIRST);
    assert_eq!(starts(&data.known_links()), [2]);
    assert!(data.has_current_links(false, Some(&vec![SECOND])));
    assert!(!data.has_current_links(false, Some(&vec![FIRST, SECOND])));
    assert!(!data.has_current_links(true, None));
    assert!(data.has_current_links(false, None));
}

#[test]
fn some_failed_servers_do_not_hide_the_others() {
    let good = ServerResponse { server_id: FIRST, links: Ok(vec![link(1, None, None)]) };
    let bad = ServerResponse { server_id: SECOND, links: Err("down".to_owned()) };
    let combined = document_links::combine_responses(vec![good, bad]).expect("links");
    assert_eq!(combined, vec![of(FIRST, vec![link(1, None, None)])]);
    let bad = ServerResponse { server_id: SECOND, links: Err("down".to_owned()) };
    assert_eq!(
        document_links::combine_responses(vec![bad]),
        Err("Failed to fetch document links".to_owned())
    );
    assert_eq!(document_links::combine_responses(Vec::new()), Ok(Vec::new()));
}

#[test]
fn remote_project_answers_for_its_servers() {
    let reply = || {
        Ok(Some(vec![ServerResponse { server_id: FIRST, links: Ok(vec![link(1, None, None)]) }]))
    };
    assert_eq!(document_links::links_from_upstream(false, true, reply()), Ok(None));
    assert_eq!(document_links::links_from_upstream(true, false, reply()), Ok(None));
    assert_eq!(document_links::links_from_upstream(true, true, Ok(None)), Ok(None));
    assert_eq!(
        document_links::links_from_upstream(true, true, Err("timeout".to_owned())),
        Err("timeout".to_owned())
    );
    assert_eq!(
        document_links::links_from_upstream(true, true, reply()),
        Ok(Some(vec![of(FIRST, vec![link(1, None, None)])]))
    );
}

#[test]
fn last_answer_of_a_server_counts() {
    let lists = document_links::links_from_servers(vec![
        of(FIRST, vec![link(1, None, None)]),
        of(SECOND, vec![link(2, None, None)]),
        of(FIRST, vec![link(3, None, None)]),
    ]);
    assert_eq!(
        lists,
        vec![of(FIRST, vec![link(3, None, None)]), of(SECOND, vec![link(2, None, None)])]
    );
}

#[test]
fn links_outside_the_buffer_are_noticed() {
    let lists = vec![of(FIRST, vec![link(1, None, None)]), of(SECOND, vec![link(8, None, None)])];
    assert!(snapshot(10).knows_lists(&lists));
    assert!(!snapshot(9).knows_lists(&lists));
    assert!(snapshot(0).knows_lists(&Vec::new()));
}

#[test]
fn sorted_links_are_searchable() {
    let store = store_with(vec![of(FIRST, vec![link(5, None, None), link(2, None, None)])]);
    assert!(store.is_searchable(BUFFER, &snapshot(10)));
    assert!(!store.is_searchable(BUFFER, &snapshot(5)));
    assert!(store.is_searchable(BufferId(1), &snapshot(0)));
    let mut turned = snapshot(10);
    turned.positions[2].offset = 70;
    assert!(!store.is_searchable(BUFFER, &turned));
}

#[test]
fn every_visible_link_of_every_server_is_asked_for() {
    let mut store = store_with(vec![
        of(FIRST, vec![link(1, None, None), link(3, None, None)]),
        of(SECOND, vec![link(2, None, None)]),
    ]);
    let servers = vec![server(FIRST, Some(true)), server(SECOND, Some(true))];
    let visible = VisibleRange { start: 0, end: 100 };
    let requests = store.resolve_visible_document_links(BUFFER, &servers, visible, &snapshot(10));
    let asked: Vec<(LanguageServerId, usize)> =
        requests.iter().map(|request| (request.server_id, request.index)).collect();
    assert_eq!(asked, [(FIRST, 0), (FIRST, 1), (SECOND, 0)]);
}

#[test]
fn lists_of_a_server_replace_each_other() {
    let mut store = store_with(vec![of(FIRST, vec![link(1, None, None)])]);
    store.finish_fetch(
        BUFFER,
        false,
        Some(vec![of(FIRST, vec![link(4, None, None)])]),
        VersionRelation::Same,
        &snapshot(10),
    );
    assert_eq!(starts(&store.document_links_for_buffer(BUFFER).expect("the links")), [4]);
}
