use termmux::mux::Mux;
use termmux::pty::PtySize;
use termmux::server::client::{Pending, SendError};
use termmux::server::pdu::{
    ListTabsResponse, PduKind, Spawn, SpawnResponse, WindowAndTabEntry,
};

#[test]
fn each_request_gets_a_serial_of_its_own() {
    let mut pending: Pending<&str> = Pending::new(7);
    assert!(pending.is_connected());
    assert_eq!(pending.register("ping"), Ok(7));
    assert_eq!(pending.register("list"), Ok(8));
    assert_eq!(pending.complete(7), Some("ping"));
    // a serial that was answered is not given out again
    assert_eq!(pending.register("spawn"), Ok(9));
    assert_eq!(pending.len(), 2);
}

#[test]
fn replies_may_come_in_any_order() {
    let mut pending: Pending<u32> = Pending::new(0);
    let serials: Vec<u64> = (0..5).map(|i| pending.register(i * 10).unwrap()).collect();
    assert_eq!(serials, vec![0, 1, 2, 3, 4]);
    assert_eq!(pending.complete(3), Some(30));
    assert_eq!(pending.complete(0), Some(0));
    assert_eq!(pending.complete(4), Some(40));
    // nobody waits under a serial twice, or under one that was never sent
    assert_eq!(pending.complete(3), None);
    assert_eq!(pending.complete(99), None);
    assert_eq!(pending.len(), 2);
    assert_eq!(pending.complete(1), Some(10));
    assert_eq!(pending.complete(2), Some(20));
    assert_eq!(pending.len(), 0);
}

#[test]
fn a_lost_connection_gives_up_every_waiter_and_takes_no_more() {
    let mut pending: Pending<&str> = Pending::new(1);
    pending.register("a").unwrap();
    pending.register("b").unwrap();
    pending.register("c").unwrap();
    pending.complete(2);
    let mut given_up = pending.disconnect();
    given_up.sort();
    assert_eq!(given_up, vec![(1, "a"), (3, "c")]);
    assert!(!pending.is_connected());
    assert_eq!(pending.len(), 0);
    assert_eq!(
        pending.register("d"),
        Err((SendError::Disconnected, "d"))
    );
    assert_eq!(pending.complete(1), None);
    assert!(pending.disconnect().is_empty());
}

#[test]
fn serials_run_out_at_the_largest_number() {
    let mut pending: Pending<()> = Pending::new(u64::MAX - 1);
    assert_eq!(pending.register(()), Ok(u64::MAX - 1));
    assert_eq!(pending.register(()), Err((SendError::Exhausted, ())));
}

#[test]
fn every_request_has_its_reply() {
    let pairs = [
        (PduKind::Ping, PduKind::Pong),
        (PduKind::ListTabs, PduKind::ListTabsResponse),
        (
            PduKind::GetCoarseTabRenderableData,
            PduKind::GetCoarseTabRenderableDataResponse,
        ),
        (PduKind::Spawn, PduKind::SpawnResponse),
        (PduKind::WriteToTab, PduKind::UnitResponse),
        (PduKind::SendKeyDown, PduKind::UnitResponse),
        (PduKind::SendMouseEvent, PduKind::SendMouseEventResponse),
        (PduKind::SendPaste, PduKind::UnitResponse),
        (PduKind::Resize, PduKind::UnitResponse),
    ];
    for (request, reply) in pairs.iter() {
        assert_eq!(request.response(), Some(*reply));
        assert!(request.is_request());
        assert_eq!(reply.response(), None);
        assert!(!reply.is_request());
    }
    assert_eq!(PduKind::ErrorResponse.response(), None);
}

#[test]
fn the_tag_table_is_append_only() {
    let table = [
        (0, PduKind::ErrorResponse),
        (1, PduKind::Ping),
        (2, PduKind::Pong),
        (3, PduKind::ListTabs),
        (4, PduKind::ListTabsResponse),
        (5, PduKind::GetCoarseTabRenderableData),
        (6, PduKind::GetCoarseTabRenderableDataResponse),
        (7, PduKind::Spawn),
        (8, PduKind::SpawnResponse),
        (9, PduKind::WriteToTab),
        (10, PduKind::UnitResponse),
        (11, PduKind::SendKeyDown),
        (12, PduKind::SendMouseEvent),
        (13, PduKind::SendPaste),
        (14, PduKind::Resize),
        (17, PduKind::SendMouseEventResponse),
    ];
    for (ident, kind) in table.iter() {
        assert_eq!(kind.ident(), *ident);
        assert_eq!(PduKind::from_ident(*ident), Some(*kind));
    }
    // retired numbers stay unused
    assert_eq!(PduKind::from_ident(15), None);
    assert_eq!(PduKind::from_ident(16), None);
    assert_eq!(PduKind::from_ident(18), None);
    assert_eq!(PduKind::from_ident(u64::MAX), None);
}

#[test]
fn spawn_makes_a_tab_in_a_new_window_and_list_tabs_reports_it() {
    // the server's side of a spawn without a window, and of the listing
    // that follows
    let mut mux: Mux<String, ()> = Mux::new(0, ());
    let request = Spawn {
        domain_id: 0,
        window_id: None,
        command: None,
        size: PtySize {
            rows: 24,
            cols: 80,
            pixel_width: 0,
            pixel_height: 0,
        },
    };
    assert!(mux.get_domain(request.domain_id).is_some());
    assert!(mux.has_window_ids());
    let tab_id = 5;
    let window_id = mux
        .spawn_into(tab_id, "title".to_string(), request.window_id)
        .unwrap();
    let reply = SpawnResponse { tab_id, window_id };
    assert_eq!(
        reply,
        SpawnResponse {
            tab_id: 5,
            window_id: 0
        }
    );
    let listing = ListTabsResponse {
        tabs: mux
            .list_tabs()
            .into_iter()
            .map(|(window_id, tab_id)| WindowAndTabEntry {
                window_id,
                tab_id,
                title: mux.get_tab(tab_id).unwrap().clone(),
            })
            .collect(),
    };
    assert_eq!(
        listing,
        ListTabsResponse {
            tabs: vec![WindowAndTabEntry {
                window_id,
                tab_id,
                title: "title".to_string()
            }]
        }
    );
}

#[test]
fn spawn_into_a_named_window() {
    let mut mux: Mux<&str, ()> = Mux::new(0, ());
    let window = mux.new_empty_window();
    assert_eq!(mux.spawn_into(1, "a", Some(window)), Ok(window));
    assert_eq!(mux.spawn_into(2, "b", Some(window)), Ok(window));
    assert!(mux.spawn_into(3, "c", Some(window + 5)).is_err());
    assert_eq!(mux.get_tab(3), Some(&"c"));
    assert_eq!(mux.list_tabs(), vec![(window, 1), (window, 2)]);
    let other = mux.spawn_into(4, "d", None).unwrap();
    assert_ne!(other, window);
    let mut listing = mux.list_tabs();
    listing.sort();
    assert_eq!(listing, vec![(window, 1), (window, 2), (other, 4)]);
}
