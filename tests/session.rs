use strim_overlay::{
    grants_control, handle_websocket_message, Event, IdSequence, MediaType, Message, Outcome,
    Position, ServerPlayer, Session, Store,
};

fn authorized(id: u32) -> Session {
    let mut s = Session::new(id);
    s.complete_authorization(true);
    s
}

fn new_media(name: &str) -> Message {
    Message::NewMedia {
        name: name.to_string(),
        data: "https://example.org/clip.webm".to_string(),
        media_type: MediaType::Video,
        position: Position::new(0, 0),
        width: 640,
        height: None,
    }
}

fn names(store: &Store) -> Vec<String> {
    store.snapshot().into_iter().map(|(n, _)| n).collect()
}

fn is_quiet(o: &Outcome) -> bool {
    o.reply.is_none() && o.publish.is_none() && o.token_to_check.is_none()
}

#[test]
fn ping_gets_a_direct_pong() {
    let mut store = Store::new();
    let s = Session::new(3);
    let out = s.handle(&mut store, Message::Ping);
    assert_eq!(out.reply, Some(Event::Pong));
    assert!(out.publish.is_none());
    assert!(out.token_to_check.is_none());
}

#[test]
fn get_all_players_replies_with_the_snapshot() {
    let mut store = Store::new();
    let a = authorized(1);
    a.handle(&mut store, new_media("x"));
    a.handle(&mut store, new_media("y"));
    let out = Session::new(2).handle(&mut store, Message::GetAllPlayers);
    assert!(out.publish.is_none());
    match out.reply {
        Some(Event::AllPlayers(list)) => {
            assert_eq!(list, store.snapshot());
            assert_eq!(list.len(), 2);
            assert_eq!(list[0].0, "x");
            assert_eq!(list[1].0, "y");
        }
        other => panic!("unexpected reply {other:?}"),
    }
}

#[test]
fn authorize_asks_for_the_token_to_be_checked() {
    let mut store = Store::new();
    let mut s = Session::new(0);
    let out = s.handle(&mut store, Message::Authorize("SECRET-REDACTED".to_string()));
    assert_eq!(out.token_to_check, Some("SECRET-REDACTED".to_string()));
    assert!(out.reply.is_none() && out.publish.is_none());
    assert!(!s.is_authorized());
    s.complete_authorization(false);
    assert!(!s.is_authorized());
    s.complete_authorization(true);
    assert!(s.is_authorized());
    s.complete_authorization(false);
    assert!(s.is_authorized());
    assert_eq!(s.id(), 0);
}

#[test]
fn new_media_is_echoed_and_broadcast() {
    let mut store = Store::new();
    let a = authorized(1);
    let b = authorized(2);
    let mut b_copy = Store::new();
    let out = a.handle(&mut store, new_media("clip"));
    let reply = out.reply.clone().unwrap();
    match &reply {
        Event::NewPlayer(p) => {
            assert_eq!(p.name, "clip");
            assert_eq!(p.width, 640);
            assert!(!p.horizontal_flip);
        }
        other => panic!("unexpected reply {other:?}"),
    }
    let (origin, event) = out.publish.unwrap();
    assert_eq!(origin, 1);
    assert_eq!(event, reply);
    assert!(a.forward(origin, event.clone()).is_none());
    let delivered = b.forward(origin, event).unwrap();
    assert_eq!(delivered, reply);
    handle_websocket_message(&mut b_copy, delivered);
    assert_eq!(names(&store), vec!["clip"]);
    assert_eq!(names(&b_copy), vec!["clip"]);
    assert_eq!(b_copy.snapshot(), store.snapshot());
}

#[test]
fn same_name_twice_gets_clip_2() {
    let mut store = Store::new();
    let a = authorized(1);
    a.handle(&mut store, new_media("clip"));
    let out = a.handle(&mut store, new_media("clip"));
    match out.reply {
        Some(Event::NewPlayer(p)) => assert_eq!(p.name, "clip-2"),
        other => panic!("unexpected reply {other:?}"),
    }
    assert_eq!(names(&store), vec!["clip", "clip-2"]);
}

#[test]
fn new_media_with_empty_name_is_dropped() {
    let mut store = Store::new();
    let out = authorized(1).handle(&mut store, new_media(""));
    assert!(is_quiet(&out));
    assert_eq!(store.len(), 0);
}

#[test]
fn unauthorized_delete_changes_nothing() {
    let mut store = Store::new();
    authorized(1).handle(&mut store, new_media("clip"));
    let before = store.snapshot();
    let c = Session::new(3);
    let out = c.handle(&mut store, Message::DeletePlayer { player_name: "clip".to_string() });
    assert!(is_quiet(&out));
    assert_eq!(store.snapshot(), before);
}

#[test]
fn unauthorized_moves_and_resizes_change_nothing() {
    let mut store = Store::new();
    authorized(1).handle(&mut store, new_media("clip"));
    authorized(1).handle(&mut store, new_media("other"));
    let before = store.snapshot();
    let c = Session::new(3);
    let commands = vec![
        Message::SetPosition { player_name: "clip".to_string(), new_position: Position::new(9, 9) },
        Message::SetSize { player_name: "clip".to_string(), width: 1, height: Some(1) },
        Message::MovePlayerDown { player_name: "clip".to_string() },
        Message::MovePlayerUp { player_name: "other".to_string() },
        Message::FlipPlayerHorizontally { player_name: "clip".to_string(), is_flipped: true },
        new_media("new"),
    ];
    for m in commands {
        let out = c.handle(&mut store, m);
        assert!(is_quiet(&out));
        assert_eq!(store.snapshot(), before);
    }
}

#[test]
fn drag_is_broadcast_but_never_echoed() {
    let mut store = Store::new();
    let a = authorized(10);
    let b = authorized(11);
    a.handle(&mut store, new_media("clip"));
    let mut bus: Vec<(u32, Event)> = Vec::new();
    for i in 0..50 {
        let out = a.handle(
            &mut store,
            Message::SetPosition { player_name: "clip".to_string(), new_position: Position::new(i, 2 * i) },
        );
        assert!(out.reply.is_none());
        bus.push(out.publish.unwrap());
    }
    let to_a: Vec<Event> = bus.iter().filter_map(|(o, e)| a.forward(*o, e.clone())).collect();
    let to_b: Vec<Event> = bus.iter().filter_map(|(o, e)| b.forward(*o, e.clone())).collect();
    assert!(to_a.is_empty());
    assert_eq!(to_b.len(), 50);
    assert_eq!(
        to_b[49],
        Event::PositionUpdated { player_name: "clip".to_string(), new_position: Position::new(49, 98) }
    );
    assert_eq!(store.snapshot()[0].1.position, Position::new(49, 98));
}

#[test]
fn resize_and_flip_are_broadcast_only() {
    let mut store = Store::new();
    let a = authorized(1);
    a.handle(&mut store, new_media("clip"));
    let out = a.handle(&mut store, Message::SetSize { player_name: "clip".to_string(), width: 10, height: Some(20) });
    assert!(out.reply.is_none());
    assert_eq!(
        out.publish,
        Some((1, Event::SizeUpdated { player_name: "clip".to_string(), new_width: 10, new_height: Some(20) }))
    );
    let out = a.handle(
        &mut store,
        Message::FlipPlayerHorizontally { player_name: "clip".to_string(), is_flipped: true },
    );
    assert!(out.reply.is_none());
    assert_eq!(
        out.publish,
        Some((1, Event::FlipPlayerHorizontally { player_name: "clip".to_string(), is_flipped: true }))
    );
    let p = &store.snapshot()[0].1;
    assert_eq!((p.width, p.height, p.horizontal_flip), (10, Some(20), true));
}

#[test]
fn delete_and_reorder_are_echoed_and_broadcast() {
    let mut store = Store::new();
    let a = authorized(1);
    for n in ["a", "b", "c"] {
        a.handle(&mut store, new_media(n));
    }
    let out = a.handle(&mut store, Message::MovePlayerUp { player_name: "c".to_string() });
    let e = Event::PlayerMovedUp { player_name: "c".to_string() };
    assert_eq!(out.reply, Some(e.clone()));
    assert_eq!(out.publish, Some((1, e)));
    let out = a.handle(&mut store, Message::MovePlayerDown { player_name: "a".to_string() });
    let e = Event::PlayerMovedDown { player_name: "a".to_string() };
    assert_eq!(out.reply, Some(e.clone()));
    assert_eq!(out.publish, Some((1, e)));
    assert_eq!(names(&store), vec!["c", "a", "b"]);
    let out = a.handle(&mut store, Message::DeletePlayer { player_name: "a".to_string() });
    let e = Event::PlayerDeleted { player_name: "a".to_string() };
    assert_eq!(out.reply, Some(e.clone()));
    assert_eq!(out.publish, Some((1, e)));
    assert_eq!(names(&store), vec!["c", "b"]);
}

#[test]
fn reorder_at_the_ends_produces_no_event() {
    let mut store = Store::new();
    let a = authorized(1);
    for n in ["a", "b"] {
        a.handle(&mut store, new_media(n));
    }
    let before = store.snapshot();
    assert!(is_quiet(&a.handle(&mut store, Message::MovePlayerUp { player_name: "a".to_string() })));
    assert!(is_quiet(&a.handle(&mut store, Message::MovePlayerDown { player_name: "b".to_string() })));
    assert_eq!(store.snapshot(), before);
}

#[test]
fn commands_on_unknown_names_are_dropped() {
    let mut store = Store::new();
    let a = authorized(1);
    a.handle(&mut store, new_media("a"));
    let before = store.snapshot();
    let commands = vec![
        Message::SetPosition { player_name: "x".to_string(), new_position: Position::new(1, 1) },
        Message::SetSize { player_name: "x".to_string(), width: 1, height: None },
        Message::DeletePlayer { player_name: "x".to_string() },
        Message::MovePlayerUp { player_name: "x".to_string() },
        Message::MovePlayerDown { player_name: "x".to_string() },
        Message::FlipPlayerHorizontally { player_name: "x".to_string(), is_flipped: true },
    ];
    for m in commands {
        assert!(is_quiet(&a.handle(&mut store, m)));
        assert_eq!(store.snapshot(), before);
    }
}

#[test]
fn a_copy_follows_every_published_event() {
    let mut store = Store::new();
    let a = authorized(1);
    let b = authorized(2);
    let mut copy = Store::new();
    let commands = vec![
        new_media("a"),
        new_media("b"),
        new_media("a"),
        Message::SetPosition { player_name: "b".to_string(), new_position: Position::new(4, 5) },
        Message::SetSize { player_name: "a".to_string(), width: 9, height: Some(3) },
        Message::MovePlayerUp { player_name: "a-2".to_string() },
        Message::MovePlayerDown { player_name: "a".to_string() },
        Message::FlipPlayerHorizontally { player_name: "b".to_string(), is_flipped: true },
        Message::DeletePlayer { player_name: "b".to_string() },
    ];
    for m in commands {
        let out = a.handle(&mut store, m);
        if let Some((origin, event)) = out.publish {
            if let Some(e) = b.forward(origin, event) {
                handle_websocket_message(&mut copy, e);
            }
        }
        assert_eq!(copy.snapshot(), store.snapshot());
    }
    assert_eq!(names(&store), vec!["a-2", "a"]);
}

#[test]
fn all_players_replaces_the_copy() {
    let mut copy = Store::new();
    copy.insert("old".to_string(), ServerPlayer::new("old".to_string(), String::new(), MediaType::Text, Position::new(0, 0), 1, None));
    let p = ServerPlayer::new("n".to_string(), "hi".to_string(), MediaType::Text, Position::new(1, 2), 3, Some(4));
    handle_websocket_message(&mut copy, Event::AllPlayers(vec![("n".to_string(), p.clone())]));
    assert_eq!(copy.snapshot(), vec![("n".to_string(), p)]);
    handle_websocket_message(&mut copy, Event::Pong);
    assert_eq!(copy.len(), 1);
}

#[test]
fn ids_are_handed_out_in_order() {
    let mut ids = IdSequence::new();
    assert_eq!(ids.next_id(), Some(0));
    assert_eq!(ids.next_id(), Some(1));
    assert_eq!(ids.next_id(), Some(2));
}

#[test]
fn control_goes_to_owner_and_moderators() {
    let mods = vec!["someone".to_string(), "streamer".to_string()];
    assert!(grants_control("streamer", &vec![], "streamer"));
    assert!(grants_control("viewer", &mods, "streamer"));
    assert!(!grants_control("viewer", &vec!["someone".to_string()], "streamer"));
    assert!(!grants_control("stream", &vec![], "streamer"));
    assert!(!grants_control("streamers", &vec!["streame".to_string()], "streamer"));
}
