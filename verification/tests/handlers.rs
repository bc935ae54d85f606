use chat_server::{
    clear_messages, client_connected, client_disconnected, create_room, create_room_with_key,
    init, join_room, send_message, set_name, ChatError, ClearMessagesSchedule, Database,
    Identity, ReducerContext, ScheduleAt, Timestamp, User, KEY_ATTEMPTS, LOBBY,
    RETENTION_MICROS, ROOM_KEY_LEN,
};

const SECOND: i64 = 1_000_000;

fn module() -> Identity {
    Identity::from_words(7, 7)
}

fn alice() -> Identity {
    Identity::from_words(0, 1)
}

fn bob() -> Identity {
    Identity::from_words(0, 2)
}

fn call(sender: Identity, micros: i64) -> ReducerContext {
    ReducerContext::new(sender, Timestamp::from_micros_since_unix_epoch(micros), module())
}

fn tick() -> ClearMessagesSchedule {
    ClearMessagesSchedule { scheduled_id: 1, scheduled_at: ScheduleAt::Interval(RETENTION_MICROS) }
}

fn room_of(db: &Database, who: Identity) -> Option<u64> {
    db.find_user(who).expect("user row").room
}

#[test]
fn connect_creates_a_nameless_online_user_in_the_lobby() {
    let mut db = Database::new();
    client_connected(&call(alice(), 10), &mut db);
    let user = db.find_user(alice()).expect("user row");
    assert_eq!(user.identity, alice());
    assert_eq!(user.name, None);
    assert_eq!(user.room, Some(LOBBY));
    assert_eq!(user.room, Some(0));
    assert!(user.online);
    assert_eq!(db.user_count(), 1);
}

#[test]
fn full_session_from_connect_to_sweep() {
    let mut db = Database::new();
    init(&call(module(), 0), &mut db);
    client_connected(&call(alice(), 1 * SECOND), &mut db);
    client_connected(&call(bob(), 2 * SECOND), &mut db);

    assert_eq!(create_room(&call(alice(), 3 * SECOND), &mut db), Ok(()));
    assert_eq!(db.room_count(), 1);
    let room_id = room_of(&db, alice()).expect("alice is in a room");
    assert_ne!(room_id, LOBBY);
    let room = db.find_room(room_id).expect("room row");
    assert_eq!(room.id, room_id);
    assert_eq!(room.key.chars().count(), ROOM_KEY_LEN);
    assert!(room.key.chars().all(|c| c.is_ascii_alphanumeric()));

    assert_eq!(join_room(&call(bob(), 4 * SECOND), &mut db, room.key.clone()), Ok(()));
    assert_eq!(room_of(&db, bob()), Some(room_id));

    assert_eq!(send_message(&call(alice(), 5 * SECOND), &mut db, "text".to_string(), None), Ok(()));
    assert_eq!(db.message_count(), 1);
    let message = db.find_message(1).expect("message row");
    assert_eq!(message.id, 1);
    assert_eq!(message.sender, alice());
    assert_eq!(message.room, room_id);
    assert_eq!(message.sent, Timestamp::from_micros_since_unix_epoch(5 * SECOND));
    assert_eq!(message.kind, "text");
    assert_eq!(message.data, None);

    assert_eq!(clear_messages(&call(module(), 66 * SECOND), &mut db, tick()), Ok(()));
    assert_eq!(db.message_count(), 0);
    assert!(db.find_message(1).is_none());
    assert_eq!(db.user_count(), 2);
    assert_eq!(db.room_count(), 1);
}

#[test]
fn reconnect_resets_room_to_lobby() {
    let mut db = Database::new();
    client_connected(&call(alice(), 1), &mut db);
    assert_eq!(set_name(&call(alice(), 2), &mut db, "Alice".to_string()), Ok(()));
    assert_eq!(create_room(&call(alice(), 3), &mut db), Ok(()));
    assert_ne!(room_of(&db, alice()), Some(LOBBY));

    assert!(client_disconnected(&call(alice(), 4), &mut db));
    let offline = db.find_user(alice()).expect("user row");
    assert!(!offline.online);
    assert_ne!(offline.room, Some(LOBBY));

    client_connected(&call(alice(), 5), &mut db);
    let back = db.find_user(alice()).expect("user row");
    assert!(back.online);
    assert_eq!(back.room, Some(LOBBY));
    assert_eq!(back.name, Some("Alice".to_string()));
    assert_eq!(db.user_count(), 1);
}

#[test]
fn sweep_by_a_client_is_unauthorized_and_deletes_nothing() {
    let mut db = Database::new();
    client_connected(&call(alice(), 1), &mut db);
    assert_eq!(send_message(&call(alice(), 2), &mut db, "text".to_string(), None), Ok(()));
    let outcome = clear_messages(&call(alice(), 500 * SECOND), &mut db, tick());
    assert_eq!(outcome, Err(ChatError::Unauthorized));
    assert_eq!(db.message_count(), 1);
    assert!(db.find_message(1).is_some());
}

#[test]
fn unknown_caller_is_refused_everywhere() {
    let mut db = Database::new();
    client_connected(&call(alice(), 1), &mut db);
    assert_eq!(create_room_with_key(&call(alice(), 2), &mut db, "AAAAAAAA".to_string()), Ok(Some(1)));

    let stranger = call(bob(), 3);
    assert_eq!(create_room(&stranger, &mut db), Err(ChatError::UnknownUser));
    assert_eq!(
        create_room_with_key(&stranger, &mut db, "BBBBBBBB".to_string()),
        Err(ChatError::UnknownUser)
    );
    assert_eq!(join_room(&stranger, &mut db, "AAAAAAAA".to_string()), Err(ChatError::UnknownUser));
    assert_eq!(join_room(&stranger, &mut db, "nothere".to_string()), Err(ChatError::UnknownUser));
    assert_eq!(set_name(&stranger, &mut db, "Bob".to_string()), Err(ChatError::UnknownUser));
    assert_eq!(
        send_message(&stranger, &mut db, "text".to_string(), Some(vec![1, 2])),
        Err(ChatError::UnknownUser)
    );

    assert_eq!(db.user_count(), 1);
    assert_eq!(db.room_count(), 1);
    assert_eq!(db.message_count(), 0);
    assert!(db.find_user(bob()).is_none());
    assert!(db.find_room_by_key(&"BBBBBBBB".to_string()).is_none());
}

#[test]
fn empty_name_is_refused_and_keeps_the_old_name() {
    let mut db = Database::new();
    client_connected(&call(alice(), 1), &mut db);
    assert_eq!(set_name(&call(alice(), 2), &mut db, "Alice".to_string()), Ok(()));
    assert_eq!(set_name(&call(alice(), 3), &mut db, String::new()), Err(ChatError::EmptyName));
    let user = db.find_user(alice()).expect("user row");
    assert_eq!(user.name, Some("Alice".to_string()));
    assert_eq!(user.room, Some(LOBBY));
    assert!(user.online);
}

#[test]
fn empty_name_from_an_unknown_caller_is_an_empty_name() {
    let mut db = Database::new();
    assert_eq!(set_name(&call(bob(), 1), &mut db, String::new()), Err(ChatError::EmptyName));
    assert_eq!(db.user_count(), 0);
}

#[test]
fn set_name_overwrites_only_the_name() {
    let mut db = Database::new();
    client_connected(&call(alice(), 1), &mut db);
    client_connected(&call(bob(), 1), &mut db);
    assert_eq!(set_name(&call(alice(), 2), &mut db, "A".to_string()), Ok(()));
    assert_eq!(set_name(&call(alice(), 3), &mut db, "Alice".to_string()), Ok(()));
    let a = db.find_user(alice()).expect("user row");
    assert_eq!(a.name, Some("Alice".to_string()));
    assert_eq!(a.room, Some(LOBBY));
    assert!(a.online);
    assert_eq!(db.find_user(bob()).expect("user row").name, None);
    assert_eq!(db.user_count(), 2);
}

#[test]
fn join_with_an_unknown_key_is_refused() {
    let mut db = Database::new();
    client_connected(&call(alice(), 1), &mut db);
    assert_eq!(create_room_with_key(&call(alice(), 2), &mut db, "AAAAAAAA".to_string()), Ok(Some(1)));
    client_connected(&call(bob(), 3), &mut db);
    assert_eq!(
        join_room(&call(bob(), 4), &mut db, "aaaaaaaa".to_string()),
        Err(ChatError::InvalidRoomKey)
    );
    assert_eq!(join_room(&call(bob(), 4), &mut db, String::new()), Err(ChatError::InvalidRoomKey));
    assert_eq!(room_of(&db, bob()), Some(LOBBY));
}

#[test]
fn join_puts_the_caller_in_the_room_with_that_key() {
    let mut db = Database::new();
    client_connected(&call(alice(), 1), &mut db);
    client_connected(&call(bob(), 1), &mut db);
    assert_eq!(create_room_with_key(&call(alice(), 2), &mut db, "first001".to_string()), Ok(Some(1)));
    assert_eq!(create_room_with_key(&call(alice(), 3), &mut db, "second02".to_string()), Ok(Some(2)));
    assert_eq!(room_of(&db, alice()), Some(2));
    assert_eq!(join_room(&call(bob(), 4), &mut db, "first001".to_string()), Ok(()));
    assert_eq!(room_of(&db, bob()), Some(1));
    assert_eq!(join_room(&call(bob(), 5), &mut db, "second02".to_string()), Ok(()));
    assert_eq!(room_of(&db, bob()), Some(2));
    assert_eq!(room_of(&db, alice()), Some(2));
}

#[test]
fn a_taken_key_opens_no_room() {
    let mut db = Database::new();
    client_connected(&call(alice(), 1), &mut db);
    client_connected(&call(bob(), 1), &mut db);
    assert_eq!(create_room_with_key(&call(alice(), 2), &mut db, "samesame".to_string()), Ok(Some(1)));
    assert_eq!(create_room_with_key(&call(bob(), 3), &mut db, "samesame".to_string()), Ok(None));
    assert_eq!(db.room_count(), 1);
    assert_eq!(room_of(&db, bob()), Some(LOBBY));
    assert_eq!(create_room_with_key(&call(bob(), 4), &mut db, "otherkey".to_string()), Ok(Some(2)));
    assert_eq!(room_of(&db, bob()), Some(2));
}

#[test]
fn created_rooms_have_distinct_keys_even_at_one_instant() {
    let mut db = Database::new();
    client_connected(&call(alice(), 1), &mut db);
    client_connected(&call(bob(), 1), &mut db);
    // Same instant, same seed: the second call draws the first call's key
    // first, finds it taken, and draws again.
    assert_eq!(create_room(&call(alice(), 42), &mut db), Ok(()));
    assert_eq!(create_room(&call(bob(), 42), &mut db), Ok(()));
    let first = db.find_room(room_of(&db, alice()).unwrap()).expect("room row");
    let second = db.find_room(room_of(&db, bob()).unwrap()).expect("room row");
    assert_eq!(first.id, 1);
    assert_eq!(second.id, 2);
    assert_ne!(first.key, second.key);
    assert_eq!(db.room_count(), 2);
}

#[test]
fn the_drawn_key_depends_on_the_instant_only() {
    let mut one = Database::new();
    let mut two = Database::new();
    let mut three = Database::new();
    client_connected(&call(alice(), 1), &mut one);
    client_connected(&call(bob(), 1), &mut two);
    client_connected(&call(alice(), 1), &mut three);
    assert_eq!(create_room(&call(alice(), 1234), &mut one), Ok(()));
    assert_eq!(create_room(&call(bob(), 1234), &mut two), Ok(()));
    assert_eq!(create_room(&call(alice(), 1235), &mut three), Ok(()));
    let a = one.find_room(1).expect("room row").key;
    let b = two.find_room(1).expect("room row").key;
    let c = three.find_room(1).expect("room row").key;
    assert_eq!(a, b);
    assert_ne!(a, c);
}

#[test]
fn room_creation_gives_up_after_the_allowed_draws() {
    let mut db = Database::new();
    client_connected(&call(alice(), 1), &mut db);
    // At one instant every call draws the same codes in the same order, so
    // the n-th call needs n draws.
    for n in 1..=KEY_ATTEMPTS {
        assert_eq!(create_room(&call(alice(), 99), &mut db), Ok(()));
        assert_eq!(room_of(&db, alice()), Some(n as u64));
    }
    assert_eq!(db.room_count(), KEY_ATTEMPTS as usize);
    assert_eq!(create_room(&call(alice(), 99), &mut db), Err(ChatError::KeysExhausted));
    assert_eq!(db.room_count(), KEY_ATTEMPTS as usize);
    assert_eq!(room_of(&db, alice()), Some(KEY_ATTEMPTS as u64));
    // Another instant draws other codes.
    assert_eq!(create_room(&call(alice(), 100), &mut db), Ok(()));
    assert_eq!(db.room_count(), KEY_ATTEMPTS as usize + 1);
}

#[test]
fn the_lobby_counts_as_a_room_for_posting() {
    let mut db = Database::new();
    client_connected(&call(alice(), 1), &mut db);
    let payload = vec![1.5f64.to_bits(), (-0.0f64).to_bits(), f64::NAN.to_bits()];
    assert_eq!(
        send_message(&call(alice(), 77), &mut db, "move".to_string(), Some(payload.clone())),
        Ok(())
    );
    let message = db.find_message(1).expect("message row");
    assert_eq!(message.room, LOBBY);
    assert_eq!(message.sent.to_micros_since_unix_epoch(), 77);
    assert_eq!(message.kind, "move");
    assert_eq!(message.data, Some(payload));
    assert_eq!(f64::from_bits(message.data.unwrap()[0]), 1.5);
}

#[test]
fn posting_without_a_room_is_refused() {
    let mut db = Database::new();
    let roomless = User { identity: alice(), name: None, room: None, online: true };
    assert!(db.try_insert_user(roomless));
    assert_eq!(
        send_message(&call(alice(), 5), &mut db, "text".to_string(), None),
        Err(ChatError::NotInRoom)
    );
    assert_eq!(db.message_count(), 0);
}

#[test]
fn messages_get_ids_in_order_and_keep_their_room() {
    let mut db = Database::new();
    client_connected(&call(alice(), 1), &mut db);
    assert_eq!(create_room_with_key(&call(alice(), 2), &mut db, "roomroom".to_string()), Ok(Some(1)));
    assert_eq!(send_message(&call(alice(), 3), &mut db, "a".to_string(), None), Ok(()));
    client_connected(&call(alice(), 4), &mut db);
    assert_eq!(send_message(&call(alice(), 5), &mut db, "b".to_string(), Some(vec![])), Ok(()));
    let first = db.find_message(1).expect("message row");
    let second = db.find_message(2).expect("message row");
    assert_eq!((first.room, first.sent.micros, first.kind.as_str()), (1, 3, "a"));
    assert_eq!((second.room, second.sent.micros, second.kind.as_str()), (0, 5, "b"));
    assert_eq!(first.data, None);
    assert_eq!(second.data, Some(vec![]));
    assert!(db.find_message(3).is_none());
}

#[test]
fn sweep_deletes_exactly_the_messages_older_than_the_window() {
    let mut db = Database::new();
    client_connected(&call(alice(), 0), &mut db);
    let now = 100 * SECOND;
    let sent_at = [39 * SECOND, 40 * SECOND - 1, 40 * SECOND, 40 * SECOND + 1, 99 * SECOND, now];
    for at in sent_at {
        assert_eq!(send_message(&call(alice(), at), &mut db, "text".to_string(), None), Ok(()));
    }
    assert_eq!(db.message_count(), 6);
    assert_eq!(clear_messages(&call(module(), now), &mut db, tick()), Ok(()));
    assert_eq!(db.message_count(), 4);
    assert!(db.find_message(1).is_none());
    assert!(db.find_message(2).is_none());
    for (id, at) in [(3u64, 40 * SECOND), (4, 40 * SECOND + 1), (5, 99 * SECOND), (6, now)] {
        let kept = db.find_message(id).expect("message row");
        assert_eq!(kept.id, id);
        assert_eq!(kept.sent.micros, at);
        assert_eq!(kept.sender, alice());
        assert_eq!(kept.kind, "text");
    }
    // A second sweep at the same time finds nothing to do.
    assert_eq!(clear_messages(&call(module(), now), &mut db, tick()), Ok(()));
    assert_eq!(db.message_count(), 4);
    // New messages still get fresh ids.
    assert_eq!(send_message(&call(alice(), now), &mut db, "text".to_string(), None), Ok(()));
    assert!(db.find_message(7).is_some());
}

#[test]
fn sweep_of_an_empty_table_is_a_no_op() {
    let mut db = Database::new();
    assert_eq!(clear_messages(&call(module(), 5), &mut db, tick()), Ok(()));
    assert_eq!(db.message_count(), 0);
}

#[test]
fn sweep_at_the_earliest_instants_deletes_nothing() {
    let mut db = Database::new();
    client_connected(&call(alice(), i64::MIN), &mut db);
    assert_eq!(send_message(&call(alice(), i64::MIN), &mut db, "text".to_string(), None), Ok(()));
    assert_eq!(clear_messages(&call(module(), i64::MIN), &mut db, tick()), Ok(()));
    assert_eq!(db.message_count(), 1);
    assert_eq!(clear_messages(&call(module(), i64::MIN + RETENTION_MICROS), &mut db, tick()), Ok(()));
    assert_eq!(db.message_count(), 1);
    assert_eq!(
        clear_messages(&call(module(), i64::MIN + RETENTION_MICROS + 1), &mut db, tick()),
        Ok(())
    );
    assert_eq!(db.message_count(), 0);
}

#[test]
fn init_schedules_the_sweep_every_minute() {
    let mut db = Database::new();
    assert_eq!(db.schedule_count(), 0);
    init(&call(module(), 0), &mut db);
    assert_eq!(db.schedule_count(), 1);
    let row = db.find_schedule(1).expect("schedule row");
    assert_eq!(row.scheduled_id, 1);
    assert_eq!(row.scheduled_at, ScheduleAt::Interval(60_000_000));
    assert_eq!(RETENTION_MICROS, 60_000_000);
    assert_eq!(db.user_count(), 0);
}

#[test]
fn disconnect_of_an_unknown_caller_changes_nothing() {
    let mut db = Database::new();
    client_connected(&call(alice(), 1), &mut db);
    assert!(!client_disconnected(&call(bob(), 2), &mut db));
    assert_eq!(db.user_count(), 1);
    assert!(db.find_user(bob()).is_none());
    assert!(db.find_user(alice()).expect("user row").online);
}

#[test]
fn disconnect_keeps_name_and_room() {
    let mut db = Database::new();
    client_connected(&call(alice(), 1), &mut db);
    assert_eq!(set_name(&call(alice(), 2), &mut db, "Alice".to_string()), Ok(()));
    assert_eq!(create_room_with_key(&call(alice(), 3), &mut db, "keepkeep".to_string()), Ok(Some(1)));
    assert!(client_disconnected(&call(alice(), 4), &mut db));
    let user = db.find_user(alice()).expect("user row");
    assert!(!user.online);
    assert_eq!(user.room, Some(1));
    assert_eq!(user.name, Some("Alice".to_string()));
}

#[test]
fn each_failure_has_its_message() {
    assert_eq!(ChatError::UnknownUser.message(), "Unknown user");
    assert_eq!(ChatError::InvalidRoomKey.message(), "Room key is not valid");
    assert_eq!(ChatError::EmptyName.message(), "Names cannot be empty");
    assert_eq!(ChatError::NotInRoom.message(), "User not in a room");
    assert_eq!(
        ChatError::Unauthorized.message(),
        "Reducer `clear_messages` may not be invoked by clients"
    );
    assert_eq!(ChatError::KeysExhausted.message(), "No unused room key was found");
}

#[test]
fn the_context_reports_the_platform_identity() {
    let ctx = call(alice(), 9);
    assert_eq!(ctx.sender, alice());
    assert_eq!(ctx.identity(), module());
    assert_eq!(ctx.timestamp.to_micros_since_unix_epoch(), 9);
    assert_eq!(alice(), Identity { hi: 0, lo: 1 });
    assert_ne!(Identity::from_words(1, 0), Identity::from_words(0, 1));
}
