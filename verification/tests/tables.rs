use chat_server::{
    ClearMessagesSchedule, Database, Identity, Message, ScheduleAt, Timestamp, User,
};

fn dave() -> Identity {
    Identity::from_words(4, 4)
}

fn user(identity: Identity, name: &str) -> User {
    User { identity, name: Some(name.to_string()), room: None, online: false }
}

fn note(kind: &str, sent: i64) -> Message {
    Message {
        id: 0,
        sender: dave(),
        room: 3,
        sent: Timestamp::from_micros_since_unix_epoch(sent),
        kind: kind.to_string(),
        data: None,
    }
}

#[test]
fn a_new_database_is_empty() {
    let db = Database::new();
    assert_eq!(db.user_count(), 0);
    assert_eq!(db.room_count(), 0);
    assert_eq!(db.message_count(), 0);
    assert_eq!(db.schedule_count(), 0);
    assert!(db.find_user(dave()).is_none());
    assert!(db.find_room(1).is_none());
    assert!(db.find_room_by_key(&String::new()).is_none());
    assert!(db.find_message(1).is_none());
    assert!(db.find_schedule(1).is_none());
}

#[test]
fn one_user_row_per_identity() {
    let mut db = Database::new();
    assert!(db.try_insert_user(user(dave(), "first")));
    assert!(!db.try_insert_user(user(dave(), "second")));
    assert!(db.try_insert_user(user(Identity::from_words(4, 5), "other")));
    assert_eq!(db.user_count(), 2);
    assert_eq!(db.find_user(dave()).expect("user row").name, Some("first".to_string()));
    db.update_user(user(dave(), "third"));
    assert_eq!(db.user_count(), 2);
    assert_eq!(db.find_user(dave()).expect("user row").name, Some("third".to_string()));
    let other = db.find_user(Identity::from_words(4, 5)).expect("user row");
    assert_eq!(other.name, Some("other".to_string()));
}

#[test]
fn one_room_row_per_key() {
    let mut db = Database::new();
    let first = db.try_insert_room("k1".to_string()).expect("room row");
    assert_eq!((first.id, first.key.as_str()), (1, "k1"));
    assert!(db.try_insert_room("k1".to_string()).is_none());
    let second = db.try_insert_room("K1".to_string()).expect("room row");
    assert_eq!((second.id, second.key.as_str()), (2, "K1"));
    assert_eq!(db.room_count(), 2);
    assert_eq!(db.find_room_by_key(&"K1".to_string()).expect("room row").id, 2);
    assert_eq!(db.find_room_by_key(&"k1".to_string()).expect("room row").id, 1);
    assert!(db.find_room_by_key(&"k2".to_string()).is_none());
    assert_eq!(db.find_room(2).expect("room row").key, "K1");
    assert!(db.find_room(0).is_none());
    assert!(db.find_room(3).is_none());
}

#[test]
fn inserted_messages_get_the_next_id() {
    let mut db = Database::new();
    let mut carried = note("a", 10);
    carried.id = 99;
    assert_eq!(db.insert_message(carried), 1);
    assert_eq!(db.insert_message(note("b", 20)), 2);
    assert!(db.find_message(99).is_none());
    let a = db.find_message(1).expect("message row");
    assert_eq!((a.id, a.kind.as_str(), a.sent.micros, a.room, a.sender), (1, "a", 10, 3, dave()));
    assert_eq!(db.find_message(2).expect("message row").kind, "b");
}

#[test]
fn range_delete_removes_what_was_sent_before_the_bound() {
    let mut db = Database::new();
    for (kind, sent) in [("a", 5), ("b", -3), ("c", 7), ("d", 6), ("e", 6), ("f", 100)] {
        db.insert_message(note(kind, sent));
    }
    db.delete_messages_sent_before(Timestamp::from_micros_since_unix_epoch(6));
    assert_eq!(db.message_count(), 4);
    assert!(db.find_message(1).is_none());
    assert!(db.find_message(2).is_none());
    for (id, kind, sent) in [(3u64, "c", 7), (4, "d", 6), (5, "e", 6), (6, "f", 100)] {
        let kept = db.find_message(id).expect("message row");
        assert_eq!((kept.id, kept.kind.as_str(), kept.sent.micros), (id, kind, sent));
    }
    db.delete_messages_sent_before(Timestamp::from_micros_since_unix_epoch(i64::MIN));
    assert_eq!(db.message_count(), 4);
    db.delete_messages_sent_before(Timestamp::from_micros_since_unix_epoch(i64::MAX));
    assert_eq!(db.message_count(), 0);
    assert_eq!(db.insert_message(note("g", 1)), 7);
}

#[test]
fn schedule_rows_get_the_next_id() {
    let mut db = Database::new();
    assert_eq!(db.insert_schedule(ScheduleAt::Interval(5)), 1);
    let once = ScheduleAt::Time(Timestamp::from_micros_since_unix_epoch(77));
    assert_eq!(db.insert_schedule(once), 2);
    assert_eq!(db.schedule_count(), 2);
    assert_eq!(
        db.find_schedule(1),
        Some(ClearMessagesSchedule { scheduled_id: 1, scheduled_at: ScheduleAt::Interval(5) })
    );
    assert_eq!(db.find_schedule(2).expect("schedule row").scheduled_at, once);
    assert!(db.find_schedule(3).is_none());
}
