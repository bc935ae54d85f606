use chat_server::rules::{
    authorize_sweep, compose, connect, disconnect, enter, is_expired, place, rename,
    require_known, sweep_bound,
};
use chat_server::{ChatError, Identity, ReducerContext, Room, Timestamp, User};

fn carol() -> Identity {
    Identity::from_words(3, 3)
}

fn at(micros: i64) -> Timestamp {
    Timestamp::from_micros_since_unix_epoch(micros)
}

fn row(name: Option<&str>, room: Option<u64>, online: bool) -> User {
    User { identity: carol(), name: name.map(|n| n.to_string()), room, online }
}

fn same(a: &User, b: &User) -> bool {
    a.identity == b.identity && a.name == b.name && a.room == b.room && a.online == b.online
}

#[test]
fn connect_decides_the_row() {
    assert!(same(&connect(None, carol()), &row(None, Some(0), true)));
    let back = connect(Some(row(Some("Carol"), Some(9), false)), carol());
    assert!(same(&back, &row(Some("Carol"), Some(0), true)));
    let roomless = connect(Some(row(None, None, true)), carol());
    assert!(same(&roomless, &row(None, Some(0), true)));
}

#[test]
fn disconnect_decides_the_row() {
    assert!(disconnect(None).is_none());
    let gone = disconnect(Some(row(Some("Carol"), Some(9), true))).expect("row");
    assert!(same(&gone, &row(Some("Carol"), Some(9), false)));
}

#[test]
fn require_known_refuses_a_missing_row() {
    assert_eq!(require_known(None).err(), Some(ChatError::UnknownUser));
    let user = require_known(Some(row(None, Some(4), true))).expect("row");
    assert!(same(&user, &row(None, Some(4), true)));
}

#[test]
fn rename_checks_the_name_before_the_caller() {
    assert_eq!(rename(None, String::new()).err(), Some(ChatError::EmptyName));
    assert_eq!(rename(Some(row(None, None, true)), String::new()).err(), Some(ChatError::EmptyName));
    assert_eq!(rename(None, "x".to_string()).err(), Some(ChatError::UnknownUser));
    let named = rename(Some(row(Some("old"), Some(2), false)), " ".to_string()).expect("row");
    assert!(same(&named, &row(Some(" "), Some(2), false)));
}

#[test]
fn enter_checks_the_caller_before_the_room() {
    let room = || Room { id: 12, key: "abcdefgh".to_string() };
    assert_eq!(enter(None, None).err(), Some(ChatError::UnknownUser));
    assert_eq!(enter(None, Some(room())).err(), Some(ChatError::UnknownUser));
    assert_eq!(enter(Some(row(None, Some(0), true)), None).err(), Some(ChatError::InvalidRoomKey));
    let moved = enter(Some(row(Some("Carol"), Some(0), true)), Some(room())).expect("row");
    assert!(same(&moved, &row(Some("Carol"), Some(12), true)));
    assert!(same(&place(row(None, None, false), 5), &row(None, Some(5), false)));
}

#[test]
fn compose_addresses_the_callers_room() {
    let refused = compose(None, carol(), at(1), "k".to_string(), None);
    assert_eq!(refused.err(), Some(ChatError::UnknownUser));
    let refused = compose(Some(row(None, None, true)), carol(), at(1), "k".to_string(), None);
    assert_eq!(refused.err(), Some(ChatError::NotInRoom));
    let message = compose(
        Some(row(None, Some(8), true)),
        carol(),
        at(123),
        "k".to_string(),
        Some(vec![2.5f64.to_bits()]),
    )
    .expect("message");
    assert_eq!(message.id, 0);
    assert_eq!(message.sender, carol());
    assert_eq!(message.room, 8);
    assert_eq!(message.sent, at(123));
    assert_eq!(message.kind, "k");
    assert_eq!(message.data, Some(vec![0x4004_0000_0000_0000]));
}

#[test]
fn only_the_platform_may_sweep() {
    let platform = Identity::from_words(9, 9);
    assert_eq!(authorize_sweep(&ReducerContext::new(platform, at(0), platform)), Ok(()));
    assert_eq!(
        authorize_sweep(&ReducerContext::new(carol(), at(0), platform)),
        Err(ChatError::Unauthorized)
    );
    assert_eq!(
        authorize_sweep(&ReducerContext::new(Identity::from_words(9, 8), at(0), platform)),
        Err(ChatError::Unauthorized)
    );
}

#[test]
fn the_bound_is_sixty_seconds_back() {
    assert_eq!(sweep_bound(at(100_000_000)), Some(at(40_000_000)));
    assert_eq!(sweep_bound(at(0)), Some(at(-60_000_000)));
    assert_eq!(sweep_bound(at(i64::MAX)), Some(at(i64::MAX - 60_000_000)));
    assert_eq!(sweep_bound(at(i64::MIN + 60_000_000)), Some(at(i64::MIN)));
    assert_eq!(sweep_bound(at(i64::MIN + 59_999_999)), None);
    assert_eq!(sweep_bound(at(i64::MIN)), None);
}

#[test]
fn a_message_expires_strictly_after_sixty_seconds() {
    assert!(!is_expired(at(40_000_000), at(100_000_000)));
    assert!(is_expired(at(39_999_999), at(100_000_000)));
    assert!(!is_expired(at(100_000_001), at(100_000_000)));
    assert!(is_expired(at(0), at(61_000_000)));
    assert!(!is_expired(at(i64::MIN), at(i64::MIN + 5)));
    assert!(is_expired(at(i64::MIN), at(i64::MIN + 60_000_001)));
}
