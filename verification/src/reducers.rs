//! The handlers. Each one is a single atomic step on the tables: it either
//! writes what its rule decides, or refuses and leaves every table as it was.

use crate::database::{Database, DatabaseView};
use crate::platform::{generator_for, is_alphanumeric, random_alphanumeric, recurring_every};
use crate::rules::{
    authorize_sweep, compose, composed, connect, connected, disconnect, disconnected, enter,
    entered, known, payload, place, placed, rename, renamed, require_known, stale_before,
    sweep_allowed, sweep_bound,
};
use crate::types::{
    ChatError, ClearMessagesSchedule, Identity, ReducerContext, ScheduleAt, Timestamp, UserView,
    KEY_ATTEMPTS, RETENTION_MICROS, ROOM_KEY_LEN,
};
use vstd::prelude::*;

verus! {

/// `key` has the shape of a drawn join code.
pub open spec fn is_room_key(key: Seq<char>) -> bool {
    &&& key.len() == ROOM_KEY_LEN
    &&& forall|i: int| 0 <= i < key.len() ==> is_alphanumeric(#[trigger] key[i])
}

/// The tables after `sender` connected.
pub open spec fn after_connect(before: DatabaseView, sender: Identity) -> DatabaseView {
    before.with_user(connected(before.users.get(sender), sender))
}

/// The tables after `sender` disconnected.
pub open spec fn after_disconnect(before: DatabaseView, sender: Identity) -> DatabaseView {
    match disconnected(before.users.get(sender)) {
        Some(user) => before.with_user(user),
        None => before,
    }
}

/// What a decision on the caller's row does: the row is written, or the
/// call is refused and the tables stay.
pub open spec fn after_decision(before: DatabaseView, decision: Result<UserView, ChatError>) -> (
    Result<(), ChatError>,
    DatabaseView,
) {
    match decision {
        Ok(user) => (Ok(()), before.with_user(user)),
        Err(e) => (Err(e), before),
    }
}

/// Outcome and tables after `sender` asked for the display name `name`.
pub open spec fn after_set_name(before: DatabaseView, sender: Identity, name: Seq<char>) -> (
    Result<(), ChatError>,
    DatabaseView,
) {
    after_decision(before, renamed(before.users.get(sender), name))
}

/// Outcome and tables after `sender` asked to join the room with code `key`.
pub open spec fn after_join_room(before: DatabaseView, sender: Identity, key: Seq<char>) -> (
    Result<(), ChatError>,
    DatabaseView,
) {
    after_decision(before, entered(before.users.get(sender), before.room_with_key(key)))
}

/// Outcome and tables after `sender` posted at `now`.
pub open spec fn after_send_message(
    before: DatabaseView,
    sender: Identity,
    now: Timestamp,
    kind: Seq<char>,
    data: Option<Seq<u64>>,
) -> (Result<(), ChatError>, DatabaseView) {
    match composed(before.users.get(sender), sender, now, kind, data) {
        Ok(message) => (Ok(()), before.with_message(message)),
        Err(e) => (Err(e), before),
    }
}

/// Outcome and tables after `sender` tried to open a room under the
/// candidate code `key`: the new room's id, or `None` where the code is taken.
pub open spec fn after_room_attempt(before: DatabaseView, sender: Identity, key: Seq<char>) -> (
    Result<Option<u64>, ChatError>,
    DatabaseView,
) {
    match known(before.users.get(sender)) {
        Ok(user) => if before.has_room_key(key) {
            (Ok(None), before)
        } else {
            (
                Ok(Some(before.next_room_id)),
                before.with_room(key).with_user(placed(user, before.next_room_id)),
            )
        },
        Err(e) => (Err(e), before),
    }
}

/// Outcome and tables after a sweep was asked for in the call `ctx`.
pub open spec fn after_clear_messages(before: DatabaseView, ctx: ReducerContext) -> (
    Result<(), ChatError>,
    DatabaseView,
) {
    if sweep_allowed(ctx) {
        (Ok(()), before.without_messages_before(stale_before(ctx.timestamp)))
    } else {
        (Err(ChatError::Unauthorized), before)
    }
}

/// The tables after the bootstrap.
pub open spec fn after_init(before: DatabaseView) -> DatabaseView {
    before.with_schedule(ScheduleAt::Interval(RETENTION_MICROS))
}

/// One call, with everything besides its context that decides what it writes.
pub enum Request {
    /// The caller connected.
    Connect,
    /// The caller disconnected.
    Disconnect,
    /// The caller asks for the display name `name`.
    SetName { name: Seq<char> },
    /// The caller asks for a new room, and the join code `key` was drawn.
    CreateRoom { key: Seq<char> },
    /// The caller asks to join the room with join code `key`.
    JoinRoom { key: Seq<char> },
    /// The caller posts a message.
    SendMessage { kind: Seq<char>, data: Option<Seq<u64>> },
    /// A sweep is asked for.
    ClearMessages,
    /// The module starts.
    Init,
}

/// The tables after the call `request` was served in the context `ctx`.
pub open spec fn after(before: DatabaseView, ctx: ReducerContext, request: Request) -> DatabaseView {
    match request {
        Request::Connect => after_connect(before, ctx.sender),
        Request::Disconnect => after_disconnect(before, ctx.sender),
        Request::SetName { name } => after_set_name(before, ctx.sender, name).1,
        Request::CreateRoom { key } => after_room_attempt(before, ctx.sender, key).1,
        Request::JoinRoom { key } => after_join_room(before, ctx.sender, key).1,
        Request::SendMessage { kind, data } => after_send_message(
            before,
            ctx.sender,
            ctx.timestamp,
            kind,
            data,
        ).1,
        Request::ClearMessages => after_clear_messages(before, ctx).1,
        Request::Init => after_init(before),
    }
}

/// Sweeps the messages that have outlived the retention window. Only the
/// platform may ask for it.
pub fn clear_messages(ctx: &ReducerContext, db: &mut Database, _arg: ClearMessagesSchedule) -> (outcome:
    Result<(), ChatError>)
    requires
        old(db).wf(),
    ensures
        final(db).wf(),
        outcome == after_clear_messages(old(db)@, *ctx).0,
        final(db)@ == after_clear_messages(old(db)@, *ctx).1,
{
    match authorize_sweep(ctx) {
        Ok(()) => {
            match sweep_bound(ctx.timestamp) {
                Some(bound) => {
                    db.delete_messages_sent_before(bound);
                },
                None => {
                    assert(db@.without_messages_before(stale_before(ctx.timestamp)).messages
                        =~= db@.messages);
                },
            }
            Ok(())
        },
        Err(e) => Err(e),
    }
}

/// Bootstraps the sweep: asks the platform to run it every retention window.
pub fn init(_ctx: &ReducerContext, db: &mut Database)
    requires
        old(db).wf(),
        old(db)@.next_schedule_id < u64::MAX,
    ensures
        final(db).wf(),
        final(db)@ == after_init(old(db)@),
{
    let at = recurring_every(RETENTION_MICROS);
    db.insert_schedule(at);
}

/// Opens a room under the candidate join code `key` and places the caller in
/// it; does nothing where the code is taken.
pub fn create_room_with_key(ctx: &ReducerContext, db: &mut Database, key: String) -> (outcome:
    Result<Option<u64>, ChatError>)
    requires
        old(db).wf(),
        old(db)@.next_room_id < u64::MAX,
    ensures
        final(db).wf(),
        outcome == after_room_attempt(old(db)@, ctx.sender, key@).0,
        final(db)@ == after_room_attempt(old(db)@, ctx.sender, key@).1,
{
    proof {
        db.lemma_view_wf();
    }
    match require_known(db.find_user(ctx.sender)) {
        Ok(user) => match db.try_insert_room(key) {
            Some(room) => {
                db.update_user(place(user, room.id));
                Ok(Some(room.id))
            },
            None => Ok(None),
        },
        Err(e) => Err(e),
    }
}

/// Opens a room under a freshly drawn join code and places the caller in it.
///
/// A drawn code that is taken is drawn again, up to [`KEY_ATTEMPTS`] times.
/// Which code the room gets is left to chance; that it was free, and what is
/// written, is not.
pub fn create_room(ctx: &ReducerContext, db: &mut Database) -> (outcome: Result<(), ChatError>)
    requires
        old(db).wf(),
        old(db)@.next_room_id < u64::MAX,
    ensures
        final(db).wf(),
        match outcome {
            Ok(()) => exists|key: Seq<char>|
                is_room_key(key) && #[trigger] after_room_attempt(old(db)@, ctx.sender, key) == (
                    Ok::<Option<u64>, ChatError>(Some(old(db)@.next_room_id)),
                    final(db)@,
                ),
            Err(e) => final(db)@ == old(db)@ && if old(db)@.users.contains_key(ctx.sender) {
                e == ChatError::KeysExhausted && exists|key: Seq<char>|
                    is_room_key(key) && #[trigger] old(db)@.has_room_key(key)
            } else {
                e == ChatError::UnknownUser
            },
        },
{
    match require_known(db.find_user(ctx.sender)) {
        Ok(_) => {},
        Err(e) => {
            return Err(e);
        },
    }
    let mut rng = generator_for(ctx.timestamp.micros);
    let mut attempt: u32 = 0;
    while attempt < KEY_ATTEMPTS
        invariant
            db.wf(),
            db@ == old(db)@,
            db@.next_room_id < u64::MAX,
            db@.users.contains_key(ctx.sender),
            attempt <= KEY_ATTEMPTS,
            attempt > 0 ==> exists|key: Seq<char>|
                is_room_key(key) && #[trigger] old(db)@.has_room_key(key),
        decreases KEY_ATTEMPTS - attempt,
    {
        let key = random_alphanumeric(&mut rng, ROOM_KEY_LEN);
        let ghost drawn = key@;
        assert(is_room_key(drawn));
        match create_room_with_key(ctx, db, key) {
            Ok(Some(_)) => {
                assert(after_room_attempt(old(db)@, ctx.sender, drawn) == (
                    Ok::<Option<u64>, ChatError>(Some(old(db)@.next_room_id)),
                    db@,
                ));
                return Ok(());
            },
            Ok(None) => {
                assert(old(db)@.has_room_key(drawn));
            },
            Err(e) => {
                return Err(e);
            },
        }
        attempt += 1;
    }
    Err(ChatError::KeysExhausted)
}

/// Places the caller in the room that the join code `room_key` names.
pub fn join_room(ctx: &ReducerContext, db: &mut Database, room_key: String) -> (outcome: Result<
    (),
    ChatError,
>)
    requires
        old(db).wf(),
    ensures
        final(db).wf(),
        outcome == after_join_room(old(db)@, ctx.sender, room_key@).0,
        final(db)@ == after_join_room(old(db)@, ctx.sender, room_key@).1,
{
    proof {
        db.lemma_view_wf();
    }
    let user = db.find_user(ctx.sender);
    let room = db.find_room_by_key(&room_key);
    match enter(user, room) {
        Ok(row) => {
            db.update_user(row);
            Ok(())
        },
        Err(e) => Err(e),
    }
}

/// Gives the caller the display name `name`.
pub fn set_name(ctx: &ReducerContext, db: &mut Database, name: String) -> (outcome: Result<
    (),
    ChatError,
>)
    requires
        old(db).wf(),
    ensures
        final(db).wf(),
        outcome == after_set_name(old(db)@, ctx.sender, name@).0,
        final(db)@ == after_set_name(old(db)@, ctx.sender, name@).1,
{
    proof {
        db.lemma_view_wf();
    }
    match rename(db.find_user(ctx.sender), name) {
        Ok(row) => {
            db.update_user(row);
            Ok(())
        },
        Err(e) => Err(e),
    }
}

/// Posts a message of kind `kind` with payload `data` to the caller's room.
pub fn send_message(
    ctx: &ReducerContext,
    db: &mut Database,
    kind: String,
    data: Option<Vec<u64>>,
) -> (outcome: Result<(), ChatError>)
    requires
        old(db).wf(),
        old(db)@.next_message_id < u64::MAX,
    ensures
        final(db).wf(),
        outcome == after_send_message(
            old(db)@,
            ctx.sender,
            ctx.timestamp,
            kind@,
            payload(data),
        ).0,
        final(db)@ == after_send_message(
            old(db)@,
            ctx.sender,
            ctx.timestamp,
            kind@,
            payload(data),
        ).1,
{
    match compose(db.find_user(ctx.sender), ctx.sender, ctx.timestamp, kind, data) {
        Ok(message) => {
            db.insert_message(message);
            Ok(())
        },
        Err(e) => Err(e),
    }
}

/// Marks the caller online and puts it in the lobby; a caller seen for the
/// first time gets its row.
pub fn client_connected(ctx: &ReducerContext, db: &mut Database)
    requires
        old(db).wf(),
    ensures
        final(db).wf(),
        final(db)@ == after_connect(old(db)@, ctx.sender),
{
    proof {
        db.lemma_view_wf();
    }
    let existing = db.find_user(ctx.sender);
    let returning = existing.is_some();
    let row = connect(existing, ctx.sender);
    if returning {
        db.update_user(row);
    } else {
        db.try_insert_user(row);
    }
}

/// Marks the caller offline. Says whether the caller was known: a
/// disconnect of an unknown caller changes nothing and is worth a warning.
pub fn client_disconnected(ctx: &ReducerContext, db: &mut Database) -> (was_known: bool)
    requires
        old(db).wf(),
    ensures
        final(db).wf(),
        was_known == old(db)@.users.contains_key(ctx.sender),
        final(db)@ == after_disconnect(old(db)@, ctx.sender),
{
    proof {
        db.lemma_view_wf();
    }
    match disconnect(db.find_user(ctx.sender)) {
        Some(row) => {
            db.update_user(row);
            true
        },
        None => false,
    }
}

} // verus!
