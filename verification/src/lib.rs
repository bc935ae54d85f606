//! Verified reducers of a multi-room chat and presence module.
//!
//! The shared tables are modelled by [`Database`]; every handler is one atomic
//! step on it, driven by the caller and the time carried in a
//! [`ReducerContext`]. The row-by-row decisions behind the handlers are in
//! [`rules`], and what holds of the handlers on every input is in [`laws`].

pub mod database;
pub mod laws;
pub mod platform;
pub mod reducers;
pub mod rules;
pub mod table;
pub mod types;

pub use database::Database;
pub use reducers::{
    clear_messages, client_connected, client_disconnected, create_room, create_room_with_key,
    init, join_room, send_message, set_name,
};
pub use types::{
    ChatError, ClearMessagesSchedule, Identity, Message, ReducerContext, Room, ScheduleAt,
    Timestamp, User, KEY_ATTEMPTS, LOBBY, RETENTION_MICROS, ROOM_KEY_LEN,
};
