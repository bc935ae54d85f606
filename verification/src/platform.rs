//! Calls into the hosting platform's crates.
//!
//! Nothing in this file is proved: each contract records what the called
//! function is documented to do.

use spacetimedb::rand::distributions::Alphanumeric;
use spacetimedb::rand::rngs::StdRng;
use spacetimedb::rand::Rng;
use crate::types::{ScheduleAt, Timestamp};
use spacetimedb::rand::SeedableRng;
use vstd::prelude::*;

verus! {

/// The generator behind the platform's per-call random source.
#[verifier::external_type_specification]
#[verifier::external_body]
pub struct ExStdRng(StdRng);

/// Whether `c` is an ASCII letter or digit.
pub open spec fn is_alphanumeric(c: char) -> bool {
    let n = c as u32;
    ||| 48 <= n <= 57
    ||| 65 <= n <= 90
    ||| 97 <= n <= 122
}

/// `spacetimedb::Timestamp::checked_sub`, on microsecond counts: the instant
/// `span` microseconds before `instant`, or `None` when that instant cannot be
/// held in 64 bits.
#[verifier::external_body]
pub(crate) fn instant_before(instant: i64, span: i64) -> (earlier: Option<i64>)
    ensures
        i64::MIN <= instant - span <= i64::MAX ==> earlier == Some((instant - span) as i64),
        !(i64::MIN <= instant - span <= i64::MAX) ==> earlier.is_none(),
{
    spacetimedb::Timestamp::from_micros_since_unix_epoch(instant)
        .checked_sub(spacetimedb::TimeDuration::from_micros(span))
        .map(spacetimedb::Timestamp::to_micros_since_unix_epoch)
}

/// `StdRng::seed_from_u64`, fed the microsecond count of the call's instant as
/// the platform feeds it. Nothing is claimed of the generator.
#[verifier::external_body]
pub(crate) fn generator_for(instant: i64) -> StdRng {
    StdRng::seed_from_u64(instant as u64)
}

/// `Rng::sample_iter` over `Alphanumeric`, cut off after `len` samples and
/// collected: every outcome has `len` characters, each an ASCII letter or
/// digit. Which ones is left open. A text longer than `isize::MAX` bytes
/// cannot be allocated, so such a `len` is not asked for.
#[verifier::external_body]
pub(crate) fn random_alphanumeric(rng: &mut StdRng, len: usize) -> (text: String)
    requires
        len <= isize::MAX,
    ensures
        text@.len() == len,
        forall|i: int| 0 <= i < len ==> is_alphanumeric(#[trigger] text@[i]),
{
    rng.sample_iter(Alphanumeric).take(len).map(char::from).collect()
}

/// `ScheduleAt::from` on a `TimeDuration` of `period` microseconds: the
/// schedule that recurs every `period` microseconds.
#[verifier::external_body]
pub(crate) fn recurring_every(period: i64) -> (at: ScheduleAt)
    ensures
        at == ScheduleAt::Interval(period),
{
    match spacetimedb::ScheduleAt::from(spacetimedb::TimeDuration::from_micros(period)) {
        spacetimedb::ScheduleAt::Interval(span) => ScheduleAt::Interval(span.to_micros()),
        spacetimedb::ScheduleAt::Time(instant) => ScheduleAt::Time(
            Timestamp { micros: instant.to_micros_since_unix_epoch() },
        ),
    }
}

} // verus!
