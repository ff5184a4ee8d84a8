//! What the library takes from its surroundings: fresh random identifiers and
//! the wall clock. Nothing fixes these values; their contracts say what holds
//! of every value they can give.
use std::time::{Duration, SystemTime, SystemTimeError, UNIX_EPOCH};
use vstd::prelude::*;

verus! {

#[verifier::external_type_specification]
#[verifier::external_body]
pub struct ExSystemTime(SystemTime);

#[verifier::external_type_specification]
#[verifier::external_body]
pub struct ExSystemTimeError(SystemTimeError);

pub open spec fn is_lower_hex(c: char) -> bool {
    (48 <= c as u32 <= 57) || (97 <= c as u32 <= 102)
}

/// `s` has the shape of a random (version 4) UUID written in lowercase
/// hyphenated form, such as `67e55044-10b1-426f-9247-bb680e5fe0c8`.
pub open spec fn is_uuid_v4_text(s: Seq<char>) -> bool {
    &&& s.len() == 36
    &&& forall|i: int|
        0 <= i < 36 ==> if i == 8 || i == 13 || i == 18 || i == 23 {
            #[trigger] s[i] == '-'
        } else {
            is_lower_hex(s[i])
        }
    &&& s[14] == '4'
    &&& (s[19] == '8' || s[19] == '9' || s[19] == 'a' || s[19] == 'b')
}

/// `uuid::Uuid::new_v4` written out with `to_string`: a fresh random UUID whose
/// version nibble is 4 and whose variant bits are `10`, printed by its `Display`
/// impl as 32 lowercase hex digits in groups of 8-4-4-4-12. Which bits are random
/// is not stated.
#[verifier::external_body]
pub(crate) fn new_uuid_string() -> (s: String)
    ensures
        is_uuid_v4_text(s@),
{
    uuid::Uuid::new_v4().to_string()
}

/// `SystemTime::now`: the current wall-clock time. Nothing is stated of it.
#[verifier::external_body]
fn system_now() -> SystemTime {
    SystemTime::now()
}

/// `SystemTime::duration_since(UNIX_EPOCH)`: how long after the Unix epoch the
/// time lies, or an error for a time before it. Nothing is stated of the amount.
#[verifier::external_body]
fn since_unix_epoch(t: &SystemTime) -> Result<Duration, SystemTimeError> {
    t.duration_since(UNIX_EPOCH)
}

/// `Duration::as_secs`: the whole seconds of a duration. Nothing is stated of them.
#[verifier::external_body]
fn whole_secs(d: &Duration) -> u64 {
    d.as_secs()
}

/// The seconds that a clock reading gives: the whole seconds since the Unix
/// epoch where the clock reads a time after it, and 0 where it reads a time
/// before it (`None`).
pub fn secs_or_zero(reading: Option<u64>) -> (s: u64)
    ensures
        match reading {
            Some(n) => s == n,
            None => s == 0,
        },
{
    match reading {
        Some(n) => n,
        None => 0,
    }
}

/// The current time in whole seconds since the Unix epoch, or 0 where the
/// clock reads a time before the epoch, as `secs_or_zero` decides. The reading
/// itself rests on the clock alone, so no contract states it.
pub fn unix_time_secs() -> u64 {
    let reading = match since_unix_epoch(&system_now()) {
        Ok(d) => Some(whole_secs(&d)),
        Err(_) => None,
    };
    secs_or_zero(reading)
}

} // verus!
