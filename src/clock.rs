use vstd::prelude::*;
use crate::text::{append_digits, append_hex_padded, digits_in_base, hex_padded};

verus! {

/// Relies on `rand::random`: a value drawn from the thread-local generator;
/// nothing is promised of it.
pub assume_specification<T>[ rand::random::<T> ]() -> (r: T)
    where
        rand::distributions::Standard: rand::distributions::Distribution<T>,
;

/// Relies on `std::time::SystemTime::now`: the time elapsed since the Unix
/// epoch in nanoseconds (zero for a clock set before the epoch); nothing is
/// promised of the value.
#[verifier::external_body]
fn epoch_nanos() -> (r: u128) {
    std::time::SystemTime::now()
        .duration_since(std::time::UNIX_EPOCH)
        .unwrap_or_default()
        .as_nanos()
}

/// Whole milliseconds in `nanos` nanoseconds, truncated to 64 bits.
pub open spec fn millis_of(nanos: u128) -> i64 {
    (nanos / 1_000_000) as i64
}

/// Whole milliseconds in `nanos` nanoseconds, truncated to 64 bits.
pub fn millis_from_nanos(nanos: u128) -> (r: i64)
    ensures
        r == millis_of(nanos),
{
    (nanos / 1_000_000) as i64
}

/// The current time in milliseconds since the Unix epoch.
pub fn now_ms() -> (r: i64)
    ensures
        exists|n: u128| r == #[trigger] millis_of(n),
{
    let n = epoch_nanos();
    millis_from_nanos(n)
}

/// The current time in whole seconds since the Unix epoch, held at the
/// largest `i64`.
pub fn now_secs() -> (r: i64)
    ensures
        r >= 0,
{
    let secs = epoch_nanos() / 1_000_000_000;
    if secs > i64::MAX as u128 {
        i64::MAX
    } else {
        secs as i64
    }
}

/// The text of an identifier: the time in hexadecimal, then eight
/// hexadecimal digits of the random part.
pub open spec fn id_text(nanos: nat, random: nat) -> Seq<char> {
    digits_in_base(nanos, 16) + hex_padded(random, 8)
}

/// An identifier made of a time stamp in nanoseconds and a random number.
pub fn format_id(nanos: u128, random: u32) -> (r: String)
    ensures
        r@ == id_text(nanos as nat, random as nat),
{
    let mut s = String::new();
    append_digits(&mut s, nanos, 16);
    append_hex_padded(&mut s, random as u128, 8);
    assert(s@ =~= id_text(nanos as nat, random as nat));
    s
}

/// A fresh identifier from the current time and a random number.
pub fn generate_id() -> (r: String)
    ensures
        exists|n: nat, k: nat| r@ == #[trigger] id_text(n, k),
{
    let nanos = epoch_nanos();
    let random: u32 = rand::random();
    format_id(nanos, random)
}

} // verus!
