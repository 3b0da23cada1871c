//! Fresh identifiers and the wall clock.
use vstd::prelude::*;

verus! {

/// A version-4 identifier: the four version bits (76 to 79) read 4 and the
/// two variant bits (62 and 63) read binary 10.
pub open spec fn is_v4_uuid(id: u128) -> bool {
    (id / 0x1000_0000_0000_0000_0000) % 16 == 4 && (id / 0x4000_0000_0000_0000) % 4 == 2
}

/// A fresh random identifier, as the 128-bit value of `uuid::Uuid::new_v4()`.
/// Trusted: the value is random; of every outcome it is stated only that it
/// carries the version-4 and RFC 4122 variant bits that `new_v4` sets.
#[verifier::external_body]
pub fn new_uuid() -> (id: u128)
    ensures
        is_v4_uuid(id),
{
    uuid::Uuid::new_v4().as_u128()
}

/// The lowercase hexadecimal digit for `n < 16`.
pub open spec fn hex_digit(n: int) -> char {
    if n < 10 { ((48 + n) as u8) as char } else { ((87 + n) as u8) as char }
}

/// The `k`-th of the 32 hexadecimal digits of an identifier, most significant first.
pub open spec fn uuid_nibble(id: u128, k: int) -> int {
    (id as int / vstd::arithmetic::power::pow(16, (31 - k) as nat)) % 16
}

/// The hyphenated text of an identifier: 36 characters, `-` at positions
/// 8, 13, 18 and 23, and the 32 lowercase hexadecimal digits in between.
pub open spec fn uuid_text(id: u128) -> Seq<char> {
    Seq::new(
        36,
        |i: int|
            if i == 8 || i == 13 || i == 18 || i == 23 {
                '-'
            } else {
                let k = if i < 8 { i } else if i < 13 { i - 1 } else if i < 18 { i - 2 } else if i < 23 { i - 3 } else { i - 4 };
                hex_digit(uuid_nibble(id, k))
            },
    )
}

/// The text of an identifier as `uuid::Uuid::from_u128(id).to_string()` gives
/// it. Trusted: the uuid crate's `Display` writes the hyphenated lowercase form
/// stated by `uuid_text`.
#[verifier::external_body]
pub fn format_uuid(id: u128) -> (r: String)
    ensures
        r@ == uuid_text(id),
{
    uuid::Uuid::from_u128(id).to_string()
}

/// A version-4 identifier is never zero (the nil identifier).
pub proof fn lemma_v4_not_nil(id: u128)
    requires
        is_v4_uuid(id),
    ensures
        id != 0,
{
}

/// A reading of the clock: true of every moment. It names, in a contract,
/// the moment at which a clock-reading operation took effect.
pub open spec fn clock_reading(now: i64) -> bool {
    true
}

/// The current time in milliseconds since the Unix epoch
/// (`chrono::Utc::now().timestamp_millis()`).
/// Trusted: the value depends on the clock; of every outcome it is stated only
/// that it lies within the range a `DateTime<Utc>` can hold, counted in
/// milliseconds (whole seconds times 1000, plus up to 1999 milliseconds
/// within a leap second).
#[verifier::external_body]
pub fn now_millis() -> (t: i64)
    ensures
        -8_334_601_315_200_000 <= t <= 8_210_266_876_800_999,
{
    chrono::Utc::now().timestamp_millis()
}

/// The earliest and latest Unix timestamps (in seconds) that chrono's
/// `DateTime<Utc>` can hold: the start of year -262143 and the last second
/// of year 262142.
pub open spec fn timestamp_in_range(t: int) -> bool {
    -8_334_601_315_200 <= t <= 8_210_266_876_799
}

/// The current time in whole seconds since the Unix epoch
/// (`chrono::Utc::now().timestamp()`).
/// Trusted: the value depends on the clock; of every outcome it is stated only
/// that it lies in the range a `DateTime<Utc>` can hold.
#[verifier::external_body]
pub fn now_seconds() -> (t: i64)
    ensures
        timestamp_in_range(t as int),
{
    chrono::Utc::now().timestamp()
}

/// Whole seconds elapsed from `earlier` to `later` (both in milliseconds),
/// rounded toward zero as a duration's `num_seconds` is.
pub open spec fn seconds_between(later: i64, earlier: i64) -> int {
    let d = later - earlier;
    if d >= 0 { d / 1000 } else { -((-d) / 1000) }
}

/// Whole seconds elapsed from `earlier` to `later`, rounded toward zero.
pub fn elapsed_seconds(later: i64, earlier: i64) -> (r: i64)
    ensures
        r == seconds_between(later, earlier),
{
    let d: i128 = later as i128 - earlier as i128;
    let s: i128 = if d >= 0 { d / 1000 } else { -((-d) / 1000) };
    s as i64
}

/// A random index below `n`, as `rand::thread_rng().gen_range(0..n)` draws it.
/// Trusted: the value is random; of every outcome it is stated only that it is below `n`.
#[verifier::external_body]
pub(crate) fn random_index(n: usize) -> (r: usize)
    requires
        n > 0,
    ensures
        r < n,
{
    rand::Rng::gen_range(&mut rand::thread_rng(), 0..n)
}

} // verus!
