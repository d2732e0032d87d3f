use vstd::prelude::*;
use rand::Rng;

verus! {

/// Draws a number from `low` up to, but not including, `high`, through
/// `rand::Rng::gen_range` on the thread's generator. The contract claims only
/// that the number lies in the range; `gen_range` panics on an empty range,
/// which `requires` leaves out.
#[verifier::external_body]
pub(crate) fn random_in_range(low: u32, high: u32) -> (r: u32)
    requires
        low < high,
    ensures
        low <= r < high,
{
    rand::thread_rng().gen_range(low..high)
}

/// Decides with the chance `numerator / denominator`, through
/// `rand::Rng::gen_ratio` on the thread's generator. Nothing is claimed of
/// the outcome; `gen_ratio` panics on a zero denominator and on a chance
/// above one, which `requires` leaves out.
#[verifier::external_body]
pub(crate) fn random_ratio(numerator: u32, denominator: u32) -> (r: bool)
    requires
        0 < denominator,
        numerator <= denominator,
{
    rand::thread_rng().gen_ratio(numerator, denominator)
}

/// Draws a number with `rand::Rng::gen` on the thread's generator. Nothing
/// is claimed of it.
#[verifier::external_body]
pub(crate) fn random_u32() -> (r: u32) {
    rand::thread_rng().gen::<u32>()
}

/// Draws one number for each of `n` choices to come.
pub(crate) fn random_picks(n: usize) -> (picks: Vec<u32>)
    ensures
        picks@.len() == n,
{
    let mut picks: Vec<u32> = Vec::new();
    let mut i: usize = 0;
    while i < n
        invariant
            i <= n,
            picks@.len() == i,
        decreases n - i,
    {
        picks.push(random_u32());
        i = i + 1;
    }
    picks
}

/// Decides for each of `n` channels, each time with a chance of one in ten.
pub(crate) fn random_flags(n: u8) -> (flags: Vec<bool>)
    ensures
        flags@.len() == n,
{
    let mut flags: Vec<bool> = Vec::new();
    let mut i: u8 = 0;
    while i < n
        invariant
            i <= n,
            flags@.len() == i,
        decreases n - i,
    {
        flags.push(random_ratio(1, 10));
        i = i + 1;
    }
    flags
}

} // verus!
