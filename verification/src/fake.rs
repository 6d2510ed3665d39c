//! A pinger that makes up its replies, for trying a front end without a network.

use vstd::prelude::*;
use crate::decimal::{decimal_chars, decimal_text};
use crate::text::owned;
use crate::{PingCreationError, PingOptions, PingResult};

verus! {

/// A pinger that reports made-up replies, one per interval.
pub struct FakePinger {
    options: PingOptions,
}

/// The asynchronous counterpart of [`FakePinger`].
pub struct FakeAsyncPinger {
    options: PingOptions,
}

/// The lowest made-up round-trip time, in milliseconds.
pub const FAKE_MIN_MILLIS: u64 = 50;

/// One past the highest made-up round-trip time, in milliseconds.
pub const FAKE_END_MILLIS: u64 = 150;

/// Draws a number in `low..high` by calling `rand::Rng::random_range` on
/// `rand::rng()`. The crate documents that the draw falls inside the range
/// (and panics on an empty one, which `requires` rules out); nothing more is
/// stated, the draw being random.
#[verifier::external_body]
fn random_in_range(low: u64, high: u64) -> (r: u64)
    requires
        low < high,
    ensures
        low <= r < high,
{
    rand::Rng::random_range(&mut rand::rng(), low..high)
}

/// The line of a made-up reply: `Fake ping line: <millis> ms`.
pub open spec fn fake_line(millis: u64) -> Seq<char> {
    "Fake ping line: "@ + decimal_chars(millis as nat) + " ms"@
}

/// The made-up reply for a round-trip time of `millis` milliseconds.
pub open spec fn is_fake_pong(r: PingResult, millis: u64) -> bool {
    r matches PingResult::Pong(n, l) && n == millis as u128 * 1_000_000 && l@ == fake_line(millis)
}

/// The made-up reply for a round-trip time of `millis` milliseconds.
pub fn fake_pong(millis: u64) -> (r: PingResult)
    ensures
        is_fake_pong(r, millis),
{
    let mut line = owned("Fake ping line: ");
    let digits = decimal_text(millis);
    line.push_str(digits.as_str());
    line.push_str(" ms");
    PingResult::Pong(millis as u128 * 1_000_000, line)
}

/// The next made-up reply, with a random round-trip time from 50 to 149
/// milliseconds.
pub fn next_fake_result() -> (r: PingResult)
    ensures
        exists|millis: u64| FAKE_MIN_MILLIS <= millis < FAKE_END_MILLIS && #[trigger] is_fake_pong(r, millis),
{
    let millis = random_in_range(FAKE_MIN_MILLIS, FAKE_END_MILLIS);
    fake_pong(millis)
}

impl FakePinger {
    /// The options the pinger runs under.
    pub closed spec fn spec_options(self) -> PingOptions {
        self.options
    }

    /// Create a pinger from options; this always succeeds.
    pub fn from_options(options: PingOptions) -> (r: Result<Self, PingCreationError>)
        ensures
            r matches Ok(p) && p.spec_options() == options,
    {
        Ok(FakePinger { options })
    }

    /// The options the pinger runs under.
    pub fn options(&self) -> (r: &PingOptions)
        ensures
            *r == self.spec_options(),
    {
        &self.options
    }
}

impl FakeAsyncPinger {
    /// The options the pinger runs under.
    pub closed spec fn spec_options(self) -> PingOptions {
        self.options
    }

    /// Create a pinger from options; this always succeeds.
    pub fn from_options(options: PingOptions) -> (r: Result<Self, PingCreationError>)
        ensures
            r matches Ok(p) && p.spec_options() == options,
    {
        Ok(FakeAsyncPinger { options })
    }

    /// The options the pinger runs under.
    pub fn options(&self) -> (r: &PingOptions)
        ensures
            *r == self.spec_options(),
    {
        &self.options
    }
}

} // verus!
