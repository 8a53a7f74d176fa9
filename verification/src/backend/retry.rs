//! Asking again when a backend limits its rate.
use std::time::Duration;

use tokio_retry2::strategy::ExponentialBackoff;
use vstd::arithmetic::power::{lemma_pow0, lemma_pow1, lemma_pow_increases, pow};
use vstd::prelude::*;

use crate::backend::error::{Error, ErrorView};
use crate::backend::request::LlmBackend;
use crate::backend::wire::{HttpRequest, HttpView};
use crate::text::{contains_text, occurs};
use crate::types::{Message, MessageView, RequestConfig, RequestView};

verus! {

/// The delay before the first repetition.
const INITIAL_DELAY_MS: u64 = 1_000;

/// The longest delay.
const MAX_DELAY_MS: u64 = 60_000;

/// How often a request is repeated.
const MAX_RETRIES: usize = 5;

/// Whether an error says that the rate is limited.
pub open spec fn rate_limited(err: ErrorView) -> bool {
    occurs(err.words(), "429"@)
}

/// Whether an error says that the rate is limited: the status 429 is in its words.
pub fn is_rate_limit_error(err: &Error) -> (r: bool)
    ensures
        r == rate_limited(err@),
{
    contains_text(err.message().as_str(), "429")
}

/// `tokio_retry2::strategy::ExponentialBackoff`: the first `count` delays, in milliseconds, of
/// the strategy that `from_millis(base)` with `max_delay(max_delay)` yields. The `i`-th is the
/// power `i + 1` of `base`, or `max_delay` where that is less.
#[verifier::external_body]
fn backoff_millis(base: u64, max_delay: u64, count: usize) -> (r: Vec<u64>)
    ensures
        r@.len() == count,
        forall|i: int|
            0 <= i < count ==> #[trigger] r@[i] == if pow(base as int, (i + 1) as nat)
                <= max_delay {
                pow(base as int, (i + 1) as nat)
            } else {
                max_delay as int
            },
{
    let strategy = ExponentialBackoff::from_millis(base).max_delay(Duration::from_millis(max_delay));
    strategy.take(count).map(|d| d.as_millis() as u64).collect()
}

/// The delays before the repetitions, in milliseconds, before they are varied at random. As many
/// failures are made good as there are delays.
pub fn rate_limit_delays() -> (r: Vec<u64>)
    ensures
        r@ == seq![1_000u64, 60_000u64, 60_000u64, 60_000u64, 60_000u64],
{
    let r = backoff_millis(INITIAL_DELAY_MS, MAX_DELAY_MS, MAX_RETRIES);
    proof {
        lemma_pow1(1_000);
        assert forall|n: nat| n >= 2 implies #[trigger] pow(1_000, n) > 60_000 by {
            lemma_pow0(1_000);
            reveal_with_fuel(pow, 3);
            assert(pow(1_000, 2) == 1_000_000);
            lemma_pow_increases(1_000, 2, n);
        }
        assert(r@ =~= seq![1_000u64, 60_000u64, 60_000u64, 60_000u64, 60_000u64]);
    }
    r
}

/// A backend that is asked again while it limits its rate.
#[derive(Debug, PartialEq, Eq)]
pub struct RetryBackend<B: LlmBackend> {
    pub inner: B,
}

impl<B: LlmBackend> RetryBackend<B> {
    /// A backend around another.
    pub fn new(inner: B) -> (r: RetryBackend<B>)
        ensures
            r.inner == inner,
    {
        RetryBackend { inner }
    }
}

impl<B: LlmBackend> LlmBackend for RetryBackend<B> {
    open spec fn request(&self, messages: Seq<MessageView>, config: RequestView) -> Result<
        HttpView,
        ErrorView,
    > {
        self.inner.request(messages, config)
    }

    fn request_for(&self, messages: &[Message], config: &RequestConfig) -> (r: Result<
        HttpRequest,
        Error,
    >) {
        self.inner.request_for(messages, config)
    }
}

} // verus!
