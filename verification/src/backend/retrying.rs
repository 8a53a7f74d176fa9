//! Asking again when a backend fails in a way that may pass.
use vstd::arithmetic::power2::{lemma_pow2_strictly_increases, lemma2_to64, pow2};
use vstd::bits::lemma_u64_shl_is_mul;
use vstd::prelude::*;

use crate::backend::error::{Error, ErrorView};
use crate::backend::factory::Backend;
use crate::config::RetryConfig;
use crate::text::{decimal, push_decimal};

verus! {

/// The delay before the repetition that follows failure number `attempt`, before it is varied:
/// it doubles each time, twenty times at most, and never exceeds the longest delay.
pub open spec fn plain_delay(config: RetryConfig, attempt: nat) -> int {
    let doublings = if attempt <= 20 {
        attempt
    } else {
        20
    };
    let grown = config.initial_delay_ms * pow2(doublings);
    if grown <= config.max_delay_ms {
        grown
    } else {
        config.max_delay_ms as int
    }
}

/// How much a delay is lengthened, for a random number.
pub open spec fn jitter_of(delay: int, random: u64) -> int {
    let product = delay * random;
    (if product <= u64::MAX {
        product
    } else {
        u64::MAX as int
    }) / (u64::MAX as int / 4)
}

/// The delay before the repetition that follows failure number `attempt`, for a random number.
pub open spec fn delay_ms(config: RetryConfig, attempt: nat, random: u64) -> int {
    let plain = plain_delay(config, attempt);
    let sum = plain + jitter_of(plain, random);
    if sum <= u64::MAX {
        sum
    } else {
        u64::MAX as int
    }
}

/// Whether failure number `attempt`, counted from 0, is followed by a repetition.
pub open spec fn asks_again(config: RetryConfig, attempt: nat, error: ErrorView) -> bool {
    error.retryable() && attempt < config.max_retries
}

/// What is logged before a repetition.
pub open spec fn retry_warning(config: RetryConfig, attempt: nat, delay: nat) -> Seq<char> {
    "Backend returned retryable error (attempt "@ + decimal(attempt + 1) + "/"@ + decimal(
        config.max_retries as nat,
    ) + "); retrying in "@ + decimal(delay) + "ms"@
}

/// What follows a failure.
#[derive(Debug, PartialEq, Eq)]
pub enum AfterFailure {
    /// The error is handed on.
    GiveUp(Error),
    /// After a delay the backend is asked again.
    AskAgain { error: Error, delay_ms: u64, warning: String },
}

/// The least of a product and the largest number.
fn saturating_product(a: u64, b: u64) -> (r: u64)
    ensures
        r == if a * b <= u64::MAX {
            a * b
        } else {
            u64::MAX as int
        },
{
    match a.checked_mul(b) {
        Some(p) => p,
        None => u64::MAX,
    }
}

/// The next number of a sequence that looks random.
pub open spec fn xorshift(state: u64) -> u64 {
    let a = state ^ (state << 13u64);
    let b = a ^ (a >> 7u64);
    b ^ (b << 17u64)
}

/// The next number of a sequence that looks random.
pub fn next_random(state: u64) -> (r: u64)
    ensures
        r == xorshift(state),
{
    let a: u64 = state ^ (state << 13u64);
    let b: u64 = a ^ (a >> 7u64);
    b ^ (b << 17u64)
}

/// The number with which such a sequence begins, from the time in nanoseconds.
pub fn random_seed(nanos: Option<u64>) -> (r: u64)
    ensures
        r == (match nanos {
            Some(n) => n as int,
            None => 0xDEADBEEF,
        } * 0x2545F4914F6CDD1D) % 0x1_0000_0000_0000_0000,
{
    let n: u64 = match nanos {
        Some(n) => n,
        None => 0xDEADBEEF,
    };
    n.wrapping_mul(0x2545F4914F6CDD1D)
}

/// A backend that is asked again when it fails in a way that may pass.
#[derive(Debug, PartialEq, Eq)]
pub struct RetryingBackend {
    pub inner: Backend,
    pub config: RetryConfig,
}

impl RetryingBackend {
    /// A backend around another.
    pub fn new(inner: Backend, config: RetryConfig) -> (r: RetryingBackend)
        ensures
            r.inner == inner,
            r.config == config,
    {
        RetryingBackend { inner, config }
    }

    /// The delay before the repetition that follows failure number `attempt`, in milliseconds,
    /// for a random number.
    pub fn next_delay(&self, attempt: u32, random: u64) -> (r: u64)
        ensures
            r == delay_ms(self.config, attempt as nat, random),
    {
        let shift: u64 = if attempt <= 20 {
            attempt as u64
        } else {
            20
        };
        proof {
            lemma2_to64();
            if shift < 20 {
                lemma_pow2_strictly_increases(shift as nat, 20);
            }
            lemma_u64_shl_is_mul(1, shift);
        }
        let multiplier: u64 = 1u64 << shift;
        let base: u64 = saturating_product(self.config.initial_delay_ms, multiplier);
        let capped: u64 = if base <= self.config.max_delay_ms {
            base
        } else {
            self.config.max_delay_ms
        };
        let jitter: u64 = saturating_product(capped, random) / (u64::MAX / 4);
        capped.saturating_add(jitter)
    }

    /// What follows failure number `attempt`, counted from 0.
    pub fn after_failure(&self, attempt: u32, error: Error, random: u64) -> (r: AfterFailure)
        ensures
            match r {
                AfterFailure::GiveUp(e) => {
                    &&& !asks_again(self.config, attempt as nat, error@)
                    &&& e == error
                },
                AfterFailure::AskAgain { error: e, delay_ms: d, warning } => {
                    &&& asks_again(self.config, attempt as nat, error@)
                    &&& e == error
                    &&& d == delay_ms(self.config, attempt as nat, random)
                    &&& warning@ == retry_warning(self.config, attempt as nat, d as nat)
                },
            },
    {
        if !error.is_retryable() || attempt >= self.config.max_retries {
            return AfterFailure::GiveUp(error);
        }
        let delay: u64 = self.next_delay(attempt, random);
        let mut warning = "Backend returned retryable error (attempt ".to_owned();
        push_decimal(&mut warning, attempt as u64 + 1);
        warning.append("/");
        push_decimal(&mut warning, self.config.max_retries as u64);
        warning.append("); retrying in ");
        push_decimal(&mut warning, delay);
        warning.append("ms");
        AfterFailure::AskAgain { error, delay_ms: delay, warning }
    }

    /// The error that is handed on when the user cancels a delay.
    pub fn cancelled(error: Error) -> (r: Error)
        ensures
            r@ == error@.within("retry cancelled by user"@),
    {
        error.context("retry cancelled by user")
    }
}

/// How often a backend is asked if its answers are `outcomes` (where none is an error) and
/// `attempt` of them came before.
pub open spec fn times_asked(
    config: RetryConfig,
    attempt: nat,
    outcomes: Seq<Option<ErrorView>>,
) -> nat
    decreases outcomes.len(),
{
    if outcomes.len() == 0 {
        0
    } else {
        match outcomes[0] {
            None => 1,
            Some(e) => if asks_again(config, attempt, e) {
                1 + times_asked(config, attempt + 1, outcomes.drop_first())
            } else {
                1
            },
        }
    }
}

/// Whatever a backend answers, it is asked once and repeated at most as often as is configured.
pub proof fn law_retries_are_bounded(
    config: RetryConfig,
    attempt: nat,
    outcomes: Seq<Option<ErrorView>>,
)
    requires
        attempt <= config.max_retries,
    ensures
        times_asked(config, attempt, outcomes) <= config.max_retries - attempt + 1,
    decreases outcomes.len(),
{
    if outcomes.len() > 0 {
        if let Some(e) = outcomes[0] {
            if asks_again(config, attempt, e) {
                law_retries_are_bounded(config, attempt + 1, outcomes.drop_first());
            }
        }
    }
}

/// A delay is at least the plain one and at most four milliseconds above it, and so at most four
/// milliseconds above the longest.
pub proof fn law_delay_is_bounded(config: RetryConfig, attempt: nat, random: u64)
    ensures
        plain_delay(config, attempt) <= delay_ms(config, attempt, random),
        delay_ms(config, attempt, random) <= plain_delay(config, attempt) + 4,
        delay_ms(config, attempt, random) <= config.max_delay_ms + 4,
{
    let plain = plain_delay(config, attempt);
    let doublings = if attempt <= 20 {
        attempt
    } else {
        20
    };
    assert(config.initial_delay_ms * pow2(doublings) >= 0) by (nonlinear_arith)
        requires
            config.initial_delay_ms >= 0,
            pow2(doublings) >= 0,
    ;
    assert(plain * random >= 0) by (nonlinear_arith)
        requires
            plain >= 0,
            random >= 0,
    ;
}

/// The plain delays never shrink from one failure to the next.
pub proof fn law_backoff_grows(config: RetryConfig, attempt: nat)
    ensures
        plain_delay(config, attempt) <= plain_delay(config, attempt + 1),
{
    let d = if attempt <= 20 {
        attempt
    } else {
        20
    };
    let e = if attempt + 1 <= 20 {
        attempt + 1
    } else {
        20
    };
    if d < e {
        lemma_pow2_strictly_increases(d, e);
    }
    assert(config.initial_delay_ms * pow2(d) <= config.initial_delay_ms * pow2(e))
        by (nonlinear_arith)
        requires
            config.initial_delay_ms >= 0,
            pow2(d) <= pow2(e),
    ;
}

} // verus!
