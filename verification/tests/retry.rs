use agent_core::backend::error::{BackendError, Error};
use agent_core::backend::factory::{Backend, BackendFactory};
use agent_core::backend::ollama::OllamaBackend;
use agent_core::backend::request::LlmBackend;
use agent_core::backend::retry::{is_rate_limit_error, rate_limit_delays, RetryBackend};
use agent_core::backend::retrying::{next_random, random_seed, AfterFailure, RetryingBackend};
use agent_core::config::{OllamaConfig, RetryConfig};
use agent_core::types::RequestConfig;

fn ollama() -> OllamaBackend {
    OllamaBackend::new(&OllamaConfig {
        api_key: "my-key".to_string(),
        model: "gpt-oss:120b".to_string(),
        base_url: "https://ollama.com/api/chat".to_string(),
        max_tokens: None,
    })
    .expect("valid config")
}

fn retrying(config: RetryConfig) -> RetryingBackend {
    RetryingBackend::new(Backend::Ollama(ollama()), config)
}

fn fast() -> RetryConfig {
    RetryConfig {
        max_retries: 3,
        initial_delay_ms: 1,
        max_delay_ms: 8,
        max_token_retries: 3,
    }
}

fn status(code: u16, body: &str) -> Error {
    Error::Backend(BackendError::HttpStatus {
        code,
        body: body.to_string(),
    })
}

/// Asks as long as the backend is to be asked again; how often it was asked and what came out.
fn ask(backend: &RetryingBackend, answers: Vec<Result<(), Error>>) -> (u32, Result<(), Error>) {
    let mut attempt: u32 = 0;
    let mut random: u64 = 1;
    for answer in answers {
        match answer {
            Ok(()) => return (attempt + 1, Ok(())),
            Err(e) => {
                random = next_random(random);
                match backend.after_failure(attempt, e, random) {
                    AfterFailure::GiveUp(e) => return (attempt + 1, Err(e)),
                    AfterFailure::AskAgain { .. } => attempt += 1,
                }
            }
        }
    }
    panic!("asked too often");
}

#[test]
fn is_rate_limit_error_detects_429_in_message() {
    let err = Error::msg("Vertex AI returned 429: rate limit exceeded");
    assert!(is_rate_limit_error(&err));
}

#[test]
fn is_rate_limit_error_rejects_other_status_codes() {
    let err = Error::msg("Vertex AI returned 500: internal server error");
    assert!(!is_rate_limit_error(&err));
}

#[test]
fn is_rate_limit_error_rejects_non_http_errors() {
    let err = Error::msg("Failed to send request: connection refused");
    assert!(!is_rate_limit_error(&err));
}

#[test]
fn retrying_backend_retries_on_503_then_succeeds() {
    let (_, result) = ask(
        &retrying(fast()),
        vec![Err(status(503, "overloaded")), Ok(())],
    );
    assert!(result.is_ok(), "should succeed after retry");
}

#[test]
fn retrying_backend_retries_on_429_then_succeeds() {
    let (_, result) = ask(
        &retrying(fast()),
        vec![Err(status(429, "rate limited")), Ok(())],
    );
    assert!(result.is_ok(), "should succeed after retry on 429");
}

#[test]
fn retrying_backend_retries_on_transport_then_succeeds() {
    let failure = Error::Backend(BackendError::Transport {
        message: "Failed to send request to Ollama: connection refused".to_string(),
    });
    let (calls, result) = ask(&retrying(fast()), vec![Err(failure), Ok(())]);
    assert!(
        result.is_ok(),
        "should succeed after retry on transport error"
    );
    assert_eq!(
        calls, 2,
        "should have called the backend twice: one failure then one success"
    );
}

#[test]
fn retrying_backend_exhausts_retries_and_propagates_error() {
    let (calls, result) = ask(
        &retrying(fast()),
        vec![
            Err(status(503, "overloaded")),
            Err(status(503, "overloaded")),
            Err(status(503, "overloaded")),
            Err(status(503, "overloaded")),
        ],
    );
    assert!(result.is_err(), "should fail after exhausting retries");
    let err = result.err().expect("should have error");
    assert!(err.message().contains("503"));
    assert_eq!(calls, 4);
}

#[test]
fn retrying_backend_does_not_retry_on_400() {
    let (calls, result) = ask(&retrying(fast()), vec![Err(status(400, "bad request"))]);
    assert!(result.is_err(), "400 should propagate immediately");
    assert!(result
        .err()
        .expect("should have error")
        .message()
        .contains("400"));
    assert_eq!(calls, 1);
}

#[test]
fn retrying_backend_does_not_retry_on_501() {
    let (_, result) = ask(&retrying(fast()), vec![Err(status(501, "not implemented"))]);
    assert!(result.is_err(), "501 should not be retried");
}

#[test]
fn words_alone_are_never_retried() {
    let (calls, result) = ask(&retrying(fast()), vec![Err(Error::msg("HTTP 503"))]);
    assert_eq!(calls, 1);
    assert!(result.is_err());
}

#[test]
fn delays_double_up_to_the_longest() {
    let backend = retrying(RetryConfig {
        max_retries: 30,
        initial_delay_ms: 10,
        max_delay_ms: 80,
        max_token_retries: 3,
    });
    let delays: Vec<u64> = (0..6).map(|attempt| backend.next_delay(attempt, 0)).collect();
    assert_eq!(delays, vec![10, 20, 40, 80, 80, 80]);
    assert_eq!(backend.next_delay(0, u64::MAX), 14);
    assert_eq!(backend.next_delay(100, u64::MAX), 84);
    // 10 * (2^61) / (2^62 - 1), rounded down.
    assert_eq!(backend.next_delay(0, 1 << 60), 12);
}

#[test]
fn delays_do_not_overflow() {
    let backend = retrying(RetryConfig {
        max_retries: 30,
        initial_delay_ms: u64::MAX,
        max_delay_ms: u64::MAX,
        max_token_retries: 3,
    });
    assert_eq!(backend.next_delay(20, u64::MAX), u64::MAX);
}

#[test]
fn repetition_is_announced() {
    match retrying(fast()).after_failure(1, status(503, "overloaded"), 0) {
        AfterFailure::AskAgain {
            error,
            delay_ms,
            warning,
        } => {
            assert_eq!(error, status(503, "overloaded"));
            assert_eq!(delay_ms, 2);
            assert_eq!(
                warning,
                "Backend returned retryable error (attempt 2/3); retrying in 2ms"
            );
        }
        AfterFailure::GiveUp(_) => panic!("expected a repetition"),
    }
}

#[test]
fn cancelled_delay_keeps_the_cause() {
    let error = RetryingBackend::cancelled(status(503, "overloaded"));
    assert_eq!(error.message(), "retry cancelled by user");
    assert_eq!(
        error.full_message(),
        "retry cancelled by user: HTTP 503: overloaded"
    );
}

#[test]
fn random_numbers_follow_from_their_seed() {
    assert_eq!(random_seed(Some(1)), 0x2545F4914F6CDD1D);
    assert_eq!(
        random_seed(None),
        0xDEADBEEFu64.wrapping_mul(0x2545F4914F6CDD1D)
    );
    assert_eq!(next_random(0), 0);
    // 1 ^ (1 << 13), shifted down by 7, then up by 17.
    let a: u64 = 1 | (1 << 13);
    let b: u64 = a ^ (a >> 7);
    assert_eq!(next_random(1), b ^ (b << 17));
}

#[test]
fn rate_limits_are_waited_out_five_times() {
    let backend = RetryBackend::new(ollama());
    assert_eq!(
        rate_limit_delays(),
        vec![1_000, 60_000, 60_000, 60_000, 60_000]
    );
    let config = RequestConfig {
        model: "m".to_string(),
        max_tokens: 1,
        tools: vec![],
        thinking: None,
    };
    assert_eq!(
        backend.request_for(&[], &config).expect("a request").url,
        "https://ollama.com/api/chat"
    );
}

#[test]
fn made_selection_has_the_usual_limit() {
    let selection = BackendFactory::make_selection(retrying(fast()), "m".to_string());
    assert_eq!(selection.max_tokens, 8_192);
    assert_eq!(selection.model, "m");
}
