//! What can go wrong while a backend is asked.
use vstd::prelude::*;

use crate::text::{decimal, join_texts, joined, push_decimal, texts};

verus! {

/// A failure of a backend, by kind.
#[derive(Debug, PartialEq, Eq)]
pub enum BackendError {
    HttpStatus { code: u16, body: String },
    Transport { message: String },
    Other(String),
    MaxTokensExceeded { input_tokens: u32, output_tokens: u32 },
    Refusal,
}

/// What a [`BackendError`] says.
#[verifier::ext_equal]
pub enum BackendErrorView {
    HttpStatus { code: u16, body: Seq<char> },
    Transport { message: Seq<char> },
    Other(Seq<char>),
    MaxTokensExceeded { input_tokens: u32, output_tokens: u32 },
    Refusal,
}

impl BackendErrorView {
    /// Whether asking again may help: rate limits, server errors other than "not implemented",
    /// and failed connections.
    pub open spec fn retryable(self) -> bool {
        match self {
            BackendErrorView::HttpStatus { code, .. } => code == 429 || (code >= 500 && code
                != 501),
            BackendErrorView::Transport { .. } => true,
            _ => false,
        }
    }

    /// The error in words.
    pub open spec fn words(self) -> Seq<char> {
        match self {
            BackendErrorView::HttpStatus { code, body } => "HTTP "@ + decimal(code as nat) + ": "@
                + body,
            BackendErrorView::Transport { message } => message,
            BackendErrorView::Other(message) => message,
            BackendErrorView::MaxTokensExceeded {
                input_tokens,
                output_tokens,
            } => truncation_words(input_tokens, output_tokens),
            BackendErrorView::Refusal => {
                "The model refused to generate a response due to content policy. The conversation context may be unsafe to continue with."@
            },
        }
    }
}

/// What is said of an answer that ran into its token limit.
pub open spec fn truncation_words(input_tokens: u32, output_tokens: u32) -> Seq<char> {
    "Response truncated: max_tokens limit reached (input_tokens="@ + decimal(input_tokens as nat)
        + ", output_tokens="@ + decimal(output_tokens as nat)
        + "). Increase max_tokens in your config."@
}

/// What is said of an answer that ran into its token limit.
pub fn truncation_message(input_tokens: u32, output_tokens: u32) -> (r: String)
    ensures
        r@ == truncation_words(input_tokens, output_tokens),
{
    let mut s = "Response truncated: max_tokens limit reached (input_tokens=".to_owned();
    push_decimal(&mut s, input_tokens as u64);
    s.append(", output_tokens=");
    push_decimal(&mut s, output_tokens as u64);
    s.append("). Increase max_tokens in your config.");
    s
}

impl BackendError {
    pub open spec fn view(self) -> BackendErrorView {
        match self {
            BackendError::HttpStatus { code, body } => BackendErrorView::HttpStatus {
                code,
                body: body@,
            },
            BackendError::Transport { message } => BackendErrorView::Transport {
                message: message@,
            },
            BackendError::Other(message) => BackendErrorView::Other(message@),
            BackendError::MaxTokensExceeded { input_tokens, output_tokens } => {
                BackendErrorView::MaxTokensExceeded { input_tokens, output_tokens }
            },
            BackendError::Refusal => BackendErrorView::Refusal,
        }
    }

    /// Whether asking again may help.
    pub fn is_retryable(&self) -> (r: bool)
        ensures
            r == self@.retryable(),
    {
        match self {
            BackendError::HttpStatus { code, .. } => *code == 429 || (*code >= 500 && *code != 501),
            BackendError::Transport { .. } => true,
            BackendError::Other(_) => false,
            BackendError::MaxTokensExceeded { .. } => false,
            BackendError::Refusal => false,
        }
    }

    /// Whether the answer ran into its token limit.
    pub fn is_max_tokens(&self) -> (r: bool)
        ensures
            r == self@ is MaxTokensExceeded,
    {
        matches!(self, BackendError::MaxTokensExceeded { .. })
    }

    /// Whether the model refused to answer.
    pub fn is_refusal(&self) -> (r: bool)
        ensures
            r == self@ is Refusal,
    {
        matches!(self, BackendError::Refusal)
    }

    /// A failed connection to `target`, with the words of the error and of each of its causes,
    /// outermost first, so that no cause is lost.
    pub fn transport(target: &str, causes: &Vec<String>) -> (r: BackendError)
        ensures
            r@ == (BackendErrorView::Transport {
                message: "Failed to send request to "@ + target@ + ": "@ + joined(
                    texts(causes@),
                    ": "@,
                ),
            }),
    {
        let mut message = "Failed to send request to ".to_owned();
        message.append(target);
        message.append(": ");
        message.append(join_texts(causes, ": ").as_str());
        BackendError::Transport { message }
    }

    /// The error in words.
    pub fn message(&self) -> (r: String)
        ensures
            r@ == self@.words(),
    {
        match self {
            BackendError::HttpStatus { code, body } => {
                let mut s = "HTTP ".to_owned();
                push_decimal(&mut s, *code as u64);
                s.append(": ");
                s.append(body.as_str());
                s
            },
            BackendError::Transport { message } => message.clone(),
            BackendError::Other(message) => message.clone(),
            BackendError::MaxTokensExceeded { input_tokens, output_tokens } => truncation_message(
                *input_tokens,
                *output_tokens,
            ),
            BackendError::Refusal => {
                "The model refused to generate a response due to content policy. The conversation context may be unsafe to continue with.".to_owned()
            },
        }
    }
}

/// Any failure on the way to an answer: one of a known kind, by itself or as the cause of further
/// words, or a chain of words. The words come outermost first.
#[derive(Debug, PartialEq, Eq)]
pub enum Error {
    Backend(BackendError),
    Within { words: Vec<String>, cause: BackendError },
    Chain(Vec<String>),
}

/// What an [`Error`] says.
#[verifier::ext_equal]
pub enum ErrorView {
    Backend(BackendErrorView),
    Within { words: Seq<Seq<char>>, cause: BackendErrorView },
    Chain(Seq<Seq<char>>),
}

impl ErrorView {
    /// The error with all its causes in words.
    pub open spec fn full_words(self) -> Seq<char> {
        match self {
            ErrorView::Backend(b) => b.words(),
            ErrorView::Within { words, cause } => joined(words.push(cause.words()), ": "@),
            ErrorView::Chain(c) => joined(c, ": "@),
        }
    }

    /// The outermost words.
    pub open spec fn words(self) -> Seq<char> {
        match self {
            ErrorView::Backend(b) => b.words(),
            ErrorView::Within { words, cause } => words.push(cause.words())[0],
            ErrorView::Chain(c) => if c.len() == 0 {
                Seq::empty()
            } else {
                c[0]
            },
        }
    }

    /// The error as the cause of further words.
    pub open spec fn within(self, words: Seq<char>) -> ErrorView {
        match self {
            ErrorView::Backend(b) => ErrorView::Within { words: seq![words], cause: b },
            ErrorView::Within { words: inner, cause } => ErrorView::Within {
                words: seq![words] + inner,
                cause,
            },
            ErrorView::Chain(c) => ErrorView::Chain(seq![words] + c),
        }
    }

    /// The failure of a known kind, if the error is one or is caused by one.
    pub open spec fn kind(self) -> Option<BackendErrorView> {
        match self {
            ErrorView::Backend(b) => Some(b),
            ErrorView::Within { cause, .. } => Some(cause),
            ErrorView::Chain(_) => None,
        }
    }

    /// Whether the error is known to be one that asking again may mend.
    pub open spec fn retryable(self) -> bool {
        self.kind() matches Some(b) && b.retryable()
    }

    /// Whether the answer ran into its token limit.
    pub open spec fn max_tokens(self) -> bool {
        self.kind() matches Some(b) && b is MaxTokensExceeded
    }

    /// Whether the model refused to answer.
    pub open spec fn refusal(self) -> bool {
        self.kind() matches Some(b) && b is Refusal
    }
}

/// An error that is nothing but words.
pub open spec fn said(words: Seq<char>) -> ErrorView {
    ErrorView::Chain(seq![words])
}

/// An error with a cause, both in words.
pub open spec fn said_because(words: Seq<char>, cause: Seq<char>) -> ErrorView {
    ErrorView::Chain(seq![words, cause])
}

impl Error {
    pub open spec fn view(self) -> ErrorView {
        match self {
            Error::Backend(b) => ErrorView::Backend(b@),
            Error::Within { words, cause } => ErrorView::Within {
                words: texts(words@),
                cause: cause@,
            },
            Error::Chain(c) => ErrorView::Chain(texts(c@)),
        }
    }

    /// An error that is nothing but words.
    pub fn msg(words: &str) -> (r: Error)
        ensures
            r@ == said(words@),
    {
        let r = Error::Chain(vec![words.to_owned()]);
        assert(r@ =~= said(words@));
        r
    }

    /// An error with a cause, both in words.
    pub fn because(words: String, cause: String) -> (r: Error)
        ensures
            r@ == said_because(words@, cause@),
    {
        let r = Error::Chain(vec![words, cause]);
        assert(r@ =~= said_because(words@, cause@));
        r
    }

    /// The error as the cause of further words.
    pub fn context(self, words: &str) -> (r: Error)
        ensures
            r@ == self@.within(words@),
    {
        let mut chain: Vec<String> = Vec::new();
        chain.push(words.to_owned());
        match self {
            Error::Backend(cause) => {
                let r = Error::Within { words: chain, cause };
                assert(r@ =~= self@.within(words@));
                r
            },
            Error::Within { words: mut causes, cause } => {
                let ghost inner = texts(causes@);
                chain.append(&mut causes);
                let r = Error::Within { words: chain, cause };
                assert(r@->Within_words =~= seq![words@] + inner);
                r
            },
            Error::Chain(mut causes) => {
                let ghost inner = texts(causes@);
                chain.append(&mut causes);
                let r = Error::Chain(chain);
                assert(r@ =~= ErrorView::Chain(seq![words@] + inner));
                r
            },
        }
    }

    /// The failure of a known kind, if the error is one or is caused by one.
    pub fn backend(&self) -> (r: Option<&BackendError>)
        ensures
            match r {
                Some(b) => self@.kind() == Some(b@),
                None => self@.kind() is None,
            },
    {
        match self {
            Error::Backend(b) => Some(b),
            Error::Within { cause, .. } => Some(cause),
            Error::Chain(_) => None,
        }
    }

    /// Whether the error is known to be one that asking again may mend.
    pub fn is_retryable(&self) -> (r: bool)
        ensures
            r == self@.retryable(),
    {
        match self {
            Error::Backend(b) => b.is_retryable(),
            Error::Within { cause, .. } => cause.is_retryable(),
            Error::Chain(_) => false,
        }
    }

    /// The outermost words.
    pub fn message(&self) -> (r: String)
        ensures
            r@ == self@.words(),
    {
        match self {
            Error::Backend(b) => b.message(),
            Error::Within { words, cause } => if words.len() == 0 {
                cause.message()
            } else {
                words[0].clone()
            },
            Error::Chain(c) => if c.len() == 0 {
                String::new()
            } else {
                c[0].clone()
            },
        }
    }

    /// The error with all its causes in words.
    pub fn full_message(&self) -> (r: String)
        ensures
            r@ == self@.full_words(),
    {
        match self {
            Error::Backend(b) => b.message(),
            Error::Within { words, cause } => {
                let mut s = join_texts(words, ": ");
                if words.len() > 0 {
                    s.append(": ");
                }
                s.append(cause.message().as_str());
                let ghost all = texts(words@).push(cause@.words());
                assert(all.drop_last() =~= texts(words@));
                assert(s@ =~= joined(all, ": "@));
                s
            },
            Error::Chain(c) => join_texts(c, ": "),
        }
    }
}

} // verus!
