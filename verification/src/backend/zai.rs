//! z.ai.
use vstd::prelude::*;

use crate::backend::error::{said, Error, ErrorView};
use crate::backend::openai_compat::{
    openai_backend, OpenAiCompatBackend, OpenAiCompatConfig, OpenAiConfigView, OpenAiView,
    ReasoningStyle,
};

pub use crate::backend::openai_sse::OpenAiCompatSseParser as ZaiSseParser;

verus! {

const BASE_URL: &'static str = "https://api.z.ai/api/coding/paas/v4";

/// z.ai, which speaks the OpenAI Chat Completions protocol.
#[derive(Debug, PartialEq, Eq)]
pub struct ZaiBackend(pub OpenAiCompatBackend);

/// The backend for a key, which may not be empty.
pub open spec fn zai_backend(api_key: Seq<char>) -> Result<OpenAiView, ErrorView> {
    if api_key.len() == 0 {
        Err(said("API key cannot be empty"@))
    } else {
        Ok(
            OpenAiView {
                endpoint: "https://api.z.ai/api/coding/paas/v4/chat/completions"@,
                api_key: Some(api_key),
                max_tokens_override: None,
                reasoning: ReasoningStyle::ZaiEnableThinking,
            },
        )
    }
}

/// What was built, or what went wrong.
pub open spec fn built_zai(r: Result<ZaiBackend, Error>) -> Result<OpenAiView, ErrorView> {
    match r {
        Ok(b) => Ok(b.0@),
        Err(e) => Err(e@),
    }
}

impl ZaiBackend {
    /// The backend for a key.
    pub fn new(api_key: String) -> (r: Result<ZaiBackend, Error>)
        ensures
            built_zai(r) == zai_backend(api_key@),
    {
        if api_key.as_str().is_empty() {
            return Err(Error::msg("API key cannot be empty"));
        }
        let config = OpenAiCompatConfig {
            base_url: BASE_URL.to_owned(),
            api_key: Some(api_key),
            model: String::new(),
            max_tokens: None,
            reasoning: ReasoningStyle::ZaiEnableThinking,
        };
        proof {
            lemma_zai_endpoint();
        }
        match OpenAiCompatBackend::new(config) {
            Ok(b) => Ok(ZaiBackend(b)),
            Err(e) => Err(e),
        }
    }
}

proof fn lemma_zai_endpoint()
    ensures
        forall|c: OpenAiConfigView|
            c.base_url == BASE_URL@ ==> #[trigger] openai_backend(c) == Ok::<
                OpenAiView,
                ErrorView,
            >(
                OpenAiView {
                    endpoint: "https://api.z.ai/api/coding/paas/v4/chat/completions"@,
                    api_key: c.api_key,
                    max_tokens_override: c.max_tokens,
                    reasoning: c.reasoning,
                },
            ),
{
    reveal_strlit("https://api.z.ai/api/coding/paas/v4");
    reveal_strlit("https://api.z.ai/api/coding/paas/v4/chat/completions");
    reveal_strlit("/chat/completions");
    reveal_strlit("?");
    let base = "https://api.z.ai/api/coding/paas/v4"@;
    assert(base.last() == '4');
    let tail = base.subrange(base.len() - 17, base.len() as int);
    assert(tail[0] != '/');
    assert forall|i: int| !#[trigger] crate::text::holds_at(base, "?"@, i) by {
        if crate::text::holds_at(base, "?"@, i) {
            assert(base.subrange(i, i + 1)[0] == '?');
            assert(base[i] == '?');
        }
    }
    assert(base + "/chat/completions"@ =~= "https://api.z.ai/api/coding/paas/v4/chat/completions"@);
}

} // verus!
