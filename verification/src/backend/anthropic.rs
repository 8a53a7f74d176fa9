//! The Anthropic Messages API.
use vstd::prelude::*;

use crate::backend::anthropic_compat::{
    AnthropicCompatBackend, AnthropicCompatConfig, AnthropicConfigView, AuthStyle,
};
use crate::backend::error::{said, Error, ErrorView};
use crate::config::AnthropicConfig;
use crate::text::{ends_with_text, holds_at, trim_end_slashes, without_end_slashes};

verus! {

/// The Anthropic Messages API: the key goes into `x-api-key`, the version into a header and the
/// model into the body; no beta feature is asked for.
#[derive(Debug, PartialEq, Eq)]
pub struct AnthropicBackend(pub AnthropicCompatBackend);

/// The backend that a configuration describes: the key may not be empty, slashes at the end of
/// the URL do not matter, and the path may not be in it.
pub open spec fn anthropic_backend(
    api_key: Seq<char>,
    base_url: Seq<char>,
    max_tokens: Option<u32>,
) -> Result<AnthropicConfigView, ErrorView> {
    let base = without_end_slashes(base_url);
    if api_key.len() == 0 {
        Err(said("API key cannot be empty for anthropic backend"@))
    } else if holds_at(base, "/messages"@, base.len() - "/messages"@.len()) {
        Err(
            said(
                "base_url must not include '/messages' — provide the base URL only (e.g. 'https://api.anthropic.com/v1') and the backend will append the path automatically."@,
            ),
        )
    } else {
        Ok(
            AnthropicConfigView {
                endpoint: base + "/messages"@,
                auth_token: Some(api_key),
                auth_style: AuthStyle::XApiKey,
                anthropic_version: "2023-06-01"@,
                include_model_in_body: true,
                anthropic_beta: None,
                max_tokens_override: max_tokens,
            },
        )
    }
}

/// What was built, or what went wrong.
pub open spec fn built_anthropic(r: Result<AnthropicBackend, Error>) -> Result<
    AnthropicConfigView,
    ErrorView,
> {
    match r {
        Ok(b) => Ok(b.0.config@),
        Err(e) => Err(e@),
    }
}

impl AnthropicBackend {
    /// The backend that a configuration describes.
    pub fn new(config: &AnthropicConfig) -> (r: Result<AnthropicBackend, Error>)
        ensures
            built_anthropic(r) == anthropic_backend(
                config.api_key@,
                config.base_url@,
                config.max_tokens,
            ),
    {
        if config.api_key.as_str().is_empty() {
            return Err(Error::msg("API key cannot be empty for anthropic backend"));
        }
        let base = trim_end_slashes(config.base_url.as_str());
        if ends_with_text(base, "/messages") {
            return Err(
                Error::msg(
                    "base_url must not include '/messages' — provide the base URL only (e.g. 'https://api.anthropic.com/v1') and the backend will append the path automatically.",
                ),
            );
        }
        let mut endpoint = base.to_owned();
        endpoint.append("/messages");
        Ok(
            AnthropicBackend(
                AnthropicCompatBackend::new(
                    AnthropicCompatConfig {
                        endpoint,
                        auth_token: Some(config.api_key.clone()),
                        auth_style: AuthStyle::XApiKey,
                        anthropic_version: "2023-06-01".to_owned(),
                        include_model_in_body: true,
                        anthropic_beta: None,
                        max_tokens_override: config.max_tokens,
                    },
                ),
            ),
        )
    }
}

} // verus!
