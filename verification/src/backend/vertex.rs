//! Anthropic's models on Vertex AI.
use vstd::prelude::*;

use crate::backend::anthropic_compat::{
    AnthropicCompatBackend, AnthropicCompatConfig, AnthropicConfigView, AuthStyle,
};
use crate::text::same_text;
use crate::types::{thinking_enabled, RequestConfig, RequestView};

pub use crate::backend::anthropic_sse::parse_sse_data;
pub use crate::backend::anthropic_sse::AnthropicCompatSseParser as VertexSseParser;

verus! {

/// Anthropic's models on Vertex AI, in one project and region. Each request needs an access token.
#[derive(Debug, PartialEq, Eq)]
pub struct VertexBackend {
    pub project: String,
    pub region: String,
}

/// The machine that serves a region.
pub open spec fn vertex_host(region: Seq<char>) -> Seq<char> {
    if region == "global"@ {
        "aiplatform.googleapis.com"@
    } else {
        region + "-aiplatform.googleapis.com"@
    }
}

/// The URL at which a model is asked.
pub open spec fn vertex_endpoint(
    project: Seq<char>,
    region: Seq<char>,
    model: Seq<char>,
) -> Seq<char> {
    "https://"@ + vertex_host(region) + "/v1/projects/"@ + project + "/locations/"@ + region
        + "/publishers/anthropic/models/"@ + model + ":streamRawPredict"@
}

/// How a request is sent with an access token: the model is in the URL and the version in the
/// body; interleaved thinking is asked for where thinking is enabled.
pub open spec fn vertex_config(
    project: Seq<char>,
    region: Seq<char>,
    token: Seq<char>,
    request: RequestView,
) -> AnthropicConfigView {
    AnthropicConfigView {
        endpoint: vertex_endpoint(project, region, request.model),
        auth_token: Some(token),
        auth_style: AuthStyle::Bearer,
        anthropic_version: "vertex-2023-10-16"@,
        include_model_in_body: false,
        anthropic_beta: if thinking_enabled(request.thinking) {
            Some("interleaved-thinking-2025-05-14"@)
        } else {
            None
        },
        max_tokens_override: None,
    }
}

impl VertexBackend {
    /// The backend of a project and region.
    pub fn new(project: String, region: String) -> (r: VertexBackend)
        ensures
            r.project == project,
            r.region == region,
    {
        VertexBackend { project, region }
    }

    /// The URL at which a model is asked.
    pub fn endpoint(&self, model: &str) -> (r: String)
        ensures
            r@ == vertex_endpoint(self.project@, self.region@, model@),
    {
        let mut s = "https://".to_owned();
        if same_text(self.region.as_str(), "global") {
            s.append("aiplatform.googleapis.com");
        } else {
            s.append(self.region.as_str());
            s.append("-aiplatform.googleapis.com");
        }
        s.append("/v1/projects/");
        s.append(self.project.as_str());
        s.append("/locations/");
        s.append(self.region.as_str());
        s.append("/publishers/anthropic/models/");
        s.append(model);
        s.append(":streamRawPredict");
        assert(s@ =~= vertex_endpoint(self.project@, self.region@, model@));
        s
    }

    /// The backend that sends one request with an access token.
    pub fn with_token(&self, token: String, config: &RequestConfig) -> (r: AnthropicCompatBackend)
        ensures
            r.config@ == vertex_config(self.project@, self.region@, token@, config@),
    {
        let anthropic_beta = if config.thinks() {
            Some("interleaved-thinking-2025-05-14".to_owned())
        } else {
            None
        };
        AnthropicCompatBackend::new(
            AnthropicCompatConfig {
                endpoint: self.endpoint(config.model.as_str()),
                auth_token: Some(token),
                auth_style: AuthStyle::Bearer,
                anthropic_version: "vertex-2023-10-16".to_owned(),
                include_model_in_body: false,
                anthropic_beta,
                max_tokens_override: None,
            },
        )
    }
}

} // verus!
