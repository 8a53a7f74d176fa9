//! How many tokens an answer may have, and whether images can be sent, where the settings do not
//! say.
use vstd::prelude::*;

verus! {

/// Vertex AI.
pub const VERTEX: u32 = 8_192;

/// z.ai, for which nothing else can be set.
pub const ZAI: u32 = 8_192;

/// Ollama.
pub const OLLAMA: u32 = 8_192;

/// Providers that speak the OpenAI Chat Completions protocol.
pub const OPENAI_COMPAT: u32 = 16_384;

/// The Anthropic Messages API, where thinking takes room of its own.
pub const ANTHROPIC: u32 = 65_536;

/// OpenCode Go.
pub const OPENCODE_GO: u32 = 16_384;

pub const VISION_VERTEX: bool = true;
pub const VISION_ZAI: bool = false;
pub const VISION_OLLAMA: bool = false;
pub const VISION_OPENAI_COMPAT: bool = false;
pub const VISION_ANTHROPIC: bool = true;
pub const VISION_OPENCODE_GO: bool = true;

} // verus!
