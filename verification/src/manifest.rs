//! The manifest that describes an agent.

use crate::error::ManifestError;
use crate::string_map::StringMap;
use crate::text::{is_blank, str_is_blank};
use crate::tools::ToolDefinition;
use vstd::prelude::*;

verus! {

/// The model providers that a manifest can name.
#[derive(Debug, Clone, Copy, PartialEq, Eq)]
#[allow(non_camel_case_types)]
pub enum Provider {
    Anthropic,
    DeepSeek,
    Gemini,
    Ollama,
    OpenAI,
    OpenRouter,
    xAI,
}

/// The message transports that a manifest can name.
#[derive(Debug, Clone, Copy, PartialEq, Eq)]
pub enum Transport {
    Nats,
}

/// Manifest definition.
pub struct Manifest {
    pub address: String,
    pub provider: Provider,
    pub model: String,
    pub description: String,
    pub instruction: String,
    pub constraints: String,
    pub context: String,
    pub tools: Option<StringMap<ToolDefinition>>,
}

/// The required fields, in the order they are checked, with the name that
/// an error reports for each.
pub open spec fn first_blank_field(m: Manifest) -> Option<&'static str> {
    if is_blank(m.address@) {
        Some("address")
    } else if is_blank(m.model@) {
        Some("model")
    } else if is_blank(m.description@) {
        Some("description")
    } else if is_blank(m.instruction@) {
        Some("instruction")
    } else {
        None
    }
}

impl Manifest {
    /// Validates required manifest fields: `address`, `model`, `description`
    /// and `instruction` must each hold more than whitespace. The first one
    /// that does not is reported.
    pub fn validate(&self) -> (res: Result<(), ManifestError>)
        ensures
            match first_blank_field(*self) {
                None => res is Ok,
                Some(field) => res matches Err(ManifestError::MissingField(f)) && f == field,
            },
    {
        if str_is_blank(self.address.as_str()) {
            return Err(ManifestError::MissingField("address"));
        }
        if str_is_blank(self.model.as_str()) {
            return Err(ManifestError::MissingField("model"));
        }
        if str_is_blank(self.description.as_str()) {
            return Err(ManifestError::MissingField("description"));
        }
        if str_is_blank(self.instruction.as_str()) {
            return Err(ManifestError::MissingField("instruction"));
        }
        Ok(())
    }
}

} // verus!
