//! The pipeline's error taxonomy: configuration failures, a reply with no
//! extractable command, a command blocked by the safety rules, and backend
//! failure after exhausted retries.

use vstd::prelude::*;
use vstd::string::StringExecFns;

verus! {

/// Why command generation failed. Only backend failures are ever retried;
/// every other variant propagates immediately.
#[derive(Debug, Clone, PartialEq, Eq)]
pub enum GenerationError {
    /// No API credential was available before the network path.
    MissingApiKey,
    /// The API credential was present but blank.
    EmptyApiKey,
    /// The reply was received but held no extractable command.
    MissingCommand,
    /// The backend answered without any choice to read.
    NoChoices,
    /// The resolved command matched a dangerous pattern.
    SafetyBlocked,
    /// Every attempt against the backend failed; carries the last cause.
    BackendExhausted { last_error: String },
}

/// The user-visible text for each error variant.
pub open spec fn spec_message(e: &GenerationError) -> Seq<char> {
    match e {
        GenerationError::MissingApiKey => {
            "OPENAI_API_KEY missing. Set it as an environment variable or in your .env file"@
        },
        GenerationError::EmptyApiKey => "OPENAI_API_KEY is empty"@,
        GenerationError::MissingCommand => "OpenAI response missing 'Command:' line"@,
        GenerationError::NoChoices => "OpenAI response did not contain any choices"@,
        GenerationError::SafetyBlocked => {
            "Generated command was blocked by safety rules. Please refine your description."@
        },
        GenerationError::BackendExhausted { last_error } => {
            "Failed to generate command after multiple attempts: "@ + last_error@
        },
    }
}

impl GenerationError {
    /// Render this error as the message shown to the user.
    pub fn message(&self) -> (r: String)
        ensures
            r@ == spec_message(self),
    {
        match self {
            GenerationError::MissingApiKey => {
                String::from_str(
                    "OPENAI_API_KEY missing. Set it as an environment variable or in your .env file",
                )
            },
            GenerationError::EmptyApiKey => String::from_str("OPENAI_API_KEY is empty"),
            GenerationError::MissingCommand => {
                String::from_str("OpenAI response missing 'Command:' line")
            },
            GenerationError::NoChoices => {
                String::from_str("OpenAI response did not contain any choices")
            },
            GenerationError::SafetyBlocked => {
                String::from_str(
                    "Generated command was blocked by safety rules. Please refine your description.",
                )
            },
            GenerationError::BackendExhausted { last_error } => {
                let mut out = String::from_str(
                    "Failed to generate command after multiple attempts: ",
                );
                out.append(last_error.as_str());
                out
            },
        }
    }
}

} // verus!
