//! Composition of models by a language model: what is asked of it, and what
//! is made of its answer.

use vstd::prelude::*;
use vstd::string::*;

use crate::text::{concatenated, trim_end_matches, trim_start_matches, without_leading, without_trailing};

verus! {

/// A request to compose models for an application.
#[derive(Debug, PartialEq, Eq)]
pub struct DoComposition {
    /// The models to compose, each as JSON.
    pub models: Vec<String>,
    /// What the composition is for.
    pub application: String,
}

/// The answer to a request for a composition.
#[derive(Debug, PartialEq, Eq)]
pub struct ModelComposition {
    pub composition_text: String,
}

/// What the language model answers.
#[derive(Debug, PartialEq, Eq)]
pub struct LlmResponse {
    pub candidates: Vec<Candidate>,
    pub model_version: Option<String>,
    pub usage_metadata: Option<UsageMetadata>,
}

/// One of the answers that the language model proposes.
#[derive(Debug, PartialEq, Eq)]
pub struct Candidate {
    pub content: Content,
    pub finish_reason: Option<String>,
}

/// The content of an answer, in parts.
#[derive(Debug, PartialEq, Eq)]
pub struct Content {
    pub parts: Vec<Part>,
    pub role: String,
}

/// A part of an answer.
#[derive(Debug, PartialEq, Eq)]
pub struct Part {
    pub text: String,
}

/// The tokens that a request and its answer took.
#[derive(Debug, PartialEq, Eq)]
pub struct UsageMetadata {
    pub candidates_token_count: u32,
    pub candidates_tokens_details: Vec<TokenDetail>,
    pub prompt_token_count: u32,
    pub prompt_tokens_details: Vec<TokenDetail>,
    pub total_token_count: u32,
}

/// The tokens taken in one modality.
#[derive(Debug, PartialEq, Eq)]
pub struct TokenDetail {
    pub modality: String,
    pub token_count: u32,
}

/// The model that answers quickly.
pub const FLASH_MODEL: &'static str = "gemini-2.0-flash";

/// The model that shows its thinking.
pub const THINKING_MODEL: &'static str = "gemini-2.0-flash-thinking-exp-01-21";

/// The model that reasons at length.
pub const REASONING_MODEL: &'static str = "gemini-2.5-pro-exp-03-25";

/// The address at which a model generates content for the holder of a key.
pub open spec fn endpoint(model: Seq<char>, api_key: Seq<char>) -> Seq<char> {
    "https://generativelanguage.googleapis.com/v1beta/models/"@ + model
        + ":generateContent?key="@ + api_key
}

/// The address at which a model generates content for the holder of a key.
pub fn gemini_url(model: &str, api_key: &str) -> (url: String)
    ensures
        url@ == endpoint(model@, api_key@),
{
    String::from_str("https://generativelanguage.googleapis.com/v1beta/models/").concat(
        model,
    ).concat(":generateContent?key=").concat(api_key)
}

/// The instruction that the language model works under: the one that was
/// read, or a default where none could be read.
pub fn system_instruction(read: Option<String>) -> (instruction: String)
    ensures
        instruction@ == match read {
            Some(text) => text@,
            None => "The default instruction"@,
        },
{
    match read {
        Some(text) => text,
        None => String::from_str("The default instruction"),
    }
}

/// What the language model is asked when models are composed.
pub open spec fn composition_request(models: Seq<Seq<char>>, application: Seq<char>) -> Seq<char> {
    "Combine the following models, Models: "@ + models.flatten()
        + " so as to be insighful in this: "@ + application + " application"@
}

/// What the language model is asked when models are composed.
pub fn composition_prompt(models: &Vec<String>, application: &str) -> (prompt: String)
    ensures
        prompt@ == composition_request(models.deep_view(), application@),
{
    let all = concatenated(models);
    String::from_str("Combine the following models, Models: ").concat(all.as_str()).concat(
        " so as to be insighful in this: ",
    ).concat(application).concat(" application")
}

/// A text without the opening square brackets that it starts with and the
/// closing ones that it ends with.
pub open spec fn unbracketed(text: Seq<char>) -> Seq<char> {
    without_trailing(without_leading(text, '['), ']')
}

impl LlmResponse {
    /// Whether the answer has a first candidate with a first part.
    pub open spec fn spec_has_text(&self) -> bool {
        self.candidates.len() > 0 && self.candidates[0].content.parts.len() > 0
    }

    /// Whether the answer has a first candidate with a first part.
    #[verifier::when_used_as_spec(spec_has_text)]
    pub fn has_text(&self) -> (has: bool)
        ensures
            has == self.spec_has_text(),
    {
        self.candidates.len() > 0 && self.candidates[0].content.parts.len() > 0
    }

    /// The text of the first part of the first candidate.
    pub open spec fn text(&self) -> Seq<char> {
        self.candidates[0].content.parts[0].text@
    }

    /// The text of the first part of the first candidate.
    pub fn first_text(&self) -> (text: &String)
        requires
            self.has_text(),
        ensures
            text@ == self.text(),
    {
        &self.candidates[0].content.parts[0].text
    }

    /// The text that is handed on as the answer: that of the first part of
    /// the first candidate, without the square brackets around it.
    pub fn reply(&self) -> (reply: String)
        requires
            self.has_text(),
        ensures
            reply@ == unbracketed(self.text()),
    {
        let text = self.first_text();
        String::from_str(trim_end_matches(trim_start_matches(text.as_str(), '['), ']'))
    }
}

/// The answer to a request for a composition: what the language model
/// replied, or an apology where it could not be reached.
pub fn composition_reply<E>(outcome: Result<String, E>) -> (reply: ModelComposition)
    ensures
        reply.composition_text@ == match outcome {
            Ok(text) => text@,
            Err(_) => "AI run into an error"@,
        },
{
    let response_text = match outcome {
        Ok(llm_composition) => llm_composition,
        Err(_) => String::from_str("AI run into an error"),
    };
    ModelComposition { composition_text: response_text }
}

} // verus!
