//! Translation of a model into another theory by a language model.

use vstd::prelude::*;
use vstd::string::*;

verus! {

/// A request to translate a model into a theory.
#[derive(Debug, PartialEq, Eq)]
pub struct DoTranslation {
    /// The model to translate, as JSON.
    pub src_json_model: String,
    /// The theory to translate it into.
    pub tgt_json_language: String,
}

/// The answer to a request for a translation.
#[derive(Debug, PartialEq, Eq)]
pub struct ModelTranslation {
    pub translated_json: String,
}

/// What the language model is asked when a model is translated.
pub open spec fn translation_request(source_model: Seq<char>, target_theory: Seq<char>) -> Seq<
    char,
> {
    "Translate the following model: "@ + source_model + " to a model in this: "@ + target_theory
        + " target theory. Ensure that the Json Output conforms to the provided schema"@
}

/// What the language model is asked when a model is translated.
pub fn translation_prompt(source_model_json: &str, target_theory: &str) -> (prompt: String)
    ensures
        prompt@ == translation_request(source_model_json@, target_theory@),
{
    String::from_str("Translate the following model: ").concat(source_model_json).concat(
        " to a model in this: ",
    ).concat(target_theory).concat(
        " target theory. Ensure that the Json Output conforms to the provided schema",
    )
}

/// The answer to a request for a translation: what the language model
/// replied, or an apology where it could not be reached.
pub fn translation_reply<E>(outcome: Result<String, E>) -> (reply: ModelTranslation)
    ensures
        reply.translated_json@ == match outcome {
            Ok(text) => text@,
            Err(_) => "AI run into an error"@,
        },
{
    let response_text = match outcome {
        Ok(llm_translation) => llm_translation,
        Err(_) => String::from_str("AI run into an error"),
    };
    ModelTranslation { translated_json: response_text }
}

} // verus!
