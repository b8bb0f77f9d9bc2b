//! Enhancement of a model along a thread: the threads that a language model
//! suggests, and the composition that it makes along one of them.

use vstd::prelude::*;
use vstd::string::*;

pub use crate::composition::{
    Candidate, Content, DoComposition, LlmResponse, ModelComposition, Part, TokenDetail,
    UsageMetadata,
};
use crate::text::concatenated;
pub use crate::translation::{DoTranslation, ModelTranslation};

verus! {

/// A request to suggest threads along which a model could be enhanced.
#[derive(Debug, PartialEq, Eq)]
pub struct DoThreadSuggestion {
    /// The models of the library, each as JSON.
    pub lib_models: Vec<String>,
    /// The model to enhance, as JSON.
    pub current_model: String,
    /// What the user would like the threads to be about.
    pub thread_primer: String,
}

/// A request to enhance a model along a thread.
#[derive(Debug, PartialEq, Eq)]
pub struct DoThreadComposition {
    /// The model to enhance, as JSON.
    pub active_model: String,
    /// The models of the library, each as JSON.
    pub lib_models: Vec<String>,
    /// The thread to enhance it along.
    pub selected_thread: String,
}

/// The answer to a request for threads.
#[derive(Debug, PartialEq, Eq)]
pub struct ModelThreads {
    pub suggested_threads: Vec<String>,
}

/// The threads that the language model suggests.
#[derive(Debug, PartialEq, Eq)]
pub struct ThreadSuggestions {
    pub threads: Vec<String>,
}

/// One thread that the language model suggests.
#[derive(Debug, PartialEq, Eq)]
pub struct Suggestion {
    pub thread: String,
}

impl DeepView for Suggestion {
    type V = Seq<char>;

    open spec fn deep_view(&self) -> Seq<char> {
        self.thread@
    }
}

/// The instruction that the language model works under: the one that was
/// read, or a default that says why none could be read.
pub fn system_instruction(read: Result<String, String>) -> (instruction: String)
    ensures
        instruction@ == match read {
            Ok(text) => text@,
            Err(reason) => "The default instruction: "@ + reason@,
        },
{
    match read {
        Ok(text) => text,
        Err(reason) => String::from_str("The default instruction: ").concat(reason.as_str()),
    }
}

/// What the language model is asked when threads are to be suggested.
pub open spec fn thread_suggestion_request(current_model: Seq<char>) -> Seq<char> {
    "Suggest possible enhancement options for the following model: "@ + current_model
        + ". The suggestions should be a list of Strings"@
}

/// What the language model is asked when threads are to be suggested.
pub fn thread_suggestion_prompt(current_model: &str) -> (prompt: String)
    ensures
        prompt@ == thread_suggestion_request(current_model@),
{
    String::from_str("Suggest possible enhancement options for the following model: ").concat(
        current_model,
    ).concat(". The suggestions should be a list of Strings")
}

/// What the language model is asked when a model is enhanced along a thread.
pub open spec fn thread_composition_request(
    active_model: Seq<char>,
    lib_models: Seq<Seq<char>>,
    selected_thread: Seq<char>,
) -> Seq<char> {
    "Enhance the following model "@ + active_model + " using the thread "@ + selected_thread
        + ". Use the following library Models: "@ + lib_models.flatten()
        + " as source material and ensure that the enhancement only includes content that is similar to "@
        + selected_thread + "."@
}

/// What the language model is asked when a model is enhanced along a thread.
pub fn thread_composition_prompt(
    active_model: &str,
    lib_models: &Vec<String>,
    selected_thread: &str,
) -> (prompt: String)
    ensures
        prompt@ == thread_composition_request(
            active_model@,
            lib_models.deep_view(),
            selected_thread@,
        ),
{
    let models = concatenated(lib_models);
    String::from_str("Enhance the following model ").concat(active_model).concat(
        " using the thread ",
    ).concat(selected_thread).concat(". Use the following library Models: ").concat(
        models.as_str(),
    ).concat(
        " as source material and ensure that the enhancement only includes content that is similar to ",
    ).concat(selected_thread).concat(".")
}

/// The threads of the suggestions, in the order of the suggestions.
pub fn suggested_threads(suggestions: &Vec<Suggestion>) -> (threads: Vec<String>)
    ensures
        threads.deep_view() == suggestions.deep_view(),
{
    let mut threads: Vec<String> = Vec::new();
    let mut i: usize = 0;
    while i < suggestions.len()
        invariant
            i <= suggestions.len(),
            threads.deep_view() == suggestions.deep_view().take(i as int),
        decreases suggestions.len() - i,
    {
        let ghost before = threads.deep_view();
        threads.push(suggestions[i].thread.clone());
        assert(threads.deep_view() == before.push(suggestions.deep_view()[i as int]));
        i += 1;
    }
    assert(suggestions.deep_view().take(i as int) == suggestions.deep_view());
    threads
}

/// The threads that are suggested where the language model could not be
/// reached.
pub open spec fn default_threads() -> Seq<Seq<char>> {
    seq!["Default suggestion one"@, "Default suggestion two"@, "Default suggestion 3"@]
}

/// The answer to a request for threads: those that the language model
/// suggested, or three defaults where it could not be reached.
pub fn thread_suggestion_reply<E>(outcome: Result<Vec<String>, E>) -> (reply: ModelThreads)
    ensures
        reply.suggested_threads.deep_view() == match outcome {
            Ok(threads) => threads.deep_view(),
            Err(_) => default_threads(),
        },
{
    let model_thread_suggestions = match outcome {
        Ok(thread_suggestions) => thread_suggestions,
        Err(_) => {
            let mut defaults: Vec<String> = Vec::new();
            defaults.push(String::from_str("Default suggestion one"));
            defaults.push(String::from_str("Default suggestion two"));
            defaults.push(String::from_str("Default suggestion 3"));
            assert(defaults.deep_view() == default_threads());
            defaults
        },
    };
    ModelThreads { suggested_threads: model_thread_suggestions }
}

/// The answer to a request to enhance a model along a thread: what the
/// language model replied, or an example where it could not be reached.
pub fn thread_composition_reply<E>(outcome: Result<String, E>) -> (reply: ModelComposition)
    ensures
        reply.composition_text@ == match outcome {
            Ok(text) => text@,
            Err(_) => "This is an example of thread composition!"@,
        },
{
    let thread_composition = match outcome {
        Ok(thread_composition) => thread_composition,
        Err(_) => String::from_str("This is an example of thread composition!"),
    };
    ModelComposition { composition_text: thread_composition }
}

} // verus!
