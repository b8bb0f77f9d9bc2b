use catcolab::autolab::{
    suggested_threads, thread_composition_prompt, thread_composition_reply,
    thread_suggestion_prompt, thread_suggestion_reply, ModelThreads, Suggestion,
};
use catcolab::composition::{
    composition_prompt, composition_reply, gemini_url, system_instruction, Candidate, Content,
    LlmResponse, ModelComposition, Part, FLASH_MODEL, REASONING_MODEL, THINKING_MODEL,
};
use catcolab::text::{
    concatenated, copy_text, same_text, strip_prefix, trim_end_matches, trim_start_matches,
};
use catcolab::translation::{translation_prompt, translation_reply, ModelTranslation};

fn response(texts: &[&str]) -> LlmResponse {
    LlmResponse {
        candidates: vec![Candidate {
            content: Content {
                parts: texts.iter().map(|text| Part { text: text.to_string() }).collect(),
                role: "model".to_string(),
            },
            finish_reason: Some("STOP".to_string()),
        }],
        model_version: None,
        usage_metadata: None,
    }
}

#[test]
fn prefixes_are_stripped_whole_or_not_at_all() {
    assert_eq!(strip_prefix("Bearer abc", "Bearer "), Some("abc"));
    assert_eq!(strip_prefix("Bearer ", "Bearer "), Some(""));
    assert_eq!(strip_prefix("Bearer", "Bearer "), None);
    assert_eq!(strip_prefix("bearer abc", "Bearer "), None);
    assert_eq!(strip_prefix("abc", ""), Some("abc"));
    assert_eq!(strip_prefix("", ""), Some(""));
    assert_eq!(strip_prefix("", "a"), None);
    assert_eq!(strip_prefix("ééa", "é"), Some("éa"));
    assert_eq!(strip_prefix("xBearer abc", "Bearer "), None);
}

#[test]
fn characters_are_trimmed_from_one_end_only() {
    assert_eq!(trim_start_matches("[[a]]", '['), "a]]");
    assert_eq!(trim_end_matches("[[a]]", ']'), "[[a");
    assert_eq!(trim_start_matches("a[b", '['), "a[b");
    assert_eq!(trim_end_matches("a]b", ']'), "a]b");
    assert_eq!(trim_start_matches("[[[", '['), "");
    assert_eq!(trim_end_matches("]]]", ']'), "");
    assert_eq!(trim_start_matches("", '['), "");
    assert_eq!(trim_end_matches("", ']'), "");
    assert_eq!(trim_start_matches("ééa", 'é'), "a");
    assert_eq!(trim_end_matches("aéé", 'é'), "a");
}

#[test]
fn texts_are_concatenated_in_order() {
    assert_eq!(concatenated(&vec![]), "");
    assert_eq!(concatenated(&vec!["a".to_string()]), "a");
    assert_eq!(
        concatenated(&vec!["{\"a\":1}".to_string(), String::new(), "{\"b\":2}".to_string()]),
        "{\"a\":1}{\"b\":2}"
    );
}

#[test]
fn the_address_names_the_model_and_carries_the_key() {
    assert_eq!(
        gemini_url(FLASH_MODEL, "k3y"),
        "https://generativelanguage.googleapis.com/v1beta/models/gemini-2.0-flash:generateContent?key=k3y"
    );
    assert_eq!(
        gemini_url(THINKING_MODEL, "k3y"),
        "https://generativelanguage.googleapis.com/v1beta/models/gemini-2.0-flash-thinking-exp-01-21:generateContent?key=k3y"
    );
    assert_eq!(
        gemini_url(REASONING_MODEL, ""),
        "https://generativelanguage.googleapis.com/v1beta/models/gemini-2.5-pro-exp-03-25:generateContent?key="
    );
}

#[test]
fn the_instruction_has_a_default() {
    assert_eq!(system_instruction(Some("Be brief.".to_string())), "Be brief.");
    assert_eq!(system_instruction(None), "The default instruction");
    assert_eq!(catcolab::autolab::system_instruction(Ok("Be brief.".to_string())), "Be brief.");
    assert_eq!(
        catcolab::autolab::system_instruction(Err("No such file".to_string())),
        "The default instruction: No such file"
    );
}

#[test]
fn the_composition_prompt_names_models_and_application() {
    let models = vec!["{A}".to_string(), "{B}".to_string()];
    assert_eq!(
        composition_prompt(&models, "epidemiology"),
        "Combine the following models, Models: {A}{B} so as to be insighful in this: epidemiology application"
    );
    assert_eq!(
        composition_prompt(&vec![], ""),
        "Combine the following models, Models:  so as to be insighful in this:  application"
    );
}

#[test]
fn the_translation_prompt_names_model_and_theory() {
    assert_eq!(
        translation_prompt("{M}", "stock-flow"),
        "Translate the following model: {M} to a model in this: stock-flow target theory. Ensure that the Json Output conforms to the provided schema"
    );
}

#[test]
fn the_thread_prompts_name_model_and_thread() {
    assert_eq!(
        thread_suggestion_prompt("{M}"),
        "Suggest possible enhancement options for the following model: {M}. The suggestions should be a list of Strings"
    );
    assert_eq!(
        thread_composition_prompt("{M}", &vec!["{A}".to_string(), "{B}".to_string()], "growth"),
        "Enhance the following model {M} using the thread growth. Use the following library Models: {A}{B} as source material and ensure that the enhancement only includes content that is similar to growth."
    );
}

#[test]
fn the_reply_is_the_first_part_without_its_brackets() {
    assert_eq!(response(&["[{\"a\": [1]}]", "ignored"]).reply(), "{\"a\": [1]}");
    assert_eq!(response(&["[[x]]"]).reply(), "x");
    assert_eq!(response(&["]x["]).reply(), "]x[");
    assert_eq!(response(&["plain"]).reply(), "plain");
    assert_eq!(response(&["[]"]).reply(), "");
    assert_eq!(response(&["[a]b]"]).first_text(), "[a]b]");
    assert_eq!(response(&["[a]b]"]).reply(), "a]b");
}

#[test]
fn an_answer_without_a_part_has_no_text() {
    assert!(response(&["a"]).has_text());
    assert!(!response(&[]).has_text());
    let empty = LlmResponse { candidates: vec![], model_version: None, usage_metadata: None };
    assert!(!empty.has_text());
}

#[test]
fn replies_fall_back_when_the_model_cannot_be_reached() {
    assert_eq!(
        composition_reply(Ok::<String, ()>("done".to_string())),
        ModelComposition { composition_text: "done".to_string() }
    );
    assert_eq!(
        composition_reply(Err::<String, &str>("timeout")),
        ModelComposition { composition_text: "AI run into an error".to_string() }
    );
    assert_eq!(
        translation_reply(Ok::<String, ()>("{}".to_string())),
        ModelTranslation { translated_json: "{}".to_string() }
    );
    assert_eq!(
        translation_reply(Err::<String, &str>("timeout")),
        ModelTranslation { translated_json: "AI run into an error".to_string() }
    );
    assert_eq!(
        thread_composition_reply(Ok::<String, ()>("done".to_string())),
        ModelComposition { composition_text: "done".to_string() }
    );
    assert_eq!(
        thread_composition_reply(Err::<String, &str>("timeout")),
        ModelComposition {
            composition_text: "This is an example of thread composition!".to_string()
        }
    );
}

#[test]
fn suggested_threads_fall_back_to_three_defaults() {
    let suggestions = vec![
        Suggestion { thread: "growth".to_string() },
        Suggestion { thread: "decay".to_string() },
    ];
    let threads = suggested_threads(&suggestions);
    assert_eq!(threads, vec!["growth".to_string(), "decay".to_string()]);
    assert_eq!(
        thread_suggestion_reply(Ok::<Vec<String>, ()>(threads.clone())),
        ModelThreads { suggested_threads: threads }
    );
    assert_eq!(
        thread_suggestion_reply(Err::<Vec<String>, &str>("timeout")),
        ModelThreads {
            suggested_threads: vec![
                "Default suggestion one".to_string(),
                "Default suggestion two".to_string(),
                "Default suggestion 3".to_string(),
            ]
        }
    );
    assert_eq!(suggested_threads(&vec![]), Vec::<String>::new());
}

#[test]
fn texts_that_may_be_absent_are_copied_and_compared() {
    let absent: Option<String> = None;
    let empty = Some(String::new());
    let ada = Some("ada".to_string());
    assert_eq!(copy_text(&absent), None);
    assert_eq!(copy_text(&empty), Some(String::new()));
    assert_eq!(copy_text(&ada), Some("ada".to_string()));
    assert!(same_text(&absent, &absent));
    assert!(same_text(&ada, &Some("ada".to_string())));
    assert!(!same_text(&ada, &Some("Ada".to_string())));
    assert!(!same_text(&absent, &empty));
    assert!(!same_text(&empty, &absent));
}
