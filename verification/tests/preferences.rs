use supavoice::models::ModelKind;
use supavoice::preferences::{same_choice, AppPreferences};

fn with_words(words: &[&str]) -> AppPreferences {
    let mut preferences = AppPreferences::default();
    for word in words {
        preferences.add_vocabulary_word(word.to_string());
    }
    preferences
}

#[test]
fn defaults_leave_everything_to_the_core() {
    let preferences = AppPreferences::default();
    assert_eq!(preferences.active_whisper_model, None);
    assert_eq!(preferences.active_llm_model, None);
    assert!(preferences.custom_vocabulary.is_empty());
    assert_eq!(preferences.vocabulary_prompt(), None);
}

#[test]
fn a_model_is_chosen_per_capability() {
    let mut preferences = AppPreferences::default();
    assert!(preferences.set_active_whisper_model(Some("whisper-small".to_string())));
    assert_eq!(preferences.active_model(ModelKind::Whisper), &Some("whisper-small".to_string()));
    assert_eq!(preferences.active_model(ModelKind::LLM), &None);
    assert!(preferences.set_active_llm_model(Some("qwen2-1.5b-instruct".to_string())));
    assert_eq!(preferences.active_model(ModelKind::LLM), &Some("qwen2-1.5b-instruct".to_string()));
    assert_eq!(preferences.active_model(ModelKind::Whisper), &Some("whisper-small".to_string()));
}

#[test]
fn setting_the_same_model_is_no_change() {
    let mut preferences = AppPreferences::default();
    assert!(!preferences.set_active_whisper_model(None));
    assert!(preferences.set_active_whisper_model(Some("whisper-small".to_string())));
    assert!(!preferences.set_active_whisper_model(Some("whisper-small".to_string())));
    assert!(preferences.set_active_whisper_model(Some("whisper-base-en".to_string())));
    assert!(preferences.set_active_whisper_model(None));
    assert!(!preferences.set_active_llm_model(None));
}

#[test]
fn choices_are_compared_by_their_text() {
    assert!(same_choice(&None, &None));
    assert!(same_choice(&Some("a".to_string()), &Some("a".to_string())));
    assert!(!same_choice(&Some("a".to_string()), &Some("b".to_string())));
    assert!(!same_choice(&Some("a".to_string()), &None));
    assert!(!same_choice(&None, &Some(String::new())));
}

#[test]
fn words_are_added_once_and_in_order() {
    let mut preferences = AppPreferences::default();
    assert!(preferences.add_vocabulary_word("Verus".to_string()));
    assert!(preferences.add_vocabulary_word("Kubernetes".to_string()));
    assert!(!preferences.add_vocabulary_word("Verus".to_string()));
    assert_eq!(preferences.get_vocabulary(), vec!["Verus", "Kubernetes"]);
}

#[test]
fn words_differ_by_case() {
    let mut preferences = with_words(&["verus"]);
    assert!(preferences.add_vocabulary_word("Verus".to_string()));
    assert_eq!(preferences.custom_vocabulary, vec!["verus", "Verus"]);
}

#[test]
fn a_word_is_removed_wherever_it_stands() {
    let mut preferences = with_words(&["a", "b", "c"]);
    preferences.custom_vocabulary.push("b".to_string());
    assert!(preferences.remove_vocabulary_word(&"b".to_string()));
    assert_eq!(preferences.custom_vocabulary, vec!["a", "c"]);
}

#[test]
fn removing_an_unknown_word_changes_nothing() {
    let mut preferences = with_words(&["a", "b"]);
    assert!(!preferences.remove_vocabulary_word(&"z".to_string()));
    assert_eq!(preferences.custom_vocabulary, vec!["a", "b"]);
    let mut empty = AppPreferences::default();
    assert!(!empty.remove_vocabulary_word(&"a".to_string()));
}

#[test]
fn vocabulary_changes_leave_the_models_alone() {
    let mut preferences = AppPreferences::default();
    preferences.set_active_whisper_model(Some("whisper-small".to_string()));
    preferences.add_vocabulary_word("word".to_string());
    preferences.remove_vocabulary_word(&"word".to_string());
    assert_eq!(preferences.active_whisper_model, Some("whisper-small".to_string()));
    assert_eq!(preferences.active_llm_model, None);
}

#[test]
fn the_prompt_lists_the_words() {
    assert_eq!(
        with_words(&["Verus"]).vocabulary_prompt(),
        Some("Custom vocabulary: Verus".to_string())
    );
    assert_eq!(
        with_words(&["Verus", "Kubernetes", "Łódź"]).vocabulary_prompt(),
        Some("Custom vocabulary: Verus, Kubernetes, Łódź".to_string())
    );
}

#[test]
fn get_vocabulary_is_a_copy() {
    let preferences = with_words(&["a", "b"]);
    let mut copy = preferences.get_vocabulary();
    copy.push("c".to_string());
    assert_eq!(preferences.custom_vocabulary, vec!["a", "b"]);
}
