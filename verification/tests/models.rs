use supavoice::error::CoreError;
use supavoice::models::{candidate_ids, find_installed, resolve_model, ModelKind, ModelRecord};

fn record(id: &str, kind: ModelKind, path: Option<&str>) -> ModelRecord {
    ModelRecord {
        id: id.to_string(),
        name: id.to_uppercase(),
        kind,
        size_mb: 100,
        download_url: format!("https://models.example/{}", id),
        checksum: String::new(),
        path: path.map(|p| p.to_string()),
    }
}

fn catalog(installed: &[&str]) -> Vec<ModelRecord> {
    let all = [
        ("whisper-small-en", ModelKind::Whisper),
        ("whisper-base-en", ModelKind::Whisper),
        ("whisper-small", ModelKind::Whisper),
        ("gemma-2-2b-instruct", ModelKind::LLM),
        ("qwen2-1.5b-instruct", ModelKind::LLM),
    ];
    all.iter()
        .map(|(id, kind)| {
            let path = format!("/models/{}", id);
            record(id, *kind, if installed.contains(id) { Some(path.as_str()) } else { None })
        })
        .collect()
}

fn resolved(
    preference: Option<&str>,
    kind: ModelKind,
    installed: &[&str],
) -> Result<(String, String), CoreError> {
    let preference = preference.map(|p| p.to_string());
    resolve_model(&preference, kind, &catalog(installed)).map(|m| (m.id, m.path))
}

#[test]
fn candidates_are_tried_in_a_fixed_order() {
    assert_eq!(
        candidate_ids(ModelKind::Whisper),
        vec!["whisper-base-en", "whisper-small-en", "whisper-small"]
    );
    assert_eq!(candidate_ids(ModelKind::LLM), vec!["gemma-2-2b-instruct", "qwen2-1.5b-instruct"]);
}

#[test]
fn the_first_installed_candidate_is_taken() {
    assert_eq!(
        resolved(None, ModelKind::Whisper, &["whisper-small", "whisper-small-en"]),
        Ok(("whisper-small-en".to_string(), "/models/whisper-small-en".to_string()))
    );
    assert_eq!(
        resolved(None, ModelKind::Whisper, &["whisper-small", "whisper-base-en"]),
        Ok(("whisper-base-en".to_string(), "/models/whisper-base-en".to_string()))
    );
    assert_eq!(
        resolved(None, ModelKind::Whisper, &["whisper-small"]),
        Ok(("whisper-small".to_string(), "/models/whisper-small".to_string()))
    );
    assert_eq!(
        resolved(None, ModelKind::LLM, &["qwen2-1.5b-instruct"]),
        Ok(("qwen2-1.5b-instruct".to_string(), "/models/qwen2-1.5b-instruct".to_string()))
    );
}

#[test]
fn nothing_installed_means_unavailable() {
    assert_eq!(resolved(None, ModelKind::Whisper, &[]), Err(CoreError::ModelUnavailable));
    assert_eq!(resolved(None, ModelKind::LLM, &[]), Err(CoreError::ModelUnavailable));
    assert_eq!(
        resolved(Some("whisper-small"), ModelKind::Whisper, &[]),
        Err(CoreError::ModelUnavailable)
    );
}

#[test]
fn models_of_the_other_capability_do_not_serve() {
    assert_eq!(
        resolved(None, ModelKind::Whisper, &["gemma-2-2b-instruct"]),
        Err(CoreError::ModelUnavailable)
    );
    assert_eq!(
        resolved(None, ModelKind::LLM, &["whisper-base-en"]),
        Err(CoreError::ModelUnavailable)
    );
}

#[test]
fn a_preference_wins_over_the_order() {
    assert_eq!(
        resolved(Some("whisper-small"), ModelKind::Whisper, &["whisper-base-en", "whisper-small"]),
        Ok(("whisper-small".to_string(), "/models/whisper-small".to_string()))
    );
}

#[test]
fn a_preference_that_is_not_installed_is_not_replaced() {
    assert_eq!(
        resolved(Some("whisper-small"), ModelKind::Whisper, &["whisper-base-en"]),
        Err(CoreError::ModelUnavailable)
    );
}

#[test]
fn an_unknown_preference_is_unavailable() {
    assert_eq!(
        resolved(Some("whisper-large"), ModelKind::Whisper, &["whisper-base-en"]),
        Err(CoreError::ModelUnavailable)
    );
}

#[test]
fn an_empty_registry_serves_nothing() {
    assert_eq!(
        resolve_model(&None, ModelKind::Whisper, &Vec::new()).err(),
        Some(CoreError::ModelUnavailable)
    );
}

#[test]
fn find_installed_reads_the_path() {
    let records = catalog(&["whisper-small"]);
    assert_eq!(
        find_installed(&records, &"whisper-small".to_string()),
        Some("/models/whisper-small".to_string())
    );
    assert_eq!(find_installed(&records, &"whisper-base-en".to_string()), None);
    assert_eq!(find_installed(&records, &"nothing".to_string()), None);
}

#[test]
fn the_first_record_of_an_id_counts() {
    let records = vec![
        record("whisper-small", ModelKind::Whisper, None),
        record("whisper-small", ModelKind::Whisper, Some("/later")),
    ];
    assert_eq!(find_installed(&records, &"whisper-small".to_string()), None);
}
