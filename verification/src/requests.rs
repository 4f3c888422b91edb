//! What a request sets in motion: the steps between the user's preferences
//! and an engine that can be run.
//!
//! A transcription first settles which model serves it and whether that
//! model's engine is loaded, and only then turns to the audio. A change of
//! the preferred model empties the slot of its capability at once and names
//! the model to load ahead of the next request.

use crate::cache::{spec_plan_request, EnginePlan, EnginePlanView, SessionCache};
use crate::error::CoreError;
use crate::models::{option_view, spec_resolve, ModelKind, ModelRecord};
use crate::preferences::{spec_vocabulary_prompt, words_view, AppPreferences};
use vstd::prelude::*;

verus! {

/// What a transcription starts from.
#[derive(Debug)]
pub struct TranscriptionRequest {
    /// What to do about the engine.
    pub engine: EnginePlan,
    /// The text that primes the decode with the user's words, if any.
    pub prompt: Option<String>,
}

/// Opens a request for `kind`: resolves the model the preferences ask
/// for and says what to do about its engine. A capability without a model
/// fails here.
pub fn prepare_request<E>(
    preferences: &AppPreferences,
    kind: ModelKind,
    cache: &SessionCache<E>,
    records: &Vec<ModelRecord>,
) -> (result: Result<EnginePlan, CoreError>)
    ensures
        match result {
            Ok(plan) => spec_plan_request(
                cache.model_id(),
                cache.generation(),
                option_view(preferences.spec_active_model(kind)),
                kind,
                records@,
            ) == Ok::<EnginePlanView, CoreError>(plan@),
            Err(e) => spec_plan_request(
                cache.model_id(),
                cache.generation(),
                option_view(preferences.spec_active_model(kind)),
                kind,
                records@,
            ) == Err::<EnginePlanView, CoreError>(e),
        },
{
    cache.plan_request(preferences.active_model(kind), kind, records)
}

/// Opens a transcription: settles the model and the engine, then builds
/// the prompt from the user's words. No audio is needed for this, and
/// where no model is installed it fails before any is loaded.
pub fn prepare_transcription<E>(
    preferences: &AppPreferences,
    cache: &SessionCache<E>,
    records: &Vec<ModelRecord>,
) -> (result: Result<TranscriptionRequest, CoreError>)
    ensures
        match result {
            Ok(request) => {
                &&& spec_plan_request(
                    cache.model_id(),
                    cache.generation(),
                    option_view(preferences.active_whisper_model),
                    ModelKind::Whisper,
                    records@,
                ) == Ok::<EnginePlanView, CoreError>(request.engine@)
                &&& option_view(request.prompt) == spec_vocabulary_prompt(
                    words_view(preferences.custom_vocabulary@),
                )
            },
            Err(e) => spec_plan_request(
                cache.model_id(),
                cache.generation(),
                option_view(preferences.active_whisper_model),
                ModelKind::Whisper,
                records@,
            ) == Err::<EnginePlanView, CoreError>(e),
        },
{
    match prepare_request(preferences, ModelKind::Whisper, cache, records) {
        Err(e) => Err(e),
        Ok(engine) => Ok(TranscriptionRequest { engine, prompt: preferences.vocabulary_prompt() }),
    }
}

/// Makes `model_id` the preferred model of `kind`. The slot of the
/// capability is emptied whether or not the choice differs from the one
/// before; the engine it held comes back, together with the plan for
/// loading the newly preferred model ahead of the next request, if that
/// model is installed.
pub fn choose_model<E>(
    preferences: &mut AppPreferences,
    kind: ModelKind,
    model_id: Option<String>,
    cache: &mut SessionCache<E>,
    records: &Vec<ModelRecord>,
) -> (result: (Option<E>, Option<EnginePlan>))
    ensures
        final(preferences).spec_active_model(kind) == model_id,
        final(preferences).custom_vocabulary == old(preferences).custom_vocabulary,
        kind == ModelKind::Whisper ==> final(preferences).active_llm_model == old(
            preferences,
        ).active_llm_model,
        kind == ModelKind::LLM ==> final(preferences).active_whisper_model == old(
            preferences,
        ).active_whisper_model,
        *final(cache) == old(cache).invalidated(),
        final(cache).engine() is None,
        result.0 == old(cache).engine(),
        match result.1 {
            Some(plan) => spec_plan_request(
                None,
                final(cache).generation(),
                option_view(model_id),
                kind,
                records@,
            ) == Ok::<EnginePlanView, CoreError>(plan@),
            None => spec_resolve(option_view(model_id), kind, records@) is Err,
        },
{
    match kind {
        ModelKind::Whisper => {
            preferences.set_active_whisper_model(model_id);
        },
        ModelKind::LLM => {
            preferences.set_active_llm_model(model_id);
        },
    }
    cache.change_preference(preferences.active_model(kind), kind, records)
}

/// Where no model is installed, a request fails as unavailable whatever
/// the preference and whatever the slot holds.
pub proof fn lemma_request_needs_a_model(
    cached: Option<Seq<char>>,
    generation: nat,
    preference: Option<Seq<char>>,
    kind: ModelKind,
    records: Seq<ModelRecord>,
)
    requires
        forall|i: int| 0 <= i < records.len() ==> (#[trigger] records[i]).path is None,
    ensures
        spec_plan_request(cached, generation, preference, kind, records) == Err::<
            EnginePlanView,
            CoreError,
        >(CoreError::ModelUnavailable),
{
    crate::models::lemma_nothing_installed_unavailable(preference, kind, records);
}

} // verus!
