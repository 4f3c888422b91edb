//! The user's preferences, as far as the core reads them: the model chosen
//! for each capability and the words that prime a decode.
//!
//! Where and how preferences are stored is not decided here. The store
//! hands in a value of `AppPreferences` and takes back the changed one.

use crate::models::{option_view, ModelKind};
use vstd::prelude::*;
use vstd::string::*;

verus! {

/// The preferences of one user.
#[derive(Clone, Debug)]
pub struct AppPreferences {
    /// The model for speech decoding; `None` leaves the choice to the core.
    pub active_whisper_model: Option<String>,
    /// The model for text formatting; `None` leaves the choice to the core.
    pub active_llm_model: Option<String>,
    /// Words the user expects in transcripts, each one once.
    pub custom_vocabulary: Vec<String>,
}

/// The characters of each word.
pub open spec fn words_view(words: Seq<String>) -> Seq<Seq<char>> {
    Seq::new(words.len(), |i: int| words[i]@)
}

/// Whether `word` is among `words`.
pub open spec fn has_word(words: Seq<String>, word: Seq<char>) -> bool {
    exists|i: int| 0 <= i < words.len() && (#[trigger] words[i])@ == word
}

/// `words` without every occurrence of `word`, in the same order.
pub open spec fn without_word(words: Seq<Seq<char>>, word: Seq<char>) -> Seq<Seq<char>>
    decreases words.len(),
{
    if words.len() == 0 {
        Seq::empty()
    } else if words.last() == word {
        without_word(words.drop_last(), word)
    } else {
        without_word(words.drop_last(), word).push(words.last())
    }
}

/// Words joined by a comma and a space.
pub open spec fn join_words(words: Seq<Seq<char>>) -> Seq<char>
    decreases words.len(),
{
    if words.len() == 0 {
        Seq::empty()
    } else if words.len() == 1 {
        words[0]
    } else {
        join_words(words.drop_last()) + ", "@ + words.last()
    }
}

/// The text that primes a decode with the user's words, if there are any.
pub open spec fn spec_vocabulary_prompt(words: Seq<Seq<char>>) -> Option<Seq<char>> {
    if words.len() == 0 {
        None
    } else {
        Some("Custom vocabulary: "@ + join_words(words))
    }
}

impl Default for AppPreferences {
    /// No model chosen, no words.
    fn default() -> (preferences: Self)
        ensures
            preferences.active_whisper_model is None,
            preferences.active_llm_model is None,
            preferences.custom_vocabulary@.len() == 0,
    {
        AppPreferences {
            active_whisper_model: None,
            active_llm_model: None,
            custom_vocabulary: Vec::new(),
        }
    }
}

impl AppPreferences {
    /// The model preferred for `kind`.
    pub open spec fn spec_active_model(self, kind: ModelKind) -> Option<String> {
        match kind {
            ModelKind::Whisper => self.active_whisper_model,
            ModelKind::LLM => self.active_llm_model,
        }
    }

    /// The model preferred for `kind`.
    pub fn active_model(&self, kind: ModelKind) -> (model: &Option<String>)
        ensures
            *model == self.spec_active_model(kind),
    {
        match kind {
            ModelKind::Whisper => &self.active_whisper_model,
            ModelKind::LLM => &self.active_llm_model,
        }
    }

    /// Sets the model for speech decoding and says whether the preference
    /// changed, in which case the engine slot for speech decoding is to be
    /// emptied.
    pub fn set_active_whisper_model(&mut self, model_id: Option<String>) -> (changed: bool)
        ensures
            final(self).active_whisper_model == model_id,
            final(self).active_llm_model == old(self).active_llm_model,
            final(self).custom_vocabulary == old(self).custom_vocabulary,
            changed == (option_view(old(self).active_whisper_model) != option_view(model_id)),
    {
        let changed = !same_choice(&self.active_whisper_model, &model_id);
        self.active_whisper_model = model_id;
        changed
    }

    /// Sets the model for text formatting and says whether the preference
    /// changed.
    pub fn set_active_llm_model(&mut self, model_id: Option<String>) -> (changed: bool)
        ensures
            final(self).active_llm_model == model_id,
            final(self).active_whisper_model == old(self).active_whisper_model,
            final(self).custom_vocabulary == old(self).custom_vocabulary,
            changed == (option_view(old(self).active_llm_model) != option_view(model_id)),
    {
        let changed = !same_choice(&self.active_llm_model, &model_id);
        self.active_llm_model = model_id;
        changed
    }

    /// Adds a word at the end of the vocabulary unless it is there
    /// already, and says whether it was added.
    pub fn add_vocabulary_word(&mut self, word: String) -> (added: bool)
        ensures
            final(self).active_whisper_model == old(self).active_whisper_model,
            final(self).active_llm_model == old(self).active_llm_model,
            added == !has_word(old(self).custom_vocabulary@, word@),
            added ==> final(self).custom_vocabulary@ == old(self).custom_vocabulary@.push(word),
            !added ==> final(self).custom_vocabulary@ == old(self).custom_vocabulary@,
    {
        let mut i: usize = 0;
        while i < self.custom_vocabulary.len()
            invariant
                *self == *old(self),
                i <= self.custom_vocabulary@.len(),
                forall|k: int| 0 <= k < i ==> (#[trigger] self.custom_vocabulary@[k])@ != word@,
            decreases self.custom_vocabulary@.len() - i,
        {
            if self.custom_vocabulary[i] == word {
                return false;
            }
            i = i + 1;
        }
        self.custom_vocabulary.push(word);
        true
    }

    /// Removes every occurrence of a word and says whether there was one.
    pub fn remove_vocabulary_word(&mut self, word: &String) -> (removed: bool)
        ensures
            final(self).active_whisper_model == old(self).active_whisper_model,
            final(self).active_llm_model == old(self).active_llm_model,
            words_view(final(self).custom_vocabulary@) == without_word(
                words_view(old(self).custom_vocabulary@),
                word@,
            ),
            removed == has_word(old(self).custom_vocabulary@, word@),
    {
        let ghost before = self.custom_vocabulary@;
        let mut kept: Vec<String> = Vec::new();
        let mut removed = false;
        let mut i: usize = 0;
        assert(words_view(before).take(0) =~= Seq::<Seq<char>>::empty());
        while i < self.custom_vocabulary.len()
            invariant
                *self == *old(self),
                before == self.custom_vocabulary@,
                i <= before.len(),
                words_view(kept@) == without_word(words_view(before).take(i as int), word@),
                removed == exists|k: int| 0 <= k < i && (#[trigger] before[k])@ == word@,
            decreases before.len() - i,
        {
            proof {
                let all = words_view(before);
                assert(all.take(i + 1).drop_last() =~= all.take(i as int));
                assert(all.take(i + 1).last() == before[i as int]@);
            }
            if self.custom_vocabulary[i] == *word {
                removed = true;
            } else {
                let ghost held = kept@;
                kept.push(self.custom_vocabulary[i].clone());
                assert(words_view(kept@) =~= words_view(held).push(before[i as int]@));
            }
            i = i + 1;
        }
        assert(words_view(before).take(before.len() as int) =~= words_view(before));
        self.custom_vocabulary = kept;
        removed
    }

    /// A copy of the vocabulary.
    pub fn get_vocabulary(&self) -> (words: Vec<String>)
        ensures
            words_view(words@) == words_view(self.custom_vocabulary@),
    {
        let mut words: Vec<String> = Vec::new();
        let mut i: usize = 0;
        while i < self.custom_vocabulary.len()
            invariant
                i <= self.custom_vocabulary@.len(),
                words@.len() == i,
                forall|k: int| 0 <= k < i ==> (#[trigger] words@[k])@ == self.custom_vocabulary@[k]@,
            decreases self.custom_vocabulary@.len() - i,
        {
            words.push(self.custom_vocabulary[i].clone());
            i = i + 1;
        }
        assert(words_view(words@) =~= words_view(self.custom_vocabulary@));
        words
    }

    /// The text that primes a decode with the user's words, or `None`
    /// where the vocabulary is empty. It is handed to the engine as a bias
    /// and changes nothing else about the decode.
    pub fn vocabulary_prompt(&self) -> (prompt: Option<String>)
        ensures
            option_view(prompt) == spec_vocabulary_prompt(words_view(self.custom_vocabulary@)),
    {
        if self.custom_vocabulary.len() == 0 {
            return None;
        }
        let ghost all = words_view(self.custom_vocabulary@);
        let mut joined = String::new();
        let mut i: usize = 0;
        assert(all.take(0) =~= Seq::<Seq<char>>::empty());
        while i < self.custom_vocabulary.len()
            invariant
                all == words_view(self.custom_vocabulary@),
                i <= self.custom_vocabulary@.len(),
                joined@ == join_words(all.take(i as int)),
            decreases self.custom_vocabulary@.len() - i,
        {
            proof {
                assert(all.take(i + 1).drop_last() =~= all.take(i as int));
                assert(all.take(i + 1).last() == self.custom_vocabulary@[i as int]@);
            }
            if i > 0 {
                joined.append(", ");
            }
            joined.append(self.custom_vocabulary[i].as_str());
            i = i + 1;
        }
        assert(all.take(all.len() as int) =~= all);
        let prompt = String::from_str("Custom vocabulary: ").concat(joined.as_str());
        Some(prompt)
    }
}

/// Whether two preferences name the same model, or both name none.
pub fn same_choice(left: &Option<String>, right: &Option<String>) -> (same: bool)
    ensures
        same == (option_view(*left) == option_view(*right)),
{
    match (left, right) {
        (Some(a), Some(b)) => *a == *b,
        (None, None) => true,
        _ => false,
    }
}

} // verus!
