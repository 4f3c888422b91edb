//! Greedy decoding: the token sequence of one decode, and the choice of the
//! next token.
//!
//! The engine scores every token of its vocabulary at each step. The best
//! score wins; nothing is sampled, so a decode of the same audio gives the
//! same tokens. The sequence starts with a fixed prompt that sets the
//! language and the task, and ends when the engine's best token is the end
//! mark. The length of the output is not capped here.
//!
//! Tokens that stand for blanks and for sounds that are no speech can be
//! suppressed: they are never chosen, whatever their score.
//!
//! Scores are compared as integers. A caller that holds them as floating
//! point numbers hands in keys that are ordered as the scores are.

use vstd::prelude::*;

verus! {

/// Start of a transcript.
pub const SOT_TOKEN: u32 = 50258;

/// End of a transcript.
pub const EOT_TOKEN: u32 = 50257;

/// The language the engine decodes: English.
pub const LANGUAGE_TOKEN: u32 = 50259;

/// The task: write down what was said, in the language it was said in.
pub const TRANSCRIBE_TOKEN: u32 = 50359;

/// No timestamps among the output tokens.
pub const NO_TIMESTAMPS_TOKEN: u32 = 50363;

/// Marks the tokens before it as text that came before the audio.
pub const START_OF_PREV_TOKEN: u32 = 50361;

/// A single space.
pub const BLANK_TOKEN: u32 = 220;

/// The tokens every decode starts with.
pub open spec fn prompt() -> Seq<u32> {
    seq![SOT_TOKEN, LANGUAGE_TOKEN, TRANSCRIBE_TOKEN, NO_TIMESTAMPS_TOKEN]
}

/// The tokens that may not be chosen at a step: those the model lists as
/// no speech, and at the first step also the blank and the end mark, so
/// that no transcript begins with a blank or with its own end.
pub open spec fn spec_suppressed_at(first_step: bool, base: Seq<u32>) -> Seq<u32> {
    if first_step {
        base + seq![BLANK_TOKEN, EOT_TOKEN]
    } else {
        base
    }
}

/// The tokens that bias a decode towards the user's words: the mark for
/// earlier text and the tokens of the priming text, or nothing where there
/// is no such text.
pub open spec fn spec_bias(priming: Option<Seq<u32>>) -> Seq<u32> {
    match priming {
        Some(tokens) => seq![START_OF_PREV_TOKEN] + tokens,
        None => Seq::empty(),
    }
}

/// The tokens of an optional list.
pub open spec fn tokens_view(tokens: Option<&Vec<u32>>) -> Option<Seq<u32>> {
    match tokens {
        Some(t) => Some(t@),
        None => None,
    }
}

/// Whether the token at `index` may be chosen: it is a token, and it is not
/// among the suppressed ones.
pub open spec fn is_allowed(suppressed: Seq<u32>, index: int) -> bool {
    0 <= index <= u32::MAX && !suppressed.contains(index as u32)
}

/// `index` holds the best score among the tokens that may be chosen, and no
/// later such token holds one as good.
pub open spec fn is_last_best(scores: Seq<i32>, suppressed: Seq<u32>, index: int) -> bool {
    &&& 0 <= index < scores.len()
    &&& is_allowed(suppressed, index)
    &&& forall|j: int|
        0 <= j < scores.len() && #[trigger] is_allowed(suppressed, j) ==> scores[j]
            <= scores[index]
    &&& forall|j: int|
        index < j < scores.len() && #[trigger] is_allowed(suppressed, j) ==> scores[j]
            < scores[index]
}

/// Whether `token` is among `suppressed`.
pub fn is_suppressed(suppressed: &Vec<u32>, token: u32) -> (found: bool)
    ensures
        found == suppressed@.contains(token),
{
    let mut i: usize = 0;
    while i < suppressed.len()
        invariant
            i <= suppressed@.len(),
            forall|k: int| 0 <= k < i ==> suppressed@[k] != token,
        decreases suppressed@.len() - i,
    {
        if suppressed[i] == token {
            return true;
        }
        i = i + 1;
    }
    false
}

/// `first` followed by `second`.
fn concat(first: &Vec<u32>, second: &Vec<u32>) -> (joined: Vec<u32>)
    ensures
        joined@ == first@ + second@,
{
    let mut joined: Vec<u32> = Vec::new();
    let mut i: usize = 0;
    while i < first.len()
        invariant
            i <= first@.len(),
            joined@ == first@.take(i as int),
        decreases first@.len() - i,
    {
        joined.push(first[i]);
        assert(joined@ =~= first@.take(i + 1));
        i = i + 1;
    }
    assert(first@.take(first@.len() as int) =~= first@);
    let mut j: usize = 0;
    while j < second.len()
        invariant
            j <= second@.len(),
            joined@ == first@ + second@.take(j as int),
        decreases second@.len() - j,
    {
        joined.push(second[j]);
        assert(joined@ =~= first@ + second@.take(j + 1));
        j = j + 1;
    }
    assert(second@.take(second@.len() as int) =~= second@);
    joined
}

/// The tokens that may not be chosen at a step, given those the model
/// lists as no speech.
pub fn suppressed_at(first_step: bool, base: &Vec<u32>) -> (suppressed: Vec<u32>)
    ensures
        suppressed@ == spec_suppressed_at(first_step, base@),
{
    let mut extra: Vec<u32> = Vec::new();
    if first_step {
        extra.push(BLANK_TOKEN);
        extra.push(EOT_TOKEN);
        assert(extra@ =~= seq![BLANK_TOKEN, EOT_TOKEN]);
    }
    let suppressed = concat(base, &extra);
    assert(suppressed@ =~= spec_suppressed_at(first_step, base@));
    suppressed
}

/// The tokens that bias a decode, given the tokens of the priming text.
pub fn bias_tokens(priming: Option<&Vec<u32>>) -> (bias: Vec<u32>)
    ensures
        bias@ == spec_bias(tokens_view(priming)),
{
    match priming {
        None => Vec::new(),
        Some(tokens) => {
            let mut mark: Vec<u32> = Vec::new();
            mark.push(START_OF_PREV_TOKEN);
            assert(mark@ =~= seq![START_OF_PREV_TOKEN]);
            concat(&mark, tokens)
        },
    }
}

/// The token with the best score among those that are not suppressed; of
/// several equally good ones the last. `scores` holds one score per token
/// of the vocabulary, `suppressed` the tokens that stand for blanks and for
/// sounds that are no speech. Where every token is suppressed, or there is
/// none, there is no best token.
pub fn best_token(scores: &Vec<i32>, suppressed: &Vec<u32>) -> (token: Option<u32>)
    ensures
        match token {
            Some(t) => is_last_best(scores@, suppressed@, t as int),
            None => forall|j: int|
                0 <= j < scores@.len() ==> !#[trigger] is_allowed(suppressed@, j),
        },
{
    let mut best: Option<u32> = None;
    let mut i: usize = 0;
    while i < scores.len() && i <= u32::MAX as usize
        invariant
            i <= scores@.len(),
            match best {
                Some(t) => {
                    &&& t < i
                    &&& is_allowed(suppressed@, t as int)
                    &&& forall|j: int|
                        0 <= j < i && #[trigger] is_allowed(suppressed@, j) ==> scores@[j]
                            <= scores@[t as int]
                    &&& forall|j: int|
                        t < j < i && #[trigger] is_allowed(suppressed@, j) ==> scores@[j]
                            < scores@[t as int]
                },
                None => forall|j: int| 0 <= j < i ==> !#[trigger] is_allowed(suppressed@, j),
            },
        decreases scores@.len() - i,
    {
        if !is_suppressed(suppressed, i as u32) {
            let better = match best {
                Some(t) => scores[i] >= scores[t as usize],
                None => true,
            };
            if better {
                best = Some(i as u32);
            }
        }
        i = i + 1;
    }
    best
}

/// What a decode does after a step.
#[derive(Clone, Copy, Debug, PartialEq, Eq, Structural)]
pub enum DecodeStep {
    /// Run the engine again on the longer sequence.
    Continue,
    /// The sequence is complete.
    Finished,
}

/// The tokens of one decode.
pub struct GreedyDecoder {
    tokens: Vec<u32>,
    finished: bool,
}

impl GreedyDecoder {
    /// The tokens so far, prompt included.
    pub closed spec fn tokens(self) -> Seq<u32> {
        self.tokens@
    }

    /// Whether the end mark was seen.
    pub closed spec fn finished(self) -> bool {
        self.finished
    }

    /// Whether no token has been chosen yet.
    pub open spec fn at_first_step(self) -> bool {
        self.tokens() == prompt() && !self.finished()
    }

    /// The tokens after the engine chose `token`: an end mark closes the
    /// sequence, any other token is added to it; a closed sequence stays.
    pub open spec fn tokens_after(self, token: u32) -> Seq<u32> {
        if self.finished() || token == EOT_TOKEN {
            self.tokens()
        } else {
            self.tokens().push(token)
        }
    }

    /// A decode that holds the prompt.
    pub fn new() -> (decoder: Self)
        ensures
            decoder.tokens() == prompt(),
            !decoder.finished(),
    {
        let mut tokens: Vec<u32> = Vec::new();
        tokens.push(SOT_TOKEN);
        tokens.push(LANGUAGE_TOKEN);
        tokens.push(TRANSCRIBE_TOKEN);
        tokens.push(NO_TIMESTAMPS_TOKEN);
        assert(tokens@ =~= prompt());
        GreedyDecoder { tokens, finished: false }
    }

    /// The tokens so far: the engine's next input and, once the decode is
    /// finished, what is turned into text.
    pub fn sequence(&self) -> (tokens: &Vec<u32>)
        ensures
            tokens@ == self.tokens(),
    {
        &self.tokens
    }

    /// Whether the end mark was seen.
    pub fn is_finished(&self) -> (finished: bool)
        ensures
            finished == self.finished(),
    {
        self.finished
    }

    /// Whether no token has been chosen yet, so that the engine starts
    /// from a clean state.
    pub fn is_first_step(&self) -> (first: bool)
        ensures
            first == self.at_first_step(),
    {
        proof {
            if self.tokens@.len() == 4 && self.tokens@[0] == SOT_TOKEN && self.tokens@[1]
                == LANGUAGE_TOKEN && self.tokens@[2] == TRANSCRIBE_TOKEN && self.tokens@[3]
                == NO_TIMESTAMPS_TOKEN {
                assert(self.tokens@ =~= prompt());
            }
        }
        !self.finished && self.tokens.len() == 4 && self.tokens[0] == SOT_TOKEN && self.tokens[1]
            == LANGUAGE_TOKEN && self.tokens[2] == TRANSCRIBE_TOKEN && self.tokens[3]
            == NO_TIMESTAMPS_TOKEN
    }

    /// What the engine is run on at the next step: the bias, then the
    /// tokens so far.
    pub fn step_input(&self, bias: &Vec<u32>) -> (input: Vec<u32>)
        ensures
            input@ == bias@ + self.tokens(),
    {
        concat(bias, &self.tokens)
    }

    /// Takes the scores of one step, chooses the best token that is not
    /// suppressed at this step and adds it to the sequence. Returns the
    /// token and what to do next, or `None`, with nothing changed, where
    /// no token may be chosen.
    pub fn take_scores(&mut self, scores: &Vec<i32>, base: &Vec<u32>) -> (chosen: Option<
        (u32, DecodeStep),
    >)
        ensures
            match chosen {
                Some((token, step)) => {
                    &&& is_last_best(
                        scores@,
                        spec_suppressed_at(old(self).at_first_step(), base@),
                        token as int,
                    )
                    &&& final(self).tokens() == old(self).tokens_after(token)
                    &&& final(self).finished() == (old(self).finished() || token == EOT_TOKEN)
                    &&& step == if final(self).finished() {
                        DecodeStep::Finished
                    } else {
                        DecodeStep::Continue
                    }
                },
                None => {
                    &&& *final(self) == *old(self)
                    &&& forall|j: int|
                        0 <= j < scores@.len() ==> !#[trigger] is_allowed(
                            spec_suppressed_at(old(self).at_first_step(), base@),
                            j,
                        )
                },
            },
    {
        let suppressed = suppressed_at(self.is_first_step(), base);
        match best_token(scores, &suppressed) {
            None => None,
            Some(token) => {
                let step = self.push(token);
                Some((token, step))
            },
        }
    }

    /// Takes the token the engine chose.
    pub fn push(&mut self, token: u32) -> (step: DecodeStep)
        ensures
            final(self).tokens() == old(self).tokens_after(token),
            final(self).finished() == (old(self).finished() || token == EOT_TOKEN),
            step == if final(self).finished() {
                DecodeStep::Finished
            } else {
                DecodeStep::Continue
            },
    {
        if self.finished {
            return DecodeStep::Finished;
        }
        if token == EOT_TOKEN {
            self.finished = true;
            return DecodeStep::Finished;
        }
        self.tokens.push(token);
        DecodeStep::Continue
    }
}

} // verus!
