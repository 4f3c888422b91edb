//! Putting the texts of independently decoded chunks back into one
//! transcript.
//!
//! Chunks are decoded concurrently and finish in any order. The transcript
//! is built by chunk index alone: texts are joined in index order by single
//! spaces. Words that fall into the overlap of two neighbouring chunks may
//! appear twice; nothing here removes them.

use crate::error::CoreError;
use vstd::prelude::*;
use vstd::string::*;

verus! {

/// What decoding one chunk gave: its text, or nothing if the decode failed.
#[derive(Clone, Debug)]
pub struct ChunkOutcome {
    /// The chunk's index in the plan.
    pub index: usize,
    /// The decoded text; `None` where the decode failed.
    pub text: Option<String>,
}

/// Texts joined by single spaces.
pub open spec fn join_texts(texts: Seq<Seq<char>>) -> Seq<char>
    decreases texts.len(),
{
    if texts.len() == 0 {
        Seq::empty()
    } else if texts.len() == 1 {
        texts[0]
    } else {
        join_texts(texts.drop_last()) + seq![' '] + texts.last()
    }
}

/// The position of the latest outcome that names chunk `index`, if any does.
pub open spec fn latest(outcomes: Seq<ChunkOutcome>, index: int) -> Option<int>
    decreases outcomes.len(),
{
    if outcomes.len() == 0 {
        None
    } else if outcomes.last().index == index {
        Some(outcomes.len() - 1)
    } else {
        latest(outcomes.drop_last(), index)
    }
}

/// No decode failed, and no outcome names a chunk outside the plan.
pub open spec fn all_decoded(outcomes: Seq<ChunkOutcome>) -> bool {
    forall|j: int|
        0 <= j < outcomes.len() ==> (#[trigger] outcomes[j]).text is Some && outcomes[j].index
            < outcomes.len()
}

/// Every chunk of the plan has an outcome.
pub open spec fn all_present(outcomes: Seq<ChunkOutcome>) -> bool {
    forall|i: int| 0 <= i < outcomes.len() ==> (#[trigger] latest(outcomes, i)) is Some
}

/// The text of chunk `index`.
pub open spec fn text_of(outcomes: Seq<ChunkOutcome>, index: int) -> Seq<char> {
    outcomes[latest(outcomes, index).unwrap()].text.unwrap()@
}

/// The texts in index order.
pub open spec fn ordered_texts(outcomes: Seq<ChunkOutcome>) -> Seq<Seq<char>> {
    Seq::new(outcomes.len(), |i: int| text_of(outcomes, i))
}

/// The transcript of a request whose plan has as many chunks as there are
/// outcomes: the texts in index order joined by spaces, or a decode failure
/// if any chunk failed or is missing.
pub open spec fn spec_assemble(outcomes: Seq<ChunkOutcome>) -> Result<Seq<char>, CoreError> {
    if all_decoded(outcomes) && all_present(outcomes) {
        Ok(join_texts(ordered_texts(outcomes)))
    } else {
        Err(CoreError::DecodeFailure)
    }
}

/// Each chunk index is named by at most one outcome.
pub open spec fn distinct_indices(outcomes: Seq<ChunkOutcome>) -> bool {
    forall|j: int, k: int|
        0 <= j < k < outcomes.len() ==> (#[trigger] outcomes[j]).index != (
        #[trigger] outcomes[k]).index
}

/// `order` holds `position` somewhere.
pub open spec fn occurs(order: Seq<int>, position: int) -> bool {
    exists|j: int| 0 <= j < order.len() && #[trigger] order[j] == position
}

/// `order` lists each position below `len` exactly once.
pub open spec fn is_reordering(order: Seq<int>, len: nat) -> bool {
    &&& order.len() == len
    &&& forall|j: int| 0 <= j < len ==> 0 <= #[trigger] order[j] < len
    &&& forall|j: int, k: int| 0 <= j < k < len ==> #[trigger] order[j] != #[trigger] order[k]
    &&& forall|p: int| 0 <= p < len ==> #[trigger] occurs(order, p)
}

/// A position found by `latest` lies in the sequence and names the chunk.
pub proof fn lemma_latest_names(outcomes: Seq<ChunkOutcome>, index: int)
    ensures
        latest(outcomes, index) matches Some(j) ==> 0 <= j < outcomes.len() && outcomes[j].index
            == index,
        latest(outcomes, index) is None ==> forall|j: int|
            0 <= j < outcomes.len() ==> (#[trigger] outcomes[j]).index != index,
    decreases outcomes.len(),
{
    if outcomes.len() > 0 && outcomes.last().index != index {
        lemma_latest_names(outcomes.drop_last(), index);
        assert forall|j: int| 0 <= j < outcomes.len() && latest(outcomes, index) is None implies (
        #[trigger] outcomes[j]).index != index by {
            if j < outcomes.len() - 1 {
                assert(outcomes.drop_last()[j] == outcomes[j]);
            }
        }
    }
}

/// Where each chunk is named once, `latest` finds that one outcome.
pub proof fn lemma_latest_unique(outcomes: Seq<ChunkOutcome>, j: int)
    requires
        distinct_indices(outcomes),
        0 <= j < outcomes.len(),
    ensures
        latest(outcomes, outcomes[j].index as int) == Some(j),
{
    lemma_latest_names(outcomes, outcomes[j].index as int);
}

/// A reordering of outcomes that name each chunk once names each chunk
/// once too.
proof fn lemma_reordering_distinct(
    first: Seq<ChunkOutcome>,
    second: Seq<ChunkOutcome>,
    order: Seq<int>,
)
    requires
        distinct_indices(first),
        is_reordering(order, first.len()),
        second.len() == first.len(),
        forall|j: int| 0 <= j < second.len() ==> second[j] == first[order[j]],
    ensures
        distinct_indices(second),
{
    assert forall|j: int, k: int| 0 <= j < k < second.len() implies (#[trigger] second[j]).index
        != (#[trigger] second[k]).index by {
        assert(order[j] != order[k]);
        if order[j] < order[k] {
            assert(first[order[j]].index != first[order[k]].index);
        } else {
            assert(first[order[k]].index != first[order[j]].index);
        }
    }
}

/// A reordering has an outcome for a chunk exactly where the first order has
/// one, and the same text for it.
proof fn lemma_reordering_keeps_chunk(
    first: Seq<ChunkOutcome>,
    second: Seq<ChunkOutcome>,
    order: Seq<int>,
    index: int,
)
    requires
        distinct_indices(first),
        is_reordering(order, first.len()),
        second.len() == first.len(),
        forall|j: int| 0 <= j < second.len() ==> second[j] == first[order[j]],
    ensures
        (latest(first, index) is Some) == (latest(second, index) is Some),
        latest(first, index) is Some ==> text_of(first, index) == text_of(second, index),
{
    let len = first.len();
    lemma_reordering_distinct(first, second, order);
    lemma_latest_names(first, index);
    lemma_latest_names(second, index);
    if latest(first, index) is Some {
        let p = latest(first, index).unwrap();
        assert(occurs(order, p));
        let j = choose|j: int| 0 <= j < len && #[trigger] order[j] == p;
        assert(second[j].index == index);
        lemma_latest_unique(second, j);
    }
    if latest(second, index) is Some {
        let j = latest(second, index).unwrap();
        assert(first[order[j]].index == index);
        lemma_latest_unique(first, order[j]);
        lemma_latest_unique(second, j);
    }
}

/// The order in which the chunks finished does not show in the transcript:
/// outcomes that name each chunk once assemble to the same result in any
/// reordering.
pub proof fn lemma_assemble_order_independent(
    first: Seq<ChunkOutcome>,
    second: Seq<ChunkOutcome>,
    order: Seq<int>,
)
    requires
        distinct_indices(first),
        is_reordering(order, first.len()),
        second.len() == first.len(),
        forall|j: int| 0 <= j < second.len() ==> second[j] == first[order[j]],
    ensures
        spec_assemble(second) == spec_assemble(first),
{
    let len = first.len();
    assert(all_decoded(second) == all_decoded(first)) by {
        if all_decoded(first) {
            assert forall|j: int| 0 <= j < second.len() implies (
            #[trigger] second[j]).text is Some && second[j].index < second.len() by {
                assert(first[order[j]].text is Some);
            }
        }
        if all_decoded(second) {
            assert forall|p: int| 0 <= p < first.len() implies (#[trigger] first[p]).text is Some
                && first[p].index < first.len() by {
                assert(occurs(order, p));
                let j = choose|j: int| 0 <= j < len && #[trigger] order[j] == p;
                assert(second[j].text is Some);
            }
        }
    }
    assert(all_present(first) == all_present(second)) by {
        if all_present(first) {
            assert forall|i: int| 0 <= i < second.len() implies (#[trigger] latest(second, i))
                is Some by {
                assert(latest(first, i) is Some);
                lemma_reordering_keeps_chunk(first, second, order, i);
            }
        }
        if all_present(second) {
            assert forall|i: int| 0 <= i < first.len() implies (#[trigger] latest(first, i))
                is Some by {
                assert(latest(second, i) is Some);
                lemma_reordering_keeps_chunk(first, second, order, i);
            }
        }
    }
    if all_decoded(first) && all_present(first) {
        assert(ordered_texts(first) =~= ordered_texts(second)) by {
            assert forall|i: int| 0 <= i < len implies ordered_texts(first)[i] == ordered_texts(
                second,
            )[i] by {
                assert(latest(first, i) is Some);
                lemma_reordering_keeps_chunk(first, second, order, i);
            }
        }
    }
}

/// Two texts assemble to the first, one space, and the second.
pub proof fn lemma_join_two(left: Seq<char>, right: Seq<char>)
    ensures
        join_texts(seq![left, right]) == left + seq![' '] + right,
{
    let both = seq![left, right];
    assert(both.drop_last() =~= seq![left]);
    assert(join_texts(seq![left]) == left);
}

/// The transcript of two chunks is the text of the first, one space, and
/// the text of the second, whichever of the two finished first.
pub proof fn lemma_two_chunks_assemble(outcomes: Seq<ChunkOutcome>, zero: int, one: int)
    requires
        outcomes.len() == 2,
        (zero == 0 && one == 1) || (zero == 1 && one == 0),
        outcomes[zero].index == 0,
        outcomes[one].index == 1,
        outcomes[zero].text is Some,
        outcomes[one].text is Some,
    ensures
        spec_assemble(outcomes) == Ok::<Seq<char>, CoreError>(
            outcomes[zero].text.unwrap()@ + seq![' '] + outcomes[one].text.unwrap()@,
        ),
{
    reveal_with_fuel(latest, 3);
    assert(outcomes.drop_last() =~= seq![outcomes[0]]);
    assert(latest(outcomes, 0) == Some(zero));
    assert(latest(outcomes, 1) == Some(one));
    assert(all_decoded(outcomes));
    assert(all_present(outcomes));
    let left = outcomes[zero].text.unwrap()@;
    let right = outcomes[one].text.unwrap()@;
    assert(ordered_texts(outcomes) =~= seq![left, right]);
    lemma_join_two(left, right);
}

/// Builds the transcript from the outcomes of all chunks of a request, in
/// whatever order they arrived. A request with a failed or missing chunk
/// fails as a whole.
pub fn assemble(outcomes: &Vec<ChunkOutcome>) -> (result: Result<String, CoreError>)
    ensures
        match result {
            Ok(text) => spec_assemble(outcomes@) == Ok::<Seq<char>, CoreError>(text@),
            Err(e) => spec_assemble(outcomes@) == Err::<Seq<char>, CoreError>(e),
        },
{
    let len: usize = outcomes.len();
    let mut j: usize = 0;
    while j < len
        invariant
            len == outcomes@.len(),
            j <= len,
            forall|k: int|
                0 <= k < j ==> (#[trigger] outcomes@[k]).text is Some && outcomes@[k].index < len,
        decreases len - j,
    {
        if outcomes[j].text.is_none() || outcomes[j].index >= len {
            assert(!all_decoded(outcomes@));
            return Err(CoreError::DecodeFailure);
        }
        j = j + 1;
    }
    assert(all_decoded(outcomes@));

    let mut slots: Vec<Option<usize>> = Vec::new();
    let mut i: usize = 0;
    while i < len
        invariant
            i <= len,
            slots@.len() == i,
            forall|k: int| 0 <= k < i ==> (#[trigger] slots@[k]) is None,
        decreases len - i,
    {
        slots.push(None);
        i = i + 1;
    }
    let mut j: usize = 0;
    assert(outcomes@.take(0) =~= Seq::<ChunkOutcome>::empty());
    while j < len
        invariant
            len == outcomes@.len(),
            j <= len,
            slots@.len() == len,
            all_decoded(outcomes@),
            forall|k: int|
                0 <= k < len ==> match #[trigger] slots@[k] {
                    Some(p) => latest(outcomes@.take(j as int), k) == Some(p as int),
                    None => latest(outcomes@.take(j as int), k) is None,
                },
        decreases len - j,
    {
        let index: usize = outcomes[j].index;
        proof {
            let before = outcomes@.take(j as int);
            let after = outcomes@.take(j + 1);
            assert(after.drop_last() =~= before);
            assert(after.last() == outcomes@[j as int]);
        }
        slots.set(index, Some(j));
        j = j + 1;
    }
    assert(outcomes@.take(len as int) =~= outcomes@);

    let mut text = String::new();
    let mut i: usize = 0;
    assert(ordered_texts(outcomes@).take(0) =~= Seq::<Seq<char>>::empty());
    while i < len
        invariant
            len == outcomes@.len(),
            i <= len,
            slots@.len() == len,
            all_decoded(outcomes@),
            forall|k: int|
                0 <= k < len ==> match #[trigger] slots@[k] {
                    Some(p) => latest(outcomes@, k) == Some(p as int),
                    None => latest(outcomes@, k) is None,
                },
            forall|k: int| 0 <= k < i ==> (#[trigger] latest(outcomes@, k)) is Some,
            text@ == join_texts(ordered_texts(outcomes@).take(i as int)),
        decreases len - i,
    {
        match slots[i] {
            None => {
                assert(latest(outcomes@, i as int) is None);
                assert(!all_present(outcomes@));
                return Err(CoreError::DecodeFailure);
            },
            Some(p) => {
                proof {
                    lemma_latest_names(outcomes@, i as int);
                    let texts = ordered_texts(outcomes@);
                    assert(texts.take(i + 1).drop_last() =~= texts.take(i as int));
                    assert(texts.take(i + 1).last() == text_of(outcomes@, i as int));
                }
                if i > 0 {
                    text.append(" ");
                    proof {
                        reveal_strlit(" ");
                        assert(" "@ =~= seq![' ']);
                    }
                }
                match &outcomes[p].text {
                    Some(piece) => {
                        text.append(piece.as_str());
                    },
                    None => {},
                }
            },
        }
        i = i + 1;
    }
    assert(ordered_texts(outcomes@).take(len as int) =~= ordered_texts(outcomes@));
    assert(all_present(outcomes@));
    Ok(text)
}

} // verus!
