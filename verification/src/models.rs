//! Which model serves a capability.
//!
//! The registry of models is kept elsewhere; the core sees a snapshot of its
//! records and picks from it. With an explicit preference only that model is
//! considered. Without one, the known models of the capability are tried in
//! a fixed order and the first installed one is taken. There is no silent
//! fallback: a capability with nothing installed is reported unavailable.

use crate::error::CoreError;
use vstd::prelude::*;
use vstd::string::*;

verus! {

/// The capability a model serves.
#[derive(Clone, Copy, Debug, PartialEq, Eq, Structural)]
pub enum ModelKind {
    /// Speech decoding.
    Whisper,
    /// Text formatting.
    LLM,
}

/// What the registry knows of one model.
#[derive(Clone, Debug)]
pub struct ModelRecord {
    pub id: String,
    pub name: String,
    pub kind: ModelKind,
    pub size_mb: u32,
    pub download_url: String,
    /// SHA-256 of the model file, in hex; empty where none is published.
    pub checksum: String,
    /// Where the model is installed; `None` while it is not.
    pub path: Option<String>,
}

/// A model chosen for a request, with the place it is installed at.
#[derive(Clone, Debug)]
pub struct ResolvedModel {
    pub id: String,
    pub path: String,
}

/// The known models of a capability, most preferred first.
pub open spec fn candidates(kind: ModelKind) -> Seq<Seq<char>> {
    match kind {
        ModelKind::Whisper => seq!["whisper-base-en"@, "whisper-small-en"@, "whisper-small"@],
        ModelKind::LLM => seq!["gemma-2-2b-instruct"@, "qwen2-1.5b-instruct"@],
    }
}

/// The first record with the given identifier.
pub open spec fn lookup(records: Seq<ModelRecord>, id: Seq<char>) -> Option<ModelRecord>
    decreases records.len(),
{
    if records.len() == 0 {
        None
    } else if records[0].id@ == id {
        Some(records[0])
    } else {
        lookup(records.drop_first(), id)
    }
}

/// Where the model `id` is installed, if the registry knows it and it is.
pub open spec fn installed_path(records: Seq<ModelRecord>, id: Seq<char>) -> Option<Seq<char>> {
    match lookup(records, id) {
        Some(record) => match record.path {
            Some(path) => Some(path@),
            None => None,
        },
        None => None,
    }
}

/// The first of `ids` that is installed, with its path.
pub open spec fn first_installed(records: Seq<ModelRecord>, ids: Seq<Seq<char>>) -> Option<
    (Seq<char>, Seq<char>),
>
    decreases ids.len(),
{
    if ids.len() == 0 {
        None
    } else {
        match installed_path(records, ids[0]) {
            Some(path) => Some((ids[0], path)),
            None => first_installed(records, ids.drop_first()),
        }
    }
}

/// The model that serves `kind`: the preferred one if a preference is set,
/// else the first installed candidate; identifier and path.
pub open spec fn spec_resolve(
    preference: Option<Seq<char>>,
    kind: ModelKind,
    records: Seq<ModelRecord>,
) -> Result<(Seq<char>, Seq<char>), CoreError> {
    let choice = match preference {
        Some(id) => match installed_path(records, id) {
            Some(path) => Some((id, path)),
            None => None,
        },
        None => first_installed(records, candidates(kind)),
    };
    match choice {
        Some(found) => Ok(found),
        None => Err(CoreError::ModelUnavailable),
    }
}

/// The identifier and path of a resolved model.
pub open spec fn resolved_view(model: ResolvedModel) -> (Seq<char>, Seq<char>) {
    (model.id@, model.path@)
}

/// With nothing installed no model is resolved, whatever the preference.
pub proof fn lemma_nothing_installed_unavailable(
    preference: Option<Seq<char>>,
    kind: ModelKind,
    records: Seq<ModelRecord>,
)
    requires
        forall|i: int| 0 <= i < records.len() ==> (#[trigger] records[i]).path is None,
    ensures
        spec_resolve(preference, kind, records) == Err::<(Seq<char>, Seq<char>), CoreError>(
            CoreError::ModelUnavailable,
        ),
{
    assert forall|id: Seq<char>| installed_path(records, id) is None by {
        lemma_lookup_is_record(records, id);
    }
    lemma_none_installed(records, candidates(kind));
}

/// A record found by `lookup` is one of the records and has the identifier.
pub proof fn lemma_lookup_is_record(records: Seq<ModelRecord>, id: Seq<char>)
    ensures
        lookup(records, id) matches Some(record) ==> record.id@ == id && exists|i: int|
            0 <= i < records.len() && #[trigger] records[i] == record,
        lookup(records, id) is None ==> forall|i: int|
            0 <= i < records.len() ==> (#[trigger] records[i]).id@ != id,
    decreases records.len(),
{
    if records.len() > 0 {
        if records[0].id@ == id {
            assert(records[0] == records[0]);
        } else {
            let rest = records.drop_first();
            lemma_lookup_is_record(rest, id);
            if lookup(rest, id) is Some {
                let record = lookup(rest, id).unwrap();
                let i = choose|i: int| 0 <= i < rest.len() && #[trigger] rest[i] == record;
                assert(records[i + 1] == record);
            } else {
                assert forall|i: int| 0 <= i < records.len() implies (#[trigger] records[i]).id@
                    != id by {
                    if i > 0 {
                        assert(rest[i - 1] == records[i]);
                    }
                }
            }
        }
    }
}

proof fn lemma_none_installed(records: Seq<ModelRecord>, ids: Seq<Seq<char>>)
    requires
        forall|id: Seq<char>| installed_path(records, id) is None,
    ensures
        first_installed(records, ids) is None,
    decreases ids.len(),
{
    if ids.len() > 0 {
        lemma_none_installed(records, ids.drop_first());
    }
}

/// The known models of a capability, most preferred first.
pub fn candidate_ids(kind: ModelKind) -> (ids: Vec<String>)
    ensures
        ids@.len() == candidates(kind).len(),
        forall|i: int| 0 <= i < ids@.len() ==> (#[trigger] ids@[i])@ == candidates(kind)[i],
{
    let mut ids: Vec<String> = Vec::new();
    match kind {
        ModelKind::Whisper => {
            ids.push(String::from_str("whisper-base-en"));
            ids.push(String::from_str("whisper-small-en"));
            ids.push(String::from_str("whisper-small"));
        },
        ModelKind::LLM => {
            ids.push(String::from_str("gemma-2-2b-instruct"));
            ids.push(String::from_str("qwen2-1.5b-instruct"));
        },
    }
    ids
}

/// Where the model `id` is installed, if the registry knows it and it is.
pub fn find_installed(records: &Vec<ModelRecord>, id: &String) -> (path: Option<String>)
    ensures
        match path {
            Some(p) => installed_path(records@, id@) == Some(p@),
            None => installed_path(records@, id@) is None,
        },
{
    let mut i: usize = 0;
    assert(records@.skip(0) =~= records@);
    while i < records.len()
        invariant
            i <= records@.len(),
            lookup(records@, id@) == lookup(records@.skip(i as int), id@),
        decreases records@.len() - i,
    {
        proof {
            let rest = records@.skip(i as int);
            assert(rest[0] == records@[i as int]);
            assert(rest.drop_first() =~= records@.skip(i + 1));
        }
        if records[i].id == *id {
            return match &records[i].path {
                Some(p) => Some(p.clone()),
                None => None,
            };
        }
        i = i + 1;
    }
    None
}

/// Picks the model that serves `kind`.
///
/// A set preference is binding: if that model is not installed the
/// capability is unavailable, even if another model is. Without a
/// preference the first installed candidate is taken.
pub fn resolve_model(
    preference: &Option<String>,
    kind: ModelKind,
    records: &Vec<ModelRecord>,
) -> (result: Result<ResolvedModel, CoreError>)
    ensures
        match result {
            Ok(model) => spec_resolve(option_view(*preference), kind, records@) == Ok::<
                (Seq<char>, Seq<char>),
                CoreError,
            >(resolved_view(model)),
            Err(e) => spec_resolve(option_view(*preference), kind, records@) == Err::<
                (Seq<char>, Seq<char>),
                CoreError,
            >(e),
        },
{
    match preference {
        Some(id) => {
            match find_installed(records, id) {
                Some(path) => Ok(ResolvedModel { id: id.clone(), path }),
                None => Err(CoreError::ModelUnavailable),
            }
        },
        None => {
            let ids = candidate_ids(kind);
            let ghost all = candidates(kind);
            let mut i: usize = 0;
            assert(all.skip(0) =~= all);
            while i < ids.len()
                invariant
                    *preference is None,
                    all == candidates(kind),
                    i <= ids@.len(),
                    ids@.len() == all.len(),
                    forall|k: int| 0 <= k < ids@.len() ==> (#[trigger] ids@[k])@ == all[k],
                    first_installed(records@, all) == first_installed(
                        records@,
                        all.skip(i as int),
                    ),
                decreases ids@.len() - i,
            {
                proof {
                    let rest = all.skip(i as int);
                    assert(rest[0] == all[i as int]);
                    assert(rest.drop_first() =~= all.skip(i + 1));
                }
                match find_installed(records, &ids[i]) {
                    Some(path) => {
                        let id = ids[i].clone();
                        assert(id@ == all[i as int]) by {
                            assert(ids@[i as int]@ == all[i as int]);
                        }
                        return Ok(ResolvedModel { id, path });
                    },
                    None => {},
                }
                i = i + 1;
            }
            Err(CoreError::ModelUnavailable)
        },
    }
}

/// The characters of an optional string.
pub open spec fn option_view(text: Option<String>) -> Option<Seq<char>> {
    match text {
        Some(s) => Some(s@),
        None => None,
    }
}

} // verus!
