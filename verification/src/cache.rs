//! The slot that holds the loaded engine of one capability.
//!
//! A slot holds at most one engine. It is filled on the first request that
//! does not find the engine of its model in it, or ahead of time by a
//! preload. When the preference for
//! the capability changes the slot is emptied at once, and whatever is
//! loaded from then on is loaded for the new preference.
//!
//! Loads run outside the slot's lock and may finish late. Each load is
//! therefore started with a ticket, the slot's generation at that moment,
//! and an engine is only accepted while its ticket is still current. A load
//! that was started before the last change of preference can no longer
//! fill the slot.
//!
//! Emptying the slot hands the engine back instead of destroying it, and a
//! caller that obtained the engine earlier keeps what it holds.

use crate::error::CoreError;
use crate::models::{option_view, resolve_model, spec_resolve, ModelKind, ModelRecord, ResolvedModel};
use vstd::prelude::*;

verus! {

/// An engine in the slot, with the model it was built from.
pub struct Session<E> {
    pub model_id: String,
    pub engine: E,
}

/// The slot of one capability.
pub struct SessionCache<E> {
    generation: u64,
    entry: Option<Session<E>>,
}

/// What a request is to do about its engine.
#[derive(Debug)]
pub enum EnginePlan {
    /// The slot holds the engine of the resolved model: use it.
    UseCached,
    /// The slot holds no such engine: load `model` and offer it with
    /// `ticket`.
    Load { ticket: u64, model: ResolvedModel },
}

/// What an `EnginePlan` says, over plain values.
pub enum EnginePlanView {
    UseCached,
    Load { ticket: nat, id: Seq<char>, path: Seq<char> },
}

impl EnginePlan {
    pub open spec fn view(self) -> EnginePlanView {
        match self {
            EnginePlan::UseCached => EnginePlanView::UseCached,
            EnginePlan::Load { ticket, model } => EnginePlanView::Load {
                ticket: ticket as nat,
                id: model.id@,
                path: model.path@,
            },
        }
    }
}

/// What a request for `kind` does about its engine: nothing can be done
/// while no model resolves; else the cached engine is used if it was built
/// from the resolved model, and the resolved model is loaded under the
/// current ticket if the slot is empty or holds another model's engine.
pub open spec fn spec_plan_request(
    cached: Option<Seq<char>>,
    generation: nat,
    preference: Option<Seq<char>>,
    kind: ModelKind,
    records: Seq<ModelRecord>,
) -> Result<EnginePlanView, CoreError> {
    match spec_resolve(preference, kind, records) {
        Err(e) => Err(e),
        Ok((id, path)) => if cached == Some(id) {
            Ok(EnginePlanView::UseCached)
        } else {
            Ok(EnginePlanView::Load { ticket: generation, id, path })
        },
    }
}

impl<E> SessionCache<E> {
    /// The number of preference changes the slot has seen.
    pub closed spec fn generation(self) -> nat {
        self.generation as nat
    }

    /// The engine in the slot, if any.
    pub closed spec fn engine(self) -> Option<E> {
        match self.entry {
            Some(session) => Some(session.engine),
            None => None,
        }
    }

    /// The model the engine in the slot was built from.
    pub closed spec fn model_id(self) -> Option<Seq<char>> {
        match self.entry {
            Some(session) => Some(session.model_id@),
            None => None,
        }
    }

    /// Whether an engine loaded under `ticket` is still wanted.
    pub open spec fn accepts(self, ticket: u64) -> bool {
        ticket as nat == self.generation()
    }

    /// The slot after a change of preference: empty, and one generation on.
    pub closed spec fn invalidated(self) -> Self {
        SessionCache {
            generation: if self.generation < u64::MAX {
                (self.generation + 1) as u64
            } else {
                self.generation
            },
            entry: None,
        }
    }

    /// The slot once `engine` has been offered under `ticket`: it holds the
    /// engine if the ticket is current, and is unchanged if not.
    pub closed spec fn installed(self, ticket: u64, model_id: String, engine: E) -> Self {
        if ticket == self.generation {
            SessionCache { generation: self.generation, entry: Some(Session { model_id, engine }) }
        } else {
            self
        }
    }

    /// What `invalidated` does, by what can be observed of the slot.
    pub proof fn lemma_invalidated(self)
        ensures
            self.invalidated().engine() is None,
            self.invalidated().model_id() is None,
            self.generation() < u64::MAX ==> self.invalidated().generation() == self.generation()
                + 1,
            self.generation() >= u64::MAX ==> self.invalidated().generation()
                == self.generation(),
    {
    }

    /// What `installed` does, by what can be observed of the slot.
    pub proof fn lemma_installed(self, ticket: u64, model_id: String, engine: E)
        ensures
            self.installed(ticket, model_id, engine).generation() == self.generation(),
            self.accepts(ticket) ==> {
                &&& self.installed(ticket, model_id, engine).engine() == Some(engine)
                &&& self.installed(ticket, model_id, engine).model_id() == Some(model_id@)
            },
            !self.accepts(ticket) ==> self.installed(ticket, model_id, engine) == self,
    {
    }

    /// After a change of preference the slot is empty, and an engine whose
    /// load began before the change cannot fill it: the next request finds
    /// the slot empty or filled by a load that began after the change,
    /// never by the earlier one.
    pub proof fn lemma_stale_load_rejected(self, ticket: u64, model_id: String, engine: E)
        requires
            ticket as nat <= self.generation(),
            self.generation() < u64::MAX,
        ensures
            self.invalidated().engine() is None,
            !self.invalidated().accepts(ticket),
            self.invalidated().installed(ticket, model_id, engine) == self.invalidated(),
            self.invalidated().installed(ticket, model_id, engine).engine() is None,
    {
    }

    /// A load that began after the last change of preference fills the
    /// slot, and the request after it is served by that engine.
    pub proof fn lemma_fresh_load_accepted(self, model_id: String, engine: E)
        ensures
            self.invalidated().installed(
                self.invalidated().generation() as u64,
                model_id,
                engine,
            ).engine() == Some(engine),
    {
    }

    /// An empty slot.
    pub fn new() -> (cache: Self)
        ensures
            cache.generation() == 0,
            cache.engine() is None,
            cache.model_id() is None,
    {
        SessionCache { generation: 0, entry: None }
    }

    /// Whether the slot holds an engine.
    pub fn is_loaded(&self) -> (loaded: bool)
        ensures
            loaded == (self.engine() is Some),
    {
        self.entry.is_some()
    }

    /// The engine in the slot.
    pub fn get(&self) -> (engine: Option<&E>)
        ensures
            match engine {
                Some(e) => self.engine() == Some(*e),
                None => self.engine() is None,
            },
    {
        match &self.entry {
            Some(session) => Some(&session.engine),
            None => None,
        }
    }

    /// The ticket for a load that starts now.
    pub fn ticket(&self) -> (ticket: u64)
        ensures
            ticket as nat == self.generation(),
            self.accepts(ticket),
    {
        self.generation
    }

    /// Empties the slot because the preference changed, and hands back the
    /// engine it held. Tickets given out before are no longer accepted,
    /// unless the slot has been emptied `u64::MAX` times before.
    pub fn invalidate(&mut self) -> (evicted: Option<E>)
        ensures
            *final(self) == old(self).invalidated(),
            evicted == old(self).engine(),
            final(self).engine() is None,
            final(self).model_id() is None,
            old(self).generation() < u64::MAX ==> final(self).generation() == old(
                self,
            ).generation() + 1,
            old(self).generation() >= u64::MAX ==> final(self).generation() == old(
                self,
            ).generation(),
    {
        if self.generation < u64::MAX {
            self.generation = self.generation + 1;
        }
        match self.entry.take() {
            Some(session) => Some(session.engine),
            None => None,
        }
    }

    /// Offers an engine that was loaded under `ticket`. A current ticket
    /// puts the engine in the slot, in place of what was there, and `None`
    /// comes back; a stale one leaves the slot as it is and the engine is
    /// handed back.
    pub fn install(&mut self, ticket: u64, model_id: String, engine: E) -> (rejected: Option<E>)
        ensures
            *final(self) == old(self).installed(ticket, model_id, engine),
            final(self).generation() == old(self).generation(),
            old(self).accepts(ticket) ==> {
                &&& rejected is None
                &&& final(self).engine() == Some(engine)
                &&& final(self).model_id() == Some(model_id@)
            },
            !old(self).accepts(ticket) ==> {
                &&& rejected == Some(engine)
                &&& final(self).engine() == old(self).engine()
                &&& final(self).model_id() == old(self).model_id()
            },
    {
        if ticket == self.generation {
            self.entry = Some(Session { model_id, engine });
            None
        } else {
            Some(engine)
        }
    }

    /// Takes the outcome of a load that ran under `ticket`: `None` where
    /// the engine could not be built, which is an initialisation failure
    /// and leaves the slot as it is. A built engine is offered to the slot
    /// as by `install`, and comes back if its ticket is stale.
    pub fn finish_load(&mut self, ticket: u64, model_id: String, loaded: Option<E>) -> (result:
        Result<Option<E>, CoreError>)
        ensures
            match loaded {
                None => {
                    &&& result == Err::<Option<E>, CoreError>(CoreError::DecodeInitFailure)
                    &&& *final(self) == *old(self)
                },
                Some(engine) => {
                    &&& *final(self) == old(self).installed(ticket, model_id, engine)
                    &&& result == Ok::<Option<E>, CoreError>(
                        if old(self).accepts(ticket) {
                            None
                        } else {
                            Some(engine)
                        },
                    )
                },
            },
    {
        match loaded {
            None => Err(CoreError::DecodeInitFailure),
            Some(engine) => Ok(self.install(ticket, model_id, engine)),
        }
    }

    /// Decides what a request for `kind` does about its engine. The model
    /// is resolved first, so a capability with no model fails here, before
    /// the caller has touched any audio.
    pub fn plan_request(
        &self,
        preference: &Option<String>,
        kind: ModelKind,
        records: &Vec<ModelRecord>,
    ) -> (result: Result<EnginePlan, CoreError>)
        ensures
            match result {
                Ok(plan) => spec_plan_request(
                    self.model_id(),
                    self.generation(),
                    option_view(*preference),
                    kind,
                    records@,
                ) == Ok::<EnginePlanView, CoreError>(plan@),
                Err(e) => spec_plan_request(
                    self.model_id(),
                    self.generation(),
                    option_view(*preference),
                    kind,
                    records@,
                ) == Err::<EnginePlanView, CoreError>(e),
            },
    {
        match resolve_model(preference, kind, records) {
            Err(e) => Err(e),
            Ok(model) => {
                let cached = match &self.entry {
                    Some(session) => session.model_id == model.id,
                    None => false,
                };
                if cached {
                    Ok(EnginePlan::UseCached)
                } else {
                    Ok(EnginePlan::Load { ticket: self.generation, model })
                }
            },
        }
    }

    /// Reacts to a change of preference: empties the slot, hands back the
    /// engine it held, and says which model, if any, to load ahead of the
    /// next request.
    pub fn change_preference(
        &mut self,
        preference: &Option<String>,
        kind: ModelKind,
        records: &Vec<ModelRecord>,
    ) -> (result: (Option<E>, Option<EnginePlan>))
        ensures
            *final(self) == old(self).invalidated(),
            final(self).engine() is None,
            final(self).model_id() is None,
            result.0 == old(self).engine(),
            old(self).generation() < u64::MAX ==> final(self).generation() == old(
                self,
            ).generation() + 1,
            old(self).generation() >= u64::MAX ==> final(self).generation() == old(
                self,
            ).generation(),
            match result.1 {
                Some(plan) => spec_plan_request(
                    None,
                    final(self).generation(),
                    option_view(*preference),
                    kind,
                    records@,
                ) == Ok::<EnginePlanView, CoreError>(plan@),
                None => spec_resolve(option_view(*preference), kind, records@) is Err,
            },
    {
        let evicted = self.invalidate();
        let preload = match self.plan_request(preference, kind, records) {
            Ok(plan) => Some(plan),
            Err(_) => None,
        };
        (evicted, preload)
    }
}

} // verus!
