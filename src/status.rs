//! Status effects and statistic alterations.
use crate::battle::{lemma_queued_below_refl, lemma_queued_below_trans, queued_below, Battle};
use crate::entity::{
    expired_ids, is_ticked, AppliedStatus, Character, Entities, EntityId, StatisticId, StatusDuration,
    StatusId,
};
use crate::error::{WeaselError, WeaselResult};
use crate::event::{Event, EventId, EventPrototype, EventQueue, EventTrigger};
use vstd::prelude::*;

verus! {

/// Intensity and duration of a status effect.
pub type Potency = (i32, StatusDuration);

/// The status that `InflictStatus` with these values and event id puts on a character.
pub open spec fn inflicted(
    id: StatusId,
    statistic: StatisticId,
    potency: Option<Potency>,
    origin: EventId,
) -> AppliedStatus {
    AppliedStatus {
        id,
        statistic,
        intensity: match potency {
            Some(p) => p.0,
            None => 0,
        },
        max_duration: match potency {
            Some(p) => Some(p.1),
            None => None,
        },
        duration: 0,
        origin: Some(origin),
    }
}

/// A prototype, linked to `origin`, to add `delta` to a statistic.
fn alteration(entity_id: EntityId, statistic_id: StatisticId, delta: i64, origin: EventId) -> (r:
    EventPrototype)
    ensures
        r == (EventPrototype {
            origin: Some(origin),
            event: Event::AlterStatistics(AlterStatistics { entity_id, statistic_id, delta }),
            condition: None,
        }),
{
    EventPrototype {
        origin: Some(origin),
        event: Event::AlterStatistics(AlterStatistics { entity_id, statistic_id, delta }),
        condition: None,
    }
}

/// The prototypes, linked to `origin`, that clear the statuses `ids` of an entity.
pub open spec fn clear_prototypes(entity_id: EntityId, ids: Seq<StatusId>, origin: EventId) -> Seq<EventPrototype> {
    ids.map_values(
        |id: StatusId|
            EventPrototype {
                origin: Some(origin),
                event: Event::ClearStatus(ClearStatus { entity_id, status_id: id }),
                condition: None,
            },
    )
}

/// The prototypes that a round for the entities `ids` queues, in order: for each existing
/// one, those that clear the statuses that the round ends.
pub open spec fn round_clears(entities: Entities, ids: Seq<EntityId>, origin: EventId) -> Seq<EventPrototype>
    decreases ids.len(),
{
    if ids.len() == 0 {
        Seq::empty()
    } else {
        let r = round_clears(entities, ids.drop_last(), origin);
        match entities.spec_character(ids.last()) {
            Some(c) => r + clear_prototypes(ids.last(), expired_ids(c.spec_statuses()), origin),
            None => r,
        }
    }
}

/// Lets one more round pass for every status of an existing entity; each status that has
/// been active for its whole duration is then cleared by an event put in the queue.
pub(crate) fn update_statuses(
    battle: &mut Battle,
    entity_id: &EntityId,
    origin: EventId,
    queue: &mut EventQueue,
)
    requires
        old(battle).wf(),
        old(battle).state.entities.spec_has(*entity_id),
    ensures
        final(battle).wf(),
        final(battle).state.entities.same_entities(&old(battle).state.entities),
        final(battle).state.rounds == old(battle).state.rounds,
        final(battle).metrics == old(battle).metrics,
        final(battle).history == old(battle).history,
        final(battle).version == old(battle).version,
        final(battle).entropy == old(battle).entropy,
        queued_below(old(queue)@, final(queue)@, 2, origin),
        is_ticked(
            old(battle).state.entities.spec_character(*entity_id)->0,
            final(battle).state.entities.spec_character(*entity_id)->0,
        ),
        final(battle).state.entities.spec_character(*entity_id) is Some,
        forall|e: EntityId| e != *entity_id ==> final(battle).state.entities.spec_character(e)
            == old(battle).state.entities.spec_character(e),
        final(queue)@ == old(queue)@ + clear_prototypes(
            *entity_id,
            expired_ids(old(battle).state.entities.spec_character(*entity_id)->0.spec_statuses()),
            origin,
        ),
{
    let mut ch = battle.state.entities.swap_character(entity_id, Character::empty());
    let expired = ch.tick_statuses();
    let ghost mid = battle.state.entities;
    let _ = battle.state.entities.swap_character(entity_id, ch);
    proof {
        Entities::lemma_same_entities(battle.state.entities, mid, old(battle).state.entities);
    }
    let mut i: usize = 0;
    proof {
        lemma_queued_below_refl(old(queue)@, 2, origin);
        assert(queue@ =~= old(queue)@ + clear_prototypes(*entity_id, expired@.take(0), origin));
    }
    while i < expired.len()
        invariant
            i <= expired@.len(),
            queued_below(old(queue)@, queue@, 2, origin),
            queue@ == old(queue)@ + clear_prototypes(*entity_id, expired@.take(i as int), origin),
        decreases expired.len() - i,
    {
        let ghost before = queue@;
        queue.push(
            EventPrototype {
                origin: Some(origin),
                event: Event::ClearStatus(ClearStatus { entity_id: *entity_id, status_id: expired[i] }),
                condition: None,
            },
        );
        proof {
            assert(queue@.take(old(queue)@.len() as int) =~= before.take(old(queue)@.len() as int));
            assert(queue@.take(before.len() as int) =~= before);
            assert(queue@ =~= old(queue)@ + clear_prototypes(*entity_id, expired@.take(i + 1), origin));
        }
        i += 1;
    }
    proof {
        assert(expired@.take(expired@.len() as int) =~= expired@);
    }
}

/// Lets one more round pass for the statuses of each existing entity of `ids`, in order.
pub(crate) fn update_all_statuses(
    battle: &mut Battle,
    ids: &Vec<EntityId>,
    origin: EventId,
    queue: &mut EventQueue,
)
    requires
        old(battle).wf(),
        ids@.no_duplicates(),
    ensures
        final(battle).wf(),
        final(battle).state.entities.same_entities(&old(battle).state.entities),
        final(battle).state.rounds == old(battle).state.rounds,
        final(battle).entropy == old(battle).entropy,
        final(battle).metrics == old(battle).metrics,
        final(battle).history == old(battle).history,
        final(battle).version == old(battle).version,
        queued_below(old(queue)@, final(queue)@, 2, origin),
        final(queue)@ == old(queue)@ + round_clears(old(battle).state.entities, ids@, origin),
        forall|e: EntityId| #[trigger] ids@.contains(e) && old(battle).state.entities.spec_has(e) ==> is_ticked(
            old(battle).state.entities.spec_character(e)->0,
            final(battle).state.entities.spec_character(e)->0,
        ),
        forall|e: EntityId| !(#[trigger] ids@.contains(e)) ==> final(battle).state.entities.spec_character(e)
            == old(battle).state.entities.spec_character(e),
{
    let ghost ents0 = battle.state.entities;
    proof {
        lemma_queued_below_refl(old(queue)@, 2, origin);
        Entities::lemma_same_entities(ents0, ents0, ents0);
        assert(queue@ =~= old(queue)@ + round_clears(ents0, ids@.take(0), origin));
    }
    let mut k: usize = 0;
    while k < ids.len()
        invariant
            k <= ids@.len(),
            ids@.no_duplicates(),
            ents0 == old(battle).state.entities,
            battle.wf(),
            battle.state.entities.same_entities(&ents0),
            battle.state.rounds == old(battle).state.rounds,
            battle.entropy == old(battle).entropy,
            battle.metrics == old(battle).metrics,
            battle.history == old(battle).history,
            battle.version == old(battle).version,
            queued_below(old(queue)@, queue@, 2, origin),
            queue@ == old(queue)@ + round_clears(ents0, ids@.take(k as int), origin),
            forall|e: EntityId| #[trigger] ids@.take(k as int).contains(e) && ents0.spec_has(e) ==> is_ticked(
                ents0.spec_character(e)->0,
                battle.state.entities.spec_character(e)->0,
            ),
            forall|e: EntityId| !(#[trigger] ids@.take(k as int).contains(e)) ==> battle.state.entities.spec_character(e)
                == ents0.spec_character(e),
        decreases ids.len() - k,
    {
        let e = ids[k];
        let ghost q0 = queue@;
        let ghost b0 = battle.state.entities;
        proof {
            assert(ids@.take(k + 1).drop_last() =~= ids@.take(k as int));
            assert(ids@.take(k + 1).last() == e);
            assert(!ids@.take(k as int).contains(e)) by {
                if ids@.take(k as int).contains(e) {
                    let j = choose|j: int| 0 <= j < k && #[trigger] ids@.take(k as int)[j] == e;
                    assert(ids@[j] == ids@[k as int]);
                }
            }
            assert(b0.spec_character(e) == ents0.spec_character(e));
            assert forall|x: EntityId| ids@.take(k + 1).contains(x) <==> (ids@.take(k as int).contains(x) || x == e) by {
                if ids@.take(k + 1).contains(x) && x != e {
                    let j = choose|j: int| 0 <= j < k + 1 && #[trigger] ids@.take(k + 1)[j] == x;
                    assert(ids@.take(k as int)[j] == x);
                }
                if ids@.take(k as int).contains(x) {
                    let j = choose|j: int| 0 <= j < k && #[trigger] ids@.take(k as int)[j] == x;
                    assert(ids@.take(k + 1)[j] == x);
                }
                if x == e {
                    assert(ids@.take(k + 1)[k as int] == x);
                }
            }
        }
        if battle.state.entities.character(&e).is_some() {
            update_statuses(battle, &e, origin, queue);
            proof {
                Entities::lemma_same_entities(battle.state.entities, b0, ents0);
                lemma_queued_below_trans(old(queue)@, q0, queue@, 2, 2, origin);
                assert(queue@ =~= old(queue)@ + round_clears(ents0, ids@.take(k + 1), origin));
            }
        } else {
            proof {
                assert(queue@ =~= old(queue)@ + round_clears(ents0, ids@.take(k + 1), origin));
                assert(!ents0.spec_has(e));
            }
        }
        proof {
            assert forall|x: EntityId| #[trigger] ids@.take(k + 1).contains(x) && ents0.spec_has(x) implies is_ticked(
                ents0.spec_character(x)->0,
                battle.state.entities.spec_character(x)->0,
            ) by {
                if x != e {
                    assert(ids@.take(k as int).contains(x));
                }
            }
            assert forall|x: EntityId| !(#[trigger] ids@.take(k + 1).contains(x)) implies battle.state.entities.spec_character(x)
                == ents0.spec_character(x) by {
                assert(x != e);
                assert(!ids@.take(k as int).contains(x));
            }
        }
        k += 1;
    }
    proof {
        assert(ids@.take(ids@.len() as int) =~= ids@);
    }
}

/// Event to add an amount to a statistic of a character.
#[derive(Clone, Copy, Debug, PartialEq, Eq, Structural)]
pub struct AlterStatistics {
    pub entity_id: EntityId,
    pub statistic_id: StatisticId,
    pub delta: i64,
}

impl AlterStatistics {
    /// Returns a trigger to add `delta` to a statistic of an entity.
    pub fn trigger(entity_id: EntityId, statistic_id: StatisticId, delta: i64) -> (r:
        AlterStatisticsTrigger)
        ensures
            r == (AlterStatisticsTrigger { entity_id, statistic_id, delta }),
    {
        AlterStatisticsTrigger { entity_id, statistic_id, delta }
    }

    /// What verifying gives: the entity and its statistic exist, and the sum fits.
    pub open(crate) spec fn spec_verify(&self, battle: &Battle) -> WeaselResult<()> {
        match battle.state.entities.spec_character(self.entity_id) {
            None => Err(WeaselError::EntityNotFound(self.entity_id)),
            Some(ch) => match ch.spec_statistic(self.statistic_id) {
                None => Err(WeaselError::StatisticNotFound(self.entity_id, self.statistic_id)),
                Some(s) => if i64::MIN <= s.value + self.delta <= i64::MAX {
                    Ok(())
                } else {
                    Err(WeaselError::StatisticOutOfRange(self.entity_id, self.statistic_id))
                },
            },
        }
    }

    /// Verifies whether the statistic can be altered.
    pub(crate) fn verify(&self, battle: &Battle) -> (r: WeaselResult<()>)
        requires
            battle.wf(),
        ensures
            r == self.spec_verify(battle),
    {
        match battle.state.entities.character(&self.entity_id) {
            None => Err(WeaselError::EntityNotFound(self.entity_id)),
            Some(ch) => match ch.statistic(&self.statistic_id) {
                None => Err(WeaselError::StatisticNotFound(self.entity_id, self.statistic_id)),
                Some(s) => match s.value.checked_add(self.delta) {
                    Some(_) => Ok(()),
                    None => Err(WeaselError::StatisticOutOfRange(self.entity_id, self.statistic_id)),
                },
            },
        }
    }

    /// Adds the amount to the statistic.
    pub(crate) fn apply(&self, battle: &mut Battle)
        requires
            old(battle).wf(),
            self.spec_verify(old(battle)) is Ok,
        ensures
            final(battle).wf(),
            final(battle).state.entities.same_entities(&old(battle).state.entities),
            final(battle).state.entities.spec_character(self.entity_id)->0.spec_statistic(
                self.statistic_id,
            )->0.spec_value() == old(battle).state.entities.spec_character(
                self.entity_id,
            )->0.spec_statistic(self.statistic_id)->0.spec_value() + self.delta,
            final(battle).state.rounds == old(battle).state.rounds,
            final(battle).metrics == old(battle).metrics,
            final(battle).history == old(battle).history,
            final(battle).version == old(battle).version,
            final(battle).entropy == old(battle).entropy,
    {
        let mut ch = battle.state.entities.swap_character(&self.entity_id, Character::empty());
        let _ = ch.alter_statistic(self.statistic_id, self.delta);
        let ghost mid = battle.state.entities;
        let _ = battle.state.entities.swap_character(&self.entity_id, ch);
        proof {
            Entities::lemma_same_entities(battle.state.entities, mid, old(battle).state.entities);
        }
    }
}

/// Trigger to build and fire an `AlterStatistics` event.
#[derive(Clone, Copy, Debug, PartialEq, Eq, Structural)]
pub struct AlterStatisticsTrigger {
    pub entity_id: EntityId,
    pub statistic_id: StatisticId,
    pub delta: i64,
}

impl EventTrigger for AlterStatisticsTrigger {
    open spec fn spec_prototype(self) -> EventPrototype {
        EventPrototype::spec_new(
            Event::AlterStatistics(
                AlterStatistics {
                    entity_id: self.entity_id,
                    statistic_id: self.statistic_id,
                    delta: self.delta,
                },
            ),
        )
    }

    fn prototype(self) -> (r: EventPrototype) {
        EventPrototype::new(
            Event::AlterStatistics(
                AlterStatistics {
                    entity_id: self.entity_id,
                    statistic_id: self.statistic_id,
                    delta: self.delta,
                },
            ),
        )
    }
}

/// Event to inflict a status effect on a character, replacing the one with the same id.
///
/// While active, the status adds its intensity to one statistic of the character.
#[derive(Clone, Copy, Debug, PartialEq, Eq)]
pub struct InflictStatus {
    pub entity_id: EntityId,
    pub status_id: StatusId,
    pub statistic_id: StatisticId,
    pub potency: Option<Potency>,
}

impl InflictStatus {
    /// Returns a trigger for a status that alters the given statistic.
    pub fn trigger(entity_id: EntityId, status_id: StatusId, statistic_id: StatisticId) -> (r:
        InflictStatusTrigger)
        ensures
            r == (InflictStatusTrigger { entity_id, status_id, statistic_id, potency: None }),
    {
        InflictStatusTrigger { entity_id, status_id, statistic_id, potency: None }
    }

    /// What verifying gives: the entity and the statistic exist.
    pub open(crate) spec fn spec_verify(&self, battle: &Battle) -> WeaselResult<()> {
        match battle.state.entities.spec_character(self.entity_id) {
            None => Err(WeaselError::EntityNotFound(self.entity_id)),
            Some(ch) => match ch.spec_statistic(self.statistic_id) {
                None => Err(WeaselError::StatisticNotFound(self.entity_id, self.statistic_id)),
                Some(_) => Ok(()),
            },
        }
    }

    /// Verifies whether the status can be inflicted.
    pub(crate) fn verify(&self, battle: &Battle) -> (r: WeaselResult<()>)
        requires
            battle.wf(),
        ensures
            r == self.spec_verify(battle),
    {
        match battle.state.entities.character(&self.entity_id) {
            None => Err(WeaselError::EntityNotFound(self.entity_id)),
            Some(ch) => match ch.statistic(&self.statistic_id) {
                None => Err(WeaselError::StatisticNotFound(self.entity_id, self.statistic_id)),
                Some(_) => Ok(()),
            },
        }
    }

    /// Puts the status on the character; its effect on the statistic, and the removal of
    /// the effect of a replaced status, come as generated events.
    pub(crate) fn apply(&self, battle: &mut Battle, id: EventId, queue: &mut EventQueue)
        requires
            old(battle).wf(),
            self.spec_verify(old(battle)) is Ok,
        ensures
            final(battle).wf(),
            final(battle).state.entities.same_entities(&old(battle).state.entities),
            final(battle).state.entities.spec_character(self.entity_id)->0.spec_status(
                self.status_id,
            ) == Some(inflicted(self.status_id, self.statistic_id, self.potency, id)),
            final(battle).state.rounds == old(battle).state.rounds,
            final(battle).metrics == old(battle).metrics,
            final(battle).history == old(battle).history,
            final(battle).version == old(battle).version,
            final(battle).entropy == old(battle).entropy,
            queued_below(old(queue)@, final(queue)@, 1, id),
    {
        let status = AppliedStatus {
            id: self.status_id,
            statistic: self.statistic_id,
            intensity: match self.potency {
                Some(p) => p.0,
                None => 0,
            },
            max_duration: match self.potency {
                Some(p) => Some(p.1),
                None => None,
            },
            duration: 0,
            origin: Some(id),
        };
        let mut ch = battle.state.entities.swap_character(&self.entity_id, Character::empty());
        let replaced = ch.put_status(status);
        let ghost mid = battle.state.entities;
        let _ = battle.state.entities.swap_character(&self.entity_id, ch);
        proof {
            Entities::lemma_same_entities(battle.state.entities, mid, old(battle).state.entities);
        }
        let ghost q0 = queue@;
        if let Some(old_status) = replaced {
            queue.push(alteration(self.entity_id, old_status.statistic, -(old_status.intensity as i64), id));
        }
        queue.push(alteration(self.entity_id, self.statistic_id, status.intensity as i64, id));
        proof {
            assert(queue@.take(q0.len() as int) =~= q0);
        }
    }
}

/// Trigger to build and fire an `InflictStatus` event.
#[derive(Clone, Copy, Debug, PartialEq, Eq)]
pub struct InflictStatusTrigger {
    pub entity_id: EntityId,
    pub status_id: StatusId,
    pub statistic_id: StatisticId,
    pub potency: Option<Potency>,
}

impl InflictStatusTrigger {
    /// Sets the intensity and the duration of the status.
    pub fn potency(self, potency: Potency) -> (r: InflictStatusTrigger)
        ensures
            r == (InflictStatusTrigger { potency: Some(potency), ..self }),
    {
        InflictStatusTrigger { potency: Some(potency), ..self }
    }
}

impl EventTrigger for InflictStatusTrigger {
    open spec fn spec_prototype(self) -> EventPrototype {
        EventPrototype::spec_new(
            Event::InflictStatus(
                InflictStatus {
                    entity_id: self.entity_id,
                    status_id: self.status_id,
                    statistic_id: self.statistic_id,
                    potency: self.potency,
                },
            ),
        )
    }

    fn prototype(self) -> (r: EventPrototype) {
        EventPrototype::new(
            Event::InflictStatus(
                InflictStatus {
                    entity_id: self.entity_id,
                    status_id: self.status_id,
                    statistic_id: self.statistic_id,
                    potency: self.potency,
                },
            ),
        )
    }
}

/// Event to free a character from a status effect.
#[derive(Clone, Copy, Debug, PartialEq, Eq, Structural)]
pub struct ClearStatus {
    pub entity_id: EntityId,
    pub status_id: StatusId,
}

impl ClearStatus {
    /// Returns a trigger for this event.
    pub fn trigger(entity_id: EntityId, status_id: StatusId) -> (r: ClearStatusTrigger)
        ensures
            r == (ClearStatusTrigger { entity_id, status_id }),
    {
        ClearStatusTrigger { entity_id, status_id }
    }

    /// What verifying gives: the entity exists and has the status.
    pub open(crate) spec fn spec_verify(&self, battle: &Battle) -> WeaselResult<()> {
        match battle.state.entities.spec_character(self.entity_id) {
            None => Err(WeaselError::EntityNotFound(self.entity_id)),
            Some(ch) => match ch.spec_status(self.status_id) {
                None => Err(WeaselError::StatusNotPresent(self.entity_id, self.status_id)),
                Some(_) => Ok(()),
            },
        }
    }

    /// Verifies whether the status can be cleared.
    pub(crate) fn verify(&self, battle: &Battle) -> (r: WeaselResult<()>)
        requires
            battle.wf(),
        ensures
            r == self.spec_verify(battle),
    {
        match battle.state.entities.character(&self.entity_id) {
            None => Err(WeaselError::EntityNotFound(self.entity_id)),
            Some(ch) => match ch.status(&self.status_id) {
                None => Err(WeaselError::StatusNotPresent(self.entity_id, self.status_id)),
                Some(_) => Ok(()),
            },
        }
    }

    /// Removes the status; the removal of its effect comes as a generated event.
    pub(crate) fn apply(&self, battle: &mut Battle, id: EventId, queue: &mut EventQueue)
        requires
            old(battle).wf(),
            self.spec_verify(old(battle)) is Ok,
        ensures
            final(battle).wf(),
            final(battle).state.entities.same_entities(&old(battle).state.entities),
            final(battle).state.entities.spec_character(self.entity_id)->0.spec_status(
                self.status_id,
            ) is None,
            final(battle).state.rounds == old(battle).state.rounds,
            final(battle).metrics == old(battle).metrics,
            final(battle).history == old(battle).history,
            final(battle).version == old(battle).version,
            final(battle).entropy == old(battle).entropy,
            queued_below(old(queue)@, final(queue)@, 1, id),
    {
        let mut ch = battle.state.entities.swap_character(&self.entity_id, Character::empty());
        let removed = ch.remove_status(self.status_id);
        let ghost mid = battle.state.entities;
        let _ = battle.state.entities.swap_character(&self.entity_id, ch);
        proof {
            Entities::lemma_same_entities(battle.state.entities, mid, old(battle).state.entities);
        }
        let ghost q0 = queue@;
        if let Some(st) = removed {
            queue.push(alteration(self.entity_id, st.statistic, -(st.intensity as i64), id));
        }
        proof {
            assert(queue@.take(q0.len() as int) =~= q0);
        }
    }
}

/// Trigger to build and fire a `ClearStatus` event.
#[derive(Clone, Copy, Debug, PartialEq, Eq, Structural)]
pub struct ClearStatusTrigger {
    pub entity_id: EntityId,
    pub status_id: StatusId,
}

impl EventTrigger for ClearStatusTrigger {
    open spec fn spec_prototype(self) -> EventPrototype {
        EventPrototype::spec_new(
            Event::ClearStatus(ClearStatus { entity_id: self.entity_id, status_id: self.status_id }),
        )
    }

    fn prototype(self) -> (r: EventPrototype) {
        EventPrototype::new(
            Event::ClearStatus(ClearStatus { entity_id: self.entity_id, status_id: self.status_id }),
        )
    }
}

} // verus!
