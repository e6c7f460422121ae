//! Inanimate objects.
use crate::battle::{increment, incremented, Battle};
use crate::entity::{
    find_by_key, statistic_key, AppliedStatus, Character, EntityId, ObjectId, Position,
    SimpleStatistic, StatisticId, StatusId,
};
use crate::error::{WeaselError, WeaselResult};
use crate::event::{Event, EventPrototype, EventTrigger};
use vstd::prelude::*;

verus! {

/// An object is an inanimate entity.
///
/// Objects have a position, statistics and statuses, but they can't start a round and
/// belong to no team.
#[derive(Clone, Debug)]
pub struct Object {
    pub(crate) id: ObjectId,
    pub(crate) position: Position,
    pub(crate) character: Character,
}

impl Object {
    /// The object's id.
    pub open(crate) spec fn spec_id(&self) -> ObjectId {
        self.id
    }

    /// The object's position.
    pub open(crate) spec fn spec_position(&self) -> Position {
        self.position
    }

    /// The object's statistics and statuses.
    pub open(crate) spec fn spec_character(&self) -> Character {
        self.character
    }

    /// Returns the object's id.
    pub fn id(&self) -> (r: ObjectId)
        ensures
            r == self.spec_id(),
    {
        self.id
    }

    /// Returns the object's entity id.
    pub fn entity_id(&self) -> (r: EntityId)
        ensures
            r == EntityId::Object(self.spec_id()),
    {
        EntityId::Object(self.id)
    }

    /// Returns the object's position.
    pub fn position(&self) -> (r: Position)
        ensures
            r == self.spec_position(),
    {
        self.position
    }

    /// Moves the object.
    pub fn set_position(&mut self, position: Position)
        ensures
            final(self).spec_position() == position,
            final(self).spec_id() == old(self).spec_id(),
            final(self).spec_character() == old(self).spec_character(),
    {
        self.position = position;
    }

    /// Returns the object's statistics and statuses.
    pub fn character(&self) -> (r: &Character)
        ensures
            *r == self.spec_character(),
    {
        &self.character
    }

    /// Returns the statistic with the given id, if any.
    pub fn statistic(&self, id: &StatisticId) -> (r: Option<SimpleStatistic>)
        requires
            self.spec_character().wf(),
        ensures
            r == self.spec_character().spec_statistic(*id),
    {
        self.character.statistic(id)
    }

    /// Returns a mutable reference to the statistic with the given id, if any.
    pub fn statistic_mut(&mut self, id: &StatisticId) -> (r: Option<&mut SimpleStatistic>)
        requires
            old(self).spec_character().wf(),
        ensures
            (r is Some) <==> (old(self).spec_character().spec_statistic(*id) is Some),
            r matches Some(s) ==> Some(*s) == old(self).spec_character().spec_statistic(*id),
            r is None ==> *final(self) == *old(self),
            r matches Some(s) ==> final(self).spec_character().spec_statuses() == old(
                self,
            ).spec_character().spec_statuses() && final(self).spec_character().spec_statistics()
                == old(self).spec_character().spec_statistics().update(
                old(self).spec_character().spec_statistic_index(*id),
                *final(s),
            ),
            final(self).spec_id() == old(self).spec_id(),
            final(self).spec_position() == old(self).spec_position(),
    {
        self.character.statistic_mut(id)
    }

    /// Adds a statistic, replacing the one with the same id. Returns the replaced one.
    pub fn add_statistic(&mut self, statistic: SimpleStatistic) -> (r: Option<SimpleStatistic>)
        requires
            old(self).spec_character().wf(),
        ensures
            final(self).spec_character().wf(),
            r == old(self).spec_character().spec_statistic(statistic.spec_id()),
            final(self).spec_character().spec_statistic(statistic.spec_id()) == Some(statistic),
            forall|id: StatisticId|
                id != statistic.spec_id() ==> final(self).spec_character().spec_statistic(id)
                    == old(self).spec_character().spec_statistic(id),
            final(self).spec_id() == old(self).spec_id(),
            final(self).spec_position() == old(self).spec_position(),
    {
        self.character.add_statistic(statistic)
    }

    /// Removes the statistic with the given id, returning it.
    pub fn remove_statistic(&mut self, id: &StatisticId) -> (r: Option<SimpleStatistic>)
        requires
            old(self).spec_character().wf(),
        ensures
            final(self).spec_character().wf(),
            r == old(self).spec_character().spec_statistic(*id),
            final(self).spec_character().spec_statistic(*id) is None,
            forall|k: StatisticId|
                k != *id ==> final(self).spec_character().spec_statistic(k) == old(
                    self,
                ).spec_character().spec_statistic(k),
            final(self).spec_id() == old(self).spec_id(),
            final(self).spec_position() == old(self).spec_position(),
    {
        self.character.remove_statistic(id)
    }

    /// Returns the status effect with the given id, if any.
    pub fn status(&self, id: &StatusId) -> (r: Option<AppliedStatus>)
        requires
            self.spec_character().wf(),
        ensures
            r == self.spec_character().spec_status(*id),
    {
        self.character.status(id)
    }
}

/// Event to create a new object.
///
/// The object starts with the statistics of the seed, if any; of several with the same id,
/// the last counts.
#[derive(Clone, Debug)]
pub struct CreateObject {
    pub id: ObjectId,
    pub position: Position,
    pub statistics_seed: Option<Vec<SimpleStatistic>>,
}

impl CreateObject {
    /// Returns a trigger for this event.
    pub fn trigger(id: ObjectId, position: Position) -> (r: CreateObjectTrigger)
        ensures
            r == (CreateObjectTrigger { id, position, statistics_seed: None }),
    {
        CreateObjectTrigger { id, position, statistics_seed: None }
    }

    /// Returns the id of the object to be created.
    pub fn id(&self) -> (r: ObjectId)
        ensures
            r == self.id,
    {
        self.id
    }

    /// Returns the position the object will take.
    pub fn position(&self) -> (r: Position)
        ensures
            r == self.position,
    {
        self.position
    }

    /// Returns the seed of the object's statistics.
    pub fn statistics_seed(&self) -> (r: &Option<Vec<SimpleStatistic>>)
        ensures
            *r == self.statistics_seed,
    {
        &self.statistics_seed
    }

    /// What verifying gives: the id must be new.
    pub open(crate) spec fn spec_verify(&self, battle: &Battle) -> WeaselResult<()> {
        if battle.state.entities.spec_object(self.id) is Some {
            Err(WeaselError::DuplicatedObject(self.id))
        } else {
            Ok(())
        }
    }

    /// Verifies that the id is new.
    pub(crate) fn verify(&self, battle: &Battle) -> (r: WeaselResult<()>)
        requires
            battle.wf(),
        ensures
            r == self.spec_verify(battle),
    {
        if battle.state.entities.object_index(self.id).is_some() {
            Err(WeaselError::DuplicatedObject(self.id))
        } else {
            Ok(())
        }
    }

    /// Adds the object, with the statistics of the seed and no status; one more object
    /// created.
    pub(crate) fn apply(&self, battle: &mut Battle)
        requires
            old(battle).wf(),
            self.spec_verify(old(battle)) is Ok,
        ensures
            final(battle).wf(),
            final(battle).state.entities.objects@.len() == old(battle).state.entities.objects@.len() + 1,
            final(battle).state.entities.objects@.drop_last() == old(battle).state.entities.objects@,
            final(battle).state.entities.objects@.last().id == self.id,
            final(battle).state.entities.objects@.last().position == self.position,
            final(battle).state.entities.objects@.last().character.spec_statuses().len() == 0,
            forall|sid: StatisticId| #[trigger] final(battle).state.entities.objects@.last().character.spec_statistic(sid)
                == match self.statistics_seed {
                Some(seed) => find_by_key(seed@, statistic_key(), sid),
                None => None,
            },
            final(battle).state.entities.teams@ == old(battle).state.entities.teams@,
            final(battle).state.entities.creatures@ == old(battle).state.entities.creatures@,
            final(battle).state.rounds == old(battle).state.rounds,
            final(battle).metrics.objects_created == incremented(old(battle).metrics.objects_created),
            final(battle).metrics.rounds_started == old(battle).metrics.rounds_started,
            final(battle).history == old(battle).history,
            final(battle).version == old(battle).version,
            final(battle).entropy == old(battle).entropy,
    {
        let character = match &self.statistics_seed {
            Some(s) => Character::new(s),
            None => Character::empty(),
        };
        let o = Object { id: self.id, position: self.position, character };
        battle.state.entities.add_object(o);
        battle.metrics.objects_created = increment(battle.metrics.objects_created);
    }
}

/// Trigger to build and fire a `CreateObject` event.
#[derive(Clone, Debug)]
pub struct CreateObjectTrigger {
    pub id: ObjectId,
    pub position: Position,
    pub statistics_seed: Option<Vec<SimpleStatistic>>,
}

impl CreateObjectTrigger {
    /// Sets the statistics the object starts with.
    pub fn statistics_seed(self, seed: Vec<SimpleStatistic>) -> (r: CreateObjectTrigger)
        ensures
            r == (CreateObjectTrigger { id: self.id, position: self.position, statistics_seed: Some(seed) }),
    {
        CreateObjectTrigger { id: self.id, position: self.position, statistics_seed: Some(seed) }
    }
}

impl EventTrigger for CreateObjectTrigger {
    open spec fn spec_prototype(self) -> EventPrototype {
        EventPrototype::spec_new(
            Event::CreateObject(
                CreateObject {
                    id: self.id,
                    position: self.position,
                    statistics_seed: self.statistics_seed,
                },
            ),
        )
    }

    fn prototype(self) -> (r: EventPrototype) {
        EventPrototype::new(
            Event::CreateObject(
                CreateObject {
                    id: self.id,
                    position: self.position,
                    statistics_seed: self.statistics_seed,
                },
            ),
        )
    }
}

/// Event to remove an object from the battle.
#[derive(Clone, Copy, Debug, PartialEq, Eq, Structural)]
pub struct RemoveObject {
    pub id: ObjectId,
}

impl RemoveObject {
    /// Returns a trigger for this event.
    pub fn trigger(id: ObjectId) -> (r: RemoveObjectTrigger)
        ensures
            r == (RemoveObjectTrigger { id }),
    {
        RemoveObjectTrigger { id }
    }

    /// Returns the id of the object to be removed.
    pub fn id(&self) -> (r: ObjectId)
        ensures
            r == self.id,
    {
        self.id
    }

    /// What verifying gives: the object must exist.
    pub open(crate) spec fn spec_verify(&self, battle: &Battle) -> WeaselResult<()> {
        if battle.state.entities.spec_object(self.id) is None {
            Err(WeaselError::ObjectNotFound(self.id))
        } else {
            Ok(())
        }
    }

    /// Verifies that the object exists.
    pub(crate) fn verify(&self, battle: &Battle) -> (r: WeaselResult<()>)
        requires
            battle.wf(),
        ensures
            r == self.spec_verify(battle),
    {
        if battle.state.entities.object_index(self.id).is_none() {
            Err(WeaselError::ObjectNotFound(self.id))
        } else {
            Ok(())
        }
    }

    /// Removes the object, freeing its position.
    pub(crate) fn apply(&self, battle: &mut Battle)
        requires
            old(battle).wf(),
            self.spec_verify(old(battle)) is Ok,
        ensures
            final(battle).wf(),
            final(battle).state.entities.spec_object(self.id) is None,
            exists|i: int| 0 <= i < old(battle).state.entities.objects@.len()
                && old(battle).state.entities.objects@[i].id == self.id
                && final(battle).state.entities.objects@ == old(battle).state.entities.objects@.remove(i),
            final(battle).state.entities.teams@ == old(battle).state.entities.teams@,
            final(battle).state.entities.creatures@ == old(battle).state.entities.creatures@,
            final(battle).state.rounds == old(battle).state.rounds,
            final(battle).metrics == old(battle).metrics,
            final(battle).history == old(battle).history,
            final(battle).version == old(battle).version,
            final(battle).entropy == old(battle).entropy,
    {
        if let Some(i) = battle.state.entities.object_index(self.id) {
            let _ = battle.state.entities.remove_object_at(i);
        }
    }
}

/// Trigger to build and fire a `RemoveObject` event.
#[derive(Clone, Copy, Debug, PartialEq, Eq, Structural)]
pub struct RemoveObjectTrigger {
    pub id: ObjectId,
}

impl EventTrigger for RemoveObjectTrigger {
    open spec fn spec_prototype(self) -> EventPrototype {
        EventPrototype::spec_new(Event::RemoveObject(RemoveObject { id: self.id }))
    }

    fn prototype(self) -> (r: EventPrototype) {
        EventPrototype::new(Event::RemoveObject(RemoveObject { id: self.id }))
    }
}

} // verus!
