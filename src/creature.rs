//! Teams and creatures.
use crate::battle::{Battle, Metrics};
use crate::entity::{
    find_by_key, statistic_key, Character, Creature, CreatureId, Entities, SimpleStatistic,
    StatisticId, Team, TeamId,
};
use crate::error::{WeaselError, WeaselResult};
use crate::event::{Event, EventPrototype, EventRights, EventTrigger};
use vstd::prelude::*;

verus! {

/// Event to create a new team.
#[derive(Clone, Copy, Debug, PartialEq, Eq, Structural)]
pub struct CreateTeam {
    pub id: TeamId,
}

impl CreateTeam {
    /// Returns a trigger for this event.
    pub fn trigger(id: TeamId) -> (r: CreateTeamTrigger)
        ensures
            r == (CreateTeamTrigger { id }),
    {
        CreateTeamTrigger { id }
    }

    /// What verifying gives: the id must be new.
    pub open(crate) spec fn spec_verify(&self, battle: &Battle) -> WeaselResult<()> {
        if battle.state.entities.spec_team(self.id) is Some {
            Err(WeaselError::DuplicatedTeam(self.id))
        } else {
            Ok(())
        }
    }

    /// Verifies that the id is new.
    pub(crate) fn verify(&self, battle: &Battle) -> (r: WeaselResult<()>)
        requires
            battle.wf(),
        ensures
            r == self.spec_verify(battle),
    {
        if battle.state.entities.team_index(self.id).is_some() {
            Err(WeaselError::DuplicatedTeam(self.id))
        } else {
            Ok(())
        }
    }

    /// Adds the team.
    pub(crate) fn apply(&self, battle: &mut Battle)
        requires
            old(battle).wf(),
            self.spec_verify(old(battle)) is Ok,
        ensures
            final(battle).wf(),
            final(battle).state.entities.teams@ == old(battle).state.entities.teams@.push(Team { id: self.id }),
            final(battle).state.entities.creatures@ == old(battle).state.entities.creatures@,
            final(battle).state.entities.objects@ == old(battle).state.entities.objects@,
            final(battle).state.rounds == old(battle).state.rounds,
            final(battle).metrics == old(battle).metrics,
            final(battle).history == old(battle).history,
            final(battle).version == old(battle).version,
            final(battle).entropy == old(battle).entropy,
    {
        battle.state.entities.add_team(Team { id: self.id });
    }
}

/// Trigger to build and fire a `CreateTeam` event.
#[derive(Clone, Copy, Debug, PartialEq, Eq, Structural)]
pub struct CreateTeamTrigger {
    pub id: TeamId,
}

impl EventTrigger for CreateTeamTrigger {
    open spec fn spec_prototype(self) -> EventPrototype {
        EventPrototype::spec_new(Event::CreateTeam(CreateTeam { id: self.id }))
    }

    fn prototype(self) -> (r: EventPrototype) {
        EventPrototype::new(Event::CreateTeam(CreateTeam { id: self.id }))
    }
}

/// Event to create a new creature in an existing team.
///
/// The creature starts with the statistics of the seed, if any; of several with the same
/// id, the last counts.
#[derive(Clone, Debug)]
pub struct CreateCreature {
    pub id: CreatureId,
    pub team_id: TeamId,
    pub statistics_seed: Option<Vec<SimpleStatistic>>,
}

impl CreateCreature {
    /// Returns a trigger for this event.
    pub fn trigger(id: CreatureId, team_id: TeamId) -> (r: CreateCreatureTrigger)
        ensures
            r == (CreateCreatureTrigger { id, team_id, statistics_seed: None }),
    {
        CreateCreatureTrigger { id, team_id, statistics_seed: None }
    }

    /// What verifying gives: the id must be new and the team must exist.
    pub open(crate) spec fn spec_verify(&self, battle: &Battle) -> WeaselResult<()> {
        if battle.state.entities.spec_creature(self.id) is Some {
            Err(WeaselError::DuplicatedCreature(self.id))
        } else if battle.state.entities.spec_team(self.team_id) is None {
            Err(WeaselError::TeamNotFound(self.team_id))
        } else {
            Ok(())
        }
    }

    /// Verifies that the id is new and the team exists.
    pub(crate) fn verify(&self, battle: &Battle) -> (r: WeaselResult<()>)
        requires
            battle.wf(),
        ensures
            r == self.spec_verify(battle),
    {
        if battle.state.entities.creature_index(self.id).is_some() {
            Err(WeaselError::DuplicatedCreature(self.id))
        } else if battle.state.entities.team_index(self.team_id).is_none() {
            Err(WeaselError::TeamNotFound(self.team_id))
        } else {
            Ok(())
        }
    }

    /// Adds the creature, with the statistics of the seed and no status.
    pub(crate) fn apply(&self, battle: &mut Battle)
        requires
            old(battle).wf(),
            self.spec_verify(old(battle)) is Ok,
        ensures
            final(battle).wf(),
            final(battle).state.entities.creatures@.len() == old(battle).state.entities.creatures@.len() + 1,
            final(battle).state.entities.creatures@.drop_last() == old(battle).state.entities.creatures@,
            final(battle).state.entities.creatures@.last().id == self.id,
            final(battle).state.entities.creatures@.last().team_id == self.team_id,
            final(battle).state.entities.creatures@.last().character.spec_statuses().len() == 0,
            forall|sid: StatisticId| #[trigger] final(battle).state.entities.creatures@.last().character.spec_statistic(sid)
                == match self.statistics_seed {
                Some(seed) => find_by_key(seed@, statistic_key(), sid),
                None => None,
            },
            final(battle).state.entities.teams@ == old(battle).state.entities.teams@,
            final(battle).state.entities.objects@ == old(battle).state.entities.objects@,
            final(battle).state.rounds == old(battle).state.rounds,
            final(battle).metrics == old(battle).metrics,
            final(battle).history == old(battle).history,
            final(battle).version == old(battle).version,
            final(battle).entropy == old(battle).entropy,
    {
        let character = match &self.statistics_seed {
            Some(s) => Character::new(s),
            None => Character::empty(),
        };
        let c = Creature { id: self.id, team_id: self.team_id, character };
        battle.state.entities.add_creature(c);
    }
}

/// Trigger to build and fire a `CreateCreature` event.
#[derive(Clone, Debug)]
pub struct CreateCreatureTrigger {
    pub id: CreatureId,
    pub team_id: TeamId,
    pub statistics_seed: Option<Vec<SimpleStatistic>>,
}

impl CreateCreatureTrigger {
    /// Sets the statistics the creature starts with.
    pub fn statistics_seed(self, seed: Vec<SimpleStatistic>) -> (r: CreateCreatureTrigger)
        ensures
            r == (CreateCreatureTrigger { id: self.id, team_id: self.team_id, statistics_seed: Some(seed) }),
    {
        CreateCreatureTrigger { id: self.id, team_id: self.team_id, statistics_seed: Some(seed) }
    }
}

impl EventTrigger for CreateCreatureTrigger {
    open spec fn spec_prototype(self) -> EventPrototype {
        EventPrototype::spec_new(
            Event::CreateCreature(
                CreateCreature {
                    id: self.id,
                    team_id: self.team_id,
                    statistics_seed: self.statistics_seed,
                },
            ),
        )
    }

    fn prototype(self) -> (r: EventPrototype) {
        EventPrototype::new(
            Event::CreateCreature(
                CreateCreature {
                    id: self.id,
                    team_id: self.team_id,
                    statistics_seed: self.statistics_seed,
                },
            ),
        )
    }
}

/// Event to remove a creature from the battle.
#[derive(Clone, Copy, Debug, PartialEq, Eq, Structural)]
pub struct RemoveCreature {
    pub id: CreatureId,
}

impl RemoveCreature {
    /// Returns a trigger for this event.
    pub fn trigger(id: CreatureId) -> (r: RemoveCreatureTrigger)
        ensures
            r == (RemoveCreatureTrigger { id }),
    {
        RemoveCreatureTrigger { id }
    }

    /// What verifying gives: the creature must exist.
    pub open(crate) spec fn spec_verify(&self, battle: &Battle) -> WeaselResult<()> {
        if battle.state.entities.spec_creature(self.id) is None {
            Err(WeaselError::CreatureNotFound(self.id))
        } else {
            Ok(())
        }
    }

    /// Verifies that the creature exists.
    pub(crate) fn verify(&self, battle: &Battle) -> (r: WeaselResult<()>)
        requires
            battle.wf(),
        ensures
            r == self.spec_verify(battle),
    {
        if battle.state.entities.creature_index(self.id).is_none() {
            Err(WeaselError::CreatureNotFound(self.id))
        } else {
            Ok(())
        }
    }

    /// Removes the creature.
    pub(crate) fn apply(&self, battle: &mut Battle)
        requires
            old(battle).wf(),
            self.spec_verify(old(battle)) is Ok,
        ensures
            final(battle).wf(),
            final(battle).state.entities.spec_creature(self.id) is None,
            exists|i: int| 0 <= i < old(battle).state.entities.creatures@.len()
                && old(battle).state.entities.creatures@[i].id == self.id
                && final(battle).state.entities.creatures@ == old(battle).state.entities.creatures@.remove(i),
            final(battle).state.entities.teams@ == old(battle).state.entities.teams@,
            final(battle).state.entities.objects@ == old(battle).state.entities.objects@,
            final(battle).state.rounds == old(battle).state.rounds,
            final(battle).metrics == old(battle).metrics,
            final(battle).history == old(battle).history,
            final(battle).version == old(battle).version,
            final(battle).entropy == old(battle).entropy,
    {
        if let Some(i) = battle.state.entities.creature_index(self.id) {
            let _ = battle.state.entities.remove_creature_at(i);
        }
    }

    /// The team of the creature: a player needs rights to it.
    pub(crate) fn rights(&self, battle: &Battle) -> (r: EventRights)
        requires
            battle.wf(),
        ensures
            match battle.state.entities.spec_creature(self.id) {
                Some(c) => r == EventRights::Team(c.team_id),
                None => r == EventRights::Server,
            },
    {
        match battle.state.entities.creature(&self.id) {
            Some(c) => EventRights::Team(c.team_id),
            None => EventRights::Server,
        }
    }
}

/// Trigger to build and fire a `RemoveCreature` event.
#[derive(Clone, Copy, Debug, PartialEq, Eq, Structural)]
pub struct RemoveCreatureTrigger {
    pub id: CreatureId,
}

impl EventTrigger for RemoveCreatureTrigger {
    open spec fn spec_prototype(self) -> EventPrototype {
        EventPrototype::spec_new(Event::RemoveCreature(RemoveCreature { id: self.id }))
    }

    fn prototype(self) -> (r: EventPrototype) {
        EventPrototype::new(Event::RemoveCreature(RemoveCreature { id: self.id }))
    }
}

/// The outcome of a team's objectives.
#[derive(Clone, Copy, Debug, PartialEq, Eq, Structural)]
pub enum Conclusion {
    /// The team reached its objectives.
    Victory,
    /// The team failed its objectives.
    Defeat,
}

/// How teams reach or fail their objectives.
pub trait TeamRules {
    /// The outcome of the team's objectives at the end of a round, if there is one yet.
    spec fn objectives(&self, team: Team, entities: Entities, metrics: Metrics) -> Option<Conclusion>;

    /// Checks the team's objectives at the end of a round.
    fn check_objectives_on_round(&self, team: &Team, entities: &Entities, metrics: &Metrics) -> (r:
        Option<Conclusion>)
        ensures
            r == self.objectives(*team, *entities, *metrics),
    ;
}

/// Event to record the outcome of a team's objectives.
#[derive(Clone, Copy, Debug, PartialEq, Eq, Structural)]
pub struct ConcludeObjectives {
    pub team_id: TeamId,
    pub conclusion: Conclusion,
}

impl ConcludeObjectives {
    /// Returns a trigger for this event.
    pub fn trigger(team_id: TeamId, conclusion: Conclusion) -> (r: ConcludeObjectivesTrigger)
        ensures
            r == (ConcludeObjectivesTrigger { team_id, conclusion }),
    {
        ConcludeObjectivesTrigger { team_id, conclusion }
    }

    /// What verifying gives: the team must exist.
    pub open(crate) spec fn spec_verify(&self, battle: &Battle) -> WeaselResult<()> {
        if battle.state.entities.spec_team(self.team_id) is None {
            Err(WeaselError::TeamNotFound(self.team_id))
        } else {
            Ok(())
        }
    }

    /// Verifies that the team exists.
    pub(crate) fn verify(&self, battle: &Battle) -> (r: WeaselResult<()>)
        requires
            battle.wf(),
        ensures
            r == self.spec_verify(battle),
    {
        if battle.state.entities.team_index(self.team_id).is_none() {
            Err(WeaselError::TeamNotFound(self.team_id))
        } else {
            Ok(())
        }
    }

    /// Records the outcome for the team.
    pub(crate) fn apply(&self, battle: &mut Battle)
        requires
            old(battle).wf(),
        ensures
            final(battle).wf(),
            final(battle).spec_conclusion(self.team_id) == Some(self.conclusion),
            forall|t: TeamId| t != self.team_id ==> final(battle).spec_conclusion(t) == old(battle).spec_conclusion(t),
            final(battle).state == old(battle).state,
            final(battle).metrics == old(battle).metrics,
            final(battle).history == old(battle).history,
            final(battle).version == old(battle).version,
            final(battle).entropy == old(battle).entropy,
    {
        battle.conclusions.push((self.team_id, self.conclusion));
        proof {
            assert(battle.conclusions@.drop_last() == old(battle).conclusions@);
        }
    }
}

/// Trigger to build and fire a `ConcludeObjectives` event.
#[derive(Clone, Copy, Debug, PartialEq, Eq, Structural)]
pub struct ConcludeObjectivesTrigger {
    pub team_id: TeamId,
    pub conclusion: Conclusion,
}

impl EventTrigger for ConcludeObjectivesTrigger {
    open spec fn spec_prototype(self) -> EventPrototype {
        EventPrototype::spec_new(
            Event::ConcludeObjectives(ConcludeObjectives { team_id: self.team_id, conclusion: self.conclusion }),
        )
    }

    fn prototype(self) -> (r: EventPrototype) {
        EventPrototype::new(
            Event::ConcludeObjectives(ConcludeObjectives { team_id: self.team_id, conclusion: self.conclusion }),
        )
    }
}

} // verus!
