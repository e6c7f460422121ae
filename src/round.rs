//! Rounds: which actors may act, and when the world may change.
use crate::battle::{
    conclusion_key, increment, incremented, lemma_queued_below_refl, lemma_queued_below_trans,
    queued_below, Battle, BattleRules, Metrics,
};
use crate::creature::{Conclusion, ConcludeObjectives};
use crate::entity::{
    find_by_key, is_ticked, object_key, Creature, CreatureId, Entities, EntityId, Team, TeamId,
};
use crate::entropy::Entropy;
use crate::error::{WeaselError, WeaselResult};
use crate::event::{Event, EventId, EventPrototype, EventQueue, EventRights, EventTrigger};
use crate::object::Object;
use crate::status::{round_clears, update_all_statuses};
use indexmap::IndexSet;
use vstd::prelude::*;

verus! {

#[verifier::external_type_specification]
#[verifier::external_body]
#[verifier::reject_recursive_types(T)]
#[verifier::reject_recursive_types(S)]
pub struct ExIndexSet<T, S>(IndexSet<T, S>);

/// The ids in an actor set, in order of insertion.
pub uninterp spec fn actor_seq(s: &IndexSet<CreatureId>) -> Seq<CreatureId>;

/// Relies on `IndexSet::new`: a new set is empty.
#[verifier::external_body]
fn actor_set_new() -> (r: IndexSet<CreatureId>)
    ensures
        actor_seq(&r) == Seq::<CreatureId>::empty(),
{
    IndexSet::new()
}

/// Relies on `IndexSet::insert`: a value not yet in the set goes to its end and `true`
/// comes back; otherwise the set stays as it was and `false` comes back.
#[verifier::external_body]
fn actor_set_insert(s: &mut IndexSet<CreatureId>, id: CreatureId) -> (r: bool)
    ensures
        r == !actor_seq(old(s)).contains(id),
        r ==> actor_seq(final(s)) == actor_seq(old(s)).push(id),
        !r ==> actor_seq(final(s)) == actor_seq(old(s)),
{
    s.insert(id)
}

/// Relies on `IndexSet::contains`: whether the value is in the set.
#[verifier::external_body]
fn actor_set_contains(s: &IndexSet<CreatureId>, id: CreatureId) -> (r: bool)
    ensures
        r == actor_seq(s).contains(id),
{
    s.contains(&id)
}

/// Relies on `IndexSet::iter`: the values in order of insertion.
#[verifier::external_body]
fn actor_set_list(s: &IndexSet<CreatureId>) -> (r: Vec<CreatureId>)
    ensures
        r@ == actor_seq(s),
{
    s.iter().copied().collect()
}

/// The sequence without repetitions: each value stays where it first occurs.
pub open spec fn dedup(s: Seq<CreatureId>) -> Seq<CreatureId>
    decreases s.len(),
{
    if s.len() == 0 {
        Seq::empty()
    } else {
        let d = dedup(s.drop_last());
        if d.contains(s.last()) {
            d
        } else {
            d.push(s.last())
        }
    }
}

/// Removing repetitions keeps every value, once: as many values remain as there are
/// distinct values.
pub proof fn lemma_dedup(s: Seq<CreatureId>)
    ensures
        dedup(s).no_duplicates(),
        dedup(s).to_set() == s.to_set(),
        dedup(s).len() == s.to_set().len(),
    decreases s.len(),
{
    if s.len() > 0 {
        lemma_dedup(s.drop_last());
        let d = dedup(s.drop_last());
        assert(s =~= s.drop_last().push(s.last()));
        s.drop_last().lemma_push_to_set_commute(s.last());
        if !d.contains(s.last()) {
            d.lemma_push_to_set_commute(s.last());
        } else {
            assert(d.to_set().contains(s.last()));
            assert(d.to_set().insert(s.last()) =~= d.to_set());
        }
    } else {
        assert(s.to_set() =~= Set::<CreatureId>::empty());
        assert(dedup(s).to_set() =~= Set::<CreatureId>::empty());
    }
    dedup(s).unique_seq_to_set();
}

/// Starting a round lists each creature once: the actor set has as many members as there
/// are distinct creatures among the ids, none of them twice.
pub proof fn lemma_round_start_dedup(ids: Seq<EntityId>)
    ensures
        dedup(creature_ids(ids)).no_duplicates(),
        dedup(creature_ids(ids)).len() == creature_ids(ids).to_set().len(),
        dedup(creature_ids(ids)).to_set() == creature_ids(ids).to_set(),
{
    lemma_dedup(creature_ids(ids));
}

/// The round gate: a round can't start while one is in progress, and can't end while
/// none is.
pub proof fn lemma_round_gate<R: BattleRules>(battle: Battle, rules: R, ids: Vec<EntityId>)
    ensures
        battle.spec_state().spec_rounds().spec_state() is Started ==> battle.spec_verify(
            rules,
            Event::StartRound(StartRound { ids }),
        ) == Err::<(), WeaselError>(WeaselError::RoundInProgress),
        battle.spec_state().spec_rounds().spec_state() is Ready ==> battle.spec_verify(
            rules,
            Event::EndRound(EndRound {}),
        ) == Err::<(), WeaselError>(WeaselError::NoRoundInProgress),
{
}

/// The entity ids of creatures.
pub open spec fn actor_entities(ids: Seq<CreatureId>) -> Seq<EntityId> {
    ids.map_values(|c: CreatureId| EntityId::Creature(c))
}

/// The entity ids of objects, in order.
pub open spec fn object_entities(objects: Seq<Object>) -> Seq<EntityId> {
    objects.map_values(|o: Object| EntityId::Object(o.spec_id()))
}

proof fn lemma_actor_entities_unique(ids: Seq<CreatureId>)
    requires
        ids.no_duplicates(),
    ensures
        actor_entities(ids).no_duplicates(),
{
    assert forall|i: int, j: int| 0 <= i < ids.len() && 0 <= j < ids.len() && i != j implies
        actor_entities(ids)[i] != actor_entities(ids)[j] by {
        assert(ids[i] != ids[j]);
    }
}

proof fn lemma_object_entities_unique(objects: Seq<Object>)
    requires
        objects.map_values(object_key()).no_duplicates(),
    ensures
        object_entities(objects).no_duplicates(),
        forall|e: EntityId| #[trigger] object_entities(objects).contains(e) ==> e is Object,
{
    assert forall|i: int, j: int| 0 <= i < objects.len() && 0 <= j < objects.len() && i != j implies
        object_entities(objects)[i] != object_entities(objects)[j] by {
        assert(objects.map_values(object_key())[i] != objects.map_values(object_key())[j]);
    }
}

/// The creature ids among the entity ids, in order.
pub open spec fn creature_ids(ids: Seq<EntityId>) -> Seq<CreatureId>
    decreases ids.len(),
{
    if ids.len() == 0 {
        Seq::empty()
    } else {
        let r = creature_ids(ids.drop_last());
        match ids.last() {
            EntityId::Creature(c) => r.push(c),
            EntityId::Object(_) => r,
        }
    }
}

/// The teams of the creatures among `ids` that exist, in order.
pub open spec fn teams_of(ids: Seq<CreatureId>, entities: Entities) -> Seq<TeamId>
    decreases ids.len(),
{
    if ids.len() == 0 {
        Seq::empty()
    } else {
        let r = teams_of(ids.drop_last(), entities);
        match entities.spec_creature(ids.last()) {
            Some(c) => r.push(c.spec_team_id()),
            None => r,
        }
    }
}

/// Returns the teams of the creatures among `ids` that exist, in order.
fn collect_teams(ids: &Vec<CreatureId>, entities: &Entities) -> (r: Vec<TeamId>)
    requires
        entities.wf(),
    ensures
        r@ == teams_of(ids@, *entities),
{
    let mut teams: Vec<TeamId> = Vec::new();
    let mut i: usize = 0;
    while i < ids.len()
        invariant
            i <= ids@.len(),
            entities.wf(),
            teams@ == teams_of(ids@.take(i as int), *entities),
        decreases ids.len() - i,
    {
        if let Some(c) = entities.creature(&ids[i]) {
            teams.push(c.team_id);
        }
        proof {
            assert(ids@.take(i + 1).drop_last() == ids@.take(i as int));
        }
        i += 1;
    }
    proof {
        assert(ids@.take(ids@.len() as int) == ids@);
    }
    teams
}

/// The state of the rounds.
#[derive(Debug)]
pub enum RoundState {
    /// No round is in progress: a new one may start.
    Ready,
    /// A round is in progress, for these actors.
    Started(IndexSet<CreatureId>),
}

impl RoundState {
    /// The actors of the round in progress, in order; none when ready.
    pub open spec fn spec_actors(&self) -> Seq<CreatureId> {
        match self {
            RoundState::Ready => Seq::empty(),
            RoundState::Started(s) => actor_seq(s),
        }
    }

    /// Returns true if a round is in progress and the entity is one of its actors.
    pub fn has_actor(&self, entity_id: &EntityId) -> (r: bool)
        ensures
            r == (self is Started && entity_id is Creature && self.spec_actors().contains(
                entity_id->Creature_0,
            )),
    {
        match (self, entity_id) {
            (RoundState::Started(actors), EntityId::Creature(c)) => actor_set_contains(actors, *c),
            _ => false,
        }
    }

    /// Returns the actors of the round in progress, in order; none when ready.
    pub fn actors(&self) -> (r: Vec<EntityId>)
        ensures
            r@ == self.spec_actors().map_values(|c: CreatureId| EntityId::Creature(c)),
    {
        match self {
            RoundState::Ready => {
                let r: Vec<EntityId> = Vec::new();
                proof {
                    assert(r@ =~= self.spec_actors().map_values(|c: CreatureId| EntityId::Creature(c)));
                }
                r
            },
            RoundState::Started(s) => {
                let ids = actor_set_list(s);
                let mut r: Vec<EntityId> = Vec::new();
                let mut i: usize = 0;
                while i < ids.len()
                    invariant
                        i <= ids@.len(),
                        r@ == ids@.take(i as int).map_values(|c: CreatureId| EntityId::Creature(c)),
                    decreases ids.len() - i,
                {
                    r.push(EntityId::Creature(ids[i]));
                    proof {
                        assert(ids@.take(i + 1).map_values(|c: CreatureId| EntityId::Creature(c))
                            =~= ids@.take(i as int).map_values(|c: CreatureId| EntityId::Creature(c)).push(
                            EntityId::Creature(ids@[i as int])));
                    }
                    i += 1;
                }
                proof {
                    assert(ids@.take(ids@.len() as int) == ids@);
                }
                r
            },
        }
    }
}

/// Manages the rounds: their state and the model that tells who acts next.
pub struct Rounds {
    pub(crate) state: RoundState,
    pub(crate) model: u64,
}

impl Rounds {
    /// The state.
    pub open(crate) spec fn spec_state(&self) -> RoundState {
        self.state
    }

    /// The model.
    pub open(crate) spec fn spec_model(&self) -> u64 {
        self.model
    }

    /// Creates the rounds, ready, with a model that the rules build from the seed.
    pub fn new<R: RoundsRules>(rules: &R, seed: Option<u64>) -> (r: Rounds)
        ensures
            r.spec_state() is Ready,
            r.spec_model() == rules.rounds_model_of(seed),
    {
        Rounds { state: RoundState::Ready, model: rules.generate_model(&seed) }
    }

    /// Returns a mutable reference to the model.
    pub fn model_mut(&mut self) -> (r: &mut u64)
        ensures
            *r == old(self).spec_model(),
            final(self).spec_model() == *final(r),
            final(self).spec_state() == old(self).spec_state(),
    {
        &mut self.model
    }

    /// Returns whether the rules let the actor start a round.
    pub fn eligible<R: RoundsRules>(&self, rules: &R, actor: &Creature) -> (r: bool)
        ensures
            r == rules.spec_eligible(self.spec_model(), *actor),
    {
        rules.eligible(&self.model, actor)
    }

    /// Returns the model.
    pub fn model(&self) -> (r: u64)
        ensures
            r == self.spec_model(),
    {
        self.model
    }

    /// Returns the state.
    pub fn state(&self) -> (r: &RoundState)
        ensures
            *r == self.spec_state(),
    {
        &self.state
    }

    /// Returns true if a round is in progress.
    pub fn is_started(&self) -> (r: bool)
        ensures
            r == self.spec_state() is Started,
    {
        match self.state {
            RoundState::Started(_) => true,
            RoundState::Ready => false,
        }
    }

    /// Returns true if the entity is one of the actors of the round in progress.
    /// Whether it exists is not checked.
    pub fn is_acting(&self, entity_id: &EntityId) -> (r: bool)
        ensures
            r == (self.spec_state() is Started && entity_id is Creature
                && self.spec_state().spec_actors().contains(entity_id->Creature_0)),
    {
        self.state.has_actor(entity_id)
    }
}

/// How turns work: a model built from a seed, which actors may start a round, and what
/// happens to the model when an actor's round starts and ends.
pub trait RoundsRules {
    /// The model built from an optional seed.
    spec fn rounds_model_of(&self, seed: Option<u64>) -> u64;

    /// Whether the actor may start a round, by the model.
    spec fn spec_eligible(&self, model: u64, actor: Creature) -> bool;

    /// Builds the model from an optional seed.
    fn generate_model(&self, seed: &Option<u64>) -> (r: u64)
        ensures
            r == self.rounds_model_of(*seed),
    ;

    /// Returns whether the actor may start a round, by the model.
    fn eligible(&self, model: &u64, actor: &Creature) -> (r: bool)
        ensures
            r == self.spec_eligible(*model, *actor),
    ;

    /// The rounds model and entropy model after a round starts for the actor.
    spec fn started(&self, model: u64, entropy: u64, actor: Creature) -> (u64, u64);

    /// The rounds model and entropy model after the round ends for the actor.
    spec fn ended(&self, model: u64, entropy: u64, actor: Creature) -> (u64, u64);

    /// Invoked for each actor when a round starts, before its statuses are updated.
    fn on_start(&self, model: &mut u64, actor: &Creature, entropy: &mut Entropy)
        ensures
            (*final(model), final(entropy).spec_model()) == self.started(
                *old(model),
                old(entropy).spec_model(),
                *actor,
            ),
    ;

    /// Invoked for each actor when the round ends.
    fn on_end(&self, model: &mut u64, actor: &Creature, entropy: &mut Entropy)
        ensures
            (*final(model), final(entropy).spec_model()) == self.ended(
                *old(model),
                old(entropy).spec_model(),
                *actor,
            ),
    ;
}

/// What actors do when their rounds start and end.
pub trait ActorRules {
    /// The entropy model after the actor's round starts.
    spec fn round_started(&self, entropy: u64, actor: Creature) -> u64;

    /// The entropy model after the actor's round ends.
    spec fn round_ended(&self, entropy: u64, actor: Creature) -> u64;

    /// Invoked for each actor when a round starts, after the rounds rules.
    fn on_round_start(&self, actor: &Creature, entropy: &mut Entropy)
        ensures
            final(entropy).spec_model() == self.round_started(old(entropy).spec_model(), *actor),
    ;

    /// Invoked for each actor when the round ends, before the rounds rules.
    fn on_round_end(&self, actor: &Creature, entropy: &mut Entropy)
        ensures
            final(entropy).spec_model() == self.round_ended(old(entropy).spec_model(), *actor),
    ;
}

/// The rounds model and entropy model after the rules are told, for each of `actors` that
/// exists, in order, that its round starts: first the rounds rules, then the actor rules.
pub open spec fn round_start_models<R: BattleRules>(
    rules: R,
    entities: Entities,
    actors: Seq<CreatureId>,
    model: u64,
    entropy: u64,
) -> (u64, u64)
    decreases actors.len(),
{
    if actors.len() == 0 {
        (model, entropy)
    } else {
        let (m, e) = round_start_models(rules, entities, actors.drop_last(), model, entropy);
        match entities.spec_creature(actors.last()) {
            Some(a) => {
                let (m2, e2) = rules.started(m, e, a);
                (m2, rules.round_started(e2, a))
            },
            None => (m, e),
        }
    }
}

/// The prototypes, linked to `origin`, that record the outcomes the team rules find for
/// the teams whose outcome is not recorded yet, in order.
pub open(crate) spec fn objective_events<R: BattleRules>(
    rules: R,
    entities: Entities,
    metrics: Metrics,
    conclusions: Seq<(TeamId, Conclusion)>,
    teams: Seq<Team>,
    origin: EventId,
) -> Seq<EventPrototype>
    decreases teams.len(),
{
    if teams.len() == 0 {
        Seq::empty()
    } else {
        let r = objective_events(rules, entities, metrics, conclusions, teams.drop_last(), origin);
        let t = teams.last();
        if find_by_key(conclusions, conclusion_key(), t.spec_id()) is None && rules.objectives(
            t,
            entities,
            metrics,
        ) is Some {
            r.push(
                EventPrototype {
                    origin: Some(origin),
                    event: Event::ConcludeObjectives(
                        ConcludeObjectives {
                            team_id: t.spec_id(),
                            conclusion: rules.objectives(t, entities, metrics)->0,
                        },
                    ),
                    condition: None,
                },
            )
        } else {
            r
        }
    }
}

/// The prototypes that ending a round queues: the objectives are checked once for each of
/// `actors` that exists, in order.
pub open(crate) spec fn round_end_events<R: BattleRules>(rules: R, battle: Battle, actors: Seq<CreatureId>, origin: EventId) -> Seq<EventPrototype>
    decreases actors.len(),
{
    if actors.len() == 0 {
        Seq::empty()
    } else {
        let r = round_end_events(rules, battle, actors.drop_last(), origin);
        if battle.state.entities.spec_creature(actors.last()) is Some {
            r + objective_events(
                rules,
                battle.state.entities,
                battle.metrics,
                battle.conclusions@,
                battle.state.entities.teams@,
                origin,
            )
        } else {
            r
        }
    }
}

/// Puts in the queue the prototypes that record the outcomes the team rules find, at the
/// end of a round, for the teams whose outcome is not recorded yet.
fn queue_objectives<R: BattleRules>(rules: &R, battle: &Battle, origin: EventId, queue: &mut EventQueue)
    requires
        battle.wf(),
    ensures
        final(queue)@ == old(queue)@ + objective_events(
            *rules,
            battle.state.entities,
            battle.metrics,
            battle.conclusions@,
            battle.state.entities.teams@,
            origin,
        ),
        queued_below(old(queue)@, final(queue)@, 1, origin),
{
    let teams = &battle.state.entities.teams;
    let mut i: usize = 0;
    proof {
        assert(queue@ =~= old(queue)@ + objective_events(*rules, battle.state.entities, battle.metrics,
            battle.conclusions@, teams@.take(0), origin));
        lemma_queued_below_refl(old(queue)@, 1, origin);
    }
    while i < teams.len()
        invariant
            i <= teams@.len(),
            *teams == battle.state.entities.teams,
            queue@ == old(queue)@ + objective_events(*rules, battle.state.entities, battle.metrics,
                battle.conclusions@, teams@.take(i as int), origin),
            queued_below(old(queue)@, queue@, 1, origin),
        decreases teams.len() - i,
    {
        let team = teams[i];
        proof {
            assert(teams@.take(i + 1).drop_last() =~= teams@.take(i as int));
            assert(teams@.take(i + 1).last() == team);
        }
        let ghost q0 = queue@;
        if battle.conclusion(&team.id).is_none() {
            if let Some(c) = rules.check_objectives_on_round(&team, &battle.state.entities, &battle.metrics) {
                queue.push(
                    EventPrototype {
                        origin: Some(origin),
                        event: Event::ConcludeObjectives(ConcludeObjectives { team_id: team.id, conclusion: c }),
                        condition: None,
                    },
                );
                proof {
                    assert(queue@.take(old(queue)@.len() as int) =~= q0.take(old(queue)@.len() as int));
                }
            }
        }
        proof {
            assert(queue@ =~= old(queue)@ + objective_events(*rules, battle.state.entities, battle.metrics,
                battle.conclusions@, teams@.take(i + 1), origin));
        }
        i += 1;
    }
    proof {
        assert(teams@.take(teams@.len() as int) =~= teams@);
    }
}

/// The rounds model and entropy model after the rules are told, for each of `actors` that
/// exists, in order, that its round ends: first the actor rules, then the rounds rules.
pub open spec fn round_end_models<R: BattleRules>(
    rules: R,
    entities: Entities,
    actors: Seq<CreatureId>,
    model: u64,
    entropy: u64,
) -> (u64, u64)
    decreases actors.len(),
{
    if actors.len() == 0 {
        (model, entropy)
    } else {
        let (m, e) = round_end_models(rules, entities, actors.drop_last(), model, entropy);
        match entities.spec_creature(actors.last()) {
            Some(a) => rules.ended(m, rules.round_ended(e, a), a),
            None => (m, e),
        }
    }
}

/// The first reason why `ids` can't start a round, if any: an id that is not an actor's,
/// one of no existing creature, or one of a creature the rules don't let act.
pub open spec fn actors_error<R: RoundsRules>(ids: Seq<EntityId>, entities: Entities, rules: R, model: u64) -> Option<WeaselError>
    decreases ids.len(),
{
    if ids.len() == 0 {
        None
    } else {
        match ids[0] {
            EntityId::Object(_) => Some(WeaselError::NotAnActor(ids[0])),
            EntityId::Creature(c) => match entities.spec_creature(c) {
                None => Some(WeaselError::EntityNotFound(ids[0])),
                Some(actor) => if !rules.spec_eligible(model, actor) {
                    Some(WeaselError::ActorNotEligible(ids[0]))
                } else {
                    actors_error(ids.drop_first(), entities, rules, model)
                },
            },
        }
    }
}

/// Event to make actors start a new round.
///
/// Repeated ids count once. Every actor's statuses are updated.
#[derive(Clone, Debug)]
pub struct StartRound {
    pub ids: Vec<EntityId>,
}

impl StartRound {
    /// Returns a trigger for a round with a single actor.
    pub fn trigger(id: EntityId) -> (r: StartRoundTrigger)
        ensures
            r.ids@ == seq![id],
    {
        StartRoundTrigger { ids: vec![id] }
    }

    /// Returns a trigger for a round with a list of actors.
    pub fn trigger_with_actors(ids: Vec<EntityId>) -> (r: StartRoundTrigger)
        ensures
            r.ids == ids,
    {
        StartRoundTrigger { ids }
    }

    /// Returns the ids of the entities that will start the round.
    pub fn ids(&self) -> (r: &Vec<EntityId>)
        ensures
            r@ == self.ids@,
    {
        &self.ids
    }

    /// What verifying gives: a round may start only when none is in progress, and only
    /// for existing creatures.
    pub open(crate) spec fn spec_verify<R: RoundsRules>(&self, rules: R, battle: &Battle) -> WeaselResult<()> {
        if battle.state.rounds.state is Started {
            Err(WeaselError::RoundInProgress)
        } else {
            match actors_error(self.ids@, battle.state.entities, rules, battle.state.rounds.model) {
                Some(e) => Err(e),
                None => Ok(()),
            }
        }
    }

    /// Verifies whether the round can start.
    pub(crate) fn verify<R: RoundsRules>(&self, rules: &R, battle: &Battle) -> (r: WeaselResult<()>)
        requires
            battle.wf(),
        ensures
            r == self.spec_verify(*rules, battle),
    {
        if battle.state.rounds.is_started() {
            return Err(WeaselError::RoundInProgress);
        }
        let mut i: usize = 0;
        proof {
            assert(self.ids@.skip(0) =~= self.ids@);
        }
        while i < self.ids.len()
            invariant
                i <= self.ids@.len(),
                battle.wf(),
                battle.state.rounds.state is Ready,
                actors_error(self.ids@, battle.state.entities, *rules, battle.state.rounds.model)
                    == actors_error(
                    self.ids@.skip(i as int),
                    battle.state.entities,
                    *rules,
                    battle.state.rounds.model,
                ),
            decreases self.ids.len() - i,
        {
            let id = self.ids[i];
            proof {
                assert(self.ids@.skip(i as int)[0] == id);
                assert(self.ids@.skip(i as int).drop_first() == self.ids@.skip(i + 1));
            }
            match id {
                EntityId::Object(_) => {
                    return Err(WeaselError::NotAnActor(id));
                },
                EntityId::Creature(c) => {
                    match battle.state.entities.creature(&c) {
                        None => {
                            return Err(WeaselError::EntityNotFound(id));
                        },
                        Some(actor) => {
                            if !battle.state.rounds.eligible(rules, actor) {
                                return Err(WeaselError::ActorNotEligible(id));
                            }
                        },
                    }
                },
            }
            i += 1;
        }
        proof {
            assert(self.ids@.skip(i as int).len() == 0);
        }
        Ok(())
    }

    /// Starts the round: the actors, without repetitions, in order; one more round
    /// started; then the statuses of each actor are updated.
    pub(crate) fn apply<R: BattleRules>(&self, rules: &R, battle: &mut Battle, id: EventId, queue: &mut EventQueue)
        requires
            old(battle).wf(),
        ensures
            final(battle).wf(),
            (final(battle).state.rounds.model, final(battle).entropy.model) == round_start_models(
                *rules,
                old(battle).state.entities,
                dedup(creature_ids(self.ids@)),
                old(battle).state.rounds.model,
                old(battle).entropy.model,
            ),
            final(battle).state.rounds.state.spec_actors() == dedup(creature_ids(self.ids@)),
            final(battle).state.rounds.state is Started,
            final(battle).metrics.rounds_started == incremented(old(battle).metrics.rounds_started),
            final(battle).metrics.objects_created == old(battle).metrics.objects_created,
            final(battle).state.entities.same_entities(&old(battle).state.entities),
            final(battle).history == old(battle).history,
            final(battle).version == old(battle).version,
            queued_below(old(queue)@, final(queue)@, 2, id),
            final(queue)@ == old(queue)@ + round_clears(
                old(battle).state.entities,
                actor_entities(dedup(creature_ids(self.ids@))),
                id,
            ),
            forall|e: EntityId| #[trigger] actor_entities(dedup(creature_ids(self.ids@))).contains(e)
                && old(battle).state.entities.spec_has(e) ==> is_ticked(
                old(battle).state.entities.spec_character(e)->0,
                final(battle).state.entities.spec_character(e)->0,
            ),
            forall|e: EntityId| !(#[trigger] actor_entities(dedup(creature_ids(self.ids@))).contains(e))
                ==> final(battle).state.entities.spec_character(e) == old(battle).state.entities.spec_character(e),
    {
        let mut set = actor_set_new();
        let mut i: usize = 0;
        while i < self.ids.len()
            invariant
                i <= self.ids@.len(),
                actor_seq(&set) == dedup(creature_ids(self.ids@.take(i as int))),
            decreases self.ids.len() - i,
        {
            proof {
                assert(self.ids@.take(i + 1).drop_last() == self.ids@.take(i as int));
                assert(self.ids@.take(i + 1).last() == self.ids@[i as int]);
            }
            match self.ids[i] {
                EntityId::Creature(c) => {
                    proof {
                        let before = creature_ids(self.ids@.take(i as int));
                        assert(creature_ids(self.ids@.take(i + 1)) == before.push(c));
                        assert(before.push(c).drop_last() == before);
                    }
                    let _ = actor_set_insert(&mut set, c);
                },
                EntityId::Object(_) => {},
            }
            i += 1;
        }
        proof {
            assert(self.ids@.take(self.ids@.len() as int) == self.ids@);
        }
        let actors = actor_set_list(&set);
        battle.state.rounds.state = RoundState::Started(set);
        battle.metrics.rounds_started = increment(battle.metrics.rounds_started);
        let mut entities: Vec<EntityId> = Vec::new();
        let mut k: usize = 0;
        while k < actors.len()
            invariant
                k <= actors@.len(),
                entities@ == actor_entities(actors@.take(k as int)),
            decreases actors.len() - k,
        {
            entities.push(EntityId::Creature(actors[k]));
            proof {
                assert(actor_entities(actors@.take(k + 1)) =~= actor_entities(actors@.take(k as int)).push(
                    EntityId::Creature(actors@[k as int]),
                ));
            }
            k += 1;
        }
        proof {
            assert(actors@.take(actors@.len() as int) =~= actors@);
            lemma_dedup(creature_ids(self.ids@));
            lemma_actor_entities_unique(actors@);
        }
        let mut k: usize = 0;
        while k < actors.len()
            invariant
                k <= actors@.len(),
                battle.wf(),
                battle.state.entities == old(battle).state.entities,
                battle.state.rounds.state.spec_actors() == dedup(creature_ids(self.ids@)),
                battle.state.rounds.state is Started,
                battle.metrics.rounds_started == incremented(old(battle).metrics.rounds_started),
                battle.metrics.objects_created == old(battle).metrics.objects_created,
                battle.history == old(battle).history,
                battle.version == old(battle).version,
                (battle.state.rounds.model, battle.entropy.model) == round_start_models(
                    *rules,
                    old(battle).state.entities,
                    actors@.take(k as int),
                    old(battle).state.rounds.model,
                    old(battle).entropy.model,
                ),
            decreases actors.len() - k,
        {
            proof {
                assert(actors@.take(k + 1).drop_last() =~= actors@.take(k as int));
                assert(actors@.take(k + 1).last() == actors@[k as int]);
            }
            if let Some(i) = battle.state.entities.creature_index(actors[k]) {
                rules.on_start(&mut battle.state.rounds.model, &battle.state.entities.creatures[i], &mut battle.entropy);
                rules.on_round_start(&battle.state.entities.creatures[i], &mut battle.entropy);
            }
            k += 1;
        }
        update_all_statuses(battle, &entities, id, queue);
    }

    /// The teams of the actors: a player must have rights to all of them.
    pub(crate) fn rights(&self, battle: &Battle) -> (r: EventRights)
        requires
            battle.wf(),
        ensures
            r matches EventRights::Teams(t) && t@ == teams_of(
                creature_ids(self.ids@),
                battle.state.entities,
            ),
    {
        let mut ids: Vec<CreatureId> = Vec::new();
        let mut i: usize = 0;
        while i < self.ids.len()
            invariant
                i <= self.ids@.len(),
                ids@ == creature_ids(self.ids@.take(i as int)),
            decreases self.ids.len() - i,
        {
            proof {
                assert(self.ids@.take(i + 1).drop_last() == self.ids@.take(i as int));
                assert(self.ids@.take(i + 1).last() == self.ids@[i as int]);
            }
            if let EntityId::Creature(c) = self.ids[i] {
                ids.push(c);
            }
            i += 1;
        }
        proof {
            assert(self.ids@.take(self.ids@.len() as int) == self.ids@);
        }
        EventRights::Teams(collect_teams(&ids, &battle.state.entities))
    }
}

/// Trigger to build and fire a `StartRound` event.
#[derive(Clone, Debug)]
pub struct StartRoundTrigger {
    pub ids: Vec<EntityId>,
}

impl EventTrigger for StartRoundTrigger {
    open spec fn spec_prototype(self) -> EventPrototype {
        EventPrototype::spec_new(Event::StartRound(StartRound { ids: self.ids }))
    }

    fn prototype(self) -> (r: EventPrototype) {
        EventPrototype::new(Event::StartRound(StartRound { ids: self.ids }))
    }
}

/// Event to end the round in progress.
#[derive(Clone, Copy, Debug, PartialEq, Eq, Structural)]
pub struct EndRound {}

impl EndRound {
    /// Returns a trigger for this event.
    pub fn trigger() -> (r: EndRoundTrigger)
        ensures
            r == (EndRoundTrigger {}),
    {
        EndRoundTrigger {}
    }

    /// What verifying gives: a round can end only when one is in progress.
    pub open(crate) spec fn spec_verify(&self, battle: &Battle) -> WeaselResult<()> {
        if battle.state.rounds.state is Ready {
            Err(WeaselError::NoRoundInProgress)
        } else {
            Ok(())
        }
    }

    /// Verifies whether the round can end.
    pub(crate) fn verify(&self, battle: &Battle) -> (r: WeaselResult<()>)
        ensures
            r == self.spec_verify(battle),
    {
        if battle.state.rounds.is_started() {
            Ok(())
        } else {
            Err(WeaselError::NoRoundInProgress)
        }
    }

    /// Ends the round: the rules are told for each actor that still exists, in the order
    /// the round lists them; then the rounds are ready again.
    pub(crate) fn apply<R: BattleRules>(&self, rules: &R, battle: &mut Battle, id: EventId, queue: &mut EventQueue)
        requires
            old(battle).wf(),
        ensures
            final(battle).wf(),
            final(battle).state.rounds.state is Ready,
            final(battle).conclusions == old(battle).conclusions,
            final(queue)@ == old(queue)@ + round_end_events(
                *rules,
                *old(battle),
                old(battle).state.rounds.state.spec_actors(),
                id,
            ),
            queued_below(old(queue)@, final(queue)@, 1, id),
            (final(battle).state.rounds.model, final(battle).entropy.model) == round_end_models(
                *rules,
                old(battle).state.entities,
                old(battle).state.rounds.state.spec_actors(),
                old(battle).state.rounds.model,
                old(battle).entropy.model,
            ),
            final(battle).state.entities == old(battle).state.entities,
            final(battle).metrics == old(battle).metrics,
            final(battle).history == old(battle).history,
            final(battle).version == old(battle).version,
    {
        let actors: Vec<CreatureId> = match &battle.state.rounds.state {
            RoundState::Started(s) => actor_set_list(s),
            RoundState::Ready => Vec::new(),
        };
        proof {
            if battle.state.rounds.state is Ready {
                assert(actors@ =~= battle.state.rounds.state.spec_actors());
            }
            lemma_queued_below_refl(old(queue)@, 1, id);
            assert(queue@ =~= old(queue)@ + round_end_events(*rules, *old(battle), actors@.take(0), id));
        }
        let mut k: usize = 0;
        while k < actors.len()
            invariant
                k <= actors@.len(),
                actors@ == old(battle).state.rounds.state.spec_actors(),
                battle.wf(),
                battle.state.entities == old(battle).state.entities,
                battle.metrics == old(battle).metrics,
                battle.history == old(battle).history,
                battle.version == old(battle).version,
                battle.conclusions == old(battle).conclusions,
                queue@ == old(queue)@ + round_end_events(*rules, *old(battle), actors@.take(k as int), id),
                queued_below(old(queue)@, queue@, 1, id),
                (battle.state.rounds.model, battle.entropy.model) == round_end_models(
                    *rules,
                    old(battle).state.entities,
                    actors@.take(k as int),
                    old(battle).state.rounds.model,
                    old(battle).entropy.model,
                ),
            decreases actors.len() - k,
        {
            proof {
                assert(actors@.take(k + 1).drop_last() =~= actors@.take(k as int));
                assert(actors@.take(k + 1).last() == actors@[k as int]);
            }
            let ghost q0 = queue@;
            if let Some(i) = battle.state.entities.creature_index(actors[k]) {
                rules.on_round_end(&battle.state.entities.creatures[i], &mut battle.entropy);
                rules.on_end(&mut battle.state.rounds.model, &battle.state.entities.creatures[i], &mut battle.entropy);
                queue_objectives(rules, battle, id, queue);
                proof {
                    lemma_queued_below_trans(old(queue)@, q0, queue@, 1, 1, id);
                    assert(queue@ =~= old(queue)@ + round_end_events(*rules, *old(battle), actors@.take(k + 1), id));
                }
            }
            k += 1;
        }
        proof {
            assert(actors@.take(actors@.len() as int) =~= actors@);
        }
        battle.state.rounds.state = RoundState::Ready;
    }

    /// The teams of the actors of the round in progress.
    pub(crate) fn rights(&self, battle: &Battle) -> (r: EventRights)
        requires
            battle.wf(),
            battle.state.rounds.state is Started,
        ensures
            r matches EventRights::Teams(t) && t@ == teams_of(
                battle.state.rounds.state.spec_actors(),
                battle.state.entities,
            ),
    {
        let ids: Vec<CreatureId> = match &battle.state.rounds.state {
            RoundState::Started(s) => actor_set_list(s),
            RoundState::Ready => Vec::new(),
        };
        proof {
            if battle.state.rounds.state is Ready {
                assert(ids@ =~= battle.state.rounds.state.spec_actors());
            }
        }
        EventRights::Teams(collect_teams(&ids, &battle.state.entities))
    }
}

/// Trigger to build and fire an `EndRound` event.
#[derive(Clone, Copy, Debug, PartialEq, Eq, Structural)]
pub struct EndRoundTrigger {}

impl EventTrigger for EndRoundTrigger {
    open spec fn spec_prototype(self) -> EventPrototype {
        EventPrototype::spec_new(Event::EndRound(EndRound {}))
    }

    fn prototype(self) -> (r: EventPrototype) {
        EventPrototype::new(Event::EndRound(EndRound {}))
    }
}

/// Event to rebuild the rounds model from a seed, when no round is in progress.
#[derive(Clone, Copy, Debug, PartialEq, Eq, Structural)]
pub struct ResetRounds {
    pub seed: Option<u64>,
}

impl ResetRounds {
    /// Returns a trigger for this event, without a seed.
    pub fn trigger() -> (r: ResetRoundsTrigger)
        ensures
            r == (ResetRoundsTrigger { seed: None }),
    {
        ResetRoundsTrigger { seed: None }
    }

    /// Returns the new seed.
    pub fn seed(&self) -> (r: Option<u64>)
        ensures
            r == self.seed,
    {
        self.seed
    }

    /// What verifying gives: no round may be in progress.
    pub open(crate) spec fn spec_verify(&self, battle: &Battle) -> WeaselResult<()> {
        if battle.state.rounds.state is Started {
            Err(WeaselError::RoundInProgress)
        } else {
            Ok(())
        }
    }

    /// Verifies that no round is in progress.
    pub(crate) fn verify(&self, battle: &Battle) -> (r: WeaselResult<()>)
        ensures
            r == self.spec_verify(battle),
    {
        if battle.state.rounds.is_started() {
            Err(WeaselError::RoundInProgress)
        } else {
            Ok(())
        }
    }

    /// Replaces the model with one that the rules build from the seed.
    pub(crate) fn apply<R: RoundsRules>(&self, rules: &R, battle: &mut Battle)
        requires
            old(battle).wf(),
        ensures
            final(battle).wf(),
            final(battle).state.rounds.model == rules.rounds_model_of(self.seed),
            final(battle).state.rounds.state == old(battle).state.rounds.state,
            final(battle).state.entities == old(battle).state.entities,
            final(battle).metrics == old(battle).metrics,
            final(battle).history == old(battle).history,
            final(battle).version == old(battle).version,
            final(battle).entropy == old(battle).entropy,
    {
        battle.state.rounds.model = rules.generate_model(&self.seed);
    }
}

/// Trigger to build and fire a `ResetRounds` event.
#[derive(Clone, Copy, Debug, PartialEq, Eq, Structural)]
pub struct ResetRoundsTrigger {
    pub seed: Option<u64>,
}

impl ResetRoundsTrigger {
    /// Sets the seed of the new model.
    pub fn seed(self, seed: u64) -> (r: ResetRoundsTrigger)
        ensures
            r == (ResetRoundsTrigger { seed: Some(seed) }),
    {
        ResetRoundsTrigger { seed: Some(seed) }
    }
}

impl EventTrigger for ResetRoundsTrigger {
    open spec fn spec_prototype(self) -> EventPrototype {
        EventPrototype::spec_new(Event::ResetRounds(ResetRounds { seed: self.seed }))
    }

    fn prototype(self) -> (r: EventPrototype) {
        EventPrototype::new(Event::ResetRounds(ResetRounds { seed: self.seed }))
    }
}

/// Event to perform a round for the inanimate entities: the statuses of every object are
/// updated, in order of creation.
#[derive(Clone, Copy, Debug, PartialEq, Eq, Structural)]
pub struct EnvironmentRound {}

impl EnvironmentRound {
    /// Returns a trigger for this event.
    pub fn trigger() -> (r: EnvironmentRoundTrigger)
        ensures
            r == (EnvironmentRoundTrigger {}),
    {
        EnvironmentRoundTrigger {}
    }

    /// What verifying gives: no round may be in progress.
    pub open(crate) spec fn spec_verify(&self, battle: &Battle) -> WeaselResult<()> {
        if battle.state.rounds.state is Started {
            Err(WeaselError::RoundInProgress)
        } else {
            Ok(())
        }
    }

    /// Verifies that no round is in progress.
    pub(crate) fn verify(&self, battle: &Battle) -> (r: WeaselResult<()>)
        ensures
            r == self.spec_verify(battle),
    {
        if battle.state.rounds.is_started() {
            Err(WeaselError::RoundInProgress)
        } else {
            Ok(())
        }
    }

    /// One more round started; the statuses of every object are updated.
    pub(crate) fn apply<R: RoundsRules>(&self, rules: &R, battle: &mut Battle, id: EventId, queue: &mut EventQueue)
        requires
            old(battle).wf(),
        ensures
            final(battle).wf(),
            final(battle).state.rounds == old(battle).state.rounds,
            final(battle).metrics.rounds_started == incremented(old(battle).metrics.rounds_started),
            final(battle).metrics.objects_created == old(battle).metrics.objects_created,
            final(battle).state.entities.same_entities(&old(battle).state.entities),
            final(battle).history == old(battle).history,
            final(battle).version == old(battle).version,
            final(battle).entropy == old(battle).entropy,
            queued_below(old(queue)@, final(queue)@, 2, id),
            final(queue)@ == old(queue)@ + round_clears(
                old(battle).state.entities,
                object_entities(old(battle).state.entities.objects@),
                id,
            ),
            forall|e: EntityId| #[trigger] object_entities(old(battle).state.entities.objects@).contains(e)
                ==> is_ticked(
                old(battle).state.entities.spec_character(e)->0,
                final(battle).state.entities.spec_character(e)->0,
            ),
            forall|e: EntityId| !(#[trigger] object_entities(old(battle).state.entities.objects@).contains(e))
                ==> final(battle).state.entities.spec_character(e) == old(battle).state.entities.spec_character(e),
    {
        battle.metrics.rounds_started = increment(battle.metrics.rounds_started);
        let ghost objs = battle.state.entities.objects@;
        let mut ids: Vec<EntityId> = Vec::new();
        let mut i: usize = 0;
        while i < battle.state.entities.objects.len()
            invariant
                i <= objs.len(),
                objs == battle.state.entities.objects@,
                ids@ == object_entities(objs.take(i as int)),
            decreases battle.state.entities.objects.len() - i,
        {
            ids.push(EntityId::Object(battle.state.entities.objects[i].id));
            proof {
                assert(object_entities(objs.take(i + 1)) =~= object_entities(objs.take(i as int)).push(
                    EntityId::Object(objs[i as int].id),
                ));
            }
            i += 1;
        }
        proof {
            assert(objs.take(objs.len() as int) =~= objs);
            lemma_object_entities_unique(objs);
            assert forall|e: EntityId| #[trigger] object_entities(objs).contains(e) implies
                old(battle).state.entities.spec_has(e) by {
                let i = choose|i: int| 0 <= i < objs.len() && object_entities(objs)[i] == e;
                crate::entity::lemma_find_at(objs, object_key(), i);
            }
        }
        update_all_statuses(battle, &ids, id, queue);
    }
}

/// Trigger to build and fire an `EnvironmentRound` event.
#[derive(Clone, Copy, Debug, PartialEq, Eq, Structural)]
pub struct EnvironmentRoundTrigger {}

impl EventTrigger for EnvironmentRoundTrigger {
    open spec fn spec_prototype(self) -> EventPrototype {
        EventPrototype::spec_new(Event::EnvironmentRound(EnvironmentRound {}))
    }

    fn prototype(self) -> (r: EventPrototype) {
        EventPrototype::new(Event::EnvironmentRound(EnvironmentRound {}))
    }
}

} // verus!
