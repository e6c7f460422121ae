//! The battle: the world, its history, and the pipeline that changes it.
use crate::creature::{Conclusion, TeamRules};
use crate::entity::{creature_key, find_by_key, object_key, Creature, Entities, EntityId, Team, TeamId};
use crate::entropy::{model_of_seed, seed_model, Entropy, EntropyRules, EntropySeed, LinearEntropy};
use crate::error::{WeaselError, WeaselResult};
use crate::event::{
    allows_teams, spec_allows, Condition, Event, EventId, EventPrototype, EventQueue, EventRights,
    EventWrapper, PlayerId, Version, VersionedEventWrapper,
};
use crate::round::{
    creature_ids, dedup, round_end_models, round_start_models, teams_of, ActorRules, Rounds,
    RoundsRules,
};
use vstd::prelude::*;

verus! {

/// All the rules of a battle.
pub trait BattleRules: EntropyRules + RoundsRules + ActorRules + TeamRules {
}

/// Rules that draw values with a linear generator, use the seed as the rounds model, let
/// every actor act and do nothing when rounds start or end.
#[derive(Clone, Copy, Debug, Default, PartialEq, Eq, Structural)]
pub struct DefaultRules {}

impl EntropyRules for DefaultRules {
    open spec fn entropy_model_of(&self, seed: Option<EntropySeed>) -> u64 {
        LinearEntropy {}.entropy_model_of(seed)
    }

    open spec fn drawn(&self, model: u64, low: i64, high: i64) -> (u64, i64) {
        LinearEntropy {}.drawn(model, low, high)
    }

    fn generate_model(&self, seed: &Option<EntropySeed>) -> (r: u64) {
        LinearEntropy {}.generate_model(seed)
    }

    fn generate(&self, model: &mut u64, low: i64, high: i64) -> (r: i64) {
        LinearEntropy {}.generate(model, low, high)
    }
}

impl RoundsRules for DefaultRules {
    open spec fn rounds_model_of(&self, seed: Option<u64>) -> u64 {
        seed_model(seed)
    }

    open spec fn spec_eligible(&self, model: u64, actor: Creature) -> bool {
        true
    }

    fn generate_model(&self, seed: &Option<u64>) -> (r: u64) {
        model_of_seed(seed)
    }

    fn eligible(&self, model: &u64, actor: &Creature) -> (r: bool) {
        true
    }

    open spec fn started(&self, model: u64, entropy: u64, actor: Creature) -> (u64, u64) {
        (model, entropy)
    }

    open spec fn ended(&self, model: u64, entropy: u64, actor: Creature) -> (u64, u64) {
        (model, entropy)
    }

    fn on_start(&self, model: &mut u64, actor: &Creature, entropy: &mut Entropy) {
    }

    fn on_end(&self, model: &mut u64, actor: &Creature, entropy: &mut Entropy) {
    }
}

impl ActorRules for DefaultRules {
    open spec fn round_started(&self, entropy: u64, actor: Creature) -> u64 {
        entropy
    }

    open spec fn round_ended(&self, entropy: u64, actor: Creature) -> u64 {
        entropy
    }

    fn on_round_start(&self, actor: &Creature, entropy: &mut Entropy) {
    }

    fn on_round_end(&self, actor: &Creature, entropy: &mut Entropy) {
    }
}

impl TeamRules for DefaultRules {
    open spec fn objectives(&self, team: Team, entities: Entities, metrics: Metrics) -> Option<Conclusion> {
        None
    }

    fn check_objectives_on_round(&self, team: &Team, entities: &Entities, metrics: &Metrics) -> (r:
        Option<Conclusion>) {
        None
    }
}

impl BattleRules for DefaultRules {
}

/// The key of a team's conclusion: the team's id.
pub open(crate) spec fn conclusion_key() -> spec_fn((TeamId, Conclusion)) -> u32 {
    |x: (TeamId, Conclusion)| x.0
}

/// The entities and the round state: what conditions and rights are computed from.
pub struct BattleState {
    pub(crate) entities: Entities,
    pub(crate) rounds: Rounds,
}

impl BattleState {
    /// The entities.
    pub open(crate) spec fn spec_entities(&self) -> Entities {
        self.entities
    }

    /// The rounds.
    pub open(crate) spec fn spec_rounds(&self) -> Rounds {
        self.rounds
    }

    /// Returns the entities.
    pub fn entities(&self) -> (r: &Entities)
        ensures
            *r == self.spec_entities(),
    {
        &self.entities
    }

    /// Returns the rounds.
    pub fn rounds(&self) -> (r: &Rounds)
        ensures
            *r == self.spec_rounds(),
    {
        &self.rounds
    }

    /// Whether a condition holds in this state.
    pub open(crate) spec fn spec_holds(&self, c: Condition) -> bool {
        match c {
            Condition::Constant(b) => b,
            Condition::EntityExists(e) => self.entities.spec_has(e),
            Condition::TeamsCount(n) => self.entities.teams@.len() == n,
            Condition::RoundInProgress => self.rounds.state is Started,
            Condition::NoRoundInProgress => self.rounds.state is Ready,
            Condition::HasStatus(e, s) => match self.entities.spec_character(e) {
                Some(ch) => ch.spec_status(s) is Some,
                None => false,
            },
        }
    }

    /// Returns whether a condition holds in this state.
    pub fn holds(&self, c: &Condition) -> (r: bool)
        requires
            self.spec_entities().wf(),
        ensures
            r == self.spec_holds(*c),
    {
        match c {
            Condition::Constant(b) => *b,
            Condition::EntityExists(e) => self.entities.character(e).is_some(),
            Condition::TeamsCount(n) => self.entities.teams.len() == *n,
            Condition::RoundInProgress => self.rounds.is_started(),
            Condition::NoRoundInProgress => !self.rounds.is_started(),
            Condition::HasStatus(e, s) => match self.entities.character(e) {
                Some(ch) => ch.status(s).is_some(),
                None => false,
            },
        }
    }
}

/// Counters kept by the battle.
#[derive(Clone, Copy, Debug, PartialEq, Eq, Structural)]
pub struct Metrics {
    /// Rounds started, by actors or by the environment.
    pub rounds_started: u64,
    /// Objects created.
    pub objects_created: u64,
}

/// One more, unless at the largest value.
pub open spec fn incremented(x: u64) -> u64 {
    if x < u64::MAX {
        (x + 1) as u64
    } else {
        x
    }
}

/// Returns `x` plus one, unless at the largest value.
pub fn increment(x: u64) -> (r: u64)
    ensures
        r == incremented(x),
{
    if x < u64::MAX {
        x + 1
    } else {
        x
    }
}

/// The committed events, in order: the id of each is its position.
pub struct History {
    pub(crate) events: Vec<EventWrapper>,
}

impl History {
    /// The events.
    pub open(crate) spec fn spec_events(&self) -> Seq<EventWrapper> {
        self.events@
    }

    /// Ids are the positions, and every id fits in an `EventId`.
    pub open(crate) spec fn wf(&self) -> bool {
        &&& self.events@.len() <= u32::MAX
        &&& forall|i: int| 0 <= i < self.events@.len() ==> (#[trigger] self.events@[i]).id == i
    }

    /// Returns the events, in order.
    pub fn events(&self) -> (r: &Vec<EventWrapper>)
        ensures
            r@ == self.spec_events(),
    {
        &self.events
    }

    /// Returns the number of events, which is also the id of the next one.
    pub fn len(&self) -> (r: EventId)
        requires
            self.wf(),
        ensures
            r == self.spec_events().len(),
    {
        self.events.len() as EventId
    }
}

/// Ids in a history are contiguous and increasing from zero: the event at position `i`
/// has id `i`, so any two events are ordered by their ids as by their positions.
pub proof fn lemma_history_ids(h: History, i: int, j: int)
    requires
        h.wf(),
        0 <= i < j < h.spec_events().len(),
    ensures
        h.spec_events()[i].id == i,
        h.spec_events()[i].id < h.spec_events()[j].id,
{
    assert(h.events@[i].id == i);
    assert(h.events@[j].id == j);
}

/// All new entries of `after` beyond `before` have a rank below `rank` and `origin` as
/// their origin; the entries of `before` stay.
pub open spec fn queued_below(
    before: Seq<EventPrototype>,
    after: Seq<EventPrototype>,
    rank: nat,
    origin: EventId,
) -> bool {
    &&& before.len() <= after.len()
    &&& after.take(before.len() as int) == before
    &&& forall|i: int|
        before.len() <= i < after.len() ==> (#[trigger] after[i]).event.rank() < rank
            && after[i].origin == Some(origin) && after[i].condition is None
            && is_follow_up_event(after[i].event)
}

/// Events that change only statistics, statuses and the outcomes of teams' objectives:
/// those that events generate.
pub open spec fn is_follow_up_event(e: Event) -> bool {
    e is ClearStatus || e is AlterStatistics || e is ConcludeObjectives
}

/// Queueing below a rank, then below a lower rank, is queueing below the first.
pub proof fn lemma_queued_below_trans(
    a: Seq<EventPrototype>,
    b: Seq<EventPrototype>,
    c: Seq<EventPrototype>,
    r1: nat,
    r2: nat,
    origin: EventId,
)
    requires
        queued_below(a, b, r1, origin),
        queued_below(b, c, r2, origin),
        r2 <= r1,
    ensures
        queued_below(a, c, r1, origin),
{
    assert(c.take(a.len() as int) =~= c.take(b.len() as int).take(a.len() as int));
    assert forall|i: int| a.len() <= i < c.len() implies (#[trigger] c[i]).event.rank() < r1
        && c[i].origin == Some(origin) && c[i].condition is None && is_follow_up_event(c[i].event) by {
        if i < b.len() {
            assert(c.take(b.len() as int)[i] == c[i]);
            assert(b[i] == c[i]);
        }
    }
}

/// Nothing queued is queueing below any rank.
pub proof fn lemma_queued_below_refl(a: Seq<EventPrototype>, r: nat, origin: EventId)
    ensures
        queued_below(a, a, r, origin),
{
    assert(a.take(a.len() as int) =~= a);
}

/// How many prototypes in `q` hold an event of rank `k`.
pub open spec fn count_rank(q: Seq<EventPrototype>, k: nat) -> nat
    decreases q.len(),
{
    if q.len() == 0 {
        0
    } else {
        count_rank(q.drop_last(), k) + if q.last().event.rank() == k {
            1nat
        } else {
            0nat
        }
    }
}

/// Counting ranks adds up over concatenation.
pub proof fn lemma_count_rank_concat(a: Seq<EventPrototype>, b: Seq<EventPrototype>, k: nat)
    ensures
        count_rank(a + b, k) == count_rank(a, k) + count_rank(b, k),
    decreases b.len(),
{
    if b.len() == 0 {
        assert(a + b =~= a);
    } else {
        lemma_count_rank_concat(a, b.drop_last(), k);
        assert((a + b).drop_last() =~= a + b.drop_last());
        assert((a + b).last() == b.last());
    }
}

/// A queue of events all below a rank holds none of that rank or above.
pub proof fn lemma_count_rank_below(q: Seq<EventPrototype>, r: nat, k: nat)
    requires
        forall|i: int| 0 <= i < q.len() ==> (#[trigger] q[i]).event.rank() < r,
        r <= k,
    ensures
        count_rank(q, k) == 0,
    decreases q.len(),
{
    if q.len() > 0 {
        assert(q.last() == q[q.len() - 1]);
        lemma_count_rank_below(q.drop_last(), r, k);
    }
}

/// Counting ranks of a queue: its first prototype, then the rest.
pub proof fn lemma_count_rank_first(q: Seq<EventPrototype>, k: nat)
    requires
        q.len() > 0,
    ensures
        count_rank(q, k) == count_rank(q.drop_first(), k) + if q[0].event.rank() == k {
            1nat
        } else {
            0nat
        },
{
    let head = seq![q[0]];
    assert(q =~= head + q.drop_first());
    lemma_count_rank_concat(head, q.drop_first(), k);
    assert(head.drop_last() =~= Seq::<EventPrototype>::empty());
    assert(head.last() == q[0]);
    assert(count_rank(head.drop_last(), k) == 0);
    assert(count_rank(head, k) == (if q[0].event.rank() == k {
        1nat
    } else {
        0nat
    }));
}

/// `events` are those of the battle's history with ids in `[start, end)`, in order, each
/// with the battle's rules version.
pub open spec fn history_slice(battle: Battle, start: int, end: int, events: Seq<VersionedEventWrapper>) -> bool {
    &&& events.len() == end - start
    &&& forall|i: int| 0 <= i < events.len() ==> {
        &&& (#[trigger] events[i]).wrapper.id == start + i
        &&& events[i].version == battle.spec_version()
        &&& events[i].wrapper.origin == battle.spec_history()[start + i].origin
        &&& events[i].wrapper.event.spec_kind() == battle.spec_history()[start + i].event.spec_kind()
    }
}

/// Something that takes events committed elsewhere.
pub trait EventReceiver: Sized {
    /// Whether the receiver can take an event.
    spec fn ready(&self) -> bool;

    /// Takes a committed event, applying it by the given rules.
    fn receive<R: BattleRules>(&mut self, rules: &R, event: VersionedEventWrapper) -> WeaselResult<()>
        requires
            old(self).ready(),
    ;
}

/// A battle: its world, its models, its history.
pub struct Battle {
    pub(crate) state: BattleState,
    pub(crate) entropy: Entropy,
    pub(crate) history: History,
    pub(crate) metrics: Metrics,
    pub(crate) version: Version,
    pub(crate) conclusions: Vec<(TeamId, Conclusion)>,
}

impl Battle {
    /// The state.
    pub open(crate) spec fn spec_state(&self) -> BattleState {
        self.state
    }

    /// The history.
    pub open(crate) spec fn spec_history(&self) -> Seq<EventWrapper> {
        self.history.events@
    }

    /// The metrics.
    pub open(crate) spec fn spec_metrics(&self) -> Metrics {
        self.metrics
    }

    /// The entropy.
    pub open(crate) spec fn spec_entropy(&self) -> Entropy {
        self.entropy
    }

    /// The rules version.
    pub open(crate) spec fn spec_version(&self) -> Version {
        self.version
    }

    /// The outcome of the team's objectives, if it was recorded: the last one counts.
    pub open(crate) spec fn spec_conclusion(&self, team: TeamId) -> Option<Conclusion> {
        match find_by_key(self.conclusions@, conclusion_key(), team) {
            Some(c) => Some(c.1),
            None => None,
        }
    }

    /// Returns the outcome of the team's objectives, if it was recorded.
    pub fn conclusion(&self, team: &TeamId) -> (r: Option<Conclusion>)
        ensures
            r == self.spec_conclusion(*team),
    {
        let mut i = self.conclusions.len();
        proof {
            assert(self.conclusions@.take(i as int) =~= self.conclusions@);
        }
        while i > 0
            invariant
                i <= self.conclusions@.len(),
                find_by_key(self.conclusions@, conclusion_key(), *team) == find_by_key(
                    self.conclusions@.take(i as int),
                    conclusion_key(),
                    *team,
                ),
            decreases i,
        {
            proof {
                let t = self.conclusions@.take(i as int);
                assert(t.drop_last() =~= self.conclusions@.take(i - 1));
                assert(t.last() == self.conclusions@[i - 1]);
            }
            if self.conclusions[i - 1].0 == *team {
                return Some(self.conclusions[i - 1].1);
            }
            i -= 1;
        }
        None
    }

    /// The battle's invariant: entities well formed, history ids contiguous from zero.
    pub open(crate) spec fn wf(&self) -> bool {
        &&& self.state.entities.wf()
        &&& self.history.wf()
    }

    /// Creates a battle with no entity and an empty history.
    pub fn new<R: BattleRules>(rules: &R, version: Version, entropy_seed: Option<u64>, rounds_seed: Option<u64>) -> (r: Battle)
        ensures
            r.wf(),
            r.spec_history().len() == 0,
            r.spec_state().spec_rounds().spec_state() is Ready,
            r.spec_state().spec_entities().spec_teams().len() == 0,
            r.spec_state().spec_entities().spec_creatures().len() == 0,
            r.spec_state().spec_entities().spec_objects().len() == 0,
            r.spec_metrics() == (Metrics { rounds_started: 0, objects_created: 0 }),
            r.spec_version() == version,
            forall|t: TeamId| r.spec_conclusion(t) is None,
            r.spec_entropy().spec_model() == rules.entropy_model_of(entropy_seed),
            r.spec_state().spec_rounds().spec_model() == rules.rounds_model_of(rounds_seed),
    {
        Battle {
            state: BattleState { entities: Entities::new(), rounds: Rounds::new(rules, rounds_seed) },
            entropy: Entropy::new(rules, entropy_seed),
            history: History { events: Vec::new() },
            metrics: Metrics { rounds_started: 0, objects_created: 0 },
            version,
            conclusions: Vec::new(),
        }
    }

    /// Returns the state.
    pub fn state(&self) -> (r: &BattleState)
        ensures
            *r == self.spec_state(),
    {
        &self.state
    }

    /// Returns the entities.
    pub fn entities(&self) -> (r: &Entities)
        ensures
            *r == self.spec_state().spec_entities(),
    {
        &self.state.entities
    }

    /// Returns the rounds.
    pub fn rounds(&self) -> (r: &Rounds)
        ensures
            *r == self.spec_state().spec_rounds(),
    {
        &self.state.rounds
    }

    /// Returns the history.
    pub fn history(&self) -> (r: &History)
        ensures
            r.spec_events() == self.spec_history(),
    {
        &self.history
    }

    /// Returns the metrics.
    pub fn metrics(&self) -> (r: Metrics)
        ensures
            r == self.spec_metrics(),
    {
        self.metrics
    }

    /// Returns the entropy.
    pub fn entropy(&self) -> (r: &Entropy)
        ensures
            *r == self.spec_entropy(),
    {
        &self.entropy
    }

    /// Returns a mutable reference to the entropy.
    pub fn entropy_mut(&mut self) -> (r: &mut Entropy)
        ensures
            *r == old(self).spec_entropy(),
            final(self).spec_entropy() == *final(r),
            final(self).spec_state() == old(self).spec_state(),
            final(self).spec_history() == old(self).spec_history(),
            final(self).spec_metrics() == old(self).spec_metrics(),
            final(self).spec_version() == old(self).spec_version(),
            final(self).wf() == old(self).wf(),
    {
        &mut self.entropy
    }

    /// Returns the rules version.
    pub fn version(&self) -> (r: Version)
        ensures
            r == self.spec_version(),
    {
        self.version
    }

    /// Only statistics and statuses may differ between the two battles; the history is
    /// not compared.
    pub open(crate) spec fn same_but_characters(&self, other: &Battle) -> bool {
        &&& self.state.entities.same_entities(&other.state.entities)
        &&& self.state.rounds == other.state.rounds
        &&& self.metrics == other.metrics
        &&& self.entropy == other.entropy
        &&& self.version == other.version
    }

    /// What applying the event to this battle leaves in `after`, up to changes of
    /// statistics and statuses, which the events it generates may make.
    pub open(crate) spec fn spec_outcome<R: BattleRules>(&self, rules: R, e: Event, after: Battle) -> bool {
        let old_ents = self.state.entities;
        let ents = after.state.entities;
        &&& after.version == self.version
        &&& match e {
            Event::StartRound(x) => {
                &&& after.state.rounds.state is Started
                &&& after.state.rounds.state.spec_actors() == dedup(creature_ids(x.ids@))
                &&& (after.state.rounds.model, after.entropy.model) == round_start_models(
                    rules,
                    old_ents,
                    dedup(creature_ids(x.ids@)),
                    self.state.rounds.model,
                    self.entropy.model,
                )
                &&& after.metrics.rounds_started == incremented(self.metrics.rounds_started)
                &&& after.metrics.objects_created == self.metrics.objects_created
                &&& ents.same_entities(&old_ents)
            },
            Event::EndRound(_) => {
                &&& after.state.rounds.state is Ready
                &&& (after.state.rounds.model, after.entropy.model) == round_end_models(
                    rules,
                    old_ents,
                    self.state.rounds.state.spec_actors(),
                    self.state.rounds.model,
                    self.entropy.model,
                )
                &&& after.metrics == self.metrics
                &&& ents.same_entities(&old_ents)
            },
            Event::EnvironmentRound(_) => {
                &&& after.state.rounds == self.state.rounds
                &&& after.metrics.rounds_started == incremented(self.metrics.rounds_started)
                &&& after.metrics.objects_created == self.metrics.objects_created
                &&& ents.same_entities(&old_ents)
                &&& after.entropy == self.entropy
            },
            Event::ResetRounds(x) => {
                &&& after.state.rounds.model == rules.rounds_model_of(x.seed)
                &&& after.state.rounds.state == self.state.rounds.state
                &&& after.metrics == self.metrics
                &&& ents.same_entities(&old_ents)
                &&& after.entropy == self.entropy
            },
            Event::ResetEntropy(x) => {
                &&& after.entropy.spec_model() == rules.entropy_model_of(x.seed)
                &&& after.state.rounds == self.state.rounds
                &&& after.metrics == self.metrics
                &&& ents.same_entities(&old_ents)
            },
            Event::CreateTeam(x) => {
                &&& ents.teams@ == old_ents.teams@.push(Team { id: x.id })
                &&& ents.creatures@.map_values(creature_key()) == old_ents.creatures@.map_values(creature_key())
                &&& ents.objects@.map_values(object_key()) == old_ents.objects@.map_values(object_key())
                &&& after.state.rounds == self.state.rounds
                &&& after.metrics == self.metrics
                &&& after.entropy == self.entropy
            },
            Event::CreateCreature(x) => {
                &&& ents.teams@ == old_ents.teams@
                &&& ents.creatures@.map_values(creature_key()) == old_ents.creatures@.map_values(creature_key()).push(x.id)
                &&& ents.objects@.map_values(object_key()) == old_ents.objects@.map_values(object_key())
                &&& after.state.rounds == self.state.rounds
                &&& after.metrics == self.metrics
                &&& after.entropy == self.entropy
            },
            Event::CreateObject(x) => {
                &&& ents.teams@ == old_ents.teams@
                &&& ents.creatures@.map_values(creature_key()) == old_ents.creatures@.map_values(creature_key())
                &&& ents.objects@.map_values(object_key()) == old_ents.objects@.map_values(object_key()).push(x.id)
                &&& after.state.rounds == self.state.rounds
                &&& after.metrics.objects_created == incremented(self.metrics.objects_created)
                &&& after.metrics.rounds_started == self.metrics.rounds_started
                &&& after.entropy == self.entropy
            },
            Event::RemoveCreature(x) => {
                &&& !ents.spec_has(EntityId::Creature(x.id))
                &&& exists|i: int| 0 <= i < old_ents.creatures@.len() && old_ents.creatures@[i].id == x.id
                    && ents.creatures@.map_values(creature_key()) == old_ents.creatures@.map_values(creature_key()).remove(i)
                &&& ents.teams@ == old_ents.teams@
                &&& ents.objects@.map_values(object_key()) == old_ents.objects@.map_values(object_key())
                &&& after.state.rounds == self.state.rounds
                &&& after.metrics == self.metrics
                &&& after.entropy == self.entropy
            },
            Event::RemoveObject(x) => {
                &&& !ents.spec_has(EntityId::Object(x.id))
                &&& exists|i: int| 0 <= i < old_ents.objects@.len() && old_ents.objects@[i].id == x.id
                    && ents.objects@.map_values(object_key()) == old_ents.objects@.map_values(object_key()).remove(i)
                &&& ents.teams@ == old_ents.teams@
                &&& ents.creatures@.map_values(creature_key()) == old_ents.creatures@.map_values(creature_key())
                &&& after.state.rounds == self.state.rounds
                &&& after.metrics == self.metrics
                &&& after.entropy == self.entropy
            },
            _ => after.same_but_characters(self),
        }
    }

    /// What applying an event leaves stays when only statistics and statuses change
    /// afterwards.
    pub proof fn lemma_outcome_stable<R: BattleRules>(rules: R, before: Battle, e: Event, mid: Battle, after: Battle)
        requires
            before.spec_outcome(rules, e, mid),
            after.same_but_characters(&mid),
        ensures
            before.spec_outcome(rules, e, after),
            after.same_but_characters(&mid),
    {
        Entities::lemma_same_entities(after.state.entities, mid.state.entities, before.state.entities);
    }

    /// What verifying the event against this battle gives.
    pub open(crate) spec fn spec_verify<R: BattleRules>(&self, rules: R, e: Event) -> WeaselResult<()> {
        match e {
            Event::DummyEvent(_) => Ok(()),
            Event::CreateTeam(x) => x.spec_verify(self),
            Event::CreateCreature(x) => x.spec_verify(self),
            Event::CreateObject(x) => x.spec_verify(self),
            Event::StartRound(x) => x.spec_verify(rules, self),
            Event::EndRound(x) => x.spec_verify(self),
            Event::EnvironmentRound(x) => x.spec_verify(self),
            Event::AlterStatistics(x) => x.spec_verify(self),
            Event::InflictStatus(x) => x.spec_verify(self),
            Event::ClearStatus(x) => x.spec_verify(self),
            Event::RemoveCreature(x) => x.spec_verify(self),
            Event::RemoveObject(x) => x.spec_verify(self),
            Event::ResetEntropy(_) => Ok(()),
            Event::ResetRounds(x) => x.spec_verify(self),
            Event::ConcludeObjectives(x) => x.spec_verify(self),
        }
    }

    /// Verifies whether the event can be applied to this battle.
    pub fn verify<R: BattleRules>(&self, rules: &R, e: &Event) -> (r: WeaselResult<()>)
        requires
            self.wf(),
        ensures
            r == self.spec_verify(*rules, *e),
    {
        match e {
            Event::DummyEvent(_) => Ok(()),
            Event::CreateTeam(x) => x.verify(self),
            Event::CreateCreature(x) => x.verify(self),
            Event::CreateObject(x) => x.verify(self),
            Event::StartRound(x) => x.verify(rules, self),
            Event::EndRound(x) => x.verify(self),
            Event::EnvironmentRound(x) => x.verify(self),
            Event::AlterStatistics(x) => x.verify(self),
            Event::InflictStatus(x) => x.verify(self),
            Event::ClearStatus(x) => x.verify(self),
            Event::RemoveCreature(x) => x.verify(self),
            Event::RemoveObject(x) => x.verify(self),
            Event::ResetEntropy(_) => Ok(()),
            Event::ResetRounds(x) => x.verify(self),
            Event::ConcludeObjectives(x) => x.verify(self),
        }
    }

    /// Applies a verified event that will get the id `id`, putting the events it
    /// generates at the back of `queue`.
    pub(crate) fn apply<R: BattleRules>(&mut self, rules: &R, e: &Event, id: EventId, queue: &mut EventQueue)
        requires
            old(self).wf(),
            old(self).spec_verify(*rules, *e) is Ok,
        ensures
            final(self).wf(),
            final(self).history == old(self).history,
            final(self).version == old(self).version,
            old(self).spec_outcome(*rules, *e, *final(self)),
            queued_below(old(queue)@, final(queue)@, e.rank(), id),
    {
        let ghost before = *self;
        match e {
            Event::DummyEvent(_) => {},
            Event::CreateTeam(x) => x.apply(self),
            Event::CreateCreature(x) => x.apply(self),
            Event::CreateObject(x) => x.apply(self),
            Event::StartRound(x) => x.apply(rules, self, id, queue),
            Event::EndRound(x) => x.apply(rules, self, id, queue),
            Event::EnvironmentRound(x) => x.apply(rules, self, id, queue),
            Event::AlterStatistics(x) => x.apply(self),
            Event::InflictStatus(x) => x.apply(self, id, queue),
            Event::ClearStatus(x) => x.apply(self, id, queue),
            Event::RemoveCreature(x) => x.apply(self),
            Event::RemoveObject(x) => x.apply(self),
            Event::ResetEntropy(x) => self.entropy.regenerate_model(rules, &x.seed),
            Event::ResetRounds(x) => x.apply(rules, self),
            Event::ConcludeObjectives(x) => x.apply(self),
        }
        proof {
            assert(queue@.take(old(queue)@.len() as int) =~= old(queue)@) by {
                if queue@.len() == old(queue)@.len() {
                    assert(queue@ == old(queue)@);
                }
            }
            let a = before.state.entities;
            let b = self.state.entities;
            Entities::lemma_same_entities(b, a, a);
            match e {
                Event::CreateCreature(x) => {
                    assert(b.creatures@ =~= a.creatures@.push(b.creatures@.last()));
                    assert(a.creatures@.push(b.creatures@.last()).map_values(creature_key())
                        =~= a.creatures@.map_values(creature_key()).push(x.id));
                },
                Event::CreateObject(x) => {
                    assert(b.objects@ =~= a.objects@.push(b.objects@.last()));
                    assert(a.objects@.push(b.objects@.last()).map_values(object_key())
                        =~= a.objects@.map_values(object_key()).push(x.id));
                },
                Event::RemoveCreature(x) => {
                    assert(!b.spec_has(EntityId::Creature(x.id)));
                    let i = choose|i: int| 0 <= i < a.creatures@.len() && a.creatures@[i].id == x.id
                        && b.creatures@ == a.creatures@.remove(i);
                    assert(b.creatures@.map_values(creature_key()) =~= a.creatures@.map_values(creature_key()).remove(i));
                },
                Event::RemoveObject(x) => {
                    assert(!b.spec_has(EntityId::Object(x.id)));
                    let i = choose|i: int| 0 <= i < a.objects@.len() && a.objects@[i].id == x.id
                        && b.objects@ == a.objects@.remove(i);
                    assert(b.objects@.map_values(object_key()) =~= a.objects@.map_values(object_key()).remove(i));
                },
                _ => {},
            }
        }
    }

    /// Whether `player` may fire the event in this battle, by the table of the teams each
    /// player controls. Only the server may fire events not listed here.
    pub open(crate) spec fn spec_allowed(&self, e: Event, table: Seq<(PlayerId, TeamId)>, player: Option<PlayerId>) -> bool {
        match e {
            Event::DummyEvent(_) => true,
            Event::CreateCreature(x) => player matches Some(p) && table.contains((p, x.team_id)),
            Event::StartRound(x) => allows_teams(table, player, teams_of(creature_ids(x.ids@), self.state.entities)),
            Event::EndRound(_) => allows_teams(table, player, teams_of(self.state.rounds.state.spec_actors(), self.state.entities)),
            Event::RemoveCreature(x) => match self.state.entities.spec_creature(x.id) {
                Some(c) => player matches Some(p) && table.contains((p, c.spec_team_id())),
                None => false,
            },
            _ => false,
        }
    }

    /// Returns who may fire the event in this battle.
    pub fn rights(&self, e: &Event) -> (r: EventRights)
        requires
            self.wf(),
            e is EndRound ==> self.spec_state().spec_rounds().spec_state() is Started,
        ensures
            forall|table: Seq<(PlayerId, TeamId)>, player: Option<PlayerId>|
                #[trigger] spec_allows(table, player, r) == self.spec_allowed(*e, table, player),
    {
        match e {
            Event::DummyEvent(_) => EventRights::Everyone,
            Event::CreateCreature(x) => EventRights::Team(x.team_id),
            Event::StartRound(x) => x.rights(self),
            Event::EndRound(x) => x.rights(self),
            Event::RemoveCreature(x) => x.rights(self),
            _ => EventRights::Server,
        }
    }

    /// Appends the event to the history with the next id.
    pub(crate) fn commit(&mut self, p: EventPrototype) -> (r: EventId)
        requires
            old(self).wf(),
            old(self).spec_history().len() < u32::MAX,
        ensures
            final(self).wf(),
            r == old(self).spec_history().len(),
            final(self).spec_history() == old(self).spec_history().push(
                EventWrapper { id: r, origin: p.origin, event: p.event },
            ),
            final(self).state == old(self).state,
            final(self).metrics == old(self).metrics,
            final(self).version == old(self).version,
            final(self).entropy == old(self).entropy,
    {
        let id = self.history.events.len() as EventId;
        let w = p.promote(id);
        self.history.events.push(w);
        id
    }

    /// Applies an event committed elsewhere, as a replica of a server does: it must carry
    /// this battle's rules version and the next id, and pass verification here. What it
    /// generates is not processed: those events come on their own.
    pub fn receive<R: BattleRules>(&mut self, rules: &R, event: VersionedEventWrapper) -> (r: WeaselResult<()>)
        requires
            old(self).wf(),
        ensures
            final(self).wf(),
            event.version != old(self).spec_version() ==> r == Err::<(), WeaselError>(
                WeaselError::IncompatibleVersions(event.version, old(self).spec_version()),
            ),
            event.version == old(self).spec_version() && event.wrapper.id != old(self).spec_history().len()
                ==> r == Err::<(), WeaselError>(WeaselError::NonContiguousEventId(
                event.wrapper.id,
                old(self).spec_history().len() as EventId,
            )),
            event.version == old(self).spec_version() && event.wrapper.id == old(self).spec_history().len()
                ==> match old(self).spec_verify(*rules, event.wrapper.event) {
                Err(e) => r == Err::<(), WeaselError>(e),
                Ok(_) => if old(self).spec_history().len() >= u32::MAX {
                    r == Err::<(), WeaselError>(WeaselError::HistoryFull)
                } else {
                    r is Ok && old(self).spec_outcome(*rules, event.wrapper.event, *final(self))
                        && final(self).spec_history() == old(self).spec_history().push(event.wrapper)
                },
            },
            r is Err ==> *final(self) == *old(self),
    {
        if event.version != self.version {
            return Err(WeaselError::IncompatibleVersions(event.version, self.version));
        }
        let len = self.history.len();
        if event.wrapper.id != len {
            return Err(WeaselError::NonContiguousEventId(event.wrapper.id, len));
        }
        if let Err(e) = self.verify(rules, &event.wrapper.event) {
            return Err(e);
        }
        if self.history.events.len() >= u32::MAX as usize {
            return Err(WeaselError::HistoryFull);
        }
        let mut generated: EventQueue = Vec::new();
        self.apply(rules, &event.wrapper.event, len, &mut generated);
        let w = event.wrapper;
        let _ = self.commit(EventPrototype { origin: w.origin, event: w.event, condition: None });
        Ok(())
    }

    /// Returns the events with ids in `[start, end)`, each with the rules version.
    pub fn versioned_events(&self, start: usize, end: usize) -> (r: Vec<VersionedEventWrapper>)
        requires
            self.wf(),
            start <= end <= self.spec_history().len(),
        ensures
            history_slice(*self, start as int, end as int, r@),
            r@.len() == end - start,
            forall|i: int|
                0 <= i < r@.len() ==> (#[trigger] r@[i]).wrapper.id == start + i
                    && r@[i].version == self.spec_version()
                    && r@[i].wrapper.origin == self.spec_history()[start + i].origin
                    && r@[i].wrapper.event.spec_kind() == self.spec_history()[start
                    + i].event.spec_kind(),
    {
        let mut out: Vec<VersionedEventWrapper> = Vec::new();
        let mut i: usize = start;
        while i < end
            invariant
                start <= i <= end <= self.history.events@.len(),
                self.wf(),
                out@.len() == i - start,
                forall|k: int|
                    0 <= k < out@.len() ==> (#[trigger] out@[k]).wrapper.id == start + k
                        && out@[k].version == self.version
                        && out@[k].wrapper.origin == self.history.events@[start + k].origin
                        && out@[k].wrapper.event.spec_kind() == self.history.events@[start
                        + k].event.spec_kind(),
            decreases end - i,
        {
            let w = self.history.events[i].clone();
            proof {
                assert(self.history.events@[i as int].id == i);
            }
            out.push(w.version(self.version));
            i += 1;
        }
        out
    }
}

impl EventReceiver for Battle {
    open spec fn ready(&self) -> bool {
        self.wf()
    }

    fn receive<R: BattleRules>(&mut self, rules: &R, event: VersionedEventWrapper) -> WeaselResult<()> {
        Battle::receive(self, rules, event)
    }
}

} // verus!
