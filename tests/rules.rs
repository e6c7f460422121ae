use std::cell::Cell;
use std::rc::Rc;
use weasel::battle::{Battle, BattleRules, Metrics};
use weasel::creature::{Conclusion, CreateCreature, CreateTeam, TeamRules};
use weasel::entity::{Creature, Entities, EntityId, Team};
use weasel::entropy::{Entropy, EntropyRules, EntropySeed, ResetEntropy};
use weasel::error::{WeaselError, WeaselResult};
use weasel::event::{EventKind, EventSinkId, EventTrigger, VersionedEventWrapper};
use weasel::round::{ActorRules, EndRound, ResetRounds, RoundsRules, StartRound};
use weasel::server::Server;
use weasel::sink::{ClientSink, Deliveries, EventSink};

const DEFAULT_SEED: u64 = 3;

/// Entropy that always gives back the model, which is the seed; creature 2 may never act;
/// the callbacks are counted and bump the rounds model.
#[derive(Default)]
struct CustomRules {
    starts: Rc<Cell<u32>>,
    round_starts: Rc<Cell<u32>>,
    ends: Rc<Cell<u32>>,
}

impl EntropyRules for CustomRules {
    // Stated for the verifier only; never called when the program runs.
    fn entropy_model_of(&self, _: Option<EntropySeed>) -> u64 {
        unreachable!()
    }

    // Stated for the verifier only; never called when the program runs.
    fn drawn(&self, _: u64, _: i64, _: i64) -> (u64, i64) {
        unreachable!()
    }

    fn generate_model(&self, seed: &Option<EntropySeed>) -> u64 {
        seed.unwrap_or(DEFAULT_SEED)
    }

    fn generate(&self, model: &mut u64, _low: i64, _high: i64) -> i64 {
        *model as i64
    }
}

impl RoundsRules for CustomRules {
    // Stated for the verifier only; never called when the program runs.
    fn rounds_model_of(&self, _: Option<u64>) -> u64 {
        unreachable!()
    }

    // Stated for the verifier only; never called when the program runs.
    fn spec_eligible(&self, _: u64, _: Creature) -> bool {
        unreachable!()
    }

    // Stated for the verifier only; never called when the program runs.
    fn started(&self, _: u64, _: u64, _: Creature) -> (u64, u64) {
        unreachable!()
    }

    // Stated for the verifier only; never called when the program runs.
    fn ended(&self, _: u64, _: u64, _: Creature) -> (u64, u64) {
        unreachable!()
    }

    fn generate_model(&self, seed: &Option<u64>) -> u64 {
        seed.unwrap_or(0)
    }

    fn eligible(&self, _model: &u64, actor: &Creature) -> bool {
        actor.id() != 2
    }

    fn on_start(&self, model: &mut u64, _actor: &Creature, _entropy: &mut Entropy) {
        self.starts.set(self.starts.get() + 1);
        *model += 10;
    }

    fn on_end(&self, model: &mut u64, _actor: &Creature, _entropy: &mut Entropy) {
        self.ends.set(self.ends.get() + 1);
        *model += 1;
    }
}

impl ActorRules for CustomRules {
    // Stated for the verifier only; never called when the program runs.
    fn round_started(&self, _: u64, _: Creature) -> u64 {
        unreachable!()
    }

    // Stated for the verifier only; never called when the program runs.
    fn round_ended(&self, _: u64, _: Creature) -> u64 {
        unreachable!()
    }

    fn on_round_start(&self, _actor: &Creature, _entropy: &mut Entropy) {
        self.round_starts.set(self.round_starts.get() + 1);
    }

    fn on_round_end(&self, _actor: &Creature, _entropy: &mut Entropy) {}
}

impl TeamRules for CustomRules {
    // Stated for the verifier only; never called when the program runs.
    fn objectives(&self, _: Team, _: Entities, _: Metrics) -> Option<Conclusion> {
        unreachable!()
    }

    fn check_objectives_on_round(&self, team: &Team, _: &Entities, metrics: &Metrics) -> Option<Conclusion> {
        if team.id() == 1 && metrics.rounds_started >= 2 {
            Some(Conclusion::Victory)
        } else {
            None
        }
    }
}

impl BattleRules for CustomRules {}

struct NoSink;

impl EventSink for NoSink {
    // Stated for the verifier only; never called when the program runs.
    fn spec_id(&self) -> EventSinkId {
        unreachable!()
    }

    fn id(&self) -> EventSinkId {
        0
    }
}

impl ClientSink for NoSink {
    // Stated for the verifier only; never called when the program runs.
    fn delivered(&self) -> Deliveries {
        unreachable!()
    }

    fn send(&mut self, _: &VersionedEventWrapper) -> WeaselResult<()> {
        Ok(())
    }
}

fn server(rules: CustomRules) -> Server<NoSink, CustomRules> {
    let battle = Battle::new(&rules, 0, None, None);
    Server::new(battle, rules)
}

#[test]
fn reset_model() {
    let mut server = server(CustomRules::default());
    assert_eq!(server.battle().entropy().model(), DEFAULT_SEED);
    let mut entropy = Entropy::new(server.rules(), Some(server.battle().entropy().model()));
    assert_eq!(entropy.generate(server.rules(), 1, 5), DEFAULT_SEED as i64);
    assert!(ResetEntropy::trigger().seed(4).fire(&mut server).is_ok());
    let mut entropy = Entropy::new(server.rules(), Some(server.battle().entropy().model()));
    assert_eq!(entropy.generate(server.rules(), 1, 5), 4);
}

#[test]
fn low_high_guarantee() {
    let rules = CustomRules::default();
    let mut entropy = Entropy::new(&rules, None);
    assert_eq!(entropy.generate(&rules, 5, 1), 3);
}

#[test]
fn empty_range() {
    let rules = CustomRules::default();
    let mut entropy = Entropy::new(&rules, None);
    assert_eq!(entropy.generate(&rules, 1, 1), 1);
}

#[test]
fn rules_decide_eligibility_and_see_rounds() {
    let rules = CustomRules::default();
    let starts = rules.starts.clone();
    let ends = rules.ends.clone();
    let mut server = server(rules);
    assert_eq!(CreateTeam::trigger(1).fire(&mut server), Ok(()));
    assert_eq!(CreateCreature::trigger(1, 1).fire(&mut server), Ok(()));
    assert_eq!(CreateCreature::trigger(2, 1).fire(&mut server), Ok(()));
    assert_eq!(
        StartRound::trigger_with_actors(vec![EntityId::Creature(1), EntityId::Creature(2)]).fire(&mut server),
        Err(WeaselError::ActorNotEligible(EntityId::Creature(2)))
    );
    assert_eq!(starts.get(), 0);
    assert_eq!(
        StartRound::trigger_with_actors(vec![EntityId::Creature(1), EntityId::Creature(1)]).fire(&mut server),
        Ok(())
    );
    assert_eq!(starts.get(), 1);
    assert_eq!(server.battle().rounds().model(), 10);
    assert_eq!(EndRound::trigger().fire(&mut server), Ok(()));
    assert_eq!(ends.get(), 1);
    assert_eq!(server.battle().rounds().model(), 11);
    assert_eq!(ResetRounds::trigger().seed(5).fire(&mut server), Ok(()));
    assert_eq!(server.battle().rounds().model(), 5);
}

#[test]
fn objectives_are_checked_at_round_end() {
    let rules = CustomRules::default();
    let round_starts = rules.round_starts.clone();
    let mut server = server(rules);
    assert_eq!(CreateTeam::trigger(1).fire(&mut server), Ok(()));
    assert_eq!(CreateCreature::trigger(1, 1).fire(&mut server), Ok(()));
    for _ in 0..2 {
        assert_eq!(StartRound::trigger(EntityId::Creature(1)).fire(&mut server), Ok(()));
        assert_eq!(EndRound::trigger().fire(&mut server), Ok(()));
    }
    assert_eq!(round_starts.get(), 2);
    assert_eq!(server.battle().conclusion(&1), Some(Conclusion::Victory));
    let events = server.battle().history().events();
    let last = &events[events.len() - 1];
    assert_eq!(last.kind(), EventKind::ConcludeObjectives);
    assert_eq!(last.origin(), Some(events[events.len() - 2].id()));
    // Once recorded, the outcome is not checked again.
    assert_eq!(StartRound::trigger(EntityId::Creature(1)).fire(&mut server), Ok(()));
    assert_eq!(EndRound::trigger().fire(&mut server), Ok(()));
    assert_eq!(server.battle().history().events().last().unwrap().kind(), EventKind::EndRound);
}
