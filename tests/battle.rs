use weasel::battle::{Battle, DefaultRules};
use weasel::creature::{CreateCreature, CreateTeam, RemoveCreature};
use weasel::entity::{EntityId, SimpleStatistic};
use weasel::entropy::{Entropy, LinearEntropy, ResetEntropy};
use weasel::error::{WeaselError, WeaselResult};
use weasel::event::{
    ClientEventPrototype, Condition, Conditional, DummyEvent, EventKind, EventSinkId,
    EventTrigger, VersionedEventWrapper,
};
use weasel::object::{CreateObject, RemoveObject};
use weasel::round::{EndRound, EnvironmentRound, ResetRounds, RoundState, StartRound};
use weasel::server::Server;
use weasel::sink::{Deliveries, ClientSink, EventSink};
use weasel::status::{AlterStatistics, ClearStatus, InflictStatus};

const TEAM_1_ID: u32 = 1;
const CREATURE_1_ID: u32 = 1;
const CREATURE_ERR_ID: u32 = 99;
const OBJECT_1_ID: u32 = 1;
const ENTITY_C1_ID: EntityId = EntityId::Creature(CREATURE_1_ID);
const ENTITY_O1_ID: EntityId = EntityId::Object(OBJECT_1_ID);
const ENTITY_ERR_ID: EntityId = EntityId::Creature(CREATURE_ERR_ID);
const STATISTIC_ID: u32 = 1;
const STATISTIC_VALUE: i64 = 10;
const STATUS_1_ID: u32 = 1;
const STATUS_2_ID: u32 = 2;
const STATUS_ERR_ID: u32 = 99;
const STATUS_INTENSITY: i32 = 5;
const STATUS_DURATION: u32 = 2;

struct NoSink;

impl EventSink for NoSink {
    // Stated for the verifier only; never called when the program runs.
    fn spec_id(&self) -> EventSinkId {
        unreachable!()
    }

    fn id(&self) -> EventSinkId {
        0
    }
}

impl ClientSink for NoSink {
    // Stated for the verifier only; never called when the program runs.
    fn delivered(&self) -> Deliveries {
        unreachable!()
    }

    fn send(&mut self, _: &VersionedEventWrapper) -> WeaselResult<()> {
        Ok(())
    }
}

fn server() -> Server<NoSink, DefaultRules> {
    Server::new(Battle::new(&DefaultRules {}, 0, None, None), DefaultRules {})
}

/// One team, one creature and one object, each with a statistic.
fn scenario() -> Server<NoSink, DefaultRules> {
    let mut server = server();
    assert_eq!(CreateTeam::trigger(TEAM_1_ID).fire(&mut server), Ok(()));
    assert_eq!(
        CreateCreature::trigger(CREATURE_1_ID, TEAM_1_ID)
            .statistics_seed(vec![SimpleStatistic::new(STATISTIC_ID, STATISTIC_VALUE)])
            .fire(&mut server),
        Ok(())
    );
    assert_eq!(
        CreateObject::trigger(OBJECT_1_ID, 0)
            .statistics_seed(vec![SimpleStatistic::new(STATISTIC_ID, STATISTIC_VALUE)])
            .fire(&mut server),
        Ok(())
    );
    server
}

fn creature_value(server: &Server<NoSink, DefaultRules>) -> i64 {
    server
        .battle()
        .entities()
        .creature(&CREATURE_1_ID)
        .unwrap()
        .character()
        .statistic(&STATISTIC_ID)
        .unwrap()
        .value()
}

fn object_value(server: &Server<NoSink, DefaultRules>) -> i64 {
    server
        .battle()
        .entities()
        .object(&OBJECT_1_ID)
        .unwrap()
        .statistic(&STATISTIC_ID)
        .unwrap()
        .value()
}

fn round(server: &mut Server<NoSink, DefaultRules>, id: EntityId) {
    assert_eq!(StartRound::trigger(id).fire(server), Ok(()));
    assert_eq!(EndRound::trigger().fire(server), Ok(()));
}

#[test]
fn mutable_statistics() {
    let mut server = server();
    assert_eq!(CreateObject::trigger(1, 0).fire(&mut server), Ok(()));
    let mut object = server.battle().entities().object(&1).unwrap().clone();
    assert!(object.statistic(&1).is_none());
    object.add_statistic(SimpleStatistic::new(1, 50));
    assert!(object.statistic(&1).is_some());
    object.statistic_mut(&1).unwrap().set_value(25);
    assert_eq!(object.statistic(&1).unwrap().value(), 25);
    object.remove_statistic(&1);
    assert!(object.statistic(&1).is_none());
}

#[test]
fn entropy_exact_values() {
    // From state 0 the next state is the increment; 1442695040888963407 >> 33 is 167951807.
    let rules = LinearEntropy {};
    let mut e = Entropy::new(&rules, None);
    assert_eq!(e.generate(&rules, 0, 1000), 807);
    assert_eq!(e.model(), 1442695040888963407);
    let mut f = Entropy::new(&rules, Some(0));
    assert_eq!(f.generate(&rules, i64::MIN, i64::MAX), i64::MIN + 167951807);
}

#[test]
fn same_seed_same_sequence() {
    let rules = LinearEntropy {};
    let requests = vec![(0, 10), (5, -5), (3, 3), (-100, 100), (i64::MIN, i64::MAX)];
    let mut a = Entropy::new(&rules, Some(42));
    let mut b = Entropy::new(&rules, Some(42));
    let xs = a.generate_sequence(&rules, &requests);
    let ys = b.generate_sequence(&rules, &requests);
    assert_eq!(xs, ys);
    assert_eq!(a.model(), b.model());
    assert_eq!(xs[2], 3);
    let mut c = Entropy::new(&rules, Some(43));
    assert_eq!(c.generate_sequence(&rules, &requests).len(), requests.len());
}

#[test]
fn swapped_bounds_same_value() {
    let rules = LinearEntropy {};
    let mut a = Entropy::new(&rules, Some(3));
    let mut b = Entropy::new(&rules, Some(3));
    let x = a.generate(&rules, 5, 1);
    let y = b.generate(&rules, 1, 5);
    assert_eq!(x, y);
    assert!(1 <= x && x < 5);
    assert_eq!(a.generate(&rules, 7, 7), 7);
}

#[test]
fn round_state_machine() {
    let mut server = scenario();
    assert_eq!(
        EndRound::trigger().fire(&mut server),
        Err(WeaselError::NoRoundInProgress)
    );
    assert_eq!(StartRound::trigger(ENTITY_C1_ID).fire(&mut server), Ok(()));
    assert!(server.battle().rounds().is_acting(&ENTITY_C1_ID));
    assert_eq!(
        StartRound::trigger(ENTITY_C1_ID).fire(&mut server),
        Err(WeaselError::RoundInProgress)
    );
    assert_eq!(ResetRounds::trigger().fire(&mut server), Err(WeaselError::RoundInProgress));
    assert_eq!(EnvironmentRound::trigger().fire(&mut server), Err(WeaselError::RoundInProgress));
    assert_eq!(EndRound::trigger().fire(&mut server), Ok(()));
    assert!(matches!(server.battle().rounds().state(), RoundState::Ready));
    assert_eq!(ResetRounds::trigger().seed(8).fire(&mut server), Ok(()));
    assert_eq!(server.battle().rounds().model(), 8);
    assert_eq!(EnvironmentRound::trigger().fire(&mut server), Ok(()));
    assert_eq!(server.battle().metrics().rounds_started, 2);
}

#[test]
fn start_round_errors() {
    let mut server = scenario();
    assert_eq!(
        StartRound::trigger(ENTITY_O1_ID).fire(&mut server),
        Err(WeaselError::NotAnActor(ENTITY_O1_ID))
    );
    assert_eq!(
        StartRound::trigger_with_actors(vec![ENTITY_C1_ID, ENTITY_ERR_ID]).fire(&mut server),
        Err(WeaselError::EntityNotFound(ENTITY_ERR_ID))
    );
    assert_eq!(server.battle().history().len(), 3);
}

#[test]
fn start_round_deduplicates() {
    let mut server = scenario();
    assert_eq!(CreateCreature::trigger(2, TEAM_1_ID).fire(&mut server), Ok(()));
    let ids = vec![ENTITY_C1_ID, EntityId::Creature(2), ENTITY_C1_ID, EntityId::Creature(2)];
    assert_eq!(StartRound::trigger_with_actors(ids).fire(&mut server), Ok(()));
    let actors = server.battle().rounds().state().actors();
    assert_eq!(actors, vec![ENTITY_C1_ID, EntityId::Creature(2)]);
}

#[test]
fn conditional_prototype_dropped() {
    let mut server = scenario();
    let before = server.battle().history().len();
    let result = Conditional::new(DummyEvent::trigger(), Condition::TeamsCount(42)).fire(&mut server);
    assert_eq!(result, Ok(()));
    assert_eq!(server.battle().history().len(), before);
    let result = Conditional::new(DummyEvent::trigger(), Condition::TeamsCount(1)).fire(&mut server);
    assert_eq!(result, Ok(()));
    assert_eq!(server.battle().history().len(), before + 1);
    assert_eq!(server.battle().history().events()[before as usize].id(), before);
}

#[test]
fn history_ids_are_contiguous() {
    let mut server = scenario();
    round(&mut server, ENTITY_C1_ID);
    assert_eq!(DummyEvent::trigger().fire(&mut server), Ok(()));
    let events = server.battle().history().events();
    assert_eq!(events.len(), 6);
    for (i, e) in events.iter().enumerate() {
        assert_eq!(e.id() as usize, i);
        assert_eq!(e.origin(), None);
    }
}

#[test]
fn entity_errors() {
    let mut server = scenario();
    assert_eq!(CreateTeam::trigger(TEAM_1_ID).fire(&mut server), Err(WeaselError::DuplicatedTeam(TEAM_1_ID)));
    assert_eq!(CreateCreature::trigger(CREATURE_1_ID, TEAM_1_ID).fire(&mut server), Err(WeaselError::DuplicatedCreature(CREATURE_1_ID)));
    assert_eq!(CreateCreature::trigger(7, 9).fire(&mut server), Err(WeaselError::TeamNotFound(9)));
    assert_eq!(RemoveCreature::trigger(7).fire(&mut server), Err(WeaselError::CreatureNotFound(7)));
    assert_eq!(CreateObject::trigger(OBJECT_1_ID, 3).fire(&mut server), Err(WeaselError::DuplicatedObject(OBJECT_1_ID)));
    assert_eq!(RemoveObject::trigger(7).fire(&mut server), Err(WeaselError::ObjectNotFound(7)));
    assert_eq!(RemoveObject::trigger(OBJECT_1_ID).fire(&mut server), Ok(()));
    assert!(server.battle().entities().object(&OBJECT_1_ID).is_none());
    assert_eq!(server.battle().metrics().objects_created, 1);
    assert_eq!(RemoveCreature::trigger(CREATURE_1_ID).fire(&mut server), Ok(()));
    assert!(server.battle().entities().creature(&CREATURE_1_ID).is_none());
}

#[test]
fn statistic_errors() {
    let mut server = scenario();
    assert_eq!(
        AlterStatistics::trigger(ENTITY_C1_ID, 5, 1).fire(&mut server),
        Err(WeaselError::StatisticNotFound(ENTITY_C1_ID, 5))
    );
    assert_eq!(
        AlterStatistics::trigger(ENTITY_C1_ID, STATISTIC_ID, i64::MAX).fire(&mut server),
        Err(WeaselError::StatisticOutOfRange(ENTITY_C1_ID, STATISTIC_ID))
    );
    assert_eq!(AlterStatistics::trigger(ENTITY_C1_ID, STATISTIC_ID, -3).fire(&mut server), Ok(()));
    assert_eq!(creature_value(&server), STATISTIC_VALUE - 3);
}

#[test]
fn status_inflict() {
    let mut server = scenario();
    // Check that inflict with a wrong entity fails.
    assert_eq!(
        InflictStatus::trigger(ENTITY_ERR_ID, STATUS_1_ID, STATISTIC_ID).fire(&mut server),
        Err(WeaselError::EntityNotFound(ENTITY_ERR_ID))
    );
    // Add a new status to the creature.
    assert_eq!(
        InflictStatus::trigger(ENTITY_C1_ID, STATUS_1_ID, STATISTIC_ID)
            .potency((STATUS_INTENSITY, STATUS_DURATION))
            .fire(&mut server),
        Ok(())
    );
    let creature = server.battle().entities().creature(&CREATURE_1_ID).unwrap();
    assert!(creature.character().status(&STATUS_1_ID).is_some());
    // The creature has a new value for the statistic.
    assert_eq!(creature_value(&server), STATISTIC_VALUE + STATUS_INTENSITY as i64);
    // The status remembers the event that inflicted it; its effect came as a linked event.
    let events = server.battle().history().events();
    let inflict_id = events.iter().find(|e| e.kind() == EventKind::InflictStatus).map(|e| e.id()).unwrap();
    let creature = server.battle().entities().creature(&CREATURE_1_ID).unwrap();
    assert_eq!(creature.character().status(&STATUS_1_ID).unwrap().origin(), Some(inflict_id));
    let alter = events.iter().find(|e| e.kind() == EventKind::AlterStatistics).unwrap();
    assert_eq!(alter.origin(), Some(inflict_id));
    assert_eq!(alter.id(), inflict_id + 1);
    // Replace the status effect already present in the creature.
    assert_eq!(
        InflictStatus::trigger(ENTITY_C1_ID, STATUS_1_ID, STATISTIC_ID)
            .potency((STATUS_INTENSITY * 2, STATUS_DURATION))
            .fire(&mut server),
        Ok(())
    );
    assert_eq!(creature_value(&server), STATISTIC_VALUE + STATUS_INTENSITY as i64 * 2);
}

#[test]
fn status_clear() {
    let mut server = scenario();
    assert_eq!(
        ClearStatus::trigger(ENTITY_ERR_ID, STATUS_1_ID).fire(&mut server),
        Err(WeaselError::EntityNotFound(ENTITY_ERR_ID))
    );
    assert_eq!(
        InflictStatus::trigger(ENTITY_C1_ID, STATUS_1_ID, STATISTIC_ID)
            .potency((STATUS_INTENSITY, STATUS_DURATION))
            .fire(&mut server),
        Ok(())
    );
    assert_eq!(
        ClearStatus::trigger(ENTITY_C1_ID, STATUS_ERR_ID).fire(&mut server),
        Err(WeaselError::StatusNotPresent(ENTITY_C1_ID, STATUS_ERR_ID))
    );
    assert_eq!(ClearStatus::trigger(ENTITY_C1_ID, STATUS_1_ID).fire(&mut server), Ok(()));
    let creature = server.battle().entities().creature(&CREATURE_1_ID).unwrap();
    assert!(creature.character().status(&STATUS_1_ID).is_none());
    assert_eq!(creature_value(&server), STATISTIC_VALUE);
}

#[test]
fn status_update() {
    let mut server = scenario();
    assert_eq!(
        InflictStatus::trigger(ENTITY_C1_ID, STATUS_1_ID, STATISTIC_ID)
            .potency((STATUS_INTENSITY, STATUS_DURATION))
            .fire(&mut server),
        Ok(())
    );
    assert_eq!(creature_value(&server), STATISTIC_VALUE + STATUS_INTENSITY as i64);
    // Do a round: the status has been active for one round.
    round(&mut server, ENTITY_C1_ID);
    let creature = server.battle().entities().creature(&CREATURE_1_ID).unwrap();
    assert_eq!(creature.character().status(&STATUS_1_ID).unwrap().duration(), 1);
    assert_eq!(creature_value(&server), STATISTIC_VALUE + STATUS_INTENSITY as i64);
    // Do another round: the status ends and its effect is gone.
    round(&mut server, ENTITY_C1_ID);
    let creature = server.battle().entities().creature(&CREATURE_1_ID).unwrap();
    assert!(creature.character().status(&STATUS_1_ID).is_none());
    assert_eq!(creature_value(&server), STATISTIC_VALUE);
}

#[test]
fn status_for_objects() {
    let mut server = scenario();
    assert_eq!(
        InflictStatus::trigger(ENTITY_O1_ID, STATUS_1_ID, STATISTIC_ID)
            .potency((STATUS_INTENSITY, STATUS_DURATION))
            .fire(&mut server),
        Ok(())
    );
    assert!(server.battle().entities().object(&OBJECT_1_ID).unwrap().status(&STATUS_1_ID).is_some());
    assert_eq!(object_value(&server), STATISTIC_VALUE + STATUS_INTENSITY as i64);
    // Objects' statuses are updated by environment rounds.
    assert_eq!(EnvironmentRound::trigger().fire(&mut server), Ok(()));
    assert_eq!(EnvironmentRound::trigger().fire(&mut server), Ok(()));
    assert!(server.battle().entities().object(&OBJECT_1_ID).unwrap().status(&STATUS_1_ID).is_none());
    assert_eq!(object_value(&server), STATISTIC_VALUE);
}

#[test]
fn multiple_statuses() {
    let mut server = scenario();
    assert_eq!(InflictStatus::trigger(ENTITY_C1_ID, STATUS_1_ID, STATISTIC_ID).fire(&mut server), Ok(()));
    assert_eq!(InflictStatus::trigger(ENTITY_C1_ID, STATUS_2_ID, STATISTIC_ID).fire(&mut server), Ok(()));
    let creature = server.battle().entities().creature(&CREATURE_1_ID).unwrap();
    assert_eq!(creature.character().statuses().len(), 2);
}

#[test]
fn status_expires_after_duration() {
    let mut server = scenario();
    let before = creature_value(&server);
    assert_eq!(
        InflictStatus::trigger(ENTITY_C1_ID, STATUS_1_ID, STATISTIC_ID)
            .potency((7, 3))
            .fire(&mut server),
        Ok(())
    );
    for _ in 0..2 {
        round(&mut server, ENTITY_C1_ID);
        assert_eq!(creature_value(&server), before + 7);
    }
    round(&mut server, ENTITY_C1_ID);
    let creature = server.battle().entities().creature(&CREATURE_1_ID).unwrap();
    assert!(creature.character().status(&STATUS_1_ID).is_none());
    assert_eq!(creature_value(&server), before);
}

#[test]
fn initiative_scenario() {
    let mut server = server();
    assert_eq!(ResetEntropy::trigger().seed(1).fire(&mut server), Ok(()));
    assert_eq!(CreateTeam::trigger(TEAM_1_ID).fire(&mut server), Ok(()));
    for i in 1..=5u32 {
        let speed = (i * 2 + 10) as i64;
        assert_eq!(
            CreateCreature::trigger(i, TEAM_1_ID)
                .statistics_seed(vec![SimpleStatistic::new(0, speed)])
                .fire(&mut server),
            Ok(())
        );
    }
    let fastest = |server: &Server<NoSink, DefaultRules>| {
        let creatures = server.battle().entities().creatures();
        let top = creatures
            .iter()
            .max_by_key(|c| c.character().statistic(&0).unwrap().value())
            .unwrap();
        top.entity_id()
    };
    for _ in 0..5 {
        let actor = fastest(&server);
        round(&mut server, actor);
    }
    assert_eq!(RemoveCreature::trigger(5).fire(&mut server), Ok(()));
    let actor = fastest(&server);
    assert_eq!(actor, EntityId::Creature(4));
    round(&mut server, actor);
    let events = server.battle().history().events();
    let kinds: Vec<EventKind> = events.iter().map(|e| e.kind()).collect();
    let mut expected = vec![EventKind::ResetEntropy, EventKind::CreateTeam];
    expected.extend(vec![EventKind::CreateCreature; 5]);
    for _ in 0..5 {
        expected.push(EventKind::StartRound);
        expected.push(EventKind::EndRound);
    }
    expected.push(EventKind::RemoveCreature);
    expected.push(EventKind::StartRound);
    expected.push(EventKind::EndRound);
    assert_eq!(kinds, expected);
    for w in events.windows(2) {
        assert!(w[0].id() < w[1].id());
    }
    assert_eq!(server.battle().metrics().rounds_started, 6);
}

#[test]
fn client_events_need_rights() {
    let mut server = scenario();
    let version = server.battle().version();
    let start = StartRound::trigger(ENTITY_C1_ID).prototype();
    // Wrong version.
    let wrong = start.clone().client_prototype(version + 1, Some(1));
    assert_eq!(server.process_client(wrong), Err(WeaselError::IncompatibleVersions(version + 1, version)));
    // No rights yet.
    let attempt = start.clone().client_prototype(version, Some(1));
    assert_eq!(server.process_client(attempt), Err(WeaselError::AuthenticationError(Some(1))));
    // Only the server may create teams.
    let mut team = CreateTeam::trigger(2).prototype().client_prototype(version, None);
    team.authenticate(1);
    assert_eq!(team.player(), Some(1));
    assert_eq!(server.process_client(team), Err(WeaselError::AuthenticationError(Some(1))));
    // With rights to the team, the round starts.
    server.add_rights(1, TEAM_1_ID);
    assert!(server.has_rights(1, TEAM_1_ID));
    let granted = ClientEventPrototype::new(None, start.event().clone(), version, Some(1));
    assert_eq!(server.process_client(granted), Ok(()));
    assert!(server.battle().rounds().is_acting(&ENTITY_C1_ID));
    // Anyone may fire a dummy event.
    let dummy = DummyEvent::trigger().prototype().client_prototype(version, None);
    assert_eq!(server.process_client(dummy), Ok(()));
}
