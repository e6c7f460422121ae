use std::cell::RefCell;
use std::rc::Rc;
use weasel::battle::{Battle, DefaultRules};
use weasel::creature::{CreateCreature, CreateTeam};
use weasel::entity::{EntityId, SimpleStatistic};
use weasel::error::{WeaselError, WeaselResult};
use weasel::event::{DummyEvent, EventSinkId, EventTrigger, VersionedEventWrapper};
use weasel::round::{EndRound, StartRound};
use weasel::server::Server;
use weasel::sink::{Deliveries, ClientSink, EventSink};
use weasel::status::InflictStatus;

/// Keeps every event it is sent.
struct Recorder {
    events: Rc<RefCell<Vec<VersionedEventWrapper>>>,
}

impl EventSink for Recorder {
    // Stated for the verifier only; never called when the program runs.
    fn spec_id(&self) -> EventSinkId {
        unreachable!()
    }

    fn id(&self) -> EventSinkId {
        1
    }
}

impl ClientSink for Recorder {
    // Stated for the verifier only; never called when the program runs.
    fn delivered(&self) -> Deliveries {
        unreachable!()
    }

    fn send(&mut self, event: &VersionedEventWrapper) -> WeaselResult<()> {
        self.events.borrow_mut().push(event.clone());
        Ok(())
    }
}

fn stat(battle: &Battle) -> i64 {
    battle.entities().creature(&1).unwrap().character().statistic(&0).unwrap().value()
}

#[test]
fn replica_follows_server() {
    let events = Rc::new(RefCell::new(Vec::new()));
    let mut server: Server<Recorder, DefaultRules> = Server::new(Battle::new(&DefaultRules {}, 3, None, None), DefaultRules {});
    assert_eq!(server.client_sinks_mut().add_sink(Recorder { events: events.clone() }), Ok(()));
    assert_eq!(CreateTeam::trigger(1).fire(&mut server), Ok(()));
    assert_eq!(
        CreateCreature::trigger(1, 1)
            .statistics_seed(vec![SimpleStatistic::new(0, 10)])
            .fire(&mut server),
        Ok(())
    );
    assert_eq!(InflictStatus::trigger(EntityId::Creature(1), 4, 0).potency((3, 1)).fire(&mut server), Ok(()));
    assert_eq!(StartRound::trigger(EntityId::Creature(1)).fire(&mut server), Ok(()));
    assert_eq!(EndRound::trigger().fire(&mut server), Ok(()));
    assert_eq!(stat(server.battle()), 10);
    let sent = events.borrow().clone();
    assert_eq!(sent.len() as u32, server.battle().history().len());
    let mut replica = Battle::new(&DefaultRules {}, 3, None, None);
    for e in sent {
        assert_eq!(replica.receive(&DefaultRules {}, e), Ok(()));
    }
    let theirs = server.battle().history().events();
    let ours = replica.history().events();
    assert_eq!(ours.len(), theirs.len());
    for (a, b) in ours.iter().zip(theirs.iter()) {
        assert_eq!(a.id(), b.id());
        assert_eq!(a.origin(), b.origin());
        assert_eq!(a.kind(), b.kind());
    }
    assert_eq!(stat(&replica), 10);
    assert_eq!(replica.metrics(), server.battle().metrics());
}

#[test]
fn replica_rejects_out_of_order_events() {
    let mut replica = Battle::new(&DefaultRules {}, 3, None, None);
    let first = DummyEvent::trigger().prototype().promote(0).version(3);
    let skipped = DummyEvent::trigger().prototype().promote(5).version(3);
    let other_rules = DummyEvent::trigger().prototype().promote(0).version(4);
    assert_eq!(replica.receive(&DefaultRules {}, other_rules), Err(WeaselError::IncompatibleVersions(4, 3)));
    assert_eq!(replica.receive(&DefaultRules {}, skipped), Err(WeaselError::NonContiguousEventId(5, 0)));
    assert_eq!(replica.receive(&DefaultRules {}, first), Ok(()));
    let again = EndRound::trigger().prototype().promote(1).version(3);
    assert_eq!(replica.receive(&DefaultRules {}, again), Err(WeaselError::NoRoundInProgress));
    assert_eq!(replica.history().len(), 1);
}
