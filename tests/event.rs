use std::cell::Cell;
use std::rc::Rc;
use weasel::battle::{Battle, DefaultRules};
use weasel::entity::EntityId;
use weasel::entropy::ResetEntropy;
use weasel::error::{WeaselError, WeaselResult};
use weasel::event::{
    Condition, DummyEvent, EventKind, EventPrototype, EventQueue, EventRights, EventSinkId,
    EventTrigger, LinkedQueue, Originated, Conditional, Prioritized, VersionedEventWrapper,
};
use weasel::creature::CreateTeam;
use weasel::server::Server;
use weasel::sink::{Deliveries, normalize_range, ClientSink, EventSink, MultiClientSink};

struct Sink {
    id: EventSinkId,
    ok: bool,
    disconnections: Rc<Cell<u32>>,
}

impl Sink {
    fn new(id: EventSinkId, ok: bool) -> Sink {
        Sink { id, ok, disconnections: Rc::new(Cell::new(0)) }
    }
}

impl EventSink for Sink {
    // Stated for the verifier only; never called when the program runs.
    fn spec_id(&self) -> EventSinkId {
        unreachable!()
    }

    fn id(&self) -> EventSinkId {
        self.id
    }

    fn on_disconnect(&mut self) {
        self.disconnections.set(self.disconnections.get() + 1);
    }
}

impl ClientSink for Sink {
    // Stated for the verifier only; never called when the program runs.
    fn delivered(&self) -> Deliveries {
        unreachable!()
    }

    fn send(&mut self, _: &VersionedEventWrapper) -> WeaselResult<()> {
        if self.ok {
            Ok(())
        } else {
            Err(WeaselError::EventSinkError("broken".to_string()))
        }
    }
}

fn dummy_versioned() -> VersionedEventWrapper {
    DummyEvent::trigger().prototype().promote(0).version(0)
}

fn server() -> Server<Sink, DefaultRules> {
    Server::new(Battle::new(&DefaultRules {}, 0, None, None), DefaultRules {})
}

#[test]
fn event_equality() {
    let dummy = DummyEvent::trigger().event();
    let dummy_copy = dummy.clone();
    let reset_entropy = ResetEntropy::trigger().event();
    assert_eq!(dummy.kind(), dummy_copy.kind());
    assert_ne!(dummy.kind(), reset_entropy.kind());
}

#[test]
fn multi_client_sink() {
    // Check add.
    let mut multi = MultiClientSink::new();
    assert_eq!(multi.add(Sink::new(0, true)).err(), None);
    assert_eq!(multi.sinks().len(), 1);
    assert_eq!(
        multi.add(Sink::new(0, true)).err(),
        Some(WeaselError::DuplicatedEventSink(0))
    );
    assert_eq!(multi.sinks().len(), 1);
    // Check remove.
    multi.remove(2);
    assert_eq!(multi.sinks().len(), 1);
    multi.remove(0);
    assert_eq!(multi.sinks().len(), 0);
    // Check send_all.
    assert_eq!(multi.add(Sink::new(0, true)).err(), None);
    assert_eq!(multi.add(Sink::new(1, false)).err(), None);
    assert_eq!(multi.sinks().len(), 2);
    let event = dummy_versioned();
    multi.send_all(&event);
    assert_eq!(multi.sinks().len(), 1);
    // Check send.
    assert_eq!(multi.send(0, &vec![event.clone()]).err(), None);
    assert_eq!(
        multi.send(2, &vec![event.clone()]).err(),
        Some(WeaselError::EventSinkNotFound(2))
    );
    assert_eq!(multi.add(Sink::new(1, false)).err(), None);
    assert_eq!(multi.sinks().len(), 2);
    assert_eq!(
        multi.send(1, &vec![event]).err(),
        Some(WeaselError::EventSinkError("broken".to_string()))
    );
    assert_eq!(multi.sinks().len(), 1);
}

#[test]
fn decorators_stack() {
    let event = Conditional::new(DummyEvent::trigger(), Condition::Constant(true));
    let event = Originated::new(event, 0);
    let prototype = event.prototype();
    assert!(prototype.condition().is_some());
    assert!(prototype.origin().is_some());
}

#[test]
fn linked_queue_respects_origin() {
    let mut queue = EventQueue::new();
    let origin = 42;
    let mut linked_queue = LinkedQueue::new(&mut queue, Some(origin + 1));
    Originated::new(DummyEvent::trigger(), origin).fire(&mut linked_queue);
    assert_eq!(queue[0].origin(), Some(origin));
}

#[test]
fn basic_event_rights_equality() {
    assert_eq!(EventRights::Everyone, EventRights::Everyone);
    assert_ne!(EventRights::Everyone, EventRights::Team(1));
    assert_ne!(EventRights::Everyone, EventRights::Teams(vec![1]));
    assert_eq!(EventRights::Server, EventRights::Server);
    assert_ne!(EventRights::Server, EventRights::Team(1));
    assert_ne!(EventRights::Server, EventRights::Teams(vec![1]));
    assert_eq!(EventRights::Team(1), EventRights::Team(1));
    assert_ne!(EventRights::Team(1), EventRights::Team(2));
    assert_eq!(EventRights::Teams(vec![1, 2]), EventRights::Teams(vec![1, 2]));
    assert_ne!(EventRights::Teams(vec![1, 2]), EventRights::Teams(vec![1, 3]));
    assert_ne!(EventRights::Team(1), EventRights::Teams(vec![1]));
}

#[test]
fn linked_queue_fills_missing_origin() {
    let mut queue = EventQueue::new();
    let mut linked_queue = LinkedQueue::new(&mut queue, Some(7));
    DummyEvent::trigger().fire(&mut linked_queue);
    assert_eq!(queue[0].origin(), Some(7));
}

#[test]
fn prioritized_inserts_at_front() {
    let mut queue = EventQueue::new();
    ResetEntropy::trigger().fire(&mut queue);
    DummyEvent::trigger().fire(&mut Prioritized::new(&mut queue));
    assert_eq!(queue[0].kind(), EventKind::DummyEvent);
    assert_eq!(queue[1].kind(), EventKind::ResetEntropy);
}

#[test]
fn unit_processor_accepts_nothing() {
    let mut processor = ();
    assert_eq!(
        DummyEvent::trigger().fire(&mut processor),
        Err(WeaselError::EmptyEventProcessor)
    );
}

#[test]
fn decorators_compose_keep_event() {
    let prototype = Originated::new(
        Conditional::new(CreateTeam::trigger(3), Condition::TeamsCount(0)),
        9,
    )
    .prototype();
    assert_eq!(prototype.origin(), Some(9));
    assert_eq!(prototype.condition(), Some(Condition::TeamsCount(0)));
    assert_eq!(prototype.kind(), EventKind::CreateTeam);
    let swapped = Conditional::new(
        Originated::new(CreateTeam::trigger(3), 9),
        Condition::TeamsCount(0),
    )
    .prototype();
    assert_eq!(swapped.origin(), Some(9));
    assert_eq!(swapped.condition(), Some(Condition::TeamsCount(0)));
}

#[test]
fn failing_sink_is_disconnected_once() {
    let mut multi = MultiClientSink::new();
    let broken = Sink::new(1, false);
    let counter = broken.disconnections.clone();
    assert_eq!(multi.add(Sink::new(0, true)), Ok(()));
    assert_eq!(multi.add(broken), Ok(()));
    assert_eq!(multi.add(Sink::new(2, true)), Ok(()));
    let delivered = multi.send_all(&dummy_versioned());
    assert_eq!(delivered, vec![true, false, true]);
    assert_eq!(counter.get(), 1);
    assert_eq!(multi.sink_ids(), vec![0, 2]);
    multi.send_all(&dummy_versioned());
    assert_eq!(counter.get(), 1);
}

#[test]
fn duplicated_sink_leaves_registry_unchanged() {
    let mut multi = MultiClientSink::new();
    assert_eq!(multi.add(Sink::new(5, true)), Ok(()));
    assert_eq!(multi.add(Sink::new(6, true)), Ok(()));
    assert_eq!(multi.add(Sink::new(5, true)), Err(WeaselError::DuplicatedEventSink(5)));
    assert_eq!(multi.len(), 2);
    assert_eq!(multi.sink_ids(), vec![5, 6]);
}

#[test]
fn range_normalization() {
    assert_eq!(normalize_range(1..3, 3), Ok(1..3));
    assert_eq!(normalize_range(3..3, 3), Ok(3..3));
    assert_eq!(normalize_range(2..1, 3), Err(WeaselError::InvalidEventRange(2, 1, 3)));
    assert_eq!(normalize_range(0..4, 3), Err(WeaselError::InvalidEventRange(0, 4, 3)));
}

#[test]
fn sinks_catch_up_on_history() {
    let mut server = server();
    for _ in 0..3 {
        assert_eq!(DummyEvent::trigger().fire(&mut server), Ok(()));
    }
    let mut sinks = server.client_sinks_mut();
    assert_eq!(sinks.add_sink_from(Sink::new(1, true), 1), Ok(()));
    assert_eq!(
        sinks.add_sink_range(Sink::new(2, true), 2..4),
        Err(WeaselError::InvalidEventRange(2, 4, 3))
    );
    assert_eq!(sinks.send_range(1, 0..3), Ok(()));
    assert_eq!(sinks.send_range(9, 0..3), Err(WeaselError::EventSinkNotFound(9)));
    assert_eq!(sinks.add_sink_range(Sink::new(3, false), 0..2), Err(WeaselError::EventSinkError("broken".to_string())));
    assert_eq!(sinks.sinks().len(), 1);
    sinks.remove_sink(1);
    assert_eq!(sinks.sinks().len(), 0);
}

#[test]
fn broadcast_removes_failing_sink() {
    let mut server = server();
    let broken = Sink::new(1, false);
    let counter = broken.disconnections.clone();
    assert_eq!(server.client_sinks_mut().add_sink(Sink::new(0, true)), Ok(()));
    assert_eq!(server.client_sinks_mut().add_sink(broken), Ok(()));
    assert_eq!(DummyEvent::trigger().fire(&mut server), Ok(()));
    assert_eq!(server.client_sinks().sinks().len(), 1);
    assert_eq!(counter.get(), 1);
    assert_eq!(DummyEvent::trigger().fire(&mut server), Ok(()));
    assert_eq!(server.battle().history().len(), 2);
}

#[test]
fn promote_keeps_origin() {
    let mut prototype: EventPrototype = DummyEvent::trigger().prototype();
    prototype.set_origin(Some(4));
    let wrapper = prototype.promote(11);
    assert_eq!(wrapper.id(), 11);
    assert_eq!(wrapper.origin(), Some(4));
    let versioned = wrapper.version(2);
    assert_eq!(versioned.version(), 2);
    assert_eq!(versioned.wrapper().kind(), EventKind::DummyEvent);
    let _ = EntityId::Creature(1);
}

#[test]
fn option_processor() {
    let mut none: Option<EventQueue> = None;
    DummyEvent::trigger().fire(&mut none);
    assert!(none.is_none());
    let mut some: Option<EventQueue> = Some(EventQueue::new());
    DummyEvent::trigger().fire(&mut some);
    assert_eq!(some.unwrap().len(), 1);
}

#[test]
fn server_processes_queue_of_prototypes() {
    let mut server = server();
    let mut queue = EventQueue::new();
    CreateTeam::trigger(1).fire(&mut queue);
    CreateTeam::trigger(1).fire(&mut queue);
    DummyEvent::trigger().fire(&mut queue);
    let results: Vec<WeaselResult<()>> = queue.into_iter().map(|p| server.process(p)).collect();
    assert_eq!(results, vec![Ok(()), Err(WeaselError::DuplicatedTeam(1)), Ok(())]);
    assert_eq!(server.battle().history().len(), 2);
    assert_eq!(server.battle().history().events()[1].kind(), EventKind::DummyEvent);
}
