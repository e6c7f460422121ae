//! Events: the only way to change a battle.
//!
//! A trigger builds an [`EventPrototype`]; a processor takes it. The battle verifies and
//! applies it, then gives it an id: it becomes an [`EventWrapper`] in the history.
use crate::entity::{EntityId, StatusId, TeamId};
use crate::entropy::ResetEntropy;
use crate::error::{WeaselError, WeaselResult};
use crate::creature::{ConcludeObjectives, CreateCreature, CreateTeam, RemoveCreature};
use crate::object::{CreateObject, RemoveObject};
use crate::round::{EndRound, EnvironmentRound, ResetRounds, StartRound};
use crate::status::{AlterStatistics, ClearStatus, InflictStatus};
use vstd::prelude::*;

verus! {

/// Id of an event: its position in the history.
pub type EventId = u32;

/// Id of an event sink.
pub type EventSinkId = u16;

/// Id of a player.
pub type PlayerId = u64;

/// Version of the battle rules.
pub type Version = u32;

/// The kind of an event, to tell events apart without looking at their content.
#[derive(Clone, Copy, Debug, PartialEq, Eq, Structural)]
pub enum EventKind {
    /// An event doing nothing.
    DummyEvent,
    /// Create a new team.
    CreateTeam,
    /// Create a new creature.
    CreateCreature,
    /// Create a new object.
    CreateObject,
    /// Start a new round.
    StartRound,
    /// End the current round.
    EndRound,
    /// Perform a round for the environment.
    EnvironmentRound,
    /// Modify the statistics of a character.
    AlterStatistics,
    /// Inflict a status effect on a character.
    InflictStatus,
    /// Free a character from a status effect.
    ClearStatus,
    /// Remove a creature from the battle.
    RemoveCreature,
    /// Remove an object from the battle.
    RemoveObject,
    /// Reset the entropy model.
    ResetEntropy,
    /// Reset the rounds model.
    ResetRounds,
    /// Record the outcome of a team's objectives.
    ConcludeObjectives,
}

/// Who may fire a given event.
#[derive(Clone, Debug)]
pub enum EventRights {
    /// Everyone.
    Everyone,
    /// Only the server.
    Server,
    /// The server, or a player with rights to this team.
    Team(TeamId),
    /// The server, or a player with rights to all of these teams.
    Teams(Vec<TeamId>),
}

impl EventRights {
    /// Whether two rights are equal; the teams of `Teams` are compared in order.
    pub open spec fn spec_eq(&self, other: &EventRights) -> bool {
        match (self, other) {
            (EventRights::Everyone, EventRights::Everyone) => true,
            (EventRights::Server, EventRights::Server) => true,
            (EventRights::Team(a), EventRights::Team(b)) => a == b,
            (EventRights::Teams(a), EventRights::Teams(b)) => a@ == b@,
            _ => false,
        }
    }
}

impl PartialEq for EventRights {
    fn eq(&self, other: &EventRights) -> (r: bool)
        ensures
            r == self.spec_eq(other),
    {
        match (self, other) {
            (EventRights::Everyone, EventRights::Everyone) => true,
            (EventRights::Server, EventRights::Server) => true,
            (EventRights::Team(a), EventRights::Team(b)) => *a == *b,
            (EventRights::Teams(a), EventRights::Teams(b)) => {
                if a.len() != b.len() {
                    proof {
                        assert(a@.len() != b@.len());
                    }
                    return false;
                }
                let mut i: usize = 0;
                while i < a.len()
                    invariant
                        i <= a@.len(),
                        a@.len() == b@.len(),
                        self.spec_eq(other) == (a@ == b@),
                        forall|j: int| 0 <= j < i ==> a@[j] == b@[j],
                    decreases a.len() - i,
                {
                    if a[i] != b[i] {
                        proof {
                            assert(a@[i as int] != b@[i as int]);
                        }
                        return false;
                    }
                    i += 1;
                }
                proof {
                    assert(a@ =~= b@);
                }
                true
            },
            _ => false,
        }
    }
}

impl vstd::std_specs::cmp::PartialEqSpecImpl for EventRights {
    open spec fn obeys_eq_spec() -> bool {
        true
    }

    open spec fn eq_spec(&self, other: &EventRights) -> bool {
        self.spec_eq(other)
    }
}

/// Whether the player has rights to every one of the teams.
pub open spec fn allows_teams(table: Seq<(PlayerId, TeamId)>, player: Option<PlayerId>, teams: Seq<TeamId>) -> bool {
    player matches Some(p) && forall|i: int| 0 <= i < teams.len() ==> table.contains((p, #[trigger] teams[i]))
}

/// Whether `player` may fire an event that requires `rights`, by the table of the teams
/// each player controls. Without a player, only events open to everyone are accepted.
pub open spec fn spec_allows(table: Seq<(PlayerId, TeamId)>, player: Option<PlayerId>, rights: EventRights) -> bool {
    match rights {
        EventRights::Everyone => true,
        EventRights::Server => false,
        EventRights::Team(t) => player matches Some(p) && table.contains((p, t)),
        EventRights::Teams(ts) => allows_teams(table, player, ts@),
    }
}

/// An event that does nothing.
#[derive(Clone, Copy, Debug, PartialEq, Eq, Structural)]
pub struct DummyEvent {}

impl DummyEvent {
    /// Returns a trigger for this event.
    pub fn trigger() -> (r: DummyEventTrigger)
        ensures
            r == (DummyEventTrigger {}),
    {
        DummyEventTrigger {}
    }
}

/// Trigger to build and fire a `DummyEvent`.
#[derive(Clone, Copy, Debug, PartialEq, Eq, Structural)]
pub struct DummyEventTrigger {}

impl EventTrigger for DummyEventTrigger {
    open spec fn spec_prototype(self) -> EventPrototype {
        EventPrototype::spec_new(Event::DummyEvent(DummyEvent {}))
    }

    fn prototype(self) -> (r: EventPrototype) {
        EventPrototype::new(Event::DummyEvent(DummyEvent {}))
    }
}

/// The content of an event: one variant for each kind.
#[derive(Debug)]
pub enum Event {
    /// See [`DummyEvent`].
    DummyEvent(DummyEvent),
    /// See [`CreateTeam`].
    CreateTeam(CreateTeam),
    /// See [`CreateCreature`].
    CreateCreature(CreateCreature),
    /// See [`CreateObject`].
    CreateObject(CreateObject),
    /// See [`StartRound`].
    StartRound(StartRound),
    /// See [`EndRound`].
    EndRound(EndRound),
    /// See [`EnvironmentRound`].
    EnvironmentRound(EnvironmentRound),
    /// See [`AlterStatistics`].
    AlterStatistics(AlterStatistics),
    /// See [`InflictStatus`].
    InflictStatus(InflictStatus),
    /// See [`ClearStatus`].
    ClearStatus(ClearStatus),
    /// See [`RemoveCreature`].
    RemoveCreature(RemoveCreature),
    /// See [`RemoveObject`].
    RemoveObject(RemoveObject),
    /// See [`ResetEntropy`].
    ResetEntropy(ResetEntropy),
    /// See [`ResetRounds`].
    ResetRounds(ResetRounds),
    /// See [`ConcludeObjectives`].
    ConcludeObjectives(ConcludeObjectives),
}

impl Clone for Event {
    fn clone(&self) -> (r: Event)
        ensures
            r.spec_kind() == self.spec_kind(),
    {
        match self {
            Event::DummyEvent(e) => Event::DummyEvent(e.clone()),
            Event::CreateTeam(e) => Event::CreateTeam(e.clone()),
            Event::CreateCreature(e) => Event::CreateCreature(e.clone()),
            Event::CreateObject(e) => Event::CreateObject(e.clone()),
            Event::StartRound(e) => Event::StartRound(e.clone()),
            Event::EndRound(e) => Event::EndRound(e.clone()),
            Event::EnvironmentRound(e) => Event::EnvironmentRound(e.clone()),
            Event::AlterStatistics(e) => Event::AlterStatistics(e.clone()),
            Event::InflictStatus(e) => Event::InflictStatus(e.clone()),
            Event::ClearStatus(e) => Event::ClearStatus(e.clone()),
            Event::RemoveCreature(e) => Event::RemoveCreature(e.clone()),
            Event::RemoveObject(e) => Event::RemoveObject(e.clone()),
            Event::ResetEntropy(e) => Event::ResetEntropy(e.clone()),
            Event::ResetRounds(e) => Event::ResetRounds(e.clone()),
            Event::ConcludeObjectives(e) => Event::ConcludeObjectives(e.clone()),
        }
    }
}

impl Event {
    /// The kind of this event.
    pub open spec fn spec_kind(&self) -> EventKind {
        match self {
            Event::DummyEvent(_) => EventKind::DummyEvent,
            Event::CreateTeam(_) => EventKind::CreateTeam,
            Event::CreateCreature(_) => EventKind::CreateCreature,
            Event::CreateObject(_) => EventKind::CreateObject,
            Event::StartRound(_) => EventKind::StartRound,
            Event::EndRound(_) => EventKind::EndRound,
            Event::EnvironmentRound(_) => EventKind::EnvironmentRound,
            Event::AlterStatistics(_) => EventKind::AlterStatistics,
            Event::InflictStatus(_) => EventKind::InflictStatus,
            Event::ClearStatus(_) => EventKind::ClearStatus,
            Event::RemoveCreature(_) => EventKind::RemoveCreature,
            Event::RemoveObject(_) => EventKind::RemoveObject,
            Event::ResetEntropy(_) => EventKind::ResetEntropy,
            Event::ResetRounds(_) => EventKind::ResetRounds,
            Event::ConcludeObjectives(_) => EventKind::ConcludeObjectives,
        }
    }

    /// How deep the chain of events that this one may generate goes: an event only
    /// generates events of a lower rank.
    pub open spec fn rank(&self) -> nat {
        match self {
            Event::StartRound(_) | Event::EnvironmentRound(_) => 2,
            Event::InflictStatus(_) | Event::ClearStatus(_) | Event::EndRound(_) => 1,
            _ => 0,
        }
    }

    /// Returns the kind of this event.
    pub fn kind(&self) -> (r: EventKind)
        ensures
            r == self.spec_kind(),
    {
        match self {
            Event::DummyEvent(_) => EventKind::DummyEvent,
            Event::CreateTeam(_) => EventKind::CreateTeam,
            Event::CreateCreature(_) => EventKind::CreateCreature,
            Event::CreateObject(_) => EventKind::CreateObject,
            Event::StartRound(_) => EventKind::StartRound,
            Event::EndRound(_) => EventKind::EndRound,
            Event::EnvironmentRound(_) => EventKind::EnvironmentRound,
            Event::AlterStatistics(_) => EventKind::AlterStatistics,
            Event::InflictStatus(_) => EventKind::InflictStatus,
            Event::ClearStatus(_) => EventKind::ClearStatus,
            Event::RemoveCreature(_) => EventKind::RemoveCreature,
            Event::RemoveObject(_) => EventKind::RemoveObject,
            Event::ResetEntropy(_) => EventKind::ResetEntropy,
            Event::ResetRounds(_) => EventKind::ResetRounds,
            Event::ConcludeObjectives(_) => EventKind::ConcludeObjectives,
        }
    }
}

/// A predicate over the battle that a prototype must meet when it is processed, or be
/// dropped.
#[derive(Clone, Copy, Debug, PartialEq, Eq, Structural)]
pub enum Condition {
    /// Holds, or not, whatever the battle.
    Constant(bool),
    /// The entity exists.
    EntityExists(EntityId),
    /// The battle has exactly this many teams.
    TeamsCount(usize),
    /// A round is in progress.
    RoundInProgress,
    /// No round is in progress.
    NoRoundInProgress,
    /// The entity exists and is afflicted by the status.
    HasStatus(EntityId, StatusId),
}

/// A tentative event, not yet verified nor given an id.
#[derive(Clone, Debug)]
pub struct EventPrototype {
    /// Id of the event that generated this one.
    pub origin: Option<EventId>,
    /// The event itself.
    pub event: Event,
    /// What must hold when the prototype is processed.
    pub condition: Option<Condition>,
}

impl EventPrototype {
    /// A prototype of the event, with no origin nor condition.
    pub open spec fn spec_new(event: Event) -> EventPrototype {
        EventPrototype { origin: None, event, condition: None }
    }

    /// The origin.
    pub open spec fn spec_origin(&self) -> Option<EventId> {
        self.origin
    }

    /// The event.
    pub open spec fn spec_event(&self) -> Event {
        self.event
    }

    /// The condition.
    pub open spec fn spec_condition(&self) -> Option<Condition> {
        self.condition
    }

    /// Creates a prototype of the event, with no origin nor condition.
    pub fn new(event: Event) -> (r: EventPrototype)
        ensures
            r == EventPrototype::spec_new(event),
    {
        EventPrototype { origin: None, event, condition: None }
    }

    /// Gives the prototype an id: the event is then part of the history.
    pub fn promote(self, id: EventId) -> (r: EventWrapper)
        ensures
            r == (EventWrapper { id, origin: self.origin, event: self.event }),
    {
        EventWrapper { id, origin: self.origin, event: self.event }
    }

    /// Returns the id of the event that caused this one.
    pub fn origin(&self) -> (r: Option<EventId>)
        ensures
            r == self.origin,
    {
        self.origin
    }

    /// Sets the origin of this prototype.
    pub fn set_origin(&mut self, origin: Option<EventId>)
        ensures
            *final(self) == (EventPrototype { origin, ..*old(self) }),
    {
        self.origin = origin;
    }

    /// Returns the event.
    pub fn event(&self) -> (r: &Event)
        ensures
            *r == self.event,
    {
        &self.event
    }

    /// Returns the condition of this prototype.
    pub fn condition(&self) -> (r: Option<Condition>)
        ensures
            r == self.condition,
    {
        self.condition
    }

    /// Sets the condition of this prototype.
    pub fn set_condition(&mut self, condition: Option<Condition>)
        ensures
            *final(self) == (EventPrototype { condition, ..*old(self) }),
    {
        self.condition = condition;
    }

    /// Returns the kind of the event.
    pub fn kind(&self) -> (r: EventKind)
        ensures
            r == self.event.spec_kind(),
    {
        self.event.kind()
    }

    /// Turns this prototype into one for a server, made under the given rules version by
    /// the given player. The condition is dropped.
    pub fn client_prototype(self, version: Version, player: Option<PlayerId>) -> (r:
        ClientEventPrototype)
        ensures
            r == (ClientEventPrototype { origin: self.origin, event: self.event, version, player }),
    {
        ClientEventPrototype::new(self.origin, self.event, version, player)
    }
}

/// An event prototype sent by a client to a server, to be verified there.
#[derive(Clone, Debug)]
pub struct ClientEventPrototype {
    pub origin: Option<EventId>,
    pub event: Event,
    pub version: Version,
    pub player: Option<PlayerId>,
}

impl ClientEventPrototype {
    /// Creates a client prototype.
    pub fn new(
        origin: Option<EventId>,
        event: Event,
        version: Version,
        player: Option<PlayerId>,
    ) -> (r: ClientEventPrototype)
        ensures
            r == (ClientEventPrototype { origin, event, version, player }),
    {
        ClientEventPrototype { origin, event, version, player }
    }

    /// Returns the rules version under which the event was made.
    pub fn version(&self) -> (r: Version)
        ensures
            r == self.version,
    {
        self.version
    }

    /// Returns the id of the event that caused this one.
    pub fn origin(&self) -> (r: Option<EventId>)
        ensures
            r == self.origin,
    {
        self.origin
    }

    /// Returns the event.
    pub fn event(&self) -> (r: &Event)
        ensures
            *r == self.event,
    {
        &self.event
    }

    /// Turns this client prototype into a prototype without a condition.
    pub fn prototype(self) -> (r: EventPrototype)
        ensures
            r == (EventPrototype { origin: self.origin, event: self.event, condition: None }),
    {
        EventPrototype { origin: self.origin, event: self.event, condition: None }
    }

    /// Stamps this prototype with the identity of `player`, as a server does for events
    /// coming from a remote client.
    pub fn authenticate(&mut self, player: PlayerId)
        ensures
            *final(self) == (ClientEventPrototype { player: Some(player), ..*old(self) }),
    {
        self.player = Some(player);
    }

    /// Returns the player who fired this prototype.
    pub fn player(&self) -> (r: Option<PlayerId>)
        ensures
            r == self.player,
    {
        self.player
    }
}

/// A verified event with its id and its origin.
#[derive(Debug)]
pub struct EventWrapper {
    pub id: EventId,
    pub origin: Option<EventId>,
    pub event: Event,
}

impl Clone for EventWrapper {
    fn clone(&self) -> (r: EventWrapper)
        ensures
            r.id == self.id,
            r.origin == self.origin,
            r.event.spec_kind() == self.event.spec_kind(),
    {
        let event = self.event.clone();
        EventWrapper { id: self.id, origin: self.origin, event }
    }
}

impl EventWrapper {
    /// Returns this event's id.
    pub fn id(&self) -> (r: EventId)
        ensures
            r == self.id,
    {
        self.id
    }

    /// Returns the id of the event that caused this one.
    pub fn origin(&self) -> (r: Option<EventId>)
        ensures
            r == self.origin,
    {
        self.origin
    }

    /// Returns the event.
    pub fn event(&self) -> (r: &Event)
        ensures
            *r == self.event,
    {
        &self.event
    }

    /// Returns the kind of the event.
    pub fn kind(&self) -> (r: EventKind)
        ensures
            r == self.event.spec_kind(),
    {
        self.event.kind()
    }

    /// Decorates this event with the rules version.
    pub fn version(self, version: Version) -> (r: VersionedEventWrapper)
        ensures
            r == (VersionedEventWrapper { wrapper: self, version }),
    {
        VersionedEventWrapper { wrapper: self, version }
    }
}

/// A verified event decorated with the version of the rules that applied it.
#[derive(Clone, Debug)]
pub struct VersionedEventWrapper {
    pub wrapper: EventWrapper,
    pub version: Version,
}

impl VersionedEventWrapper {
    /// Returns the wrapped event.
    pub fn wrapper(&self) -> (r: &EventWrapper)
        ensures
            *r == self.wrapper,
    {
        &self.wrapper
    }

    /// Returns the rules version of the event.
    pub fn version(&self) -> (r: Version)
        ensures
            r == self.version,
    {
        self.version
    }
}

/// A queue of prototypes, in order of insertion.
pub type EventQueue = Vec<EventPrototype>;

/// The output of a processor, with a value that means success.
pub trait DefaultOutput: Sized {
    /// The error type.
    type Error;

    /// The value that means success.
    spec fn spec_ok() -> Self;

    /// Returns the value that means success.
    fn ok() -> (r: Self)
        ensures
            r == Self::spec_ok(),
    ;

    /// Returns the error, if this output is one.
    fn err(self) -> Option<Self::Error>;
}

impl DefaultOutput for () {
    type Error = ();

    open spec fn spec_ok() -> () {
        ()
    }

    fn ok() {
    }

    fn err(self) -> Option<()> {
        None
    }
}

impl DefaultOutput for WeaselResult<()> {
    type Error = WeaselError;

    open spec fn spec_ok() -> WeaselResult<()> {
        Ok(())
    }

    fn ok() -> (r: WeaselResult<()>) {
        Ok(())
    }

    fn err(self) -> (r: Option<WeaselError>)
        ensures
            r == (match self {
                Ok(_) => None,
                Err(e) => Some(e),
            }),
    {
        match self {
            Ok(_) => None,
            Err(e) => Some(e),
        }
    }
}

/// Something that takes event prototypes.
pub trait EventProcessor: Sized {
    /// What processing a prototype returns.
    type ProcessOutput;

    /// Whether the processor can take a prototype.
    spec fn ready(&self) -> bool;

    /// What processing `event` did, from `before` to `after`, returning `out`.
    spec fn processed(before: Self, event: EventPrototype, after: Self, out: Self::ProcessOutput) -> bool;

    /// Processes a prototype.
    fn process(&mut self, event: EventPrototype) -> (r: Self::ProcessOutput)
        requires
            old(self).ready(),
        ensures
            Self::processed(*old(self), event, *final(self), r),
    ;
}

impl EventProcessor for EventQueue {
    type ProcessOutput = ();

    open spec fn ready(&self) -> bool {
        true
    }

    open spec fn processed(before: Self, event: EventPrototype, after: Self, out: ()) -> bool {
        after@ == before@.push(event)
    }

    fn process(&mut self, event: EventPrototype) {
        self.push(event);
    }
}

impl EventProcessor for () {
    type ProcessOutput = WeaselResult<()>;

    open spec fn ready(&self) -> bool {
        true
    }

    open spec fn processed(before: Self, event: EventPrototype, after: Self, out: WeaselResult<()>) -> bool {
        out == Err::<(), WeaselError>(WeaselError::EmptyEventProcessor)
    }

    fn process(&mut self, event: EventPrototype) -> (r: WeaselResult<()>) {
        Err(WeaselError::EmptyEventProcessor)
    }
}

impl<T: EventProcessor> EventProcessor for Option<T> where T::ProcessOutput: DefaultOutput {
    type ProcessOutput = T::ProcessOutput;

    open spec fn ready(&self) -> bool {
        match self {
            Some(t) => t.ready(),
            None => true,
        }
    }

    open spec fn processed(before: Self, event: EventPrototype, after: Self, out: T::ProcessOutput) -> bool {
        match before {
            Some(t) => after matches Some(u) && T::processed(t, event, u, out),
            None => after is None && out == T::ProcessOutput::spec_ok(),
        }
    }

    fn process(&mut self, event: EventPrototype) -> (r: T::ProcessOutput) {
        match self {
            Some(processor) => processor.process(event),
            None => T::ProcessOutput::ok(),
        }
    }
}

/// A builder of one event prototype.
pub trait EventTrigger: Sized {
    /// The prototype that this trigger builds.
    spec fn spec_prototype(self) -> EventPrototype;

    /// Returns the prototype that this trigger builds.
    fn prototype(self) -> (r: EventPrototype)
        ensures
            r == self.spec_prototype(),
    ;

    /// Returns the event that this trigger builds.
    fn event(self) -> (r: Event)
        ensures
            r == self.spec_prototype().event,
    {
        self.prototype().event
    }

    /// Builds the prototype and hands it to `processor`.
    fn fire<P: EventProcessor>(self, processor: &mut P) -> (r: P::ProcessOutput)
        requires
            old(processor).ready(),
        ensures
            P::processed(*old(processor), self.spec_prototype(), *final(processor), r),
    {
        let prototype = self.prototype();
        processor.process(prototype)
    }
}

/// A processor that puts prototypes at the front of a queue instead of its back.
pub struct Prioritized<'a> {
    pub event_queue: &'a mut EventQueue,
}

impl<'a> Prioritized<'a> {
    /// Creates the decorator for `event_queue`.
    pub fn new(event_queue: &'a mut EventQueue) -> (r: Prioritized<'a>)
        ensures
            *r.event_queue == *old(event_queue),
            *final(r.event_queue) == *final(event_queue),
    {
        Prioritized { event_queue }
    }
}

impl<'a> EventProcessor for Prioritized<'a> {
    type ProcessOutput = ();

    open spec fn ready(&self) -> bool {
        true
    }

    open spec fn processed(before: Self, event: EventPrototype, after: Self, out: ()) -> bool {
        after.event_queue@ == seq![event] + before.event_queue@
    }

    fn process(&mut self, event: EventPrototype) {
        self.event_queue.insert(0, event);
        proof {
            assert(self.event_queue@ =~= seq![event] + old(self).event_queue@);
        }
    }
}

/// A processor that sets the origin of prototypes without one, then puts them at the back
/// of a queue.
pub struct LinkedQueue<'a> {
    pub event_queue: &'a mut EventQueue,
    pub origin: Option<EventId>,
}

impl<'a> LinkedQueue<'a> {
    /// Creates the decorator for `event_queue`, linking prototypes to `origin`.
    pub fn new(event_queue: &'a mut EventQueue, origin: Option<EventId>) -> (r: LinkedQueue<'a>)
        ensures
            *r.event_queue == *old(event_queue),
            *final(r.event_queue) == *final(event_queue),
            r.origin == origin,
    {
        LinkedQueue { event_queue, origin }
    }
}

/// The prototype with its origin set to `origin`, unless it has one.
pub open spec fn linked(event: EventPrototype, origin: Option<EventId>) -> EventPrototype {
    if event.origin is None {
        EventPrototype { origin, ..event }
    } else {
        event
    }
}

impl<'a> EventProcessor for LinkedQueue<'a> {
    type ProcessOutput = ();

    open spec fn ready(&self) -> bool {
        true
    }

    open spec fn processed(before: Self, event: EventPrototype, after: Self, out: ()) -> bool {
        &&& after.event_queue@ == before.event_queue@.push(linked(event, before.origin))
        &&& after.origin == before.origin
    }

    fn process(&mut self, event: EventPrototype) {
        let mut event = event;
        if event.origin().is_none() {
            event.set_origin(self.origin);
        }
        self.event_queue.push(event);
    }
}

/// A trigger decorator that adds a condition to the prototype.
pub struct Conditional<T: EventTrigger> {
    pub trigger: T,
    pub condition: Condition,
}

impl<T: EventTrigger> Conditional<T> {
    /// The decorator of `trigger` with `condition`.
    pub open spec fn spec_new(trigger: T, condition: Condition) -> Conditional<T> {
        Conditional { trigger, condition }
    }

    /// Creates a decorator that adds `condition` to what `trigger` builds.
    pub fn new(trigger: T, condition: Condition) -> (r: Conditional<T>)
        ensures
            r == Conditional::spec_new(trigger, condition),
    {
        Conditional { trigger, condition }
    }
}

impl<T: EventTrigger> EventTrigger for Conditional<T> {
    open spec fn spec_prototype(self) -> EventPrototype {
        EventPrototype { condition: Some(self.condition), ..self.trigger.spec_prototype() }
    }

    fn prototype(self) -> (r: EventPrototype) {
        let mut prototype = self.trigger.prototype();
        prototype.set_condition(Some(self.condition));
        prototype
    }
}

/// A trigger decorator that sets the origin of the prototype.
pub struct Originated<T: EventTrigger> {
    pub trigger: T,
    pub origin: EventId,
}

impl<T: EventTrigger> Originated<T> {
    /// The decorator of `trigger` with `origin`.
    pub open spec fn spec_new(trigger: T, origin: EventId) -> Originated<T> {
        Originated { trigger, origin }
    }

    /// Creates a decorator that gives what `trigger` builds the origin `origin`.
    pub fn new(trigger: T, origin: EventId) -> (r: Originated<T>)
        ensures
            r == Originated::spec_new(trigger, origin),
    {
        Originated { trigger, origin }
    }
}

impl<T: EventTrigger> EventTrigger for Originated<T> {
    open spec fn spec_prototype(self) -> EventPrototype {
        EventPrototype { origin: Some(self.origin), ..self.trigger.spec_prototype() }
    }

    fn prototype(self) -> (r: EventPrototype) {
        let mut prototype = self.trigger.prototype();
        prototype.set_origin(Some(self.origin));
        prototype
    }
}

/// Decorators compose: giving a trigger a condition, then an origin, builds one prototype
/// with the event of the trigger, that condition and that origin.
pub proof fn lemma_decorators_compose<T: EventTrigger>(trigger: T, condition: Condition, origin: EventId)
    ensures
        Originated::spec_new(Conditional::spec_new(trigger, condition), origin).spec_prototype()
            == (EventPrototype {
            origin: Some(origin),
            event: trigger.spec_prototype().event,
            condition: Some(condition),
        }),
        Conditional::spec_new(Originated::spec_new(trigger, origin), condition).spec_prototype()
            == (EventPrototype {
            origin: Some(origin),
            event: trigger.spec_prototype().event,
            condition: Some(condition),
        }),
{
}

} // verus!
