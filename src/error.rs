//! Errors reported by the battle engine.
use crate::entity::{CreatureId, EntityId, ObjectId, StatisticId, StatusId, TeamId};
use crate::event::{EventId, EventSinkId, PlayerId, Version};
use vstd::prelude::*;

verus! {

/// Every recoverable failure of the engine.
///
/// Failures raised while verifying an event leave the world untouched.
#[derive(Debug, Clone, PartialEq)]
pub enum WeaselError {
    /// A team with this id already exists.
    DuplicatedTeam(TeamId),
    /// No team with this id exists.
    TeamNotFound(TeamId),
    /// A creature with this id already exists.
    DuplicatedCreature(CreatureId),
    /// No creature with this id exists.
    CreatureNotFound(CreatureId),
    /// An object with this id already exists.
    DuplicatedObject(ObjectId),
    /// No object with this id exists.
    ObjectNotFound(ObjectId),
    /// No entity with this id exists.
    EntityNotFound(EntityId),
    /// The entity can't act: only creatures are actors.
    NotAnActor(EntityId),
    /// The rules don't let the actor start a round.
    ActorNotEligible(EntityId),
    /// A round is already in progress.
    RoundInProgress,
    /// No round is in progress.
    NoRoundInProgress,
    /// The entity is not afflicted by this status.
    StatusNotPresent(EntityId, StatusId),
    /// The entity has no statistic with this id.
    StatisticNotFound(EntityId, StatisticId),
    /// Altering the statistic would leave the range of its value type.
    StatisticOutOfRange(EntityId, StatisticId),
    /// Every event id has been assigned: the history can't grow any more.
    HistoryFull,
    /// A received event does not have the next id: its id, and the one expected.
    NonContiguousEventId(EventId, EventId),
    /// A sink with this id is already registered.
    DuplicatedEventSink(EventSinkId),
    /// No sink with this id is registered.
    EventSinkNotFound(EventSinkId),
    /// A sink failed to deliver an event.
    EventSinkError(String),
    /// A malformed range of event ids: its start, its end and the history length.
    InvalidEventRange(EventId, EventId, EventId),
    /// The player, if any, lacks the rights to fire the event.
    AuthenticationError(Option<PlayerId>),
    /// The event was produced under another version of the rules.
    IncompatibleVersions(Version, Version),
    /// The processor accepts no event.
    EmptyEventProcessor,
}

/// The result type of the engine's fallible operations.
pub type WeaselResult<T> = Result<T, WeaselError>;

} // verus!
