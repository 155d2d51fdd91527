//! The closed taxonomy of failures. Every public fallible operation of the
//! library returns one of these variants.

use vstd::prelude::*;

use crate::model::{ActorId, AttributeTag, Milli, ObjectId, PlayerId, UpdatedAttribute};

verus! {

/// Every specific failure the replay engine can report.
#[derive(Debug, Clone)]
pub enum SubtrActorErrorVariant {
    /// The replay has no network frames.
    NoNetworkFrames,
    /// A frame index does not name a frame of the replay.
    FrameIndexOutOfBounds,
    /// Players found in frames were not part of the original roster.
    InconsistentPlayerSet { found: Vec<PlayerId>, original: Vec<PlayerId> },
    /// No update for the actor and object was found beyond the given frame.
    NoUpdateAfterFrame { actor_id: ActorId, object_id: ObjectId, frame_index: usize },
    /// An attribute value was not of the expected kind.
    UnexpectedAttributeType { expected_type: AttributeTag, actual_type: AttributeTag },
    /// No player id maps to this actor id.
    NoMatchingPlayerId { actor_id: ActorId },
    /// No game-event actor exists.
    NoGameActor,
    /// A new actor was announced under an id that is live with a different
    /// object id.
    ActorIdAlreadyExists { actor_id: ActorId, object_id: ObjectId },
    /// A linked actor of the named role was not found for the player.
    ActorNotFound { name: String, player_id: PlayerId },
    /// No state is held for the actor id.
    NoStateForActorId { actor_id: ActorId },
    /// The object table holds no entry of the given name.
    ObjectIdNotFound { name: String },
    /// No derived value is stored under the given key.
    DerivedKeyValueNotFound { name: String },
    /// No ball actor has been discovered.
    BallActorNotFound,
    /// The player's team link is unknown.
    UnknownPlayerTeam { player_id: PlayerId },
    /// The team name was empty.
    EmptyTeamName { player_id: PlayerId },
    /// Sentinel used to end processing early; swallowed by the discovery pass.
    FinishProcessingEarly,
    /// The replay header carries no usable player-stats entry.
    PlayerStatsHeaderNotFound,
    /// An interpolation query was made outside `[start_time, end_time]`.
    InterpolationTimeOrderError { start_time: Milli, time: Milli, end_time: Milli },
    /// An attribute update names an actor that does not exist.
    UpdatedActorIdDoesNotExist { update: UpdatedAttribute },
    /// The named property is not present in the actor's state.
    PropertyNotFoundInState { property: String },
    /// Replay metadata could not be assembled.
    CouldNotBuildReplayMeta,
    /// The name does not denote a known feature adder.
    UnknownFeatureAdderName(String),
}

/// The error type returned by the library.
#[derive(Debug, Clone)]
pub struct SubtrActorError {
    pub variant: SubtrActorErrorVariant,
}

impl SubtrActorError {
    /// Wraps a variant.
    pub fn new(variant: SubtrActorErrorVariant) -> (r: SubtrActorError)
        ensures
            r.variant == variant,
    {
        SubtrActorError { variant }
    }

    /// Wraps a variant as the `Err` case of a result.
    pub fn new_result<T>(variant: SubtrActorErrorVariant) -> (r: Result<T, SubtrActorError>)
        ensures
            r matches Err(e) && e.variant == variant,
    {
        Err(SubtrActorError { variant })
    }
}

pub type SubtrActorResult<T> = Result<T, SubtrActorError>;

} // verus!
