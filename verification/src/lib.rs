//! Reconstruction of Rocket League replay network data: an actor-graph state
//! machine that replays frame deltas, maintains cross-actor relationship
//! indexes, derives continuous boost and demolition events, and feeds
//! pluggable collectors that turn the reconstructed world into a dense
//! feature matrix or a structured timeline.
//!
//! All scalar quantities that the wire carries as 32-bit floats (times,
//! deltas, positions, velocities, boost amounts) are held here in fixed-point
//! milli-units: an `i64` value of `1000` stands for `1.0`. Callers convert at
//! the boundary.

pub mod actor_state;
pub mod collector;
pub mod constants;
pub mod decorator;
pub mod error;
pub mod model;
pub mod ndarray;
pub mod player_map;
pub mod processor;
pub mod replay_data;
pub mod util;
pub mod vec_map;

pub use crate::collector::{Collector, TimeAdvance};
pub use crate::decorator::{FrameRateDecorator, coerce_advance};
pub use crate::ndarray::{GlobalFeatureAdder, NDArrayCollector, NDArrayColumnHeaders, PlayerFeatureAdder, ReplayMetaWithHeaders, add_global_features, add_player_features, demolisher_index, global_headers_of, player_headers_of};
pub use crate::actor_state::{ActorState, ActorStateModeler, ActorStateView, DerivedAttributes, ModelerView};
pub use crate::error::{SubtrActorError, SubtrActorErrorVariant, SubtrActorResult};
pub use crate::model::{
    ActorId, Attribute, AttributeTag, DemolishFx, Frame, HeaderProp, HeaderScalar, Milli, NewActor,
    ObjectId, PlayerId, Quaternion, RemoteId, Replay, RigidBody, UniqueId, UpdatedAttribute,
    Vector3, attribute_to_tag,
};
pub use crate::player_map::{PlayerMap, player_id_le, sort_player_ids, str_bytes_le};
pub use crate::processor::ReplayProcessor;
pub use crate::replay_data::{BallData, BallFrame, FrameData, MetadataFrame, PlayerData, PlayerFrame, ReplayData, ReplayDataCollector};
pub use crate::util::{DemolishInfo, Entry, PlayerInfo, ReplayMeta, find_player_stats, get_prop, matches_stats, name_matches, online_id_matches, platform_matches, apply_velocities_to_rigid_body, get_interpolated_rigid_body, MAX_COORD, MAX_TIME, SearchDirection, find_in_direction, get_entry, lerp_milli, muldiv_trunc};
pub use crate::vec_map::IdMap;
