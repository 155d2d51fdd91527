//! The replay processor: drives frames through the actor-state modeler,
//! maintains the cross-actor relationship indexes, derives continuous boost
//! and demolition events, and answers the queries collectors use.

use vstd::prelude::*;

use crate::actor_state::{ActorState, ActorStateModeler, ActorStateView, ModelerView, spec_process_frame};
use crate::error::{SubtrActorError, SubtrActorErrorVariant, SubtrActorResult};
use crate::model::{
    ActorId, Attribute, AttributeTag, DemolishFx, Frame, HeaderProp, Milli, ObjectId, PlayerId,
    Replay, RigidBody, UniqueId, spec_attribute_to_tag,
};
use crate::constants::MAX_DEMOLISH_KNOWN_FRAMES_PASSED;
use crate::collector::{Collector, TimeAdvance};
use crate::player_map::PlayerMap;
use crate::util::{DemolishInfo, MAX_TIME, abs_int, attribute_bounded, body_bounded, spec_find_stats_index, time_bounded};
use crate::vec_map::IdMap;

verus! {

/// Every scalar a frame carries is within the engine's ranges.
pub open spec fn frame_bounded(f: Frame) -> bool {
    &&& time_bounded(f.time as int)
    &&& 0 <= f.delta <= MAX_TIME
    &&& forall|i: int|
        0 <= i < f.updated_actors@.len() ==> attribute_bounded(
            #[trigger] f.updated_actors@[i].attribute,
        )
}

/// Every scalar the replay carries is within the engine's ranges, and the
/// object table fits object ids.
pub open spec fn replay_bounded(r: Replay) -> bool {
    &&& r.objects@.len() < 0x8000_0000
    &&& match r.network_frames {
        Some(frames) => forall|i: int|
            0 <= i < frames@.len() ==> frame_bounded(#[trigger] frames@[i]),
        None => true,
    }
}

/// No two entries of the sequence hold the same demolish value within the
/// dedup window.
pub open spec fn demolish_spacing(s: Seq<(DemolishFx, usize)>) -> bool {
    forall|i: int, j: int|
        0 <= i < j < s.len() && (#[trigger] s[i]).0 == (#[trigger] s[j]).0 ==> abs_int(
            s[j].1 - s[i].1,
        ) >= MAX_DEMOLISH_KNOWN_FRAMES_PASSED
}

/// The index of the last entry of the object table holding the name, if
/// any: a later entry shadows an earlier one of the same name.
pub open spec fn spec_find_last_object(objects: Seq<String>, name: Seq<char>, n: int) -> Option<
    int,
>
    decreases n,
{
    if n <= 0 {
        None
    } else if objects[n - 1]@ == name {
        Some(n - 1)
    } else {
        spec_find_last_object(objects, name, n - 1)
    }
}

/// The object id a name denotes, if any.
pub open spec fn spec_object_id(r: Replay, name: Seq<char>) -> Option<int> {
    spec_find_last_object(r.objects@, name, r.objects@.len() as int)
}

/// The replay processor: the parsed replay, the modeled actor states, and
/// the relationship indexes and derived state built while frames stream by.
pub struct ReplayProcessor {
    /// The replay being processed.
    pub replay: Replay,
    /// The modeled state of every live actor.
    pub actor_state: ActorStateModeler,
    /// The single ball actor, once discovered.
    pub ball_actor_id: Option<ActorId>,
    /// The canonical roster of team zero, fixed after the discovery pass.
    pub team_zero: Vec<PlayerId>,
    /// The canonical roster of team one, fixed after the discovery pass.
    pub team_one: Vec<PlayerId>,
    /// Player identity to the player's actor id.
    pub player_to_actor_id: PlayerMap<ActorId>,
    /// Player actor id to the player's car actor id.
    pub player_to_car: IdMap<ActorId>,
    /// Player actor id to the player's team actor id.
    pub player_to_team: IdMap<ActorId>,
    /// Car actor id to its boost component actor id.
    pub car_to_boost: IdMap<ActorId>,
    /// Car actor id to its jump component actor id.
    pub car_to_jump: IdMap<ActorId>,
    /// Car actor id to its double-jump component actor id.
    pub car_to_double_jump: IdMap<ActorId>,
    /// Car actor id to its dodge component actor id.
    pub car_to_dodge: IdMap<ActorId>,
    /// The demolition log.
    pub demolishes: Vec<DemolishInfo>,
    /// The demolish values of the log entries, in step with `demolishes`.
    pub demolish_fx: Ghost<Seq<DemolishFx>>,
    /// The dedup window of observed demolish values with their frames.
    pub known_demolishes: Vec<(DemolishFx, usize)>,
}

impl ReplayProcessor {
    /// The dedup window, for specifications.
    pub open spec fn known_demolishes_seq(self) -> Seq<(DemolishFx, usize)> {
        self.known_demolishes@
    }

    /// Well-formed: the maps hold each key once, the modeler is coherent
    /// and every scalar it stores is within the engine's ranges, the
    /// replay's scalars are bounded, and no two demolitions of equal value
    /// sit within the dedup window of one another — in the window and in
    /// the log.
    pub open spec fn wf(self) -> bool {
        &&& self.actor_state.wf()
        &&& self.player_to_actor_id.wf()
        &&& self.player_to_car.wf()
        &&& self.player_to_team.wf()
        &&& self.car_to_boost.wf()
        &&& self.car_to_jump.wf()
        &&& self.car_to_double_jump.wf()
        &&& self.car_to_dodge.wf()
        &&& replay_bounded(self.replay)
        &&& self.team_zero@.len() + self.team_one@.len() <= usize::MAX
        &&& demolish_log_wf(self.demolishes@, self.demolish_fx@, self.known_demolishes@)
    }

    /// Looks a name up in the object table; the last entry of that name
    /// wins. Fails with `ObjectIdNotFound` when the table holds no entry of
    /// the name.
    pub fn get_object_id_for_key(&self, name: &String) -> (r: SubtrActorResult<ObjectId>)
        requires
            self.wf(),
        ensures
            match r {
                Ok(o) => spec_object_id(self.replay, name@) == Some(o as int),
                Err(e) => spec_object_id(self.replay, name@) is None && (e.variant
                    matches SubtrActorErrorVariant::ObjectIdNotFound { name: n } && n@ == name@),
            },
    {
        let n = self.replay.objects.len();
        let mut i = n;
        while i > 0
            invariant
                n == self.replay.objects@.len(),
                i <= n,
                replay_bounded(self.replay),
                spec_find_last_object(self.replay.objects@, name@, n as int)
                    == spec_find_last_object(self.replay.objects@, name@, i as int),
            decreases i,
        {
            i -= 1;
            if self.replay.objects[i] == *name {
                return Ok(i as i32);
            }
        }
        SubtrActorError::new_result(
            SubtrActorErrorVariant::ObjectIdNotFound { name: name.clone() },
        )
    }

    /// The live actor ids of an object id, in creation order; empty when
    /// none are live.
    pub fn get_actor_ids_by_object_id(&self, object_id: ObjectId) -> (r: Vec<ActorId>)
        requires
            self.wf(),
        ensures
            r@ == if self.actor_state@.by_type.contains_key(object_id) {
                self.actor_state@.by_type[object_id]
            } else {
                Seq::<ActorId>::empty()
            },
    {
        match self.actor_state.actor_ids_by_type.get(object_id) {
            Some(ids) => {
                let m = ids.len();
                let mut r: Vec<ActorId> = Vec::new();
                for i in 0..m
                    invariant
                        m == ids@.len(),
                        r@ == ids@.take(i as int),
                {
                    r.push(ids[i]);
                    proof {
                        assert(r@ =~= ids@.take(i as int + 1));
                    }
                }
                proof {
                    assert(ids@.take(m as int) =~= ids@);
                }
                r
            },
            None => {
                let r: Vec<ActorId> = Vec::new();
                r
            },
        }
    }

    /// The live actor ids of the object named `name`.
    pub fn get_actor_ids_by_type(&self, name: &String) -> (r: SubtrActorResult<Vec<ActorId>>)
        requires
            self.wf(),
        ensures
            match r {
                Ok(ids) => (spec_object_id(self.replay, name@) matches Some(o) && ids@ == if self
                    .actor_state@.by_type.contains_key(o as i32) {
                    self.actor_state@.by_type[o as i32]
                } else {
                    Seq::<ActorId>::empty()
                }),
                Err(e) => spec_object_id(self.replay, name@) is None && (e.variant
                    matches SubtrActorErrorVariant::ObjectIdNotFound { .. }),
            },
    {
        let object_id = self.get_object_id_for_key(name)?;
        Ok(self.get_actor_ids_by_object_id(object_id))
    }

    /// The state of a live actor; `NoStateForActorId` otherwise.
    pub fn get_actor_state(&self, actor_id: ActorId) -> (r: SubtrActorResult<&ActorState>)
        requires
            self.wf(),
        ensures
            match r {
                Ok(st) => self.actor_state@.states.contains_key(actor_id) && st@
                    == self.actor_state@.states[actor_id] && st.wf()
                    && self.actor_state.actor_states@.contains_key(actor_id) && *st
                    == self.actor_state.actor_states@[actor_id],
                Err(e) => !self.actor_state@.states.contains_key(actor_id) && (e.variant
                    matches SubtrActorErrorVariant::NoStateForActorId { actor_id: a } && a
                    == actor_id),
            },
    {
        match self.actor_state.actor_states.get(actor_id) {
            Some(st) => Ok(st),
            None => SubtrActorError::new_result(
                SubtrActorErrorVariant::NoStateForActorId { actor_id },
            ),
        }
    }
}

/// The attribute stored under a property name in an attribute map, going
/// through the object table.
pub open spec fn spec_attribute_in(r: Replay, m: Map<i32, (Attribute, usize)>, name: Seq<char>)
    -> Option<(Attribute, usize)> {
    match spec_object_id(r, name) {
        Some(o) => if m.contains_key(o as i32) {
            Some(m[o as i32])
        } else {
            None
        },
        None => None,
    }
}

impl ReplayProcessor {
    /// The attribute stored under a property name, with the frame of its
    /// last update. `ObjectIdNotFound` when the name is unknown,
    /// `PropertyNotFoundInState` when the actor has no such attribute.
    pub fn get_attribute_and_updated<'b>(
        &self,
        map: &'b IdMap<(Attribute, usize)>,
        property: &String,
    ) -> (r: SubtrActorResult<&'b (Attribute, usize)>)
        requires
            self.wf(),
            map.wf(),
        ensures
            match r {
                Ok(p) => spec_attribute_in(self.replay, map@, property@) == Some(*p),
                Err(e) => spec_attribute_in(self.replay, map@, property@) is None && ((e.variant
                    matches SubtrActorErrorVariant::ObjectIdNotFound { .. }) || (e.variant
                    matches SubtrActorErrorVariant::PropertyNotFoundInState { .. })),
            },
    {
        let attribute_object_id = self.get_object_id_for_key(property)?;
        match map.get(attribute_object_id) {
            Some(p) => Ok(p),
            None => SubtrActorError::new_result(
                SubtrActorErrorVariant::PropertyNotFoundInState { property: property.clone() },
            ),
        }
    }

    /// The attribute stored under a property name.
    pub fn get_attribute<'b>(
        &self,
        map: &'b IdMap<(Attribute, usize)>,
        property: &String,
    ) -> (r: SubtrActorResult<&'b Attribute>)
        requires
            self.wf(),
            map.wf(),
        ensures
            match r {
                Ok(a) => (spec_attribute_in(self.replay, map@, property@) matches Some(p) && *a
                    == p.0),
                Err(e) => spec_attribute_in(self.replay, map@, property@) is None && ((e.variant
                    matches SubtrActorErrorVariant::ObjectIdNotFound { .. }) || (e.variant
                    matches SubtrActorErrorVariant::PropertyNotFoundInState { .. })),
            },
    {
        let p = self.get_attribute_and_updated(map, property)?;
        Ok(&p.0)
    }
}

/// The attribute a live actor holds under a property name.
pub open spec fn spec_actor_attribute(
    p: ReplayProcessor,
    actor_id: ActorId,
    name: Seq<char>,
) -> Option<Attribute> {
    if p.actor_state@.states.contains_key(actor_id) {
        match spec_attribute_in(p.replay, p.actor_state@.states[actor_id].attributes, name) {
            Some(pair) => Some(pair.0),
            None => None,
        }
    } else {
        None
    }
}

impl ReplayProcessor {
    /// The attribute a live actor holds under a property name.
    pub fn get_actor_attribute(&self, actor_id: ActorId, property: &String) -> (r:
        SubtrActorResult<&Attribute>)
        requires
            self.wf(),
        ensures
            match r {
                Ok(a) => spec_actor_attribute(*self, actor_id, property@) == Some(*a),
                Err(_) => spec_actor_attribute(*self, actor_id, property@) is None,
            },
    {
        let state = self.get_actor_state(actor_id)?;
        self.get_attribute(&state.attributes, property)
    }
}

/// The actor id a player identity maps to.
pub open spec fn spec_player_actor_id(p: ReplayProcessor, player_id: PlayerId) -> Option<ActorId> {
    if p.player_to_actor_id@.contains_key(crate::player_map::player_key(player_id)) {
        Some(p.player_to_actor_id@[crate::player_map::player_key(player_id)])
    } else {
        None
    }
}

/// The car actor id of a player.
pub open spec fn spec_car_actor_id(p: ReplayProcessor, player_id: PlayerId) -> Option<ActorId> {
    match spec_player_actor_id(p, player_id) {
        Some(a) => if p.player_to_car@.contains_key(a) {
            Some(p.player_to_car@[a])
        } else {
            None
        },
        None => None,
    }
}

/// The component actor id linked to a player's car through one of the
/// car-to-component maps.
pub open spec fn spec_car_connected_actor_id(
    p: ReplayProcessor,
    player_id: PlayerId,
    map: Map<i32, ActorId>,
) -> Option<ActorId> {
    match spec_car_actor_id(p, player_id) {
        Some(car) => if map.contains_key(car) {
            Some(map[car])
        } else {
            None
        },
        None => None,
    }
}

/// The rigid body an actor holds, with the frame of its last update.
pub open spec fn spec_actor_rigid_body(p: ReplayProcessor, actor_id: ActorId) -> Option<
    (RigidBody, usize),
> {
    if p.actor_state@.states.contains_key(actor_id) {
        match spec_attribute_in(
            p.replay,
            p.actor_state@.states[actor_id].attributes,
            "TAGame.RBActor_TA:ReplicatedRBState"@,
        ) {
            Some(pair) => match pair.0 {
                Attribute::RigidBody(rb) => Some((rb, pair.1)),
                _ => None,
            },
            None => None,
        }
    } else {
        None
    }
}

/// The first live game-event actor, if any, over a replay and a modeler
/// view.
pub open spec fn spec_metadata_actor_v(r: Replay, mv: ModelerView) -> Option<ActorId> {
    match spec_ids_of_type(r, mv, "Archetypes.GameEvent.GameEvent_Soccar"@) {
        Some(ids) => if ids.len() > 0 {
            Some(ids[0])
        } else {
            None
        },
        None => None,
    }
}

/// The first live game-event actor, if any.
pub open spec fn spec_metadata_actor(p: ReplayProcessor) -> Option<ActorId> {
    spec_metadata_actor_v(p.replay, p.actor_state@)
}

/// The remaining match seconds, read from the game-event actor, if the
/// whole chain resolves, over a replay and a modeler view.
pub open spec fn spec_seconds_remaining_v(r: Replay, mv: ModelerView) -> Option<i32> {
    match spec_metadata_actor_v(r, mv) {
        Some(a) => match spec_actor_attribute_v(
            r,
            mv,
            a,
            "TAGame.GameEvent_Soccar_TA:SecondsRemaining"@,
        ) {
            Some(Attribute::Int(v)) => Some(v),
            _ => None,
        },
        None => None,
    }
}

/// The remaining match seconds, if the whole chain resolves.
pub open spec fn spec_seconds_remaining(p: ReplayProcessor) -> Option<i32> {
    spec_seconds_remaining_v(p.replay, p.actor_state@)
}

/// The player's replicated name, if the whole chain resolves.
pub open spec fn spec_player_name(p: ReplayProcessor, pid: PlayerId) -> Option<Seq<char>> {
    match spec_player_actor_id(p, pid) {
        Some(a) => match spec_actor_attribute(p, a, "Engine.PlayerReplicationInfo:PlayerName"@) {
            Some(Attribute::Str(s)) => Some(s@),
            _ => None,
        },
        None => None,
    }
}

/// The object name of the team actor of the player with this identity key,
/// over the components of the engine state.
pub open spec fn spec_team_key_of_key(
    r: Replay,
    mv: ModelerView,
    team_map: Map<i32, ActorId>,
    player_map: Map<(int, u64, Seq<char>), ActorId>,
    k: (int, u64, Seq<char>),
) -> Option<Seq<char>> {
    if player_map.contains_key(k) {
        let a = player_map[k];
        if team_map.contains_key(a) {
            let team = team_map[a];
            if mv.states.contains_key(team) {
                let oid = mv.states[team].object_id;
                if 0 <= oid < r.objects@.len() {
                    Some(r.objects@[oid as int]@)
                } else {
                    None
                }
            } else {
                None
            }
        } else {
            None
        }
    } else {
        None
    }
}

/// Whether the player with this identity key is on team zero, over the
/// components of the engine state.
pub open spec fn spec_is_team_0_of_key(
    r: Replay,
    mv: ModelerView,
    team_map: Map<i32, ActorId>,
    player_map: Map<(int, u64, Seq<char>), ActorId>,
    k: (int, u64, Seq<char>),
) -> Option<bool> {
    match spec_team_key_of_key(r, mv, team_map, player_map, k) {
        Some(name) => {
            let bs = vstd::utf8::encode_utf8(name);
            if bs.len() > 0 {
                Some(bs.last() == 48)
            } else {
                None
            }
        },
        None => None,
    }
}

/// The object name of the player's team actor, if the whole chain resolves.
pub open spec fn spec_team_key(p: ReplayProcessor, pid: PlayerId) -> Option<Seq<char>> {
    spec_team_key_of_key(
        p.replay,
        p.actor_state@,
        p.player_to_team@,
        p.player_to_actor_id@,
        crate::player_map::player_key(pid),
    )
}

/// Whether the player is on team zero: the team name's last byte is the
/// digit zero; `None` when the chain does not resolve or the name is empty.
pub open spec fn spec_is_team_0(p: ReplayProcessor, pid: PlayerId) -> Option<bool> {
    spec_is_team_0_of_key(
        p.replay,
        p.actor_state@,
        p.player_to_team@,
        p.player_to_actor_id@,
        crate::player_map::player_key(pid),
    )
}

impl ReplayProcessor {
    /// The discovered ball actor; `BallActorNotFound` before discovery.
    pub fn get_ball_actor_id(&self) -> (r: SubtrActorResult<ActorId>)
        ensures
            match r {
                Ok(a) => self.ball_actor_id == Some(a),
                Err(e) => self.ball_actor_id is None && (e.variant
                    matches SubtrActorErrorVariant::BallActorNotFound),
            },
    {
        match self.ball_actor_id {
            Some(a) => Ok(a),
            None => SubtrActorError::new_result(SubtrActorErrorVariant::BallActorNotFound),
        }
    }

    /// The first live game-event actor; `NoGameActor` when none is live.
    pub fn get_metadata_actor_id(&self) -> (r: SubtrActorResult<ActorId>)
        requires
            self.wf(),
        ensures
            match r {
                Ok(a) => spec_metadata_actor(*self) == Some(a),
                Err(_) => spec_metadata_actor(*self) is None,
            },
    {
        let ids = self.get_actor_ids_by_type(&crate::constants::game_type())?;
        if ids.len() == 0 {
            return SubtrActorError::new_result(SubtrActorErrorVariant::NoGameActor);
        }
        Ok(ids[0])
    }

    /// The actor id of a player; `ActorNotFound` when unknown.
    pub fn get_player_actor_id(&self, player_id: &PlayerId) -> (r: SubtrActorResult<ActorId>)
        requires
            self.wf(),
        ensures
            match r {
                Ok(a) => spec_player_actor_id(*self, *player_id) == Some(a),
                Err(e) => spec_player_actor_id(*self, *player_id) is None && (e.variant
                    matches SubtrActorErrorVariant::ActorNotFound { .. }),
            },
    {
        match self.player_to_actor_id.get(player_id) {
            Some(a) => Ok(*a),
            None => SubtrActorError::new_result(
                SubtrActorErrorVariant::ActorNotFound {
                    name: "ActorId".to_owned(),
                    player_id: player_id.duplicate(),
                },
            ),
        }
    }

    /// The car actor id of a player.
    pub fn get_car_actor_id(&self, player_id: &PlayerId) -> (r: SubtrActorResult<ActorId>)
        requires
            self.wf(),
        ensures
            match r {
                Ok(a) => spec_car_actor_id(*self, *player_id) == Some(a),
                Err(e) => spec_car_actor_id(*self, *player_id) is None && (e.variant
                    matches SubtrActorErrorVariant::ActorNotFound { .. }),
            },
    {
        let actor = self.get_player_actor_id(player_id)?;
        match self.player_to_car.get(actor) {
            Some(a) => Ok(*a),
            None => SubtrActorError::new_result(
                SubtrActorErrorVariant::ActorNotFound {
                    name: "Car".to_owned(),
                    player_id: player_id.duplicate(),
                },
            ),
        }
    }

    /// The component actor linked to the player's car through the given
    /// car-to-component map; the role name is carried into the error.
    pub fn get_car_connected_actor_id(
        &self,
        player_id: &PlayerId,
        map: &IdMap<ActorId>,
        name: String,
    ) -> (r: SubtrActorResult<ActorId>)
        requires
            self.wf(),
            map.wf(),
        ensures
            match r {
                Ok(a) => spec_car_connected_actor_id(*self, *player_id, map@) == Some(a),
                Err(e) => spec_car_connected_actor_id(*self, *player_id, map@) is None && (e.variant
                    matches SubtrActorErrorVariant::ActorNotFound { .. }),
            },
    {
        let car = self.get_car_actor_id(player_id)?;
        match map.get(car) {
            Some(a) => Ok(*a),
            None => SubtrActorError::new_result(
                SubtrActorErrorVariant::ActorNotFound { name, player_id: player_id.duplicate() },
            ),
        }
    }

    /// The boost component actor id of a player.
    pub fn get_boost_actor_id(&self, player_id: &PlayerId) -> (r: SubtrActorResult<ActorId>)
        requires
            self.wf(),
        ensures
            match r {
                Ok(a) => spec_car_connected_actor_id(*self, *player_id, self.car_to_boost@)
                    == Some(a),
                Err(e) => spec_car_connected_actor_id(*self, *player_id, self.car_to_boost@)
                    is None && (e.variant matches SubtrActorErrorVariant::ActorNotFound { .. }),
            },
    {
        self.get_car_connected_actor_id(player_id, &self.car_to_boost, "Boost".to_owned())
    }

    /// The jump component actor id of a player.
    pub fn get_jump_actor_id(&self, player_id: &PlayerId) -> (r: SubtrActorResult<ActorId>)
        requires
            self.wf(),
        ensures
            match r {
                Ok(a) => spec_car_connected_actor_id(*self, *player_id, self.car_to_jump@) == Some(
                    a,
                ),
                Err(e) => spec_car_connected_actor_id(*self, *player_id, self.car_to_jump@)
                    is None && (e.variant matches SubtrActorErrorVariant::ActorNotFound { .. }),
            },
    {
        self.get_car_connected_actor_id(player_id, &self.car_to_jump, "Jump".to_owned())
    }

    /// The double-jump component actor id of a player.
    pub fn get_double_jump_actor_id(&self, player_id: &PlayerId) -> (r: SubtrActorResult<ActorId>)
        requires
            self.wf(),
        ensures
            match r {
                Ok(a) => spec_car_connected_actor_id(*self, *player_id, self.car_to_double_jump@)
                    == Some(a),
                Err(e) => spec_car_connected_actor_id(*self, *player_id, self.car_to_double_jump@)
                    is None && (e.variant matches SubtrActorErrorVariant::ActorNotFound { .. }),
            },
    {
        self.get_car_connected_actor_id(player_id, &self.car_to_double_jump, "Double Jump".to_owned())
    }

    /// The dodge component actor id of a player.
    pub fn get_dodge_actor_id(&self, player_id: &PlayerId) -> (r: SubtrActorResult<ActorId>)
        requires
            self.wf(),
        ensures
            match r {
                Ok(a) => spec_car_connected_actor_id(*self, *player_id, self.car_to_dodge@)
                    == Some(a),
                Err(e) => spec_car_connected_actor_id(*self, *player_id, self.car_to_dodge@)
                    is None && (e.variant matches SubtrActorErrorVariant::ActorNotFound { .. }),
            },
    {
        self.get_car_connected_actor_id(player_id, &self.car_to_dodge, "Dodge".to_owned())
    }

    /// The players of both teams, team zero first, in roster order.
    pub fn iter_player_ids_in_order(&self) -> (r: Vec<PlayerId>)
        ensures
            r@ == self.team_zero@ + self.team_one@,
    {
        let mut r: Vec<PlayerId> = Vec::new();
        let n0 = self.team_zero.len();
        for i in 0..n0
            invariant
                n0 == self.team_zero@.len(),
                r@ == self.team_zero@.take(i as int),
        {
            r.push(self.team_zero[i].duplicate());
            proof {
                assert(r@ =~= self.team_zero@.take(i as int + 1));
            }
        }
        proof {
            assert(self.team_zero@.take(n0 as int) =~= self.team_zero@);
        }
        let n1 = self.team_one.len();
        for i in 0..n1
            invariant
                n1 == self.team_one@.len(),
                r@ == self.team_zero@ + self.team_one@.take(i as int),
        {
            r.push(self.team_one[i].duplicate());
            proof {
                assert(r@ =~= self.team_zero@ + self.team_one@.take(i as int + 1));
            }
        }
        proof {
            assert(self.team_zero@ + self.team_one@.take(n1 as int) =~= self.team_zero@
                + self.team_one@);
        }
        r
    }

    /// How many players the rosters hold.
    pub fn player_count(&self) -> (n: usize)
        requires
            self.wf(),
        ensures
            n == self.team_zero@.len() + self.team_one@.len(),
    {
        self.team_zero.len() + self.team_one.len()
    }

    /// The remaining match time in seconds, from the game-event actor.
    pub fn get_seconds_remaining(&self) -> (r: SubtrActorResult<i32>)
        requires
            self.wf(),
        ensures
            match r {
                Ok(v) => spec_seconds_remaining(*self) == Some(v),
                Err(_) => spec_seconds_remaining(*self) is None,
            },
    {
        let actor = self.get_metadata_actor_id()?;
        let attr = self.get_actor_attribute(actor, &crate::constants::seconds_remaining_key())?;
        let v = attr_as_int(attr)?;
        Ok(v)
    }

    /// Whether ball syncing is ignored for the ball actor.
    pub fn get_ignore_ball_syncing(&self) -> (r: SubtrActorResult<bool>)
        requires
            self.wf(),
        ensures
            match r {
                Ok(v) => spec_ignore_ball_syncing(*self) == Some(v),
                Err(_) => spec_ignore_ball_syncing(*self) is None,
            },
    {
        let actor_id = self.get_ball_actor_id()?;
        let attr = self.get_actor_attribute(actor_id, &crate::constants::ignore_syncing_key())?;
        attr_as_boolean(attr)
    }

    /// The rigid body an actor currently holds, with the frame of its last
    /// update.
    pub fn get_actor_rigid_body(&self, actor_id: ActorId) -> (r: SubtrActorResult<
        (RigidBody, usize),
    >)
        requires
            self.wf(),
        ensures
            match r {
                Ok(p) => spec_actor_rigid_body(*self, actor_id) == Some(p) && body_bounded(p.0),
                Err(_) => spec_actor_rigid_body(*self, actor_id) is None,
            },
    {
        let state = self.get_actor_state(actor_id)?;
        let pair = self.get_attribute_and_updated(
            &state.attributes,
            &crate::constants::rigid_body_state_key(),
        )?;
        let rb = attr_as_rigid_body(&pair.0)?;
        proof {
            assert(self.actor_state@.states[actor_id].attributes.contains_key(
                spec_object_id(self.replay, "TAGame.RBActor_TA:ReplicatedRBState"@).unwrap()
                    as i32,
            ));
        }
        Ok((*rb, pair.1))
    }

    /// The ball's current rigid body.
    pub fn get_ball_rigid_body(&self) -> (r: SubtrActorResult<RigidBody>)
        requires
            self.wf(),
        ensures
            match r {
                Ok(rb) => (self.ball_actor_id matches Some(a) && spec_actor_rigid_body(*self, a)
                    matches Some(p) && p.0 == rb && body_bounded(rb)),
                Err(_) => !(self.ball_actor_id matches Some(a) && spec_actor_rigid_body(*self, a)
                    is Some),
            },
    {
        let actor_id = self.get_ball_actor_id()?;
        let pair = self.get_actor_rigid_body(actor_id)?;
        Ok(pair.0)
    }

    /// Whether the ball's rigid body exists and is not sleeping.
    pub fn ball_rigid_body_exists(&self) -> (r: SubtrActorResult<bool>)
        requires
            self.wf(),
        ensures
            r matches Ok(v) && v == (self.ball_actor_id matches Some(a)
                && spec_actor_rigid_body(*self, a) matches Some(p) && !p.0.sleeping),
    {
        match self.get_ball_actor_id() {
            Err(_) => Ok(false),
            Ok(actor_id) => match self.get_actor_rigid_body(actor_id) {
                Ok(pair) => Ok(!pair.0.sleeping),
                Err(_) => Ok(false),
            },
        }
    }

    /// The ball's rigid body with the frame of its last update.
    pub fn get_ball_rigid_body_and_updated(&self) -> (r: SubtrActorResult<(RigidBody, usize)>)
        requires
            self.wf(),
        ensures
            match r {
                Ok(p) => (self.ball_actor_id matches Some(a) && spec_actor_rigid_body(*self, a)
                    == Some(p) && body_bounded(p.0)),
                Err(_) => !(self.ball_actor_id matches Some(a) && spec_actor_rigid_body(*self, a)
                    is Some),
            },
    {
        let actor_id = self.get_ball_actor_id()?;
        self.get_actor_rigid_body(actor_id)
    }

    /// The player's car's rigid body.
    pub fn get_player_rigid_body(&self, player_id: &PlayerId) -> (r: SubtrActorResult<RigidBody>)
        requires
            self.wf(),
        ensures
            match r {
                Ok(rb) => (spec_car_actor_id(*self, *player_id) matches Some(car)
                    && spec_actor_rigid_body(*self, car) matches Some(p) && p.0 == rb
                    && body_bounded(rb)),
                Err(_) => !(spec_car_actor_id(*self, *player_id) matches Some(car)
                    && spec_actor_rigid_body(*self, car) is Some),
            },
    {
        let car = self.get_car_actor_id(player_id)?;
        let pair = self.get_actor_rigid_body(car)?;
        Ok(pair.0)
    }

    /// The player's car's rigid body with the frame of its last update.
    pub fn get_player_rigid_body_and_updated(&self, player_id: &PlayerId) -> (r: SubtrActorResult<
        (RigidBody, usize),
    >)
        requires
            self.wf(),
        ensures
            match r {
                Ok(p) => (spec_car_actor_id(*self, *player_id) matches Some(car)
                    && spec_actor_rigid_body(*self, car) == Some(p) && body_bounded(p.0)),
                Err(_) => !(spec_car_actor_id(*self, *player_id) matches Some(car)
                    && spec_actor_rigid_body(*self, car) is Some),
            },
    {
        let car = self.get_car_actor_id(player_id)?;
        self.get_actor_rigid_body(car)
    }

    /// The player's name, as replicated on the player actor.
    pub fn get_player_name(&self, player_id: &PlayerId) -> (r: SubtrActorResult<String>)
        requires
            self.wf(),
        ensures
            match r {
                Ok(name) => spec_player_name(*self, *player_id) == Some(name@),
                Err(_) => spec_player_name(*self, *player_id) is None,
            },
    {
        let actor = self.get_player_actor_id(player_id)?;
        let attr = self.get_actor_attribute(actor, &crate::constants::player_name_key())?;
        let s = attr_as_string(attr)?;
        Ok(s.clone())
    }

    /// The object name of the player's team actor.
    pub fn get_player_team_key(&self, player_id: &PlayerId) -> (r: SubtrActorResult<String>)
        requires
            self.wf(),
        ensures
            match r {
                Ok(name) => spec_team_key(*self, *player_id) == Some(name@),
                Err(_) => spec_team_key(*self, *player_id) is None,
            },
    {
        let actor = self.get_player_actor_id(player_id)?;
        let team_actor = match self.player_to_team.get(actor) {
            Some(t) => *t,
            None => {
                return SubtrActorError::new_result(
                    SubtrActorErrorVariant::UnknownPlayerTeam { player_id: player_id.duplicate() },
                );
            },
        };
        let state = self.get_actor_state(team_actor)?;
        let oid = state.object_id;
        if oid >= 0 && (oid as usize) < self.replay.objects.len() {
            Ok(self.replay.objects[oid as usize].clone())
        } else {
            SubtrActorError::new_result(
                SubtrActorErrorVariant::UnknownPlayerTeam { player_id: player_id.duplicate() },
            )
        }
    }

    /// Whether the player is on team zero: the team actor's object name ends
    /// in the digit zero.
    pub fn get_player_is_team_0(&self, player_id: &PlayerId) -> (r: SubtrActorResult<bool>)
        requires
            self.wf(),
        ensures
            match r {
                Ok(v) => spec_is_team_0(*self, *player_id) == Some(v),
                Err(_) => spec_is_team_0(*self, *player_id) is None,
            },
    {
        let key = self.get_player_team_key(player_id)?;
        let bytes = key.as_str().as_bytes();
        if bytes.len() == 0 {
            return SubtrActorError::new_result(
                SubtrActorErrorVariant::EmptyTeamName { player_id: player_id.duplicate() },
            );
        }
        let v = bytes[bytes.len() - 1] == 48;
        Ok(v)
    }

    /// The player's derived continuous boost level, in milli-units, within
    /// `[0, 255]` units.
    pub fn get_player_boost_level(&self, player_id: &PlayerId) -> (r: SubtrActorResult<Milli>)
        requires
            self.wf(),
        ensures
            match r {
                Ok(v) => (spec_car_connected_actor_id(*self, *player_id, self.car_to_boost@)
                    matches Some(b) && self.actor_state@.states.contains_key(b) && (self
                    .actor_state@.states[b].boost_amount matches Some(p) && p.0 == v && 0 <= v
                    <= 255_000)),
                Err(_) => match spec_car_connected_actor_id(*self, *player_id, self.car_to_boost@) {
                    Some(b) => !self.actor_state@.states.contains_key(b)
                        || self.actor_state@.states[b].boost_amount is None,
                    None => true,
                },
            },
    {
        let boost_actor = self.get_boost_actor_id(player_id)?;
        let state = self.get_actor_state(boost_actor)?;
        match state.derived_attributes.boost_amount {
            Some(p) => Ok(p.0),
            None => SubtrActorError::new_result(
                SubtrActorErrorVariant::DerivedKeyValueNotFound {
                    name: crate::constants::boost_amount_key(),
                },
            ),
        }
    }

    /// The raw component-active byte of an actor; its low bit is the active
    /// flag.
    pub fn get_component_active(&self, actor_id: ActorId) -> (r: SubtrActorResult<u8>)
        requires
            self.wf(),
        ensures
            match r {
                Ok(v) => spec_actor_attribute(
                    *self,
                    actor_id,
                    "TAGame.CarComponent_TA:ReplicatedActive"@,
                ) == Some(Attribute::Byte(v)),
                Err(_) => !(spec_actor_attribute(
                    *self,
                    actor_id,
                    "TAGame.CarComponent_TA:ReplicatedActive"@,
                ) matches Some(a) && a is Byte),
            },
    {
        let attr = self.get_actor_attribute(actor_id, &crate::constants::component_active_key())?;
        attr_as_byte(attr)
    }

    /// The raw active byte of the player's boost component.
    pub fn get_boost_active(&self, player_id: &PlayerId) -> (r: SubtrActorResult<u8>)
        requires
            self.wf(),
        ensures
            match r {
                Ok(v) => (spec_car_connected_actor_id(*self, *player_id, self.car_to_boost@)
                    matches Some(a) && spec_actor_attribute(
                    *self,
                    a,
                    "TAGame.CarComponent_TA:ReplicatedActive"@,
                ) == Some(Attribute::Byte(v))),
                Err(_) => match spec_car_connected_actor_id(*self, *player_id, self.car_to_boost@) {
                    Some(a) => !(spec_actor_attribute(
                        *self,
                        a,
                        "TAGame.CarComponent_TA:ReplicatedActive"@,
                    ) matches Some(at) && at is Byte),
                    None => true,
                },
            },
    {
        let a = self.get_boost_actor_id(player_id)?;
        self.get_component_active(a)
    }

    /// The raw active byte of the player's jump component.
    pub fn get_jump_active(&self, player_id: &PlayerId) -> (r: SubtrActorResult<u8>)
        requires
            self.wf(),
        ensures
            match r {
                Ok(v) => (spec_car_connected_actor_id(*self, *player_id, self.car_to_jump@)
                    matches Some(a) && spec_actor_attribute(
                    *self,
                    a,
                    "TAGame.CarComponent_TA:ReplicatedActive"@,
                ) == Some(Attribute::Byte(v))),
                Err(_) => match spec_car_connected_actor_id(*self, *player_id, self.car_to_jump@) {
                    Some(a) => !(spec_actor_attribute(
                        *self,
                        a,
                        "TAGame.CarComponent_TA:ReplicatedActive"@,
                    ) matches Some(at) && at is Byte),
                    None => true,
                },
            },
    {
        let a = self.get_jump_actor_id(player_id)?;
        self.get_component_active(a)
    }

    /// The raw active byte of the player's double-jump component.
    pub fn get_double_jump_active(&self, player_id: &PlayerId) -> (r: SubtrActorResult<u8>)
        requires
            self.wf(),
        ensures
            match r {
                Ok(v) => (spec_car_connected_actor_id(*self, *player_id, self.car_to_double_jump@)
                    matches Some(a) && spec_actor_attribute(
                    *self,
                    a,
                    "TAGame.CarComponent_TA:ReplicatedActive"@,
                ) == Some(Attribute::Byte(v))),
                Err(_) => match spec_car_connected_actor_id(*self, *player_id, self.car_to_double_jump@) {
                    Some(a) => !(spec_actor_attribute(
                        *self,
                        a,
                        "TAGame.CarComponent_TA:ReplicatedActive"@,
                    ) matches Some(at) && at is Byte),
                    None => true,
                },
            },
    {
        let a = self.get_double_jump_actor_id(player_id)?;
        self.get_component_active(a)
    }

    /// The raw active byte of the player's dodge component.
    pub fn get_dodge_active(&self, player_id: &PlayerId) -> (r: SubtrActorResult<u8>)
        requires
            self.wf(),
        ensures
            match r {
                Ok(v) => (spec_car_connected_actor_id(*self, *player_id, self.car_to_dodge@)
                    matches Some(a) && spec_actor_attribute(
                    *self,
                    a,
                    "TAGame.CarComponent_TA:ReplicatedActive"@,
                ) == Some(Attribute::Byte(v))),
                Err(_) => match spec_car_connected_actor_id(*self, *player_id, self.car_to_dodge@) {
                    Some(a) => !(spec_actor_attribute(
                        *self,
                        a,
                        "TAGame.CarComponent_TA:ReplicatedActive"@,
                    ) matches Some(at) && at is Byte),
                    None => true,
                },
            },
    {
        let a = self.get_dodge_actor_id(player_id)?;
        self.get_component_active(a)
    }
}

/// Whether the ball actor says to ignore its syncing, if the chain
/// resolves.
pub open spec fn spec_ignore_ball_syncing(p: ReplayProcessor) -> Option<bool> {
    match p.ball_actor_id {
        Some(a) => match spec_actor_attribute(p, a, "TAGame.RBActor_TA:bIgnoreSyncing"@) {
            Some(Attribute::Boolean(v)) => Some(v),
            _ => None,
        },
        None => None,
    }
}

/// The attribute a live actor holds under a property name, over a replay
/// and a modeler view.
pub open spec fn spec_actor_attribute_v(
    r: Replay,
    mv: ModelerView,
    actor_id: ActorId,
    name: Seq<char>,
) -> Option<Attribute> {
    if mv.states.contains_key(actor_id) {
        match spec_attribute_in(r, mv.states[actor_id].attributes, name) {
            Some(pair) => Some(pair.0),
            None => None,
        }
    } else {
        None
    }
}

/// The live actors of the named object type, over a replay and a modeler
/// view; empty when the name resolves but no actor of the type is live.
pub open spec fn spec_ids_of_type(r: Replay, mv: ModelerView, name: Seq<char>) -> Option<Seq<i32>> {
    match spec_object_id(r, name) {
        Some(o) => Some(
            if mv.by_type.contains_key(o as i32) {
                mv.by_type[o as i32]
            } else {
                Seq::<i32>::empty()
            },
        ),
        None => None,
    }
}

/// The relationship indexes as one mathematical value.
#[verifier::ext_equal]
pub struct LinksView {
    pub player_to_actor: Map<(int, u64, Seq<char>), ActorId>,
    pub player_to_team: Map<i32, ActorId>,
    pub player_to_car: Map<i32, ActorId>,
    pub car_to_boost: Map<i32, ActorId>,
    pub car_to_jump: Map<i32, ActorId>,
    pub car_to_double_jump: Map<i32, ActorId>,
    pub car_to_dodge: Map<i32, ActorId>,
}

impl ReplayProcessor {
    /// The current relationship indexes.
    pub open spec fn links(self) -> LinksView {
        LinksView {
            player_to_actor: self.player_to_actor_id@,
            player_to_team: self.player_to_team@,
            player_to_car: self.player_to_car@,
            car_to_boost: self.car_to_boost@,
            car_to_jump: self.car_to_jump@,
            car_to_double_jump: self.car_to_double_jump@,
            car_to_dodge: self.car_to_dodge@,
        }
    }
}

/// The player-identity link: an update of the unique-id property on a
/// player-type actor maps the carried remote id to the updated actor.
pub open spec fn spec_link_unique(r: Replay, mv: ModelerView, links: LinksView, u: crate::model::UpdatedAttribute) -> Option<LinksView> {
    match spec_object_id(r, "Engine.PlayerReplicationInfo:UniqueId"@) {
        None => None,
        Some(key_oid) => if u.object_id == key_oid as i32 {
            match spec_ids_of_type(r, mv, "TAGame.Default__PRI_TA"@) {
                None => None,
                Some(ids) => if crate::actor_state::has_id(ids, u.actor_id) {
                    match spec_actor_attribute_v(r, mv, u.actor_id, "Engine.PlayerReplicationInfo:UniqueId"@) {
                        Some(Attribute::UniqueId(uid)) => Some(
                            LinksView {
                                player_to_actor: links.player_to_actor.insert(
                                    crate::player_map::player_key(uid.remote_id),
                                    u.actor_id,
                                ),
                                ..links
                            },
                        ),
                        _ => None,
                    }
                } else {
                    Some(links)
                },
            }
        } else {
            Some(links)
        },
    }
}

/// The team link: an update of the team property on a player-type actor
/// maps the player actor to the referenced team actor.
pub open spec fn spec_link_team(r: Replay, mv: ModelerView, links: LinksView, u: crate::model::UpdatedAttribute) -> Option<LinksView> {
    match spec_object_id(r, "Engine.PlayerReplicationInfo:Team"@) {
        None => None,
        Some(key_oid) => if u.object_id == key_oid as i32 {
            match spec_ids_of_type(r, mv, "TAGame.Default__PRI_TA"@) {
                None => None,
                Some(ids) => if crate::actor_state::has_id(ids, u.actor_id) {
                    match spec_actor_attribute_v(r, mv, u.actor_id, "Engine.PlayerReplicationInfo:Team"@) {
                        Some(Attribute::ActiveActor(team)) => Some(
                            LinksView {
                                player_to_team: links.player_to_team.insert(u.actor_id, team),
                                ..links
                            },
                        ),
                        _ => None,
                    }
                } else {
                    Some(links)
                },
            }
        } else {
            Some(links)
        },
    }
}

/// The car link: an update of the player-replication property on a car-type
/// actor maps the referenced player actor to the car actor.
pub open spec fn spec_link_car(r: Replay, mv: ModelerView, links: LinksView, u: crate::model::UpdatedAttribute) -> Option<LinksView> {
    match spec_object_id(r, "Engine.Pawn:PlayerReplicationInfo"@) {
        None => None,
        Some(key_oid) => if u.object_id == key_oid as i32 {
            match spec_ids_of_type(r, mv, "Archetypes.Car.Car_Default"@) {
                None => None,
                Some(ids) => if crate::actor_state::has_id(ids, u.actor_id) {
                    match spec_actor_attribute_v(r, mv, u.actor_id, "Engine.Pawn:PlayerReplicationInfo"@) {
                        Some(Attribute::ActiveActor(player)) => Some(
                            LinksView {
                                player_to_car: links.player_to_car.insert(player, u.actor_id),
                                ..links
                            },
                        ),
                        _ => None,
                    }
                } else {
                    Some(links)
                },
            }
        } else {
            Some(links)
        },
    }
}

/// A vehicle link: an update of the vehicle property on a component actor of
/// the given type maps the referenced car actor to the component actor. The
/// result map is selected by `which`: 0 boost, 1 dodge, 2 jump, 3 double
/// jump.
pub open spec fn spec_link_vehicle(r: Replay, mv: ModelerView, links: LinksView, u: crate::model::UpdatedAttribute, archetype: Seq<char>, which: int) -> Option<LinksView> {
    match spec_object_id(r, "TAGame.CarComponent_TA:Vehicle"@) {
        None => None,
        Some(key_oid) => if u.object_id == key_oid as i32 {
            match spec_ids_of_type(r, mv, archetype) {
                None => None,
                Some(ids) => if crate::actor_state::has_id(ids, u.actor_id) {
                    match spec_actor_attribute_v(r, mv, u.actor_id, "TAGame.CarComponent_TA:Vehicle"@) {
                        Some(Attribute::ActiveActor(car)) => Some(
                            if which == 0 {
                                LinksView {
                                    car_to_boost: links.car_to_boost.insert(car, u.actor_id),
                                    ..links
                                }
                            } else if which == 1 {
                                LinksView {
                                    car_to_dodge: links.car_to_dodge.insert(car, u.actor_id),
                                    ..links
                                }
                            } else if which == 2 {
                                LinksView {
                                    car_to_jump: links.car_to_jump.insert(car, u.actor_id),
                                    ..links
                                }
                            } else {
                                LinksView {
                                    car_to_double_jump: links.car_to_double_jump.insert(
                                        car,
                                        u.actor_id,
                                    ),
                                    ..links
                                }
                            },
                        ),
                        _ => None,
                    }
                } else {
                    Some(links)
                },
            }
        } else {
            Some(links)
        },
    }
}

/// The effect of one attribute update on the relationship indexes: each link
/// pattern applied in order.
pub open spec fn spec_link_step(r: Replay, mv: ModelerView, links: LinksView, u: crate::model::UpdatedAttribute) -> Option<LinksView> {
    match spec_link_unique(r, mv, links, u) {
        None => None,
        Some(l1) => match spec_link_team(r, mv, l1, u) {
            None => None,
            Some(l2) => match spec_link_car(r, mv, l2, u) {
                None => None,
                Some(l3) => match spec_link_vehicle(
                    r,
                    mv,
                    l3,
                    u,
                    "Archetypes.CarComponents.CarComponent_Boost"@,
                    0,
                ) {
                    None => None,
                    Some(l4) => match spec_link_vehicle(
                        r,
                        mv,
                        l4,
                        u,
                        "Archetypes.CarComponents.CarComponent_Dodge"@,
                        1,
                    ) {
                        None => None,
                        Some(l5) => match spec_link_vehicle(
                            r,
                            mv,
                            l5,
                            u,
                            "Archetypes.CarComponents.CarComponent_Jump"@,
                            2,
                        ) {
                            None => None,
                            Some(l6) => spec_link_vehicle(
                                r,
                                mv,
                                l6,
                                u,
                                "Archetypes.CarComponents.CarComponent_DoubleJump"@,
                                3,
                            ),
                        },
                    },
                },
            },
        },
    }
}

/// The effect of a frame's updates on the relationship indexes, in order.
pub open spec fn spec_link_steps(r: Replay, mv: ModelerView, links: LinksView, ups: Seq<crate::model::UpdatedAttribute>) -> Option<LinksView>
    decreases ups.len(),
{
    if ups.len() == 0 {
        Some(links)
    } else {
        match spec_link_step(r, mv, links, ups[0]) {
            Some(l1) => spec_link_steps(r, mv, l1, ups.drop_first()),
            None => None,
        }
    }
}

pub proof fn lemma_link_steps_concat(r: Replay, mv: ModelerView, links: LinksView, a: Seq<crate::model::UpdatedAttribute>, b: Seq<crate::model::UpdatedAttribute>)
    ensures
        spec_link_steps(r, mv, links, a + b) == match spec_link_steps(r, mv, links, a) {
            Some(l) => spec_link_steps(r, mv, l, b),
            None => None,
        },
    decreases a.len(),
{
    if a.len() == 0 {
        assert(a + b =~= b);
    } else {
        assert((a + b)[0] == a[0]);
        assert((a + b).drop_first() =~= a.drop_first() + b);
        match spec_link_step(r, mv, links, a[0]) {
            Some(l1) => {
                lemma_link_steps_concat(r, mv, l1, a.drop_first(), b);
            },
            None => {},
        }
    }
}

/// The effect of a frame's deletions on the relationship indexes: a deleted
/// player actor's car link is dropped.
pub open spec fn spec_link_deletions(links: LinksView, dels: Seq<ActorId>) -> LinksView
    decreases dels.len(),
{
    if dels.len() == 0 {
        links
    } else {
        spec_link_deletions(
            LinksView { player_to_car: links.player_to_car.remove(dels[0]), ..links },
            dels.drop_first(),
        )
    }
}

pub proof fn lemma_link_deletions_concat(links: LinksView, a: Seq<ActorId>, b: Seq<ActorId>)
    ensures
        spec_link_deletions(links, a + b) == spec_link_deletions(spec_link_deletions(links, a), b),
    decreases a.len(),
{
    if a.len() == 0 {
        assert(a + b =~= b);
    } else {
        assert((a + b)[0] == a[0]);
        assert((a + b).drop_first() =~= a.drop_first() + b);
        lemma_link_deletions_concat(
            LinksView { player_to_car: links.player_to_car.remove(a[0]), ..links },
            a.drop_first(),
            b,
        );
    }
}

/// The effect of one frame on the relationship indexes: every update's link
/// patterns in order, then the deletions.
pub open spec fn spec_update_mappings(r: Replay, mv: ModelerView, links: LinksView, frame: Frame) -> Option<LinksView> {
    match spec_link_steps(r, mv, links, frame.updated_actors@) {
        Some(l) => Some(spec_link_deletions(l, frame.deleted_actors@)),
        None => None,
    }
}

impl ReplayProcessor {
    /// Everything except the relationship indexes, for frame equality.
    pub open spec fn non_link_state(self) -> (Replay, ModelerView, Option<ActorId>, Seq<PlayerId>, Seq<PlayerId>, Seq<DemolishInfo>, Seq<(DemolishFx, usize)>) {
        (
            self.replay,
            self.actor_state@,
            self.ball_actor_id,
            self.team_zero@,
            self.team_one@,
            self.demolishes@,
            self.known_demolishes@,
        )
    }

    /// Applies one update's link patterns to the relationship indexes.
    fn apply_link_update(&mut self, update: &crate::model::UpdatedAttribute) -> (r:
        SubtrActorResult<()>)
        requires
            old(self).wf(),
        ensures
            final(self).wf(),
            final(self).non_link_state() == old(self).non_link_state(),
            final(self).actor_state == old(self).actor_state,
            match r {
                Ok(_) => spec_link_step(
                    old(self).replay,
                    old(self).actor_state@,
                    old(self).links(),
                    *update,
                ) == Some(final(self).links()),
                Err(_) => spec_link_step(
                    old(self).replay,
                    old(self).actor_state@,
                    old(self).links(),
                    *update,
                ) is None,
            },
    {
        let ghost r0 = self.replay;
        let ghost mv = self.actor_state@;
        // Player identity link.
        let key_oid = self.get_object_id_for_key(&crate::constants::unique_id_key())?;
        if update.object_id == key_oid {
            let ids = self.get_actor_ids_by_type(&crate::constants::player_type())?;
            if contains_id(&ids, update.actor_id) {
                let attr = self.get_actor_attribute(
                    update.actor_id,
                    &crate::constants::unique_id_key(),
                )?;
                let uid = attr_as_unique_id(attr)?;
                let remote = uid.remote_id.duplicate();
                self.player_to_actor_id.insert(remote, update.actor_id);
            }
        }
        let ghost l1 = self.links();
        proof {
            assert(spec_link_unique(r0, mv, old(self).links(), *update) == Some(l1));
        }
        // Team link.
        let key_oid = self.get_object_id_for_key(&crate::constants::team_key())?;
        if update.object_id == key_oid {
            let ids = self.get_actor_ids_by_type(&crate::constants::player_type())?;
            if contains_id(&ids, update.actor_id) {
                let attr = self.get_actor_attribute(update.actor_id, &crate::constants::team_key())?;
                let team = attr_as_active_actor(attr)?;
                self.player_to_team.insert(update.actor_id, team);
            }
        }
        let ghost l2 = self.links();
        proof {
            assert(spec_link_team(r0, mv, l1, *update) == Some(l2));
        }
        // Car link.
        let key_oid = self.get_object_id_for_key(&crate::constants::player_replication_key())?;
        if update.object_id == key_oid {
            let ids = self.get_actor_ids_by_type(&crate::constants::car_type())?;
            if contains_id(&ids, update.actor_id) {
                let attr = self.get_actor_attribute(
                    update.actor_id,
                    &crate::constants::player_replication_key(),
                )?;
                let player = attr_as_active_actor(attr)?;
                self.player_to_car.insert(player, update.actor_id);
            }
        }
        let ghost l3 = self.links();
        proof {
            assert(spec_link_car(r0, mv, l2, *update) == Some(l3));
        }
        // Boost component link.
        let key_oid = self.get_object_id_for_key(&crate::constants::vehicle_key())?;
        if update.object_id == key_oid {
            let ids = self.get_actor_ids_by_type(&crate::constants::boost_type())?;
            if contains_id(&ids, update.actor_id) {
                let attr = self.get_actor_attribute(
                    update.actor_id,
                    &crate::constants::vehicle_key(),
                )?;
                let car = attr_as_active_actor(attr)?;
                self.car_to_boost.insert(car, update.actor_id);
            }
        }
        let ghost l4 = self.links();
        proof {
            assert(spec_link_vehicle(
                r0,
                mv,
                l3,
                *update,
                "Archetypes.CarComponents.CarComponent_Boost"@,
                0,
            ) == Some(l4));
        }
        // Dodge component link.
        let key_oid = self.get_object_id_for_key(&crate::constants::vehicle_key())?;
        if update.object_id == key_oid {
            let ids = self.get_actor_ids_by_type(&crate::constants::dodge_type())?;
            if contains_id(&ids, update.actor_id) {
                let attr = self.get_actor_attribute(
                    update.actor_id,
                    &crate::constants::vehicle_key(),
                )?;
                let car = attr_as_active_actor(attr)?;
                self.car_to_dodge.insert(car, update.actor_id);
            }
        }
        let ghost l5 = self.links();
        proof {
            assert(spec_link_vehicle(
                r0,
                mv,
                l4,
                *update,
                "Archetypes.CarComponents.CarComponent_Dodge"@,
                1,
            ) == Some(l5));
        }
        // Jump component link.
        let key_oid = self.get_object_id_for_key(&crate::constants::vehicle_key())?;
        if update.object_id == key_oid {
            let ids = self.get_actor_ids_by_type(&crate::constants::jump_type())?;
            if contains_id(&ids, update.actor_id) {
                let attr = self.get_actor_attribute(
                    update.actor_id,
                    &crate::constants::vehicle_key(),
                )?;
                let car = attr_as_active_actor(attr)?;
                self.car_to_jump.insert(car, update.actor_id);
            }
        }
        let ghost l6 = self.links();
        proof {
            assert(spec_link_vehicle(
                r0,
                mv,
                l5,
                *update,
                "Archetypes.CarComponents.CarComponent_Jump"@,
                2,
            ) == Some(l6));
        }
        // Double-jump component link.
        let key_oid = self.get_object_id_for_key(&crate::constants::vehicle_key())?;
        if update.object_id == key_oid {
            let ids = self.get_actor_ids_by_type(&crate::constants::double_jump_type())?;
            if contains_id(&ids, update.actor_id) {
                let attr = self.get_actor_attribute(
                    update.actor_id,
                    &crate::constants::vehicle_key(),
                )?;
                let car = attr_as_active_actor(attr)?;
                self.car_to_double_jump.insert(car, update.actor_id);
            }
        }
        proof {
            assert(spec_link_vehicle(
                r0,
                mv,
                l6,
                *update,
                "Archetypes.CarComponents.CarComponent_DoubleJump"@,
                3,
            ) == Some(self.links()));
        }
        Ok(())
    }

    /// Maintains the relationship indexes for one frame: applies every
    /// update's link patterns in order, then drops the car links of deleted
    /// player actors.
    pub fn update_mappings(&mut self, frame: &Frame) -> (r: SubtrActorResult<()>)
        requires
            old(self).wf(),
        ensures
            final(self).wf(),
            final(self).non_link_state() == old(self).non_link_state(),
            match r {
                Ok(_) => spec_update_mappings(
                    old(self).replay,
                    old(self).actor_state@,
                    old(self).links(),
                    *frame,
                ) == Some(final(self).links()),
                Err(_) => spec_update_mappings(
                    old(self).replay,
                    old(self).actor_state@,
                    old(self).links(),
                    *frame,
                ) is None,
            },
    {
        let ghost r0 = self.replay;
        let ghost mv = self.actor_state@;
        let ghost links0 = self.links();
        let ghost ups = frame.updated_actors@;
        let n = frame.updated_actors.len();
        for i in 0..n
            invariant
                self.wf(),
                r0 == self.replay,
                mv == self.actor_state@,
                links0 == old(self).links(),
                self.non_link_state() == old(self).non_link_state(),
                n == ups.len(),
                ups == frame.updated_actors@,
                spec_link_steps(r0, mv, links0, ups.take(i as int)) == Some(self.links()),
        {
            let ghost cur = self.links();
            let ghost x = ups[i as int];
            match self.apply_link_update(&frame.updated_actors[i]) {
                Ok(_) => {
                    proof {
                        lemma_link_steps_concat(r0, mv, links0, ups.take(i as int), seq![x]);
                        assert(seq![x][0] == x);
                        assert(seq![x].drop_first() =~= Seq::<crate::model::UpdatedAttribute>::empty());
                        assert(spec_link_steps(r0, mv, self.links(), Seq::<crate::model::UpdatedAttribute>::empty()) == Some(self.links()));
                        assert(spec_link_steps(r0, mv, cur, seq![x]) == Some(self.links()));
                        assert(ups.take(i as int + 1) =~= ups.take(i as int) + seq![x]);
                    }
                },
                Err(e) => {
                    proof {
                        lemma_link_steps_concat(r0, mv, links0, ups.take(i as int), ups.skip(i as int));
                        assert(ups =~= ups.take(i as int) + ups.skip(i as int));
                        assert(ups.skip(i as int)[0] == x);
                        assert(spec_link_step(r0, mv, cur, x) is None);
                        assert(spec_link_steps(r0, mv, cur, ups.skip(i as int)) is None);
                        assert(spec_link_steps(r0, mv, links0, ups) is None);
                    }
                    return Err(e);
                },
            }
        }
        proof {
            assert(ups.take(n as int) =~= ups);
        }
        let ghost after_ups = self.links();
        let ghost dels = frame.deleted_actors@;
        let m = frame.deleted_actors.len();
        for i in 0..m
            invariant
                self.wf(),
                self.non_link_state() == old(self).non_link_state(),
                m == dels.len(),
                dels == frame.deleted_actors@,
                r0 == old(self).replay,
                mv == old(self).actor_state@,
                links0 == old(self).links(),
                spec_link_steps(r0, mv, links0, frame.updated_actors@) == Some(after_ups),
                spec_link_deletions(after_ups, dels.take(i as int)) == self.links(),
        {
            let ghost cur = self.links();
            let ghost x = dels[i as int];
            let _removed = self.player_to_car.remove(frame.deleted_actors[i]);
            proof {
                lemma_link_deletions_concat(after_ups, dels.take(i as int), seq![x]);
                assert(seq![x][0] == x);
                assert(seq![x].drop_first() =~= Seq::<ActorId>::empty());
                let cur1 = LinksView { player_to_car: cur.player_to_car.remove(x), ..cur };
                assert(spec_link_deletions(cur, seq![x]) == spec_link_deletions(cur1, Seq::<ActorId>::empty()));
                assert(self.links() =~= cur1);
                assert(dels.take(i as int + 1) =~= dels.take(i as int) + seq![x]);
            }
        }
        proof {
            assert(dels.take(m as int) =~= dels);
        }
        Ok(())
    }

    /// Discovers or resets the ball actor: a deleted ball actor is
    /// forgotten; while none is known, the first live actor of a known ball
    /// archetype is taken, unless this frame also deletes it.
    pub fn update_ball_id(&mut self, frame: &Frame) -> (r: SubtrActorResult<()>)
        requires
            old(self).wf(),
        ensures
            final(self).wf(),
            r is Ok,
            final(self).non_ball_state() == old(self).non_ball_state(),
            final(self).ball_actor_id == spec_update_ball(
                old(self).replay,
                old(self).actor_state@,
                old(self).ball_actor_id,
                *frame,
            ),
    {
        let candidate: Option<ActorId> = match self.ball_actor_id {
            Some(a) => Some(a),
            None => self.find_ball_actor(),
        };
        match candidate {
            Some(a) => {
                if contains_id(&frame.deleted_actors, a) {
                    self.ball_actor_id = None;
                } else {
                    self.ball_actor_id = Some(a);
                }
            },
            None => {
                self.ball_actor_id = None;
            },
        }
        Ok(())
    }

    /// Everything except the ball actor id, for frame equality.
    pub open spec fn non_ball_state(self) -> (Replay, ModelerView, LinksView, Seq<PlayerId>, Seq<PlayerId>, Seq<DemolishInfo>, Seq<(DemolishFx, usize)>) {
        (
            self.replay,
            self.actor_state@,
            self.links(),
            self.team_zero@,
            self.team_one@,
            self.demolishes@,
            self.known_demolishes@,
        )
    }

    /// The first live actor of the first ball archetype that has one.
    fn find_ball_actor(&self) -> (r: Option<ActorId>)
        requires
            self.wf(),
        ensures
            r == spec_find_ball(self.replay, self.actor_state@),
    {
        let names = crate::constants::ball_types();
        let ids = match self.get_actor_ids_by_type(&names[0]) {
            Ok(ids) => ids,
            Err(_) => Vec::new(),
        };
        if ids.len() > 0 {
            return Some(ids[0]);
        }
        let ids = match self.get_actor_ids_by_type(&names[1]) {
            Ok(ids) => ids,
            Err(_) => Vec::new(),
        };
        if ids.len() > 0 {
            return Some(ids[0]);
        }
        let ids = match self.get_actor_ids_by_type(&names[2]) {
            Ok(ids) => ids,
            Err(_) => Vec::new(),
        };
        if ids.len() > 0 {
            return Some(ids[0]);
        }
        let ids = match self.get_actor_ids_by_type(&names[3]) {
            Ok(ids) => ids,
            Err(_) => Vec::new(),
        };
        if ids.len() > 0 {
            return Some(ids[0]);
        }
        let ids = match self.get_actor_ids_by_type(&names[4]) {
            Ok(ids) => ids,
            Err(_) => Vec::new(),
        };
        if ids.len() > 0 {
            return Some(ids[0]);
        }
        None
    }
}

/// The ball actor after one frame: a deleted ball actor is forgotten;
/// while none is known, the first live actor of a known ball archetype is
/// taken, unless this frame also deletes it.
pub open spec fn spec_update_ball(
    r: Replay,
    mv: ModelerView,
    ball: Option<ActorId>,
    frame: Frame,
) -> Option<ActorId> {
    let candidate = if ball is Some {
        ball
    } else {
        spec_find_ball(r, mv)
    };
    match candidate {
        Some(a) => if crate::actor_state::has_id(frame.deleted_actors@, a) {
            None
        } else {
            Some(a)
        },
        None => None,
    }
}

/// The first live actor of one ball archetype name, if any.
pub open spec fn spec_first_ball_of(r: Replay, mv: ModelerView, name: Seq<char>) -> Option<ActorId> {
    match spec_ids_of_type(r, mv, name) {
        Some(ids) => if ids.len() > 0 {
            Some(ids[0])
        } else {
            None
        },
        None => None,
    }
}

/// The ball actor: the first live actor over the known ball archetype
/// names, in their fixed order.
pub open spec fn spec_find_ball(r: Replay, mv: ModelerView) -> Option<ActorId> {
    match spec_first_ball_of(r, mv, "Archetypes.Ball.Ball_Default"@) {
        Some(a) => Some(a),
        None => match spec_first_ball_of(r, mv, "Archetypes.Ball.Ball_Basketball"@) {
            Some(a) => Some(a),
            None => match spec_first_ball_of(r, mv, "Archetypes.Ball.Ball_Puck"@) {
                Some(a) => Some(a),
                None => match spec_first_ball_of(r, mv, "Archetypes.Ball.CubeBall"@) {
                    Some(a) => Some(a),
                    None => spec_first_ball_of(r, mv, "Archetypes.Ball.Ball_Breakout"@),
                },
            },
        },
    }
}

/// Some live car actor carries the demolish value.
pub open spec fn demolish_observed(p: ReplayProcessor, d: DemolishFx) -> bool {
    exists|a: ActorId|
        spec_actor_attribute(p, a, "TAGame.Car_TA:ReplicatedDemolishGoalExplosion"@) == Some(
            Attribute::DemolishFx(d),
        )
}

/// The discovered players and the fixed rosters name the same set: every
/// identity-link key is on a roster, and every rostered player has an
/// identity link.
pub open spec fn spec_player_set_consistent(p: ReplayProcessor) -> bool {
    &&& forall|i: int|
        0 <= i < p.player_to_actor_id.entries_seq().len() ==> roster_has(
            p.team_zero@ + p.team_one@,
            (#[trigger] p.player_to_actor_id.entries_seq()[i]).0,
        )
    &&& forall|j: int|
        0 <= j < p.team_zero@.len() + p.team_one@.len() ==> p.player_to_actor_id@.contains_key(
            crate::player_map::player_key(#[trigger] (p.team_zero@ + p.team_one@)[j]),
        )
}

/// The roster names a player with this identity.
pub open spec fn roster_has(roster: Seq<PlayerId>, p: PlayerId) -> bool {
    exists|x: int|
        0 <= x < roster.len() && crate::player_map::player_key(#[trigger] roster[x])
            == crate::player_map::player_key(p)
}

/// Whether the roster names the player.
pub fn roster_contains(roster: &Vec<PlayerId>, p: &PlayerId) -> (r: bool)
    ensures
        r == roster_has(roster@, *p),
{
    let n = roster.len();
    for x in 0..n
        invariant
            n == roster@.len(),
            forall|y: int|
                0 <= y < x ==> crate::player_map::player_key(#[trigger] roster@[y])
                    != crate::player_map::player_key(*p),
    {
        if roster[x] == *p {
            proof {
                crate::player_map::lemma_player_key_eq(roster@[x as int], *p);
            }
            return true;
        }
        proof {
            crate::player_map::lemma_player_key_eq(roster@[x as int], *p);
        }
    }
    proof {
        if roster_has(roster@, *p) {
            let y = choose|y: int|
                0 <= y < roster@.len() && crate::player_map::player_key(#[trigger] roster@[y])
                    == crate::player_map::player_key(*p);
            assert(crate::player_map::player_key(roster@[y]) != crate::player_map::player_key(*p));
        }
    }
    false
}

/// Whether a slice of ids holds the id.
pub fn contains_id(ids: &Vec<ActorId>, id: ActorId) -> (r: bool)
    ensures
        r == crate::actor_state::has_id(ids@, id),
{
    let n = ids.len();
    for i in 0..n
        invariant
            n == ids@.len(),
            forall|j: int| 0 <= j < i ==> ids@[j] != id,
    {
        if ids[i] == id {
            return true;
        }
    }
    proof {
        if crate::actor_state::has_id(ids@, id) {
            let j = choose|j: int| 0 <= j < ids@.len() && ids@[j] == id;
            assert(ids@[j] != id);
        }
    }
    false
}

/// The byte an actor holds under a property, or zero when absent or of
/// another kind.
pub open spec fn spec_byte_attr_or_zero(r: Replay, mv: ModelerView, k: ActorId, name: Seq<char>) -> u8 {
    match spec_actor_attribute_v(r, mv, k, name) {
        Some(Attribute::Byte(b)) => b,
        _ => 0,
    }
}

/// The wire-observed discrete boost amount of a boost component: the newer
/// replicated-boost attribute when present, else the legacy boost-amount
/// byte, else zero.
pub open spec fn spec_boost_wire(r: Replay, mv: ModelerView, k: ActorId) -> u8 {
    match spec_actor_attribute_v(r, mv, k, "TAGame.CarComponent_Boost_TA:ReplicatedBoost"@) {
        Some(Attribute::ReplicatedBoost(b)) => b,
        _ => spec_byte_attr_or_zero(r, mv, k, "TAGame.CarComponent_Boost_TA:ReplicatedBoostAmount"@),
    }
}

/// Whether the boost component is active: the low bit of the
/// component-active byte.
pub open spec fn spec_boost_active(r: Replay, mv: ModelerView, k: ActorId) -> bool {
    spec_byte_attr_or_zero(r, mv, k, "TAGame.CarComponent_TA:ReplicatedActive"@) % 2 == 1
}

/// The next derived continuous boost level, in milli-units: a fresh wire
/// reading replaces the carried level, drain is integrated at 8000/93
/// milli-units per millisecond while active, and the result is clamped at
/// zero.
pub open spec fn spec_boost_next(st: ActorStateView, wire: u8, active: bool, delta: Milli) -> int {
    let derived: int = match st.boost_amount {
        Some(p) => p.0 as int,
        None => 0,
    };
    let last: int = match st.last_boost_amount {
        Some(p) => p.0 as int,
        None => wire as int,
    };
    let cur: int = if wire as int != last {
        wire as int * 1000
    } else {
        derived
    };
    let cur2: int = if active {
        cur - delta as int * (crate::constants::BOOST_DRAIN_NUM as int) / (crate::constants::BOOST_DRAIN_DEN as int)
    } else {
        cur
    };
    if cur2 >= 0 {
        cur2
    } else {
        0
    }
}

/// The derived boost level never leaves `[0, 255]` units, whatever the wire
/// carries.
pub proof fn lemma_boost_next_range(st: ActorStateView, wire: u8, active: bool, delta: Milli)
    requires
        0 <= delta,
        st.boost_amount matches Some(p) ==> 0 <= p.0 <= 255_000,
    ensures
        0 <= spec_boost_next(st, wire, active, delta) <= 255_000,
{
    assert(delta as int * (crate::constants::BOOST_DRAIN_NUM as int) / (crate::constants::BOOST_DRAIN_DEN as int) >= 0) by {
        assert(delta as int * (crate::constants::BOOST_DRAIN_NUM as int) >= 0) by (nonlinear_arith)
            requires
                delta >= 0,
        ;
        vstd::arithmetic::div_mod::lemma_div_is_ordered(
            0,
            delta as int * (crate::constants::BOOST_DRAIN_NUM as int),
            crate::constants::BOOST_DRAIN_DEN as int,
        );
    }
}

/// While every wire reading stays at or below 100 units, the derived boost
/// level stays within `[0, 100]` units.
pub proof fn lemma_boost_next_within_hundred(
    st: ActorStateView,
    wire: u8,
    active: bool,
    delta: Milli,
)
    requires
        0 <= delta,
        wire <= 100,
        st.boost_amount matches Some(p) ==> 0 <= p.0 <= 100_000,
    ensures
        0 <= spec_boost_next(st, wire, active, delta) <= 100_000,
{
    assert(delta as int * (crate::constants::BOOST_DRAIN_NUM as int) / (crate::constants::BOOST_DRAIN_DEN as int) >= 0) by {
        assert(delta as int * (crate::constants::BOOST_DRAIN_NUM as int) >= 0) by (nonlinear_arith)
            requires
                delta >= 0,
        ;
        vstd::arithmetic::div_mod::lemma_div_is_ordered(
            0,
            delta as int * (crate::constants::BOOST_DRAIN_NUM as int),
            crate::constants::BOOST_DRAIN_DEN as int,
        );
    }
}

/// Boost draining never raises the level: while no fresh wire reading
/// arrives and the component is active, the derived level is monotone
/// non-increasing.
pub proof fn lemma_boost_drain_monotone(st: ActorStateView, wire: u8, active: bool, delta: Milli)
    requires
        0 <= delta,
        st.boost_amount matches Some(p) ==> p.0 >= 0,
        st.last_boost_amount matches Some(p) && p.0 == wire,
    ensures
        st.boost_amount matches Some(p) ==> spec_boost_next(st, wire, active, delta) <= p.0,
{
    assert(delta as int * (crate::constants::BOOST_DRAIN_NUM as int) / (crate::constants::BOOST_DRAIN_DEN as int) >= 0) by {
        assert(delta as int * (crate::constants::BOOST_DRAIN_NUM as int) >= 0) by (nonlinear_arith)
            requires
                delta >= 0,
        ;
        vstd::arithmetic::div_mod::lemma_div_is_ordered(
            0,
            delta as int * (crate::constants::BOOST_DRAIN_NUM as int),
            crate::constants::BOOST_DRAIN_DEN as int,
        );
    }
}

/// The state of a boost actor after one frame's derivation.
pub open spec fn spec_boosted_state(r: Replay, mv: ModelerView, k: ActorId, delta: Milli, frame_index: usize) -> ActorStateView {
    let st = mv.states[k];
    let wire = spec_boost_wire(r, mv, k);
    let active = spec_boost_active(r, mv, k);
    ActorStateView {
        boost_amount: Some((spec_boost_next(st, wire, active, delta) as i64, frame_index)),
        last_boost_amount: Some((wire, frame_index)),
        ..st
    }
}

/// The first `i` listed boost actors carry their derived values; the rest
/// of the world is as before.
pub open spec fn boosted_upto(
    r: Replay,
    mv: ModelerView,
    cur: ModelerView,
    ids: Seq<i32>,
    i: int,
    delta: Milli,
    frame_index: usize,
) -> bool {
    &&& forall|k: i32| #[trigger]
        crate::actor_state::has_id(ids.take(i), k) ==> cur.states[k] == spec_boosted_state(
            r,
            mv,
            k,
            delta,
            frame_index,
        )
    &&& forall|k: i32|
        mv.states.contains_key(k) && !crate::actor_state::has_id(ids.take(i), k)
            ==> cur.states[k] == mv.states[k]
}

impl ReplayProcessor {
    /// Reads the boost values of a boost component actor: the wire-observed
    /// discrete amount, the stored shadow of the last wire reading, the raw
    /// component-active byte, the carried derived level in milli-units, and
    /// whether the component is active.
    pub fn get_current_boost_values(&self, actor_id: ActorId) -> (r: (u8, u8, u8, Milli, bool))
        requires
            self.wf(),
            self.actor_state@.states.contains_key(actor_id),
        ensures
            r.0 == spec_boost_wire(self.replay, self.actor_state@, actor_id),
            r.1 == match self.actor_state@.states[actor_id].last_boost_amount {
                Some(p) => p.0,
                None => r.0,
            },
            r.2 == spec_byte_attr_or_zero(
                self.replay,
                self.actor_state@,
                actor_id,
                "TAGame.CarComponent_TA:ReplicatedActive"@,
            ),
            r.3 == match self.actor_state@.states[actor_id].boost_amount {
                Some(p) => p.0,
                None => 0,
            },
            r.4 == spec_boost_active(self.replay, self.actor_state@, actor_id),
    {
        let si = match self.actor_state.actor_states.get_index(actor_id) {
            Some(si) => si,
            None => {
                proof {
                    assert(false);
                }
                0
            },
        };
        proof {
            self.actor_state.actor_states.lemma_entry_in_view(si as int);
        }
        let state = self.actor_state.actor_states.value_at(si);
        let amount_value: u8 = match self.get_attribute(
            &state.attributes,
            &crate::constants::boost_replicated_key(),
        ) {
            Ok(a) => match a {
                Attribute::ReplicatedBoost(b) => *b,
                _ => self.legacy_boost_byte(&state.attributes),
            },
            Err(_) => self.legacy_boost_byte(&state.attributes),
        };
        let active_value: u8 = match self.get_attribute(
            &state.attributes,
            &crate::constants::component_active_key(),
        ) {
            Ok(a) => match a {
                Attribute::Byte(b) => *b,
                _ => 0,
            },
            Err(_) => 0,
        };
        let is_active = active_value % 2 == 1;
        let derived_value: Milli = match state.derived_attributes.boost_amount {
            Some(p) => p.0,
            None => 0,
        };
        let last_boost_amount: u8 = match state.derived_attributes.last_boost_amount {
            Some(p) => p.0,
            None => amount_value,
        };
        (amount_value, last_boost_amount, active_value, derived_value, is_active)
    }

    /// The legacy discrete boost byte, or zero when absent or of another
    /// kind.
    fn legacy_boost_byte(&self, attributes: &IdMap<(Attribute, usize)>) -> (r: u8)
        requires
            self.wf(),
            attributes.wf(),
        ensures
            r == match spec_attribute_in(
                self.replay,
                attributes@,
                "TAGame.CarComponent_Boost_TA:ReplicatedBoostAmount"@,
            ) {
                Some(p) => match p.0 {
                    Attribute::Byte(b) => b,
                    _ => 0,
                },
                None => 0,
            },
    {
        match self.get_attribute(attributes, &crate::constants::boost_amount_key()) {
            Ok(a) => match a {
                Attribute::Byte(b) => *b,
                _ => 0,
            },
            Err(_) => 0,
        }
    }

    /// Everything except the modeler, for frame equality.
    pub open spec fn non_modeler_state(self) -> (Replay, LinksView, Option<ActorId>, Seq<PlayerId>, Seq<PlayerId>, Seq<DemolishInfo>, Seq<(DemolishFx, usize)>) {
        (
            self.replay,
            self.links(),
            self.ball_actor_id,
            self.team_zero@,
            self.team_one@,
            self.demolishes@,
            self.known_demolishes@,
        )
    }

    /// Integrates the continuous boost level of every boost component for
    /// one frame: a fresh wire reading becomes authoritative, drain is
    /// subtracted while the component is active, and the level is clamped at
    /// zero. Every other actor is untouched.
    #[verifier::loop_isolation(false)]
    pub fn update_boost_amounts(&mut self, frame: &Frame, frame_index: usize) -> (r:
        SubtrActorResult<()>)
        requires
            old(self).wf(),
            0 <= frame.delta <= MAX_TIME,
        ensures
            final(self).wf(),
            final(self).non_modeler_state() == old(self).non_modeler_state(),
            final(self).actor_state@.by_type == old(self).actor_state@.by_type,
            match r {
                Ok(_) => (spec_ids_of_type(
                    old(self).replay,
                    old(self).actor_state@,
                    "Archetypes.CarComponents.CarComponent_Boost"@,
                ) matches Some(ids) && {
                    &&& final(self).actor_state@.states.dom() == old(self).actor_state@.states.dom()
                    &&& boosted_upto(
                        old(self).replay,
                        old(self).actor_state@,
                        final(self).actor_state@,
                        ids,
                        ids.len() as int,
                        frame.delta,
                        frame_index,
                    )
                }),
                Err(e) => spec_ids_of_type(
                    old(self).replay,
                    old(self).actor_state@,
                    "Archetypes.CarComponents.CarComponent_Boost"@,
                ) is None && final(self).actor_state@ == old(self).actor_state@ && (e.variant
                    matches SubtrActorErrorVariant::ObjectIdNotFound { .. }),
            },
    {
        let ghost r0 = self.replay;
        let ghost mv0 = self.actor_state@;
        let ids = self.get_actor_ids_by_type(&crate::constants::boost_type())?;
        let ghost ids_seq = ids@;
        let ghost boost_oid = spec_object_id(r0, "Archetypes.CarComponents.CarComponent_Boost"@).unwrap() as i32;
        proof {
            assert(spec_ids_of_type(r0, mv0, "Archetypes.CarComponents.CarComponent_Boost"@)
                == Some(ids_seq));
            if mv0.by_type.contains_key(boost_oid) {
                assert(crate::actor_state::distinct_ids(ids_seq));
                assert forall|j: int| 0 <= j < ids_seq.len() implies mv0.states.contains_key(
                    #[trigger] ids_seq[j],
                ) by {
                    assert(mv0.by_type[boost_oid][j] == ids_seq[j]);
                }
            } else {
                assert(ids_seq.len() == 0);
            }
        }
        let n = ids.len();
        for i in 0..n
            invariant
                self.wf(),
                n == ids_seq.len(),
                ids@ == ids_seq,
                crate::actor_state::distinct_ids(ids_seq),
                spec_ids_of_type(r0, mv0, "Archetypes.CarComponents.CarComponent_Boost"@) == Some(
                    ids_seq,
                ),
                r0 == self.replay,
                0 <= frame.delta <= MAX_TIME,
                self.non_modeler_state() == old(self).non_modeler_state(),
                self.actor_state@.by_type == mv0.by_type,
                mv0 == old(self).actor_state@,
                self.actor_state@.states.dom() == mv0.states.dom(),
                forall|j: int|
                    0 <= j < ids_seq.len() ==> mv0.states.contains_key(#[trigger] ids_seq[j]),
                boosted_upto(
                    r0,
                    mv0,
                    self.actor_state@,
                    ids_seq,
                    i as int,
                    frame.delta,
                    frame_index,
                ),
        {
            let k = ids[i];
            proof {
                assert(ids_seq[i as int] == k);
                assert(mv0.states.contains_key(k));
                assert(!crate::actor_state::has_id(ids_seq.take(i as int), k)) by {
                    if crate::actor_state::has_id(ids_seq.take(i as int), k) {
                        let j = choose|j: int|
                            0 <= j < i && #[trigger] ids_seq.take(i as int)[j] == k;
                        assert(ids_seq[j] == ids_seq[i as int]);
                    }
                }
                assert(self.actor_state@.states[k] == mv0.states[k]);
            }
            let si = match self.actor_state.actor_states.get_index(k) {
                Some(si) => si,
                None => {
                    proof {
                        assert(self.actor_state@.states.contains_key(k));
                        assert(false);
                    }
                    0
                },
            };
            proof {
                self.actor_state.actor_states.lemma_entry_in_view(si as int);
            }
            // Read the wire values against the actor's current attributes.
            let (wire, last_value, _active_byte, derived, is_active) = self
                .get_current_boost_values(k);
            proof {
                assert(wire == spec_boost_wire(r0, mv0, k));
                assert(is_active == spec_boost_active(r0, mv0, k));
                assert(self.actor_state.actor_states@.contains_key(k));
                assert(self.actor_state.actor_states@[k].wf());
                assert(0 <= derived <= 255_000);
            }
            let mut current: i64 = if wire != last_value {
                (wire as i64) * 1000
            } else {
                derived
            };
            if is_active {
                current = current - (frame.delta * crate::constants::BOOST_DRAIN_NUM) / crate::constants::BOOST_DRAIN_DEN;
            }
            if current < 0 {
                current = 0;
            }
            proof {
                assert(current == spec_boost_next(mv0.states[k], wire, is_active, frame.delta));
                assert(match mv0.states[k].boost_amount {
                    Some(p) => 0 <= p.0 <= 255_000,
                    None => true,
                });
                lemma_boost_next_range(mv0.states[k], wire, is_active, frame.delta);
            }
            // Write the derived values back.
            let blank = ActorState {
                attributes: IdMap::new(),
                derived_attributes: crate::actor_state::DerivedAttributes {
                    boost_amount: None,
                    last_boost_amount: None,
                },
                object_id: 0,
                name_id: None,
            };
            let ghost before = self.actor_state@;
            let ghost before_states = self.actor_state.actor_states@;
            proof {
                assert(boosted_upto(
                    r0,
                    mv0,
                    before,
                    ids_seq,
                    i as int,
                    frame.delta,
                    frame_index,
                ));
            }
            let mut st = self.actor_state.actor_states.replace_value_at(si, blank);
            st.derived_attributes.boost_amount = Some((current, frame_index));
            st.derived_attributes.last_boost_amount = Some((wire, frame_index));
            let ghost stv = st@;
            let _ = self.actor_state.actor_states.replace_value_at(si, st);
            proof {
                assert(self.actor_state.actor_states@ =~= before_states.insert(k, st));
                assert(self.actor_state@.states =~= before.states.insert(k, stv));
                assert(self.actor_state@.by_type =~= before.by_type);
                assert(stv == spec_boosted_state(r0, mv0, k, frame.delta, frame_index));
                assert(self.actor_state@.states.dom() =~= mv0.states.dom());
                self.actor_state.lemma_states_value_change_keeps_wf(before, k);
                assert(boosted_upto(
                    r0,
                    mv0,
                    self.actor_state@,
                    ids_seq,
                    i as int + 1,
                    frame.delta,
                    frame_index,
                )) by {
                assert forall|k2: i32| #[trigger]
                    self.actor_state.actor_states@.contains_key(k2) implies self
                    .actor_state
                    .actor_states@[k2].wf() by {
                    if k2 != k {
                        assert(before_states.contains_key(k2));
                        assert(self.actor_state.actor_states@[k2] == before_states[k2]);
                    } else {
                        assert(self.actor_state.actor_states@[k2] == st);
                        assert(st.attributes.wf());
                        assert(forall|o: i32| #[trigger]
                            st.attributes@.contains_key(o) ==> crate::util::attribute_bounded(
                                st.attributes@[o].0,
                            ));
                        assert(st.derived_attributes.boost_amount == Some((current, frame_index)));
                        assert(0 <= current <= 255_000);
                    }
                }

                    assert forall|k2: ActorId| #[trigger]
                        crate::actor_state::has_id(ids_seq.take(i as int + 1), k2) implies self
                        .actor_state@.states[k2] == spec_boosted_state(
                        r0,
                        mv0,
                        k2,
                        frame.delta,
                        frame_index,
                    ) by {
                        if k2 != k {
                            let j = choose|j: int|
                                0 <= j < i + 1 && #[trigger] ids_seq.take(i as int + 1)[j] == k2;
                            assert(j != i) by {
                                assert(ids_seq.take(i as int + 1)[i as int] == k);
                            }
                            assert(ids_seq.take(i as int)[j] == k2);
                            assert(crate::actor_state::has_id(ids_seq.take(i as int), k2));
                            assert(before.states[k2] == spec_boosted_state(
                                r0,
                                mv0,
                                k2,
                                frame.delta,
                                frame_index,
                            ));
                            assert(self.actor_state@.states[k2] == before.states[k2]);
                        } else {
                            assert(self.actor_state@.states[k2] == stv);
                        }
                    }
                    assert forall|k2: ActorId|
                        mv0.states.contains_key(k2) && !crate::actor_state::has_id(
                            ids_seq.take(i as int + 1),
                            k2,
                        ) implies self.actor_state@.states[k2] == mv0.states[k2] by {
                        assert(k2 != k) by {
                            if k2 == k {
                                assert(ids_seq.take(i as int + 1)[i as int] == k);
                            }
                        }
                        assert(!crate::actor_state::has_id(ids_seq.take(i as int), k2)) by {
                            if crate::actor_state::has_id(ids_seq.take(i as int), k2) {
                                let j = choose|j: int|
                                    0 <= j < i && #[trigger] ids_seq.take(i as int)[j] == k2;
                                assert(ids_seq.take(i as int + 1)[j] == k2);
                            }
                        }
                        assert(before.states[k2] == mv0.states[k2]);
                        assert(self.actor_state@.states[k2] == before.states[k2]);
                    }
                }
            }
        }
        proof {
            assert(ids_seq.take(n as int) =~= ids_seq);
        }
        Ok(())
    }
}

/// The attribute of the first update in the sequence that names the actor
/// and the object, if any.
pub open spec fn spec_first_update(ups: Seq<crate::model::UpdatedAttribute>, actor: ActorId, oid: ObjectId) -> Option<Attribute>
    decreases ups.len(),
{
    if ups.len() == 0 {
        None
    } else if ups[0].actor_id == actor && ups[0].object_id == oid {
        Some(ups[0].attribute)
    } else {
        spec_first_update(ups.drop_first(), actor, oid)
    }
}

/// The attribute of the first update of the frame that names the actor and
/// the object, cloned.
pub fn first_update_in_frame(frame: &Frame, actor: ActorId, oid: ObjectId) -> (r: Option<Attribute>)
    ensures
        r == spec_first_update(frame.updated_actors@, actor, oid),
        r matches Some(a) ==> exists|i: int|
            0 <= i < frame.updated_actors@.len() && (#[trigger] frame.updated_actors@[i]).actor_id
                == actor && frame.updated_actors@[i].object_id == oid
                && frame.updated_actors@[i].attribute == a,
{
    let ghost ups = frame.updated_actors@;
    proof {
        assert(ups.skip(0) =~= ups);
    }
    let n = frame.updated_actors.len();
    for i in 0..n
        invariant
            n == ups.len(),
            ups == frame.updated_actors@,
            spec_first_update(ups, actor, oid) == spec_first_update(ups.skip(i as int), actor, oid),
    {
        proof {
            assert(ups.skip(i as int)[0] == ups[i as int]);
        }
        if frame.updated_actors[i].actor_id == actor && frame.updated_actors[i].object_id == oid {
            let a = frame.updated_actors[i].attribute.duplicate();
            proof {
                assert(spec_first_update(ups.skip(i as int), actor, oid) == Some(
                    ups[i as int].attribute,
                ));
            }
            return Some(a);
        }
        proof {
            assert(ups.skip(i as int).drop_first() =~= ups.skip(i as int + 1));
        }
    }
    proof {
        assert(ups.skip(n as int) =~= Seq::<crate::model::UpdatedAttribute>::empty());
    }
    None
}

/// What a successful interpolated-rigid-body query returns. With `p0` the
/// stored body and its frame, one of three cases holds: the query time is
/// within the threshold of the stored frame's time and the stored body is
/// returned; or the nearest observation `j` in the direction of the query
/// — with no observation strictly between — is within the threshold and
/// its body is returned; or the result interpolates the two observations
/// ordered by time, coordinate by coordinate, with velocities and sleep
/// carried from the earlier body.
pub open spec fn spec_interp_outcome(
    p: ReplayProcessor,
    actor_id: ActorId,
    time: Milli,
    close_enough: Milli,
    rb: RigidBody,
) -> bool {
    spec_actor_rigid_body(p, actor_id) matches Some(pr) && p.replay.network_frames matches Some(
        fs,
    ) && pr.1 < fs@.len() && {
        let t0 = fs@[pr.1 as int].time;
        ||| (abs_int(time - t0) <= abs_int(close_enough as int) && rb == pr.0)
        ||| (exists|j: int|
            {
                &&& 0 <= j < fs@.len()
                &&& j != pr.1
                &&& (time - t0 > abs_int(close_enough as int) ==> pr.1 < j && (forall|m: int|
                    pr.1 < m < j ==> spec_first_update(
                        (#[trigger] fs@[m]).updated_actors@,
                        actor_id,
                        spec_rb_oid(p.replay),
                    ) is None))
                &&& (t0 - time > abs_int(close_enough as int) ==> j < pr.1 && (forall|m: int|
                    j < m < pr.1 ==> spec_first_update(
                        (#[trigger] fs@[m]).updated_actors@,
                        actor_id,
                        spec_rb_oid(p.replay),
                    ) is None))
                &&& (#[trigger] spec_first_update(
                    fs@[j].updated_actors@,
                    actor_id,
                    spec_rb_oid(p.replay),
                )) matches Some(Attribute::RigidBody(fb)) && {
                    let t1 = fs@[j].time;
                    ||| (abs_int(t1 - time) <= close_enough && rb == fb)
                    ||| ({
                        let sb = if pr.1 < j {
                            pr.0
                        } else {
                            fb
                        };
                        let eb = if pr.1 < j {
                            fb
                        } else {
                            pr.0
                        };
                        let st = if pr.1 < j {
                            t0
                        } else {
                            t1
                        };
                        let et = if pr.1 < j {
                            t1
                        } else {
                            t0
                        };
                        &&& st <= time <= et
                        &&& if et == st {
                            rb == sb
                        } else {
                            &&& rb.location.x == crate::util::spec_lerp(
                                sb.location.x as int,
                                eb.location.x as int,
                                (time - st) as int,
                                (et - st) as int,
                            )
                            &&& rb.location.y == crate::util::spec_lerp(
                                sb.location.y as int,
                                eb.location.y as int,
                                (time - st) as int,
                                (et - st) as int,
                            )
                            &&& rb.location.z == crate::util::spec_lerp(
                                sb.location.z as int,
                                eb.location.z as int,
                                (time - st) as int,
                                (et - st) as int,
                            )
                            &&& rb.rotation.x == crate::util::spec_lerp(
                                sb.rotation.x as int,
                                eb.rotation.x as int,
                                (time - st) as int,
                                (et - st) as int,
                            )
                            &&& rb.rotation.y == crate::util::spec_lerp(
                                sb.rotation.y as int,
                                eb.rotation.y as int,
                                (time - st) as int,
                                (et - st) as int,
                            )
                            &&& rb.rotation.z == crate::util::spec_lerp(
                                sb.rotation.z as int,
                                eb.rotation.z as int,
                                (time - st) as int,
                                (et - st) as int,
                            )
                            &&& rb.rotation.w == crate::util::spec_lerp(
                                sb.rotation.w as int,
                                eb.rotation.w as int,
                                (time - st) as int,
                                (et - st) as int,
                            )
                            &&& rb.sleeping == sb.sleeping
                            &&& rb.linear_velocity == sb.linear_velocity
                            &&& rb.angular_velocity == sb.angular_velocity
                        }
                    })
                }
            })
    }
}

impl ReplayProcessor {
    /// The frame at an index; `NoNetworkFrames` when the replay carries no
    /// frames, `FrameIndexOutOfBounds` when the index is past the end.
    pub fn get_frame(&self, frame_index: usize) -> (r: SubtrActorResult<&Frame>)
        ensures
            match r {
                Ok(f) => (self.replay.network_frames matches Some(fs) && frame_index < fs@.len()
                    && *f == fs@[frame_index as int]),
                Err(e) => ((e.variant matches SubtrActorErrorVariant::NoNetworkFrames
                    && self.replay.network_frames is None) || (e.variant
                    matches SubtrActorErrorVariant::FrameIndexOutOfBounds
                    && self.replay.network_frames matches Some(fs) && frame_index >= fs@.len())),
            },
    {
        match &self.replay.network_frames {
            None => SubtrActorError::new_result(SubtrActorErrorVariant::NoNetworkFrames),
            Some(frames) => {
                if frame_index < frames.len() {
                    Ok(&frames[frame_index])
                } else {
                    SubtrActorError::new_result(SubtrActorErrorVariant::FrameIndexOutOfBounds)
                }
            },
        }
    }

    /// Searches the replay's frames for the next (or previous) update of the
    /// actor's object, starting beside `current_index`, and returns the
    /// attribute of the first update of the nearest such frame.
    pub fn find_update_in_direction(
        &self,
        current_index: usize,
        actor_id: ActorId,
        object_id: ObjectId,
        direction: crate::util::SearchDirection,
    ) -> (r: SubtrActorResult<(Attribute, usize)>)
        requires
            self.wf(),
        ensures
            match r {
                Ok(p) => (self.replay.network_frames matches Some(fs) && p.1 < fs@.len() && {
                    &&& direction matches crate::util::SearchDirection::Forward
                        ==> current_index < p.1 && forall|m: int|
                        current_index < m < p.1 ==> spec_first_update(
                            (#[trigger] fs@[m]).updated_actors@,
                            actor_id,
                            object_id,
                        ) is None
                    &&& direction matches crate::util::SearchDirection::Backward ==> p.1
                        < current_index && forall|m: int|
                        p.1 < m < current_index && m < fs@.len() ==> spec_first_update(
                            (#[trigger] fs@[m]).updated_actors@,
                            actor_id,
                            object_id,
                        ) is None
                    &&& spec_first_update(fs@[p.1 as int].updated_actors@, actor_id, object_id)
                        == Some(p.0)
                    &&& attribute_bounded(p.0)
                }),
                Err(e) => ((e.variant matches SubtrActorErrorVariant::NoNetworkFrames
                    && self.replay.network_frames is None) || (e.variant
                    matches SubtrActorErrorVariant::NoUpdateAfterFrame { .. }
                    && self.replay.network_frames matches Some(fs) && {
                    &&& direction matches crate::util::SearchDirection::Forward ==> forall|m: int|
                        current_index < m < fs@.len() ==> spec_first_update(
                            (#[trigger] fs@[m]).updated_actors@,
                            actor_id,
                            object_id,
                        ) is None
                    &&& direction matches crate::util::SearchDirection::Backward ==> forall|
                        m: int,
                    |
                        0 <= m < current_index && m < fs@.len() ==> spec_first_update(
                            (#[trigger] fs@[m]).updated_actors@,
                            actor_id,
                            object_id,
                        ) is None
                })),
            },
    {
        let frames = match &self.replay.network_frames {
            None => {
                return SubtrActorError::new_result(SubtrActorErrorVariant::NoNetworkFrames);
            },
            Some(frames) => frames,
        };
        let ghost fs = frames@;
        let n = frames.len();
        match direction {
            crate::util::SearchDirection::Forward => {
                if current_index >= n {
                    return SubtrActorError::new_result(
                        SubtrActorErrorVariant::NoUpdateAfterFrame {
                            actor_id,
                            object_id,
                            frame_index: current_index,
                        },
                    );
                }
                let mut i = current_index + 1;
                while i < n
                    invariant
                        direction matches crate::util::SearchDirection::Forward,
                        n == fs.len(),
                        fs == frames@,
                        current_index < i,
                        replay_bounded(self.replay),
                        self.replay.network_frames == Some(*frames),
                        forall|m: int|
                            current_index < m < i ==> spec_first_update(
                                (#[trigger] fs[m]).updated_actors@,
                                actor_id,
                                object_id,
                            ) is None,
                    decreases n - i,
                {
                    match first_update_in_frame(&frames[i], actor_id, object_id) {
                        Some(a) => {
                            proof {
                                let j = choose|j: int|
                                    0 <= j < fs[i as int].updated_actors@.len() && (
                                    #[trigger] fs[i as int].updated_actors@[j]).actor_id
                                        == actor_id && fs[i as int].updated_actors@[j].object_id
                                        == object_id && fs[i as int].updated_actors@[j].attribute
                                        == a;
                                assert(attribute_bounded(a));
                            }
                            return Ok((a, i));
                        },
                        None => {},
                    }
                    i += 1;
                }
                SubtrActorError::new_result(
                    SubtrActorErrorVariant::NoUpdateAfterFrame {
                        actor_id,
                        object_id,
                        frame_index: current_index,
                    },
                )
            },
            crate::util::SearchDirection::Backward => {
                let mut i = if current_index < n {
                    current_index
                } else {
                    n
                };
                while i > 0
                    invariant
                        direction matches crate::util::SearchDirection::Backward,
                        n == fs.len(),
                        fs == frames@,
                        i <= n,
                        i <= current_index,
                        replay_bounded(self.replay),
                        self.replay.network_frames == Some(*frames),
                        forall|m: int|
                            i <= m < current_index && 0 <= m < fs.len() ==> spec_first_update(
                                (#[trigger] fs[m]).updated_actors@,
                                actor_id,
                                object_id,
                            ) is None,
                    decreases i,
                {
                    i -= 1;
                    match first_update_in_frame(&frames[i], actor_id, object_id) {
                        Some(a) => {
                            proof {
                                let j = choose|j: int|
                                    0 <= j < fs[i as int].updated_actors@.len() && (
                                    #[trigger] fs[i as int].updated_actors@[j]).actor_id
                                        == actor_id && fs[i as int].updated_actors@[j].object_id
                                        == object_id && fs[i as int].updated_actors@[j].attribute
                                        == a;
                                assert(attribute_bounded(a));
                            }
                            return Ok((a, i));
                        },
                        None => {},
                    }
                }
                SubtrActorError::new_result(
                    SubtrActorErrorVariant::NoUpdateAfterFrame {
                        actor_id,
                        object_id,
                        frame_index: current_index,
                    },
                )
            },
        }
    }

    /// A rigid body extrapolated from its frame's time to the target time by
    /// its velocities.
    pub fn velocities_applied_rigid_body(
        &self,
        rigid_body: &RigidBody,
        rb_frame_index: usize,
        target_time: Milli,
    ) -> (r: SubtrActorResult<RigidBody>)
        requires
            self.wf(),
            body_bounded(*rigid_body),
            time_bounded(target_time as int),
        ensures
            match r {
                Ok(rb) => (self.replay.network_frames matches Some(fs) && rb_frame_index
                    < fs@.len() && rb == crate::util::spec_apply_velocities(
                    *rigid_body,
                    (target_time - fs@[rb_frame_index as int].time) as i64,
                )),
                Err(_) => !(self.replay.network_frames matches Some(fs) && rb_frame_index
                    < fs@.len()),
            },
    {
        let rb_frame = self.get_frame(rb_frame_index)?;
        let interpolation_amount = target_time - rb_frame.time;
        Ok(crate::util::apply_velocities_to_rigid_body(rigid_body, interpolation_amount))
    }

    /// The ball's rigid body extrapolated to the target time.
    pub fn get_velocity_applied_ball_rigid_body(&self, target_time: Milli) -> (r: SubtrActorResult<
        RigidBody,
    >)
        requires
            self.wf(),
            time_bounded(target_time as int),
        ensures
            match r {
                Ok(rb) => (self.ball_actor_id matches Some(a) && spec_actor_rigid_body(*self, a)
                    matches Some(p) && self.replay.network_frames matches Some(fs) && p.1
                    < fs@.len() && rb == crate::util::spec_apply_velocities(
                    p.0,
                    (target_time - fs@[p.1 as int].time) as i64,
                )),
                Err(_) => !(self.ball_actor_id matches Some(a) && spec_actor_rigid_body(*self, a)
                    matches Some(p) && self.replay.network_frames matches Some(fs) && p.1
                    < fs@.len()),
            },
    {
        let (current_rigid_body, frame_index) = self.get_ball_rigid_body_and_updated()?;
        self.velocities_applied_rigid_body(&current_rigid_body, frame_index, target_time)
    }

    /// A player's car's rigid body extrapolated to the target time.
    pub fn get_velocity_applied_player_rigid_body(
        &self,
        player_id: &PlayerId,
        target_time: Milli,
    ) -> (r: SubtrActorResult<RigidBody>)
        requires
            self.wf(),
            time_bounded(target_time as int),
        ensures
            match r {
                Ok(rb) => (spec_car_actor_id(*self, *player_id) matches Some(car)
                    && spec_actor_rigid_body(*self, car) matches Some(p) && self
                    .replay
                    .network_frames matches Some(fs) && p.1 < fs@.len() && rb
                    == crate::util::spec_apply_velocities(
                    p.0,
                    (target_time - fs@[p.1 as int].time) as i64,
                )),
                Err(_) => !(spec_car_actor_id(*self, *player_id) matches Some(car)
                    && spec_actor_rigid_body(*self, car) matches Some(p) && self
                    .replay
                    .network_frames matches Some(fs) && p.1 < fs@.len()),
            },
    {
        let (current_rigid_body, frame_index) = self.get_player_rigid_body_and_updated(player_id)?;
        self.velocities_applied_rigid_body(&current_rigid_body, frame_index, target_time)
    }

    /// The actor's rigid body at the requested time: the stored body when
    /// its frame time is within `close_enough` of the request; otherwise the
    /// nearest observed body in the direction of the request, or the linear
    /// interpolation between the two enclosing observations. A request
    /// outside the observed range fails rather than extrapolate.
    pub fn get_interpolated_actor_rigid_body(
        &self,
        actor_id: ActorId,
        time: Milli,
        close_enough: Milli,
    ) -> (r: SubtrActorResult<RigidBody>)
        requires
            self.wf(),
            time_bounded(time as int),
            time_bounded(close_enough as int),
        ensures
            r matches Ok(rb) ==> body_bounded(rb) && spec_interp_outcome(
                *self,
                actor_id,
                time,
                close_enough,
                rb,
            ),
            (spec_actor_rigid_body(*self, actor_id) matches Some(p) && self
                .replay
                .network_frames matches Some(fs) && p.1 < fs@.len() && abs_int(
                time - fs@[p.1 as int].time,
            ) <= abs_int(close_enough as int)) ==> (r matches Ok(rb) && rb == spec_actor_rigid_body(
                *self,
                actor_id,
            ).unwrap().0),
            (spec_actor_rigid_body(*self, actor_id) matches Some(p) && self
                .replay
                .network_frames matches Some(fs) && p.1 < fs@.len() && time - fs@[p.1 as int].time
                > abs_int(close_enough as int) && (forall|m: int|
                p.1 < m < fs@.len() ==> spec_first_update(
                    (#[trigger] fs@[m]).updated_actors@,
                    actor_id,
                    spec_rb_oid(self.replay),
                ) is None)) ==> r is Err,
            (spec_actor_rigid_body(*self, actor_id) matches Some(p) && self
                .replay
                .network_frames matches Some(fs) && p.1 < fs@.len() && fs@[p.1 as int].time - time
                > abs_int(close_enough as int) && (forall|m: int|
                0 <= m < p.1 && m < fs@.len() ==> spec_first_update(
                    (#[trigger] fs@[m]).updated_actors@,
                    actor_id,
                    spec_rb_oid(self.replay),
                ) is None)) ==> r is Err,
    {
        let (frame_body, frame_index) = self.get_actor_rigid_body(actor_id)?;
        let frame_time = self.get_frame(frame_index)?.time;
        let diff = time - frame_time;
        let abs_diff: i64 = if diff >= 0 {
            diff
        } else {
            -diff
        };
        let abs_close: i64 = if close_enough >= 0 {
            close_enough
        } else {
            -close_enough
        };
        if abs_diff <= abs_close {
            return Ok(frame_body);
        }
        let search_direction = if diff > 0 {
            crate::util::SearchDirection::Forward
        } else {
            crate::util::SearchDirection::Backward
        };
        let object_id = self.get_object_id_for_key(&crate::constants::rigid_body_state_key())?;
        let (attribute, found_frame) = self.find_update_in_direction(
            frame_index,
            actor_id,
            object_id,
            search_direction,
        )?;
        let found_time = self.get_frame(found_frame)?.time;
        let found_body = match attr_as_rigid_body(&attribute) {
            Ok(rb) => *rb,
            Err(e) => {
                return Err(e);
            },
        };
        let found_diff = found_time - time;
        let abs_found: i64 = if found_diff >= 0 {
            found_diff
        } else {
            -found_diff
        };
        if abs_found <= close_enough {
            return Ok(found_body);
        }
        let (start_body, start_time, end_body, end_time) = match search_direction {
            crate::util::SearchDirection::Forward => (frame_body, frame_time, found_body, found_time),
            crate::util::SearchDirection::Backward => (found_body, found_time, frame_body, frame_time),
        };
        let result = crate::util::get_interpolated_rigid_body(
            &start_body,
            start_time,
            &end_body,
            end_time,
            time,
        )?;
        proof {
            if start_time <= time <= end_time && end_time != start_time {
                let num = (time - start_time) as int;
                let den = (end_time - start_time) as int;
                crate::util::lemma_lerp_between(
                    start_body.rotation.x as int,
                    end_body.rotation.x as int,
                    num,
                    den,
                );
                crate::util::lemma_lerp_between(
                    start_body.rotation.y as int,
                    end_body.rotation.y as int,
                    num,
                    den,
                );
                crate::util::lemma_lerp_between(
                    start_body.rotation.z as int,
                    end_body.rotation.z as int,
                    num,
                    den,
                );
                crate::util::lemma_lerp_between(
                    start_body.rotation.w as int,
                    end_body.rotation.w as int,
                    num,
                    den,
                );
            }
        }
        Ok(result)
    }

    /// The ball's rigid body at the requested time.
    pub fn get_interpolated_ball_rigid_body(&self, time: Milli, close_enough: Milli) -> (r:
        SubtrActorResult<RigidBody>)
        requires
            self.wf(),
            time_bounded(time as int),
            time_bounded(close_enough as int),
        ensures
            r matches Ok(rb) ==> body_bounded(rb) && (self.ball_actor_id matches Some(a)
                && spec_interp_outcome(*self, a, time, close_enough, rb)),
            (self.ball_actor_id matches Some(a) && (spec_actor_rigid_body(*self, a)
                matches Some(p) && (self.replay.network_frames matches Some(fs) && (p.1
                < fs@.len() && abs_int(time - fs@[p.1 as int].time) <= abs_int(
                close_enough as int,
            ))))) ==> (r matches Ok(rb) && rb == spec_actor_rigid_body(
                *self,
                self.ball_actor_id.unwrap(),
            ).unwrap().0),
    {
        let a = self.get_ball_actor_id()?;
        self.get_interpolated_actor_rigid_body(a, time, close_enough)
    }

    /// A player's car's rigid body at the requested time.
    pub fn get_interpolated_player_rigid_body(
        &self,
        player_id: &PlayerId,
        time: Milli,
        close_enough: Milli,
    ) -> (r: SubtrActorResult<RigidBody>)
        requires
            self.wf(),
            time_bounded(time as int),
            time_bounded(close_enough as int),
        ensures
            r matches Ok(rb) ==> body_bounded(rb) && (spec_car_actor_id(*self, *player_id)
                matches Some(car) && spec_interp_outcome(*self, car, time, close_enough, rb)),
            (spec_car_actor_id(*self, *player_id) matches Some(car) && (spec_actor_rigid_body(
                *self,
                car,
            ) matches Some(p) && (self.replay.network_frames matches Some(fs) && (p.1 < fs@.len()
                && abs_int(time - fs@[p.1 as int].time) <= abs_int(close_enough as int)))))
                ==> (r matches Ok(rb) && rb == spec_actor_rigid_body(
                *self,
                spec_car_actor_id(*self, *player_id).unwrap(),
            ).unwrap().0),
    {
        let car = self.get_car_actor_id(player_id)?;
        self.get_interpolated_actor_rigid_body(car, time, close_enough)
    }
}

/// The demolition records are coherent: the window keeps equal values at
/// least the dedup distance apart, the log's demolish values are tracked in
/// step, no two log entries of equal value sit within the dedup distance,
/// and every log entry has its observation in the window.
pub open spec fn demolish_log_wf(
    demolishes: Seq<DemolishInfo>,
    fx: Seq<DemolishFx>,
    known: Seq<(DemolishFx, usize)>,
) -> bool {
    &&& demolish_spacing(known)
    &&& fx.len() == demolishes.len()
    &&& forall|i: int, j: int|
        0 <= i < j < demolishes.len() && fx[i] == fx[j] ==> abs_int(
            demolishes[j].frame - demolishes[i].frame,
        ) >= MAX_DEMOLISH_KNOWN_FRAMES_PASSED
    &&& forall|m: int|
        0 <= m < demolishes.len() ==> entry_in_window(
            known,
            #[trigger] fx[m],
            demolishes[m].frame,
        )
}

/// The window holds an observation of the value at the frame.
pub open spec fn entry_in_window(known: Seq<(DemolishFx, usize)>, f: DemolishFx, fr: usize) -> bool {
    exists|kj: int| 0 <= kj < known.len() && (#[trigger] known[kj]).0 == f && known[kj].1 == fr
}

/// Whether a demolish value is already in the dedup window, within the
/// window of frames.
pub open spec fn spec_demolish_known(s: Seq<(DemolishFx, usize)>, fx: DemolishFx, frame_index: usize) -> bool {
    exists|i: int|
        0 <= i < s.len() && (#[trigger] s[i]).0 == fx && abs_int(
            frame_index - s[i].1,
        ) < MAX_DEMOLISH_KNOWN_FRAMES_PASSED
}

/// The key of the first entry carrying the value, scanning in insertion
/// order.
pub open spec fn spec_first_key_with_value(s: Seq<(i32, ActorId)>, v: ActorId) -> Option<i32>
    decreases s.len(),
{
    if s.len() == 0 {
        None
    } else if s[0].1 == v {
        Some(s[0].0)
    } else {
        spec_first_key_with_value(s.drop_first(), v)
    }
}

/// The player of the first entry carrying the value, scanning in insertion
/// order.
pub open spec fn spec_first_player_with_value(s: Seq<(PlayerId, ActorId)>, v: ActorId) -> Option<
    PlayerId,
>
    decreases s.len(),
{
    if s.len() == 0 {
        None
    } else if s[0].1 == v {
        Some(s[0].0)
    } else {
        spec_first_player_with_value(s.drop_first(), v)
    }
}

/// The player whose car is the given actor: through the first matching car
/// link, then the first matching identity link, over the link entries.
pub open spec fn spec_player_id_from_car_v(
    cars: Seq<(i32, ActorId)>,
    ids: Seq<(PlayerId, ActorId)>,
    car: ActorId,
) -> Option<PlayerId> {
    match spec_first_key_with_value(cars, car) {
        Some(pa) => spec_first_player_with_value(ids, pa),
        None => None,
    }
}

/// The player whose car is the given actor.
pub open spec fn spec_player_id_from_car(p: ReplayProcessor, car: ActorId) -> Option<PlayerId> {
    spec_player_id_from_car_v(
        p.player_to_car.entries_seq(),
        p.player_to_actor_id.entries_seq(),
        car,
    )
}

/// The demolish value a car actor currently replicates, if any.
pub open spec fn spec_demolish_car_fx(r: Replay, mv: ModelerView, k: ActorId) -> Option<DemolishFx> {
    match spec_actor_attribute_v(r, mv, k, "TAGame.Car_TA:ReplicatedDemolishGoalExplosion"@) {
        Some(Attribute::DemolishFx(d)) => Some(d),
        _ => None,
    }
}

/// The logged event a demolish value resolves to, if both cars resolve to
/// players and the remaining seconds are available.
pub open spec fn spec_build_demolish(
    r: Replay,
    mv: ModelerView,
    cars: Seq<(i32, ActorId)>,
    ids: Seq<(PlayerId, ActorId)>,
    fx: DemolishFx,
    time: Milli,
    index: usize,
) -> Option<DemolishInfo> {
    match spec_player_id_from_car_v(cars, ids, fx.attacker) {
        Some(attacker) => match spec_player_id_from_car_v(cars, ids, fx.victim) {
            Some(victim) => match spec_seconds_remaining_v(r, mv) {
                Some(seconds_remaining) => Some(
                    DemolishInfo {
                        time,
                        seconds_remaining,
                        frame: index,
                        attacker,
                        victim,
                        attacker_velocity: fx.attack_velocity,
                        victim_velocity: fx.victim_velocity,
                    },
                ),
                None => None,
            },
            None => None,
        },
        None => None,
    }
}

/// The effect of examining one car actor's demolish value on the state
/// `(window, log, log values)`: a value absent or already within the window
/// changes nothing; a new value joins the window at this frame, and joins
/// the log exactly when it resolves to a logged event.
pub open spec fn spec_demolish_step(
    r: Replay,
    mv: ModelerView,
    cars: Seq<(i32, ActorId)>,
    ids: Seq<(PlayerId, ActorId)>,
    st: (Seq<(DemolishFx, usize)>, Seq<DemolishInfo>, Seq<DemolishFx>),
    k: ActorId,
    time: Milli,
    index: usize,
) -> (Seq<(DemolishFx, usize)>, Seq<DemolishInfo>, Seq<DemolishFx>) {
    match spec_demolish_car_fx(r, mv, k) {
        None => st,
        Some(fx) => if spec_demolish_known(st.0, fx, index) {
            st
        } else {
            match spec_build_demolish(r, mv, cars, ids, fx, time, index) {
                Some(info) => (st.0.push((fx, index)), st.1.push(info), st.2.push(fx)),
                None => (st.0.push((fx, index)), st.1, st.2),
            }
        },
    }
}

/// The effect of examining every listed car actor in order.
pub open spec fn spec_demolish_seq(
    r: Replay,
    mv: ModelerView,
    cars: Seq<(i32, ActorId)>,
    ids: Seq<(PlayerId, ActorId)>,
    st: (Seq<(DemolishFx, usize)>, Seq<DemolishInfo>, Seq<DemolishFx>),
    car_list: Seq<ActorId>,
    time: Milli,
    index: usize,
) -> (Seq<(DemolishFx, usize)>, Seq<DemolishInfo>, Seq<DemolishFx>)
    decreases car_list.len(),
{
    if car_list.len() == 0 {
        st
    } else {
        spec_demolish_seq(
            r,
            mv,
            cars,
            ids,
            spec_demolish_step(r, mv, cars, ids, st, car_list[0], time, index),
            car_list.drop_first(),
            time,
            index,
        )
    }
}

pub proof fn lemma_demolish_seq_concat(
    r: Replay,
    mv: ModelerView,
    cars: Seq<(i32, ActorId)>,
    ids: Seq<(PlayerId, ActorId)>,
    st: (Seq<(DemolishFx, usize)>, Seq<DemolishInfo>, Seq<DemolishFx>),
    a: Seq<ActorId>,
    b: Seq<ActorId>,
    time: Milli,
    index: usize,
)
    ensures
        spec_demolish_seq(r, mv, cars, ids, st, a + b, time, index) == spec_demolish_seq(
            r,
            mv,
            cars,
            ids,
            spec_demolish_seq(r, mv, cars, ids, st, a, time, index),
            b,
            time,
            index,
        ),
    decreases a.len(),
{
    if a.len() == 0 {
        assert(a + b =~= b);
    } else {
        assert((a + b)[0] == a[0]);
        assert((a + b).drop_first() =~= a.drop_first() + b);
        lemma_demolish_seq_concat(
            r,
            mv,
            cars,
            ids,
            spec_demolish_step(r, mv, cars, ids, st, a[0], time, index),
            a.drop_first(),
            b,
            time,
            index,
        );
    }
}

impl ReplayProcessor {
    /// The player actor whose car is the given actor: the first car link
    /// carrying it, in insertion order.
    pub fn get_player_actor_id_from_car_actor_id(&self, actor_id: ActorId) -> (r: SubtrActorResult<
        ActorId,
    >)
        requires
            self.wf(),
        ensures
            match r {
                Ok(p) => spec_first_key_with_value(self.player_to_car.entries_seq(), actor_id)
                    == Some(p),
                Err(e) => spec_first_key_with_value(self.player_to_car.entries_seq(), actor_id)
                    is None && (e.variant
                    matches SubtrActorErrorVariant::NoMatchingPlayerId { .. }),
            },
    {
        let ghost es = self.player_to_car.entries_seq();
        proof {
            assert(es.skip(0) =~= es);
        }
        let n = self.player_to_car.len();
        for i in 0..n
            invariant
                self.wf(),
                es == self.player_to_car.entries_seq(),
                n == es.len(),
                spec_first_key_with_value(es, actor_id) == spec_first_key_with_value(
                    es.skip(i as int),
                    actor_id,
                ),
        {
            proof {
                assert(es.skip(i as int)[0] == es[i as int]);
            }
            if *self.player_to_car.value_at(i) == actor_id {
                let p = self.player_to_car.key_at(i);
                return Ok(p);
            }
            proof {
                assert(es.skip(i as int).drop_first() =~= es.skip(i as int + 1));
            }
        }
        proof {
            assert(es.skip(n as int) =~= Seq::<(i32, ActorId)>::empty());
        }
        SubtrActorError::new_result(SubtrActorErrorVariant::NoMatchingPlayerId { actor_id })
    }

    /// The player identity mapped to the given player actor: the first
    /// identity link carrying it, in insertion order.
    pub fn get_player_id_from_actor_id(&self, actor_id: ActorId) -> (r: SubtrActorResult<PlayerId>)
        requires
            self.wf(),
        ensures
            match r {
                Ok(p) => spec_first_player_with_value(
                    self.player_to_actor_id.entries_seq(),
                    actor_id,
                ) == Some(p),
                Err(e) => spec_first_player_with_value(
                    self.player_to_actor_id.entries_seq(),
                    actor_id,
                ) is None && (e.variant
                    matches SubtrActorErrorVariant::NoMatchingPlayerId { .. }),
            },
    {
        let ghost es = self.player_to_actor_id.entries_seq();
        proof {
            assert(es.skip(0) =~= es);
        }
        let n = self.player_to_actor_id.len();
        for i in 0..n
            invariant
                self.wf(),
                es == self.player_to_actor_id.entries_seq(),
                n == es.len(),
                spec_first_player_with_value(es, actor_id) == spec_first_player_with_value(
                    es.skip(i as int),
                    actor_id,
                ),
        {
            proof {
                assert(es.skip(i as int)[0] == es[i as int]);
            }
            if *self.player_to_actor_id.value_at(i) == actor_id {
                let p = self.player_to_actor_id.key_at(i).duplicate();
                return Ok(p);
            }
            proof {
                assert(es.skip(i as int).drop_first() =~= es.skip(i as int + 1));
            }
        }
        proof {
            assert(es.skip(n as int) =~= Seq::<(PlayerId, ActorId)>::empty());
        }
        SubtrActorError::new_result(SubtrActorErrorVariant::NoMatchingPlayerId { actor_id })
    }

    /// The player identity of the player whose car is the given actor.
    pub fn get_player_id_from_car_id(&self, actor_id: ActorId) -> (r: SubtrActorResult<PlayerId>)
        requires
            self.wf(),
        ensures
            match r {
                Ok(p) => spec_player_id_from_car(*self, actor_id) == Some(p),
                Err(e) => spec_player_id_from_car(*self, actor_id) is None && (e.variant
                    matches SubtrActorErrorVariant::NoMatchingPlayerId { .. }),
            },
    {
        let pa = self.get_player_actor_id_from_car_actor_id(actor_id)?;
        let p = self.get_player_id_from_actor_id(pa)?;
        Ok(p)
    }

    /// Whether the demolish value is already known within the dedup window.
    pub fn demolish_is_known(&self, demolish_fx: &DemolishFx, frame_index: usize) -> (r: bool)
        ensures
            r == spec_demolish_known(self.known_demolishes@, *demolish_fx, frame_index),
    {
        let n = self.known_demolishes.len();
        for i in 0..n
            invariant
                n == self.known_demolishes@.len(),
                forall|j: int|
                    0 <= j < i ==> !((#[trigger] self.known_demolishes@[j]).0 == *demolish_fx
                        && abs_int(
                        frame_index - self.known_demolishes@[j].1,
                    ) < MAX_DEMOLISH_KNOWN_FRAMES_PASSED),
        {
            let (existing, idx) = self.known_demolishes[i];
            let diff: usize = if frame_index >= idx {
                frame_index - idx
            } else {
                idx - frame_index
            };
            if existing == *demolish_fx && diff < MAX_DEMOLISH_KNOWN_FRAMES_PASSED {
                return true;
            }
        }
        proof {
            if spec_demolish_known(self.known_demolishes@, *demolish_fx, frame_index) {
                let j = choose|j: int|
                    0 <= j < self.known_demolishes@.len() && (#[trigger] self.known_demolishes@[
                    j]).0 == *demolish_fx && abs_int(
                        frame_index - self.known_demolishes@[j].1,
                    ) < MAX_DEMOLISH_KNOWN_FRAMES_PASSED;
            }
        }
        false
    }

    /// Resolves a demolish value into a logged event: car ids become player
    /// identities, and the current time and seconds remaining are recorded.
    pub fn build_demolish_info(&self, demolish_fx: &DemolishFx, frame: &Frame, index: usize) -> (r:
        SubtrActorResult<DemolishInfo>)
        requires
            self.wf(),
        ensures
            match r {
                Ok(info) => spec_build_demolish(
                    self.replay,
                    self.actor_state@,
                    self.player_to_car.entries_seq(),
                    self.player_to_actor_id.entries_seq(),
                    *demolish_fx,
                    frame.time,
                    index,
                ) == Some(info),
                Err(_) => spec_build_demolish(
                    self.replay,
                    self.actor_state@,
                    self.player_to_car.entries_seq(),
                    self.player_to_actor_id.entries_seq(),
                    *demolish_fx,
                    frame.time,
                    index,
                ) is None,
            },
    {
        let attacker = self.get_player_id_from_car_id(demolish_fx.attacker)?;
        let victim = self.get_player_id_from_car_id(demolish_fx.victim)?;
        let seconds_remaining = self.get_seconds_remaining()?;
        Ok(
            DemolishInfo {
                time: frame.time,
                seconds_remaining,
                frame: index,
                attacker,
                victim,
                attacker_velocity: demolish_fx.attack_velocity,
                victim_velocity: demolish_fx.victim_velocity,
            },
        )
    }

    /// Extracts new demolition events from this frame: every demolish value
    /// replicated on a car actor that is not already within the dedup window
    /// is appended to the window at this frame, and — when its cars resolve
    /// to players — to the demolition log. Values are examined one by one,
    /// so a value repeated within the frame is recorded once.
    pub fn update_demolishes(&mut self, frame: &Frame, index: usize) -> (r: SubtrActorResult<()>)
        requires
            old(self).wf(),
        ensures
            final(self).wf(),
            final(self).replay == old(self).replay,
            final(self).actor_state == old(self).actor_state,
            final(self).links() == old(self).links(),
            final(self).ball_actor_id == old(self).ball_actor_id,
            final(self).team_zero@ == old(self).team_zero@,
            final(self).team_one@ == old(self).team_one@,
            final(self).demolishes@.len() >= old(self).demolishes@.len(),
            final(self).demolishes@.take(old(self).demolishes@.len() as int) == old(self).demolishes@,
            final(self).known_demolishes@.len() >= old(self).known_demolishes@.len(),
            final(self).known_demolishes@.take(old(self).known_demolishes@.len() as int) == old(self).known_demolishes@,
            forall|m: int|
                old(self).known_demolishes@.len() <= m < final(self).known_demolishes@.len()
                    ==> (#[trigger] final(self).known_demolishes@[m]).1 == index,
            forall|m: int|
                old(self).demolishes@.len() <= m < final(self).demolishes@.len() ==> (
                #[trigger] final(self).demolishes@[m]).frame == index && final(self).demolishes@[
                    m].time == frame.time,
            match r {
                Ok(_) => (spec_ids_of_type(
                    old(self).replay,
                    old(self).actor_state@,
                    "Archetypes.Car.Car_Default"@,
                ) matches Some(car_list) && {
                    let st = spec_demolish_seq(
                        old(self).replay,
                        old(self).actor_state@,
                        old(self).player_to_car.entries_seq(),
                        old(self).player_to_actor_id.entries_seq(),
                        (
                            old(self).known_demolishes@,
                            old(self).demolishes@,
                            old(self).demolish_fx@,
                        ),
                        car_list,
                        frame.time,
                        index,
                    );
                    &&& final(self).known_demolishes@ == st.0
                    &&& final(self).demolishes@ == st.1
                    &&& final(self).demolish_fx@ == st.2
                }),
                Err(e) => (e.variant matches SubtrActorErrorVariant::ObjectIdNotFound { .. })
                    && spec_object_id(old(self).replay, "Archetypes.Car.Car_Default"@) is None
                    && final(self).known_demolishes@ == old(self).known_demolishes@ && final(self).demolishes@ == old(self).demolishes@ && final(self).demolish_fx@ == old(self).demolish_fx@,
            },
    {
        let car_ids = self.get_actor_ids_by_type(&crate::constants::car_type())?;
        let n = car_ids.len();
        let ghost r0 = self.replay;
        let ghost mv0 = self.actor_state@;
        let ghost cars0 = self.player_to_car.entries_seq();
        let ghost ids0 = self.player_to_actor_id.entries_seq();
        let ghost st0 = (self.known_demolishes@, self.demolishes@, self.demolish_fx@);
        let ghost car_seq = car_ids@;
        let ghost demolishes0 = self.demolishes@;
        let ghost known0 = self.known_demolishes@;
        for i in 0..n
            invariant
                self.wf(),
                n == car_ids@.len(),
                car_seq == car_ids@,
                self.replay == old(self).replay,
                self.actor_state == old(self).actor_state,
                self.player_to_car == old(self).player_to_car,
                self.player_to_actor_id == old(self).player_to_actor_id,
                self.links() == old(self).links(),
                self.ball_actor_id == old(self).ball_actor_id,
                self.team_zero@ == old(self).team_zero@,
                self.team_one@ == old(self).team_one@,
                r0 == old(self).replay,
                mv0 == old(self).actor_state@,
                cars0 == old(self).player_to_car.entries_seq(),
                ids0 == old(self).player_to_actor_id.entries_seq(),
                st0 == (
                    old(self).known_demolishes@,
                    old(self).demolishes@,
                    old(self).demolish_fx@,
                ),
                spec_demolish_seq(r0, mv0, cars0, ids0, st0, car_seq.take(i as int), frame.time, index)
                    == (self.known_demolishes@, self.demolishes@, self.demolish_fx@),
                demolishes0 == old(self).demolishes@,
                known0 == old(self).known_demolishes@,
                self.demolishes@.len() >= demolishes0.len(),
                self.demolishes@.take(demolishes0.len() as int) == demolishes0,
                self.known_demolishes@.len() >= known0.len(),
                self.known_demolishes@.take(known0.len() as int) == known0,
                forall|m: int|
                    known0.len() <= m < self.known_demolishes@.len() ==> (
                    #[trigger] self.known_demolishes@[m]).1 == index,
                forall|m: int|
                    demolishes0.len() <= m < self.demolishes@.len() ==> (
                    #[trigger] self.demolishes@[m]).frame == index && self.demolishes@[m].time
                        == frame.time,
        {
            let ghost st_cur = (self.known_demolishes@, self.demolishes@, self.demolish_fx@);
            let k = car_ids[i];
            let fx_opt: Option<DemolishFx> = match self.get_actor_state(k) {
                Ok(st) => {
                    match self.get_attribute(
                        &st.attributes,
                        &crate::constants::demolish_goal_explosion_key(),
                    ) {
                        Ok(a) => match a {
                            Attribute::DemolishFx(d) => Some(*d),
                            _ => None,
                        },
                        Err(_) => None,
                    }
                },
                Err(_) => None,
            };
            proof {
                assert(fx_opt == spec_demolish_car_fx(r0, mv0, k));
            }
            if let Some(fx) = fx_opt {
                if !self.demolish_is_known(&fx, index) {
                    proof {
                        assert(!spec_demolish_known(st_cur.0, fx, index));
                    }
                    let ghost dem_before = self.demolishes@;
                    let ghost fx_before = self.demolish_fx@;
                    let ghost known_before = self.known_demolishes@;
                    match self.build_demolish_info(&fx, frame, index) {
                        Ok(info) => {
                            self.demolishes.push(info);
                            proof {
                                self.demolish_fx@ = fx_before.push(fx);
                            }
                        },
                        Err(_) => {},
                    }
                    self.known_demolishes.push((fx, index));
                    proof {
                        assert(self.demolishes@.take(demolishes0.len() as int) =~= demolishes0);
                        assert(self.known_demolishes@.take(known0.len() as int) =~= known0);
                        assert(demolish_log_wf(dem_before, fx_before, known_before));
                        assert forall|a: int, b: int|
                            0 <= a < b < self.known_demolishes@.len() && (
                            #[trigger] self.known_demolishes@[a]).0 == (
                            #[trigger] self.known_demolishes@[b]).0 implies abs_int(
                            self.known_demolishes@[b].1 - self.known_demolishes@[a].1,
                        ) >= MAX_DEMOLISH_KNOWN_FRAMES_PASSED by {
                            if b == self.known_demolishes@.len() - 1 {
                                assert(self.known_demolishes@[a] == known_before[a]);
                                assert(!spec_demolish_known(known_before, fx, index));
                                assert(!(known_before[a].0 == fx && abs_int(
                                    index - known_before[a].1,
                                ) < MAX_DEMOLISH_KNOWN_FRAMES_PASSED));
                            } else {
                                assert(self.known_demolishes@[a] == known_before[a]
                                    && self.known_demolishes@[b] == known_before[b]);
                            }
                        }
                        assert forall|a: int, b: int|
                            0 <= a < b < self.demolishes@.len() && self.demolish_fx@[a]
                                == self.demolish_fx@[b] implies abs_int(
                            self.demolishes@[b].frame - self.demolishes@[a].frame,
                        ) >= MAX_DEMOLISH_KNOWN_FRAMES_PASSED by {
                            if b == self.demolishes@.len() - 1 && self.demolishes@.len()
                                == dem_before.len() + 1 {
                                assert(self.demolishes@[a] == dem_before[a]);
                                assert(self.demolish_fx@[a] == fx_before[a]);
                                assert(entry_in_window(
                                    known_before,
                                    fx_before[a],
                                    dem_before[a].frame,
                                ));
                                let kj = choose|kj: int|
                                    0 <= kj < known_before.len() && (#[trigger] known_before[
                                    kj]).0 == fx_before[a] && known_before[kj].1 == dem_before[
                                        a].frame;
                                assert(!(known_before[kj].0 == fx && abs_int(
                                    index - known_before[kj].1,
                                ) < MAX_DEMOLISH_KNOWN_FRAMES_PASSED));
                            } else if self.demolishes@.len() == dem_before.len() + 1 && b
                                < self.demolishes@.len() - 1 {
                                assert(self.demolishes@[a] == dem_before[a]
                                    && self.demolishes@[b] == dem_before[b]);
                                assert(self.demolish_fx@[a] == fx_before[a]
                                    && self.demolish_fx@[b] == fx_before[b]);
                            }
                        }
                        assert forall|m: int|
                            0 <= m < self.demolishes@.len() implies entry_in_window(
                            self.known_demolishes@,
                            #[trigger] self.demolish_fx@[m],
                            self.demolishes@[m].frame,
                        ) by {
                            if m < dem_before.len() {
                                assert(entry_in_window(
                                    known_before,
                                    fx_before[m],
                                    dem_before[m].frame,
                                ));
                                let kj = choose|kj: int|
                                    0 <= kj < known_before.len() && (#[trigger] known_before[
                                    kj]).0 == fx_before[m] && known_before[kj].1 == dem_before[
                                        m].frame;
                                assert(self.known_demolishes@[kj] == known_before[kj]);
                                assert(self.demolish_fx@[m] == fx_before[m]);
                                assert(self.demolishes@[m] == dem_before[m]);
                            } else {
                                let kj = self.known_demolishes@.len() - 1;
                                assert(self.known_demolishes@[kj] == (fx, index));
                                assert(self.demolish_fx@[m] == fx);
                                assert(self.demolishes@[m].frame == index);
                            }
                        }
                    }
                }
            }
            proof {
                assert(spec_demolish_step(r0, mv0, cars0, ids0, st_cur, k, frame.time, index) == (
                self.known_demolishes@,
                self.demolishes@,
                self.demolish_fx@,
                ));
                lemma_demolish_seq_concat(
                    r0,
                    mv0,
                    cars0,
                    ids0,
                    st0,
                    car_seq.take(i as int),
                    seq![k],
                    frame.time,
                    index,
                );
                assert(seq![k][0] == k);
                assert(seq![k].drop_first() =~= Seq::<ActorId>::empty());
                assert(spec_demolish_seq(
                    r0,
                    mv0,
                    cars0,
                    ids0,
                    spec_demolish_step(r0, mv0, cars0, ids0, st_cur, k, frame.time, index),
                    Seq::<ActorId>::empty(),
                    frame.time,
                    index,
                ) == spec_demolish_step(r0, mv0, cars0, ids0, st_cur, k, frame.time, index));
                assert(spec_demolish_seq(r0, mv0, cars0, ids0, st_cur, seq![k], frame.time, index)
                    == (self.known_demolishes@, self.demolishes@, self.demolish_fx@));
                assert(car_seq.take(i as int + 1) =~= car_seq.take(i as int) + seq![k]);
            }
        }
        proof {
            assert(car_seq.take(n as int) =~= car_seq);
        }
        Ok(())
    }
}

/// The modeler after one frame's boost derivation, over the whole state.
pub open spec fn spec_boost_all(r: Replay, mv: ModelerView, delta: Milli, frame_index: usize) -> Option<ModelerView> {
    match spec_ids_of_type(r, mv, "Archetypes.CarComponents.CarComponent_Boost"@) {
        None => None,
        Some(ids) => Some(
            ModelerView {
                states: Map::new(
                    |k: i32| mv.states.contains_key(k),
                    |k: i32|
                        if crate::actor_state::has_id(ids, k) {
                            spec_boosted_state(r, mv, k, delta, frame_index)
                        } else {
                            mv.states[k]
                        },
                ),
                by_type: mv.by_type,
            },
        ),
    }
}

/// The modeler after one whole frame: the frame's actor changes, then the
/// boost derivation.
pub open spec fn spec_frame_full(r: Replay, mv: ModelerView, frame: Frame, frame_index: usize) -> Option<ModelerView> {
    match spec_process_frame(mv, frame, frame_index) {
        Some(v1) => spec_boost_all(r, v1, frame.delta, frame_index),
        None => None,
    }
}

/// The modeler after a run of frames, applied strictly in order, the frame
/// at position `j` of the run carrying index `start + j`.
pub open spec fn spec_frames_fold(r: Replay, mv: ModelerView, frames: Seq<Frame>, start: int) -> Option<ModelerView>
    decreases frames.len(),
{
    if frames.len() == 0 {
        Some(mv)
    } else {
        match spec_frame_full(r, mv, frames[0], start as usize) {
            Some(v1) => spec_frames_fold(r, v1, frames.drop_first(), start + 1),
            None => None,
        }
    }
}

pub proof fn lemma_frames_fold_concat(r: Replay, mv: ModelerView, a: Seq<Frame>, b: Seq<Frame>, start: int)
    ensures
        spec_frames_fold(r, mv, a + b, start) == match spec_frames_fold(r, mv, a, start) {
            Some(w) => spec_frames_fold(r, w, b, start + a.len()),
            None => None,
        },
    decreases a.len(),
{
    if a.len() == 0 {
        assert(a + b =~= b);
    } else {
        assert((a + b)[0] == a[0]);
        assert((a + b).drop_first() =~= a.drop_first() + b);
        match spec_frame_full(r, mv, a[0], start as usize) {
            Some(v1) => {
                lemma_frames_fold_concat(r, v1, a.drop_first(), b, start + 1);
            },
            None => {},
        }
    }
}

/// The whole engine state one frame advances: the modeler, the
/// relationship indexes and the ball actor.
pub open spec fn spec_frame_and_links(
    r: Replay,
    st: (ModelerView, LinksView, Option<ActorId>),
    frame: Frame,
    frame_index: usize,
) -> Option<(ModelerView, LinksView, Option<ActorId>)> {
    match spec_process_frame(st.0, frame, frame_index) {
        Some(mv1) => match spec_update_mappings(r, mv1, st.1, frame) {
            Some(l1) => {
                let b1 = spec_update_ball(r, mv1, st.2, frame);
                match spec_boost_all(r, mv1, frame.delta, frame_index) {
                    Some(mv2) => Some((mv2, l1, b1)),
                    None => None,
                }
            },
            None => None,
        },
        None => None,
    }
}

/// The engine state after a run of frames, applied strictly in order.
pub open spec fn spec_frames_and_links_fold(
    r: Replay,
    st: (ModelerView, LinksView, Option<ActorId>),
    frames: Seq<Frame>,
    start: int,
) -> Option<(ModelerView, LinksView, Option<ActorId>)>
    decreases frames.len(),
{
    if frames.len() == 0 {
        Some(st)
    } else {
        match spec_frame_and_links(r, st, frames[0], start as usize) {
            Some(st1) => spec_frames_and_links_fold(r, st1, frames.drop_first(), start + 1),
            None => None,
        }
    }
}

pub proof fn lemma_frames_and_links_fold_concat(
    r: Replay,
    st: (ModelerView, LinksView, Option<ActorId>),
    a: Seq<Frame>,
    b: Seq<Frame>,
    start: int,
)
    ensures
        spec_frames_and_links_fold(r, st, a + b, start) == match spec_frames_and_links_fold(
            r,
            st,
            a,
            start,
        ) {
            Some(w) => spec_frames_and_links_fold(r, w, b, start + a.len()),
            None => None,
        },
    decreases a.len(),
{
    if a.len() == 0 {
        assert(a + b =~= b);
    } else {
        assert((a + b)[0] == a[0]);
        assert((a + b).drop_first() =~= a.drop_first() + b);
        match spec_frame_and_links(r, st, a[0], start as usize) {
            Some(st1) => {
                lemma_frames_and_links_fold_concat(r, st1, a.drop_first(), b, start + 1);
            },
            None => {},
        }
    }
}

impl ReplayProcessor {
    /// Drives the whole replay through the modeler, the relationship
    /// indexes, the boost derivation and the demolition extraction, invoking
    /// the collector at its chosen times within each frame's window. The
    /// frames are applied strictly in order: on success the final modeler,
    /// relationship-index and ball state is the fold of every frame over
    /// the initial one, and the players seen are checked against the fixed
    /// rosters. A requested reinvocation time that does not advance the
    /// clock, or lies outside the engine's time range, is taken as a
    /// request for the next frame. A replay without frames fails with
    /// `NoNetworkFrames`; beyond that the error is not pinned down, because
    /// the collector may fail with any error of its own.
    pub fn process<H: Collector>(&mut self, handler: &mut H) -> (r: SubtrActorResult<()>)
        requires
            old(self).wf(),
        ensures
            final(self).wf(),
            final(self).replay == old(self).replay,
            final(self).team_zero@ == old(self).team_zero@,
            final(self).team_one@ == old(self).team_one@,
            old(self).replay.network_frames is None ==> (r matches Err(e) && e.variant
                matches SubtrActorErrorVariant::NoNetworkFrames) && *final(self) == *old(self),
            match r {
                Ok(_) => (old(self).replay.network_frames matches Some(fs) && {
                    &&& spec_frames_and_links_fold(
                        old(self).replay,
                        (old(self).actor_state@, old(self).links(), old(self).ball_actor_id),
                        fs@,
                        0,
                    ) == Some(
                        (final(self).actor_state@, final(self).links(), final(self).ball_actor_id),
                    )
                    &&& spec_player_set_consistent(*final(self))
                }),
                Err(_) => true,
            },
    {
        let ghost r0 = self.replay;
        let ghost mv_init = self.actor_state@;
        let ghost st_init = (self.actor_state@, self.links(), self.ball_actor_id);
        let n = match &self.replay.network_frames {
            None => {
                return SubtrActorError::new_result(SubtrActorErrorVariant::NoNetworkFrames);
            },
            Some(frames) => frames.len(),
        };
        let ghost fs = self.replay.network_frames.unwrap()@;
        let mut target_time = TimeAdvance::NextFrame;
        for index in 0..n
            invariant
                self.wf(),
                self.replay == r0,
                r0 == old(self).replay,
                mv_init == old(self).actor_state@,
                self.team_zero@ == old(self).team_zero@,
                self.team_one@ == old(self).team_one@,
                r0.network_frames matches Some(v) && v@ == fs,
                n == fs.len(),
                target_time matches TimeAdvance::Time(t) ==> time_bounded(t as int),
                st_init == (old(self).actor_state@, old(self).links(), old(self).ball_actor_id),
                spec_frames_and_links_fold(r0, st_init, fs.take(index as int), 0) == Some(
                    (self.actor_state@, self.links(), self.ball_actor_id),
                ),
        {
            let ghost st_at_head = (self.actor_state@, self.links(), self.ball_actor_id);
            let ghost mv_at_head = self.actor_state@;
            let frame = match &self.replay.network_frames {
                Some(frames) => frames[index].duplicate(),
                None => {
                    proof {
                        assert(false);
                    }
                    return SubtrActorError::new_result(SubtrActorErrorVariant::NoNetworkFrames);
                },
            };
            proof {
                assert(frame_bounded(fs[index as int]));
                assert(frame_bounded(frame));
            }
            match self.actor_state.process_frame(&frame, index) {
                Ok(_) => {},
                Err(e) => {
                    return Err(e);
                },
            }
            proof {
                assert(spec_process_frame(mv_at_head, frame, index) == Some(self.actor_state@));
            }
            let ghost mv_applied = self.actor_state@;
            self.update_mappings(&frame)?;
            self.update_ball_id(&frame)?;
            proof {
                assert(self.actor_state@ == mv_applied);
            }
            self.update_boost_amounts(&frame, index)?;
            proof {
                let ids = spec_ids_of_type(
                    r0,
                    mv_applied,
                    "Archetypes.CarComponents.CarComponent_Boost"@,
                ).unwrap();
                assert(ids.take(ids.len() as int) =~= ids);
                let expected = spec_boost_all(r0, mv_applied, frame.delta, index).unwrap();
                assert(self.actor_state@.states =~= expected.states);
                assert(self.actor_state@.by_type =~= expected.by_type);
                assert(self.actor_state@ =~= expected);
                assert(spec_frame_full(r0, mv_at_head, frame, index) == Some(self.actor_state@));
                let ghost st_now = (self.actor_state@, self.links(), self.ball_actor_id);
                assert(spec_frame_and_links(r0, st_at_head, frame, index) == Some(st_now));
                assert(spec_frame_and_links(r0, st_at_head, fs[index as int], index) == Some(
                    st_now,
                )) by {
                    assert(spec_process_frame(mv_at_head, fs[index as int], index)
                        == spec_process_frame(mv_at_head, frame, index)) by {
                        assert(fs[index as int].deleted_actors@ == frame.deleted_actors@);
                        assert(fs[index as int].new_actors@ == frame.new_actors@);
                        assert(fs[index as int].updated_actors@ == frame.updated_actors@);
                    }
                    let mv1 = spec_process_frame(mv_at_head, frame, index).unwrap();
                    assert(spec_update_mappings(r0, mv1, st_at_head.1, fs[index as int])
                        == spec_update_mappings(r0, mv1, st_at_head.1, frame)) by {
                        assert(spec_link_steps(r0, mv1, st_at_head.1, fs[index as int].updated_actors@)
                            == spec_link_steps(r0, mv1, st_at_head.1, frame.updated_actors@));
                        assert(fs[index as int].deleted_actors@ == frame.deleted_actors@);
                    }
                    assert(spec_update_ball(r0, mv1, st_at_head.2, fs[index as int])
                        == spec_update_ball(r0, mv1, st_at_head.2, frame)) by {
                        assert(fs[index as int].deleted_actors@ == frame.deleted_actors@);
                    }
                }
                lemma_frames_and_links_fold_concat(r0, st_init, fs.take(index as int), seq![
                    fs[index as int]
                ], 0);
                assert(seq![fs[index as int]][0] == fs[index as int]);
                assert(seq![fs[index as int]].drop_first() =~= Seq::<Frame>::empty());
                assert(spec_frames_and_links_fold(r0, st_now, Seq::<Frame>::empty(), index + 1)
                    == Some(st_now));
                assert(spec_frames_and_links_fold(r0, st_at_head, seq![fs[index as int]], index as int)
                    == Some(st_now));
                assert(fs.take(index as int + 1) =~= fs.take(index as int) + seq![
                    fs[index as int]
                ]);
            }
            self.update_demolishes(&frame, index)?;
            let mut current: Milli = match target_time {
                TimeAdvance::Time(t) => t,
                TimeAdvance::NextFrame => frame.time,
            };
            while current <= frame.time
                invariant
                    self.wf(),
                    self.replay == r0,
                    r0 == old(self).replay,
                    st_init == (
                        old(self).actor_state@,
                        old(self).links(),
                        old(self).ball_actor_id,
                    ),
                    n == fs.len(),
                    index < n,
                    r0.network_frames matches Some(v) && v@ == fs,
                    time_bounded(current as int),
                    time_bounded(frame.time as int),
                    self.team_zero@ == old(self).team_zero@,
                    self.team_one@ == old(self).team_one@,
                    spec_frames_and_links_fold(r0, st_init, fs.take(index as int + 1), 0) == Some(
                        (self.actor_state@, self.links(), self.ball_actor_id),
                    ),
                    target_time matches TimeAdvance::Time(t) ==> time_bounded(t as int),
                decreases frame.time - current,
            {
                target_time = handler.process_frame(self, &frame, index, current)?;
                match target_time {
                    TimeAdvance::Time(new_target) => {
                        let clamped = if new_target > crate::util::MAX_TIME {
                            crate::util::MAX_TIME
                        } else {
                            new_target
                        };
                        if clamped <= current {
                            target_time = TimeAdvance::NextFrame;
                            break ;
                        }
                        target_time = TimeAdvance::Time(clamped);
                        if clamped > frame.time {
                            break ;
                        }
                        current = clamped;
                    },
                    TimeAdvance::NextFrame => {
                        break ;
                    },
                }
            }
        }
        proof {
            assert(fs.take(n as int) =~= fs);
        }
        self.check_player_id_set()?;
        Ok(())
    }
}

/// How many frames the player-order discovery pass covers: all of them,
/// up to the cutoff of roughly the first ten seconds.
pub open spec fn spec_discovery_cutoff(n: int) -> int {
    if n > 302 {
        302
    } else {
        n
    }
}

/// The team partition of the discovered players, in entry order: a player
/// whose team resolves to team zero joins the first roster, one resolving
/// to team one the second, and an unresolvable one neither.
pub open spec fn spec_partition(
    r: Replay,
    mv: ModelerView,
    team_map: Map<i32, ActorId>,
    player_map: Map<(int, u64, Seq<char>), ActorId>,
    entries: Seq<(PlayerId, ActorId)>,
) -> (Seq<PlayerId>, Seq<PlayerId>)
    decreases entries.len(),
{
    if entries.len() == 0 {
        (Seq::empty(), Seq::empty())
    } else {
        let (z, o) = spec_partition(r, mv, team_map, player_map, entries.drop_last());
        let pid = entries.last().0;
        match spec_is_team_0_of_key(
            r,
            mv,
            team_map,
            player_map,
            crate::player_map::player_key(pid),
        ) {
            Some(true) => (z.push(pid), o),
            Some(false) => (z, o.push(pid)),
            None => (z, o),
        }
    }
}

/// A player key is in a partition roster exactly when some discovered
/// entry carries it and its team resolves accordingly.
pub proof fn lemma_partition_membership(
    r: Replay,
    mv: ModelerView,
    team_map: Map<i32, ActorId>,
    player_map: Map<(int, u64, Seq<char>), ActorId>,
    entries: Seq<(PlayerId, ActorId)>,
    k: (int, u64, Seq<char>),
)
    ensures
        ({
            let parts = spec_partition(r, mv, team_map, player_map, entries);
            &&& (exists|j: int|
                0 <= j < parts.0.len() && crate::player_map::player_key(#[trigger] parts.0[j])
                    == k) == (crate::player_map::pseq_has_key(entries, k)
                && spec_is_team_0_of_key(r, mv, team_map, player_map, k) == Some(true))
            &&& (exists|j: int|
                0 <= j < parts.1.len() && crate::player_map::player_key(#[trigger] parts.1[j])
                    == k) == (crate::player_map::pseq_has_key(entries, k)
                && spec_is_team_0_of_key(r, mv, team_map, player_map, k) == Some(false))
        }),
    decreases entries.len(),
{
    let parts = spec_partition(r, mv, team_map, player_map, entries);
    if entries.len() == 0 {
        assert(!crate::player_map::pseq_has_key(entries, k)) by {
            if crate::player_map::pseq_has_key(entries, k) {
                let i = choose|i: int|
                    0 <= i < entries.len() && crate::player_map::player_key(
                        #[trigger] entries[i].0,
                    ) == k;
            }
        }
    } else {
        let rest = entries.drop_last();
        lemma_partition_membership(r, mv, team_map, player_map, rest, k);
        let prev = spec_partition(r, mv, team_map, player_map, rest);
        let pid = entries.last().0;
        let pk = crate::player_map::player_key(pid);
        assert(crate::player_map::pseq_has_key(entries, k) == (crate::player_map::pseq_has_key(
            rest,
            k,
        ) || pk == k)) by {
            if crate::player_map::pseq_has_key(entries, k) {
                let i = choose|i: int|
                    0 <= i < entries.len() && crate::player_map::player_key(
                        #[trigger] entries[i].0,
                    ) == k;
                if i < rest.len() {
                    assert(rest[i] == entries[i]);
                    assert(crate::player_map::pseq_has_key(rest, k));
                }
            }
            if crate::player_map::pseq_has_key(rest, k) {
                let i = choose|i: int|
                    0 <= i < rest.len() && crate::player_map::player_key(#[trigger] rest[i].0)
                        == k;
                assert(entries[i] == rest[i]);
            }
            if pk == k {
                assert(crate::player_map::player_key(
                    entries[entries.len() - 1].0,
                ) == k);
            }
        }
        match spec_is_team_0_of_key(r, mv, team_map, player_map, pk) {
            Some(true) => {
                assert(parts.0 == prev.0.push(pid) && parts.1 == prev.1);
                assert forall|j: int|
                    0 <= j < parts.0.len() && crate::player_map::player_key(
                        #[trigger] parts.0[j],
                    ) == k implies (crate::player_map::pseq_has_key(entries, k)
                    && spec_is_team_0_of_key(r, mv, team_map, player_map, k) == Some(true)) by {
                    if j < prev.0.len() {
                        assert(prev.0[j] == parts.0[j]);
                    } else {
                        assert(parts.0[j] == pid);
                    }
                }
                if crate::player_map::pseq_has_key(entries, k) && spec_is_team_0_of_key(
                    r,
                    mv,
                    team_map,
                    player_map,
                    k,
                ) == Some(true) {
                    if pk == k {
                        assert(parts.0[parts.0.len() - 1] == pid);
                    } else {
                        let j = choose|j: int|
                            0 <= j < prev.0.len() && crate::player_map::player_key(
                                #[trigger] prev.0[j],
                            ) == k;
                        assert(parts.0[j] == prev.0[j]);
                    }
                }
                assert forall|j: int|
                    0 <= j < parts.1.len() && crate::player_map::player_key(
                        #[trigger] parts.1[j],
                    ) == k implies (crate::player_map::pseq_has_key(entries, k)
                    && spec_is_team_0_of_key(r, mv, team_map, player_map, k) == Some(false)) by {}
            },
            Some(false) => {
                assert(parts.1 == prev.1.push(pid) && parts.0 == prev.0);
                assert forall|j: int|
                    0 <= j < parts.1.len() && crate::player_map::player_key(
                        #[trigger] parts.1[j],
                    ) == k implies (crate::player_map::pseq_has_key(entries, k)
                    && spec_is_team_0_of_key(r, mv, team_map, player_map, k) == Some(false)) by {
                    if j < prev.1.len() {
                        assert(prev.1[j] == parts.1[j]);
                    } else {
                        assert(parts.1[j] == pid);
                    }
                }
                if crate::player_map::pseq_has_key(entries, k) && spec_is_team_0_of_key(
                    r,
                    mv,
                    team_map,
                    player_map,
                    k,
                ) == Some(false) {
                    if pk == k {
                        assert(parts.1[parts.1.len() - 1] == pid);
                    } else {
                        let j = choose|j: int|
                            0 <= j < prev.1.len() && crate::player_map::player_key(
                                #[trigger] prev.1[j],
                            ) == k;
                        assert(parts.1[j] == prev.1[j]);
                    }
                }
                assert forall|j: int|
                    0 <= j < parts.0.len() && crate::player_map::player_key(
                        #[trigger] parts.0[j],
                    ) == k implies (crate::player_map::pseq_has_key(entries, k)
                    && spec_is_team_0_of_key(r, mv, team_map, player_map, k) == Some(true)) by {}
            },
            None => {
                assert(parts == prev);
            },
        }
    }
}

/// Distinct discovered players give partition rosters with pairwise
/// distinct keys.
pub proof fn lemma_partition_distinct(
    r: Replay,
    mv: ModelerView,
    team_map: Map<i32, ActorId>,
    player_map: Map<(int, u64, Seq<char>), ActorId>,
    entries: Seq<(PlayerId, ActorId)>,
)
    requires
        crate::player_map::player_keys_distinct(entries),
    ensures
        ({
            let parts = spec_partition(r, mv, team_map, player_map, entries);
            &&& forall|i: int, j: int|
                0 <= i < j < parts.0.len() ==> crate::player_map::player_key(
                    #[trigger] parts.0[i],
                ) != crate::player_map::player_key(#[trigger] parts.0[j])
            &&& forall|i: int, j: int|
                0 <= i < j < parts.1.len() ==> crate::player_map::player_key(
                    #[trigger] parts.1[i],
                ) != crate::player_map::player_key(#[trigger] parts.1[j])
            &&& parts.0.len() + parts.1.len() <= entries.len()
        }),
    decreases entries.len(),
{
    let parts = spec_partition(r, mv, team_map, player_map, entries);
    if entries.len() != 0 {
        let rest = entries.drop_last();
        assert(crate::player_map::player_keys_distinct(rest)) by {
            assert(forall|i: int| 0 <= i < rest.len() ==> rest[i] == entries[i]);
        }
        lemma_partition_distinct(r, mv, team_map, player_map, rest);
        let prev = spec_partition(r, mv, team_map, player_map, rest);
        let pid = entries.last().0;
        let pk = crate::player_map::player_key(pid);
        assert(!crate::player_map::pseq_has_key(rest, pk)) by {
            if crate::player_map::pseq_has_key(rest, pk) {
                let i = choose|i: int|
                    0 <= i < rest.len() && crate::player_map::player_key(#[trigger] rest[i].0)
                        == pk;
                assert(entries[i] == rest[i]);
                assert(crate::player_map::player_key(entries[i].0) != crate::player_map::player_key(
                    entries[entries.len() - 1].0,
                ));
            }
        }
        lemma_partition_membership(r, mv, team_map, player_map, rest, pk);
        match spec_is_team_0_of_key(r, mv, team_map, player_map, pk) {
            Some(true) => {
                assert forall|i: int, j: int|
                    0 <= i < j < parts.0.len() implies crate::player_map::player_key(
                    #[trigger] parts.0[i],
                ) != crate::player_map::player_key(#[trigger] parts.0[j]) by {
                    if j == parts.0.len() - 1 {
                        assert(parts.0[j] == pid);
                        assert(parts.0[i] == prev.0[i]);
                        if crate::player_map::player_key(prev.0[i]) == pk {
                            assert(exists|x: int|
                                0 <= x < prev.0.len() && crate::player_map::player_key(
                                    #[trigger] prev.0[x],
                                ) == pk);
                        }
                    } else {
                        assert(parts.0[i] == prev.0[i] && parts.0[j] == prev.0[j]);
                    }
                }
            },
            Some(false) => {
                assert forall|i: int, j: int|
                    0 <= i < j < parts.1.len() implies crate::player_map::player_key(
                    #[trigger] parts.1[i],
                ) != crate::player_map::player_key(#[trigger] parts.1[j]) by {
                    if j == parts.1.len() - 1 {
                        assert(parts.1[j] == pid);
                        assert(parts.1[i] == prev.1[i]);
                        if crate::player_map::player_key(prev.1[i]) == pk {
                            assert(exists|x: int|
                                0 <= x < prev.1.len() && crate::player_map::player_key(
                                    #[trigger] prev.1[x],
                                ) == pk);
                        }
                    } else {
                        assert(parts.1[i] == prev.1[i] && parts.1[j] == prev.1[j]);
                    }
                }
            },
            None => {},
        }
    }
}

/// The rosters are the sorted team partition of the players discovered in
/// the given engine state: each roster is sorted in the deterministic
/// order with no player repeated, and a player key is on a roster exactly
/// when it was discovered and its team resolves to that side.
pub open spec fn spec_rosters_fix_discovery(
    r: Replay,
    d: (ModelerView, LinksView, Option<ActorId>),
    team_zero: Seq<PlayerId>,
    team_one: Seq<PlayerId>,
) -> bool {
    &&& crate::player_map::sorted_by_player_le(team_zero)
    &&& crate::player_map::sorted_by_player_le(team_one)
    &&& forall|i: int, j: int|
        0 <= i < j < team_zero.len() ==> crate::player_map::player_key(#[trigger] team_zero[i])
            != crate::player_map::player_key(#[trigger] team_zero[j])
    &&& forall|i: int, j: int|
        0 <= i < j < team_one.len() ==> crate::player_map::player_key(#[trigger] team_one[i])
            != crate::player_map::player_key(#[trigger] team_one[j])
    &&& forall|j: int|
        0 <= j < team_zero.len() ==> d.1.player_to_actor.contains_key(
            crate::player_map::player_key(#[trigger] team_zero[j]),
        ) && spec_is_team_0_of_key(
            r,
            d.0,
            d.1.player_to_team,
            d.1.player_to_actor,
            crate::player_map::player_key(team_zero[j]),
        ) == Some(true)
    &&& forall|j: int|
        0 <= j < team_one.len() ==> d.1.player_to_actor.contains_key(
            crate::player_map::player_key(#[trigger] team_one[j]),
        ) && spec_is_team_0_of_key(
            r,
            d.0,
            d.1.player_to_team,
            d.1.player_to_actor,
            crate::player_map::player_key(team_one[j]),
        ) == Some(false)
    &&& forall|k: (int, u64, Seq<char>)|
        #![trigger d.1.player_to_actor.contains_key(k)]
        d.1.player_to_actor.contains_key(k) && spec_is_team_0_of_key(
            r,
            d.0,
            d.1.player_to_team,
            d.1.player_to_actor,
            k,
        ) == Some(true) ==> exists|j: int|
            0 <= j < team_zero.len() && crate::player_map::player_key(#[trigger] team_zero[j]) == k
    &&& forall|k: (int, u64, Seq<char>)|
        #![trigger d.1.player_to_actor.contains_key(k)]
        d.1.player_to_actor.contains_key(k) && spec_is_team_0_of_key(
            r,
            d.0,
            d.1.player_to_team,
            d.1.player_to_actor,
            k,
        ) == Some(false) ==> exists|j: int|
            0 <= j < team_one.len() && crate::player_map::player_key(#[trigger] team_one[j]) == k
}

impl ReplayProcessor {
    /// Clears all state accumulated from frames: the modeled actors, the
    /// relationship indexes and the demolition records. The rosters and the
    /// replay are kept.
    pub fn reset(&mut self)
        requires
            old(self).wf(),
        ensures
            final(self).wf(),
            final(self).replay == old(self).replay,
            final(self).team_zero@ == old(self).team_zero@,
            final(self).team_one@ == old(self).team_one@,
            final(self).ball_actor_id == old(self).ball_actor_id,
            final(self).actor_state@.states == Map::<i32, ActorStateView>::empty(),
            final(self).actor_state@.by_type == Map::<i32, Seq<i32>>::empty(),
            final(self).player_to_actor_id@ == Map::<(int, u64, Seq<char>), ActorId>::empty(),
            final(self).player_to_car@ == Map::<i32, ActorId>::empty(),
            final(self).player_to_team@ == Map::<i32, ActorId>::empty(),
            final(self).car_to_boost@ == Map::<i32, ActorId>::empty(),
            final(self).car_to_jump@ == Map::<i32, ActorId>::empty(),
            final(self).car_to_double_jump@ == Map::<i32, ActorId>::empty(),
            final(self).car_to_dodge@ == Map::<i32, ActorId>::empty(),
            final(self).demolishes@ == Seq::<DemolishInfo>::empty(),
            final(self).known_demolishes@ == Seq::<(DemolishFx, usize)>::empty(),
    {
        self.player_to_car = IdMap::new();
        self.player_to_team = IdMap::new();
        self.player_to_actor_id = PlayerMap::new();
        self.car_to_boost = IdMap::new();
        self.car_to_jump = IdMap::new();
        self.car_to_double_jump = IdMap::new();
        self.car_to_dodge = IdMap::new();
        self.actor_state = crate::actor_state::ActorStateModeler::new();
        self.demolishes = Vec::new();
        self.demolish_fx = Ghost(Seq::empty());
        self.known_demolishes = Vec::new();
    }

    /// Runs the discovery prefix: applies the first frames of the replay —
    /// at most the discovery cutoff — through the modeler, the relationship
    /// indexes, the ball discovery and the derived state, with no collector
    /// attached. On success the engine state is the fold of exactly that
    /// prefix.
    pub fn process_long_enough_to_get_actor_ids(&mut self) -> (r: SubtrActorResult<()>)
        requires
            old(self).wf(),
        ensures
            final(self).wf(),
            final(self).replay == old(self).replay,
            final(self).team_zero@ == old(self).team_zero@,
            final(self).team_one@ == old(self).team_one@,
            old(self).replay.network_frames is None ==> (r matches Err(e) && e.variant
                matches SubtrActorErrorVariant::NoNetworkFrames) && *final(self) == *old(self),
            (old(self).replay.network_frames matches Some(fs) && spec_object_id(
                old(self).replay,
                "Archetypes.Car.Car_Default"@,
            ) is Some && spec_frames_and_links_fold(
                old(self).replay,
                (old(self).actor_state@, old(self).links(), old(self).ball_actor_id),
                fs@.take(spec_discovery_cutoff(fs@.len() as int)),
                0,
            ) is Some) ==> r is Ok,
            match r {
                Ok(_) => (old(self).replay.network_frames matches Some(fs)
                    && spec_frames_and_links_fold(
                    old(self).replay,
                    (old(self).actor_state@, old(self).links(), old(self).ball_actor_id),
                    fs@.take(spec_discovery_cutoff(fs@.len() as int)),
                    0,
                ) == Some(
                    (final(self).actor_state@, final(self).links(), final(self).ball_actor_id),
                )),
                Err(_) => true,
            },
    {
        let ghost r0 = self.replay;
        let ghost st_init = (self.actor_state@, self.links(), self.ball_actor_id);
        let n = match &self.replay.network_frames {
            None => {
                return SubtrActorError::new_result(SubtrActorErrorVariant::NoNetworkFrames);
            },
            Some(frames) => frames.len(),
        };
        let ghost fs = self.replay.network_frames.unwrap()@;
        let cut: usize = if n > 302 {
            302
        } else {
            n
        };
        proof {
            assert(cut as int == spec_discovery_cutoff(fs.len() as int));
        }
        for index in 0..cut
            invariant
                self.wf(),
                self.replay == r0,
                r0 == old(self).replay,
                st_init == (old(self).actor_state@, old(self).links(), old(self).ball_actor_id),
                self.team_zero@ == old(self).team_zero@,
                self.team_one@ == old(self).team_one@,
                r0.network_frames matches Some(v) && v@ == fs,
                cut <= fs.len(),
                n == fs.len(),
                cut as int == spec_discovery_cutoff(fs.len() as int),
                spec_frames_and_links_fold(r0, st_init, fs.take(index as int), 0) == Some(
                    (self.actor_state@, self.links(), self.ball_actor_id),
                ),
        {
            let ghost st_at_head = (self.actor_state@, self.links(), self.ball_actor_id);
            let ghost mv_at_head = self.actor_state@;
            let frame = match &self.replay.network_frames {
                Some(frames) => frames[index].duplicate(),
                None => {
                    proof {
                        assert(false);
                    }
                    return SubtrActorError::new_result(SubtrActorErrorVariant::NoNetworkFrames);
                },
            };
            proof {
                assert(frame_bounded(fs[index as int]));
                assert(frame_bounded(frame));
                assert(spec_frames_and_links_fold(r0, st_init, fs.take(cut as int), 0) is Some
                    ==> spec_frame_and_links(r0, st_at_head, fs[index as int], index)
                    is Some) by {
                    if spec_frames_and_links_fold(r0, st_init, fs.take(cut as int), 0) is Some {
                        lemma_frames_and_links_fold_concat(
                            r0,
                            st_init,
                            fs.take(index as int),
                            fs.take(cut as int).skip(index as int),
                            0,
                        );
                        assert(fs.take(index as int) + fs.take(cut as int).skip(index as int)
                            =~= fs.take(cut as int));
                        let rest = fs.take(cut as int).skip(index as int);
                        assert(rest[0] == fs[index as int]);
                        assert(spec_frames_and_links_fold(r0, st_at_head, rest, index as int)
                            is Some);
                    }
                }
            }
            match self.actor_state.process_frame(&frame, index) {
                Ok(_) => {},
                Err(e) => {
                    proof {
                        if spec_frames_and_links_fold(r0, st_init, fs.take(cut as int), 0)
                            is Some {
                            assert(spec_process_frame(mv_at_head, fs[index as int], index)
                                == spec_process_frame(mv_at_head, frame, index)) by {
                                assert(fs[index as int].deleted_actors@
                                    == frame.deleted_actors@);
                                assert(fs[index as int].new_actors@ == frame.new_actors@);
                                assert(fs[index as int].updated_actors@
                                    == frame.updated_actors@);
                            }
                            assert(false);
                        }
                    }
                    return Err(e);
                },
            }
            proof {
                assert(spec_process_frame(mv_at_head, frame, index) == Some(self.actor_state@));
            }
            let ghost mv_applied = self.actor_state@;
            match self.update_mappings(&frame) {
                Ok(_) => {},
                Err(e) => {
                    proof {
                        if spec_frames_and_links_fold(r0, st_init, fs.take(cut as int), 0)
                            is Some {
                            assert(spec_process_frame(mv_at_head, fs[index as int], index)
                                == spec_process_frame(mv_at_head, frame, index)) by {
                                assert(fs[index as int].deleted_actors@
                                    == frame.deleted_actors@);
                                assert(fs[index as int].new_actors@ == frame.new_actors@);
                                assert(fs[index as int].updated_actors@
                                    == frame.updated_actors@);
                            }
                            assert(spec_update_mappings(
                                r0,
                                mv_applied,
                                st_at_head.1,
                                fs[index as int],
                            ) == spec_update_mappings(r0, mv_applied, st_at_head.1, frame)) by {
                                assert(spec_link_steps(
                                    r0,
                                    mv_applied,
                                    st_at_head.1,
                                    fs[index as int].updated_actors@,
                                ) == spec_link_steps(
                                    r0,
                                    mv_applied,
                                    st_at_head.1,
                                    frame.updated_actors@,
                                ));
                                assert(fs[index as int].deleted_actors@
                                    == frame.deleted_actors@);
                            }
                            assert(false);
                        }
                    }
                    return Err(e);
                },
            }
            self.update_ball_id(&frame)?;
            proof {
                assert(self.actor_state@ == mv_applied);
            }
            match self.update_boost_amounts(&frame, index) {
                Ok(_) => {},
                Err(e) => {
                    proof {
                        if spec_frames_and_links_fold(r0, st_init, fs.take(cut as int), 0)
                            is Some {
                            assert(spec_process_frame(mv_at_head, fs[index as int], index)
                                == spec_process_frame(mv_at_head, frame, index)) by {
                                assert(fs[index as int].deleted_actors@
                                    == frame.deleted_actors@);
                                assert(fs[index as int].new_actors@ == frame.new_actors@);
                                assert(fs[index as int].updated_actors@
                                    == frame.updated_actors@);
                            }
                            assert(spec_boost_all(r0, mv_applied, fs[index as int].delta, index)
                                is Some);
                            assert(false);
                        }
                    }
                    return Err(e);
                },
            }
            proof {
                let ids = spec_ids_of_type(
                    r0,
                    mv_applied,
                    "Archetypes.CarComponents.CarComponent_Boost"@,
                ).unwrap();
                assert(ids.take(ids.len() as int) =~= ids);
                let expected = spec_boost_all(r0, mv_applied, frame.delta, index).unwrap();
                assert(self.actor_state@.states =~= expected.states);
                assert(self.actor_state@.by_type =~= expected.by_type);
                assert(self.actor_state@ =~= expected);
                let ghost st_now = (self.actor_state@, self.links(), self.ball_actor_id);
                assert(spec_frame_and_links(r0, st_at_head, frame, index) == Some(st_now));
                assert(spec_frame_and_links(r0, st_at_head, fs[index as int], index) == Some(
                    st_now,
                )) by {
                    assert(spec_process_frame(mv_at_head, fs[index as int], index)
                        == spec_process_frame(mv_at_head, frame, index)) by {
                        assert(fs[index as int].deleted_actors@ == frame.deleted_actors@);
                        assert(fs[index as int].new_actors@ == frame.new_actors@);
                        assert(fs[index as int].updated_actors@ == frame.updated_actors@);
                    }
                    let mv1 = spec_process_frame(mv_at_head, frame, index).unwrap();
                    assert(spec_update_mappings(r0, mv1, st_at_head.1, fs[index as int])
                        == spec_update_mappings(r0, mv1, st_at_head.1, frame)) by {
                        assert(spec_link_steps(
                            r0,
                            mv1,
                            st_at_head.1,
                            fs[index as int].updated_actors@,
                        ) == spec_link_steps(r0, mv1, st_at_head.1, frame.updated_actors@));
                        assert(fs[index as int].deleted_actors@ == frame.deleted_actors@);
                    }
                    assert(spec_update_ball(r0, mv1, st_at_head.2, fs[index as int])
                        == spec_update_ball(r0, mv1, st_at_head.2, frame)) by {
                        assert(fs[index as int].deleted_actors@ == frame.deleted_actors@);
                    }
                }
                lemma_frames_and_links_fold_concat(r0, st_init, fs.take(index as int), seq![
                    fs[index as int]
                ], 0);
                assert(seq![fs[index as int]][0] == fs[index as int]);
                assert(seq![fs[index as int]].drop_first() =~= Seq::<Frame>::empty());
                assert(spec_frames_and_links_fold(r0, st_now, Seq::<Frame>::empty(), index + 1)
                    == Some(st_now));
                assert(spec_frames_and_links_fold(
                    r0,
                    st_at_head,
                    seq![fs[index as int]],
                    index as int,
                ) == Some(st_now));
                assert(fs.take(index as int + 1) =~= fs.take(index as int) + seq![
                    fs[index as int]
                ]);
            }
            match self.update_demolishes(&frame, index) {
                Ok(_) => {},
                Err(e) => {
                    proof {
                        if spec_object_id(r0, "Archetypes.Car.Car_Default"@) is Some {
                            assert(false);
                        }
                    }
                    return Err(e);
                },
            }
        }
        Ok(())
    }

    /// Splits the discovered players into the two team rosters, in the
    /// deterministic map order: a player whose team resolves to team zero
    /// goes to the first roster, one that resolves to team one to the
    /// second, and one whose team cannot be resolved to neither.
    pub fn partition_rosters(&self) -> (r: (Vec<PlayerId>, Vec<PlayerId>))
        requires
            self.wf(),
        ensures
            (r.0@, r.1@) == spec_partition(
                self.replay,
                self.actor_state@,
                self.player_to_team@,
                self.player_to_actor_id@,
                self.player_to_actor_id.entries_seq(),
            ),
            r.0@.len() + r.1@.len() <= self.player_to_actor_id.entries_seq().len(),
            r.0@.len() + r.1@.len() <= usize::MAX,
    {
        let mut team_zero: Vec<PlayerId> = Vec::new();
        let mut team_one: Vec<PlayerId> = Vec::new();
        let ghost entries = self.player_to_actor_id.entries_seq();
        let n = self.player_to_actor_id.len();
        proof {
            assert(entries.take(0) =~= Seq::<(PlayerId, ActorId)>::empty());
        }
        for i in 0..n
            invariant
                self.wf(),
                entries == self.player_to_actor_id.entries_seq(),
                n == entries.len(),
                team_zero@.len() + team_one@.len() <= i,
                (team_zero@, team_one@) == spec_partition(
                    self.replay,
                    self.actor_state@,
                    self.player_to_team@,
                    self.player_to_actor_id@,
                    entries.take(i as int),
                ),
        {
            let player_id = self.player_to_actor_id.key_at(i).duplicate();
            proof {
                assert(entries.take(i as int + 1).drop_last() =~= entries.take(i as int));
                assert(entries.take(i as int + 1).last() == entries[i as int]);
            }
            match self.get_player_is_team_0(&player_id) {
                Ok(true) => {
                    team_zero.push(player_id);
                },
                Ok(false) => {
                    team_one.push(player_id);
                },
                Err(_) => {},
            }
        }
        proof {
            assert(entries.take(n as int) =~= entries);
        }
        (team_zero, team_one)
    }

    /// The header path of roster discovery. The header data the wire
    /// provides is not sufficient on its own, so this path always ends with
    /// `PlayerStatsHeaderNotFound` and discovery falls back to the frame
    /// scan.
    pub fn set_player_order_from_headers(&mut self) -> (r: SubtrActorResult<()>)
        ensures
            *final(self) == *old(self),
            r matches Err(e) && (e.variant
                matches SubtrActorErrorVariant::PlayerStatsHeaderNotFound),
    {
        SubtrActorError::new_result(SubtrActorErrorVariant::PlayerStatsHeaderNotFound)
    }

    /// The frame-scan path of roster discovery: processes enough frames to
    /// see every player, splits them by team, sorts each roster into the
    /// deterministic order, and resets the accumulated state.
    pub fn set_player_order_from_frames(&mut self) -> (r: SubtrActorResult<()>)
        requires
            old(self).wf(),
        ensures
            final(self).wf(),
            final(self).replay == old(self).replay,
            old(self).replay.network_frames is None ==> (r matches Err(e) && e.variant
                matches SubtrActorErrorVariant::NoNetworkFrames),
            (old(self).replay.network_frames matches Some(fs) && spec_object_id(
                old(self).replay,
                "Archetypes.Car.Car_Default"@,
            ) is Some && spec_frames_and_links_fold(
                old(self).replay,
                (old(self).actor_state@, old(self).links(), old(self).ball_actor_id),
                fs@.take(spec_discovery_cutoff(fs@.len() as int)),
                0,
            ) is Some) ==> r is Ok,
            match r {
                Ok(_) => (old(self).replay.network_frames matches Some(fs) && {
                    let folded = spec_frames_and_links_fold(
                        old(self).replay,
                        (old(self).actor_state@, old(self).links(), old(self).ball_actor_id),
                        fs@.take(spec_discovery_cutoff(fs@.len() as int)),
                        0,
                    );
                    &&& folded matches Some(d) && {
                        &&& spec_rosters_fix_discovery(
                            old(self).replay,
                            d,
                            final(self).team_zero@,
                            final(self).team_one@,
                        )
                        &&& final(self).ball_actor_id == d.2
                    }
                    &&& final(self).actor_state@.states == Map::<i32, ActorStateView>::empty()
                    &&& final(self).actor_state@.by_type == Map::<i32, Seq<i32>>::empty()
                    &&& final(self).player_to_actor_id@ == Map::<
                        (int, u64, Seq<char>),
                        ActorId,
                    >::empty()
                    &&& final(self).demolishes@ == Seq::<DemolishInfo>::empty()
                    &&& final(self).known_demolishes@ == Seq::<(DemolishFx, usize)>::empty()
                }),
                Err(_) => true,
            },
    {
        let ghost r0 = self.replay;
        self.process_long_enough_to_get_actor_ids()?;
        let ghost d = (self.actor_state@, self.links(), self.ball_actor_id);
        let ghost pmap = self.player_to_actor_id;
        let (team_zero, team_one) = self.partition_rosters();
        let ghost parts = (team_zero@, team_one@);
        let ghost entries = self.player_to_actor_id.entries_seq();
        let team_zero = crate::player_map::sort_player_ids(&team_zero);
        let team_one = crate::player_map::sort_player_ids(&team_one);
        proof {
            assert(crate::player_map::player_keys_distinct(entries));
            lemma_partition_distinct(r0, d.0, d.1.player_to_team, d.1.player_to_actor, entries);
            crate::player_map::lemma_key_distinct_permutation(parts.0, team_zero@);
            crate::player_map::lemma_key_distinct_permutation(parts.1, team_one@);
        }
        self.team_zero = team_zero;
        self.team_one = team_one;
        self.reset();
        proof {
            broadcast use vstd::seq_lib::group_to_multiset_ensures;

            let tz = self.team_zero@;
            let to = self.team_one@;
            assert forall|j: int| 0 <= j < tz.len() implies d.1.player_to_actor.contains_key(
                crate::player_map::player_key(#[trigger] tz[j]),
            ) && spec_is_team_0_of_key(
                r0,
                d.0,
                d.1.player_to_team,
                d.1.player_to_actor,
                crate::player_map::player_key(tz[j]),
            ) == Some(true) by {
                assert(tz.contains(tz[j]));
                assert(tz.to_multiset().count(tz[j]) > 0);
                assert(parts.0.to_multiset().count(tz[j]) > 0);
                assert(parts.0.contains(tz[j]));
                let x = choose|x: int| 0 <= x < parts.0.len() && parts.0[x] == tz[j];
                lemma_partition_membership(
                    r0,
                    d.0,
                    d.1.player_to_team,
                    d.1.player_to_actor,
                    entries,
                    crate::player_map::player_key(tz[j]),
                );
                assert(exists|y: int|
                    0 <= y < parts.0.len() && crate::player_map::player_key(#[trigger] parts.0[y])
                        == crate::player_map::player_key(tz[j]));
            }
            assert forall|j: int| 0 <= j < to.len() implies d.1.player_to_actor.contains_key(
                crate::player_map::player_key(#[trigger] to[j]),
            ) && spec_is_team_0_of_key(
                r0,
                d.0,
                d.1.player_to_team,
                d.1.player_to_actor,
                crate::player_map::player_key(to[j]),
            ) == Some(false) by {
                assert(to.contains(to[j]));
                assert(to.to_multiset().count(to[j]) > 0);
                assert(parts.1.to_multiset().count(to[j]) > 0);
                assert(parts.1.contains(to[j]));
                lemma_partition_membership(
                    r0,
                    d.0,
                    d.1.player_to_team,
                    d.1.player_to_actor,
                    entries,
                    crate::player_map::player_key(to[j]),
                );
                assert(exists|y: int|
                    0 <= y < parts.1.len() && crate::player_map::player_key(#[trigger] parts.1[y])
                        == crate::player_map::player_key(to[j]));
            }
            assert forall|k: (int, u64, Seq<char>)|
                d.1.player_to_actor.contains_key(k) && spec_is_team_0_of_key(
                    r0,
                    d.0,
                    d.1.player_to_team,
                    d.1.player_to_actor,
                    k,
                ) == Some(true) implies exists|j: int|
                0 <= j < tz.len() && crate::player_map::player_key(#[trigger] tz[j]) == k by {
                pmap.lemma_view_has_key(k);
                pmap.lemma_view_has_key(k);
                assert(pmap.entries_seq() == entries);
                assert(crate::player_map::pseq_has_key(entries, k));
                lemma_partition_membership(
                    r0,
                    d.0,
                    d.1.player_to_team,
                    d.1.player_to_actor,
                    entries,
                    k,
                );
                let x = choose|x: int|
                    0 <= x < parts.0.len() && crate::player_map::player_key(#[trigger] parts.0[x])
                        == k;
                assert(parts.0.contains(parts.0[x]));
                assert(parts.0.to_multiset().count(parts.0[x]) > 0);
                assert(tz.to_multiset().count(parts.0[x]) > 0);
                assert(tz.contains(parts.0[x]));
                let j = choose|j: int| 0 <= j < tz.len() && tz[j] == parts.0[x];
                assert(crate::player_map::player_key(tz[j]) == k);
            }
            assert forall|k: (int, u64, Seq<char>)|
                d.1.player_to_actor.contains_key(k) && spec_is_team_0_of_key(
                    r0,
                    d.0,
                    d.1.player_to_team,
                    d.1.player_to_actor,
                    k,
                ) == Some(false) implies exists|j: int|
                0 <= j < to.len() && crate::player_map::player_key(#[trigger] to[j]) == k by {
                pmap.lemma_view_has_key(k);
                assert(pmap.entries_seq() == entries);
                assert(crate::player_map::pseq_has_key(entries, k));
                lemma_partition_membership(
                    r0,
                    d.0,
                    d.1.player_to_team,
                    d.1.player_to_actor,
                    entries,
                    k,
                );
                let x = choose|x: int|
                    0 <= x < parts.1.len() && crate::player_map::player_key(#[trigger] parts.1[x])
                        == k;
                assert(parts.1.contains(parts.1[x]));
                assert(parts.1.to_multiset().count(parts.1[x]) > 0);
                assert(to.to_multiset().count(parts.1[x]) > 0);
                assert(to.contains(parts.1[x]));
                let j = choose|j: int| 0 <= j < to.len() && to[j] == parts.1[x];
                assert(crate::player_map::player_key(to[j]) == k);
            }
        }
        Ok(())
    }

    /// Checks that the players seen while processing are exactly the roster
    /// fixed at discovery: succeeds exactly when each discovered player is
    /// on a roster and each rostered player was discovered; otherwise fails
    /// with both sets.
    pub fn check_player_id_set(&self) -> (r: SubtrActorResult<()>)
        requires
            self.wf(),
        ensures
            (r is Ok) == spec_player_set_consistent(*self),
            r matches Err(e) ==> (e.variant
                matches SubtrActorErrorVariant::InconsistentPlayerSet { .. }),
    {
        let roster = self.iter_player_ids_in_order();
        let mut found: Vec<PlayerId> = Vec::new();
        let n = self.player_to_actor_id.len();
        for i in 0..n
            invariant
                self.wf(),
                n == self.player_to_actor_id.entries_seq().len(),
                found@.len() == i,
        {
            found.push(self.player_to_actor_id.key_at(i).duplicate());
        }
        for i in 0..n
            invariant
                self.wf(),
                n == self.player_to_actor_id.entries_seq().len(),
                roster@ == self.team_zero@ + self.team_one@,
                forall|x: int|
                    0 <= x < i ==> roster_has(
                        roster@,
                        (#[trigger] self.player_to_actor_id.entries_seq()[x]).0,
                    ),
        {
            let p = self.player_to_actor_id.key_at(i).duplicate();
            if !roster_contains(&roster, &p) {
                return SubtrActorError::new_result(
                    SubtrActorErrorVariant::InconsistentPlayerSet { found, original: roster },
                );
            }
        }
        let m = roster.len();
        for j in 0..m
            invariant
                self.wf(),
                m == roster@.len(),
                roster@ == self.team_zero@ + self.team_one@,
                forall|x: int|
                    0 <= x < self.player_to_actor_id.entries_seq().len() ==> roster_has(
                        roster@,
                        (#[trigger] self.player_to_actor_id.entries_seq()[x]).0,
                    ),
                forall|y: int|
                    0 <= y < j ==> self.player_to_actor_id@.contains_key(
                        crate::player_map::player_key(#[trigger] roster@[y]),
                    ),
        {
            if !self.player_to_actor_id.contains_key(&roster[j]) {
                return SubtrActorError::new_result(
                    SubtrActorErrorVariant::InconsistentPlayerSet { found, original: roster },
                );
            }
        }
        Ok(())
    }

    /// The demolish values currently replicated on car actors, in the car
    /// index order.
    pub fn get_active_demolish_fx(&self) -> (r: SubtrActorResult<Vec<DemolishFx>>)
        requires
            self.wf(),
        ensures
            match r {
                Ok(v) => forall|x: int|
                    0 <= x < v@.len() ==> demolish_observed(*self, #[trigger] v@[x]),
                Err(e) => e.variant matches SubtrActorErrorVariant::ObjectIdNotFound { .. },
            },
    {
        let car_ids = self.get_actor_ids_by_type(&crate::constants::car_type())?;
        let mut out: Vec<DemolishFx> = Vec::new();
        let n = car_ids.len();
        for i in 0..n
            invariant
                self.wf(),
                n == car_ids@.len(),
                forall|x: int| 0 <= x < out@.len() ==> demolish_observed(*self, #[trigger] out@[x]),
        {
            let k = car_ids[i];
            match self.get_actor_state(k) {
                Ok(st) => {
                    match self.get_attribute(
                        &st.attributes,
                        &crate::constants::demolish_goal_explosion_key(),
                    ) {
                        Ok(a) => match a {
                            Attribute::DemolishFx(d) => {
                                let d = *d;
                                proof {
                                    assert(spec_actor_attribute(
                                        *self,
                                        k,
                                        "TAGame.Car_TA:ReplicatedDemolishGoalExplosion"@,
                                    ) == Some(Attribute::DemolishFx(d)));
                                    assert(demolish_observed(*self, d));
                                }
                                out.push(d);
                            },
                            _ => {},
                        },
                        Err(_) => {},
                    }
                },
                Err(_) => {},
            }
        }
        Ok(out)
    }

    /// Builds a processor over a parsed replay and runs the player-order
    /// discovery pass, leaving the rosters fixed and the mutable state
    /// clean.
    pub fn new(replay: Replay) -> (r: SubtrActorResult<ReplayProcessor>)
        requires
            replay_bounded(replay),
        ensures
            replay.network_frames is None ==> (r matches Err(e) && e.variant
                matches SubtrActorErrorVariant::NoNetworkFrames),
            (replay.network_frames matches Some(fs) && spec_object_id(
                replay,
                "Archetypes.Car.Car_Default"@,
            ) is Some && spec_frames_and_links_fold(
                replay,
                (
                    ModelerView {
                        states: Map::<i32, ActorStateView>::empty(),
                        by_type: Map::<i32, Seq<i32>>::empty(),
                    },
                    LinksView {
                        player_to_actor: Map::empty(),
                        player_to_team: Map::empty(),
                        player_to_car: Map::empty(),
                        car_to_boost: Map::empty(),
                        car_to_jump: Map::empty(),
                        car_to_double_jump: Map::empty(),
                        car_to_dodge: Map::empty(),
                    },
                    None::<ActorId>,
                ),
                fs@.take(spec_discovery_cutoff(fs@.len() as int)),
                0,
            ) is Some) ==> r is Ok,
            match r {
                Ok(p) => {
                    &&& p.wf()
                    &&& p.replay == replay
                    &&& (replay.network_frames matches Some(fs) && {
                        let folded = spec_frames_and_links_fold(
                            replay,
                            (
                                ModelerView {
                                    states: Map::<i32, ActorStateView>::empty(),
                                    by_type: Map::<i32, Seq<i32>>::empty(),
                                },
                                LinksView {
                                    player_to_actor: Map::empty(),
                                    player_to_team: Map::empty(),
                                    player_to_car: Map::empty(),
                                    car_to_boost: Map::empty(),
                                    car_to_jump: Map::empty(),
                                    car_to_double_jump: Map::empty(),
                                    car_to_dodge: Map::empty(),
                                },
                                None::<ActorId>,
                            ),
                            fs@.take(spec_discovery_cutoff(fs@.len() as int)),
                            0,
                        );
                        folded matches Some(d) && spec_rosters_fix_discovery(
                            replay,
                            d,
                            p.team_zero@,
                            p.team_one@,
                        ) && p.ball_actor_id == d.2
                    })
                    &&& p.actor_state@.states == Map::<i32, ActorStateView>::empty()
                    &&& p.actor_state@.by_type == Map::<i32, Seq<i32>>::empty()
                    &&& p.player_to_actor_id@ == Map::<(int, u64, Seq<char>), ActorId>::empty()
                    &&& p.demolishes@ == Seq::<DemolishInfo>::empty()
                    &&& p.known_demolishes@ == Seq::<(DemolishFx, usize)>::empty()
                },
                Err(_) => true,
            },
    {
        let mut processor = ReplayProcessor {
            replay,
            actor_state: crate::actor_state::ActorStateModeler::new(),
            ball_actor_id: None,
            team_zero: Vec::new(),
            team_one: Vec::new(),
            player_to_actor_id: PlayerMap::new(),
            player_to_car: IdMap::new(),
            player_to_team: IdMap::new(),
            car_to_boost: IdMap::new(),
            car_to_jump: IdMap::new(),
            car_to_double_jump: IdMap::new(),
            car_to_dodge: IdMap::new(),
            demolishes: Vec::new(),
            demolish_fx: Ghost(Seq::empty()),
            known_demolishes: Vec::new(),
        };
        proof {
            assert(processor.links() =~= (LinksView {
                player_to_actor: Map::empty(),
                player_to_team: Map::empty(),
                player_to_car: Map::empty(),
                car_to_boost: Map::empty(),
                car_to_jump: Map::empty(),
                car_to_double_jump: Map::empty(),
                car_to_dodge: Map::empty(),
            }));
            assert(processor.actor_state@ =~= (ModelerView {
                states: Map::<i32, ActorStateView>::empty(),
                by_type: Map::<i32, Seq<i32>>::empty(),
            }));
        }
        match processor.set_player_order_from_headers() {
            Ok(_) => {},
            Err(_) => {
                processor.set_player_order_from_frames()?;
            },
        }
        Ok(processor)
    }
}

/// The position of the first header property named for per-player stats
/// that carries an array, if any.
pub open spec fn spec_stats_rows_index(props: Seq<(String, HeaderProp)>) -> Option<int>
    decreases props.len(),
{
    if props.len() == 0 {
        None
    } else if props[0].0@ == "PlayerStats"@ && props[0].1 is Array {
        Some(0)
    } else {
        match spec_stats_rows_index(props.drop_first()) {
            Some(i) => Some(i + 1),
            None => None,
        }
    }
}

/// The per-player stats rows of the header, or no rows when the header
/// carries none.
pub open spec fn spec_stats_rows(r: Replay) -> Seq<Vec<(String, crate::model::HeaderScalar)>> {
    match spec_stats_rows_index(r.properties@) {
        Some(i) => match r.properties@[i].1 {
            HeaderProp::Array(rows) => rows@,
            _ => Seq::empty(),
        },
        None => Seq::empty(),
    }
}

/// What one roster player's metadata entry must hold: the player identity,
/// the resolved replicated name, and the first matching stats row, if any.
pub open spec fn spec_player_info_ok(
    p: ReplayProcessor,
    info: crate::util::PlayerInfo,
    pid: PlayerId,
) -> bool {
    &&& info.remote_id == pid
    &&& spec_player_name(p, pid) == Some(info.name@)
    &&& match spec_find_stats_index(spec_stats_rows(p.replay), pid, info.name@) {
        Some(x) => info.stats matches Some(row) && crate::util::pairs_eqv(
            row@,
            spec_stats_rows(p.replay)[x]@,
        ),
        None => info.stats is None,
    }
}

impl ReplayProcessor {
    /// The position of the header's per-player stats array, if present.
    fn stats_rows_index(&self) -> (r: Option<usize>)
        ensures
            match r {
                Some(i) => spec_stats_rows_index(self.replay.properties@) == Some(i as int) && i
                    < self.replay.properties@.len() && self.replay.properties@[i as int].1
                    is Array,
                None => spec_stats_rows_index(self.replay.properties@) is None,
            },
    {
        let ghost props = self.replay.properties@;
        proof {
            assert(props.skip(0) =~= props);
        }
        let np = self.replay.properties.len();
        let key = "PlayerStats".to_owned();
        for pi in 0..np
            invariant
                np == props.len(),
                props == self.replay.properties@,
                key@ == "PlayerStats"@,
                spec_stats_rows_index(props) == match spec_stats_rows_index(
                    props.skip(pi as int),
                ) {
                    Some(x) => Some(x + pi),
                    None => None::<int>,
                },
        {
            proof {
                assert(props.skip(pi as int)[0] == props[pi as int]);
            }
            let is_array = match &self.replay.properties[pi].1 {
                HeaderProp::Array(_) => true,
                _ => false,
            };
            if self.replay.properties[pi].0 == key && is_array {
                return Some(pi);
            }
            proof {
                assert(props.skip(pi as int).drop_first() =~= props.skip(pi as int + 1));
            }
        }
        proof {
            assert(props.skip(np as int) =~= Seq::<(String, HeaderProp)>::empty());
        }
        None
    }

    /// Assembles the replay metadata: player details for both rosters, and a
    /// copy of every header property. Succeeds exactly when every rostered
    /// player's replicated name resolves; each entry then carries the
    /// player's name and the first matching per-player stats row.
    pub fn get_replay_meta(&self) -> (r: SubtrActorResult<crate::util::ReplayMeta>)
        requires
            self.wf(),
        ensures
            (r is Ok) == spec_roster_names_ok(*self),
            match r {
                Ok(m) => {
                    &&& m.team_zero@.len() == self.team_zero@.len()
                    &&& m.team_one@.len() == self.team_one@.len()
                    &&& forall|i: int|
                        0 <= i < m.team_zero@.len() ==> spec_player_info_ok(
                            *self,
                            #[trigger] m.team_zero@[i],
                            self.team_zero@[i],
                        )
                    &&& forall|i: int|
                        0 <= i < m.team_one@.len() ==> spec_player_info_ok(
                            *self,
                            #[trigger] m.team_one@[i],
                            self.team_one@[i],
                        )
                    &&& m.all_headers@.len() == self.replay.properties@.len()
                    &&& forall|i: int|
                        0 <= i < m.all_headers@.len() ==> (#[trigger] m.all_headers@[i]).0@ == (
                        #[trigger] self.replay.properties@[i]).0@ && crate::util::prop_eqv(
                            m.all_headers@[i].1,
                            self.replay.properties@[i].1,
                        )
                },
                Err(_) => true,
            },
    {
        let empty_rows: Vec<Vec<(String, crate::model::HeaderScalar)>> = Vec::new();
        let mut stats_rows: &Vec<Vec<(String, crate::model::HeaderScalar)>> = &empty_rows;
        match self.stats_rows_index() {
            Some(pi) => {
                if let crate::model::HeaderProp::Array(rows) = &self.replay.properties[pi].1 {
                    stats_rows = rows;
                } else {
                    proof {
                        assert(false);
                    }
                }
            },
            None => {},
        }
        proof {
            assert(stats_rows@ == spec_stats_rows(self.replay));
        }
        let ghost roster = self.team_zero@ + self.team_one@;
        let mut team_zero: Vec<crate::util::PlayerInfo> = Vec::new();
        let n0 = self.team_zero.len();
        for i in 0..n0
            invariant
                self.wf(),
                n0 == self.team_zero@.len(),
                stats_rows@ == spec_stats_rows(self.replay),
                team_zero@.len() == i,
                roster == self.team_zero@ + self.team_one@,
                forall|j: int|
                    0 <= j < i ==> spec_player_info_ok(
                        *self,
                        #[trigger] team_zero@[j],
                        self.team_zero@[j],
                    ),
                forall|j: int|
                    0 <= j < i ==> spec_player_name(*self, #[trigger] self.team_zero@[j]) is Some,
        {
            let pid = &self.team_zero[i];
            let name = match self.get_player_name(pid) {
                Ok(name) => name,
                Err(e) => {
                    proof {
                        assert(roster[i as int] == self.team_zero@[i as int]);
                        assert(spec_player_name(*self, roster[i as int]) is None);
                    }
                    return Err(e);
                },
            };
            let stats = match crate::util::find_player_stats(pid, &name, stats_rows) {
                Ok(row) => Some(row),
                Err(_) => None,
            };
            team_zero.push(
                crate::util::PlayerInfo { remote_id: pid.duplicate(), stats, name },
            );
        }
        let mut team_one: Vec<crate::util::PlayerInfo> = Vec::new();
        let n1 = self.team_one.len();
        for i in 0..n1
            invariant
                self.wf(),
                n0 == self.team_zero@.len(),
                n1 == self.team_one@.len(),
                stats_rows@ == spec_stats_rows(self.replay),
                team_zero@.len() == n0,
                team_one@.len() == i,
                roster == self.team_zero@ + self.team_one@,
                forall|j: int|
                    0 <= j < n0 ==> spec_player_info_ok(
                        *self,
                        #[trigger] team_zero@[j],
                        self.team_zero@[j],
                    ),
                forall|j: int|
                    0 <= j < n0 ==> spec_player_name(*self, #[trigger] self.team_zero@[j]) is Some,
                forall|j: int|
                    0 <= j < i ==> spec_player_info_ok(
                        *self,
                        #[trigger] team_one@[j],
                        self.team_one@[j],
                    ),
                forall|j: int|
                    0 <= j < i ==> spec_player_name(*self, #[trigger] self.team_one@[j]) is Some,
        {
            let pid = &self.team_one[i];
            let name = match self.get_player_name(pid) {
                Ok(name) => name,
                Err(e) => {
                    proof {
                        assert(roster[n0 + i as int] == self.team_one@[i as int]);
                        assert(spec_player_name(*self, roster[n0 + i as int]) is None);
                    }
                    return Err(e);
                },
            };
            let stats = match crate::util::find_player_stats(pid, &name, stats_rows) {
                Ok(row) => Some(row),
                Err(_) => None,
            };
            team_one.push(
                crate::util::PlayerInfo { remote_id: pid.duplicate(), stats, name },
            );
        }
        let np = self.replay.properties.len();
        let mut all_headers: Vec<(String, crate::model::HeaderProp)> = Vec::new();
        for i in 0..np
            invariant
                np == self.replay.properties@.len(),
                all_headers@.len() == i,
                forall|j: int|
                    0 <= j < i ==> (#[trigger] all_headers@[j]).0@ == (
                    #[trigger] self.replay.properties@[j]).0@ && crate::util::prop_eqv(
                        all_headers@[j].1,
                        self.replay.properties@[j].1,
                    ),
        {
            let (k, v) = (&self.replay.properties[i].0, &self.replay.properties[i].1);
            all_headers.push((k.clone(), v.duplicate()));
        }
        proof {
            assert forall|j: int|
                0 <= j < self.team_zero@.len() + self.team_one@.len() implies spec_player_name(
                *self,
                #[trigger] roster[j],
            ) is Some by {
                if j < n0 {
                    assert(roster[j] == self.team_zero@[j]);
                } else {
                    assert(roster[j] == self.team_one@[j - n0]);
                }
            }
        }
        Ok(crate::util::ReplayMeta { team_zero, team_one, all_headers })
    }

    /// Runs the discovery pass if the player links are still empty, then
    /// assembles the replay metadata.
    pub fn process_and_get_replay_meta(&mut self) -> (r: SubtrActorResult<crate::util::ReplayMeta>)
        requires
            old(self).wf(),
        ensures
            final(self).wf(),
            final(self).replay == old(self).replay,
            r matches Ok(m) ==> {
                &&& spec_roster_names_ok(*final(self))
                &&& m.team_zero@.len() == final(self).team_zero@.len()
                &&& m.team_one@.len() == final(self).team_one@.len()
                &&& (forall|i: int|
                    0 <= i < m.team_zero@.len() ==> spec_player_info_ok(
                        *final(self),
                        #[trigger] m.team_zero@[i],
                        final(self).team_zero@[i],
                    ))
                &&& (forall|i: int|
                    0 <= i < m.team_one@.len() ==> spec_player_info_ok(
                        *final(self),
                        #[trigger] m.team_one@[i],
                        final(self).team_one@[i],
                    ))
            },
            old(self).player_to_actor_id.entries_seq().len() > 0 ==> ((r is Err)
                == !spec_roster_names_ok(*final(self))),
    {
        if self.player_to_actor_id.len() == 0 {
            self.process_long_enough_to_get_actor_ids()?;
        }
        self.get_replay_meta()
    }
}

/// The object id of the rigid-body-state property.
pub open spec fn spec_rb_oid(r: Replay) -> ObjectId {
    match spec_object_id(r, "TAGame.RBActor_TA:ReplicatedRBState"@) {
        Some(o) => o as i32,
        None => (-1) as i32,
    }
}

/// Checks that an attribute is a byte, reporting the actual kind otherwise.
pub fn attr_as_byte(attribute: &Attribute) -> (r: SubtrActorResult<u8>)
    ensures
        match r {
            Ok(b) => *attribute == Attribute::Byte(b),
            Err(e) => !(attribute is Byte) && (e.variant
                matches SubtrActorErrorVariant::UnexpectedAttributeType {
                expected_type,
                actual_type,
            } && expected_type == AttributeTag::Byte && actual_type == spec_attribute_to_tag(
                *attribute,
            )),
        },
{
    match attribute {
        Attribute::Byte(b) => Ok(*b),
        _ => SubtrActorError::new_result(
            SubtrActorErrorVariant::UnexpectedAttributeType {
                expected_type: AttributeTag::Byte,
                actual_type: crate::model::attribute_to_tag(attribute),
            },
        ),
    }
}

/// Checks that an attribute is an int.
pub fn attr_as_int(attribute: &Attribute) -> (r: SubtrActorResult<i32>)
    ensures
        match r {
            Ok(v) => *attribute == Attribute::Int(v),
            Err(e) => !(attribute is Int) && (e.variant
                matches SubtrActorErrorVariant::UnexpectedAttributeType { expected_type, .. }
                && expected_type == AttributeTag::Int),
        },
{
    match attribute {
        Attribute::Int(v) => Ok(*v),
        _ => SubtrActorError::new_result(
            SubtrActorErrorVariant::UnexpectedAttributeType {
                expected_type: AttributeTag::Int,
                actual_type: crate::model::attribute_to_tag(attribute),
            },
        ),
    }
}

/// Checks that an attribute is a boolean.
pub fn attr_as_boolean(attribute: &Attribute) -> (r: SubtrActorResult<bool>)
    ensures
        match r {
            Ok(v) => *attribute == Attribute::Boolean(v),
            Err(e) => !(attribute is Boolean) && (e.variant
                matches SubtrActorErrorVariant::UnexpectedAttributeType { expected_type, .. }
                && expected_type == AttributeTag::Boolean),
        },
{
    match attribute {
        Attribute::Boolean(v) => Ok(*v),
        _ => SubtrActorError::new_result(
            SubtrActorErrorVariant::UnexpectedAttributeType {
                expected_type: AttributeTag::Boolean,
                actual_type: crate::model::attribute_to_tag(attribute),
            },
        ),
    }
}

/// Checks that an attribute is a float, in milli-units.
pub fn attr_as_float(attribute: &Attribute) -> (r: SubtrActorResult<Milli>)
    ensures
        match r {
            Ok(v) => *attribute == Attribute::Float(v),
            Err(e) => !(attribute is Float) && (e.variant
                matches SubtrActorErrorVariant::UnexpectedAttributeType { expected_type, .. }
                && expected_type == AttributeTag::Float),
        },
{
    match attribute {
        Attribute::Float(v) => Ok(*v),
        _ => SubtrActorError::new_result(
            SubtrActorErrorVariant::UnexpectedAttributeType {
                expected_type: AttributeTag::Float,
                actual_type: crate::model::attribute_to_tag(attribute),
            },
        ),
    }
}

/// Checks that an attribute is a string.
pub fn attr_as_string(attribute: &Attribute) -> (r: SubtrActorResult<&String>)
    ensures
        match r {
            Ok(v) => *attribute == Attribute::Str(*v),
            Err(e) => !(attribute is Str) && (e.variant
                matches SubtrActorErrorVariant::UnexpectedAttributeType { expected_type, .. }
                && expected_type == AttributeTag::String),
        },
{
    match attribute {
        Attribute::Str(v) => Ok(v),
        _ => SubtrActorError::new_result(
            SubtrActorErrorVariant::UnexpectedAttributeType {
                expected_type: AttributeTag::String,
                actual_type: crate::model::attribute_to_tag(attribute),
            },
        ),
    }
}

/// Checks that an attribute is an active-actor reference.
pub fn attr_as_active_actor(attribute: &Attribute) -> (r: SubtrActorResult<ActorId>)
    ensures
        match r {
            Ok(v) => *attribute == Attribute::ActiveActor(v),
            Err(e) => !(attribute is ActiveActor) && (e.variant
                matches SubtrActorErrorVariant::UnexpectedAttributeType { expected_type, .. }
                && expected_type == AttributeTag::ActiveActor),
        },
{
    match attribute {
        Attribute::ActiveActor(v) => Ok(*v),
        _ => SubtrActorError::new_result(
            SubtrActorErrorVariant::UnexpectedAttributeType {
                expected_type: AttributeTag::ActiveActor,
                actual_type: crate::model::attribute_to_tag(attribute),
            },
        ),
    }
}

/// Checks that an attribute is a unique id.
pub fn attr_as_unique_id(attribute: &Attribute) -> (r: SubtrActorResult<&UniqueId>)
    ensures
        match r {
            Ok(v) => *attribute == Attribute::UniqueId(*v),
            Err(e) => !(attribute is UniqueId) && (e.variant
                matches SubtrActorErrorVariant::UnexpectedAttributeType { expected_type, .. }
                && expected_type == AttributeTag::UniqueId),
        },
{
    match attribute {
        Attribute::UniqueId(v) => Ok(v),
        _ => SubtrActorError::new_result(
            SubtrActorErrorVariant::UnexpectedAttributeType {
                expected_type: AttributeTag::UniqueId,
                actual_type: crate::model::attribute_to_tag(attribute),
            },
        ),
    }
}

/// Checks that an attribute is a rigid body.
pub fn attr_as_rigid_body(attribute: &Attribute) -> (r: SubtrActorResult<&RigidBody>)
    ensures
        match r {
            Ok(v) => *attribute == Attribute::RigidBody(*v),
            Err(e) => !(attribute is RigidBody) && (e.variant
                matches SubtrActorErrorVariant::UnexpectedAttributeType { expected_type, .. }
                && expected_type == AttributeTag::RigidBody),
        },
{
    match attribute {
        Attribute::RigidBody(v) => Ok(v),
        _ => SubtrActorError::new_result(
            SubtrActorErrorVariant::UnexpectedAttributeType {
                expected_type: AttributeTag::RigidBody,
                actual_type: crate::model::attribute_to_tag(attribute),
            },
        ),
    }
}

/// Checks that an attribute is a demolish value.
pub fn attr_as_demolish_fx(attribute: &Attribute) -> (r: SubtrActorResult<DemolishFx>)
    ensures
        match r {
            Ok(v) => *attribute == Attribute::DemolishFx(v),
            Err(e) => !(attribute is DemolishFx) && (e.variant
                matches SubtrActorErrorVariant::UnexpectedAttributeType { expected_type, .. }
                && expected_type == AttributeTag::DemolishFx),
        },
{
    match attribute {
        Attribute::DemolishFx(v) => Ok(*v),
        _ => SubtrActorError::new_result(
            SubtrActorErrorVariant::UnexpectedAttributeType {
                expected_type: AttributeTag::DemolishFx,
                actual_type: crate::model::attribute_to_tag(attribute),
            },
        ),
    }
}


/// Whether every rostered player's replicated name resolves: the condition
/// under which the replay metadata can be assembled.
pub open spec fn spec_roster_names_ok(p: ReplayProcessor) -> bool {
    forall|j: int|
        0 <= j < p.team_zero@.len() + p.team_one@.len() ==> spec_player_name(
            p,
            #[trigger] (p.team_zero@ + p.team_one@)[j],
        ) is Some
}

} // verus!
