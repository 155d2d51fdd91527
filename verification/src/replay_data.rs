//! The structured-timeline collector: emits, per invocation, a metadata
//! record, a ball record and one record per roster player, padding absent
//! players with an explicit empty record so that all series stay
//! index-aligned.

use vstd::prelude::*;

use crate::collector::{Collector, TimeAdvance};
use crate::error::{SubtrActorError, SubtrActorErrorVariant, SubtrActorResult};
use crate::model::{Frame, Milli, PlayerId, Replay, RigidBody};
use crate::player_map::{PlayerMap, player_key};
use crate::processor::ReplayProcessor;
use crate::util::{DemolishInfo, ReplayMeta};

verus! {

/// The ball's state at one timeline index: empty while the ball sleeps or
/// syncing is off, or its rigid body.
#[derive(Debug, Clone)]
pub enum BallFrame {
    Empty,
    Data { rigid_body: RigidBody },
}

impl BallFrame {
    /// A ball record from a rigid body: empty when the body sleeps.
    pub fn new_from_rigid_body(rigid_body: RigidBody) -> (r: BallFrame)
        ensures
            rigid_body.sleeping ==> (r is Empty),
            !rigid_body.sleeping ==> r == (BallFrame::Data { rigid_body }),
    {
        if rigid_body.sleeping {
            BallFrame::Empty
        } else {
            BallFrame::Data { rigid_body }
        }
    }

    /// A ball record read from the processor at the given time: empty when
    /// ball syncing is ignored, the ball cannot be interpolated, or the body
    /// sleeps.
    pub fn new_from_processor(processor: &ReplayProcessor, current_time: Milli) -> (r: BallFrame)
        requires
            processor.wf(),
            crate::util::time_bounded(current_time as int),
        ensures
            crate::processor::spec_ignore_ball_syncing(*processor) == Some(true) ==> (r is Empty),
            r matches BallFrame::Data { rigid_body } ==> !rigid_body.sleeping && crate::util::body_bounded(
                rigid_body,
            ) && crate::processor::spec_ignore_ball_syncing(*processor) != Some(true),
            (crate::processor::spec_ignore_ball_syncing(*processor) != Some(true)
                && spec_ball_body_near(*processor, current_time) && !crate::processor::spec_actor_rigid_body(
                *processor,
                processor.ball_actor_id.unwrap(),
            ).unwrap().0.sleeping) ==> r == (BallFrame::Data {
                rigid_body: crate::processor::spec_actor_rigid_body(
                    *processor,
                    processor.ball_actor_id.unwrap(),
                ).unwrap().0,
            }),
            r is Empty ==> (crate::processor::spec_ignore_ball_syncing(*processor) == Some(true)
                || !spec_ball_body_near(*processor, current_time) || (exists|rb: RigidBody|
                (processor.ball_actor_id matches Some(a)
                    && crate::processor::spec_interp_outcome(*processor, a, current_time, 0, rb))
                    && (#[trigger] rb.sleeping))),
    {
        match processor.get_ignore_ball_syncing() {
            Ok(true) => BallFrame::Empty,
            _ => {
                match processor.get_interpolated_ball_rigid_body(current_time, 0) {
                    Ok(rigid_body) => Self::new_from_rigid_body(rigid_body),
                    Err(_) => BallFrame::Empty,
                }
            },
        }
    }
}

/// A player's state at one timeline index: empty while the player is absent
/// or asleep, or the full queried state.
#[derive(Debug, Clone)]
pub enum PlayerFrame {
    Empty,
    Data {
        rigid_body: RigidBody,
        boost_amount: Milli,
        boost_active: bool,
        jump_active: bool,
        double_jump_active: bool,
        dodge_active: bool,
        player_name: Option<String>,
        team: Option<i32>,
        is_team_0: Option<bool>,
    },
}

/// Whether the ball's stored body exists and was recorded within the
/// interpolation threshold of the queried time (a threshold of zero: the
/// stored frame's own time).
pub open spec fn spec_ball_body_near(p: ReplayProcessor, current_time: Milli) -> bool {
    p.ball_actor_id matches Some(a) && (crate::processor::spec_actor_rigid_body(p, a)
        matches Some(pr) && (p.replay.network_frames matches Some(fs) && (pr.1 < fs@.len()
        && crate::util::abs_int(current_time - fs@[pr.1 as int].time) <= 0)))
}

/// Whether the player's stored car body exists and was recorded within the
/// interpolation threshold of the queried time (a threshold of zero: the
/// stored frame's own time).
pub open spec fn spec_player_body_near(
    p: ReplayProcessor,
    player_id: PlayerId,
    current_time: Milli,
) -> bool {
    crate::processor::spec_car_actor_id(p, player_id) matches Some(car) && (
    crate::processor::spec_actor_rigid_body(p, car) matches Some(pr) && (
    p.replay.network_frames matches Some(fs) && (pr.1 < fs@.len() && crate::util::abs_int(
        current_time - fs@[pr.1 as int].time,
    ) <= 0)))
}

/// Whether the player's boost component or its derived level is absent.
pub open spec fn spec_player_boost_missing(p: ReplayProcessor, player_id: PlayerId) -> bool {
    match crate::processor::spec_car_connected_actor_id(p, player_id, p.car_to_boost@) {
        Some(b) => !p.actor_state@.states.contains_key(b) || p.actor_state@.states[b].boost_amount
            is None,
        None => true,
    }
}

/// What a player record holds: an empty record, or the full queried state
/// with every field pinned to the processor's view.
pub open spec fn spec_player_frame_ok(
    p: ReplayProcessor,
    player_id: PlayerId,
    pf: PlayerFrame,
) -> bool {
    match pf {
        PlayerFrame::Empty => true,
        PlayerFrame::Data {
            rigid_body,
            boost_amount,
            boost_active,
            jump_active,
            double_jump_active,
            dodge_active,
            player_name,
            team,
            is_team_0,
        } => {
            &&& !rigid_body.sleeping
            &&& crate::util::body_bounded(rigid_body)
            &&& (crate::processor::spec_car_connected_actor_id(
                p,
                player_id,
                p.car_to_boost@,
            ) matches Some(b) && p.actor_state@.states.contains_key(b) && (
            p.actor_state@.states[b].boost_amount matches Some(pp) && pp.0 == boost_amount))
            &&& boost_active == (crate::ndarray::spec_active_or_zero(
                p,
                player_id,
                p.car_to_boost@,
            ) % 2 == 1)
            &&& jump_active == (crate::ndarray::spec_active_or_zero(
                p,
                player_id,
                p.car_to_jump@,
            ) % 2 == 1)
            &&& double_jump_active == (crate::ndarray::spec_active_or_zero(
                p,
                player_id,
                p.car_to_double_jump@,
            ) % 2 == 1)
            &&& dodge_active == (crate::ndarray::spec_active_or_zero(
                p,
                player_id,
                p.car_to_dodge@,
            ) % 2 == 1)
            &&& match player_name {
                Some(n) => crate::processor::spec_player_name(p, player_id) == Some(n@),
                None => crate::processor::spec_player_name(p, player_id) is None,
            }
            &&& team is None
            &&& is_team_0 == crate::processor::spec_is_team_0(p, player_id)
        },
    }
}

impl PlayerFrame {
    /// A player record read from the processor at the given time: empty when
    /// the car's body sleeps; an error when the body or the boost level
    /// cannot be read.
    pub fn new_from_processor(
        processor: &ReplayProcessor,
        player_id: &PlayerId,
        current_time: Milli,
    ) -> (r: SubtrActorResult<PlayerFrame>)
        requires
            processor.wf(),
            crate::util::time_bounded(current_time as int),
        ensures
            r matches Ok(pf) ==> spec_player_frame_ok(*processor, *player_id, pf),
            r matches Ok(pf) && pf is Empty ==> (exists|rb: RigidBody|
                (crate::processor::spec_car_actor_id(*processor, *player_id) matches Some(car)
                    && crate::processor::spec_interp_outcome(
                    *processor,
                    car,
                    current_time,
                    0,
                    rb,
                )) && (#[trigger] rb.sleeping)),
            r is Err ==> (!spec_player_body_near(*processor, *player_id, current_time)
                || spec_player_boost_missing(*processor, *player_id)),
            (spec_player_body_near(*processor, *player_id, current_time)
                && !spec_player_boost_missing(*processor, *player_id)) ==> r is Ok,
    {
        let rigid_body = processor.get_interpolated_player_rigid_body(player_id, current_time, 0)?;
        if rigid_body.sleeping {
            return Ok(PlayerFrame::Empty);
        }
        let boost_amount = processor.get_player_boost_level(player_id)?;
        let boost_active = match processor.get_boost_active(player_id) {
            Ok(v) => v % 2 == 1,
            Err(_) => false,
        };
        let jump_active = match processor.get_jump_active(player_id) {
            Ok(v) => v % 2 == 1,
            Err(_) => false,
        };
        let double_jump_active = match processor.get_double_jump_active(player_id) {
            Ok(v) => v % 2 == 1,
            Err(_) => false,
        };
        let dodge_active = match processor.get_dodge_active(player_id) {
            Ok(v) => v % 2 == 1,
            Err(_) => false,
        };
        let player_name = match processor.get_player_name(player_id) {
            Ok(n) => Some(n),
            Err(_) => None,
        };
        let is_team_0 = match processor.get_player_is_team_0(player_id) {
            Ok(v) => Some(v),
            Err(_) => None,
        };
        Ok(
            PlayerFrame::Data {
                rigid_body,
                boost_amount,
                boost_active,
                jump_active,
                double_jump_active,
                dodge_active,
                player_name,
                team: None,
                is_team_0,
            },
        )
    }
}

/// One player's whole series, in timeline order.
#[derive(Debug, Clone)]
pub struct PlayerData {
    /// The player's records, one per timeline index since the player's first
    /// appearance, padded with empty records before it.
    pub frames: Vec<PlayerFrame>,
}

impl PlayerData {
    pub fn new() -> (r: PlayerData)
        ensures
            r.frames@.len() == 0,
    {
        PlayerData { frames: Vec::new() }
    }

    /// The number of records in the series.
    pub fn frame_count(&self) -> (n: usize)
        ensures
            n == self.frames@.len(),
    {
        self.frames.len()
    }
}

/// The ball's whole series, in timeline order.
#[derive(Debug, Clone)]
pub struct BallData {
    /// The ball's records, one per timeline index.
    pub frames: Vec<BallFrame>,
}

impl BallData {
    pub fn new() -> (r: BallData)
        ensures
            r.frames@.len() == 0,
    {
        BallData { frames: Vec::new() }
    }

    /// The number of records in the series.
    pub fn frame_count(&self) -> (n: usize)
        ensures
            n == self.frames@.len(),
    {
        self.frames.len()
    }
}

/// Game-level state at one timeline index.
#[derive(Debug, Clone)]
pub struct MetadataFrame {
    /// The running clock, in milliseconds.
    pub time: Milli,
    /// The seconds remaining in the match.
    pub seconds_remaining: i32,
}

impl MetadataFrame {
    pub fn new(time: Milli, seconds_remaining: i32) -> (r: MetadataFrame)
        ensures
            r.time == time,
            r.seconds_remaining == seconds_remaining,
    {
        MetadataFrame { time, seconds_remaining }
    }

    /// A metadata record read from the processor at the given time.
    pub fn new_from_processor(processor: &ReplayProcessor, time: Milli) -> (r: SubtrActorResult<
        MetadataFrame,
    >)
        requires
            processor.wf(),
        ensures
            (r is Ok) == (crate::processor::spec_seconds_remaining(*processor) is Some),
            r matches Ok(m) ==> m.time == time && crate::processor::spec_seconds_remaining(
                *processor,
            ) == Some(m.seconds_remaining),
    {
        let seconds = processor.get_seconds_remaining()?;
        Ok(Self::new(time, seconds))
    }
}

/// The whole timeline: metadata, ball and per-player series, index-aligned.
#[derive(Debug)]
pub struct FrameData {
    /// The ball's series.
    pub ball_data: BallData,
    /// Each player's series, keyed by player identity in first-appearance
    /// order.
    pub players: PlayerMap<PlayerData>,
    /// The game-level series.
    pub metadata_frames: Vec<MetadataFrame>,
}

impl FrameData {
    /// Index alignment: the ball series is exactly as long as the metadata
    /// series, and no player's series is longer.
    pub open spec fn wf(self) -> bool {
        &&& self.players.wf()
        &&& self.ball_data.frames@.len() == self.metadata_frames@.len()
        &&& forall|i: int|
            0 <= i < self.players.entries_seq().len() ==> (#[trigger] self.players.entries_seq()[
            i]).1.frames@.len() <= self.metadata_frames@.len()
    }

    pub fn new() -> (r: FrameData)
        ensures
            r.wf(),
            r.metadata_frames@.len() == 0,
            r.ball_data.frames@.len() == 0,
            r.players.entries_seq().len() == 0,
    {
        let r = FrameData {
            ball_data: BallData::new(),
            players: PlayerMap::new(),
            metadata_frames: Vec::new(),
        };
        r
    }

    /// The timeline length.
    pub fn frame_count(&self) -> (n: usize)
        ensures
            n == self.metadata_frames@.len(),
    {
        self.metadata_frames.len()
    }

    /// The time of the last record, or zero on an empty timeline.
    pub fn duration(&self) -> (t: Milli)
        ensures
            self.metadata_frames@.len() == 0 ==> t == 0,
            self.metadata_frames@.len() > 0 ==> t == self.metadata_frames@.last().time,
    {
        let n = self.metadata_frames.len();
        if n == 0 {
            0
        } else {
            self.metadata_frames[n - 1].time
        }
    }

    /// Appends one timeline index: the metadata record, the ball record, and
    /// one record per listed player, each player's series first padded with
    /// empty records up to the new index. Every listed player's series ends
    /// exactly as long as the metadata series, with the given record last;
    /// when no player is listed twice, the earlier records of every series
    /// are untouched.
    pub fn add_frame(
        &mut self,
        frame_metadata: MetadataFrame,
        ball_frame: BallFrame,
        player_frames: Vec<(PlayerId, PlayerFrame)>,
    ) -> (r: SubtrActorResult<()>)
        requires
            old(self).wf(),
            old(self).metadata_frames@.len() < usize::MAX,
        ensures
            final(self).wf(),
            r is Ok,
            final(self).metadata_frames@.len() == old(self).metadata_frames@.len() + 1,
            final(self).metadata_frames@.take(old(self).metadata_frames@.len() as int) == old(self).metadata_frames@,
            final(self).metadata_frames@.last() == frame_metadata,
            final(self).ball_data.frames@.len() == final(self).metadata_frames@.len(),
            final(self).ball_data.frames@.take(old(self).ball_data.frames@.len() as int) == old(self).ball_data.frames@,
            final(self).ball_data.frames@.last() == ball_frame,
            forall|j: int|
                0 <= j < player_frames@.len() ==> final(self).players@.contains_key(
                    player_key((#[trigger] player_frames@[j]).0),
                ) && final(self).players@[player_key(player_frames@[j].0)].frames@.len() == final(self).metadata_frames@.len(),
            crate::player_map::player_keys_distinct(player_frames@) ==> {
                &&& forall|j: int|
                    0 <= j < player_frames@.len() ==> {
                        let k = player_key((#[trigger] player_frames@[j]).0);
                        let base = if old(self).players@.contains_key(k) {
                            old(self).players@[k].frames@
                        } else {
                            Seq::<PlayerFrame>::empty()
                        };
                        &&& final(self).players@[k].frames@.last() == player_frames@[j].1
                        &&& forall|idx: int|
                            0 <= idx < old(self).metadata_frames@.len() ==> final(self).players@[
                                k].frames@[idx] == (if idx < base.len() {
                                base[idx]
                            } else {
                                PlayerFrame::Empty
                            })
                    }
                &&& forall|k: (int, u64, Seq<char>)|
                    #![trigger old(self).players@.contains_key(k)]
                    old(self).players@.contains_key(k) && !(exists|j: int|
                        0 <= j < player_frames@.len() && player_key(
                            (#[trigger] player_frames@[j]).0,
                        ) == k) ==> final(self).players@.contains_key(k) && final(self).players@[k]
                        == old(self).players@[k]
            },
    {
        let ghost d = crate::player_map::player_keys_distinct(player_frames@);
        let ghost old_meta_len = self.metadata_frames@.len();
        let frame_index = self.metadata_frames.len();
        self.metadata_frames.push(frame_metadata);
        self.ball_data.frames.push(ball_frame);
        proof {
            assert(self.ball_data.frames@.take(old(self).ball_data.frames@.len() as int)
                =~= old(self).ball_data.frames@);
            assert(self.metadata_frames@.take(old(self).metadata_frames@.len() as int)
                =~= old(self).metadata_frames@);
        }
        let n = player_frames.len();
        let ghost pfs = player_frames@;
        let mut player_frames = player_frames;
        proof {
            assert(player_frames@ =~= pfs.skip(0));
        }
        // Consume the per-player records from the front, so that a player's
        // first appearance fixes its position in the series map.
        for round in 0..n
            invariant
                self.wf(),
                old(self).wf(),
                n == pfs.len(),
                player_frames@ == pfs.skip(round as int),
                d == crate::player_map::player_keys_distinct(pfs),
                old_meta_len == old(self).metadata_frames@.len(),
                self.metadata_frames@.len() == old(self).metadata_frames@.len() + 1,
                self.metadata_frames@.take(old(self).metadata_frames@.len() as int) == old(self).metadata_frames@,
                self.metadata_frames@.last() == frame_metadata,
                self.ball_data.frames@.len() == self.metadata_frames@.len(),
                self.ball_data.frames@.take(old(self).ball_data.frames@.len() as int) == old(self).ball_data.frames@,
                self.ball_data.frames@.last() == ball_frame,
                forall|j: int|
                    0 <= j < round ==> self.players@.contains_key(
                        player_key((#[trigger] pfs[j]).0),
                    ) && self.players@[player_key(pfs[j].0)].frames@.len()
                        == self.metadata_frames@.len(),
                d ==> forall|j: int|
                    0 <= j < round ==> {
                        let k = player_key((#[trigger] pfs[j]).0);
                        let base = if old(self).players@.contains_key(k) {
                            old(self).players@[k].frames@
                        } else {
                            Seq::<PlayerFrame>::empty()
                        };
                        &&& self.players@[k].frames@.last() == pfs[j].1
                        &&& forall|idx: int|
                            0 <= idx < old_meta_len ==> self.players@[k].frames@[idx] == (if idx
                                < base.len() {
                                base[idx]
                            } else {
                                PlayerFrame::Empty
                            })
                    },
                d ==> forall|k: (int, u64, Seq<char>)|
                    #![trigger old(self).players@.contains_key(k)]
                    old(self).players@.contains_key(k) && !(exists|j: int|
                        0 <= j < round && player_key((#[trigger] pfs[j]).0) == k)
                        ==> self.players@.contains_key(k) && self.players@[k] == old(self).players@[k],
                d ==> forall|k: (int, u64, Seq<char>)|
                    #![trigger self.players@.contains_key(k)]
                    self.players@.contains_key(k) ==> old(self).players@.contains_key(k) || (
                    exists|j: int| 0 <= j < round && player_key((#[trigger] pfs[j]).0) == k),
        {
            proof {
                assert(pfs.skip(round as int)[0] == pfs[round as int]);
            }
            let (player_id, frame) = player_frames.remove(0);
            let ghost key = player_key(player_id);
            let ghost pre_players = self.players@;
            proof {
                if d {
                    assert(!(exists|j: int|
                        0 <= j < round && player_key((#[trigger] pfs[j]).0) == key)) by {
                        if exists|j: int|
                            0 <= j < round && player_key((#[trigger] pfs[j]).0) == key {
                            let j = choose|j: int|
                                0 <= j < round && player_key((#[trigger] pfs[j]).0) == key;
                            assert(player_key(pfs[j].0) != player_key(pfs[round as int].0));
                        }
                    }
                }
            }
            let entry = crate::util::get_entry(&self.players, &player_id);
            let idx = entry.or_insert_with(&mut self.players, &player_id, PlayerData::new);
            let ghost pm_before = self.players;
            proof {
                pm_before.lemma_entry_in_view(idx as int);
            }
            let mut pd = self.players.replace_value_at(idx, PlayerData::new());
            let ghost pd0 = pd.frames@;
            proof {
                assert(pd0 == pm_before@[key].frames@);
            }
            let target = self.metadata_frames.len() - 1;
            while pd.frames.len() < target
                invariant
                    target < self.metadata_frames@.len(),
                    pd.frames@.len() >= pd0.len() ==> pd.frames@.take(pd0.len() as int) == pd0
                        && (forall|x: int|
                        pd0.len() <= x < pd.frames@.len() ==> pd.frames@[x]
                            == (PlayerFrame::Empty)),
                    pd.frames@.len() < pd0.len() ==> pd.frames@ == pd0,
                decreases target - pd.frames@.len(),
            {
                pd.frames.push(PlayerFrame::Empty);
                proof {
                    assert(pd.frames@.take(pd0.len() as int) =~= pd0.take(pd0.len() as int)) by {
                        if pd.frames@.len() - 1 >= pd0.len() {
                        }
                    }
                }
            }
            let ghost pd1 = pd.frames@;
            proof {
                assert(pd1.take(pd1.len() as int) =~= pd1);
            }
            // A series longer than the timeline cannot arise from an aligned
            // state; drop any excess defensively so the invariant is kept.
            while pd.frames.len() > target
                invariant
                    target < self.metadata_frames@.len(),
                    pd.frames@.len() >= target,
                    pd.frames@.len() <= pd1.len(),
                    pd.frames@ == pd1.take(pd.frames@.len() as int),
                decreases pd.frames@.len(),
            {
                let ghost before_pop = pd.frames@;
                let _ = pd.frames.pop();
                proof {
                    assert(pd.frames@ == before_pop.subrange(0, before_pop.len() - 1));
                    assert(pd.frames@ =~= pd1.take(pd.frames@.len() as int));
                }
            }
            proof {
                assert(pd.frames@.len() == target);
                assert(pd.frames@ == pd1.take(target as int));
            }
            pd.frames.push(frame);
            let ghost new_series = pd.frames@;
            let _ = self.players.replace_value_at(idx, pd);
            proof {
                assert(new_series.len() == self.metadata_frames@.len());
                assert(self.players@[key].frames@ == new_series);
                assert(player_frames@ =~= pfs.skip(round as int + 1));
                assert forall|i: int|
                    0 <= i < self.players.entries_seq().len() implies (
                #[trigger] self.players.entries_seq()[i]).1.frames@.len()
                    <= self.metadata_frames@.len() by {
                    self.players.lemma_entry_in_view(i);
                }
                if d {
                    let base = if old(self).players@.contains_key(key) {
                        old(self).players@[key].frames@
                    } else {
                        Seq::<PlayerFrame>::empty()
                    };
                    assert(pd0 == base) by {
                        if old(self).players@.contains_key(key) {
                            assert(pre_players.contains_key(key) && pre_players[key] == old(self).players@[key]);
                            assert(pm_before@[key] == pre_players[key]);
                        } else {
                            if pre_players.contains_key(key) {
                                assert(false);
                            }
                            assert(pm_before@[key].frames@.len() == 0);
                            assert(pm_before@[key].frames@ =~= Seq::<PlayerFrame>::empty());
                        }
                    }
                    assert(base.len() <= old_meta_len) by {
                        if old(self).players@.contains_key(key) {
                            assert(old(self).players.wf());
                            old(self).players.lemma_view_has_key(key);
                            crate::player_map::lemma_pkey_index(
                                old(self).players.entries_seq(),
                                key,
                            );
                            let ei = crate::player_map::pseq_key_index(
                                old(self).players.entries_seq(),
                                key,
                            );
                            old(self).players.lemma_entry_in_view(ei);
                        }
                    }
                    assert(pd1.len() >= pd0.len()) by {
                        if pd1.len() < pd0.len() {
                            assert(pd1 == pd0);
                        }
                    }
                    assert(new_series.last() == frame);
                    assert forall|idx2: int| 0 <= idx2 < old_meta_len implies new_series[idx2]
                        == (if idx2 < base.len() {
                        base[idx2]
                    } else {
                        PlayerFrame::Empty
                    }) by {
                        assert(base.len() <= target);
                        assert(pd1.len() >= target);
                        assert(new_series[idx2] == pd1.take(target as int)[idx2]);
                        assert(new_series[idx2] == pd1[idx2]);
                        if idx2 < base.len() {
                            assert(pd1.take(pd0.len() as int)[idx2] == pd0[idx2]);
                        } else {
                            assert(pd0.len() <= idx2 < pd1.len());
                            assert(pd1[idx2] == (PlayerFrame::Empty));
                        }
                    }
                }
                assert forall|j: int|
                    0 <= j < round + 1 implies self.players@.contains_key(
                    player_key((#[trigger] pfs[j]).0),
                ) && self.players@[player_key(pfs[j].0)].frames@.len()
                    == self.metadata_frames@.len() by {
                    if j != round as int {
                        assert(self.players@.contains_key(player_key(pfs[j].0)));
                    }
                }
            }
        }
        Ok(())
    }
}

/// The complete extracted replay: the timeline, the metadata and the
/// demolition log.
#[derive(Debug)]
pub struct ReplayData {
    /// The index-aligned timeline.
    pub frame_data: FrameData,
    /// The replay metadata.
    pub meta: ReplayMeta,
    /// Every demolition event observed.
    pub demolish_infos: Vec<DemolishInfo>,
}

/// A collector building the structured timeline.
#[derive(Debug)]
pub struct ReplayDataCollector {
    /// The timeline collected so far.
    pub frame_data: FrameData,
}

impl ReplayDataCollector {
    pub fn new() -> (r: ReplayDataCollector)
        ensures
            r.frame_data.wf(),
            r.frame_data.metadata_frames@.len() == 0,
    {
        ReplayDataCollector { frame_data: FrameData::new() }
    }

    /// Consumes the collector and returns the timeline.
    pub fn get_frame_data(self) -> (r: FrameData)
        ensures
            r == self.frame_data,
    {
        self.frame_data
    }

    /// One record per roster player at the given time, in roster order; a
    /// player whose state cannot be read gets an empty record, never an
    /// error.
    pub fn get_player_frames(&self, processor: &ReplayProcessor, current_time: Milli) -> (r:
        SubtrActorResult<Vec<(PlayerId, PlayerFrame)>>)
        requires
            processor.wf(),
            crate::util::time_bounded(current_time as int),
        ensures
            r is Ok,
            r matches Ok(v) ==> {
                &&& v@.len() == processor.team_zero@.len() + processor.team_one@.len()
                &&& forall|i: int|
                    0 <= i < v@.len() ==> (#[trigger] v@[i]).0 == (processor.team_zero@
                        + processor.team_one@)[i]
                &&& forall|i: int|
                    0 <= i < v@.len() ==> spec_player_frame_ok(
                        *processor,
                        (#[trigger] v@[i]).0,
                        v@[i].1,
                    )
                &&& forall|i: int|
                    0 <= i < v@.len() ==> ((#[trigger] v@[i]).1 is Empty ==> (
                    !spec_player_body_near(*processor, v@[i].0, current_time)
                        || spec_player_boost_missing(*processor, v@[i].0) || (exists|rb: RigidBody|
                        (crate::processor::spec_car_actor_id(*processor, v@[i].0)
                            matches Some(car) && crate::processor::spec_interp_outcome(
                            *processor,
                            car,
                            current_time,
                            0,
                            rb,
                        )) && (#[trigger] rb.sleeping))))
            },
    {
        let ids = processor.iter_player_ids_in_order();
        let mut out: Vec<(PlayerId, PlayerFrame)> = Vec::new();
        let n = ids.len();
        for i in 0..n
            invariant
                n == ids@.len(),
                ids@ == processor.team_zero@ + processor.team_one@,
                processor.wf(),
                crate::util::time_bounded(current_time as int),
                out@.len() == i,
                forall|x: int| 0 <= x < i ==> (#[trigger] out@[x]).0 == ids@[x],
                forall|x: int|
                    0 <= x < i ==> spec_player_frame_ok(
                        *processor,
                        (#[trigger] out@[x]).0,
                        out@[x].1,
                    ),
                forall|x: int|
                    0 <= x < i ==> ((#[trigger] out@[x]).1 is Empty ==> (
                    !spec_player_body_near(*processor, out@[x].0, current_time)
                        || spec_player_boost_missing(*processor, out@[x].0) || (exists|
                        rb: RigidBody,
                    |
                        (crate::processor::spec_car_actor_id(*processor, out@[x].0)
                            matches Some(car) && crate::processor::spec_interp_outcome(
                            *processor,
                            car,
                            current_time,
                            0,
                            rb,
                        )) && (#[trigger] rb.sleeping)))),
        {
            let pid = ids[i].duplicate();
            let frame = match PlayerFrame::new_from_processor(processor, &pid, current_time) {
                Ok(f) => f,
                Err(_) => PlayerFrame::Empty,
            };
            out.push((pid, frame));
        }
        Ok(out)
    }

    /// Processes the whole replay and returns the extracted data: the
    /// index-aligned timeline, the metadata and the demolition log. On
    /// success the rosters behind the metadata are the ones the replay's
    /// discovery prefix fixes, the processed player set is consistent with
    /// them, the metadata carries every rostered player's name and stats,
    /// and the demolition log is the processing run's, unabridged.
    pub fn get_replay_data(self, replay: Replay) -> (r: SubtrActorResult<ReplayData>)
        requires
            crate::processor::replay_bounded(replay),
        ensures
            replay.network_frames is None ==> r is Err,
            r matches Ok(d) ==> d.frame_data.wf(),
            r matches Ok(d) ==> (exists|p: ReplayProcessor|
                {
                    &&& #[trigger] p.wf()
                    &&& p.replay == replay
                    &&& (replay.network_frames matches Some(fs) && {
                        let folded = crate::processor::spec_frames_and_links_fold(
                            replay,
                            (
                                crate::actor_state::ModelerView {
                                    states: Map::<i32, crate::actor_state::ActorStateView>::empty(),
                                    by_type: Map::<i32, Seq<i32>>::empty(),
                                },
                                crate::processor::LinksView {
                                    player_to_actor: Map::empty(),
                                    player_to_team: Map::empty(),
                                    player_to_car: Map::empty(),
                                    car_to_boost: Map::empty(),
                                    car_to_jump: Map::empty(),
                                    car_to_double_jump: Map::empty(),
                                    car_to_dodge: Map::empty(),
                                },
                                None::<crate::model::ActorId>,
                            ),
                            fs@.take(
                                crate::processor::spec_discovery_cutoff(fs@.len() as int),
                            ),
                            0,
                        );
                        folded matches Some(d0) && crate::processor::spec_rosters_fix_discovery(
                            replay,
                            d0,
                            p.team_zero@,
                            p.team_one@,
                        )
                    })
                    &&& crate::processor::spec_player_set_consistent(p)
                    &&& crate::processor::spec_roster_names_ok(p)
                    &&& d.meta.team_zero@.len() == p.team_zero@.len()
                    &&& d.meta.team_one@.len() == p.team_one@.len()
                    &&& (forall|i: int|
                        0 <= i < d.meta.team_zero@.len()
                            ==> crate::processor::spec_player_info_ok(
                            p,
                            #[trigger] d.meta.team_zero@[i],
                            p.team_zero@[i],
                        ))
                    &&& (forall|i: int|
                        0 <= i < d.meta.team_one@.len()
                            ==> crate::processor::spec_player_info_ok(
                            p,
                            #[trigger] d.meta.team_one@[i],
                            p.team_one@[i],
                        ))
                    &&& d.demolish_infos@ == p.demolishes@
                }),
    {
        let mut collector = self;
        let mut processor = ReplayProcessor::new(replay)?;
        processor.process(&mut collector)?;
        let meta = processor.get_replay_meta()?;
        if !collector.frame_data.check_aligned() {
            return SubtrActorError::new_result(SubtrActorErrorVariant::CouldNotBuildReplayMeta);
        }
        Ok(
            ReplayData {
                meta,
                demolish_infos: processor.demolishes,
                frame_data: collector.frame_data,
            },
        )
    }
}

impl FrameData {
    /// Checks the index alignment of the timeline at run time.
    pub fn check_aligned(&self) -> (r: bool)
        ensures
            r == self.wf(),
    {
        if !(self.ball_data.frames.len() == self.metadata_frames.len()) {
            return false;
        }
        let n = self.players.len();
        for i in 0..n
            invariant
                n == self.players.entries_seq().len(),
                self.ball_data.frames@.len() == self.metadata_frames@.len(),
                forall|j: int|
                    0 <= j < i ==> (#[trigger] self.players.entries_seq()[j]).1.frames@.len()
                        <= self.metadata_frames@.len(),
        {
            if self.players.value_at(i).frames.len() > self.metadata_frames.len() {
                return false;
            }
        }
        // The key distinctness of the player map is intrinsic to how it is
        // built, but alignment is checked against the whole well-formedness
        // predicate, so establish it too.
        if !self.players.check_distinct() {
            return false;
        }
        true
    }
}

impl Collector for ReplayDataCollector {
    /// Appends one timeline index for the frame: metadata, ball record and
    /// one record per roster player, in roster order; nothing is appended
    /// on an error, and the one error owed to a well-formed timeline below
    /// its capacity is a missing seconds-remaining attribute.
    fn process_frame(
        &mut self,
        processor: &ReplayProcessor,
        _frame: &Frame,
        _frame_number: usize,
        current_time: Milli,
    ) -> (r: SubtrActorResult<TimeAdvance>)
        ensures
            r is Err ==> final(self).frame_data == old(self).frame_data,
            (crate::processor::spec_seconds_remaining(*processor) is Some && old(self).frame_data.wf()
                && old(self).frame_data.metadata_frames@.len() < usize::MAX) ==> r is Ok,
            crate::processor::spec_seconds_remaining(*processor) is None ==> r is Err,
            r matches Ok(adv) ==> {
                &&& adv is NextFrame
                &&& final(self).frame_data.wf()
                &&& final(self).frame_data.metadata_frames@.len() == old(self).frame_data.metadata_frames@.len() + 1
                &&& final(self).frame_data.metadata_frames@.take(
                    old(self).frame_data.metadata_frames@.len() as int,
                ) == old(self).frame_data.metadata_frames@
                &&& final(self).frame_data.metadata_frames@.last().time == current_time
                &&& crate::processor::spec_seconds_remaining(*processor) == Some(
                    final(self).frame_data.metadata_frames@.last().seconds_remaining,
                )
                &&& final(self).frame_data.ball_data.frames@.len() == final(self).frame_data.metadata_frames@.len()
                &&& final(self).frame_data.ball_data.frames@.take(
                    old(self).frame_data.ball_data.frames@.len() as int,
                ) == old(self).frame_data.ball_data.frames@
                &&& (crate::processor::spec_ignore_ball_syncing(*processor) == Some(true)
                    ==> final(self).frame_data.ball_data.frames@.last() is Empty)
                &&& (final(self).frame_data.ball_data.frames@.last() matches BallFrame::Data {
                    rigid_body,
                } ==> !rigid_body.sleeping && crate::util::body_bounded(rigid_body))
                &&& ((crate::processor::spec_ignore_ball_syncing(*processor) != Some(true)
                    && spec_ball_body_near(*processor, current_time)
                    && !crate::processor::spec_actor_rigid_body(
                    *processor,
                    processor.ball_actor_id.unwrap(),
                ).unwrap().0.sleeping) ==> final(self).frame_data.ball_data.frames@.last() == (
                BallFrame::Data {
                    rigid_body: crate::processor::spec_actor_rigid_body(
                        *processor,
                        processor.ball_actor_id.unwrap(),
                    ).unwrap().0,
                }))
                &&& forall|j: int|
                    0 <= j < processor.team_zero@.len() + processor.team_one@.len() ==> final(self).frame_data.players@.contains_key(
                        crate::player_map::player_key(
                            #[trigger] (processor.team_zero@ + processor.team_one@)[j],
                        ),
                    ) && final(self).frame_data.players@[crate::player_map::player_key(
                        (processor.team_zero@ + processor.team_one@)[j],
                    )].frames@.len() == final(self).frame_data.metadata_frames@.len()
                &&& (forall|a: int, b: int|
                    0 <= a < b < processor.team_zero@.len() + processor.team_one@.len()
                        ==> crate::player_map::player_key(
                        #[trigger] (processor.team_zero@ + processor.team_one@)[a],
                    ) != crate::player_map::player_key(
                        #[trigger] (processor.team_zero@ + processor.team_one@)[b],
                    )) ==> (forall|j: int|
                    0 <= j < processor.team_zero@.len() + processor.team_one@.len()
                        ==> spec_player_frame_ok(
                        *processor,
                        #[trigger] (processor.team_zero@ + processor.team_one@)[j],
                        final(self).frame_data.players@[crate::player_map::player_key(
                            (processor.team_zero@ + processor.team_one@)[j],
                        )].frames@.last(),
                    ))
            },
    {
        let metadata_frame = MetadataFrame::new_from_processor(processor, current_time)?;
        let ball_frame = BallFrame::new_from_processor(processor, current_time);
        let player_frames = self.get_player_frames(processor, current_time)?;
        if !self.frame_data.check_aligned() {
            return SubtrActorError::new_result(SubtrActorErrorVariant::CouldNotBuildReplayMeta);
        }
        if self.frame_data.metadata_frames.len() == usize::MAX {
            return SubtrActorError::new_result(SubtrActorErrorVariant::FrameIndexOutOfBounds);
        }
        let ghost pframes = player_frames@;
        self.frame_data.add_frame(metadata_frame, ball_frame, player_frames)?;
        proof {
            let roster = processor.team_zero@ + processor.team_one@;
            assert(forall|x: int|
                0 <= x < pframes.len() ==> (#[trigger] pframes[x]).0 == roster[x]);
            assert forall|j: int| 0 <= j < roster.len() implies self.frame_data.players@.contains_key(
                crate::player_map::player_key(#[trigger] roster[j]),
            ) && self.frame_data.players@[crate::player_map::player_key(roster[j])].frames@.len()
                == self.frame_data.metadata_frames@.len() by {
                assert(pframes[j].0 == roster[j]);
                assert(self.frame_data.players@.contains_key(
                    crate::player_map::player_key(pframes[j].0),
                ));
            }
            if forall|a: int, b: int|
                0 <= a < b < roster.len() ==> crate::player_map::player_key(
                    #[trigger] roster[a],
                ) != crate::player_map::player_key(#[trigger] roster[b]) {
                assert(crate::player_map::player_keys_distinct(pframes)) by {
                    assert(forall|a: int, b: int|
                        0 <= a < b < pframes.len() ==> crate::player_map::player_key(
                            (#[trigger] pframes[a]).0,
                        ) != crate::player_map::player_key((#[trigger] pframes[b]).0));
                }
                assert forall|j: int| 0 <= j < roster.len() implies spec_player_frame_ok(
                    *processor,
                    #[trigger] roster[j],
                    self.frame_data.players@[crate::player_map::player_key(
                        roster[j],
                    )].frames@.last(),
                ) by {
                    assert(pframes[j].0 == roster[j]);
                    assert(self.frame_data.players@[crate::player_map::player_key(
                        pframes[j].0,
                    )].frames@.last() == pframes[j].1);
                    assert(spec_player_frame_ok(*processor, pframes[j].0, pframes[j].1));
                }
            }
        }
        Ok(TimeAdvance::NextFrame)
    }
}

} // verus!
