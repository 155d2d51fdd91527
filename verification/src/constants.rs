//! The object and property names the engine recognizes, and its tuning
//! constants. The names are bit-exact strings from the wire format.

use vstd::prelude::*;

verus! {

/// Frames a demolition stays visible to feature extraction.
pub const DEMOLISH_APPEARANCE_FRAME_COUNT: usize = 30;

/// Window within which an equal demolish value is considered the same event.
pub const MAX_DEMOLISH_KNOWN_FRAMES_PASSED: usize = 100;

/// Boost drain is 80 / 0.93 units per second: in milli-units per
/// millisecond, the exact fraction `8000 / 93`.
pub const BOOST_DRAIN_NUM: i64 = 8000;

pub const BOOST_DRAIN_DEN: i64 = 93;

/// The known ball archetype names.
pub fn ball_types() -> (r: Vec<String>)
    ensures
        r@.len() == 5,
        r@[0]@ == "Archetypes.Ball.Ball_Default"@,
        r@[1]@ == "Archetypes.Ball.Ball_Basketball"@,
        r@[2]@ == "Archetypes.Ball.Ball_Puck"@,
        r@[3]@ == "Archetypes.Ball.CubeBall"@,
        r@[4]@ == "Archetypes.Ball.Ball_Breakout"@,
{
    let mut r: Vec<String> = Vec::new();
    r.push("Archetypes.Ball.Ball_Default".to_owned());
    r.push("Archetypes.Ball.Ball_Basketball".to_owned());
    r.push("Archetypes.Ball.Ball_Puck".to_owned());
    r.push("Archetypes.Ball.CubeBall".to_owned());
    r.push("Archetypes.Ball.Ball_Breakout".to_owned());
    r
}

pub fn boost_type() -> (s: String)
    ensures
        s@ == "Archetypes.CarComponents.CarComponent_Boost"@,
{
    "Archetypes.CarComponents.CarComponent_Boost".to_owned()
}

pub fn car_type() -> (s: String)
    ensures
        s@ == "Archetypes.Car.Car_Default"@,
{
    "Archetypes.Car.Car_Default".to_owned()
}

pub fn dodge_type() -> (s: String)
    ensures
        s@ == "Archetypes.CarComponents.CarComponent_Dodge"@,
{
    "Archetypes.CarComponents.CarComponent_Dodge".to_owned()
}

pub fn double_jump_type() -> (s: String)
    ensures
        s@ == "Archetypes.CarComponents.CarComponent_DoubleJump"@,
{
    "Archetypes.CarComponents.CarComponent_DoubleJump".to_owned()
}

pub fn game_type() -> (s: String)
    ensures
        s@ == "Archetypes.GameEvent.GameEvent_Soccar"@,
{
    "Archetypes.GameEvent.GameEvent_Soccar".to_owned()
}

pub fn jump_type() -> (s: String)
    ensures
        s@ == "Archetypes.CarComponents.CarComponent_Jump"@,
{
    "Archetypes.CarComponents.CarComponent_Jump".to_owned()
}

pub fn player_replication_key() -> (s: String)
    ensures
        s@ == "Engine.Pawn:PlayerReplicationInfo"@,
{
    "Engine.Pawn:PlayerReplicationInfo".to_owned()
}

pub fn player_type() -> (s: String)
    ensures
        s@ == "TAGame.Default__PRI_TA"@,
{
    "TAGame.Default__PRI_TA".to_owned()
}

pub fn boost_amount_key() -> (s: String)
    ensures
        s@ == "TAGame.CarComponent_Boost_TA:ReplicatedBoostAmount"@,
{
    "TAGame.CarComponent_Boost_TA:ReplicatedBoostAmount".to_owned()
}

pub fn boost_replicated_key() -> (s: String)
    ensures
        s@ == "TAGame.CarComponent_Boost_TA:ReplicatedBoost"@,
{
    "TAGame.CarComponent_Boost_TA:ReplicatedBoost".to_owned()
}

pub fn component_active_key() -> (s: String)
    ensures
        s@ == "TAGame.CarComponent_TA:ReplicatedActive"@,
{
    "TAGame.CarComponent_TA:ReplicatedActive".to_owned()
}

pub fn demolish_goal_explosion_key() -> (s: String)
    ensures
        s@ == "TAGame.Car_TA:ReplicatedDemolishGoalExplosion"@,
{
    "TAGame.Car_TA:ReplicatedDemolishGoalExplosion".to_owned()
}

pub fn ignore_syncing_key() -> (s: String)
    ensures
        s@ == "TAGame.RBActor_TA:bIgnoreSyncing"@,
{
    "TAGame.RBActor_TA:bIgnoreSyncing".to_owned()
}

pub fn last_boost_amount_key() -> (s: String)
    ensures
        s@ == "TAGame.CarComponent_Boost_TA:ReplicatedBoostAmount.Last"@,
{
    "TAGame.CarComponent_Boost_TA:ReplicatedBoostAmount.Last".to_owned()
}

pub fn player_name_key() -> (s: String)
    ensures
        s@ == "Engine.PlayerReplicationInfo:PlayerName"@,
{
    "Engine.PlayerReplicationInfo:PlayerName".to_owned()
}

pub fn rigid_body_state_key() -> (s: String)
    ensures
        s@ == "TAGame.RBActor_TA:ReplicatedRBState"@,
{
    "TAGame.RBActor_TA:ReplicatedRBState".to_owned()
}

pub fn seconds_remaining_key() -> (s: String)
    ensures
        s@ == "TAGame.GameEvent_Soccar_TA:SecondsRemaining"@,
{
    "TAGame.GameEvent_Soccar_TA:SecondsRemaining".to_owned()
}

pub fn team_key() -> (s: String)
    ensures
        s@ == "Engine.PlayerReplicationInfo:Team"@,
{
    "Engine.PlayerReplicationInfo:Team".to_owned()
}

pub fn unique_id_key() -> (s: String)
    ensures
        s@ == "Engine.PlayerReplicationInfo:UniqueId"@,
{
    "Engine.PlayerReplicationInfo:UniqueId".to_owned()
}

pub fn vehicle_key() -> (s: String)
    ensures
        s@ == "TAGame.CarComponent_TA:Vehicle"@,
{
    "TAGame.CarComponent_TA:Vehicle".to_owned()
}

} // verus!
