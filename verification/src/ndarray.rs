//! Turns per-frame queries into rows of a dense two-dimensional matrix of
//! milli-unit values, through a fixed catalog of global and per-player
//! feature adders. The matrix is returned as a row-major vector with its
//! shape, which always satisfies
//! `data.len() == rows * (global widths + players * player widths)`.

use vstd::prelude::*;
use vstd::string::StringExecFns;

use crate::collector::{Collector, TimeAdvance};
use crate::error::{SubtrActorError, SubtrActorErrorVariant, SubtrActorResult};
use crate::model::{Attribute, Frame, Milli, PlayerId, RigidBody, Vector3};
use crate::processor::{ReplayProcessor, spec_actor_attribute, spec_car_connected_actor_id};
use crate::util::{ReplayMeta, time_bounded};

verus! {

/// Represents the column headers in the collected data of an
/// `NDArrayCollector`.
#[derive(Debug, Clone)]
pub struct NDArrayColumnHeaders {
    pub global_headers: Vec<String>,
    pub player_headers: Vec<String>,
}

impl NDArrayColumnHeaders {
    pub fn new(global_headers: Vec<String>, player_headers: Vec<String>) -> (r:
        NDArrayColumnHeaders)
        ensures
            r.global_headers == global_headers,
            r.player_headers == player_headers,
    {
        NDArrayColumnHeaders { global_headers, player_headers }
    }
}

/// Replay metadata together with the column headers of the matrix collected
/// beside it.
#[derive(Debug, Clone)]
pub struct ReplayMetaWithHeaders {
    pub replay_meta: ReplayMeta,
    pub column_headers: NDArrayColumnHeaders,
}

/// The character of one decimal digit.
pub open spec fn spec_digit_char(d: int) -> char {
    if d == 0 {
        '0'
    } else if d == 1 {
        '1'
    } else if d == 2 {
        '2'
    } else if d == 3 {
        '3'
    } else if d == 4 {
        '4'
    } else if d == 5 {
        '5'
    } else if d == 6 {
        '6'
    } else if d == 7 {
        '7'
    } else if d == 8 {
        '8'
    } else {
        '9'
    }
}

/// The decimal numeral of a non-negative number, most significant digit
/// first.
pub open spec fn spec_decimal(n: int) -> Seq<char>
    recommends
        n >= 0,
    decreases n,
{
    if n < 10 {
        seq![spec_digit_char(n)]
    } else {
        spec_decimal(n / 10).push(spec_digit_char(n % 10))
    }
}

/// The name of one player column: the player's roster position between the
/// fixed prefix and the adder's own header.
pub open spec fn spec_player_header_name(p: int, h: Seq<char>) -> Seq<char> {
    "Player "@ + spec_decimal(p) + " - "@ + h
}

/// Appends the character of one decimal digit.
fn append_digit(s: &mut String, d: u64)
    requires
        d < 10,
    ensures
        final(s)@ == old(s)@ + seq![spec_digit_char(d as int)],
{
    if d == 0 {
        s.append("0");
        proof {
            reveal_strlit("0");
            assert(s@ =~= old(s)@ + seq![spec_digit_char(d as int)]);
        }
    } else if d == 1 {
        s.append("1");
        proof {
            reveal_strlit("1");
            assert(s@ =~= old(s)@ + seq![spec_digit_char(d as int)]);
        }
    } else if d == 2 {
        s.append("2");
        proof {
            reveal_strlit("2");
            assert(s@ =~= old(s)@ + seq![spec_digit_char(d as int)]);
        }
    } else if d == 3 {
        s.append("3");
        proof {
            reveal_strlit("3");
            assert(s@ =~= old(s)@ + seq![spec_digit_char(d as int)]);
        }
    } else if d == 4 {
        s.append("4");
        proof {
            reveal_strlit("4");
            assert(s@ =~= old(s)@ + seq![spec_digit_char(d as int)]);
        }
    } else if d == 5 {
        s.append("5");
        proof {
            reveal_strlit("5");
            assert(s@ =~= old(s)@ + seq![spec_digit_char(d as int)]);
        }
    } else if d == 6 {
        s.append("6");
        proof {
            reveal_strlit("6");
            assert(s@ =~= old(s)@ + seq![spec_digit_char(d as int)]);
        }
    } else if d == 7 {
        s.append("7");
        proof {
            reveal_strlit("7");
            assert(s@ =~= old(s)@ + seq![spec_digit_char(d as int)]);
        }
    } else if d == 8 {
        s.append("8");
        proof {
            reveal_strlit("8");
            assert(s@ =~= old(s)@ + seq![spec_digit_char(d as int)]);
        }
    } else {
        s.append("9");
        proof {
            reveal_strlit("9");
            assert(s@ =~= old(s)@ + seq![spec_digit_char(d as int)]);
        }
    }
}

/// Appends the decimal numeral of the number.
fn append_decimal(s: &mut String, n: u64)
    ensures
        final(s)@ == old(s)@ + spec_decimal(n as int),
    decreases n,
{
    if n < 10 {
        append_digit(s, n);
        proof {
            assert(spec_decimal(n as int) == seq![spec_digit_char(n as int)]);
        }
    } else {
        append_decimal(s, n / 10);
        append_digit(s, n % 10);
        proof {
            assert((n / 10) as int == n as int / 10);
            assert((n % 10) as int == n as int % 10);
            assert(spec_decimal(n as int) == spec_decimal(n as int / 10).push(
                spec_digit_char(n as int % 10),
            ));
            assert(s@ =~= old(s)@ + spec_decimal(n as int));
        }
    }
}

impl ReplayMetaWithHeaders {
    /// All column names in order: first the global headers, then, for each
    /// player of team zero and team one in roster order, every player
    /// header prefixed with the player's position.
    pub fn headers_vec(&self) -> (r: Vec<String>)
        requires
            self.replay_meta.team_zero@.len() + self.replay_meta.team_one@.len() <= usize::MAX,
            self.column_headers.global_headers@.len() + (self.replay_meta.team_zero@.len()
                + self.replay_meta.team_one@.len()) * self.column_headers.player_headers@.len()
                <= usize::MAX,
        ensures
            r@.len() == self.column_headers.global_headers@.len() + (
            self.replay_meta.team_zero@.len() + self.replay_meta.team_one@.len())
                * self.column_headers.player_headers@.len(),
            forall|i: int|
                0 <= i < self.column_headers.global_headers@.len() ==> (#[trigger] r@[i])@
                    == self.column_headers.global_headers@[i]@,
            forall|k: int|
                self.column_headers.global_headers@.len() <= k < r@.len() ==> (#[trigger] r@[k])@
                    == spec_player_header_name(
                    (k - self.column_headers.global_headers@.len()) as int
                        / self.column_headers.player_headers@.len() as int,
                    self.column_headers.player_headers@[(k
                        - self.column_headers.global_headers@.len()) as int
                        % self.column_headers.player_headers@.len() as int]@,
                ),
    {
        let ghost gs = self.column_headers.global_headers@;
        let ghost ph = self.column_headers.player_headers@;
        let mut r: Vec<String> = Vec::new();
        let gn = self.column_headers.global_headers.len();
        for i in 0..gn
            invariant
                gn == gs.len(),
                gs == self.column_headers.global_headers@,
                r@.len() == i,
                forall|x: int| 0 <= x < i ==> (#[trigger] r@[x])@ == gs[x]@,
        {
            r.push(self.column_headers.global_headers[i].clone());
        }
        let l = self.column_headers.player_headers.len();
        let pc0 = self.replay_meta.team_zero.len();
        let pc1 = self.replay_meta.team_one.len();
        proof {
            assert(gn + (pc0 + pc1) * l <= usize::MAX);
            assert(r@.len() == gn + 0 * l) by (nonlinear_arith)
                requires
                    r@.len() == gn,
            ;
        }
        let pc = pc0 + pc1;
        for p in 0..pc
            invariant
                gn == gs.len(),
                gs == self.column_headers.global_headers@,
                l == ph.len(),
                ph == self.column_headers.player_headers@,
                pc == self.replay_meta.team_zero@.len() + self.replay_meta.team_one@.len(),
                gn + pc * l <= usize::MAX,
                r@.len() == gn + p * l,
                forall|x: int| 0 <= x < gn ==> (#[trigger] r@[x])@ == gs[x]@,
                forall|k: int|
                    gn <= k < r@.len() ==> (#[trigger] r@[k])@ == spec_player_header_name(
                        (k - gn) as int / l as int,
                        ph[(k - gn) as int % l as int]@,
                    ),
        {
            proof {
                assert(gn + p * l + l <= gn + pc * l) by (nonlinear_arith)
                    requires
                        p < pc,
                        l >= 0,
                ;
            }
            let ghost row_base = r@.len();
            for h in 0..l
                invariant
                    gn == gs.len(),
                    gs == self.column_headers.global_headers@,
                    l == ph.len(),
                    pc == self.replay_meta.team_zero@.len() + self.replay_meta.team_one@.len(),
                    ph == self.column_headers.player_headers@,
                    p < pc,
                    gn + pc * l <= usize::MAX,
                    row_base == gn + p * l,
                    gn + p * l + l <= gn + pc * l,
                    r@.len() == row_base + h,
                    forall|x: int| 0 <= x < gn ==> (#[trigger] r@[x])@ == gs[x]@,
                    forall|k: int|
                        gn <= k < r@.len() ==> (#[trigger] r@[k])@ == spec_player_header_name(
                            (k - gn) as int / l as int,
                            ph[(k - gn) as int % l as int]@,
                        ),
            {
                let mut name = String::new();
                name.append("Player ");
                append_decimal(&mut name, p as u64);
                name.append(" - ");
                name.append(self.column_headers.player_headers[h].as_str());
                proof {
                    assert(name@ == "Player "@ + spec_decimal(p as int) + " - "@ + ph[h as int]@);
                }
                r.push(name);
                proof {
                    let k = row_base + h;
                    vstd::arithmetic::div_mod::lemma_fundamental_div_mod_converse(
                        (k - gn) as int,
                        l as int,
                        p as int,
                        h as int,
                    );
                    assert(r@[k as int]@ == spec_player_header_name(
                        (k - gn) as int / l as int,
                        ph[(k - gn) as int % l as int]@,
                    ));
                }
            }
            proof {
                assert(gn + p * l + l == gn + (p + 1) * l) by (nonlinear_arith);
            }
        }
        proof {
            assert(r@.len() == gn + pc * l);
        }
        r
    }
}

/// A global, player-independent feature adder of the built-in catalog. The
/// columns headed "rotation x/y/z" carry the orientation quaternion's
/// vector components in milli-units, not Euler angles.
#[derive(Debug, Clone, Copy)]
pub enum GlobalFeatureAdder {
    /// Ball location, orientation components and velocities (12 columns).
    BallRigidBody,
    /// Ball location and orientation quaternion (7 columns).
    BallRigidBodyNoVelocities,
    /// Ball location and orientation quaternion (7 columns).
    BallRigidBodyQuaternions,
    /// Ball body extrapolated to the current time (7 columns).
    VelocityAddedBallRigidBodyNoVelocities,
    /// Ball body interpolated at the current time, with the closeness
    /// threshold in milliseconds (7 columns).
    InterpolatedBallRigidBodyNoVelocities(Milli),
    /// The remaining match seconds (1 column).
    SecondsRemaining,
    /// The collector's current time (1 column).
    CurrentTime,
    /// The frame's timestamp (1 column).
    FrameTime,
}

/// A per-player feature adder of the built-in catalog.
#[derive(Debug, Clone, Copy)]
pub enum PlayerFeatureAdder {
    /// Car location, orientation components and velocities (12 columns).
    PlayerRigidBody,
    /// Car location and orientation quaternion (7 columns).
    PlayerRigidBodyNoVelocities,
    /// Car location and orientation quaternion (7 columns).
    PlayerRigidBodyQuaternions,
    /// Car body extrapolated to the current time (7 columns).
    VelocityAddedPlayerRigidBodyNoVelocities,
    /// Car body interpolated at the current time, with the closeness
    /// threshold in milliseconds (7 columns).
    InterpolatedPlayerRigidBodyNoVelocities(Milli),
    /// The derived continuous boost level (1 column).
    PlayerBoost,
    /// The raw dodge, jump and double-jump active bytes (3 columns).
    PlayerJump,
    /// The three jump-type active bits packed into one value (1 column).
    PlayerAnyJump,
    /// The roster index of the attacker if the player was demolished within
    /// the appearance window, else -1 (1 column).
    PlayerDemolishedBy,
}

/// How many columns a global adder emits.
pub open spec fn global_width(a: GlobalFeatureAdder) -> int {
    match a {
        GlobalFeatureAdder::BallRigidBody => 12,
        GlobalFeatureAdder::BallRigidBodyNoVelocities => 7,
        GlobalFeatureAdder::BallRigidBodyQuaternions => 7,
        GlobalFeatureAdder::VelocityAddedBallRigidBodyNoVelocities => 7,
        GlobalFeatureAdder::InterpolatedBallRigidBodyNoVelocities(_) => 7,
        GlobalFeatureAdder::SecondsRemaining => 1,
        GlobalFeatureAdder::CurrentTime => 1,
        GlobalFeatureAdder::FrameTime => 1,
    }
}

/// How many columns a player adder emits.
pub open spec fn player_width(a: PlayerFeatureAdder) -> int {
    match a {
        PlayerFeatureAdder::PlayerRigidBody => 12,
        PlayerFeatureAdder::PlayerRigidBodyNoVelocities => 7,
        PlayerFeatureAdder::PlayerRigidBodyQuaternions => 7,
        PlayerFeatureAdder::VelocityAddedPlayerRigidBodyNoVelocities => 7,
        PlayerFeatureAdder::InterpolatedPlayerRigidBodyNoVelocities(_) => 7,
        PlayerFeatureAdder::PlayerBoost => 1,
        PlayerFeatureAdder::PlayerJump => 3,
        PlayerFeatureAdder::PlayerAnyJump => 1,
        PlayerFeatureAdder::PlayerDemolishedBy => 1,
    }
}

/// The total width of the global adders.
pub open spec fn sum_global(s: Seq<GlobalFeatureAdder>) -> int
    decreases s.len(),
{
    if s.len() == 0 {
        0
    } else {
        global_width(s[0]) + sum_global(s.drop_first())
    }
}

/// The total width of the player adders.
pub open spec fn sum_player(s: Seq<PlayerFeatureAdder>) -> int
    decreases s.len(),
{
    if s.len() == 0 {
        0
    } else {
        player_width(s[0]) + sum_player(s.drop_first())
    }
}

pub proof fn lemma_sum_global_concat(a: Seq<GlobalFeatureAdder>, b: Seq<GlobalFeatureAdder>)
    ensures
        sum_global(a + b) == sum_global(a) + sum_global(b),
    decreases a.len(),
{
    if a.len() == 0 {
        assert(a + b =~= b);
    } else {
        assert((a + b)[0] == a[0]);
        assert((a + b).drop_first() =~= a.drop_first() + b);
        lemma_sum_global_concat(a.drop_first(), b);
    }
}

pub proof fn lemma_sum_player_concat(a: Seq<PlayerFeatureAdder>, b: Seq<PlayerFeatureAdder>)
    ensures
        sum_player(a + b) == sum_player(a) + sum_player(b),
    decreases a.len(),
{
    if a.len() == 0 {
        assert(a + b =~= b);
    } else {
        assert((a + b)[0] == a[0]);
        assert((a + b).drop_first() =~= a.drop_first() + b);
        lemma_sum_player_concat(a.drop_first(), b);
    }
}

pub proof fn lemma_sum_global_nonneg(s: Seq<GlobalFeatureAdder>)
    ensures
        sum_global(s) >= 0,
    decreases s.len(),
{
    if s.len() != 0 {
        lemma_sum_global_nonneg(s.drop_first());
    }
}

pub proof fn lemma_sum_player_nonneg(s: Seq<PlayerFeatureAdder>)
    ensures
        sum_player(s) >= 0,
    decreases s.len(),
{
    if s.len() != 0 {
        lemma_sum_player_nonneg(s.drop_first());
    }
}

/// The component-active byte of the player's linked component of the given
/// map, or zero when any link or the attribute is missing or of another
/// kind.
pub open spec fn spec_active_or_zero(p: ReplayProcessor, pid: PlayerId, m: Map<i32, i32>) -> u8 {
    match spec_car_connected_actor_id(p, pid, m) {
        Some(a) => match spec_actor_attribute(p, a, "TAGame.CarComponent_TA:ReplicatedActive"@) {
            Some(Attribute::Byte(b)) => b,
            _ => 0,
        },
        None => 0,
    }
}

/// The packed jump value: the dodge, jump and double-jump active bits as a
/// three-bit number.
pub open spec fn spec_any_jump(p: ReplayProcessor, pid: PlayerId) -> int {
    (spec_active_or_zero(p, pid, p.car_to_dodge@) % 2) as int + 2 * (
    (spec_active_or_zero(p, pid, p.car_to_jump@) % 2) as int) + 4 * ((spec_active_or_zero(
        p,
        pid,
        p.car_to_double_jump@,
    ) % 2) as int)
}

/// The twelve-column representation of a rigid body: location, the
/// quaternion's vector part, and the two velocities, absent velocities as
/// zero.
pub open spec fn spec_rb12(rb: RigidBody) -> Seq<Milli> {
    let lv = match rb.linear_velocity {
        Some(v) => v,
        None => (Vector3 { x: 0, y: 0, z: 0 }),
    };
    let av = match rb.angular_velocity {
        Some(v) => v,
        None => (Vector3 { x: 0, y: 0, z: 0 }),
    };
    seq![
        rb.location.x,
        rb.location.y,
        rb.location.z,
        rb.rotation.x,
        rb.rotation.y,
        rb.rotation.z,
        lv.x,
        lv.y,
        lv.z,
        av.x,
        av.y,
        av.z,
    ]
}

/// The seven-column representation of a rigid body: location and the full
/// orientation quaternion.
pub open spec fn spec_rb7(rb: RigidBody) -> Seq<Milli> {
    seq![
        rb.location.x,
        rb.location.y,
        rb.location.z,
        rb.rotation.x,
        rb.rotation.y,
        rb.rotation.z,
        rb.rotation.w,
    ]
}

/// Pushes the twelve-column representation of a rigid body: location,
/// orientation components (the quaternion's vector part), and the two
/// velocities, absent velocities as zero.
fn push_rigid_body_properties(out: &mut Vec<Milli>, rb: &RigidBody)
    ensures
        final(out)@.len() == old(out)@.len() + 12,
        final(out)@.take(old(out)@.len() as int) == old(out)@,
        final(out)@ == old(out)@ + spec_rb12(*rb),
{
    let lv = match rb.linear_velocity {
        Some(v) => v,
        None => Vector3 { x: 0, y: 0, z: 0 },
    };
    let av = match rb.angular_velocity {
        Some(v) => v,
        None => Vector3 { x: 0, y: 0, z: 0 },
    };
    out.push(rb.location.x);
    out.push(rb.location.y);
    out.push(rb.location.z);
    out.push(rb.rotation.x);
    out.push(rb.rotation.y);
    out.push(rb.rotation.z);
    out.push(lv.x);
    out.push(lv.y);
    out.push(lv.z);
    out.push(av.x);
    out.push(av.y);
    out.push(av.z);
    proof {
        assert(out@.take(old(out)@.len() as int) =~= old(out)@);
        assert(out@ =~= old(out)@ + spec_rb12(*rb));
    }
}

/// Pushes the seven-column representation of a rigid body: location and the
/// orientation quaternion.
fn push_rigid_body_no_velocities(out: &mut Vec<Milli>, rb: &RigidBody)
    ensures
        final(out)@.len() == old(out)@.len() + 7,
        final(out)@.take(old(out)@.len() as int) == old(out)@,
        final(out)@ == old(out)@ + spec_rb7(*rb),
{
    out.push(rb.location.x);
    out.push(rb.location.y);
    out.push(rb.location.z);
    out.push(rb.rotation.x);
    out.push(rb.rotation.y);
    out.push(rb.rotation.z);
    out.push(rb.rotation.w);
    proof {
        assert(out@.take(old(out)@.len() as int) =~= old(out)@);
        assert(out@ =~= old(out)@ + spec_rb7(*rb));
    }
}

/// Pushes `n` zero columns.
fn push_zeros(out: &mut Vec<Milli>, n: usize)
    ensures
        final(out)@.len() == old(out)@.len() + n,
        final(out)@.take(old(out)@.len() as int) == old(out)@,
        final(out)@ == old(out)@ + Seq::new(n as nat, |i: int| 0i64),
{
    for i in 0..n
        invariant
            out@.len() == old(out)@.len() + i,
            out@.take(old(out)@.len() as int) == old(out)@,
            out@ == old(out)@ + Seq::new(i as nat, |j: int| 0i64),
    {
        out.push(0);
        proof {
            assert(out@.take(old(out)@.len() as int) =~= old(out)@);
            assert(out@ =~= old(out)@ + Seq::new((i + 1) as nat, |j: int| 0i64));
        }
    }
}

/// Appends one global adder's columns for the frame. Exactly the adder's
/// width of values is appended; the scalar adders' values are pinned.
/// The row's global part: each global adder's segment in registration
/// order, with nothing left over.
pub open spec fn spec_globals_row(
    adders: Seq<GlobalFeatureAdder>,
    p: ReplayProcessor,
    frame: Frame,
    current_time: Milli,
    row: Seq<Milli>,
) -> bool
    decreases adders.len(),
{
    if adders.len() == 0 {
        row.len() == 0
    } else {
        &&& row.len() >= global_width(adders[0])
        &&& spec_global_segment(adders[0], p, frame, current_time, row.take(global_width(adders[0])))
        &&& spec_globals_row(adders.drop_first(), p, frame, current_time, row.skip(global_width(adders[0])))
    }
}

/// One player's part of the row: each player adder's segment in
/// registration order, with nothing left over.
pub open spec fn spec_player_row(
    adders: Seq<PlayerFeatureAdder>,
    player_id: PlayerId,
    p: ReplayProcessor,
    frame_number: usize,
    current_time: Milli,
    row: Seq<Milli>,
) -> bool
    decreases adders.len(),
{
    if adders.len() == 0 {
        row.len() == 0
    } else {
        &&& row.len() >= player_width(adders[0])
        &&& spec_player_segment(
            adders[0],
            player_id,
            p,
            frame_number,
            current_time,
            row.take(player_width(adders[0])),
        )
        &&& spec_player_row(
            adders.drop_first(),
            player_id,
            p,
            frame_number,
            current_time,
            row.skip(player_width(adders[0])),
        )
    }
}

/// The row's player part: each rostered player's segments, players in the
/// given order, with nothing left over.
pub open spec fn spec_players_rows(
    players: Seq<PlayerId>,
    adders: Seq<PlayerFeatureAdder>,
    p: ReplayProcessor,
    frame_number: usize,
    current_time: Milli,
    row: Seq<Milli>,
) -> bool
    decreases players.len(),
{
    if players.len() == 0 {
        row.len() == 0
    } else {
        &&& row.len() >= sum_player(adders)
        &&& spec_player_row(adders, players[0], p, frame_number, current_time, row.take(sum_player(adders)))
        &&& spec_players_rows(
            players.drop_first(),
            adders,
            p,
            frame_number,
            current_time,
            row.skip(sum_player(adders)),
        )
    }
}

/// The whole emitted row: the global segments, then every player's
/// segments in roster order.
pub open spec fn spec_row(
    gadders: Seq<GlobalFeatureAdder>,
    padders: Seq<PlayerFeatureAdder>,
    players: Seq<PlayerId>,
    p: ReplayProcessor,
    frame: Frame,
    frame_number: usize,
    current_time: Milli,
    row: Seq<Milli>,
) -> bool {
    &&& spec_globals_row(gadders, p, frame, current_time, row.take(sum_global(gadders)))
    &&& spec_players_rows(
        players,
        padders,
        p,
        frame_number,
        current_time,
        row.skip(sum_global(gadders)),
    )
}

/// Two global rows laid end to end form the row of the concatenated adder
/// lists.
pub proof fn lemma_globals_row_concat(
    a1: Seq<GlobalFeatureAdder>,
    a2: Seq<GlobalFeatureAdder>,
    p: ReplayProcessor,
    frame: Frame,
    current_time: Milli,
    r1: Seq<Milli>,
    r2: Seq<Milli>,
)
    requires
        spec_globals_row(a1, p, frame, current_time, r1),
        spec_globals_row(a2, p, frame, current_time, r2),
    ensures
        spec_globals_row(a1 + a2, p, frame, current_time, r1 + r2),
    decreases a1.len(),
{
    if a1.len() == 0 {
        assert(r1 + r2 =~= r2);
        assert(a1 + a2 =~= a2);
    } else {
        let w = global_width(a1[0]);
        lemma_globals_row_concat(a1.drop_first(), a2, p, frame, current_time, r1.skip(w), r2);
        assert((a1 + a2).drop_first() =~= a1.drop_first() + a2);
        assert((r1 + r2).take(w) =~= r1.take(w));
        assert((r1 + r2).skip(w) =~= r1.skip(w) + r2);
    }
}

/// Two per-player rows laid end to end form the row of the concatenated
/// adder lists.
pub proof fn lemma_player_row_concat(
    a1: Seq<PlayerFeatureAdder>,
    a2: Seq<PlayerFeatureAdder>,
    player_id: PlayerId,
    p: ReplayProcessor,
    frame_number: usize,
    current_time: Milli,
    r1: Seq<Milli>,
    r2: Seq<Milli>,
)
    requires
        spec_player_row(a1, player_id, p, frame_number, current_time, r1),
        spec_player_row(a2, player_id, p, frame_number, current_time, r2),
    ensures
        spec_player_row(a1 + a2, player_id, p, frame_number, current_time, r1 + r2),
    decreases a1.len(),
{
    if a1.len() == 0 {
        assert(r1 + r2 =~= r2);
        assert(a1 + a2 =~= a2);
    } else {
        let w = player_width(a1[0]);
        lemma_player_row_concat(
            a1.drop_first(),
            a2,
            player_id,
            p,
            frame_number,
            current_time,
            r1.skip(w),
            r2,
        );
        assert((a1 + a2).drop_first() =~= a1.drop_first() + a2);
        assert((r1 + r2).take(w) =~= r1.take(w));
        assert((r1 + r2).skip(w) =~= r1.skip(w) + r2);
    }
}

/// Two player-part rows laid end to end form the row of the concatenated
/// player lists.
pub proof fn lemma_players_rows_concat(
    p1: Seq<PlayerId>,
    p2: Seq<PlayerId>,
    adders: Seq<PlayerFeatureAdder>,
    p: ReplayProcessor,
    frame_number: usize,
    current_time: Milli,
    r1: Seq<Milli>,
    r2: Seq<Milli>,
)
    requires
        spec_players_rows(p1, adders, p, frame_number, current_time, r1),
        spec_players_rows(p2, adders, p, frame_number, current_time, r2),
    ensures
        spec_players_rows(p1 + p2, adders, p, frame_number, current_time, r1 + r2),
    decreases p1.len(),
{
    if p1.len() == 0 {
        assert(r1 + r2 =~= r2);
        assert(p1 + p2 =~= p2);
    } else {
        let w = sum_player(adders);
        lemma_sum_player_nonneg(adders);
        lemma_players_rows_concat(
            p1.drop_first(),
            p2,
            adders,
            p,
            frame_number,
            current_time,
            r1.skip(w),
            r2,
        );
        assert((p1 + p2).drop_first() =~= p1.drop_first() + p2);
        assert((r1 + r2).take(w) =~= r1.take(w));
        assert((r1 + r2).skip(w) =~= r1.skip(w) + r2);
    }
}

/// What one global adder's appended segment holds for the frame: the exact
/// rigid-body columns, scalar values, or the interpolation outcome with the
/// zero default.
pub open spec fn spec_global_segment(
    adder: GlobalFeatureAdder,
    p: ReplayProcessor,
    frame: Frame,
    current_time: Milli,
    seg: Seq<Milli>,
) -> bool {
    &&& seg.len() == global_width(adder)
    &&& match adder {
        GlobalFeatureAdder::BallRigidBody => (p.ball_actor_id matches Some(a)
            && crate::processor::spec_actor_rigid_body(p, a) matches Some(pr) && seg == spec_rb12(
            pr.0,
        )),
        GlobalFeatureAdder::BallRigidBodyNoVelocities => (p.ball_actor_id matches Some(a)
            && crate::processor::spec_actor_rigid_body(p, a) matches Some(pr) && seg == spec_rb7(
            pr.0,
        )),
        GlobalFeatureAdder::BallRigidBodyQuaternions => (p.ball_actor_id matches Some(a)
            && crate::processor::spec_actor_rigid_body(p, a) matches Some(pr) && seg == spec_rb7(
            pr.0,
        )),
        GlobalFeatureAdder::VelocityAddedBallRigidBodyNoVelocities => (
        p.ball_actor_id matches Some(a) && crate::processor::spec_actor_rigid_body(p, a)
            matches Some(pr) && p.replay.network_frames matches Some(fs) && pr.1 < fs@.len()
            && seg == spec_rb7(
            crate::util::spec_apply_velocities(
                pr.0,
                (current_time - fs@[pr.1 as int].time) as i64,
            ),
        )),
        GlobalFeatureAdder::InterpolatedBallRigidBodyNoVelocities(ce) => ({
            let eps = if ce > crate::util::MAX_TIME {
                crate::util::MAX_TIME
            } else if ce < ((-crate::util::MAX_TIME) as i64) {
                ((-crate::util::MAX_TIME) as i64)
            } else {
                ce
            };
            ||| (exists|rb: RigidBody|
                (p.ball_actor_id matches Some(a) && crate::processor::spec_interp_outcome(
                    p,
                    a,
                    current_time,
                    eps,
                    rb,
                )) && seg == #[trigger] spec_rb7(rb))
            ||| seg == Seq::new(7, |i: int| 0i64)
        }),
        GlobalFeatureAdder::SecondsRemaining => (crate::processor::spec_seconds_remaining(p)
            matches Some(sr) && seg[0] == sr * 1000),
        GlobalFeatureAdder::CurrentTime => seg[0] == current_time,
        GlobalFeatureAdder::FrameTime => seg[0] == frame.time,
    }
}

pub fn add_global_features(
    adder: &GlobalFeatureAdder,
    processor: &ReplayProcessor,
    frame: &Frame,
    current_time: Milli,
    out: &mut Vec<Milli>,
) -> (r: SubtrActorResult<()>)
    requires
        processor.wf(),
        time_bounded(current_time as int),
        time_bounded(frame.time as int),
    ensures
        match r {
            Ok(_) => {
                &&& final(out)@.len() == old(out)@.len() + global_width(*adder)
                &&& final(out)@.take(old(out)@.len() as int) == old(out)@
                &&& spec_global_segment(
                    *adder,
                    *processor,
                    *frame,
                    current_time,
                    final(out)@.skip(old(out)@.len() as int),
                )
            },
            Err(_) => true,
        },
        (processor.ball_actor_id matches Some(ba) && crate::processor::spec_actor_rigid_body(
            *processor,
            ba,
        ) matches Some(bp) && processor.replay.network_frames matches Some(fs) && bp.1 < fs@.len()
            && (*adder matches GlobalFeatureAdder::SecondsRemaining
            ==> crate::processor::spec_seconds_remaining(*processor) is Some)) ==> r is Ok,
{
    let ghost pre = out@;
    match adder {
        GlobalFeatureAdder::BallRigidBody => {
            let rb = processor.get_ball_rigid_body()?;
            push_rigid_body_properties(out, &rb);
            proof {
                assert(out@.skip(pre.len() as int) =~= spec_rb12(rb));
            }
        },
        GlobalFeatureAdder::BallRigidBodyNoVelocities => {
            let rb = processor.get_ball_rigid_body()?;
            push_rigid_body_no_velocities(out, &rb);
            proof {
                assert(out@.skip(pre.len() as int) =~= spec_rb7(rb));
            }
        },
        GlobalFeatureAdder::BallRigidBodyQuaternions => {
            let rb = processor.get_ball_rigid_body()?;
            push_rigid_body_no_velocities(out, &rb);
            proof {
                assert(out@.skip(pre.len() as int) =~= spec_rb7(rb));
            }
        },
        GlobalFeatureAdder::VelocityAddedBallRigidBodyNoVelocities => {
            let rb = processor.get_velocity_applied_ball_rigid_body(current_time)?;
            push_rigid_body_no_velocities(out, &rb);
            proof {
                assert(out@.skip(pre.len() as int) =~= spec_rb7(rb));
            }
        },
        GlobalFeatureAdder::InterpolatedBallRigidBodyNoVelocities(close_enough) => {
            let eps: Milli = if *close_enough > crate::util::MAX_TIME {
                crate::util::MAX_TIME
            } else if *close_enough < -crate::util::MAX_TIME {
                -crate::util::MAX_TIME
            } else {
                *close_enough
            };
            match processor.get_interpolated_ball_rigid_body(current_time, eps) {
                Ok(rb) => {
                    push_rigid_body_no_velocities(out, &rb);
                    proof {
                        assert(out@.skip(pre.len() as int) =~= spec_rb7(rb));
                    }
                },
                Err(_) => {
                    push_zeros(out, 7);
                    proof {
                        assert(out@.skip(pre.len() as int) =~= Seq::new(7, |i: int| 0i64));
                    }
                },
            }
        },
        GlobalFeatureAdder::SecondsRemaining => {
            let s = processor.get_seconds_remaining()?;
            out.push((s as i64) * 1000);
        },
        GlobalFeatureAdder::CurrentTime => {
            out.push(current_time);
        },
        GlobalFeatureAdder::FrameTime => {
            out.push(frame.time);
        },
    }
    proof {
        assert(out@.take(pre.len() as int) =~= pre);
    }
    Ok(())
}

/// What one player adder's appended segment holds for the frame: the
/// exact rigid-body columns or the adder's default values, the boost
/// level, the jump bytes, and the demolisher's roster position.
pub open spec fn spec_player_segment(
    adder: PlayerFeatureAdder,
    player_id: PlayerId,
    p: ReplayProcessor,
    frame_number: usize,
    current_time: Milli,
    seg: Seq<Milli>,
) -> bool {
    &&& seg.len() == player_width(adder)
    &&& match adder {
        PlayerFeatureAdder::PlayerRigidBody => ({
            ||| (crate::processor::spec_car_actor_id(p, player_id) matches Some(car)
                && crate::processor::spec_actor_rigid_body(p, car) matches Some(pr) && seg
                == spec_rb12(pr.0))
            ||| seg == Seq::new(12, |i: int| 0i64)
        }),
        PlayerFeatureAdder::PlayerRigidBodyNoVelocities => ({
            ||| (crate::processor::spec_car_actor_id(p, player_id) matches Some(car)
                && crate::processor::spec_actor_rigid_body(p, car) matches Some(pr) && seg
                == spec_rb7(pr.0))
            ||| seg == Seq::new(7, |i: int| 0i64)
        }),
        PlayerFeatureAdder::PlayerRigidBodyQuaternions => ({
            ||| (crate::processor::spec_car_actor_id(p, player_id) matches Some(car)
                && crate::processor::spec_actor_rigid_body(p, car) matches Some(pr) && seg
                == spec_rb7(pr.0))
            ||| seg == Seq::new(6, |i: int| 0i64).push(1000i64)
        }),
        PlayerFeatureAdder::VelocityAddedPlayerRigidBodyNoVelocities => ({
            ||| (crate::processor::spec_car_actor_id(p, player_id) matches Some(car)
                && crate::processor::spec_actor_rigid_body(p, car) matches Some(pr)
                && p.replay.network_frames matches Some(fs) && pr.1 < fs@.len() && seg
                == spec_rb7(
                crate::util::spec_apply_velocities(
                    pr.0,
                    (current_time - fs@[pr.1 as int].time) as i64,
                ),
            ))
            ||| seg == Seq::new(7, |i: int| 0i64)
        }),
        PlayerFeatureAdder::InterpolatedPlayerRigidBodyNoVelocities(ce) => ({
            let eps = if ce > crate::util::MAX_TIME {
                crate::util::MAX_TIME
            } else if ce < ((-crate::util::MAX_TIME) as i64) {
                ((-crate::util::MAX_TIME) as i64)
            } else {
                ce
            };
            ||| (exists|rb: RigidBody|
                (crate::processor::spec_car_actor_id(p, player_id) matches Some(car)
                    && crate::processor::spec_interp_outcome(p, car, current_time, eps, rb))
                    && seg == #[trigger] spec_rb7(rb))
            ||| seg == Seq::new(7, |i: int| 0i64)
        }),
        PlayerFeatureAdder::PlayerBoost => seg[0] == (
        match crate::processor::spec_car_connected_actor_id(p, player_id, p.car_to_boost@) {
            Some(b) => if p.actor_state@.states.contains_key(b) {
                match p.actor_state@.states[b].boost_amount {
                    Some(pa) => pa.0 as int,
                    None => 0,
                }
            } else {
                0
            },
            None => 0,
        }),
        PlayerFeatureAdder::PlayerJump => ({
            &&& seg[0] == spec_active_or_zero(p, player_id, p.car_to_dodge@) * 1000
            &&& seg[1] == spec_active_or_zero(p, player_id, p.car_to_jump@) * 1000
            &&& seg[2] == spec_active_or_zero(p, player_id, p.car_to_double_jump@) * 1000
        }),
        PlayerFeatureAdder::PlayerAnyJump => seg[0] == spec_any_jump(p, player_id) * 1000,
        PlayerFeatureAdder::PlayerDemolishedBy => (p.team_zero@.len() + p.team_one@.len()
            <= 1_000_000 ==> seg[0] == 1000 * (match spec_recent_demolish_index(
            p.demolishes@,
            crate::player_map::player_key(player_id),
            frame_number,
        ) {
            None => -1int,
            Some(di) => match spec_roster_position(
                p.team_zero@ + p.team_one@,
                crate::player_map::player_key(p.demolishes@[di].attacker),
            ) {
                Some(x) => x,
                None => (p.team_zero@.len() + p.team_one@.len()) as int,
            },
        })),
    }
}

/// Appends one player adder's columns for the frame. Exactly the adder's
/// width of values is appended; a player whose state cannot be read gets
/// the adder's default values. The packed jump value and the boost level
/// are pinned exactly.
pub fn add_player_features(
    adder: &PlayerFeatureAdder,
    player_id: &PlayerId,
    processor: &ReplayProcessor,
    frame_number: usize,
    current_time: Milli,
    out: &mut Vec<Milli>,
) -> (r: SubtrActorResult<()>)
    requires
        processor.wf(),
        time_bounded(current_time as int),
    ensures
        r is Ok,
        match r {
            Ok(_) => {
                &&& final(out)@.len() == old(out)@.len() + player_width(*adder)
                &&& final(out)@.take(old(out)@.len() as int) == old(out)@
                &&& spec_player_segment(
                    *adder,
                    *player_id,
                    *processor,
                    frame_number,
                    current_time,
                    final(out)@.skip(old(out)@.len() as int),
                )
            },
            Err(_) => true,
        },
{
    let ghost pre = out@;
    match adder {
        PlayerFeatureAdder::PlayerRigidBody => {
            match processor.get_player_rigid_body(player_id) {
                Ok(rb) => {
                    push_rigid_body_properties(out, &rb);
                    proof {
                        assert(out@.skip(pre.len() as int) =~= spec_rb12(rb));
                    }
                },
                Err(_) => {
                    push_zeros(out, 12);
                    proof {
                        assert(out@.skip(pre.len() as int) =~= Seq::new(12, |i: int| 0i64));
                    }
                },
            }
        },
        PlayerFeatureAdder::PlayerRigidBodyNoVelocities => {
            match processor.get_player_rigid_body(player_id) {
                Ok(rb) => {
                    push_rigid_body_no_velocities(out, &rb);
                    proof {
                        assert(out@.skip(pre.len() as int) =~= spec_rb7(rb));
                    }
                },
                Err(_) => {
                    push_zeros(out, 7);
                    proof {
                        assert(out@.skip(pre.len() as int) =~= Seq::new(7, |i: int| 0i64));
                    }
                },
            }
        },
        PlayerFeatureAdder::PlayerRigidBodyQuaternions => {
            match processor.get_player_rigid_body(player_id) {
                Ok(rb) => {
                    push_rigid_body_no_velocities(out, &rb);
                    proof {
                        assert(out@.skip(pre.len() as int) =~= spec_rb7(rb));
                    }
                },
                Err(_) => {
                    push_zeros(out, 6);
                    out.push(1000);
                    proof {
                        assert(out@.skip(pre.len() as int) =~= Seq::new(6, |i: int| 0i64).push(
                            1000i64,
                        ));
                    }
                },
            }
        },
        PlayerFeatureAdder::VelocityAddedPlayerRigidBodyNoVelocities => {
            match processor.get_velocity_applied_player_rigid_body(player_id, current_time) {
                Ok(rb) => {
                    push_rigid_body_no_velocities(out, &rb);
                    proof {
                        assert(out@.skip(pre.len() as int) =~= spec_rb7(rb));
                    }
                },
                Err(_) => {
                    push_zeros(out, 7);
                    proof {
                        assert(out@.skip(pre.len() as int) =~= Seq::new(7, |i: int| 0i64));
                    }
                },
            }
        },
        PlayerFeatureAdder::InterpolatedPlayerRigidBodyNoVelocities(close_enough) => {
            let eps: Milli = if *close_enough > crate::util::MAX_TIME {
                crate::util::MAX_TIME
            } else if *close_enough < -crate::util::MAX_TIME {
                -crate::util::MAX_TIME
            } else {
                *close_enough
            };
            match processor.get_interpolated_player_rigid_body(player_id, current_time, eps) {
                Ok(rb) => {
                    push_rigid_body_no_velocities(out, &rb);
                    proof {
                        assert(out@.skip(pre.len() as int) =~= spec_rb7(rb));
                    }
                },
                Err(_) => {
                    push_zeros(out, 7);
                    proof {
                        assert(out@.skip(pre.len() as int) =~= Seq::new(7, |i: int| 0i64));
                    }
                },
            }
        },
        PlayerFeatureAdder::PlayerBoost => {
            let level: Milli = match processor.get_player_boost_level(player_id) {
                Ok(v) => v,
                Err(_) => 0,
            };
            out.push(level);
        },
        PlayerFeatureAdder::PlayerJump => {
            let dodge: u8 = match processor.get_dodge_active(player_id) {
                Ok(v) => v,
                Err(_) => 0,
            };
            let jump: u8 = match processor.get_jump_active(player_id) {
                Ok(v) => v,
                Err(_) => 0,
            };
            let double_jump: u8 = match processor.get_double_jump_active(player_id) {
                Ok(v) => v,
                Err(_) => 0,
            };
            proof {
                assert(dodge == spec_active_or_zero(*processor, *player_id, processor.car_to_dodge@));
                assert(jump == spec_active_or_zero(*processor, *player_id, processor.car_to_jump@));
                assert(double_jump == spec_active_or_zero(
                    *processor,
                    *player_id,
                    processor.car_to_double_jump@,
                ));
            }
            out.push((dodge as i64) * 1000);
            out.push((jump as i64) * 1000);
            out.push((double_jump as i64) * 1000);
            proof {
                assert(out@.skip(pre.len() as int)[0] == (dodge as i64) * 1000);
                assert(out@.skip(pre.len() as int)[1] == (jump as i64) * 1000);
                assert(out@.skip(pre.len() as int)[2] == (double_jump as i64) * 1000);
            }
        },
        PlayerFeatureAdder::PlayerAnyJump => {
            let dodge: u8 = match processor.get_dodge_active(player_id) {
                Ok(v) => v,
                Err(_) => 0,
            };
            let jump: u8 = match processor.get_jump_active(player_id) {
                Ok(v) => v,
                Err(_) => 0,
            };
            let double_jump: u8 = match processor.get_double_jump_active(player_id) {
                Ok(v) => v,
                Err(_) => 0,
            };
            let packed: i64 = (dodge % 2) as i64 + 2 * ((jump % 2) as i64) + 4 * ((double_jump
                % 2) as i64);
            proof {
                assert(dodge == spec_active_or_zero(*processor, *player_id, processor.car_to_dodge@));
                assert(jump == spec_active_or_zero(*processor, *player_id, processor.car_to_jump@));
                assert(double_jump == spec_active_or_zero(
                    *processor,
                    *player_id,
                    processor.car_to_double_jump@,
                ));
            }
            out.push(packed * 1000);
        },
        PlayerFeatureAdder::PlayerDemolishedBy => {
            let idx = demolisher_index(processor, player_id, frame_number);
            out.push(idx * 1000);
        },
    }
    proof {
        assert(out@.take(pre.len() as int) =~= pre);
    }
    Ok(())
}

/// The position of the first demolition of this victim within the
/// appearance window ending at the frame, if any.
pub open spec fn spec_recent_demolish_index(
    dems: Seq<crate::util::DemolishInfo>,
    victim_key: (int, u64, Seq<char>),
    frame_number: usize,
) -> Option<int>
    decreases dems.len(),
{
    if dems.len() == 0 {
        None
    } else if crate::player_map::player_key(dems[0].victim) == victim_key && dems[0].frame
        <= frame_number && frame_number - dems[0].frame
        < crate::constants::DEMOLISH_APPEARANCE_FRAME_COUNT {
        Some(0)
    } else {
        match spec_recent_demolish_index(dems.drop_first(), victim_key, frame_number) {
            Some(i) => Some(i + 1),
            None => None,
        }
    }
}

/// The first roster position naming the player key, if any.
pub open spec fn spec_roster_position(
    roster: Seq<PlayerId>,
    k: (int, u64, Seq<char>),
) -> Option<int>
    decreases roster.len(),
{
    if roster.len() == 0 {
        None
    } else if crate::player_map::player_key(roster[0]) == k {
        Some(0)
    } else {
        match spec_roster_position(roster.drop_first(), k) {
            Some(i) => Some(i + 1),
            None => None,
        }
    }
}

/// The roster position of the player who demolished this player within the
/// appearance window ending at the frame, or -1 when nobody did; an
/// attacker missing from the roster is reported as the roster length. A
/// roster over a million players is not indexed.
pub fn demolisher_index(processor: &ReplayProcessor, player_id: &PlayerId, frame_number: usize) -> (r: i64)
    requires
        processor.wf(),
    ensures
        -1 <= r <= 1_000_000,
        processor.team_zero@.len() + processor.team_one@.len() <= 1_000_000 ==> r == (
        match spec_recent_demolish_index(
            processor.demolishes@,
            crate::player_map::player_key(*player_id),
            frame_number,
        ) {
            None => -1int,
            Some(di) => match spec_roster_position(
                processor.team_zero@ + processor.team_one@,
                crate::player_map::player_key(processor.demolishes@[di].attacker),
            ) {
                Some(x) => x,
                None => (processor.team_zero@.len() + processor.team_one@.len()) as int,
            },
        }),
{
    let n = processor.demolishes.len();
    let roster = processor.iter_player_ids_in_order();
    if roster.len() > 1_000_000 {
        return -1;
    }
    let ghost dems = processor.demolishes@;
    let ghost vk = crate::player_map::player_key(*player_id);
    proof {
        assert(dems.skip(0) =~= dems);
    }
    for i in 0..n
        invariant
            processor.wf(),
            n == dems.len(),
            dems == processor.demolishes@,
            vk == crate::player_map::player_key(*player_id),
            roster@ == processor.team_zero@ + processor.team_one@,
            roster@.len() <= 1_000_000,
            spec_recent_demolish_index(dems, vk, frame_number) == match spec_recent_demolish_index(
                dems.skip(i as int),
                vk,
                frame_number,
            ) {
                Some(x) => Some(x + i),
                None => None::<int>,
            },
    {
        proof {
            assert(dems.skip(i as int)[0] == dems[i as int]);
            crate::player_map::lemma_player_key_eq(dems[i as int].victim, *player_id);
        }
        let d = &processor.demolishes[i];
        if d.victim == *player_id && d.frame <= frame_number && frame_number - d.frame
            < crate::constants::DEMOLISH_APPEARANCE_FRAME_COUNT {
            let ghost ak = crate::player_map::player_key(dems[i as int].attacker);
            proof {
                assert(spec_recent_demolish_index(dems.skip(i as int), vk, frame_number) == Some(
                    0int,
                ));
                assert(spec_recent_demolish_index(dems, vk, frame_number) == Some(i as int));
            }
            let m = roster.len();
            proof {
                assert(roster@.skip(0) =~= roster@);
            }
            for j in 0..m
                invariant
                    m == roster@.len(),
                    m <= 1_000_000,
                    i < dems.len(),
                    dems == processor.demolishes@,
                    vk == crate::player_map::player_key(*player_id),
                    roster@ == processor.team_zero@ + processor.team_one@,
                    *d == dems[i as int],
                    ak == crate::player_map::player_key(dems[i as int].attacker),
                    spec_recent_demolish_index(dems, vk, frame_number) == Some(i as int),
                    spec_roster_position(roster@, ak) == match spec_roster_position(
                        roster@.skip(j as int),
                        ak,
                    ) {
                        Some(x) => Some(x + j),
                        None => None::<int>,
                    },
            {
                proof {
                    assert(roster@.skip(j as int)[0] == roster@[j as int]);
                    crate::player_map::lemma_player_key_eq(
                        roster@[j as int],
                        dems[i as int].attacker,
                    );
                }
                if roster[j] == d.attacker {
                    proof {
                        assert(spec_roster_position(roster@.skip(j as int), ak) == Some(0int));
                        assert(spec_roster_position(roster@, ak) == Some(j as int));
                    }
                    return j as i64;
                }
                proof {
                    assert(roster@.skip(j as int).drop_first() =~= roster@.skip(j as int + 1));
                }
            }
            proof {
                assert(roster@.skip(m as int) =~= Seq::<PlayerId>::empty());
                assert(spec_roster_position(roster@, ak) is None);
            }
            return m as i64;
        }
        proof {
            assert(dems.skip(i as int).drop_first() =~= dems.skip(i as int + 1));
        }
    }
    proof {
        assert(dems.skip(n as int) =~= Seq::<crate::util::DemolishInfo>::empty());
        assert(spec_recent_demolish_index(dems, vk, frame_number) is None);
    }
    -1
}

/// The headers of one global adder.
/// The header texts of one global adder.
pub open spec fn spec_global_headers(a: GlobalFeatureAdder) -> Seq<Seq<char>> {
    match a {
        GlobalFeatureAdder::BallRigidBody => seq![
            "Ball - position x"@,
            "Ball - position y"@,
            "Ball - position z"@,
            "Ball - rotation x"@,
            "Ball - rotation y"@,
            "Ball - rotation z"@,
            "Ball - linear velocity x"@,
            "Ball - linear velocity y"@,
            "Ball - linear velocity z"@,
            "Ball - angular velocity x"@,
            "Ball - angular velocity y"@,
            "Ball - angular velocity z"@,
        ],
        GlobalFeatureAdder::BallRigidBodyNoVelocities
        | GlobalFeatureAdder::VelocityAddedBallRigidBodyNoVelocities
        | GlobalFeatureAdder::InterpolatedBallRigidBodyNoVelocities(_) => seq![
            "Ball - position x"@,
            "Ball - position y"@,
            "Ball - position z"@,
            "Ball - rotation x"@,
            "Ball - rotation y"@,
            "Ball - rotation z"@,
            "Ball - rotation w"@,
        ],
        GlobalFeatureAdder::BallRigidBodyQuaternions => seq![
            "Ball - position x"@,
            "Ball - position y"@,
            "Ball - position z"@,
            "Ball - quaternion x"@,
            "Ball - quaternion y"@,
            "Ball - quaternion z"@,
            "Ball - quaternion w"@,
        ],
        GlobalFeatureAdder::SecondsRemaining => seq!["seconds remaining"@],
        GlobalFeatureAdder::CurrentTime => seq!["current time"@],
        GlobalFeatureAdder::FrameTime => seq!["frame time"@],
    }
}

/// The header texts of one player adder.
pub open spec fn spec_player_headers(a: PlayerFeatureAdder) -> Seq<Seq<char>> {
    match a {
        PlayerFeatureAdder::PlayerRigidBody => seq![
            "position x"@,
            "position y"@,
            "position z"@,
            "rotation x"@,
            "rotation y"@,
            "rotation z"@,
            "linear velocity x"@,
            "linear velocity y"@,
            "linear velocity z"@,
            "angular velocity x"@,
            "angular velocity y"@,
            "angular velocity z"@,
        ],
        PlayerFeatureAdder::PlayerRigidBodyNoVelocities
        | PlayerFeatureAdder::VelocityAddedPlayerRigidBodyNoVelocities => seq![
            "position x"@,
            "position y"@,
            "position z"@,
            "rotation x"@,
            "rotation y"@,
            "rotation z"@,
            "rotation w"@,
        ],
        PlayerFeatureAdder::InterpolatedPlayerRigidBodyNoVelocities(_) => seq![
            "i position x"@,
            "i position y"@,
            "i position z"@,
            "i rotation x"@,
            "i rotation y"@,
            "i rotation z"@,
            "i rotation w"@,
        ],
        PlayerFeatureAdder::PlayerRigidBodyQuaternions => seq![
            "position x"@,
            "position y"@,
            "position z"@,
            "quaternion x"@,
            "quaternion y"@,
            "quaternion z"@,
            "quaternion w"@,
        ],
        PlayerFeatureAdder::PlayerBoost => seq!["boost level"@],
        PlayerFeatureAdder::PlayerJump => seq![
            "dodge active"@,
            "jump active"@,
            "double jump active"@,
        ],
        PlayerFeatureAdder::PlayerAnyJump => seq!["any_jump_active"@],
        PlayerFeatureAdder::PlayerDemolishedBy => seq!["player demolished by"@],
    }
}

/// The headers of one global adder.
pub fn global_headers_of(a: &GlobalFeatureAdder) -> (r: Vec<String>)
    ensures
        r@.len() == global_width(*a),
        forall|i: int| 0 <= i < r@.len() ==> (#[trigger] r@[i])@ == spec_global_headers(*a)[i],
{
    let mut r: Vec<String> = Vec::new();
    match a {
        GlobalFeatureAdder::BallRigidBody => {
            r.push("Ball - position x".to_owned());
            r.push("Ball - position y".to_owned());
            r.push("Ball - position z".to_owned());
            r.push("Ball - rotation x".to_owned());
            r.push("Ball - rotation y".to_owned());
            r.push("Ball - rotation z".to_owned());
            r.push("Ball - linear velocity x".to_owned());
            r.push("Ball - linear velocity y".to_owned());
            r.push("Ball - linear velocity z".to_owned());
            r.push("Ball - angular velocity x".to_owned());
            r.push("Ball - angular velocity y".to_owned());
            r.push("Ball - angular velocity z".to_owned());
        },
        GlobalFeatureAdder::BallRigidBodyNoVelocities
        | GlobalFeatureAdder::VelocityAddedBallRigidBodyNoVelocities
        | GlobalFeatureAdder::InterpolatedBallRigidBodyNoVelocities(_) => {
            r.push("Ball - position x".to_owned());
            r.push("Ball - position y".to_owned());
            r.push("Ball - position z".to_owned());
            r.push("Ball - rotation x".to_owned());
            r.push("Ball - rotation y".to_owned());
            r.push("Ball - rotation z".to_owned());
            r.push("Ball - rotation w".to_owned());
        },
        GlobalFeatureAdder::BallRigidBodyQuaternions => {
            r.push("Ball - position x".to_owned());
            r.push("Ball - position y".to_owned());
            r.push("Ball - position z".to_owned());
            r.push("Ball - quaternion x".to_owned());
            r.push("Ball - quaternion y".to_owned());
            r.push("Ball - quaternion z".to_owned());
            r.push("Ball - quaternion w".to_owned());
        },
        GlobalFeatureAdder::SecondsRemaining => {
            r.push("seconds remaining".to_owned());
        },
        GlobalFeatureAdder::CurrentTime => {
            r.push("current time".to_owned());
        },
        GlobalFeatureAdder::FrameTime => {
            r.push("frame time".to_owned());
        },
    }
    r
}

/// The headers of one player adder.
pub fn player_headers_of(a: &PlayerFeatureAdder) -> (r: Vec<String>)
    ensures
        r@.len() == player_width(*a),
        forall|i: int| 0 <= i < r@.len() ==> (#[trigger] r@[i])@ == spec_player_headers(*a)[i],
{
    let mut r: Vec<String> = Vec::new();
    match a {
        PlayerFeatureAdder::PlayerRigidBody => {
            r.push("position x".to_owned());
            r.push("position y".to_owned());
            r.push("position z".to_owned());
            r.push("rotation x".to_owned());
            r.push("rotation y".to_owned());
            r.push("rotation z".to_owned());
            r.push("linear velocity x".to_owned());
            r.push("linear velocity y".to_owned());
            r.push("linear velocity z".to_owned());
            r.push("angular velocity x".to_owned());
            r.push("angular velocity y".to_owned());
            r.push("angular velocity z".to_owned());
        },
        PlayerFeatureAdder::PlayerRigidBodyNoVelocities
        | PlayerFeatureAdder::VelocityAddedPlayerRigidBodyNoVelocities => {
            r.push("position x".to_owned());
            r.push("position y".to_owned());
            r.push("position z".to_owned());
            r.push("rotation x".to_owned());
            r.push("rotation y".to_owned());
            r.push("rotation z".to_owned());
            r.push("rotation w".to_owned());
        },
        PlayerFeatureAdder::InterpolatedPlayerRigidBodyNoVelocities(_) => {
            r.push("i position x".to_owned());
            r.push("i position y".to_owned());
            r.push("i position z".to_owned());
            r.push("i rotation x".to_owned());
            r.push("i rotation y".to_owned());
            r.push("i rotation z".to_owned());
            r.push("i rotation w".to_owned());
        },
        PlayerFeatureAdder::PlayerRigidBodyQuaternions => {
            r.push("position x".to_owned());
            r.push("position y".to_owned());
            r.push("position z".to_owned());
            r.push("quaternion x".to_owned());
            r.push("quaternion y".to_owned());
            r.push("quaternion z".to_owned());
            r.push("quaternion w".to_owned());
        },
        PlayerFeatureAdder::PlayerBoost => {
            r.push("boost level".to_owned());
        },
        PlayerFeatureAdder::PlayerJump => {
            r.push("dodge active".to_owned());
            r.push("jump active".to_owned());
            r.push("double jump active".to_owned());
        },
        PlayerFeatureAdder::PlayerAnyJump => {
            r.push("any_jump_active".to_owned());
        },
        PlayerFeatureAdder::PlayerDemolishedBy => {
            r.push("player demolished by".to_owned());
        },
    }
    r
}

/// The header texts of a run of global adders, concatenated in order.
pub open spec fn spec_all_global_headers(s: Seq<GlobalFeatureAdder>) -> Seq<Seq<char>>
    decreases s.len(),
{
    if s.len() == 0 {
        Seq::empty()
    } else {
        spec_global_headers(s[0]) + spec_all_global_headers(s.drop_first())
    }
}

/// The header texts of a run of player adders, concatenated in order.
pub open spec fn spec_all_player_headers(s: Seq<PlayerFeatureAdder>) -> Seq<Seq<char>>
    decreases s.len(),
{
    if s.len() == 0 {
        Seq::empty()
    } else {
        spec_player_headers(s[0]) + spec_all_player_headers(s.drop_first())
    }
}

pub proof fn lemma_all_global_headers_concat(a: Seq<GlobalFeatureAdder>, b: Seq<GlobalFeatureAdder>)
    ensures
        spec_all_global_headers(a + b) == spec_all_global_headers(a) + spec_all_global_headers(b),
    decreases a.len(),
{
    if a.len() == 0 {
        assert(a + b =~= b);
        assert(spec_all_global_headers(a) + spec_all_global_headers(b) =~= spec_all_global_headers(
            b,
        ));
    } else {
        assert((a + b)[0] == a[0]);
        assert((a + b).drop_first() =~= a.drop_first() + b);
        lemma_all_global_headers_concat(a.drop_first(), b);
        assert(spec_global_headers(a[0]) + (spec_all_global_headers(a.drop_first())
            + spec_all_global_headers(b)) =~= (spec_global_headers(a[0])
            + spec_all_global_headers(a.drop_first())) + spec_all_global_headers(b));
    }
}

pub proof fn lemma_all_player_headers_concat(a: Seq<PlayerFeatureAdder>, b: Seq<PlayerFeatureAdder>)
    ensures
        spec_all_player_headers(a + b) == spec_all_player_headers(a) + spec_all_player_headers(b),
    decreases a.len(),
{
    if a.len() == 0 {
        assert(a + b =~= b);
        assert(spec_all_player_headers(a) + spec_all_player_headers(b) =~= spec_all_player_headers(
            b,
        ));
    } else {
        assert((a + b)[0] == a[0]);
        assert((a + b).drop_first() =~= a.drop_first() + b);
        lemma_all_player_headers_concat(a.drop_first(), b);
        assert(spec_player_headers(a[0]) + (spec_all_player_headers(a.drop_first())
            + spec_all_player_headers(b)) =~= (spec_player_headers(a[0])
            + spec_all_player_headers(a.drop_first())) + spec_all_player_headers(b));
    }
}

pub proof fn lemma_all_global_headers_len(s: Seq<GlobalFeatureAdder>)
    ensures
        spec_all_global_headers(s).len() == sum_global(s),
    decreases s.len(),
{
    if s.len() != 0 {
        lemma_all_global_headers_len(s.drop_first());
        assert(spec_global_headers(s[0]).len() == global_width(s[0]));
    }
}

pub proof fn lemma_all_player_headers_len(s: Seq<PlayerFeatureAdder>)
    ensures
        spec_all_player_headers(s).len() == sum_player(s),
    decreases s.len(),
{
    if s.len() != 0 {
        lemma_all_player_headers_len(s.drop_first());
        assert(spec_player_headers(s[0]).len() == player_width(s[0]));
    }
}

/// The width of one row of the matrix, given the metadata fixing the player
/// count.
pub open spec fn spec_row_width(
    meta: ReplayMeta,
    globals: Seq<GlobalFeatureAdder>,
    players: Seq<PlayerFeatureAdder>,
) -> int {
    sum_global(globals) + (meta.team_zero@.len() + meta.team_one@.len()) * sum_player(players)
}

/// Collects per-frame features into a dense row-major matrix of milli-unit
/// values: one row per accepted frame, all global adders' columns first,
/// then every roster player's per-player columns.
pub struct NDArrayCollector {
    /// The global feature adders, in column order.
    pub feature_adders: Vec<GlobalFeatureAdder>,
    /// The per-player feature adders, in column order.
    pub player_feature_adders: Vec<PlayerFeatureAdder>,
    /// The row-major matrix data collected so far.
    pub data: Vec<Milli>,
    /// The replay metadata captured at the first invocation.
    pub replay_meta: Option<ReplayMeta>,
    /// How many rows have been added.
    pub frames_added: usize,
}

/// The conditions under which a collected row is owed: the metadata
/// available (already captured or assemblable), the ball's body stored,
/// awake and indexed within the frames, the frame counter below its cap,
/// and the seconds-remaining attribute present whenever some registered
/// global adder reads it.
pub open spec fn spec_row_owed(c: NDArrayCollector, p: ReplayProcessor) -> bool {
    &&& c.replay_meta is Some || crate::processor::spec_roster_names_ok(p)
    &&& p.ball_actor_id matches Some(a) && (crate::processor::spec_actor_rigid_body(p, a)
        matches Some(pr) && (!pr.0.sleeping && (p.replay.network_frames matches Some(fs) && pr.1
        < fs@.len())))
    &&& c.frames_added < usize::MAX
    &&& forall|i: int|
        0 <= i < c.feature_adders@.len() ==> ((#[trigger] c.feature_adders@[i])
            matches GlobalFeatureAdder::SecondsRemaining
            ==> crate::processor::spec_seconds_remaining(p) is Some)
}

/// What a freshly captured metadata record holds: one entry per rostered
/// player on each team, each carrying that player's identity, name and
/// stats as the processor resolves them.
pub open spec fn spec_captured_meta_ok(m: crate::util::ReplayMeta, p: ReplayProcessor) -> bool {
    &&& m.team_zero@.len() == p.team_zero@.len()
    &&& m.team_one@.len() == p.team_one@.len()
    &&& forall|i: int|
        0 <= i < m.team_zero@.len() ==> crate::processor::spec_player_info_ok(
            p,
            #[trigger] m.team_zero@[i],
            p.team_zero@[i],
        )
    &&& forall|i: int|
        0 <= i < m.team_one@.len() ==> crate::processor::spec_player_info_ok(
            p,
            #[trigger] m.team_one@[i],
            p.team_one@[i],
        )
}


impl NDArrayCollector {
    /// The shape invariant: the data length is the number of rows times the
    /// row width fixed by the captured metadata.
    pub open spec fn wf(self) -> bool {
        match self.replay_meta {
            None => self.frames_added == 0 && self.data@.len() == 0,
            Some(m) => self.data@.len() == self.frames_added * spec_row_width(
                m,
                self.feature_adders@,
                self.player_feature_adders@,
            ),
        }
    }

    /// A collector with the given adders and no data.
    pub fn new(
        feature_adders: Vec<GlobalFeatureAdder>,
        player_feature_adders: Vec<PlayerFeatureAdder>,
    ) -> (r: NDArrayCollector)
        ensures
            r.wf(),
            r.feature_adders == feature_adders,
            r.player_feature_adders == player_feature_adders,
            r.replay_meta is None,
            r.frames_added == 0,
            r.data@.len() == 0,
    {
        NDArrayCollector {
            feature_adders,
            player_feature_adders,
            data: Vec::new(),
            replay_meta: None,
            frames_added: 0,
        }
    }

    /// The column headers of the matrix: one header per global column, and
    /// one base header per player column.
    pub fn get_column_headers(&self) -> (r: NDArrayColumnHeaders)
        ensures
            r.global_headers@.len() == sum_global(self.feature_adders@),
            r.player_headers@.len() == sum_player(self.player_feature_adders@),
            forall|i: int|
                0 <= i < r.global_headers@.len() ==> (#[trigger] r.global_headers@[i])@
                    == spec_all_global_headers(self.feature_adders@)[i],
            forall|i: int|
                0 <= i < r.player_headers@.len() ==> (#[trigger] r.player_headers@[i])@
                    == spec_all_player_headers(self.player_feature_adders@)[i],
    {
        let mut global_headers: Vec<String> = Vec::new();
        let n = self.feature_adders.len();
        for i in 0..n
            invariant
                n == self.feature_adders@.len(),
                global_headers@.len() == sum_global(self.feature_adders@.take(i as int)),
                forall|x: int|
                    0 <= x < global_headers@.len() ==> (#[trigger] global_headers@[x])@
                        == spec_all_global_headers(self.feature_adders@.take(i as int))[x],
        {
            let mut hs = global_headers_of(&self.feature_adders[i]);
            proof {
                lemma_sum_global_concat(self.feature_adders@.take(i as int), seq![
                    self.feature_adders@[i as int]
                ]);
                lemma_all_global_headers_concat(self.feature_adders@.take(i as int), seq![
                    self.feature_adders@[i as int]
                ]);
                assert(seq![self.feature_adders@[i as int]].drop_first()
                    =~= Seq::<GlobalFeatureAdder>::empty());
                assert(seq![self.feature_adders@[i as int]][0] == self.feature_adders@[i as int]);
                assert(sum_global(Seq::<GlobalFeatureAdder>::empty()) == 0);
                assert(spec_all_global_headers(Seq::<GlobalFeatureAdder>::empty())
                    =~= Seq::<Seq<char>>::empty());
                assert(spec_global_headers(self.feature_adders@[i as int])
                    + Seq::<Seq<char>>::empty() =~= spec_global_headers(
                    self.feature_adders@[i as int],
                ));
                assert(spec_all_global_headers(seq![self.feature_adders@[i as int]])
                    =~= spec_global_headers(self.feature_adders@[i as int]));
                assert(self.feature_adders@.take(i as int + 1) =~= self.feature_adders@.take(
                    i as int,
                ) + seq![self.feature_adders@[i as int]]);
            }
            let ghost pre_h = global_headers@;
            let ghost hsv = hs@;
            proof {
                assert(forall|x: int|
                    0 <= x < pre_h.len() ==> (#[trigger] pre_h[x])@ == spec_all_global_headers(
                        self.feature_adders@.take(i as int),
                    )[x]);
                assert(forall|x: int|
                    0 <= x < hsv.len() ==> (#[trigger] hsv[x])@ == spec_global_headers(
                        self.feature_adders@[i as int],
                    )[x]);
            }
            global_headers.append(&mut hs);
            proof {
                assert forall|x: int|
                    0 <= x < global_headers@.len() implies (#[trigger] global_headers@[x])@
                    == spec_all_global_headers(self.feature_adders@.take(i as int + 1))[x] by {
                    assert(global_headers@ == pre_h + hsv);
                    lemma_all_global_headers_len(self.feature_adders@.take(i as int));
                    assert(spec_all_global_headers(self.feature_adders@.take(i as int + 1))
                        == spec_all_global_headers(self.feature_adders@.take(i as int))
                        + spec_global_headers(self.feature_adders@[i as int]));
                    if x < pre_h.len() {
                        assert(global_headers@[x] == pre_h[x]);
                    } else {
                        assert(global_headers@[x] == hsv[x - pre_h.len()]);
                    }
                }
            }
        }
        proof {
            assert(self.feature_adders@.take(n as int) =~= self.feature_adders@);
        }
        let mut player_headers: Vec<String> = Vec::new();
        let m = self.player_feature_adders.len();
        for i in 0..m
            invariant
                m == self.player_feature_adders@.len(),
                player_headers@.len() == sum_player(self.player_feature_adders@.take(i as int)),
                forall|x: int|
                    0 <= x < player_headers@.len() ==> (#[trigger] player_headers@[x])@
                        == spec_all_player_headers(self.player_feature_adders@.take(i as int))[x],
        {
            let mut hs = player_headers_of(&self.player_feature_adders[i]);
            proof {
                lemma_sum_player_concat(self.player_feature_adders@.take(i as int), seq![
                    self.player_feature_adders@[i as int]
                ]);
                lemma_all_player_headers_concat(self.player_feature_adders@.take(i as int), seq![
                    self.player_feature_adders@[i as int]
                ]);
                assert(seq![self.player_feature_adders@[i as int]].drop_first()
                    =~= Seq::<PlayerFeatureAdder>::empty());
                assert(seq![self.player_feature_adders@[i as int]][0] == self.player_feature_adders@[
                    i as int]);
                assert(sum_player(Seq::<PlayerFeatureAdder>::empty()) == 0);
                assert(spec_all_player_headers(Seq::<PlayerFeatureAdder>::empty())
                    =~= Seq::<Seq<char>>::empty());
                assert(spec_player_headers(self.player_feature_adders@[i as int])
                    + Seq::<Seq<char>>::empty() =~= spec_player_headers(
                    self.player_feature_adders@[i as int],
                ));
                assert(spec_all_player_headers(seq![self.player_feature_adders@[i as int]])
                    =~= spec_player_headers(self.player_feature_adders@[i as int]));
                assert(self.player_feature_adders@.take(i as int + 1)
                    =~= self.player_feature_adders@.take(i as int) + seq![
                    self.player_feature_adders@[i as int]
                ]);
            }
            let ghost pre_h = player_headers@;
            let ghost hsv = hs@;
            proof {
                assert(forall|x: int|
                    0 <= x < pre_h.len() ==> (#[trigger] pre_h[x])@ == spec_all_player_headers(
                        self.player_feature_adders@.take(i as int),
                    )[x]);
                assert(forall|x: int|
                    0 <= x < hsv.len() ==> (#[trigger] hsv[x])@ == spec_player_headers(
                        self.player_feature_adders@[i as int],
                    )[x]);
            }
            player_headers.append(&mut hs);
            proof {
                assert forall|x: int|
                    0 <= x < player_headers@.len() implies (#[trigger] player_headers@[x])@
                    == spec_all_player_headers(self.player_feature_adders@.take(i as int + 1))[
                    x] by {
                    assert(player_headers@ == pre_h + hsv);
                    lemma_all_player_headers_len(self.player_feature_adders@.take(i as int));
                    assert(spec_all_player_headers(self.player_feature_adders@.take(i as int + 1))
                        == spec_all_player_headers(self.player_feature_adders@.take(i as int))
                        + spec_player_headers(self.player_feature_adders@[i as int]));
                    if x < pre_h.len() {
                        assert(player_headers@[x] == pre_h[x]);
                    } else {
                        assert(player_headers@[x] == hsv[x - pre_h.len()]);
                    }
                }
            }
        }
        proof {
            assert(self.player_feature_adders@.take(m as int) =~= self.player_feature_adders@);
        }
        NDArrayColumnHeaders::new(global_headers, player_headers)
    }

    /// Collects one row for the frame, unless the ball's rigid body is
    /// absent or sleeping, in which case nothing is emitted and the state is
    /// preserved. The first invocation captures the replay metadata, fixing
    /// the roster and thereby the row width.
    pub fn collect_frame(
        &mut self,
        processor: &ReplayProcessor,
        frame: &Frame,
        frame_number: usize,
        current_time: Milli,
    ) -> (r: SubtrActorResult<TimeAdvance>)
        requires
            processor.wf(),
            crate::util::time_bounded(current_time as int),
            crate::util::time_bounded(frame.time as int),
    ensures
            final(self).feature_adders == old(self).feature_adders,
            final(self).player_feature_adders == old(self).player_feature_adders,
            old(self).replay_meta is Some ==> final(self).replay_meta == old(self).replay_meta,
            r is Err ==> final(self).data == old(self).data && final(self).frames_added == old(
                self,
            ).frames_added,
            ((old(self).replay_meta is Some || crate::processor::spec_roster_names_ok(*processor))
                && !(processor.ball_actor_id matches Some(a)
                && crate::processor::spec_actor_rigid_body(*processor, a) matches Some(p)
                && !p.0.sleeping)) ==> r is Ok,
            spec_row_owed(*old(self), *processor) ==> r is Ok,
            (old(self).replay_meta is None && r is Ok) ==> (final(self).replay_meta
                matches Some(m) && spec_captured_meta_ok(m, *processor)),
            match r {
                Ok(adv) => {
                    &&& adv is NextFrame
                    &&& final(self).replay_meta is Some
                    &&& if !(processor.ball_actor_id matches Some(a)
                        && crate::processor::spec_actor_rigid_body(*processor, a) matches Some(p)
                        && !p.0.sleeping) {
                        final(self).data == old(self).data && final(self).frames_added == old(
                            self,
                        ).frames_added
                    } else {
                        final(self).data@.len() == old(self).data@.len() + sum_global(
                            old(self).feature_adders@,
                        ) + (processor.team_zero@.len() + processor.team_one@.len()) * sum_player(
                            old(self).player_feature_adders@,
                        ) && final(self).data@.take(old(self).data@.len() as int) == old(
                            self,
                        ).data@ && final(self).frames_added == old(self).frames_added + 1
                            && spec_row(
                            old(self).feature_adders@,
                            old(self).player_feature_adders@,
                            processor.team_zero@ + processor.team_one@,
                            *processor,
                            *frame,
                            frame_number,
                            current_time,
                            final(self).data@.skip(old(self).data@.len() as int),
                        )
                    }
                },
                Err(_) => true,
            },
    {
        if self.replay_meta.is_none() {
            let meta = processor.get_replay_meta()?;
            self.replay_meta = Some(meta);
        }
        if !processor.ball_rigid_body_exists()? {
            return Ok(TimeAdvance::NextFrame);
        }
        if self.frames_added == usize::MAX {
            return SubtrActorError::new_result(SubtrActorErrorVariant::FrameIndexOutOfBounds);
        }
        let ghost meta = self.replay_meta.unwrap();
        let ghost meta_set = self.replay_meta;
        let mut row: Vec<Milli> = Vec::new();
        let n = self.feature_adders.len();
        proof {
            assert(self.feature_adders@.take(0) =~= Seq::<GlobalFeatureAdder>::empty());
        }
        for i in 0..n
            invariant
                n == self.feature_adders@.len(),
                row@.len() == sum_global(self.feature_adders@.take(i as int)),
                processor.wf(),
                crate::util::time_bounded(current_time as int),
                crate::util::time_bounded(frame.time as int),
                self.feature_adders == old(self).feature_adders,
                self.player_feature_adders == old(self).player_feature_adders,
                self.data == old(self).data,
                self.frames_added == old(self).frames_added,
                self.replay_meta == meta_set,
                meta_set is Some,
                old(self).replay_meta is Some ==> meta_set == old(self).replay_meta,
                old(self).replay_meta is None ==> (meta_set matches Some(m)
                    && spec_captured_meta_ok(m, *processor)),
                (processor.ball_actor_id matches Some(ba) && (
                crate::processor::spec_actor_rigid_body(*processor, ba) matches Some(bp)
                    && !bp.0.sleeping)),
                spec_globals_row(
                    self.feature_adders@.take(i as int),
                    *processor,
                    *frame,
                    current_time,
                    row@,
                ),
        {
            let ghost pre_len = row@.len();
            let ghost prerow = row@;
            match add_global_features(
                &self.feature_adders[i],
                processor,
                frame,
                current_time,
                &mut row,
            ) {
                Ok(_) => {},
                Err(e) => {
                    proof {
                        if spec_row_owed(*old(self), *processor) {
                            assert((old(self).feature_adders@[i as int])
                                matches GlobalFeatureAdder::SecondsRemaining
                                ==> crate::processor::spec_seconds_remaining(*processor) is Some);
                            assert(false);
                        }
                    }
                    return Err(e);
                },
            }
            proof {
                let ad = self.feature_adders@[i as int];
                let w = global_width(ad);
                let seg = row@.skip(pre_len as int);
                assert(row@.take(pre_len as int) == prerow);
                assert(spec_global_segment(ad, *processor, *frame, current_time, seg));
                assert(seg.take(w) =~= seg);
                assert(seg.skip(w) =~= Seq::<Milli>::empty());
                assert(seq![ad].drop_first() =~= Seq::<GlobalFeatureAdder>::empty());
                assert(spec_globals_row(
                    Seq::<GlobalFeatureAdder>::empty(),
                    *processor,
                    *frame,
                    current_time,
                    Seq::<Milli>::empty(),
                ));
                assert(spec_globals_row(seq![ad], *processor, *frame, current_time, seg));
                lemma_globals_row_concat(
                    self.feature_adders@.take(i as int),
                    seq![ad],
                    *processor,
                    *frame,
                    current_time,
                    prerow,
                    seg,
                );
                assert(prerow + seg =~= row@);
            }
            proof {
                lemma_sum_global_concat(self.feature_adders@.take(i as int), seq![
                    self.feature_adders@[i as int]
                ]);
                assert(seq![self.feature_adders@[i as int]].drop_first()
                    =~= Seq::<GlobalFeatureAdder>::empty());
                assert(seq![self.feature_adders@[i as int]][0] == self.feature_adders@[i as int]);
                assert(sum_global(Seq::<GlobalFeatureAdder>::empty()) == 0);
                assert(self.feature_adders@.take(i as int + 1) =~= self.feature_adders@.take(
                    i as int,
                ) + seq![self.feature_adders@[i as int]]);
            }
        }
        proof {
            assert(self.feature_adders@.take(n as int) =~= self.feature_adders@);
        }
        let player_ids = processor.iter_player_ids_in_order();
        let pc = player_ids.len();
        let ghost g_total = sum_global(self.feature_adders@);
        let ghost grow = row@;
        let m = self.player_feature_adders.len();
        proof {
            assert(row@.len() == g_total + 0 * sum_player(self.player_feature_adders@))
                by (nonlinear_arith)
                requires
                    row@.len() == g_total,
            ;
            assert(self.feature_adders@.take(n as int) =~= self.feature_adders@);
            assert(row@.take(grow.len() as int) =~= grow);
            assert(row@.skip(grow.len() as int) =~= Seq::<Milli>::empty());
            assert(player_ids@.take(0) =~= Seq::<PlayerId>::empty());
            assert(spec_players_rows(
                Seq::<PlayerId>::empty(),
                self.player_feature_adders@,
                *processor,
                frame_number,
                current_time,
                Seq::<Milli>::empty(),
            ));
        }
        for j in 0..pc
            invariant
                pc == player_ids@.len(),
                player_ids@ == processor.team_zero@ + processor.team_one@,
                m == self.player_feature_adders@.len(),
                g_total == sum_global(self.feature_adders@),
                row@.len() == g_total + j * sum_player(self.player_feature_adders@),
                processor.wf(),
                crate::util::time_bounded(current_time as int),
                self.feature_adders == old(self).feature_adders,
                self.player_feature_adders == old(self).player_feature_adders,
                self.data == old(self).data,
                self.frames_added == old(self).frames_added,
                self.replay_meta == meta_set,
                meta_set is Some,
                old(self).replay_meta is Some ==> meta_set == old(self).replay_meta,
                old(self).replay_meta is None ==> (meta_set matches Some(m)
                    && spec_captured_meta_ok(m, *processor)),
                (processor.ball_actor_id matches Some(ba) && (
                crate::processor::spec_actor_rigid_body(*processor, ba) matches Some(bp)
                    && !bp.0.sleeping)),
                grow.len() == g_total,
                row@.take(grow.len() as int) == grow,
                spec_globals_row(self.feature_adders@, *processor, *frame, current_time, grow),
                spec_players_rows(
                    player_ids@.take(j as int),
                    self.player_feature_adders@,
                    *processor,
                    frame_number,
                    current_time,
                    row@.skip(grow.len() as int),
                ),
        {
            let ghost row_at_player = row@.len();
            let ghost prow = row@;
            for i in 0..m
                invariant
                    m == self.player_feature_adders@.len(),
                    pc == player_ids@.len(),
                    j < pc,
                    row@.len() == row_at_player + sum_player(
                        self.player_feature_adders@.take(i as int),
                    ),
                    processor.wf(),
                    crate::util::time_bounded(current_time as int),
                    self.feature_adders == old(self).feature_adders,
                    self.player_feature_adders == old(self).player_feature_adders,
                    self.data == old(self).data,
                    self.frames_added == old(self).frames_added,
                    self.replay_meta == meta_set,
                    meta_set is Some,
                    old(self).replay_meta is Some ==> meta_set == old(self).replay_meta,
                    old(self).replay_meta is None ==> (meta_set matches Some(m)
                        && spec_captured_meta_ok(m, *processor)),
                    (processor.ball_actor_id matches Some(ba) && (
                    crate::processor::spec_actor_rigid_body(*processor, ba) matches Some(bp)
                        && !bp.0.sleeping)),
                    grow.len() == g_total,
                    prow.len() == row_at_player,
                    prow.take(grow.len() as int) == grow,
                    row@.take(prow.len() as int) == prow,
                    spec_players_rows(
                        player_ids@.take(j as int),
                        self.player_feature_adders@,
                        *processor,
                        frame_number,
                        current_time,
                        prow.skip(grow.len() as int),
                    ),
                    spec_player_row(
                        self.player_feature_adders@.take(i as int),
                        player_ids@[j as int],
                        *processor,
                        frame_number,
                        current_time,
                        row@.skip(prow.len() as int),
                    ),
            {
                let ghost pre_len = row@.len();
                let ghost prerow = row@;
                match add_player_features(
                    &self.player_feature_adders[i],
                    &player_ids[j],
                    processor,
                    frame_number,
                    current_time,
                    &mut row,
                ) {
                    Ok(_) => {},
                    Err(e) => {
                        return Err(e);
                    },
                }
                proof {
                    let ad = self.player_feature_adders@[i as int];
                    let w = player_width(ad);
                    let pid = player_ids@[j as int];
                    let seg = row@.skip(pre_len as int);
                    assert(row@.take(pre_len as int) == prerow);
                    assert(spec_player_segment(
                        ad,
                        pid,
                        *processor,
                        frame_number,
                        current_time,
                        seg,
                    ));
                    assert(seg.take(w) =~= seg);
                    assert(seg.skip(w) =~= Seq::<Milli>::empty());
                    assert(seq![ad].drop_first() =~= Seq::<PlayerFeatureAdder>::empty());
                    assert(spec_player_row(
                        Seq::<PlayerFeatureAdder>::empty(),
                        pid,
                        *processor,
                        frame_number,
                        current_time,
                        Seq::<Milli>::empty(),
                    ));
                    assert(spec_player_row(
                        seq![ad],
                        pid,
                        *processor,
                        frame_number,
                        current_time,
                        seg,
                    ));
                    lemma_sum_player_nonneg(self.player_feature_adders@.take(i as int));
                    assert(prow.len() <= pre_len);
                    lemma_player_row_concat(
                        self.player_feature_adders@.take(i as int),
                        seq![ad],
                        pid,
                        *processor,
                        frame_number,
                        current_time,
                        prerow.skip(prow.len() as int),
                        seg,
                    );
                    assert(prerow.skip(prow.len() as int) + seg =~= row@.skip(prow.len() as int));
                    assert(row@.take(prow.len() as int) =~= prow);
                }
                proof {
                    lemma_sum_player_concat(self.player_feature_adders@.take(i as int), seq![
                        self.player_feature_adders@[i as int]
                    ]);
                    assert(seq![self.player_feature_adders@[i as int]].drop_first()
                        =~= Seq::<PlayerFeatureAdder>::empty());
                    assert(seq![self.player_feature_adders@[i as int]][0]
                        == self.player_feature_adders@[i as int]);
                    assert(sum_player(Seq::<PlayerFeatureAdder>::empty()) == 0);
                    assert(self.player_feature_adders@.take(i as int + 1)
                        =~= self.player_feature_adders@.take(i as int) + seq![
                        self.player_feature_adders@[i as int]
                    ]);
                }
            }
            proof {
                assert(self.player_feature_adders@.take(m as int)
                    =~= self.player_feature_adders@);
                assert(row@.len() == g_total + (j + 1) * sum_player(self.player_feature_adders@))
                    by (nonlinear_arith)
                    requires
                        row@.len() == row_at_player + sum_player(self.player_feature_adders@),
                        row_at_player == g_total + j * sum_player(self.player_feature_adders@),
                ;
                let pid = player_ids@[j as int];
                let w = sum_player(self.player_feature_adders@);
                let segj = row@.skip(prow.len() as int);
                lemma_sum_player_nonneg(self.player_feature_adders@);
                assert(segj.len() == w);
                assert(segj.take(w) =~= segj);
                assert(segj.skip(w) =~= Seq::<Milli>::empty());
                assert(seq![pid].drop_first() =~= Seq::<PlayerId>::empty());
                assert(spec_players_rows(
                    Seq::<PlayerId>::empty(),
                    self.player_feature_adders@,
                    *processor,
                    frame_number,
                    current_time,
                    Seq::<Milli>::empty(),
                ));
                assert(spec_players_rows(
                    seq![pid],
                    self.player_feature_adders@,
                    *processor,
                    frame_number,
                    current_time,
                    segj,
                ));
                lemma_players_rows_concat(
                    player_ids@.take(j as int),
                    seq![pid],
                    self.player_feature_adders@,
                    *processor,
                    frame_number,
                    current_time,
                    prow.skip(grow.len() as int),
                    segj,
                );
                assert(prow.skip(grow.len() as int) + segj =~= row@.skip(grow.len() as int));
                assert(player_ids@.take(j as int + 1) =~= player_ids@.take(j as int) + seq![pid]);
                assert(row@.take(grow.len() as int) =~= grow);
            }
        }
        let ghost full_row = row@;
        proof {
            assert(player_ids@.take(pc as int) =~= player_ids@);
        }
        let ghost old_data = self.data@;
        self.data.append(&mut row);
        self.frames_added = self.frames_added + 1;
        proof {
            assert(self.data@.take(old_data.len() as int) =~= old_data);
            assert((processor.team_zero@ + processor.team_one@).len() == processor.team_zero@.len()
                + processor.team_one@.len());
            assert(self.data@.skip(old_data.len() as int) =~= full_row);
            assert(full_row.take(sum_global(old(self).feature_adders@)) =~= grow);
            assert(spec_row(
                old(self).feature_adders@,
                old(self).player_feature_adders@,
                processor.team_zero@ + processor.team_one@,
                *processor,
                *frame,
                frame_number,
                current_time,
                full_row,
            ));
        }
        Ok(TimeAdvance::NextFrame)
    }

    /// Consumes the collector and returns the metadata with column headers,
    /// the number of rows, the row width, and the row-major matrix data. The
    /// shape always satisfies `data.len() == rows * cols`, where `cols` is
    /// the global width plus the player count times the per-player width.
    pub fn get_meta_and_ndarray(self) -> (r: SubtrActorResult<
        (ReplayMetaWithHeaders, usize, usize, Vec<Milli>),
    >)
        ensures
            (self.replay_meta matches Some(m) && m.team_zero@.len() + m.team_one@.len()
                <= usize::MAX && spec_row_width(m, self.feature_adders@, self.player_feature_adders@)
                <= usize::MAX && self.data@.len() == self.frames_added * spec_row_width(
                m,
                self.feature_adders@,
                self.player_feature_adders@,
            )) ==> r is Ok,
            match r {
                Ok(t) => {
                    &&& self.replay_meta matches Some(m) && t.0.replay_meta == m && t.3@.len()
                        == t.1 * t.2 && t.1 == self.frames_added && t.2 as int == spec_row_width(
                        m,
                        self.feature_adders@,
                        self.player_feature_adders@,
                    ) && t.3 == self.data
                    &&& t.0.column_headers.global_headers@.len() == sum_global(
                        self.feature_adders@,
                    )
                    &&& t.0.column_headers.player_headers@.len() == sum_player(
                        self.player_feature_adders@,
                    )
                },
                Err(_) => true,
            },
    {
        proof {
            lemma_sum_global_nonneg(self.feature_adders@);
            lemma_sum_player_nonneg(self.player_feature_adders@);
        }
        let column_headers = self.get_column_headers();
        let meta = match self.replay_meta {
            Some(m) => m,
            None => {
                return SubtrActorError::new_result(
                    SubtrActorErrorVariant::CouldNotBuildReplayMeta,
                );
            },
        };
        // The row width, computed through the column headers whose lengths
        // are the adder widths.
        let g: usize = column_headers.global_headers.len();
        let p: usize = column_headers.player_headers.len();
        if meta.team_zero.len() > usize::MAX - meta.team_one.len() {
            return SubtrActorError::new_result(SubtrActorErrorVariant::CouldNotBuildReplayMeta);
        }
        let count = meta.player_count();
        let ghost width = spec_row_width(
            meta,
            self.feature_adders@,
            self.player_feature_adders@,
        );
        proof {
            assert(width == g + count * p);
        }
        let per_players = match count.checked_mul(p) {
            Some(v) => v,
            None => {
                proof {
                    if width <= usize::MAX {
                        assert(count * p <= width);
                        assert(false);
                    }
                }
                return SubtrActorError::new_result(
                    SubtrActorErrorVariant::CouldNotBuildReplayMeta,
                );
            },
        };
        let cols = match g.checked_add(per_players) {
            Some(v) => v,
            None => {
                proof {
                    if width <= usize::MAX {
                        assert(false);
                    }
                }
                return SubtrActorError::new_result(
                    SubtrActorErrorVariant::CouldNotBuildReplayMeta,
                );
            },
        };
        proof {
            assert(cols as int == width);
        }
        let dlen = self.data.len();
        let expected = match self.frames_added.checked_mul(cols) {
            Some(v) => v,
            None => {
                proof {
                    if self.data@.len() == self.frames_added * width {
                        assert(self.data@.len() == dlen);
                        assert(false);
                    }
                }
                return SubtrActorError::new_result(
                    SubtrActorErrorVariant::CouldNotBuildReplayMeta,
                );
            },
        };
        if self.data.len() != expected {
            return SubtrActorError::new_result(SubtrActorErrorVariant::CouldNotBuildReplayMeta);
        }
        Ok(
            (
                ReplayMetaWithHeaders { replay_meta: meta, column_headers },
                self.frames_added,
                cols,
                self.data,
            ),
        )
    }

    /// Consumes the collector and returns the number of rows, the row width
    /// and the matrix data.
    pub fn get_ndarray(self) -> (r: SubtrActorResult<(usize, usize, Vec<Milli>)>)
        ensures
            match r {
                Ok(t) => t.2@.len() == t.0 * t.1 && t.0 == self.frames_added,
                Err(_) => true,
            },
    {
        let t = self.get_meta_and_ndarray()?;
        Ok((t.1, t.2, t.3))
    }

    /// Processes a replay far enough to fix the rosters and returns the
    /// metadata with column headers, leaving the collector ready to collect.
    pub fn process_and_get_meta_and_headers(&mut self, replay: crate::model::Replay) -> (r:
        SubtrActorResult<ReplayMetaWithHeaders>)
        requires
            crate::processor::replay_bounded(replay),
        ensures
            final(self).feature_adders == old(self).feature_adders,
            final(self).player_feature_adders == old(self).player_feature_adders,
            final(self).data == old(self).data,
            final(self).frames_added == old(self).frames_added,
            old(self).replay_meta is Some ==> final(self).replay_meta == old(self).replay_meta,
            replay.network_frames is None ==> r is Err,
            r matches Ok(m) ==> {
                &&& final(self).replay_meta is Some
                &&& m.column_headers.global_headers@.len() == sum_global(
                    old(self).feature_adders@,
                )
                &&& m.column_headers.player_headers@.len() == sum_player(
                    old(self).player_feature_adders@,
                )
                &&& (forall|i: int|
                    0 <= i < m.column_headers.global_headers@.len() ==> (
                    #[trigger] m.column_headers.global_headers@[i])@ == spec_all_global_headers(
                        old(self).feature_adders@,
                    )[i])
                &&& (forall|i: int|
                    0 <= i < m.column_headers.player_headers@.len() ==> (
                    #[trigger] m.column_headers.player_headers@[i])@ == spec_all_player_headers(
                        old(self).player_feature_adders@,
                    )[i])
            },
    {
        let mut processor = ReplayProcessor::new(replay)?;
        processor.process_long_enough_to_get_actor_ids()?;
        if self.replay_meta.is_none() {
            let meta = processor.get_replay_meta()?;
            self.replay_meta = Some(meta);
        }
        let meta_copy = match &self.replay_meta {
            Some(m) => m.clone(),
            None => {
                return SubtrActorError::new_result(
                    SubtrActorErrorVariant::CouldNotBuildReplayMeta,
                );
            },
        };
        Ok(
            ReplayMetaWithHeaders {
                replay_meta: meta_copy,
                column_headers: self.get_column_headers(),
            },
        )
    }
}

/// The global adder a catalog name denotes.
pub open spec fn spec_global_adder(name: Seq<char>) -> Option<GlobalFeatureAdder> {
    if name == "BallRigidBody"@ {
        Some(GlobalFeatureAdder::BallRigidBody)
    } else if name == "BallRigidBodyNoVelocities"@ {
        Some(GlobalFeatureAdder::BallRigidBodyNoVelocities)
    } else if name == "BallRigidBodyQuaternions"@ {
        Some(GlobalFeatureAdder::BallRigidBodyQuaternions)
    } else if name == "VelocityAddedBallRigidBodyNoVelocities"@ {
        Some(GlobalFeatureAdder::VelocityAddedBallRigidBodyNoVelocities)
    } else if name == "InterpolatedBallRigidBodyNoVelocities"@ {
        Some(GlobalFeatureAdder::InterpolatedBallRigidBodyNoVelocities(0))
    } else if name == "SecondsRemaining"@ {
        Some(GlobalFeatureAdder::SecondsRemaining)
    } else if name == "CurrentTime"@ {
        Some(GlobalFeatureAdder::CurrentTime)
    } else if name == "FrameTime"@ {
        Some(GlobalFeatureAdder::FrameTime)
    } else {
        None
    }
}

/// The player adder a catalog name denotes.
pub open spec fn spec_player_adder(name: Seq<char>) -> Option<PlayerFeatureAdder> {
    if name == "PlayerRigidBody"@ {
        Some(PlayerFeatureAdder::PlayerRigidBody)
    } else if name == "PlayerRigidBodyNoVelocities"@ {
        Some(PlayerFeatureAdder::PlayerRigidBodyNoVelocities)
    } else if name == "PlayerRigidBodyQuaternions"@ {
        Some(PlayerFeatureAdder::PlayerRigidBodyQuaternions)
    } else if name == "VelocityAddedPlayerRigidBodyNoVelocities"@ {
        Some(PlayerFeatureAdder::VelocityAddedPlayerRigidBodyNoVelocities)
    } else if name == "InterpolatedPlayerRigidBodyNoVelocities"@ {
        Some(PlayerFeatureAdder::InterpolatedPlayerRigidBodyNoVelocities(3))
    } else if name == "PlayerBoost"@ {
        Some(PlayerFeatureAdder::PlayerBoost)
    } else if name == "PlayerJump"@ {
        Some(PlayerFeatureAdder::PlayerJump)
    } else if name == "PlayerAnyJump"@ {
        Some(PlayerFeatureAdder::PlayerAnyJump)
    } else if name == "PlayerDemolishedBy"@ {
        Some(PlayerFeatureAdder::PlayerDemolishedBy)
    } else {
        None
    }
}

/// Resolves one global adder name.
pub fn global_adder_from_name(name: &String) -> (r: SubtrActorResult<GlobalFeatureAdder>)
    ensures
        match r {
            Ok(a) => spec_global_adder(name@) == Some(a),
            Err(e) => spec_global_adder(name@) is None && (e.variant
                matches SubtrActorErrorVariant::UnknownFeatureAdderName(_)),
        },
{
    if *name == "BallRigidBody".to_owned() {
        Ok(GlobalFeatureAdder::BallRigidBody)
    } else if *name == "BallRigidBodyNoVelocities".to_owned() {
        Ok(GlobalFeatureAdder::BallRigidBodyNoVelocities)
    } else if *name == "BallRigidBodyQuaternions".to_owned() {
        Ok(GlobalFeatureAdder::BallRigidBodyQuaternions)
    } else if *name == "VelocityAddedBallRigidBodyNoVelocities".to_owned() {
        Ok(GlobalFeatureAdder::VelocityAddedBallRigidBodyNoVelocities)
    } else if *name == "InterpolatedBallRigidBodyNoVelocities".to_owned() {
        Ok(GlobalFeatureAdder::InterpolatedBallRigidBodyNoVelocities(0))
    } else if *name == "SecondsRemaining".to_owned() {
        Ok(GlobalFeatureAdder::SecondsRemaining)
    } else if *name == "CurrentTime".to_owned() {
        Ok(GlobalFeatureAdder::CurrentTime)
    } else if *name == "FrameTime".to_owned() {
        Ok(GlobalFeatureAdder::FrameTime)
    } else {
        SubtrActorError::new_result(
            SubtrActorErrorVariant::UnknownFeatureAdderName(name.clone()),
        )
    }
}

/// Resolves one player adder name.
pub fn player_adder_from_name(name: &String) -> (r: SubtrActorResult<PlayerFeatureAdder>)
    ensures
        match r {
            Ok(a) => spec_player_adder(name@) == Some(a),
            Err(e) => spec_player_adder(name@) is None && (e.variant
                matches SubtrActorErrorVariant::UnknownFeatureAdderName(_)),
        },
{
    if *name == "PlayerRigidBody".to_owned() {
        Ok(PlayerFeatureAdder::PlayerRigidBody)
    } else if *name == "PlayerRigidBodyNoVelocities".to_owned() {
        Ok(PlayerFeatureAdder::PlayerRigidBodyNoVelocities)
    } else if *name == "PlayerRigidBodyQuaternions".to_owned() {
        Ok(PlayerFeatureAdder::PlayerRigidBodyQuaternions)
    } else if *name == "VelocityAddedPlayerRigidBodyNoVelocities".to_owned() {
        Ok(PlayerFeatureAdder::VelocityAddedPlayerRigidBodyNoVelocities)
    } else if *name == "InterpolatedPlayerRigidBodyNoVelocities".to_owned() {
        Ok(PlayerFeatureAdder::InterpolatedPlayerRigidBodyNoVelocities(3))
    } else if *name == "PlayerBoost".to_owned() {
        Ok(PlayerFeatureAdder::PlayerBoost)
    } else if *name == "PlayerJump".to_owned() {
        Ok(PlayerFeatureAdder::PlayerJump)
    } else if *name == "PlayerAnyJump".to_owned() {
        Ok(PlayerFeatureAdder::PlayerAnyJump)
    } else if *name == "PlayerDemolishedBy".to_owned() {
        Ok(PlayerFeatureAdder::PlayerDemolishedBy)
    } else {
        SubtrActorError::new_result(
            SubtrActorErrorVariant::UnknownFeatureAdderName(name.clone()),
        )
    }
}

impl NDArrayCollector {
    /// Builds a collector from catalog names; an unknown name is rejected
    /// with `UnknownFeatureAdderName`.
    pub fn from_strings(fa_names: &Vec<String>, pfa_names: &Vec<String>) -> (r: SubtrActorResult<
        NDArrayCollector,
    >)
        ensures
            match r {
                Ok(c) => {
                    &&& c.wf()
                    &&& c.feature_adders@.len() == fa_names@.len()
                    &&& c.player_feature_adders@.len() == pfa_names@.len()
                    &&& forall|i: int|
                        0 <= i < fa_names@.len() ==> spec_global_adder((#[trigger] fa_names@[i])@)
                            == Some(#[trigger] c.feature_adders@[i])
                    &&& forall|i: int|
                        0 <= i < pfa_names@.len() ==> spec_player_adder(
                            (#[trigger] pfa_names@[i])@,
                        ) == Some(#[trigger] c.player_feature_adders@[i])
                },
                Err(e) => (e.variant matches SubtrActorErrorVariant::UnknownFeatureAdderName(_))
                    && ((exists|i: int|
                    0 <= i < fa_names@.len() && spec_global_adder((#[trigger] fa_names@[i])@)
                        is None) || (exists|i: int|
                    0 <= i < pfa_names@.len() && spec_player_adder((#[trigger] pfa_names@[i])@)
                        is None)),
            },
    {
        let mut feature_adders: Vec<GlobalFeatureAdder> = Vec::new();
        let n = fa_names.len();
        for i in 0..n
            invariant
                n == fa_names@.len(),
                feature_adders@.len() == i,
                forall|j: int|
                    0 <= j < i ==> spec_global_adder((#[trigger] fa_names@[j])@) == Some(
                        #[trigger] feature_adders@[j],
                    ),
        {
            let a = match global_adder_from_name(&fa_names[i]) {
                Ok(a) => a,
                Err(e) => {
                    proof {
                        assert(spec_global_adder((fa_names@[i as int])@) is None);
                    }
                    return Err(e);
                },
            };
            feature_adders.push(a);
        }
        let mut player_feature_adders: Vec<PlayerFeatureAdder> = Vec::new();
        let m = pfa_names.len();
        for i in 0..m
            invariant
                m == pfa_names@.len(),
                player_feature_adders@.len() == i,
                forall|j: int|
                    0 <= j < i ==> spec_player_adder((#[trigger] pfa_names@[j])@) == Some(
                        #[trigger] player_feature_adders@[j],
                    ),
        {
            let a = match player_adder_from_name(&pfa_names[i]) {
                Ok(a) => a,
                Err(e) => {
                    proof {
                        assert(spec_player_adder((pfa_names@[i as int])@) is None);
                    }
                    return Err(e);
                },
            };
            player_feature_adders.push(a);
        }
        Ok(Self::new(feature_adders, player_feature_adders))
    }
}

impl Default for NDArrayCollector {
    /// The default configuration: the ball's rigid body globally, and each
    /// player's rigid body, boost level and packed jump value.
    fn default() -> (r: NDArrayCollector)
        ensures
            r.wf(),
            r.feature_adders@.len() == 1,
            r.player_feature_adders@.len() == 3,
            r.feature_adders@[0] == GlobalFeatureAdder::BallRigidBody,
            r.player_feature_adders@[0] == PlayerFeatureAdder::PlayerRigidBody,
            r.player_feature_adders@[1] == PlayerFeatureAdder::PlayerBoost,
            r.player_feature_adders@[2] == PlayerFeatureAdder::PlayerAnyJump,
    {
        let mut feature_adders: Vec<GlobalFeatureAdder> = Vec::new();
        feature_adders.push(GlobalFeatureAdder::BallRigidBody);
        let mut player_feature_adders: Vec<PlayerFeatureAdder> = Vec::new();
        player_feature_adders.push(PlayerFeatureAdder::PlayerRigidBody);
        player_feature_adders.push(PlayerFeatureAdder::PlayerBoost);
        player_feature_adders.push(PlayerFeatureAdder::PlayerAnyJump);
        NDArrayCollector::new(feature_adders, player_feature_adders)
    }
}

impl Collector for NDArrayCollector {
    /// Captures the metadata on first invocation, then appends one row per
    /// frame whose ball rigid body exists and is awake; on an error the
    /// matrix is unchanged.
    fn process_frame(
        &mut self,
        processor: &ReplayProcessor,
        frame: &Frame,
        frame_number: usize,
        target_time: Milli,
    ) -> (r: SubtrActorResult<TimeAdvance>)
        ensures
            final(self).feature_adders == old(self).feature_adders,
            final(self).player_feature_adders == old(self).player_feature_adders,
            old(self).replay_meta is Some ==> final(self).replay_meta == old(self).replay_meta,
            r is Err ==> final(self).data == old(self).data && final(self).frames_added == old(
                self,
            ).frames_added,
            (crate::util::time_bounded(frame.time as int) && spec_row_owed(
                *old(self),
                *processor,
            )) ==> r is Ok,
            (old(self).replay_meta is None && r is Ok) ==> (final(self).replay_meta
                matches Some(m) && spec_captured_meta_ok(m, *processor)),
            r matches Ok(adv) ==> {
                &&& adv is NextFrame
                &&& final(self).replay_meta is Some
                &&& if !(processor.ball_actor_id matches Some(a)
                    && crate::processor::spec_actor_rigid_body(*processor, a) matches Some(p)
                    && !p.0.sleeping) {
                    final(self).data == old(self).data && final(self).frames_added == old(
                        self,
                    ).frames_added
                } else {
                    final(self).data@.len() == old(self).data@.len() + sum_global(
                        old(self).feature_adders@,
                    ) + (processor.team_zero@.len() + processor.team_one@.len()) * sum_player(
                        old(self).player_feature_adders@,
                    ) && final(self).data@.take(old(self).data@.len() as int) == old(self).data@
                        && final(self).frames_added == old(self).frames_added + 1 && spec_row(
                        old(self).feature_adders@,
                        old(self).player_feature_adders@,
                        processor.team_zero@ + processor.team_one@,
                        *processor,
                        *frame,
                        frame_number,
                        target_time,
                        final(self).data@.skip(old(self).data@.len() as int),
                    )
                }
            },
    {
        if frame.time > crate::util::MAX_TIME || frame.time < -crate::util::MAX_TIME {
            return SubtrActorError::new_result(SubtrActorErrorVariant::FrameIndexOutOfBounds);
        }
        self.collect_frame(processor, frame, frame_number, target_time)
    }
}

} // verus!
