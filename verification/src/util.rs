//! Fixed-point rigid-body mathematics — first-order extrapolation and linear
//! interpolation — together with small search and entry helpers.
//!
//! All scalars are milli-units (`1000` = `1.0`); times are milliseconds. The
//! interpolated location is computed coordinate by coordinate, and each
//! coordinate of the result stays between the two endpoint coordinates.
//! Orientation components are interpolated linearly as well; rotating an
//! orientation by an angular velocity calls for trigonometry on the unit
//! sphere, which this library does not model, so extrapolation carries the
//! orientation unchanged.

use vstd::arithmetic::div_mod::{lemma_div_is_ordered, lemma_div_multiples_vanish};
use vstd::prelude::*;

use crate::error::{SubtrActorError, SubtrActorErrorVariant, SubtrActorResult};
use crate::model::{HeaderProp, HeaderScalar, Milli, PlayerId, Quaternion, RemoteId, RigidBody, Vector3};
use crate::player_map::{PlayerMap, player_key};

verus! {

/// The largest coordinate or velocity magnitude the engine computes with, in
/// milli-units.
pub const MAX_COORD: i64 = 10_000_000_000;

/// The largest timestamp magnitude the engine computes with, in
/// milliseconds.
pub const MAX_TIME: i64 = 10_000_000_000;

pub open spec fn abs_int(v: int) -> int {
    if v >= 0 {
        v
    } else {
        -v
    }
}

/// A scalar is within the coordinate range.
pub open spec fn coord_bounded(v: int) -> bool {
    abs_int(v) <= MAX_COORD
}

/// A timestamp is within the time range.
pub open spec fn time_bounded(t: int) -> bool {
    abs_int(t) <= MAX_TIME
}

pub open spec fn vector_bounded(v: Vector3) -> bool {
    coord_bounded(v.x as int) && coord_bounded(v.y as int) && coord_bounded(v.z as int)
}

/// Every scalar of the body is within range.
pub open spec fn body_bounded(rb: RigidBody) -> bool {
    &&& vector_bounded(rb.location)
    &&& coord_bounded(rb.rotation.x as int) && coord_bounded(rb.rotation.y as int)
        && coord_bounded(rb.rotation.z as int) && coord_bounded(rb.rotation.w as int)
    &&& rb.linear_velocity matches Some(v) ==> vector_bounded(v)
    &&& rb.angular_velocity matches Some(v) ==> vector_bounded(v)
}

/// `v * m / d`, truncated toward zero (`d > 0`).
pub open spec fn spec_muldiv(v: int, m: int, d: int) -> int {
    if v * m >= 0 {
        (v * m) / d
    } else {
        -((-(v * m)) / d)
    }
}

/// Linear interpolation from `a` toward `b` by the fraction `num / den`.
pub open spec fn spec_lerp(a: int, b: int, num: int, den: int) -> int {
    a + spec_muldiv(b - a, num, den)
}

/// The interpolated value stays between the endpoints.
pub proof fn lemma_lerp_between(a: int, b: int, num: int, den: int)
    ensures
        den > 0 && 0 <= num <= den && a <= b ==> a <= spec_lerp(a, b, num, den) <= b,
        den > 0 && 0 <= num <= den && b <= a ==> b <= spec_lerp(a, b, num, den) <= a,
{
    if den > 0 && 0 <= num <= den {
        let v = b - a;
        if a <= b {
            assert(v * num >= 0) by (nonlinear_arith)
                requires
                    v >= 0,
                    num >= 0,
            ;
            assert(v * num <= den * v) by (nonlinear_arith)
                requires
                    v >= 0,
                    num <= den,
            ;
            lemma_div_is_ordered(v * num, den * v, den);
            lemma_div_multiples_vanish(v, den);
            assert((v * num) / den >= 0) by {
                lemma_div_is_ordered(0, v * num, den);
            }
        } else {
            let w = a - b;
            assert(v * num <= 0 && -(v * num) == w * num) by (nonlinear_arith)
                requires
                    v <= 0,
                    num >= 0,
                    w == -v,
            ;
            if v * num >= 0 {
                assert(v * num == 0) by (nonlinear_arith)
                    requires
                        v * num >= 0,
                        v * num <= 0,
                ;
                assert((v * num) / den == 0) by {
                    lemma_div_multiples_vanish(0, den);
                }
            } else {
                assert(w * num >= 0) by (nonlinear_arith)
                    requires
                        w >= 0,
                        num >= 0,
                ;
                assert(w * num <= den * w) by (nonlinear_arith)
                    requires
                        w >= 0,
                        num <= den,
                ;
                lemma_div_is_ordered(w * num, den * w, den);
                lemma_div_multiples_vanish(w, den);
                assert((w * num) / den >= 0) by {
                    lemma_div_is_ordered(0, w * num, den);
                }
            }
        }
    }
}

/// `v * m / d`, truncated toward zero, on machine integers.
pub fn muldiv_trunc(v: i64, m: i64, d: i64) -> (r: i64)
    requires
        d > 0,
        abs_int(v as int) <= 2 * MAX_COORD,
        abs_int(m as int) <= 2 * MAX_TIME,
        abs_int(v as int) * abs_int(m as int) / (d as int) <= 9_000_000_000_000_000_000,
    ensures
        r == spec_muldiv(v as int, m as int, d as int),
        abs_int(r as int) == abs_int(v as int) * abs_int(m as int) / (d as int),
{
    let vm: u64 = if v >= 0 {
        v as u64
    } else {
        (-v) as u64
    };
    let mm: u64 = if m >= 0 {
        m as u64
    } else {
        (-m) as u64
    };
    proof {
        assert(vm == abs_int(v as int) && mm == abs_int(m as int));
        assert((vm as int) * (mm as int) <= (2 * MAX_COORD as int) * (2 * MAX_TIME as int))
            by (nonlinear_arith)
            requires
                0 <= vm as int <= 2 * MAX_COORD as int,
                0 <= mm as int <= 2 * MAX_TIME as int,
        ;
        assert(((vm as u128) as int) * ((mm as u128) as int) <= 400_000_000_000_000_000_000int)
            by (nonlinear_arith)
            requires
                0 <= (vm as u128) as int <= 20_000_000_000int,
                0 <= (mm as u128) as int <= 20_000_000_000int,
        ;
    }
    let prod: u128 = (vm as u128) * (mm as u128);
    let q: u128 = prod / (d as u128);
    proof {
        assert(q == (vm as int * mm as int) / (d as int));
    }
    let qi: i64 = q as i64;
    let negative = (v < 0) != (m < 0);
    let r = if negative {
        -qi
    } else {
        qi
    };
    proof {
        let vi = v as int;
        let mi = m as int;
        assert(abs_int(r as int) == q);
        if vi * mi >= 0 {
            assert(vi * mi == vm as int * mm as int) by (nonlinear_arith)
                requires
                    vm == abs_int(vi),
                    mm == abs_int(mi),
                    vi * mi >= 0,
            ;
            if negative {
                assert(vi * mi == 0 || vi * mi < 0) by (nonlinear_arith)
                    requires
                        (vi >= 0 && mi < 0) || (vi < 0 && mi >= 0),
                ;
                assert(vm as int * mm as int == 0);
                assert(q == 0) by {
                    lemma_div_multiples_vanish(0, d as int);
                }
            }
        } else {
            assert(-(vi * mi) == vm as int * mm as int) by (nonlinear_arith)
                requires
                    vm == abs_int(vi),
                    mm == abs_int(mi),
                    vi * mi < 0,
            ;
            assert((vi < 0 && mi > 0) || (vi > 0 && mi < 0)) by (nonlinear_arith)
                requires
                    vi * mi < 0,
            ;
            assert(negative);
        }
    }
    r
}

/// Linear interpolation of one coordinate: `a + (b - a) * num / den`.
pub fn lerp_milli(a: i64, b: i64, num: i64, den: i64) -> (r: i64)
    requires
        den > 0,
        0 <= num <= den,
        den <= 2 * MAX_TIME,
        coord_bounded(a as int),
        coord_bounded(b as int),
    ensures
        r == spec_lerp(a as int, b as int, num as int, den as int),
        a <= b ==> a <= r <= b,
        b <= a ==> b <= r <= a,
{
    proof {
        lemma_lerp_between(a as int, b as int, num as int, den as int);
        let av = abs_int(b as int - a as int);
        assert(av * (num as int) <= av * (den as int)) by (nonlinear_arith)
            requires
                av >= 0,
                0 <= num <= den,
        ;
        lemma_div_is_ordered(av * (num as int), av * (den as int), den as int);
        assert(av * (den as int) == (den as int) * av) by (nonlinear_arith);
        lemma_div_multiples_vanish(av, den as int);
    }
    let d = b - a;
    let q = muldiv_trunc(d, num, den);
    proof {
        let av = abs_int(d as int);
        assert(abs_int(q as int) == av * (num as int) / (den as int));
    }
    a + q
}

/// A bounded attribute: a rigid body is bounded; every other kind carries
/// no engine-range scalar.
pub open spec fn attribute_bounded(a: crate::model::Attribute) -> bool {
    match a {
        crate::model::Attribute::RigidBody(rb) => body_bounded(rb),
        _ => true,
    }
}

/// Data of one demolition event: when it happened and who was involved.
#[derive(Debug, Clone)]
pub struct DemolishInfo {
    /// The game time of the event, in milliseconds.
    pub time: Milli,
    /// The seconds remaining in the match when the event occurred.
    pub seconds_remaining: i32,
    /// The frame at which the event occurred.
    pub frame: usize,
    /// The player who demolished.
    pub attacker: PlayerId,
    /// The player who was demolished.
    pub victim: PlayerId,
    /// The attacker's velocity at the event, milli-units.
    pub attacker_velocity: Vector3,
    /// The victim's velocity at the event, milli-units.
    pub victim_velocity: Vector3,
}

/// Two header scalars carry the same content.
pub open spec fn scalar_eqv(a: HeaderScalar, b: HeaderScalar) -> bool {
    match (a, b) {
        (HeaderScalar::Bool(x), HeaderScalar::Bool(y)) => x == y,
        (HeaderScalar::Byte { kind: ka, value: va }, HeaderScalar::Byte { kind: kb, value: vb }) => {
            ka@ == kb@ && match (va, vb) {
                (Some(x), Some(y)) => x@ == y@,
                (None, None) => true,
                _ => false,
            }
        },
        (HeaderScalar::Float(x), HeaderScalar::Float(y)) => x == y,
        (HeaderScalar::Int(x), HeaderScalar::Int(y)) => x == y,
        (HeaderScalar::Name(x), HeaderScalar::Name(y)) => x@ == y@,
        (HeaderScalar::QWord(x), HeaderScalar::QWord(y)) => x == y,
        (HeaderScalar::Str(x), HeaderScalar::Str(y)) => x@ == y@,
        _ => false,
    }
}

/// Two keyed scalar records carry the same content.
pub open spec fn pairs_eqv(a: Seq<(String, HeaderScalar)>, b: Seq<(String, HeaderScalar)>) -> bool {
    a.len() == b.len() && forall|i: int|
        0 <= i < a.len() ==> (#[trigger] a[i]).0@ == (#[trigger] b[i]).0@ && scalar_eqv(
            a[i].1,
            b[i].1,
        )
}

/// Two header properties carry the same content.
pub open spec fn prop_eqv(a: HeaderProp, b: HeaderProp) -> bool {
    match (a, b) {
        (HeaderProp::Scalar(x), HeaderProp::Scalar(y)) => scalar_eqv(x, y),
        (HeaderProp::Array(xs), HeaderProp::Array(ys)) => {
            xs@.len() == ys@.len() && forall|i: int|
                0 <= i < xs@.len() ==> pairs_eqv((#[trigger] xs@[i])@, (#[trigger] ys@[i])@)
        },
        _ => false,
    }
}

impl HeaderScalar {
    /// A deep copy carrying the same content.
    pub fn duplicate(&self) -> (r: HeaderScalar)
        ensures
            scalar_eqv(r, *self),
    {
        match self {
            HeaderScalar::Bool(x) => HeaderScalar::Bool(*x),
            HeaderScalar::Byte { kind, value } => HeaderScalar::Byte {
                kind: kind.clone(),
                value: match value {
                    Some(v) => Some(v.clone()),
                    None => None,
                },
            },
            HeaderScalar::Float(x) => HeaderScalar::Float(*x),
            HeaderScalar::Int(x) => HeaderScalar::Int(*x),
            HeaderScalar::Name(x) => HeaderScalar::Name(x.clone()),
            HeaderScalar::QWord(x) => HeaderScalar::QWord(*x),
            HeaderScalar::Str(x) => HeaderScalar::Str(x.clone()),
        }
    }
}

/// A deep copy of a keyed scalar record.
pub fn duplicate_pairs(props: &Vec<(String, HeaderScalar)>) -> (r: Vec<(String, HeaderScalar)>)
    ensures
        pairs_eqv(r@, props@),
{
    let mut r: Vec<(String, HeaderScalar)> = Vec::new();
    let n = props.len();
    for i in 0..n
        invariant
            n == props@.len(),
            r@.len() == i,
            forall|j: int|
                0 <= j < i ==> (#[trigger] r@[j]).0@ == (#[trigger] props@[j]).0@ && scalar_eqv(
                    r@[j].1,
                    props@[j].1,
                ),
    {
        let (k, v) = (&props[i].0, &props[i].1);
        r.push((k.clone(), v.duplicate()));
    }
    r
}

impl HeaderProp {
    /// A deep copy carrying the same content.
    pub fn duplicate(&self) -> (r: HeaderProp)
        ensures
            prop_eqv(r, *self),
    {
        match self {
            HeaderProp::Scalar(s) => HeaderProp::Scalar(s.duplicate()),
            HeaderProp::Array(rows) => {
                let mut out: Vec<Vec<(String, HeaderScalar)>> = Vec::new();
                let n = rows.len();
                for i in 0..n
                    invariant
                        n == rows@.len(),
                        out@.len() == i,
                        forall|j: int|
                            0 <= j < i ==> pairs_eqv((#[trigger] out@[j])@, (#[trigger] rows@[j])@),
                {
                    out.push(duplicate_pairs(&rows[i]));
                }
                HeaderProp::Array(out)
            },
        }
    }
}

/// The position of the first record entry whose key is the name.
pub open spec fn spec_get_prop(props: Seq<(String, HeaderScalar)>, name: Seq<char>) -> Option<int>
    decreases props.len(),
{
    if props.len() == 0 {
        None
    } else if props[0].0@ == name {
        Some(0)
    } else {
        match spec_get_prop(props.drop_first(), name) {
            Some(i) => Some(i + 1),
            None => None,
        }
    }
}

/// Finds the first record entry whose key is the name.
pub fn get_prop(prop: &String, props: &Vec<(String, HeaderScalar)>) -> (r: Option<usize>)
    ensures
        match r {
            Some(i) => spec_get_prop(props@, prop@) == Some(i as int) && i < props@.len()
                && props@[i as int].0@ == prop@,
            None => spec_get_prop(props@, prop@) is None,
        },
{
    let ghost ps = props@;
    proof {
        assert(ps.skip(0) =~= ps);
    }
    let n = props.len();
    for i in 0..n
        invariant
            n == ps.len(),
            ps == props@,
            spec_get_prop(ps, prop@) == match spec_get_prop(ps.skip(i as int), prop@) {
                Some(k) => Some(k + i),
                None => None::<int>,
            },
    {
        proof {
            assert(ps.skip(i as int)[0] == ps[i as int]);
        }
        if props[i].0 == *prop {
            return Some(i);
        }
        proof {
            assert(ps.skip(i as int).drop_first() =~= ps.skip(i as int + 1));
        }
    }
    proof {
        assert(ps.skip(n as int) =~= Seq::<(String, HeaderScalar)>::empty());
    }
    None
}

/// Whether the record's online id equals the given one.
pub open spec fn spec_online_id_matches(id: u64, props: Seq<(String, HeaderScalar)>) -> bool {
    match spec_get_prop(props, "OnlineID"@) {
        Some(i) => props[i].1 matches HeaderScalar::QWord(q) && q == id,
        None => false,
    }
}

/// Whether the record's online id equals the given one.
pub fn online_id_matches(id: u64, props: &Vec<(String, HeaderScalar)>) -> (r: bool)
    ensures
        r == spec_online_id_matches(id, props@),
{
    match get_prop(&"OnlineID".to_owned(), props) {
        Some(i) => match &props[i].1 {
            HeaderScalar::QWord(q) => *q == id,
            _ => false,
        },
        None => false,
    }
}

/// Whether the record's name entry equals the given name.
pub open spec fn spec_name_matches(name: Seq<char>, props: Seq<(String, HeaderScalar)>) -> bool {
    match spec_get_prop(props, "Name"@) {
        Some(i) => props[i].1 matches HeaderScalar::Str(s) && s@ == name,
        None => false,
    }
}

/// Whether the record's name entry equals the given name.
pub fn name_matches(name: &String, props: &Vec<(String, HeaderScalar)>) -> (r: bool)
    ensures
        r == spec_name_matches(name@, props@),
{
    match get_prop(&"Name".to_owned(), props) {
        Some(i) => match &props[i].1 {
            HeaderScalar::Str(s) => *s == *name,
            _ => false,
        },
        None => false,
    }
}

/// Whether the platform entry of the record fits the player id's platform;
/// `None` when the record carries no readable platform entry.
pub open spec fn spec_platform_matches(player_id: PlayerId, props: Seq<(String, HeaderScalar)>) -> Option<bool> {
    match spec_get_prop(props, "Platform"@) {
        Some(i) => match props[i].1 {
            HeaderScalar::Byte { value: Some(v), .. } => Some(
                {
                    ||| (player_id is Steam && v@ == "OnlinePlatform_Steam"@)
                    ||| (player_id is PlayStation && v@ == "OnlinePlatform_PS4"@)
                    ||| (player_id is Epic && v@ == "OnlinePlatform_Epic"@)
                    ||| (player_id is PsyNet && v@ == "OnlinePlatform_PS4"@)
                    ||| (player_id is Xbox && v@ == "OnlinePlatform_Dingo"@)
                    ||| (player_id is Switch && v@ == "OnlinePlatform_Switch"@)
                },
            ),
            _ => None,
        },
        None => None,
    }
}

/// Whether the platform entry of the record fits the player id's platform.
pub fn platform_matches(player_id: &PlayerId, props: &Vec<(String, HeaderScalar)>) -> (r: Option<
    bool,
>)
    ensures
        r == spec_platform_matches(*player_id, props@),
{
    match get_prop(&"Platform".to_owned(), props) {
        Some(i) => match &props[i].1 {
            HeaderScalar::Byte { value: Some(v), .. } => {
                let m = match player_id {
                    RemoteId::Steam(_) => *v == "OnlinePlatform_Steam".to_owned(),
                    RemoteId::PlayStation { .. } => *v == "OnlinePlatform_PS4".to_owned(),
                    RemoteId::Epic(_) => *v == "OnlinePlatform_Epic".to_owned(),
                    RemoteId::PsyNet { .. } => *v == "OnlinePlatform_PS4".to_owned(),
                    RemoteId::Xbox(_) => *v == "OnlinePlatform_Dingo".to_owned(),
                    RemoteId::Switch { .. } => *v == "OnlinePlatform_Switch".to_owned(),
                    _ => false,
                };
                Some(m)
            },
            _ => None,
        },
        None => None,
    }
}

/// Whether the per-player stats record belongs to the player: the platform
/// must fit, and the identity is checked by online id, or by name for the
/// platforms whose id the header does not carry.
pub open spec fn spec_matches_stats(player_id: PlayerId, name: Seq<char>, props: Seq<(String, HeaderScalar)>) -> bool {
    &&& spec_platform_matches(player_id, props) == Some(true)
    &&& match player_id {
        RemoteId::Epic(_) => spec_name_matches(name, props),
        RemoteId::Steam(id) => spec_online_id_matches(id, props),
        RemoteId::Xbox(id) => spec_online_id_matches(id, props),
        RemoteId::PlayStation { online_id, .. } => spec_online_id_matches(online_id, props),
        RemoteId::PsyNet { online_id } => spec_online_id_matches(online_id, props),
        RemoteId::Switch { online_id } => spec_online_id_matches(online_id, props),
        _ => false,
    }
}

/// Whether the per-player stats record belongs to the player.
pub fn matches_stats(player_id: &PlayerId, name: &String, props: &Vec<(String, HeaderScalar)>) -> (r: bool)
    ensures
        r == spec_matches_stats(*player_id, name@, props@),
{
    match platform_matches(player_id, props) {
        Some(true) => {},
        _ => {
            return false;
        },
    }
    match player_id {
        RemoteId::Epic(_) => name_matches(name, props),
        RemoteId::Steam(id) => online_id_matches(*id, props),
        RemoteId::Xbox(id) => online_id_matches(*id, props),
        RemoteId::PlayStation { online_id, .. } => online_id_matches(*online_id, props),
        RemoteId::PsyNet { online_id } => online_id_matches(*online_id, props),
        RemoteId::Switch { online_id } => online_id_matches(*online_id, props),
        _ => false,
    }
}

/// The position of the first per-player stats record belonging to the
/// player, if any.
pub open spec fn spec_find_stats_index(
    all: Seq<Vec<(String, HeaderScalar)>>,
    player_id: PlayerId,
    name: Seq<char>,
) -> Option<int>
    decreases all.len(),
{
    if all.len() == 0 {
        None
    } else if spec_matches_stats(player_id, name, all[0]@) {
        Some(0)
    } else {
        match spec_find_stats_index(all.drop_first(), player_id, name) {
            Some(i) => Some(i + 1),
            None => None,
        }
    }
}

/// Finds the first per-player stats record belonging to the player among
/// the header's rows, and returns a copy of it.
pub fn find_player_stats(
    player_id: &PlayerId,
    name: &String,
    all_player_stats: &Vec<Vec<(String, HeaderScalar)>>,
) -> (r: Result<Vec<(String, HeaderScalar)>, String>)
    ensures
        match r {
            Ok(row) => (spec_find_stats_index(all_player_stats@, *player_id, name@) matches Some(i)
                && pairs_eqv(row@, all_player_stats@[i]@)),
            Err(_) => spec_find_stats_index(all_player_stats@, *player_id, name@) is None,
        },
{
    let ghost all = all_player_stats@;
    proof {
        assert(all.skip(0) =~= all);
    }
    let n = all_player_stats.len();
    for i in 0..n
        invariant
            n == all.len(),
            all == all_player_stats@,
            spec_find_stats_index(all, *player_id, name@) == match spec_find_stats_index(
                all.skip(i as int),
                *player_id,
                name@,
            ) {
                Some(x) => Some(x + i),
                None => None::<int>,
            },
    {
        proof {
            assert(all.skip(i as int)[0] == all[i as int]);
        }
        if matches_stats(player_id, name, &all_player_stats[i]) {
            return Ok(duplicate_pairs(&all_player_stats[i]));
        }
        proof {
            assert(all.skip(i as int).drop_first() =~= all.skip(i as int + 1));
        }
    }
    proof {
        assert(all.skip(n as int) =~= Seq::<Vec<(String, HeaderScalar)>>::empty());
    }
    Err("player stats not found".to_owned())
}

/// Detailed information about one player of the replay.
#[derive(Debug, Clone)]
pub struct PlayerInfo {
    /// The player's stable remote identity.
    pub remote_id: PlayerId,
    /// The player's per-player stats record from the header, when one
    /// matches.
    pub stats: Option<Vec<(String, HeaderScalar)>>,
    /// The player's name as replicated in the frames.
    pub name: String,
}

/// Metadata about the replay: the two rosters with player details, and all
/// header properties.
#[derive(Debug, Clone)]
pub struct ReplayMeta {
    /// Player details of team zero, in roster order.
    pub team_zero: Vec<PlayerInfo>,
    /// Player details of team one, in roster order.
    pub team_one: Vec<PlayerInfo>,
    /// All header properties of the replay.
    pub all_headers: Vec<(String, HeaderProp)>,
}

impl ReplayMeta {
    /// The total number of players.
    pub fn player_count(&self) -> (n: usize)
        requires
            self.team_zero@.len() + self.team_one@.len() <= usize::MAX,
        ensures
            n == self.team_zero@.len() + self.team_one@.len(),
    {
        self.team_one.len() + self.team_zero.len()
    }
}

/// The velocity to use: the stored one, or zero when absent.
pub open spec fn vel_or_zero(v: Option<Vector3>) -> Vector3 {
    match v {
        Some(w) => w,
        None => Vector3 { x: 0, y: 0, z: 0 },
    }
}

/// One coordinate moved by its velocity for `dt` milliseconds:
/// `p + v * dt / 1000`.
fn extrapolate_coord(p: i64, v: i64, dt: i64) -> (r: i64)
    requires
        coord_bounded(p as int),
        coord_bounded(v as int),
        abs_int(dt as int) <= 2 * MAX_TIME,
    ensures
        r == p + spec_muldiv(v as int, dt as int, 1000),
{
    proof {
        let av = abs_int(v as int);
        let am = abs_int(dt as int);
        assert(av * am <= MAX_COORD * (2 * MAX_TIME)) by (nonlinear_arith)
            requires
                0 <= av <= MAX_COORD,
                0 <= am <= 2 * MAX_TIME,
        ;
        lemma_div_is_ordered(av * am, (MAX_COORD * (2 * MAX_TIME)) as int, 1000);
        assert((MAX_COORD * (2 * MAX_TIME)) as int / 1000 == 200_000_000_000_000_000int);
    }
    let q = muldiv_trunc(v, dt, 1000);
    p + q
}

/// A rigid body moved by its linear velocity for `dt` milliseconds; the
/// orientation, velocities and sleep flag carried unchanged.
pub open spec fn spec_apply_velocities(rb: RigidBody, dt: Milli) -> RigidBody {
    if dt == 0 {
        rb
    } else {
        RigidBody {
            location: Vector3 {
                x: (rb.location.x + spec_muldiv(
                    vel_or_zero(rb.linear_velocity).x as int,
                    dt as int,
                    1000,
                )) as i64,
                y: (rb.location.y + spec_muldiv(
                    vel_or_zero(rb.linear_velocity).y as int,
                    dt as int,
                    1000,
                )) as i64,
                z: (rb.location.z + spec_muldiv(
                    vel_or_zero(rb.linear_velocity).z as int,
                    dt as int,
                    1000,
                )) as i64,
            },
            ..rb
        }
    }
}

/// Returns a new rigid body whose location has moved with the linear
/// velocity for `time_delta` milliseconds. The orientation, the velocities
/// and the sleep flag are carried unchanged; with `time_delta` zero the
/// input is returned as it is.
pub fn apply_velocities_to_rigid_body(rigid_body: &RigidBody, time_delta: Milli) -> (r: RigidBody)
    requires
        body_bounded(*rigid_body),
        abs_int(time_delta as int) <= 2 * MAX_TIME,
    ensures
        r == spec_apply_velocities(*rigid_body, time_delta),
        time_delta == 0 ==> r == *rigid_body,
        r.location.x == rigid_body.location.x + spec_muldiv(
            vel_or_zero(rigid_body.linear_velocity).x as int,
            time_delta as int,
            1000,
        ),
        r.location.y == rigid_body.location.y + spec_muldiv(
            vel_or_zero(rigid_body.linear_velocity).y as int,
            time_delta as int,
            1000,
        ),
        r.location.z == rigid_body.location.z + spec_muldiv(
            vel_or_zero(rigid_body.linear_velocity).z as int,
            time_delta as int,
            1000,
        ),
        r.rotation == rigid_body.rotation,
        r.sleeping == rigid_body.sleeping,
        r.linear_velocity == rigid_body.linear_velocity,
        r.angular_velocity == rigid_body.angular_velocity,
{
    if time_delta == 0 {
        let r = *rigid_body;
        proof {
            let lv = vel_or_zero(rigid_body.linear_velocity);
            assert(lv.x as int * 0 == 0 && lv.y as int * 0 == 0 && lv.z as int * 0 == 0);
            assert(0int / 1000 == 0);
        }
        return r;
    }
    let lv = match rigid_body.linear_velocity {
        Some(v) => v,
        None => Vector3 { x: 0, y: 0, z: 0 },
    };
    RigidBody {
        sleeping: rigid_body.sleeping,
        location: Vector3 {
            x: extrapolate_coord(rigid_body.location.x, lv.x, time_delta),
            y: extrapolate_coord(rigid_body.location.y, lv.y, time_delta),
            z: extrapolate_coord(rigid_body.location.z, lv.z, time_delta),
        },
        rotation: rigid_body.rotation,
        linear_velocity: rigid_body.linear_velocity,
        angular_velocity: rigid_body.angular_velocity,
    }
}

/// Interpolates between two rigid-body states at a time within their
/// window. Each location coordinate of the result lies between the two
/// endpoint coordinates; orientation components are interpolated the same
/// way; velocities and the sleep flag are carried from the start body. A
/// query outside `[start_time, end_time]` fails and does not extrapolate.
pub fn get_interpolated_rigid_body(
    start_body: &RigidBody,
    start_time: Milli,
    end_body: &RigidBody,
    end_time: Milli,
    time: Milli,
) -> (r: SubtrActorResult<RigidBody>)
    requires
        body_bounded(*start_body),
        body_bounded(*end_body),
        time_bounded(start_time as int),
        time_bounded(end_time as int),
        time_bounded(time as int),
    ensures
        !(start_time <= time <= end_time) ==> (r matches Err(e)
            && e.variant matches SubtrActorErrorVariant::InterpolationTimeOrderError {
            start_time: s,
            time: t,
            end_time: e2,
        } && s == start_time && t == time && e2 == end_time),
        start_time <= time <= end_time ==> (r matches Ok(rb) && {
            let num = time - start_time;
            let den = end_time - start_time;
            if den == 0 {
                rb == *start_body
            } else {
                &&& rb.location.x == spec_lerp(
                    start_body.location.x as int,
                    end_body.location.x as int,
                    num as int,
                    den as int,
                )
                &&& rb.location.y == spec_lerp(
                    start_body.location.y as int,
                    end_body.location.y as int,
                    num as int,
                    den as int,
                )
                &&& rb.location.z == spec_lerp(
                    start_body.location.z as int,
                    end_body.location.z as int,
                    num as int,
                    den as int,
                )
                &&& rb.rotation.x == spec_lerp(
                    start_body.rotation.x as int,
                    end_body.rotation.x as int,
                    num as int,
                    den as int,
                )
                &&& rb.rotation.y == spec_lerp(
                    start_body.rotation.y as int,
                    end_body.rotation.y as int,
                    num as int,
                    den as int,
                )
                &&& rb.rotation.z == spec_lerp(
                    start_body.rotation.z as int,
                    end_body.rotation.z as int,
                    num as int,
                    den as int,
                )
                &&& rb.rotation.w == spec_lerp(
                    start_body.rotation.w as int,
                    end_body.rotation.w as int,
                    num as int,
                    den as int,
                )
                &&& rb.sleeping == start_body.sleeping
                &&& rb.linear_velocity == start_body.linear_velocity
                &&& rb.angular_velocity == start_body.angular_velocity
            }
        }),
        r matches Ok(rb) ==> {
            ||| start_body.location.x <= rb.location.x <= end_body.location.x
            ||| end_body.location.x <= rb.location.x <= start_body.location.x
        },
        r matches Ok(rb) ==> {
            ||| start_body.location.y <= rb.location.y <= end_body.location.y
            ||| end_body.location.y <= rb.location.y <= start_body.location.y
        },
        r matches Ok(rb) ==> {
            ||| start_body.location.z <= rb.location.z <= end_body.location.z
            ||| end_body.location.z <= rb.location.z <= start_body.location.z
        },
{
    if !(start_time <= time && time <= end_time) {
        return SubtrActorError::new_result(
            SubtrActorErrorVariant::InterpolationTimeOrderError { start_time, time, end_time },
        );
    }
    let duration = end_time - start_time;
    if duration == 0 {
        return Ok(*start_body);
    }
    let num = time - start_time;
    Ok(
        RigidBody {
            sleeping: start_body.sleeping,
            location: Vector3 {
                x: lerp_milli(start_body.location.x, end_body.location.x, num, duration),
                y: lerp_milli(start_body.location.y, end_body.location.y, num, duration),
                z: lerp_milli(start_body.location.z, end_body.location.z, num, duration),
            },
            rotation: Quaternion {
                x: lerp_milli(start_body.rotation.x, end_body.rotation.x, num, duration),
                y: lerp_milli(start_body.rotation.y, end_body.rotation.y, num, duration),
                z: lerp_milli(start_body.rotation.z, end_body.rotation.z, num, duration),
                w: lerp_milli(start_body.rotation.w, end_body.rotation.w, num, duration),
            },
            linear_velocity: start_body.linear_velocity,
            angular_velocity: start_body.angular_velocity,
        },
    )
}

/// Enum to define the direction of searching within a collection.
#[derive(Debug, Clone, Copy, PartialEq, Eq, Structural)]
pub enum SearchDirection {
    Forward,
    Backward,
}

/// Searches a slice in the given direction from `current_index`, returning
/// the first index (and the predicate's answer) for which the predicate
/// answers `Some`. The search excludes `current_index` itself: forward it
/// walks `current_index + 1 ..`, backward it walks `.. current_index` from
/// the high end down.
pub fn find_in_direction<T, R, F: Fn(&T) -> Option<R>>(
    items: &[T],
    current_index: usize,
    direction: SearchDirection,
    predicate: F,
) -> (r: Option<(usize, R)>)
    requires
        current_index < items@.len(),
        forall|i: int| 0 <= i < items@.len() ==> predicate.requires((&items[i],)),
    ensures
        r matches Some((i, res)) ==> {
            &&& i < items@.len()
            &&& direction matches SearchDirection::Forward ==> current_index < i && (forall|m: int|
                current_index < m < i ==> predicate.ensures((&items[m],), None::<R>))
            &&& direction matches SearchDirection::Backward ==> i < current_index && (forall|
                m: int,
            |
                i < m < current_index ==> predicate.ensures((&items[m],), None::<R>))
            &&& predicate.ensures((&items[i as int],), Some(res))
        },
        r is None ==> {
            &&& direction matches SearchDirection::Forward ==> forall|m: int|
                current_index < m < items@.len() ==> predicate.ensures((&items[m],), None::<R>)
            &&& direction matches SearchDirection::Backward ==> forall|m: int|
                0 <= m < current_index ==> predicate.ensures((&items[m],), None::<R>)
        },
{
    match direction {
        SearchDirection::Forward => {
            let n = items.len();
            let mut i = current_index + 1;
            while i < n
                invariant
                    direction matches SearchDirection::Forward,
                    n == items@.len(),
                    current_index < i,
                    forall|j: int| 0 <= j < items@.len() ==> predicate.requires((&items[j],)),
                    forall|m: int|
                        current_index < m < i ==> predicate.ensures((&items[m],), None::<R>),
                decreases n - i,
            {
                let answer = predicate(&items[i]);
                if let Some(res) = answer {
                    return Some((i, res));
                }
                proof {
                    assert(predicate.ensures((&items[i as int],), None::<R>));
                }
                i += 1;
            }
            None
        },
        SearchDirection::Backward => {
            let mut i = current_index;
            while i > 0
                invariant
                    direction matches SearchDirection::Backward,
                    i <= current_index < items@.len(),
                    forall|j: int| 0 <= j < items@.len() ==> predicate.requires((&items[j],)),
                    forall|m: int|
                        i <= m < current_index ==> predicate.ensures((&items[m],), None::<R>),
                decreases i,
            {
                i -= 1;
                let answer = predicate(&items[i]);
                if let Some(res) = answer {
                    return Some((i, res));
                }
                proof {
                    assert(predicate.ensures((&items[i as int],), None::<R>));
                }
            }
            None
        },
    }
}

/// The position of a player's entry in an ordered player map: either an
/// occupied position or vacancy.
pub enum Entry {
    Occupied(usize),
    Vacant,
}

/// Looks a player up in a map, as an `Entry`.
pub fn get_entry<V>(map: &PlayerMap<V>, key: &PlayerId) -> (r: Entry)
    requires
        map.wf(),
    ensures
        match r {
            Entry::Occupied(i) => {
                &&& i < map.entries_seq().len()
                &&& player_key(map.entries_seq()[i as int].0) == player_key(*key)
                &&& map@.contains_key(player_key(*key))
            },
            Entry::Vacant => !map@.contains_key(player_key(*key)),
        },
{
    match map.get_index(key) {
        Some(i) => Entry::Occupied(i),
        None => Entry::Vacant,
    }
}

impl Entry {
    /// Returns the position of the entry, inserting one holding `default()`
    /// first when vacant.
    pub fn or_insert_with<V, F: FnOnce() -> V>(
        self,
        map: &mut PlayerMap<V>,
        key: &PlayerId,
        default: F,
    ) -> (i: usize)
        requires
            old(map).wf(),
            default.requires(()),
            match self {
                Entry::Occupied(i) => {
                    &&& i < old(map).entries_seq().len()
                    &&& player_key(old(map).entries_seq()[i as int].0) == player_key(*key)
                },
                Entry::Vacant => !old(map)@.contains_key(player_key(*key)),
            },
        ensures
            final(map).wf(),
            i < final(map).entries_seq().len(),
            player_key(final(map).entries_seq()[i as int].0) == player_key(*key),
            match self {
                Entry::Occupied(j) => {
                    &&& i == j
                    &&& *final(map) == *old(map)
                },
                Entry::Vacant => {
                    &&& i == old(map).entries_seq().len()
                    &&& exists|d: V|
                        #![auto]
                        default.ensures((), d) && final(map).entries_seq() == old(
                            map,
                        ).entries_seq().push((*key, d)) && final(map)@ == old(map)@.insert(
                            player_key(*key),
                            d,
                        )
                },
            },
    {
        match self {
            Entry::Occupied(i) => i,
            Entry::Vacant => {
                let i = map.len();
                map.insert(key.duplicate(), default());
                i
            },
        }
    }
}

} // verus!
