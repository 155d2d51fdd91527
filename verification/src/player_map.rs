//! An ordered association map keyed by player identity. Two `PlayerId`
//! values name the same player exactly when their spec keys coincide, so the
//! view is a `Map` from spec keys to values.

use vstd::prelude::*;

use crate::model::{PlayerId, RemoteId};

verus! {

/// The mathematical key of a player id: a platform rank, the numeric id, and
/// the name characters for the platforms that carry a name.
pub open spec fn player_key(p: PlayerId) -> (int, u64, Seq<char>) {
    match p {
        RemoteId::Epic(name) => (0int, 0u64, name@),
        RemoteId::PlayStation { online_id, name } => (1int, online_id, name@),
        RemoteId::PsyNet { online_id } => (2int, online_id, Seq::<char>::empty()),
        RemoteId::SplitScreen(id) => (3int, id as u64, Seq::<char>::empty()),
        RemoteId::Steam(id) => (4int, id, Seq::<char>::empty()),
        RemoteId::Switch { online_id } => (5int, online_id, Seq::<char>::empty()),
        RemoteId::Xbox(id) => (6int, id, Seq::<char>::empty()),
        RemoteId::QQ(id) => (7int, id, Seq::<char>::empty()),
    }
}

/// `spec_eq` coincides with equality of spec keys.
pub proof fn lemma_player_key_eq(a: PlayerId, b: PlayerId)
    ensures
        a.spec_eq(b) == (player_key(a) == player_key(b)),
{
}

/// No two entries name the same player.
pub open spec fn player_keys_distinct<T>(s: Seq<(PlayerId, T)>) -> bool {
    forall|i: int, j: int|
        0 <= i < j < s.len() ==> player_key(s[i].0) != player_key(s[j].0)
}

/// Some entry names the player with this key.
pub open spec fn pseq_has_key<T>(s: Seq<(PlayerId, T)>, k: (int, u64, Seq<char>)) -> bool {
    exists|i: int| 0 <= i < s.len() && player_key(s[i].0) == k
}

/// The index of the entry naming the player, where one exists.
pub open spec fn pseq_key_index<T>(s: Seq<(PlayerId, T)>, k: (int, u64, Seq<char>)) -> int {
    choose|i: int| 0 <= i < s.len() && player_key(s[i].0) == k
}

/// The association sequence read as a map from spec keys.
pub open spec fn pseq_as_map<T>(s: Seq<(PlayerId, T)>) -> Map<(int, u64, Seq<char>), T> {
    Map::new(|k: (int, u64, Seq<char>)| pseq_has_key(s, k), |k| s[pseq_key_index(s, k)].1)
}

pub proof fn lemma_pkey_index<T>(s: Seq<(PlayerId, T)>, k: (int, u64, Seq<char>))
    requires
        player_keys_distinct(s),
        pseq_has_key(s, k),
    ensures
        0 <= pseq_key_index(s, k) < s.len(),
        player_key(s[pseq_key_index(s, k)].0) == k,
        forall|i: int| 0 <= i < s.len() && player_key(s[i].0) == k ==> i == pseq_key_index(s, k),
{
    let idx = pseq_key_index(s, k);
    assert(0 <= idx < s.len() && player_key(s[idx].0) == k);
    assert forall|i: int| 0 <= i < s.len() && player_key(s[i].0) == k implies i == idx by {
        if i != idx {
            if i < idx {
                assert(player_key(s[i].0) != player_key(s[idx].0));
            } else {
                assert(player_key(s[idx].0) != player_key(s[i].0));
            }
        }
    }
}

pub proof fn lemma_ppush_fresh<T>(s: Seq<(PlayerId, T)>, p: PlayerId, v: T)
    requires
        player_keys_distinct(s),
        !pseq_has_key(s, player_key(p)),
    ensures
        player_keys_distinct(s.push((p, v))),
        pseq_as_map(s.push((p, v))) == pseq_as_map(s).insert(player_key(p), v),
{
    let k = player_key(p);
    let t = s.push((p, v));
    assert forall|i: int, j: int| 0 <= i < j < t.len() implies player_key(t[i].0) != player_key(
        t[j].0,
    ) by {
        if j == s.len() {
            assert(t[i] == s[i]);
            if player_key(s[i].0) == k {
                assert(pseq_has_key(s, k));
            }
        } else {
            assert(t[i] == s[i] && t[j] == s[j]);
        }
    }
    assert forall|x: (int, u64, Seq<char>)| #[trigger]
        pseq_has_key(t, x) implies pseq_has_key(s, x) || x == k by {
        let i = choose|i: int| 0 <= i < t.len() && player_key(t[i].0) == x;
        if i < s.len() {
            assert(player_key(s[i].0) == x);
        }
    }
    assert forall|x: (int, u64, Seq<char>)| pseq_has_key(s, x) implies #[trigger]
        pseq_has_key(t, x) by {
        let i = choose|i: int| 0 <= i < s.len() && player_key(s[i].0) == x;
        assert(player_key(t[i].0) == x);
    }
    assert(player_key(t[s.len() as int].0) == k);
    assert(pseq_has_key(t, k));
    assert forall|x: (int, u64, Seq<char>)| #[trigger] pseq_has_key(t, x) implies pseq_as_map(
        t,
    )[x] == pseq_as_map(s).insert(k, v)[x] by {
        lemma_pkey_index(t, x);
        let it = pseq_key_index(t, x);
        if x == k {
            assert(it == s.len()) by {
                if it < s.len() {
                    assert(player_key(s[it].0) == k);
                    assert(pseq_has_key(s, k));
                }
            }
            assert(t[it].1 == v);
        } else {
            assert(it < s.len());
            assert(player_key(s[it].0) == x);
            assert(pseq_has_key(s, x));
            lemma_pkey_index(s, x);
            assert(pseq_key_index(s, x) == it);
        }
    }
    assert(pseq_as_map(t) =~= pseq_as_map(s).insert(k, v));
}

pub proof fn lemma_pupdate_value<T>(s: Seq<(PlayerId, T)>, i: int, v: T)
    requires
        player_keys_distinct(s),
        0 <= i < s.len(),
    ensures
        player_keys_distinct(s.update(i, (s[i].0, v))),
        pseq_as_map(s.update(i, (s[i].0, v))) == pseq_as_map(s).insert(player_key(s[i].0), v),
{
    let k = player_key(s[i].0);
    let t = s.update(i, (s[i].0, v));
    assert(forall|j: int| 0 <= j < t.len() ==> player_key(t[j].0) == player_key(s[j].0));
    assert forall|x: (int, u64, Seq<char>)| #[trigger] pseq_has_key(t, x) == pseq_has_key(
        s,
        x,
    ) by {
        if pseq_has_key(t, x) {
            let j = choose|j: int| 0 <= j < t.len() && player_key(t[j].0) == x;
            assert(player_key(s[j].0) == x);
        }
        if pseq_has_key(s, x) {
            let j = choose|j: int| 0 <= j < s.len() && player_key(s[j].0) == x;
            assert(player_key(t[j].0) == x);
        }
    }
    assert forall|x: (int, u64, Seq<char>)| #[trigger] pseq_has_key(t, x) implies pseq_as_map(
        t,
    )[x] == pseq_as_map(s).insert(k, v)[x] by {
        lemma_pkey_index(t, x);
        lemma_pkey_index(s, x);
        let it = pseq_key_index(t, x);
        let is = pseq_key_index(s, x);
        assert(player_key(s[it].0) == x);
        assert(is == it);
        if x == k {
            assert(it == i) by {
                assert(player_key(s[i].0) == k);
            }
            assert(t[it].1 == v);
        } else {
            assert(it != i);
            assert(t[it].1 == s[is].1);
        }
    }
    assert(pseq_as_map(t) =~= pseq_as_map(s).insert(k, v));
}

/// Byte-lexicographic order on byte sequences.
pub open spec fn bytes_le(x: Seq<u8>, y: Seq<u8>) -> bool
    decreases x.len(),
{
    if x.len() == 0 {
        true
    } else if y.len() == 0 {
        false
    } else if x[0] < y[0] {
        true
    } else if x[0] > y[0] {
        false
    } else {
        bytes_le(x.drop_first(), y.drop_first())
    }
}

pub proof fn lemma_bytes_le_total(x: Seq<u8>, y: Seq<u8>)
    ensures
        bytes_le(x, y) || bytes_le(y, x),
    decreases x.len(),
{
    if x.len() != 0 && y.len() != 0 && x[0] == y[0] {
        lemma_bytes_le_total(x.drop_first(), y.drop_first());
    }
}

/// The platform rank used by the deterministic roster order.
pub open spec fn player_rank(p: PlayerId) -> int {
    player_key(p).0
}

/// The name bytes used by the deterministic roster order.
pub open spec fn player_name_bytes(p: PlayerId) -> Seq<u8> {
    vstd::utf8::encode_utf8(player_key(p).2)
}

/// The deterministic total preorder on player ids: platform rank, then
/// numeric id, then name bytes.
pub open spec fn player_le(a: PlayerId, b: PlayerId) -> bool {
    let (ra, ia, _) = player_key(a);
    let (rb, ib, _) = player_key(b);
    ||| ra < rb
    ||| (ra == rb && ia < ib)
    ||| (ra == rb && ia == ib && bytes_le(player_name_bytes(a), player_name_bytes(b)))
}

/// The roster order relates every two player ids one way or the other.
pub proof fn lemma_player_le_total(a: PlayerId, b: PlayerId)
    ensures
        player_le(a, b) || player_le(b, a),
{
    lemma_bytes_le_total(player_name_bytes(a), player_name_bytes(b));
}

pub proof fn lemma_bytes_le_trans(x: Seq<u8>, y: Seq<u8>, z: Seq<u8>)
    requires
        bytes_le(x, y),
        bytes_le(y, z),
    ensures
        bytes_le(x, z),
    decreases x.len(),
{
    if x.len() != 0 && z.len() != 0 {
        assert(y.len() != 0);
        if x[0] == y[0] && y[0] == z[0] {
            lemma_bytes_le_trans(x.drop_first(), y.drop_first(), z.drop_first());
        }
    }
}

pub proof fn lemma_bytes_le_antisymmetric(x: Seq<u8>, y: Seq<u8>)
    requires
        bytes_le(x, y),
        bytes_le(y, x),
    ensures
        x == y,
    decreases x.len(),
{
    if x.len() == 0 {
        assert(y.len() == 0);
        assert(x =~= y);
    } else {
        assert(y.len() != 0);
        assert(x[0] == y[0]);
        lemma_bytes_le_antisymmetric(x.drop_first(), y.drop_first());
        assert(forall|i: int| 1 <= i < x.len() ==> #[trigger] x[i] == x.drop_first()[i - 1]);
        assert(forall|i: int| 1 <= i < y.len() ==> #[trigger] y[i] == y.drop_first()[i - 1]);
        assert(x =~= y);
    }
}

pub proof fn lemma_player_le_trans(a: PlayerId, b: PlayerId, c: PlayerId)
    requires
        player_le(a, b),
        player_le(b, c),
    ensures
        player_le(a, c),
{
    let ka = player_key(a);
    let kb = player_key(b);
    let kc = player_key(c);
    if ka.0 == kc.0 {
        assert(ka.0 == kb.0 && kb.0 == kc.0);
        if ka.1 == kc.1 {
            assert(ka.1 == kb.1 && kb.1 == kc.1);
            lemma_bytes_le_trans(player_name_bytes(a), player_name_bytes(b), player_name_bytes(c));
        } else {
            assert(ka.1 < kc.1);
        }
    } else {
        assert(ka.0 < kc.0);
    }
}

/// Two player ids each at or below the other in the roster order name the
/// same player.
pub proof fn lemma_player_le_antisymmetric(a: PlayerId, b: PlayerId)
    requires
        player_le(a, b),
        player_le(b, a),
    ensures
        player_key(a) == player_key(b),
{
    lemma_bytes_le_antisymmetric(player_name_bytes(a), player_name_bytes(b));
    vstd::utf8::encode_utf8_decode_utf8(player_key(a).2);
    vstd::utf8::encode_utf8_decode_utf8(player_key(b).2);
}

/// In a roster with every neighbouring pair in order, every earlier player
/// is at or below every later one.
pub proof fn lemma_sorted_le_at(s: Seq<PlayerId>, i: int, j: int)
    requires
        sorted_by_player_le(s),
        0 <= i <= j < s.len(),
    ensures
        i < j ==> player_le(s[i], s[j]),
    decreases j - i,
{
    if i < j {
        lemma_sorted_le_at(s, i, j - 1);
        if i < j - 1 {
            lemma_player_le_trans(s[i], s[j - 1], s[j]);
        }
    }
}

/// Player-order stability: a roster sorted into the deterministic order is
/// determined by the set of its players alone. Two sorted rosters holding
/// the same players — with no player repeated — are equal position by
/// position, so two runs over the same replay fix the same order.
pub proof fn lemma_sorted_rosters_equal(s: Seq<PlayerId>, t: Seq<PlayerId>)
    requires
        sorted_by_player_le(s),
        sorted_by_player_le(t),
        s.to_multiset() == t.to_multiset(),
        forall|i: int, j: int|
            0 <= i < j < s.len() ==> player_key(#[trigger] s[i]) != player_key(#[trigger] s[j]),
    ensures
        s == t,
    decreases s.len(),
{
    broadcast use vstd::seq_lib::group_to_multiset_ensures;

    assert(s.to_multiset().len() == s.len());
    assert(t.to_multiset().len() == t.len());
    if s.len() == 0 {
        assert(t.len() == 0);
        assert(s =~= t);
    } else {
        assert(t.len() == s.len());
        assert(t.to_multiset().count(s[0]) > 0) by {
            assert(s.contains(s[0]));
        }
        assert(t.contains(s[0]));
        let j = choose|j: int| 0 <= j < t.len() && t[j] == s[0];
        assert(s.to_multiset().count(t[0]) > 0) by {
            assert(t.contains(t[0]));
        }
        assert(s.contains(t[0]));
        let k = choose|k: int| 0 <= k < s.len() && s[k] == t[0];
        lemma_sorted_le_at(s, 0, k);
        lemma_sorted_le_at(t, 0, j);
        assert(t[0] == s[0]) by {
            if k != 0 {
                assert(player_le(s[0], s[k]));
                assert(player_le(t[0], t[j]));
                lemma_player_le_antisymmetric(s[0], s[k]);
                assert(player_key(s[0]) != player_key(s[k]));
                assert(false);
            }
        }
        let s1 = s.drop_first();
        let t1 = t.drop_first();
        assert(sorted_by_player_le(s1)) by {
            assert(forall|i: int| 0 <= i < s1.len() ==> #[trigger] s1[i] == s[i + 1]);
        }
        assert(sorted_by_player_le(t1)) by {
            assert(forall|i: int| 0 <= i < t1.len() ==> #[trigger] t1[i] == t[i + 1]);
        }
        assert(s1.to_multiset() == t1.to_multiset()) by {
            assert(s1 =~= s.remove(0));
            assert(t1 =~= t.remove(0));
            assert(s.remove(0).to_multiset() =~= s.to_multiset().remove(s[0]));
            assert(t.remove(0).to_multiset() =~= t.to_multiset().remove(t[0]));
        }
        assert(forall|i: int, j2: int|
            0 <= i < j2 < s1.len() ==> player_key(#[trigger] s1[i]) != player_key(
                #[trigger] s1[j2],
            )) by {
            assert(forall|i: int| 0 <= i < s1.len() ==> #[trigger] s1[i] == s[i + 1]);
        }
        lemma_sorted_rosters_equal(s1, t1);
        assert forall|i: int| 0 <= i < s.len() implies #[trigger] s[i] == t[i] by {
            if i > 0 {
                assert(s1[i - 1] == s[i]);
                assert(t1[i - 1] == t[i]);
                assert(s1[i - 1] == t1[i - 1]);
            }
        }
        assert(s =~= t);
    }
}

/// A permutation of a roster with pairwise-distinct player keys has
/// pairwise-distinct player keys itself.
pub proof fn lemma_key_distinct_permutation(s: Seq<PlayerId>, t: Seq<PlayerId>)
    requires
        t.to_multiset() == s.to_multiset(),
        forall|i: int, j: int|
            0 <= i < j < s.len() ==> player_key(#[trigger] s[i]) != player_key(#[trigger] s[j]),
    ensures
        forall|i: int, j: int|
            0 <= i < j < t.len() ==> player_key(#[trigger] t[i]) != player_key(#[trigger] t[j]),
{
    broadcast use vstd::seq_lib::group_to_multiset_ensures;

    assert(s.no_duplicates()) by {
        assert forall|i: int, j: int| 0 <= i < j < s.len() implies #[trigger] s[i] != #[trigger] s[j] by {
            assert(player_key(s[i]) != player_key(s[j]));
        }
    }
    s.lemma_multiset_has_no_duplicates();
    t.lemma_multiset_has_no_duplicates_conv();
    assert forall|i: int, j: int| 0 <= i < j < t.len() implies player_key(#[trigger] t[i])
        != player_key(#[trigger] t[j]) by {
        assert(t[i] != t[j]);
        if player_key(t[i]) == player_key(t[j]) {
            assert(t.contains(t[i]) && t.contains(t[j]));
            assert(t.to_multiset().count(t[i]) > 0 && t.to_multiset().count(t[j]) > 0);
            assert(s.to_multiset().count(t[i]) > 0 && s.to_multiset().count(t[j]) > 0);
            assert(s.contains(t[i]) && s.contains(t[j]));
            let a = choose|a: int| 0 <= a < s.len() && s[a] == t[i];
            let b = choose|b: int| 0 <= b < s.len() && s[b] == t[j];
            assert(a != b);
            if a < b {
                assert(player_key(s[a]) != player_key(s[b]));
            } else {
                assert(player_key(s[b]) != player_key(s[a]));
            }
        }
    }
}

/// Byte-lexicographic comparison of two strings.
pub fn str_bytes_le(a: &String, b: &String) -> (r: bool)
    ensures
        r == bytes_le(vstd::utf8::encode_utf8(a@), vstd::utf8::encode_utf8(b@)),
{
    let xa = a.as_str().as_bytes();
    let yb = b.as_str().as_bytes();
    let ghost xs = vstd::utf8::encode_utf8(a@);
    let ghost ys = vstd::utf8::encode_utf8(b@);
    proof {
        assert(xa@ == xs && yb@ == ys);
        assert(xs.skip(0) =~= xs);
        assert(ys.skip(0) =~= ys);
    }
    let mut i: usize = 0;
    loop
        invariant
            i <= xa@.len(),
            i <= yb@.len(),
            xa@ == xs,
            yb@ == ys,
            xs == vstd::utf8::encode_utf8(a@),
            ys == vstd::utf8::encode_utf8(b@),
            bytes_le(xs, ys) == bytes_le(xs.skip(i as int), ys.skip(i as int)),
        decreases xa@.len() - i,
    {
        if i >= xa.len() {
            proof {
                assert(xs.skip(i as int).len() == 0);
                assert(bytes_le(xs.skip(i as int), ys.skip(i as int)));
            }
            return true;
        }
        if i >= yb.len() {
            proof {
                assert(ys.skip(i as int).len() == 0);
                assert(xs.skip(i as int).len() > 0);
                assert(!bytes_le(xs.skip(i as int), ys.skip(i as int)));
            }
            return false;
        }
        proof {
            assert(xs.skip(i as int)[0] == xs[i as int]);
            assert(ys.skip(i as int)[0] == ys[i as int]);
            assert(xs.skip(i as int).len() > 0 && ys.skip(i as int).len() > 0);
        }
        if xa[i] < yb[i] {
            proof {
                assert(bytes_le(xs.skip(i as int), ys.skip(i as int)));
            }
            return true;
        }
        if xa[i] > yb[i] {
            proof {
                assert(!bytes_le(xs.skip(i as int), ys.skip(i as int)));
            }
            return false;
        }
        proof {
            assert(xs.skip(i as int).drop_first() =~= xs.skip(i as int + 1));
            assert(ys.skip(i as int).drop_first() =~= ys.skip(i as int + 1));
        }
        i += 1;
    }
}

/// Compares two player ids in the deterministic roster order.
pub fn player_id_le(a: &PlayerId, b: &PlayerId) -> (r: bool)
    ensures
        r == player_le(*a, *b),
{
    let ra = player_rank_exec(a);
    let rb = player_rank_exec(b);
    if ra < rb {
        return true;
    }
    if ra > rb {
        return false;
    }
    let ia = player_online_id_exec(a);
    let ib = player_online_id_exec(b);
    if ia < ib {
        return true;
    }
    if ia > ib {
        return false;
    }
    match (a, b) {
        (RemoteId::Epic(na), RemoteId::Epic(nb)) => str_bytes_le(na, nb),
        (
            RemoteId::PlayStation { name: na, .. },
            RemoteId::PlayStation { name: nb, .. },
        ) => str_bytes_le(na, nb),
        _ => {
            proof {
                assert(player_name_bytes(*a) =~= Seq::<u8>::empty());
            }
            true
        },
    }
}

/// The platform rank, executable.
fn player_rank_exec(p: &PlayerId) -> (r: u8)
    ensures
        r as int == player_rank(*p),
{
    match p {
        RemoteId::Epic(_) => 0,
        RemoteId::PlayStation { .. } => 1,
        RemoteId::PsyNet { .. } => 2,
        RemoteId::SplitScreen(_) => 3,
        RemoteId::Steam(_) => 4,
        RemoteId::Switch { .. } => 5,
        RemoteId::Xbox(_) => 6,
        RemoteId::QQ(_) => 7,
    }
}

/// The numeric id component, executable.
fn player_online_id_exec(p: &PlayerId) -> (r: u64)
    ensures
        r == player_key(*p).1,
{
    match p {
        RemoteId::Epic(_) => 0,
        RemoteId::PlayStation { online_id, .. } => *online_id,
        RemoteId::PsyNet { online_id } => *online_id,
        RemoteId::SplitScreen(id) => *id as u64,
        RemoteId::Steam(id) => *id,
        RemoteId::Switch { online_id } => *online_id,
        RemoteId::Xbox(id) => *id,
        RemoteId::QQ(id) => *id,
    }
}

/// Each neighbouring pair is in order.
pub open spec fn sorted_by_player_le(s: Seq<PlayerId>) -> bool {
    forall|i: int| 0 <= i < s.len() - 1 ==> player_le(#[trigger] s[i], s[i + 1])
}

/// Sorts player ids into the deterministic roster order: the result is a
/// permutation of the input with every neighbouring pair in order.
pub fn sort_player_ids(v: &Vec<PlayerId>) -> (r: Vec<PlayerId>)
    ensures
        r@.to_multiset() == v@.to_multiset(),
        r@.len() == v@.len(),
        sorted_by_player_le(r@),
{
    broadcast use vstd::seq_lib::group_to_multiset_ensures;

    let mut out: Vec<PlayerId> = Vec::new();
    let n = v.len();
    proof {
        assert(v@.take(0) =~= Seq::<PlayerId>::empty());
        assert(out@.to_multiset() =~= v@.take(0).to_multiset());
    }
    for i in 0..n
        invariant
            n == v@.len(),
            out@.len() == i,
            out@.to_multiset() == v@.take(i as int).to_multiset(),
            sorted_by_player_le(out@),
    {
        broadcast use vstd::seq_lib::group_to_multiset_ensures;

        let elem = v[i].duplicate();
        let m = out.len();
        let mut pos: usize = 0;
        while pos < m && !player_id_le(&elem, &out[pos])
            invariant
                m == out@.len(),
                pos <= m,
                forall|j: int| 0 <= j < pos ==> !player_le(elem, #[trigger] out@[j]),
            decreases m - pos,
        {
            pos += 1;
        }
        proof {
            assert(pos == m || player_le(elem, out@[pos as int]));
        }
        let ghost out_before = out@;
        out.insert(pos, elem);
        proof {
            assert(out@ == out_before.insert(pos as int, elem));
            assert(sorted_by_player_le(out@)) by {
                assert forall|j: int| 0 <= j < out@.len() - 1 implies player_le(
                    #[trigger] out@[j],
                    out@[j + 1],
                ) by {
                    if j < pos - 1 {
                        assert(out@[j] == out_before[j] && out@[j + 1] == out_before[j + 1]);
                    } else if j == pos - 1 {
                        assert(out@[j] == out_before[j] && out@[j + 1] == elem);
                        assert(!player_le(elem, out_before[j]));
                        lemma_player_le_total(elem, out_before[j]);
                    } else if j == pos {
                        assert(out@[j] == elem);
                        assert(pos < m);
                        assert(out@[j + 1] == out_before[pos as int]);
                        assert(player_le(elem, out_before[pos as int]));
                    } else {
                        assert(out@[j] == out_before[j - 1] && out@[j + 1] == out_before[j]);
                    }
                }
            }
            assert(out@.to_multiset() == out_before.to_multiset().insert(elem)) by {
                assert(out@.remove(pos as int) =~= out_before);
                assert(out@[pos as int] == elem);
                assert(out@.to_multiset().contains(elem)) by {
                    assert(out@.contains(elem)) by {
                        assert(out@[pos as int] == elem);
                    }
                }
                assert(out@.remove(pos as int).to_multiset() =~= out@.to_multiset().remove(elem));
                assert(out_before.to_multiset().insert(elem) =~= out@.to_multiset().remove(
                    elem,
                ).insert(elem));
                assert(out@.to_multiset().remove(elem).insert(elem) =~= out@.to_multiset());
            }
            assert(v@.take(i as int + 1).drop_last() =~= v@.take(i as int));
            assert(v@.take(i as int + 1) =~= v@.take(i as int).push(v@[i as int]));
            assert(v@.take(i as int + 1).to_multiset() =~= v@.take(i as int).to_multiset().insert(
                v@[i as int],
            ));
        }
    }
    proof {
        assert(v@.take(n as int) =~= v@);
    }
    out
}

/// An ordered association map from player ids to values.
#[derive(Debug)]
pub struct PlayerMap<T> {
    entries: Vec<(PlayerId, T)>,
}

impl<T> View for PlayerMap<T> {
    type V = Map<(int, u64, Seq<char>), T>;

    closed spec fn view(&self) -> Map<(int, u64, Seq<char>), T> {
        pseq_as_map(self.entries@)
    }
}

impl<T> PlayerMap<T> {
    /// The entries in insertion order.
    pub closed spec fn entries_seq(self) -> Seq<(PlayerId, T)> {
        self.entries@
    }

    /// Well-formed: no player occurs twice.
    pub open spec fn wf(self) -> bool {
        player_keys_distinct(self.entries_seq())
    }

    /// The view's keys are exactly the keys of the sequence.
    pub proof fn lemma_view_has_key(self, k: (int, u64, Seq<char>))
        ensures
            self@.contains_key(k) == pseq_has_key(self.entries_seq(), k),
    {
    }

    /// Every entry of the sequence is in the view.
    pub proof fn lemma_entry_in_view(self, i: int)
        requires
            self.wf(),
            0 <= i < self.entries_seq().len(),
        ensures
            self@.contains_key(player_key(self.entries_seq()[i].0)),
            self@[player_key(self.entries_seq()[i].0)] == self.entries_seq()[i].1,
    {
        let s = self.entries_seq();
        assert(pseq_has_key(s, player_key(s[i].0)));
        lemma_pkey_index(s, player_key(s[i].0));
    }

    pub fn new() -> (r: PlayerMap<T>)
        ensures
            r.wf(),
            r@ == Map::<(int, u64, Seq<char>), T>::empty(),
            r.entries_seq() == Seq::<(PlayerId, T)>::empty(),
    {
        let r = PlayerMap { entries: Vec::new() };
        proof {
            assert(r@ =~= Map::<(int, u64, Seq<char>), T>::empty());
        }
        r
    }

    pub fn len(&self) -> (n: usize)
        ensures
            n == self.entries_seq().len(),
    {
        self.entries.len()
    }

    /// The position of the entry naming the player, if any.
    pub fn get_index(&self, p: &PlayerId) -> (r: Option<usize>)
        requires
            self.wf(),
        ensures
            match r {
                Some(i) => {
                    &&& i < self.entries_seq().len()
                    &&& player_key(self.entries_seq()[i as int].0) == player_key(*p)
                    &&& i == pseq_key_index(self.entries_seq(), player_key(*p))
                    &&& self@.contains_key(player_key(*p))
                },
                None => !self@.contains_key(player_key(*p)),
            },
    {
        let n = self.entries.len();
        for i in 0..n
            invariant
                n == self.entries_seq().len(),
                self.wf(),
                forall|j: int| 0 <= j < i ==> player_key(self.entries_seq()[j].0) != player_key(*p),
        {
            if self.entries[i].0 == *p {
                proof {
                    lemma_player_key_eq(self.entries_seq()[i as int].0, *p);
                    lemma_pkey_index(self.entries_seq(), player_key(*p));
                }
                return Some(i);
            }
            proof {
                lemma_player_key_eq(self.entries_seq()[i as int].0, *p);
            }
        }
        proof {
            if pseq_has_key(self.entries_seq(), player_key(*p)) {
                let j = pseq_key_index(self.entries_seq(), player_key(*p));
                lemma_pkey_index(self.entries_seq(), player_key(*p));
                assert(player_key(self.entries_seq()[j].0) != player_key(*p));
            }
        }
        None
    }

    pub fn contains_key(&self, p: &PlayerId) -> (r: bool)
        requires
            self.wf(),
        ensures
            r == self@.contains_key(player_key(*p)),
    {
        self.get_index(p).is_some()
    }

    pub fn get(&self, p: &PlayerId) -> (r: Option<&T>)
        requires
            self.wf(),
        ensures
            match r {
                Some(v) => self@.contains_key(player_key(*p)) && *v == self@[player_key(*p)],
                None => !self@.contains_key(player_key(*p)),
            },
    {
        match self.get_index(p) {
            Some(i) => {
                proof {
                    self.lemma_entry_in_view(i as int);
                }
                Some(&self.entries[i].1)
            },
            None => None,
        }
    }

    /// Inserts or replaces. An existing player keeps its position; a new
    /// player is appended.
    pub fn insert(&mut self, p: PlayerId, v: T)
        requires
            old(self).wf(),
        ensures
            final(self).wf(),
            final(self)@ == old(self)@.insert(player_key(p), v),
            old(self)@.contains_key(player_key(p)) ==> final(self).entries_seq() == old(
                self,
            ).entries_seq().update(
                pseq_key_index(old(self).entries_seq(), player_key(p)),
                (old(self).entries_seq()[pseq_key_index(
                    old(self).entries_seq(),
                    player_key(p),
                )].0, v),
            ),
            !old(self)@.contains_key(player_key(p)) ==> final(self).entries_seq() == old(
                self,
            ).entries_seq().push((p, v)),
    {
        match self.get_index(&p) {
            Some(i) => {
                let ghost s = self.entries_seq();
                proof {
                    lemma_pupdate_value(s, i as int, v);
                }
                let (k0, _old) = self.entries.remove(i);
                self.entries.insert(i, (k0, v));
                proof {
                    assert(self.entries_seq() =~= s.update(i as int, (s[i as int].0, v)));
                }
            },
            None => {
                proof {
                    lemma_ppush_fresh(self.entries_seq(), p, v);
                }
                self.entries.push((p, v));
            },
        }
    }

    /// The player naming the entry at a position.
    pub fn key_at(&self, i: usize) -> (p: &PlayerId)
        requires
            i < self.entries_seq().len(),
        ensures
            *p == self.entries_seq()[i as int].0,
    {
        &self.entries[i].0
    }

    /// The value of the entry at a position.
    pub fn value_at(&self, i: usize) -> (v: &T)
        requires
            i < self.entries_seq().len(),
        ensures
            *v == self.entries_seq()[i as int].1,
    {
        &self.entries[i].1
    }

    /// Checks at run time that no player occurs twice.
    pub fn check_distinct(&self) -> (r: bool)
        ensures
            r == self.wf(),
    {
        let n = self.entries.len();
        for i in 0..n
            invariant
                n == self.entries_seq().len(),
                forall|a: int, b: int|
                    0 <= a < b < n && a < i ==> player_key(
                        (#[trigger] self.entries_seq()[a]).0,
                    ) != player_key((#[trigger] self.entries_seq()[b]).0),
        {
            for j in (i + 1)..n
                invariant
                    n == self.entries_seq().len(),
                    i < n,
                    forall|a: int, b: int|
                        0 <= a < b < n && a < i ==> player_key(
                            (#[trigger] self.entries_seq()[a]).0,
                        ) != player_key((#[trigger] self.entries_seq()[b]).0),
                    forall|b: int|
                        i < b < j ==> player_key((#[trigger] self.entries_seq()[b]).0)
                            != player_key(self.entries_seq()[i as int].0),
            {
                proof {
                    lemma_player_key_eq(
                        self.entries_seq()[i as int].0,
                        self.entries_seq()[j as int].0,
                    );
                }
                if self.entries[i].0 == self.entries[j].0 {
                    return false;
                }
            }
        }
        proof {
            if !self.wf() {
                let (a, b) = choose|a: int, b: int|
                    0 <= a < b < self.entries_seq().len() && player_key(
                        (#[trigger] self.entries_seq()[a]).0,
                    ) == player_key((#[trigger] self.entries_seq()[b]).0);
                assert(player_key(self.entries_seq()[a].0) != player_key(
                    self.entries_seq()[b].0,
                ));
            }
        }
        true
    }

    /// Replaces the value at a position, returning the old value. The player
    /// and the position are unchanged.
    pub fn replace_value_at(&mut self, i: usize, v: T) -> (r: T)
        requires
            old(self).wf(),
            i < old(self).entries_seq().len(),
        ensures
            final(self).wf(),
            r == old(self).entries_seq()[i as int].1,
            final(self).entries_seq() == old(self).entries_seq().update(
                i as int,
                (old(self).entries_seq()[i as int].0, v),
            ),
            final(self)@ == old(self)@.insert(player_key(old(self).entries_seq()[i as int].0), v),
    {
        let ghost s = self.entries_seq();
        proof {
            lemma_pupdate_value(s, i as int, v);
        }
        let (k0, r) = self.entries.remove(i);
        self.entries.insert(i, (k0, v));
        proof {
            assert(self.entries_seq() =~= s.update(i as int, (s[i as int].0, v)));
        }
        r
    }
}

} // verus!
