//! Models the state of every actor across the replay: creation, attribute
//! updates and deletion, together with an inverse index from object ids to
//! the live actors of that type.

use vstd::prelude::*;

use crate::error::{SubtrActorError, SubtrActorErrorVariant, SubtrActorResult};
use crate::model::{ActorId, Attribute, Frame, Milli, NewActor, ObjectId, UpdatedAttribute};
use crate::vec_map::IdMap;

verus! {

/// No id occurs twice.
pub open spec fn distinct_ids(s: Seq<i32>) -> bool {
    forall|i: int, j: int| 0 <= i < j < s.len() ==> s[i] != s[j]
}

/// The id occurs somewhere.
pub open spec fn has_id(s: Seq<i32>, k: i32) -> bool {
    exists|i: int| 0 <= i < s.len() && s[i] == k
}

/// An index at which the id occurs.
pub open spec fn id_index(s: Seq<i32>, k: i32) -> int {
    choose|i: int| 0 <= i < s.len() && s[i] == k
}

pub proof fn lemma_id_index(s: Seq<i32>, k: i32)
    requires
        distinct_ids(s),
        has_id(s, k),
    ensures
        0 <= id_index(s, k) < s.len(),
        s[id_index(s, k)] == k,
        forall|i: int| 0 <= i < s.len() && s[i] == k ==> i == id_index(s, k),
{
    let idx = id_index(s, k);
    assert(0 <= idx < s.len() && s[idx] == k);
    assert forall|i: int| 0 <= i < s.len() && s[i] == k implies i == idx by {
        if i < idx {
            assert(s[i] != s[idx]);
        }
        if idx < i {
            assert(s[idx] != s[i]);
        }
    }
}

/// The sequence with the (unique) occurrence of the id removed; unchanged
/// when the id does not occur.
pub open spec fn remove_id(s: Seq<i32>, k: i32) -> Seq<i32> {
    if has_id(s, k) {
        s.remove(id_index(s, k))
    } else {
        s
    }
}

/// Derived values the engine stores beside the wire attributes of an actor:
/// the continuous boost level in milli-units and the shadow of the last
/// wire-observed discrete boost byte, each with the frame it was set at.
#[derive(Debug, Clone)]
pub struct DerivedAttributes {
    pub boost_amount: Option<(Milli, usize)>,
    pub last_boost_amount: Option<(u8, usize)>,
}

/// The state of one actor.
#[derive(Debug)]
pub struct ActorState {
    /// The actor's wire attributes, keyed by the updated object id, each with
    /// the frame of its last update.
    pub attributes: IdMap<(Attribute, usize)>,
    /// Values the engine derives and stores on the actor.
    pub derived_attributes: DerivedAttributes,
    /// The object (class) of the actor; immutable for its life.
    pub object_id: ObjectId,
    /// Optional name id carried by the creation.
    pub name_id: Option<i32>,
}

/// The mathematical content of an actor's state.
#[verifier::ext_equal]
pub struct ActorStateView {
    pub attributes: Map<i32, (Attribute, usize)>,
    pub boost_amount: Option<(Milli, usize)>,
    pub last_boost_amount: Option<(u8, usize)>,
    pub object_id: ObjectId,
    pub name_id: Option<i32>,
}

impl View for ActorState {
    type V = ActorStateView;

    open spec fn view(&self) -> ActorStateView {
        ActorStateView {
            attributes: self.attributes@,
            boost_amount: self.derived_attributes.boost_amount,
            last_boost_amount: self.derived_attributes.last_boost_amount,
            object_id: self.object_id,
            name_id: self.name_id,
        }
    }
}

/// The view of a freshly created actor.
pub open spec fn fresh_actor_view(new_actor: NewActor) -> ActorStateView {
    ActorStateView {
        attributes: Map::empty(),
        boost_amount: None,
        last_boost_amount: None,
        object_id: new_actor.object_id,
        name_id: new_actor.name_id,
    }
}

impl ActorState {
    /// The actor's own well-formedness: its attribute map holds each key
    /// once, every stored attribute is within the engine's scalar ranges,
    /// and the derived boost level is within `[0, 255]` units.
    pub open spec fn wf(self) -> bool {
        &&& self.attributes.wf()
        &&& forall|o: i32| #[trigger]
            self.attributes@.contains_key(o) ==> crate::util::attribute_bounded(
                self.attributes@[o].0,
            )
        &&& match self.derived_attributes.boost_amount {
            Some(p) => 0 <= p.0 <= 255_000,
            None => true,
        }
    }

    /// Creates the state of a freshly announced actor.
    pub fn new(new_actor: &NewActor) -> (r: ActorState)
        ensures
            r.wf(),
            r@ == fresh_actor_view(*new_actor),
    {
        let r = ActorState {
            attributes: IdMap::new(),
            derived_attributes: DerivedAttributes { boost_amount: None, last_boost_amount: None },
            object_id: new_actor.object_id,
            name_id: new_actor.name_id,
        };
        r
    }
}

/// The mathematical content of the whole modeler: the forward map from actor
/// ids to their states, and the inverse index from object ids to the live
/// actors of that type.
#[verifier::ext_equal]
pub struct ModelerView {
    pub states: Map<i32, ActorStateView>,
    pub by_type: Map<i32, Seq<i32>>,
}

/// Referential integrity between the forward map and the inverse index:
/// every live actor is indexed under its own object id, no inverse entry
/// repeats an id, and every indexed id is live with that object id. Together
/// these say each live actor id appears exactly once in the whole inverse
/// index, under its object id.
pub open spec fn modeler_view_wf(v: ModelerView) -> bool {
    &&& forall|k: i32| #[trigger]
        v.states.contains_key(k) ==> v.by_type.contains_key(v.states[k].object_id) && has_id(
            v.by_type[v.states[k].object_id],
            k,
        )
    &&& forall|o: i32| #[trigger] v.by_type.contains_key(o) ==> distinct_ids(v.by_type[o])
    &&& forall|o: i32| #[trigger]
        v.by_type.contains_key(o) ==> forall|i: int|
            0 <= i < v.by_type[o].len() ==> v.states.contains_key(#[trigger] v.by_type[o][i])
                && v.states[v.by_type[o][i]].object_id == o
}

/// Models all actor states across the replay, applying creations, updates
/// and deletions frame by frame.
pub struct ActorStateModeler {
    /// Actor states keyed by actor id.
    pub actor_states: IdMap<ActorState>,
    /// The live actor ids of each object type.
    pub actor_ids_by_type: IdMap<Vec<ActorId>>,
    /// Optional readable names of object ids.
    pub object_id_to_name: IdMap<String>,
}

impl View for ActorStateModeler {
    type V = ModelerView;

    open spec fn view(&self) -> ModelerView {
        ModelerView {
            states: Map::new(
                |k: i32| self.actor_states@.contains_key(k),
                |k: i32| self.actor_states@[k]@,
            ),
            by_type: Map::new(
                |k: i32| self.actor_ids_by_type@.contains_key(k),
                |k: i32| self.actor_ids_by_type@[k]@,
            ),
        }
    }
}

impl ActorStateModeler {
    /// Well-formed: the underlying maps hold each key once, each actor state
    /// is well-formed, and the forward map and inverse index agree.
    pub open spec fn wf(self) -> bool {
        &&& self.actor_states.wf()
        &&& self.actor_ids_by_type.wf()
        &&& self.object_id_to_name.wf()
        &&& forall|k: i32| #[trigger]
            self.actor_states@.contains_key(k) ==> self.actor_states@[k].wf()
        &&& modeler_view_wf(self@)
    }

    /// Creates an empty modeler.
    pub fn new() -> (r: ActorStateModeler)
        ensures
            r.wf(),
            r@.states == Map::<i32, ActorStateView>::empty(),
            r@.by_type == Map::<i32, Seq<i32>>::empty(),
    {
        let r = ActorStateModeler {
            actor_states: IdMap::new(),
            actor_ids_by_type: IdMap::new(),
            object_id_to_name: IdMap::new(),
        };
        proof {
            assert(r@.states =~= Map::<i32, ActorStateView>::empty());
            assert(r@.by_type =~= Map::<i32, Seq<i32>>::empty());
        }
        r
    }

    /// Retrieves the readable name of an object id if one is known.
    pub fn get_object_name(&self, object_id: ObjectId) -> (r: Option<&String>)
        requires
            self.wf(),
        ensures
            match r {
                Some(n) => self.object_id_to_name@.contains_key(object_id) && *n
                    == self.object_id_to_name@[object_id],
                None => !self.object_id_to_name@.contains_key(object_id),
            },
    {
        self.object_id_to_name.get(object_id)
    }

    /// Registers a newly spawned actor. Announcing a live actor again with
    /// the same object id changes nothing; with a different object id it is
    /// an error, and the state is unchanged.
    pub fn new_actor(&mut self, new_actor: &NewActor) -> (r: SubtrActorResult<()>)
        requires
            old(self).wf(),
        ensures
            final(self).wf(),
            match r {
                Ok(_) => spec_new_actor(old(self)@, *new_actor) == Some(final(self)@),
                Err(e) => {
                    &&& spec_new_actor(old(self)@, *new_actor) is None
                    &&& final(self)@ == old(self)@
                    &&& e.variant matches SubtrActorErrorVariant::ActorIdAlreadyExists {
                        actor_id,
                        object_id,
                    } && actor_id == new_actor.actor_id && object_id == new_actor.object_id
                },
            },
    {
        let ghost pre = self@;
        match self.actor_states.get(new_actor.actor_id) {
            Some(state) => {
                if state.object_id != new_actor.object_id {
                    SubtrActorError::new_result(
                        SubtrActorErrorVariant::ActorIdAlreadyExists {
                            actor_id: new_actor.actor_id,
                            object_id: new_actor.object_id,
                        },
                    )
                } else {
                    Ok(())
                }
            },
            None => {
                let ghost oid = new_actor.object_id;
                self.actor_states.insert(new_actor.actor_id, ActorState::new(new_actor));
                proof {
                    assert(self@.states =~= pre.states.insert(
                        new_actor.actor_id,
                        fresh_actor_view(*new_actor),
                    ));
                    assert(self@.by_type =~= pre.by_type);
                }
                let ghost mid = self@;
                match self.actor_ids_by_type.get_index(new_actor.object_id) {
                    Some(i) => {
                        proof {
                            self.actor_ids_by_type.lemma_entry_in_view(i as int);
                        }
                        let mut ids = self.actor_ids_by_type.replace_value_at(i, Vec::new());
                        proof {
                            assert(ids@ == pre.by_type[oid]);
                        }
                        ids.push(new_actor.actor_id);
                        let _ = self.actor_ids_by_type.replace_value_at(i, ids);
                        proof {
                            assert(self@.states =~= mid.states);
                            assert(self@.by_type =~= pre.by_type.insert(
                                oid,
                                pre.by_type[oid].push(new_actor.actor_id),
                            ));
                        }
                    },
                    None => {
                        let mut ids: Vec<ActorId> = Vec::new();
                        ids.push(new_actor.actor_id);
                        proof {
                            assert(ids@ =~= seq![new_actor.actor_id]);
                        }
                        self.actor_ids_by_type.insert(new_actor.object_id, ids);
                        proof {
                            assert(self@.states =~= mid.states);
                            assert(self@.by_type =~= pre.by_type.insert(
                                oid,
                                seq![new_actor.actor_id],
                            ));
                        }
                    },
                }
                proof {
                    self.lemma_after_create(pre, *new_actor);
                }
                Ok(())
            },
        }
    }

    proof fn lemma_after_create(self, pre: ModelerView, new_actor: NewActor)
        requires
            !pre.states.contains_key(new_actor.actor_id),
            modeler_view_wf(pre),
            self.actor_states.wf(),
            self.actor_ids_by_type.wf(),
            forall|k: i32| #[trigger]
                self.actor_states@.contains_key(k) ==> self.actor_states@[k].wf(),
            self@.states == pre.states.insert(
                new_actor.actor_id,
                fresh_actor_view(new_actor),
            ),
            self@.by_type == pre.by_type.insert(
                new_actor.object_id,
                if pre.by_type.contains_key(new_actor.object_id) {
                    pre.by_type[new_actor.object_id].push(new_actor.actor_id)
                } else {
                    seq![new_actor.actor_id]
                },
            ),
        ensures
            modeler_view_wf(self@),
            spec_new_actor(pre, new_actor) == Some(self@),
    {
        let v = self@;
        let id = new_actor.actor_id;
        let oid = new_actor.object_id;
        let new_ids = v.by_type[oid];
        assert(has_id(new_ids, id)) by {
            if pre.by_type.contains_key(oid) {
                assert(new_ids[new_ids.len() - 1] == id);
            } else {
                assert(new_ids[0] == id);
            }
        }
        assert forall|o: i32| #[trigger] v.by_type.contains_key(o) implies distinct_ids(
            v.by_type[o],
        ) by {
            if o == oid {
                if pre.by_type.contains_key(oid) {
                    let olds = pre.by_type[oid];
                    assert forall|i: int, j: int|
                        0 <= i < j < new_ids.len() implies new_ids[i] != new_ids[j] by {
                        if j == olds.len() {
                            assert(new_ids[j] == id);
                            assert(pre.states.contains_key(olds[i]));
                        } else {
                            assert(new_ids[i] == olds[i] && new_ids[j] == olds[j]);
                        }
                    }
                }
            }
        }
        assert forall|o: i32| #[trigger] v.by_type.contains_key(o) implies forall|i: int|
            0 <= i < v.by_type[o].len() ==> v.states.contains_key(#[trigger] v.by_type[o][i])
                && v.states[v.by_type[o][i]].object_id == o by {
            assert forall|i: int| 0 <= i < v.by_type[o].len() implies v.states.contains_key(
                #[trigger] v.by_type[o][i],
            ) && v.states[v.by_type[o][i]].object_id == o by {
                if o == oid && i == v.by_type[o].len() - 1 {
                    assert(v.by_type[o][i] == id);
                } else {
                    assert(pre.by_type.contains_key(o));
                    assert(v.by_type[o][i] == pre.by_type[o][i]);
                    assert(pre.states.contains_key(pre.by_type[o][i]));
                    assert(pre.by_type[o][i] != id);
                }
            }
        }
        assert forall|k: i32| #[trigger] v.states.contains_key(k) implies v.by_type.contains_key(
            v.states[k].object_id,
        ) && has_id(v.by_type[v.states[k].object_id], k) by {
            if k == id {
                assert(v.states[k].object_id == oid);
            } else {
                assert(pre.states.contains_key(k));
                let so = pre.states[k].object_id;
                assert(has_id(pre.by_type[so], k));
                if so == oid {
                    let i = id_index(pre.by_type[so], k);
                    assert(0 <= i < pre.by_type[so].len() && pre.by_type[so][i] == k);
                    assert(new_ids[i] == k);
                } else {
                    assert(v.by_type[so] == pre.by_type[so]);
                }
            }
        }
        assert(spec_new_actor(pre, new_actor) == Some(v));
    }

    /// Records an attribute update on a live actor, returning the previous
    /// value stored under the updated object id, if any. Updating an unknown
    /// actor is an error and changes nothing.
    pub fn update_attribute(&mut self, update: &UpdatedAttribute, frame_index: usize) -> (r:
        SubtrActorResult<Option<(Attribute, usize)>>)
        requires
            old(self).wf(),
            crate::util::attribute_bounded(update.attribute),
        ensures
            final(self).wf(),
            match r {
                Ok(prev) => {
                    &&& spec_update_attribute(old(self)@, *update, frame_index) == Some(
                        final(self)@,
                    )
                    &&& prev == if old(self)@.states[update.actor_id].attributes.contains_key(
                        update.object_id,
                    ) {
                        Some(old(self)@.states[update.actor_id].attributes[update.object_id])
                    } else {
                        None::<(Attribute, usize)>
                    }
                },
                Err(e) => {
                    &&& spec_update_attribute(old(self)@, *update, frame_index) is None
                    &&& final(self)@ == old(self)@
                    &&& e.variant matches SubtrActorErrorVariant::UpdatedActorIdDoesNotExist { .. }
                },
            },
    {
        let ghost pre = self@;
        match self.actor_states.get_index(update.actor_id) {
            None => {
                proof {
                    assert(!pre.states.contains_key(update.actor_id));
                }
                SubtrActorError::new_result(
                    SubtrActorErrorVariant::UpdatedActorIdDoesNotExist { update: update.clone() },
                )
            },
            Some(i) => {
                proof {
                    self.actor_states.lemma_entry_in_view(i as int);
                }
                let blank = ActorState {
                    attributes: IdMap::new(),
                    derived_attributes: DerivedAttributes {
                        boost_amount: None,
                        last_boost_amount: None,
                    },
                    object_id: 0,
                    name_id: None,
                };
                let mut state = self.actor_states.replace_value_at(i, blank);
                let prev = state.attributes.remove(update.object_id);
                state.attributes.insert(update.object_id, (update.attribute.duplicate(), frame_index));
                let ghost stv = state@;
                let _ = self.actor_states.replace_value_at(i, state);
                proof {
                    let id = update.actor_id;
                    assert(self.actor_states@ == old(
                        self,
                    ).actor_states@.insert(id, blank).insert(id, state));
                    assert(self.actor_states@ =~= old(self).actor_states@.insert(id, state));
                    assert(stv.attributes =~= pre.states[id].attributes.insert(
                        update.object_id,
                        (update.attribute, frame_index),
                    ));
                    let expected = ModelerView {
                        states: pre.states.insert(id, stv),
                        by_type: pre.by_type,
                    };
                    assert(self@.states =~= expected.states);
                    assert(self@.by_type =~= pre.by_type);
                    self.lemma_states_value_change_keeps_wf(pre, id);
                    assert(state.wf()) by {
                        assert forall|o: i32| #[trigger]
                            state.attributes@.contains_key(o) implies crate::util::attribute_bounded(
                            state.attributes@[o].0,
                        ) by {
                            if o != update.object_id {
                                assert(old(self).actor_states@[id].attributes@.contains_key(o));
                                assert(state.attributes@[o] == old(self).actor_states@[
                                    id].attributes@[o]);
                            }
                        }
                    }
                    assert forall|k: i32| #[trigger]
                        self.actor_states@.contains_key(k) implies self.actor_states@[k].wf() by {
                        if k != id {
                            assert(old(self).actor_states@.contains_key(k));
                            assert(self.actor_states@[k] == old(self).actor_states@[k]);
                        }
                    }
                }
                Ok(prev)
            },
        }
    }

    /// Changing only the non-structural content of one live actor's state
    /// (its attributes or derived values, not its object id) keeps the
    /// modeler well-formed.
    pub proof fn lemma_states_value_change_keeps_wf(self, pre: ModelerView, id: i32)
        requires
            modeler_view_wf(pre),
            pre.states.contains_key(id),
            self@.by_type == pre.by_type,
            self@.states.dom() =~= pre.states.dom(),
            forall|k: i32| #[trigger]
                self@.states.contains_key(k) && k != id ==> self@.states[k] == pre.states[k],
            self@.states[id].object_id == pre.states[id].object_id,
        ensures
            modeler_view_wf(self@),
    {
        let v = self@;
        assert forall|k: i32| #[trigger] v.states.contains_key(k) implies v.by_type.contains_key(
            v.states[k].object_id,
        ) && has_id(v.by_type[v.states[k].object_id], k) by {
            assert(pre.states.contains_key(k));
            if k == id {
                assert(v.states[k].object_id == pre.states[id].object_id);
            } else {
                assert(v.states[k] == pre.states[k]);
            }
        }
        assert forall|o: i32| #[trigger] v.by_type.contains_key(o) implies forall|i: int|
            0 <= i < v.by_type[o].len() ==> v.states.contains_key(#[trigger] v.by_type[o][i])
                && v.states[v.by_type[o][i]].object_id == o by {
            assert forall|i: int| 0 <= i < v.by_type[o].len() implies v.states.contains_key(
                #[trigger] v.by_type[o][i],
            ) && v.states[v.by_type[o][i]].object_id == o by {
                let k = v.by_type[o][i];
                assert(pre.states.contains_key(k) && pre.states[k].object_id == o);
                if k != id {
                    assert(v.states[k] == pre.states[k]);
                }
            }
        }
    }

    /// Removes a deleted actor, returning its final state. Deleting an
    /// unknown actor is an error and changes nothing.
    pub fn delete_actor(&mut self, actor_id: ActorId) -> (r: SubtrActorResult<ActorState>)
        requires
            old(self).wf(),
        ensures
            final(self).wf(),
            match r {
                Ok(state) => {
                    &&& spec_delete_actor(old(self)@, actor_id) == Some(final(self)@)
                    &&& state@ == old(self)@.states[actor_id]
                },
                Err(e) => {
                    &&& spec_delete_actor(old(self)@, actor_id) is None
                    &&& final(self)@ == old(self)@
                    &&& e.variant matches SubtrActorErrorVariant::NoStateForActorId {
                        actor_id: a,
                    } && a == actor_id
                },
            },
    {
        let ghost pre = self@;
        match self.actor_states.remove(actor_id) {
            None => {
                proof {
                    assert(self@.states =~= pre.states);
                    assert(self@.by_type =~= pre.by_type);
                    assert(self@ =~= pre);
                    assert forall|k: i32| #[trigger]
                        self.actor_states@.contains_key(k) implies self.actor_states@[k].wf() by {
                        assert(old(self).actor_states@.contains_key(k));
                    }
                }
                SubtrActorError::new_result(SubtrActorErrorVariant::NoStateForActorId { actor_id })
            },
            Some(state) => {
                let ghost oid = state.object_id;
                proof {
                    assert(pre.states.contains_key(actor_id));
                    assert(self@.states =~= pre.states.remove(actor_id));
                    assert(self@.by_type =~= pre.by_type);
                }
                match self.actor_ids_by_type.get_index(state.object_id) {
                    Some(i) => {
                        proof {
                            self.actor_ids_by_type.lemma_entry_in_view(i as int);
                        }
                        let mut ids = self.actor_ids_by_type.replace_value_at(i, Vec::new());
                        let ghost old_ids = ids@;
                        proof {
                            assert(old_ids == pre.by_type[oid]);
                        }
                        let mut j: usize = 0;
                        let n = ids.len();
                        let mut found = false;
                        while j < n && !found
                            invariant
                                n == old_ids.len(),
                                j <= n,
                                ids@ == old_ids,
                                !found ==> forall|x: int| 0 <= x < j ==> old_ids[x] != actor_id,
                                found ==> j < n && old_ids[j as int] == actor_id,
                            decreases n - j + (if found {
                                0int
                            } else {
                                1int
                            }),
                        {
                            if ids[j] == actor_id {
                                found = true;
                            } else {
                                j += 1;
                            }
                        }
                        if found {
                            ids.remove(j);
                        }
                        proof {
                            if found {
                                assert(has_id(old_ids, actor_id));
                                if distinct_ids(old_ids) {
                                    lemma_id_index(old_ids, actor_id);
                                    assert(id_index(old_ids, actor_id) == j as int);
                                    assert(ids@ == remove_id(old_ids, actor_id));
                                }
                            } else {
                                assert(!has_id(old_ids, actor_id)) by {
                                    if has_id(old_ids, actor_id) {
                                        let x = choose|x: int|
                                            0 <= x < old_ids.len() && old_ids[x] == actor_id;
                                        assert(old_ids[x] != actor_id);
                                    }
                                }
                                assert(ids@ == remove_id(old_ids, actor_id));
                            }
                        }
                        let _ = self.actor_ids_by_type.replace_value_at(i, ids);
                        proof {
                            assert(self@.states =~= pre.states.remove(actor_id));
                            assert(self@.by_type =~= pre.by_type.insert(
                                oid,
                                remove_id(pre.by_type[oid], actor_id),
                            ));
                            self.lemma_after_delete(pre, actor_id, oid, state@);
                            assert forall|k: i32| #[trigger]
                                self.actor_states@.contains_key(k) implies self.actor_states@[
                                k].wf() by {
                                assert(old(self).actor_states@.contains_key(k));
                            }
                        }
                        Ok(state)
                    },
                    None => {
                        // Unreachable when well-formed: a live actor's object
                        // id is always indexed.
                        proof {
                            assert(pre.states[actor_id] == state@);
                            assert(pre.by_type.contains_key(state@.object_id));
                            assert(!self@.by_type.contains_key(oid));
                            assert(false);
                        }
                        Ok(state)
                    },
                }
            },
        }
    }

    proof fn lemma_after_delete(
        self,
        pre: ModelerView,
        actor_id: i32,
        oid: i32,
        removed: ActorStateView,
    )
        requires
            modeler_view_wf(pre),
            pre.states.contains_key(actor_id),
            pre.states[actor_id] == removed,
            removed.object_id == oid,
            self.actor_states.wf(),
            self.actor_ids_by_type.wf(),
            forall|k: i32| #[trigger]
                self.actor_states@.contains_key(k) ==> self.actor_states@[k].wf(),
            self@.states == pre.states.remove(actor_id),
            self@.by_type == pre.by_type.insert(oid, remove_id(pre.by_type[oid], actor_id)),
        ensures
            modeler_view_wf(self@),
            spec_delete_actor(pre, actor_id) == Some(self@),
    {
        let v = self@;
        let olds = pre.by_type[oid];
        let news = v.by_type[oid];
        assert(distinct_ids(olds));
        assert(has_id(olds, actor_id));
        lemma_id_index(olds, actor_id);
        let di = id_index(olds, actor_id);
        assert(news == olds.remove(di));
        assert forall|x: int| 0 <= x < news.len() implies news[x] == if x < di {
            olds[x]
        } else {
            olds[x + 1]
        } by {}
        assert forall|o: i32| #[trigger] v.by_type.contains_key(o) implies distinct_ids(
            v.by_type[o],
        ) by {
            if o == oid {
                assert forall|i: int, j: int|
                    0 <= i < j < news.len() implies news[i] != news[j] by {
                    let si: int = if i < di {
                        i
                    } else {
                        i + 1
                    };
                    let sj: int = if j < di {
                        j
                    } else {
                        j + 1
                    };
                    assert(news[i] == olds[si] && news[j] == olds[sj]);
                }
            }
        }
        assert forall|o: i32| #[trigger] v.by_type.contains_key(o) implies forall|i: int|
            0 <= i < v.by_type[o].len() ==> v.states.contains_key(#[trigger] v.by_type[o][i])
                && v.states[v.by_type[o][i]].object_id == o by {
            assert forall|i: int| 0 <= i < v.by_type[o].len() implies v.states.contains_key(
                #[trigger] v.by_type[o][i],
            ) && v.states[v.by_type[o][i]].object_id == o by {
                if o == oid {
                    let si: int = if i < di {
                        i
                    } else {
                        i + 1
                    };
                    let k = olds[si];
                    assert(v.by_type[o][i] == k);
                    assert(pre.states.contains_key(k) && pre.states[k].object_id == o);
                    assert(k != actor_id) by {
                        if k == actor_id {
                            assert(si == di);
                        }
                    }
                } else {
                    let k = pre.by_type[o][i];
                    assert(pre.states.contains_key(k) && pre.states[k].object_id == o);
                    assert(k != actor_id) by {
                        if k == actor_id {
                            assert(pre.states[actor_id].object_id == oid);
                        }
                    }
                }
            }
        }
        assert forall|k: i32| #[trigger] v.states.contains_key(k) implies v.by_type.contains_key(
            v.states[k].object_id,
        ) && has_id(v.by_type[v.states[k].object_id], k) by {
            assert(pre.states.contains_key(k) && k != actor_id);
            let so = pre.states[k].object_id;
            assert(has_id(pre.by_type[so], k));
            if so == oid {
                lemma_id_index(olds, k);
                let ki = id_index(olds, k);
                assert(ki != di);
                if ki < di {
                    assert(news[ki] == k);
                } else {
                    assert(news[ki - 1] == k);
                }
            }
        }
        assert(spec_delete_actor(pre, actor_id) == Some(v));
    }
}

/// The effect of announcing a new actor: `None` is the failure of announcing
/// a live actor under a different object id.
pub open spec fn spec_new_actor(v: ModelerView, new_actor: NewActor) -> Option<ModelerView> {
    if v.states.contains_key(new_actor.actor_id) {
        if v.states[new_actor.actor_id].object_id == new_actor.object_id {
            Some(v)
        } else {
            None
        }
    } else {
        Some(
            ModelerView {
                states: v.states.insert(new_actor.actor_id, fresh_actor_view(new_actor)),
                by_type: v.by_type.insert(
                    new_actor.object_id,
                    if v.by_type.contains_key(new_actor.object_id) {
                        v.by_type[new_actor.object_id].push(new_actor.actor_id)
                    } else {
                        seq![new_actor.actor_id]
                    },
                ),
            },
        )
    }
}

/// The effect of an attribute update: `None` is the failure of updating an
/// unknown actor.
pub open spec fn spec_update_attribute(
    v: ModelerView,
    update: UpdatedAttribute,
    frame_index: usize,
) -> Option<ModelerView> {
    if v.states.contains_key(update.actor_id) {
        let st = v.states[update.actor_id];
        Some(
            ModelerView {
                states: v.states.insert(
                    update.actor_id,
                    ActorStateView {
                        attributes: st.attributes.insert(
                            update.object_id,
                            (update.attribute, frame_index),
                        ),
                        ..st
                    },
                ),
                ..v
            },
        )
    } else {
        None
    }
}

/// The effect of a deletion: `None` is the failure of deleting an unknown
/// actor.
pub open spec fn spec_delete_actor(v: ModelerView, actor_id: ActorId) -> Option<ModelerView> {
    if v.states.contains_key(actor_id) {
        let oid = v.states[actor_id].object_id;
        Some(
            ModelerView {
                states: v.states.remove(actor_id),
                by_type: v.by_type.insert(oid, remove_id(v.by_type[oid], actor_id)),
            },
        )
    } else {
        None
    }
}

/// The effect of a sequence of deletions, applied in order; `None` as soon
/// as one fails.
pub open spec fn spec_delete_seq(v: ModelerView, ids: Seq<ActorId>) -> Option<ModelerView>
    decreases ids.len(),
{
    if ids.len() == 0 {
        Some(v)
    } else {
        match spec_delete_actor(v, ids[0]) {
            Some(v1) => spec_delete_seq(v1, ids.drop_first()),
            None => None,
        }
    }
}

/// The effect of a sequence of creations, applied in order.
pub open spec fn spec_create_seq(v: ModelerView, news: Seq<NewActor>) -> Option<ModelerView>
    decreases news.len(),
{
    if news.len() == 0 {
        Some(v)
    } else {
        match spec_new_actor(v, news[0]) {
            Some(v1) => spec_create_seq(v1, news.drop_first()),
            None => None,
        }
    }
}

/// The effect of a sequence of attribute updates, applied in order.
pub open spec fn spec_update_seq(
    v: ModelerView,
    updates: Seq<UpdatedAttribute>,
    frame_index: usize,
) -> Option<ModelerView>
    decreases updates.len(),
{
    if updates.len() == 0 {
        Some(v)
    } else {
        match spec_update_attribute(v, updates[0], frame_index) {
            Some(v1) => spec_update_seq(v1, updates.drop_first(), frame_index),
            None => None,
        }
    }
}

pub proof fn lemma_delete_seq_concat(v: ModelerView, a: Seq<ActorId>, b: Seq<ActorId>)
    ensures
        spec_delete_seq(v, a + b) == match spec_delete_seq(v, a) {
            Some(w) => spec_delete_seq(w, b),
            None => None,
        },
    decreases a.len(),
{
    if a.len() == 0 {
        assert(a + b =~= b);
    } else {
        assert((a + b)[0] == a[0]);
        assert((a + b).drop_first() =~= a.drop_first() + b);
        match spec_delete_actor(v, a[0]) {
            Some(v1) => {
                lemma_delete_seq_concat(v1, a.drop_first(), b);
            },
            None => {},
        }
    }
}

pub proof fn lemma_create_seq_concat(v: ModelerView, a: Seq<NewActor>, b: Seq<NewActor>)
    ensures
        spec_create_seq(v, a + b) == match spec_create_seq(v, a) {
            Some(w) => spec_create_seq(w, b),
            None => None,
        },
    decreases a.len(),
{
    if a.len() == 0 {
        assert(a + b =~= b);
    } else {
        assert((a + b)[0] == a[0]);
        assert((a + b).drop_first() =~= a.drop_first() + b);
        match spec_new_actor(v, a[0]) {
            Some(v1) => {
                lemma_create_seq_concat(v1, a.drop_first(), b);
            },
            None => {},
        }
    }
}

pub proof fn lemma_update_seq_concat(
    v: ModelerView,
    a: Seq<UpdatedAttribute>,
    b: Seq<UpdatedAttribute>,
    frame_index: usize,
)
    ensures
        spec_update_seq(v, a + b, frame_index) == match spec_update_seq(v, a, frame_index) {
            Some(w) => spec_update_seq(w, b, frame_index),
            None => None,
        },
    decreases a.len(),
{
    if a.len() == 0 {
        assert(a + b =~= b);
    } else {
        assert((a + b)[0] == a[0]);
        assert((a + b).drop_first() =~= a.drop_first() + b);
        match spec_update_attribute(v, a[0], frame_index) {
            Some(v1) => {
                lemma_update_seq_concat(v1, a.drop_first(), b, frame_index);
            },
            None => {},
        }
    }
}

/// After a successful run of deletions from a state without the actor,
/// the actor is still absent.
pub proof fn lemma_delete_seq_absent(v: ModelerView, ids: Seq<ActorId>, id: ActorId)
    requires
        spec_delete_seq(v, ids) is Some,
        !v.states.contains_key(id),
    ensures
        !spec_delete_seq(v, ids).unwrap().states.contains_key(id),
    decreases ids.len(),
{
    if ids.len() > 0 {
        let v1 = spec_delete_actor(v, ids[0]).unwrap();
        lemma_delete_seq_absent(v1, ids.drop_first(), id);
    }
}

/// A successful run of deletions that lists the actor leaves it absent.
pub proof fn lemma_delete_seq_removes(v: ModelerView, ids: Seq<ActorId>, id: ActorId)
    requires
        spec_delete_seq(v, ids) is Some,
        ids.contains(id),
    ensures
        !spec_delete_seq(v, ids).unwrap().states.contains_key(id),
    decreases ids.len(),
{
    let v1 = spec_delete_actor(v, ids[0]).unwrap();
    if ids[0] == id {
        lemma_delete_seq_absent(v1, ids.drop_first(), id);
    } else {
        let w = choose|w: int| 0 <= w < ids.len() && ids[w] == id;
        assert(ids.drop_first()[w - 1] == id);
        assert(ids.drop_first().contains(id));
        lemma_delete_seq_removes(v1, ids.drop_first(), id);
    }
}

/// A successful run of creations naming only other actors leaves the
/// actor absent.
pub proof fn lemma_create_seq_skips(v: ModelerView, news: Seq<NewActor>, id: ActorId)
    requires
        spec_create_seq(v, news) is Some,
        !v.states.contains_key(id),
        forall|x: int| 0 <= x < news.len() ==> (#[trigger] news[x]).actor_id != id,
    ensures
        !spec_create_seq(v, news).unwrap().states.contains_key(id),
    decreases news.len(),
{
    if news.len() > 0 {
        let v1 = spec_new_actor(v, news[0]).unwrap();
        lemma_create_seq_skips(v1, news.drop_first(), id);
    }
}

/// A successful run of creations leaves an already-present actor's state
/// untouched.
pub proof fn lemma_create_seq_preserves(v: ModelerView, news: Seq<NewActor>, id: ActorId)
    requires
        spec_create_seq(v, news) is Some,
        v.states.contains_key(id),
    ensures
        spec_create_seq(v, news).unwrap().states.contains_key(id),
        spec_create_seq(v, news).unwrap().states[id] == v.states[id],
    decreases news.len(),
{
    if news.len() > 0 {
        let v1 = spec_new_actor(v, news[0]).unwrap();
        lemma_create_seq_preserves(v1, news.drop_first(), id);
    }
}

/// A successful run of updates keeps the actor present with its object
/// id; every attribute key it ends with either stood there before or was
/// written by a listed update of this very actor.
pub proof fn lemma_update_seq_only_frame(
    v: ModelerView,
    ups: Seq<UpdatedAttribute>,
    frame_index: usize,
    id: ActorId,
)
    requires
        spec_update_seq(v, ups, frame_index) is Some,
        v.states.contains_key(id),
    ensures
        spec_update_seq(v, ups, frame_index).unwrap().states.contains_key(id),
        spec_update_seq(v, ups, frame_index).unwrap().states[id].object_id == v.states[id].object_id,
        forall|oid: i32|
            spec_update_seq(v, ups, frame_index).unwrap().states[id].attributes.contains_key(oid)
                ==> (v.states[id].attributes.contains_key(oid) || exists|u: int|
                0 <= u < ups.len() && (#[trigger] ups[u]).actor_id == id && ups[u].object_id
                    == oid),
    decreases ups.len(),
{
    if ups.len() > 0 {
        let v1 = spec_update_attribute(v, ups[0], frame_index).unwrap();
        lemma_update_seq_only_frame(v1, ups.drop_first(), frame_index, id);
        assert(spec_update_seq(v, ups, frame_index) == spec_update_seq(
            v1,
            ups.drop_first(),
            frame_index,
        ));
        let w = spec_update_seq(v, ups, frame_index).unwrap();
        assert forall|oid: i32| w.states[id].attributes.contains_key(oid) implies (
        v.states[id].attributes.contains_key(oid) || exists|u: int|
            0 <= u < ups.len() && (#[trigger] ups[u]).actor_id == id && ups[u].object_id
                == oid) by {
            if !v.states[id].attributes.contains_key(oid) {
                if v1.states[id].attributes.contains_key(oid) {
                    assert(ups[0].actor_id == id && ups[0].object_id == oid);
                } else {
                    let u2 = choose|u2: int|
                        0 <= u2 < ups.drop_first().len() && (#[trigger] ups.drop_first()[
                        u2]).actor_id == id && ups.drop_first()[u2].object_id == oid;
                    assert(ups[u2 + 1].actor_id == id && ups[u2 + 1].object_id == oid);
                }
            }
        }
    }
}

/// A law: an actor deleted and re-created within one frame is accepted,
/// and comes out fresh. When the frame's deletions list the actor, its
/// first re-creation carries the new object id, and the whole frame
/// applies, the actor ends present, carrying that object id, and its
/// attribute map holds only pairs that this same frame's updates of the
/// actor wrote.
pub proof fn lemma_same_frame_recreate(
    v: ModelerView,
    frame: Frame,
    frame_index: usize,
    id: ActorId,
    c: int,
)
    requires
        spec_process_frame(v, frame, frame_index) is Some,
        frame.deleted_actors@.contains(id),
        0 <= c < frame.new_actors@.len(),
        frame.new_actors@[c].actor_id == id,
        forall|x: int| 0 <= x < c ==> (#[trigger] frame.new_actors@[x]).actor_id != id,
    ensures
        spec_process_frame(v, frame, frame_index).unwrap().states.contains_key(id),
        spec_process_frame(v, frame, frame_index).unwrap().states[id].object_id
            == frame.new_actors@[c].object_id,
        forall|oid: i32|
            spec_process_frame(v, frame, frame_index).unwrap().states[id].attributes.contains_key(
                oid,
            ) ==> exists|u: int|
                0 <= u < frame.updated_actors@.len() && (#[trigger] frame.updated_actors@[
                u]).actor_id == id && frame.updated_actors@[u].object_id == oid,
{
    let v1 = spec_delete_seq(v, frame.deleted_actors@).unwrap();
    lemma_delete_seq_removes(v, frame.deleted_actors@, id);
    let news = frame.new_actors@;
    assert(news.take(c) + news.skip(c) =~= news);
    lemma_create_seq_concat(v1, news.take(c), news.skip(c));
    let w1 = spec_create_seq(v1, news.take(c)).unwrap();
    lemma_create_seq_skips(v1, news.take(c), id);
    assert(news.skip(c)[0] == news[c]);
    assert(seq![news[c]] + news.skip(c + 1) =~= news.skip(c));
    lemma_create_seq_concat(w1, seq![news[c]], news.skip(c + 1));
    assert(seq![news[c]].drop_first() =~= Seq::<NewActor>::empty());
    let w2 = spec_new_actor(w1, news[c]).unwrap();
    assert(spec_create_seq(w2, Seq::<NewActor>::empty()) == Some(w2));
    assert(spec_create_seq(w1, seq![news[c]]) == Some(w2));
    assert(w2.states[id] == fresh_actor_view(news[c]));
    lemma_create_seq_preserves(w2, news.skip(c + 1), id);
    let v2 = spec_create_seq(v1, news).unwrap();
    assert(v2.states[id] == fresh_actor_view(news[c]));
    lemma_update_seq_only_frame(v2, frame.updated_actors@, frame_index, id);
    let wu = spec_update_seq(v2, frame.updated_actors@, frame_index).unwrap();
    assert(spec_process_frame(v, frame, frame_index).unwrap() == wu);
    assert forall|oid: i32| wu.states[id].attributes.contains_key(oid) implies exists|u: int|
        0 <= u < frame.updated_actors@.len() && (#[trigger] frame.updated_actors@[u]).actor_id
            == id && frame.updated_actors@[u].object_id == oid by {
        assert(!v2.states[id].attributes.contains_key(oid));
    }
}

/// The effect of one whole frame: all deletions, then all creations, then
/// all attribute updates, each in wire order. `None` as soon as any step
/// fails.
pub open spec fn spec_process_frame(v: ModelerView, frame: Frame, frame_index: usize) -> Option<
    ModelerView,
> {
    match spec_delete_seq(v, frame.deleted_actors@) {
        Some(v1) => match spec_create_seq(v1, frame.new_actors@) {
            Some(v2) => spec_update_seq(v2, frame.updated_actors@, frame_index),
            None => None,
        },
        None => None,
    }
}

impl ActorStateModeler {
    /// Applies one frame's worth of actor changes: deletions first, then
    /// creations, then attribute updates, in the order the wire carries
    /// them. On failure the already-applied prefix stays applied, the
    /// modeler stays well-formed, and the error of the failing step is
    /// returned.
    pub fn process_frame(&mut self, frame: &Frame, frame_index: usize) -> (r: SubtrActorResult<()>)
        requires
            old(self).wf(),
            forall|i: int|
                0 <= i < frame.updated_actors@.len() ==> crate::util::attribute_bounded(
                    #[trigger] frame.updated_actors@[i].attribute,
                ),
        ensures
            final(self).wf(),
            match r {
                Ok(_) => spec_process_frame(old(self)@, *frame, frame_index) == Some(final(self)@),
                Err(_) => spec_process_frame(old(self)@, *frame, frame_index) is None,
            },
    {
        let ghost pre = self@;
        let ghost dels = frame.deleted_actors@;
        let n_del = frame.deleted_actors.len();
        for i in 0..n_del
            invariant
                self.wf(),
                pre == old(self)@,
                n_del == dels.len(),
                dels == frame.deleted_actors@,
                spec_delete_seq(pre, dels.take(i as int)) == Some(self@),
        {
            let ghost cur = self@;
            let ghost x = dels[i as int];
            match self.delete_actor(frame.deleted_actors[i]) {
                Ok(_) => {
                    proof {
                        lemma_delete_seq_concat(pre, dels.take(i as int), seq![x]);
                        assert(seq![x][0] == x);
                        assert(spec_delete_actor(cur, x) == Some(self@));
                        assert(seq![x].drop_first() =~= Seq::<ActorId>::empty());
                        assert(spec_delete_seq(self@, Seq::<ActorId>::empty()) == Some(self@));
                        assert(spec_delete_seq(cur, seq![x]) == Some(self@));
                        assert(dels.take(i as int + 1) =~= dels.take(i as int) + seq![x]);
                    }
                },
                Err(e) => {
                    proof {
                        lemma_delete_seq_concat(pre, dels.take(i as int), dels.skip(i as int));
                        assert(dels =~= dels.take(i as int) + dels.skip(i as int));
                        assert(dels.skip(i as int)[0] == x);
                        assert(spec_delete_actor(cur, x) is None);
                        assert(spec_delete_seq(cur, dels.skip(i as int)) is None);
                        assert(spec_delete_seq(pre, dels) is None);
                        assert(spec_process_frame(pre, *frame, frame_index) is None);
                    }
                    return Err(e);
                },
            }
        }
        proof {
            assert(dels.take(n_del as int) =~= dels);
        }
        let ghost mid1 = self@;
        let ghost news = frame.new_actors@;
        let n_new = frame.new_actors.len();
        for i in 0..n_new
            invariant
                self.wf(),
                pre == old(self)@,
                n_new == news.len(),
                news == frame.new_actors@,
                spec_delete_seq(pre, frame.deleted_actors@) == Some(mid1),
                spec_create_seq(mid1, news.take(i as int)) == Some(self@),
        {
            let ghost cur = self@;
            let ghost x = news[i as int];
            match self.new_actor(&frame.new_actors[i]) {
                Ok(_) => {
                    proof {
                        lemma_create_seq_concat(mid1, news.take(i as int), seq![x]);
                        assert(seq![x][0] == x);
                        assert(spec_new_actor(cur, x) == Some(self@));
                        assert(seq![x].drop_first() =~= Seq::<NewActor>::empty());
                        assert(spec_create_seq(self@, Seq::<NewActor>::empty()) == Some(self@));
                        assert(spec_create_seq(cur, seq![x]) == Some(self@));
                        assert(news.take(i as int + 1) =~= news.take(i as int) + seq![x]);
                    }
                },
                Err(e) => {
                    proof {
                        lemma_create_seq_concat(mid1, news.take(i as int), news.skip(i as int));
                        assert(news =~= news.take(i as int) + news.skip(i as int));
                        assert(news.skip(i as int)[0] == x);
                        assert(spec_new_actor(cur, x) is None);
                        assert(spec_create_seq(cur, news.skip(i as int)) is None);
                        assert(spec_create_seq(mid1, news) is None);
                        assert(spec_process_frame(pre, *frame, frame_index) is None);
                    }
                    return Err(e);
                },
            }
        }
        proof {
            assert(news.take(n_new as int) =~= news);
        }
        let ghost mid2 = self@;
        let ghost ups = frame.updated_actors@;
        let n_up = frame.updated_actors.len();
        for i in 0..n_up
            invariant
                self.wf(),
                pre == old(self)@,
                n_up == ups.len(),
                ups == frame.updated_actors@,
                forall|x: int|
                    0 <= x < ups.len() ==> crate::util::attribute_bounded(
                        #[trigger] ups[x].attribute,
                    ),
                spec_delete_seq(pre, frame.deleted_actors@) == Some(mid1),
                spec_create_seq(mid1, frame.new_actors@) == Some(mid2),
                spec_update_seq(mid2, ups.take(i as int), frame_index) == Some(self@),
        {
            let ghost cur = self@;
            let ghost x = ups[i as int];
            match self.update_attribute(&frame.updated_actors[i], frame_index) {
                Ok(_) => {
                    proof {
                        lemma_update_seq_concat(mid2, ups.take(i as int), seq![x], frame_index);
                        assert(seq![x][0] == x);
                        assert(spec_update_attribute(cur, x, frame_index) == Some(self@));
                        assert(seq![x].drop_first() =~= Seq::<UpdatedAttribute>::empty());
                        assert(spec_update_seq(self@, Seq::<UpdatedAttribute>::empty(), frame_index)
                            == Some(self@));
                        assert(spec_update_seq(cur, seq![x], frame_index) == Some(self@));
                        assert(ups.take(i as int + 1) =~= ups.take(i as int) + seq![x]);
                    }
                },
                Err(e) => {
                    proof {
                        lemma_update_seq_concat(
                            mid2,
                            ups.take(i as int),
                            ups.skip(i as int),
                            frame_index,
                        );
                        assert(ups =~= ups.take(i as int) + ups.skip(i as int));
                        assert(ups.skip(i as int)[0] == x);
                        assert(spec_update_attribute(cur, x, frame_index) is None);
                        assert(spec_update_seq(cur, ups.skip(i as int), frame_index) is None);
                        assert(spec_update_seq(mid2, ups, frame_index) is None);
                        assert(spec_process_frame(pre, *frame, frame_index) is None);
                    }
                    return Err(e);
                },
            }
        }
        proof {
            assert(ups.take(n_up as int) =~= ups);
        }
        Ok(())
    }
}

/// Every live actor appears exactly once in the inverse index, under its own
/// object id: it occurs at exactly one position of the entry for its object
/// id, and in no entry of any other object id.
pub proof fn lemma_forward_in_inverse_exactly_once(v: ModelerView, k: i32)
    requires
        modeler_view_wf(v),
        v.states.contains_key(k),
    ensures
        v.by_type.contains_key(v.states[k].object_id),
        has_id(v.by_type[v.states[k].object_id], k),
        forall|i: int, j: int|
            0 <= i < v.by_type[v.states[k].object_id].len() && 0 <= j
                < v.by_type[v.states[k].object_id].len() && #[trigger] v.by_type[v.states[
                k].object_id][i] == k && #[trigger] v.by_type[v.states[k].object_id][j] == k ==> i
                == j,
        forall|o: i32| #[trigger]
            v.by_type.contains_key(o) && o != v.states[k].object_id ==> !has_id(v.by_type[o], k),
{
    let oid = v.states[k].object_id;
    let ids = v.by_type[oid];
    assert(distinct_ids(ids));
    assert forall|i: int, j: int|
        0 <= i < ids.len() && 0 <= j < ids.len() && ids[i] == k && ids[j] == k implies i == j by {
        if i < j {
            assert(ids[i] != ids[j]);
        }
        if j < i {
            assert(ids[j] != ids[i]);
        }
    }
    assert forall|o: i32| #[trigger] v.by_type.contains_key(o) && o != oid implies !has_id(
        v.by_type[o],
        k,
    ) by {
        if has_id(v.by_type[o], k) {
            let i = choose|i: int| 0 <= i < v.by_type[o].len() && v.by_type[o][i] == k;
            assert(v.states[v.by_type[o][i]].object_id == o);
        }
    }
}

} // verus!
