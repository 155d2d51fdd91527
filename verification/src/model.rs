//! The data model consumed from a parsed replay: identifiers, attributes,
//! frames, and the replay header. Every scalar the wire encodes as a 32-bit
//! float is held as a fixed-point milli-unit `i64` (1000 = 1.0); callers
//! convert at the boundary.

use vstd::prelude::*;

verus! {

/// Identifies a live actor; ids may be reused after deletion.
pub type ActorId = i32;

/// Identifies a class/archetype: an index into the replay's object table.
pub type ObjectId = i32;

/// A fixed-point scalar in milli-units: `1000` stands for `1.0`.
pub type Milli = i64;

/// A three-component vector in milli-units.
#[derive(Debug, Clone, Copy, PartialEq, Eq, Structural)]
pub struct Vector3 {
    pub x: Milli,
    pub y: Milli,
    pub z: Milli,
}

/// A quaternion whose components are milli-units of the unit quaternion.
#[derive(Debug, Clone, Copy, PartialEq, Eq, Structural)]
pub struct Quaternion {
    pub x: Milli,
    pub y: Milli,
    pub z: Milli,
    pub w: Milli,
}

/// Position, orientation, velocities and sleep flag of a physical actor.
#[derive(Debug, Clone, Copy)]
pub struct RigidBody {
    pub sleeping: bool,
    pub location: Vector3,
    pub rotation: Quaternion,
    pub linear_velocity: Option<Vector3>,
    pub angular_velocity: Option<Vector3>,
}

/// One car demolishing another, as replicated on a car actor.
#[derive(Debug, Clone, Copy, PartialEq, Eq, Structural)]
pub struct DemolishFx {
    pub attacker: ActorId,
    pub victim: ActorId,
    pub attack_velocity: Vector3,
    pub victim_velocity: Vector3,
}

/// A stable remote identity of a player, tagged by platform. Persists across
/// actor recycling.
#[derive(Debug, Clone)]
pub enum RemoteId {
    Epic(String),
    PlayStation { online_id: u64, name: String },
    PsyNet { online_id: u64 },
    SplitScreen(u32),
    Steam(u64),
    Switch { online_id: u64 },
    Xbox(u64),
    QQ(u64),
}

/// Players are identified by their remote id.
pub type PlayerId = RemoteId;

/// The wire's unique-id attribute payload.
#[derive(Debug, Clone)]
pub struct UniqueId {
    pub system_id: u8,
    pub remote_id: RemoteId,
    pub local_id: u8,
}

/// Tags for every attribute kind the wire can carry, used to report a
/// mismatch between an expected and an actual attribute.
#[derive(Debug, Clone, Copy, PartialEq, Eq, Structural)]
pub enum AttributeTag {
    Boolean,
    Byte,
    AppliedDamage,
    DamageState,
    CamSettings,
    ClubColors,
    Demolish,
    DemolishFx,
    DemolishExtended,
    Enum,
    Explosion,
    ExtendedExplosion,
    FlaggedByte,
    ActiveActor,
    Float,
    GameMode,
    Int,
    Int64,
    Loadout,
    TeamLoadout,
    Location,
    MusicStinger,
    Pickup,
    PickupNew,
    PickupInfo,
    PlayerHistoryKey,
    Welded,
    RigidBody,
    Title,
    TeamPaint,
    String,
    UniqueId,
    Reservation,
    PartyLeader,
    LoadoutOnline,
    LoadoutsOnline,
    StatEvent,
    RepStatTitle,
    Impulse,
    QWord,
    PrivateMatch,
    Rotation,
    ReplicatedBoost,
    LogoData,
}

/// A typed attribute value. Only the kinds the engine reads are carried with
/// their payload; every other wire kind is carried as `Other` with its tag, so
/// that mismatches can still be reported precisely.
#[derive(Debug, Clone)]
pub enum Attribute {
    Boolean(bool),
    Byte(u8),
    Int(i32),
    Float(Milli),
    Str(String),
    RigidBody(RigidBody),
    ActiveActor(ActorId),
    UniqueId(UniqueId),
    DemolishFx(DemolishFx),
    ReplicatedBoost(u8),
    Other(AttributeTag),
}

/// The tag of an attribute value.
pub open spec fn spec_attribute_to_tag(attribute: Attribute) -> AttributeTag {
    match attribute {
        Attribute::Boolean(_) => AttributeTag::Boolean,
        Attribute::Byte(_) => AttributeTag::Byte,
        Attribute::Int(_) => AttributeTag::Int,
        Attribute::Float(_) => AttributeTag::Float,
        Attribute::Str(_) => AttributeTag::String,
        Attribute::RigidBody(_) => AttributeTag::RigidBody,
        Attribute::ActiveActor(_) => AttributeTag::ActiveActor,
        Attribute::UniqueId(_) => AttributeTag::UniqueId,
        Attribute::DemolishFx(_) => AttributeTag::DemolishFx,
        Attribute::ReplicatedBoost(_) => AttributeTag::ReplicatedBoost,
        Attribute::Other(tag) => tag,
    }
}

/// Returns the tag of an attribute value.
pub fn attribute_to_tag(attribute: &Attribute) -> (tag: AttributeTag)
    ensures
        tag == spec_attribute_to_tag(*attribute),
{
    match attribute {
        Attribute::Boolean(_) => AttributeTag::Boolean,
        Attribute::Byte(_) => AttributeTag::Byte,
        Attribute::Int(_) => AttributeTag::Int,
        Attribute::Float(_) => AttributeTag::Float,
        Attribute::Str(_) => AttributeTag::String,
        Attribute::RigidBody(_) => AttributeTag::RigidBody,
        Attribute::ActiveActor(_) => AttributeTag::ActiveActor,
        Attribute::UniqueId(_) => AttributeTag::UniqueId,
        Attribute::DemolishFx(_) => AttributeTag::DemolishFx,
        Attribute::ReplicatedBoost(_) => AttributeTag::ReplicatedBoost,
        Attribute::Other(tag) => *tag,
    }
}

/// A newly created actor in a frame.
#[derive(Debug, Clone, Copy)]
pub struct NewActor {
    pub actor_id: ActorId,
    pub object_id: ObjectId,
    pub name_id: Option<i32>,
}

/// An attribute mutation carried by a frame.
#[derive(Debug, Clone)]
pub struct UpdatedAttribute {
    pub actor_id: ActorId,
    pub object_id: ObjectId,
    pub attribute: Attribute,
}

/// One simulation tick as recorded on the wire. `time` and `delta` are in
/// milliseconds.
#[derive(Debug, Clone)]
pub struct Frame {
    pub time: Milli,
    pub delta: Milli,
    pub new_actors: Vec<NewActor>,
    pub deleted_actors: Vec<ActorId>,
    pub updated_actors: Vec<UpdatedAttribute>,
}

/// A scalar replay header property. `Float` values are milli-units.
#[derive(Debug, Clone)]
pub enum HeaderScalar {
    Bool(bool),
    Byte { kind: String, value: Option<String> },
    Float(Milli),
    Int(i32),
    Name(String),
    QWord(u64),
    Str(String),
}

/// A replay header property: a scalar, or an array of keyed scalar records
/// (the one level of nesting the engine reads, used by the per-player stats
/// header).
#[derive(Debug, Clone)]
pub enum HeaderProp {
    Array(Vec<Vec<(String, HeaderScalar)>>),
    Scalar(HeaderScalar),
}

/// A parsed replay: the object table (index = `ObjectId`), the header
/// properties, and the network frames if the replay carries them.
#[derive(Debug, Clone)]
pub struct Replay {
    pub objects: Vec<String>,
    pub properties: Vec<(String, HeaderProp)>,
    pub network_frames: Option<Vec<Frame>>,
}

impl RemoteId {
    /// The numeric component of the id, where the platform has one.
    pub open spec fn spec_online_id(self) -> u64 {
        match self {
            RemoteId::Epic(_) => 0,
            RemoteId::PlayStation { online_id, .. } => online_id,
            RemoteId::PsyNet { online_id } => online_id,
            RemoteId::SplitScreen(id) => id as u64,
            RemoteId::Steam(id) => id,
            RemoteId::Switch { online_id } => online_id,
            RemoteId::Xbox(id) => id,
            RemoteId::QQ(id) => id,
        }
    }

    /// Structural equality of two remote ids.
    pub open spec fn spec_eq(self, other: RemoteId) -> bool {
        match (self, other) {
            (RemoteId::Epic(a), RemoteId::Epic(b)) => a@ == b@,
            (
                RemoteId::PlayStation { online_id: a, name: an },
                RemoteId::PlayStation { online_id: b, name: bn },
            ) => a == b && an@ == bn@,
            (RemoteId::PsyNet { online_id: a }, RemoteId::PsyNet { online_id: b }) => a == b,
            (RemoteId::SplitScreen(a), RemoteId::SplitScreen(b)) => a == b,
            (RemoteId::Steam(a), RemoteId::Steam(b)) => a == b,
            (RemoteId::Switch { online_id: a }, RemoteId::Switch { online_id: b }) => a == b,
            (RemoteId::Xbox(a), RemoteId::Xbox(b)) => a == b,
            (RemoteId::QQ(a), RemoteId::QQ(b)) => a == b,
            _ => false,
        }
    }
}

impl RemoteId {
    /// A deep copy equal to the original.
    pub fn duplicate(&self) -> (r: RemoteId)
        ensures
            r == *self,
    {
        match self {
            RemoteId::Epic(s) => RemoteId::Epic(s.clone()),
            RemoteId::PlayStation { online_id, name } => RemoteId::PlayStation {
                online_id: *online_id,
                name: name.clone(),
            },
            RemoteId::PsyNet { online_id } => RemoteId::PsyNet { online_id: *online_id },
            RemoteId::SplitScreen(id) => RemoteId::SplitScreen(*id),
            RemoteId::Steam(id) => RemoteId::Steam(*id),
            RemoteId::Switch { online_id } => RemoteId::Switch { online_id: *online_id },
            RemoteId::Xbox(id) => RemoteId::Xbox(*id),
            RemoteId::QQ(id) => RemoteId::QQ(*id),
        }
    }
}

impl UniqueId {
    /// A deep copy equal to the original.
    pub fn duplicate(&self) -> (r: UniqueId)
        ensures
            r == *self,
    {
        UniqueId {
            system_id: self.system_id,
            remote_id: self.remote_id.duplicate(),
            local_id: self.local_id,
        }
    }
}

impl Attribute {
    /// A deep copy equal to the original.
    pub fn duplicate(&self) -> (r: Attribute)
        ensures
            r == *self,
    {
        match self {
            Attribute::Boolean(b) => Attribute::Boolean(*b),
            Attribute::Byte(b) => Attribute::Byte(*b),
            Attribute::Int(v) => Attribute::Int(*v),
            Attribute::Float(v) => Attribute::Float(*v),
            Attribute::Str(s) => Attribute::Str(s.clone()),
            Attribute::RigidBody(rb) => Attribute::RigidBody(*rb),
            Attribute::ActiveActor(a) => Attribute::ActiveActor(*a),
            Attribute::UniqueId(u) => Attribute::UniqueId(u.duplicate()),
            Attribute::DemolishFx(d) => Attribute::DemolishFx(*d),
            Attribute::ReplicatedBoost(b) => Attribute::ReplicatedBoost(*b),
            Attribute::Other(tag) => Attribute::Other(*tag),
        }
    }
}

impl UpdatedAttribute {
    /// A deep copy equal to the original.
    pub fn duplicate(&self) -> (r: UpdatedAttribute)
        ensures
            r == *self,
    {
        UpdatedAttribute {
            actor_id: self.actor_id,
            object_id: self.object_id,
            attribute: self.attribute.duplicate(),
        }
    }
}

impl Frame {
    /// A copy whose scalar fields are equal and whose vectors carry equal
    /// content.
    pub fn duplicate(&self) -> (r: Frame)
        ensures
            r.time == self.time,
            r.delta == self.delta,
            r.new_actors@ == self.new_actors@,
            r.deleted_actors@ == self.deleted_actors@,
            r.updated_actors@ == self.updated_actors@,
    {
        let mut new_actors: Vec<NewActor> = Vec::new();
        let n0 = self.new_actors.len();
        for i in 0..n0
            invariant
                n0 == self.new_actors@.len(),
                new_actors@ == self.new_actors@.take(i as int),
        {
            new_actors.push(self.new_actors[i]);
            proof {
                assert(new_actors@ =~= self.new_actors@.take(i as int + 1));
            }
        }
        let mut deleted_actors: Vec<ActorId> = Vec::new();
        let n1 = self.deleted_actors.len();
        for i in 0..n1
            invariant
                n1 == self.deleted_actors@.len(),
                deleted_actors@ == self.deleted_actors@.take(i as int),
        {
            deleted_actors.push(self.deleted_actors[i]);
            proof {
                assert(deleted_actors@ =~= self.deleted_actors@.take(i as int + 1));
            }
        }
        let mut updated_actors: Vec<UpdatedAttribute> = Vec::new();
        let n2 = self.updated_actors.len();
        for i in 0..n2
            invariant
                n2 == self.updated_actors@.len(),
                updated_actors@ == self.updated_actors@.take(i as int),
        {
            updated_actors.push(self.updated_actors[i].duplicate());
            proof {
                assert(updated_actors@ =~= self.updated_actors@.take(i as int + 1));
            }
        }
        proof {
            assert(new_actors@ =~= self.new_actors@);
            assert(deleted_actors@ =~= self.deleted_actors@);
            assert(updated_actors@ =~= self.updated_actors@);
        }
        Frame { time: self.time, delta: self.delta, new_actors, deleted_actors, updated_actors }
    }
}

impl PartialEq for RemoteId {
    fn eq(&self, other: &RemoteId) -> (r: bool) {
        match (self, other) {
            (RemoteId::Epic(a), RemoteId::Epic(b)) => *a == *b,
            (
                RemoteId::PlayStation { online_id: a, name: an },
                RemoteId::PlayStation { online_id: b, name: bn },
            ) => *a == *b && *an == *bn,
            (RemoteId::PsyNet { online_id: a }, RemoteId::PsyNet { online_id: b }) => *a == *b,
            (RemoteId::SplitScreen(a), RemoteId::SplitScreen(b)) => *a == *b,
            (RemoteId::Steam(a), RemoteId::Steam(b)) => *a == *b,
            (RemoteId::Switch { online_id: a }, RemoteId::Switch { online_id: b }) => *a == *b,
            (RemoteId::Xbox(a), RemoteId::Xbox(b)) => *a == *b,
            (RemoteId::QQ(a), RemoteId::QQ(b)) => *a == *b,
            _ => false,
        }
    }
}

impl vstd::std_specs::cmp::PartialEqSpecImpl for RemoteId {
    open spec fn obeys_eq_spec() -> bool {
        true
    }

    open spec fn eq_spec(&self, other: &RemoteId) -> bool {
        self.spec_eq(*other)
    }
}

} // verus!
