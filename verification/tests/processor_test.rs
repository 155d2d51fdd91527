use subtr_actor::{
    ActorStateModeler, Attribute, DemolishFx, Frame, Milli, NewActor, RemoteId, Replay,
    ReplayProcessor, RigidBody, Quaternion, SubtrActorErrorVariant, SubtrActorResult, TimeAdvance,
    UniqueId, UpdatedAttribute, Vector3, sort_player_ids,
};

// Object-table indices used by the test replays.
const OBJ_PRI: i32 = 0;
const OBJ_CAR: i32 = 1;
const OBJ_BOOST: i32 = 2;
const OBJ_JUMP: i32 = 3;
const OBJ_DOUBLE_JUMP: i32 = 4;
const OBJ_DODGE: i32 = 5;
const OBJ_GAME: i32 = 6;
const OBJ_BALL: i32 = 7;
const KEY_UNIQUE_ID: i32 = 8;
const KEY_TEAM: i32 = 9;
const KEY_PLAYER_NAME: i32 = 10;
const KEY_PLAYER_REPL: i32 = 11;
const KEY_VEHICLE: i32 = 12;
const KEY_ACTIVE: i32 = 13;
const KEY_BOOST_AMOUNT: i32 = 14;
const KEY_REPLICATED_BOOST: i32 = 15;
const KEY_DEMOLISH: i32 = 16;
const KEY_RB_STATE: i32 = 17;
const KEY_SECONDS: i32 = 18;
const OBJ_TEAM_ZERO: i32 = 20;
const OBJ_TEAM_ONE: i32 = 21;

fn objects() -> Vec<String> {
    vec![
        "TAGame.Default__PRI_TA".to_owned(),
        "Archetypes.Car.Car_Default".to_owned(),
        "Archetypes.CarComponents.CarComponent_Boost".to_owned(),
        "Archetypes.CarComponents.CarComponent_Jump".to_owned(),
        "Archetypes.CarComponents.CarComponent_DoubleJump".to_owned(),
        "Archetypes.CarComponents.CarComponent_Dodge".to_owned(),
        "Archetypes.GameEvent.GameEvent_Soccar".to_owned(),
        "Archetypes.Ball.Ball_Default".to_owned(),
        "Engine.PlayerReplicationInfo:UniqueId".to_owned(),
        "Engine.PlayerReplicationInfo:Team".to_owned(),
        "Engine.PlayerReplicationInfo:PlayerName".to_owned(),
        "Engine.Pawn:PlayerReplicationInfo".to_owned(),
        "TAGame.CarComponent_TA:Vehicle".to_owned(),
        "TAGame.CarComponent_TA:ReplicatedActive".to_owned(),
        "TAGame.CarComponent_Boost_TA:ReplicatedBoostAmount".to_owned(),
        "TAGame.CarComponent_Boost_TA:ReplicatedBoost".to_owned(),
        "TAGame.Car_TA:ReplicatedDemolishGoalExplosion".to_owned(),
        "TAGame.RBActor_TA:ReplicatedRBState".to_owned(),
        "TAGame.GameEvent_Soccar_TA:SecondsRemaining".to_owned(),
        "TAGame.RBActor_TA:bIgnoreSyncing".to_owned(),
        "Stadium.Team.Squad0".to_owned(),
        "Stadium.Team.Squad1".to_owned(),
    ]
}

fn new_actor(actor_id: i32, object_id: i32) -> NewActor {
    NewActor { actor_id, object_id, name_id: None }
}

fn upd(actor_id: i32, object_id: i32, attribute: Attribute) -> UpdatedAttribute {
    UpdatedAttribute { actor_id, object_id, attribute }
}

fn frame(
    time: Milli,
    delta: Milli,
    new_actors: Vec<NewActor>,
    deleted_actors: Vec<i32>,
    updated_actors: Vec<UpdatedAttribute>,
) -> Frame {
    Frame { time, delta, new_actors, deleted_actors, updated_actors }
}

fn replay(frames: Vec<Frame>) -> Replay {
    Replay { objects: objects(), properties: Vec::new(), network_frames: Some(frames) }
}

fn steam(id: u64) -> RemoteId {
    RemoteId::Steam(id)
}

fn unique(id: u64) -> Attribute {
    Attribute::UniqueId(UniqueId { system_id: 1, remote_id: steam(id), local_id: 0 })
}

fn rb_at(x: Milli, sleeping: bool) -> Attribute {
    Attribute::RigidBody(RigidBody {
        sleeping,
        location: Vector3 { x, y: 0, z: 0 },
        rotation: Quaternion { x: 0, y: 0, z: 0, w: 1000 },
        linear_velocity: Some(Vector3 { x: 0, y: 0, z: 0 }),
        angular_velocity: None,
    })
}

struct Passive;

impl subtr_actor::Collector for Passive {
    fn process_frame(
        &mut self,
        _processor: &ReplayProcessor,
        _frame: &Frame,
        _frame_number: usize,
        _target_time: Milli,
    ) -> SubtrActorResult<TimeAdvance> {
        Ok(TimeAdvance::NextFrame)
    }
}

/// Records the derived boost level of one actor at every frame.
struct BoostRecorder {
    actor: i32,
    values: Vec<Option<i64>>,
}

impl subtr_actor::Collector for BoostRecorder {
    fn process_frame(
        &mut self,
        processor: &ReplayProcessor,
        _frame: &Frame,
        _frame_number: usize,
        _target_time: Milli,
    ) -> SubtrActorResult<TimeAdvance> {
        let v = processor
            .actor_state
            .actor_states
            .get(self.actor)
            .and_then(|st| st.derived_attributes.boost_amount)
            .map(|p| p.0);
        self.values.push(v);
        Ok(TimeAdvance::NextFrame)
    }
}

#[test]
fn boost_drain_integrates_while_active() {
    // A boost component created at rest; a wire reading of 100 units and the
    // active flag arrive one frame later; then nine frames of pure drain at
    // 8000/93 milli-units per millisecond; then a fresh wire reading of 50.
    let mut frames = vec![frame(0, 0, vec![new_actor(10, OBJ_BOOST)], vec![], vec![])];
    for i in 1..=11i64 {
        let mut ups = Vec::new();
        if i == 1 {
            ups.push(upd(10, KEY_BOOST_AMOUNT, Attribute::Byte(100)));
            ups.push(upd(10, KEY_ACTIVE, Attribute::Byte(1)));
        }
        if i == 11 {
            ups.push(upd(10, KEY_BOOST_AMOUNT, Attribute::Byte(50)));
        }
        frames.push(frame(i * 100, 100, vec![], vec![], ups));
    }
    let mut processor = ReplayProcessor::new(replay(frames)).expect("processor");
    let mut recorder = BoostRecorder { actor: 10, values: Vec::new() };
    processor.process(&mut recorder).expect("process");

    let drain_per_frame = 100 * 8000 / 93; // 8602 milli-units per 100 ms
    assert_eq!(drain_per_frame, 8602);
    assert_eq!(recorder.values[0], Some(0));
    assert_eq!(recorder.values[1], Some(100_000 - drain_per_frame));
    // Monotone non-increasing while active with no fresh wire reading.
    for i in 1..=10 {
        assert!(recorder.values[i] <= recorder.values[i - 1] || i == 1);
    }
    assert_eq!(recorder.values[10], Some(100_000 - 10 * drain_per_frame));
    assert_eq!(recorder.values[10], Some(13_980));
    // The next wire reading resets the level.
    assert_eq!(recorder.values[11], Some(50_000 - drain_per_frame));
}

#[test]
fn replicated_boost_is_preferred_over_legacy_byte() {
    let frames = vec![
        frame(0, 0, vec![new_actor(10, OBJ_BOOST)], vec![], vec![]),
        frame(
            100,
            100,
            vec![],
            vec![],
            vec![
                upd(10, KEY_REPLICATED_BOOST, Attribute::ReplicatedBoost(80)),
                upd(10, KEY_BOOST_AMOUNT, Attribute::Byte(30)),
            ],
        ),
    ];
    let mut processor = ReplayProcessor::new(replay(frames)).expect("processor");
    let mut recorder = BoostRecorder { actor: 10, values: Vec::new() };
    processor.process(&mut recorder).expect("process");
    // The newer replicated-boost attribute wins: the level becomes 80 units,
    // not 30, and the component is inactive so nothing drains.
    assert_eq!(recorder.values[1], Some(80_000));
}

fn demolish_value(attacker: i32, victim: i32) -> Attribute {
    Attribute::DemolishFx(DemolishFx {
        attacker,
        victim,
        attack_velocity: Vector3 { x: 1000, y: 0, z: 0 },
        victim_velocity: Vector3 { x: 0, y: 0, z: 0 },
    })
}

fn two_player_setup_frame() -> Frame {
    frame(
        0,
        0,
        vec![
            new_actor(1, OBJ_PRI),
            new_actor(2, OBJ_PRI),
            new_actor(11, OBJ_CAR),
            new_actor(12, OBJ_CAR),
            new_actor(20, OBJ_GAME),
            new_actor(40, OBJ_TEAM_ZERO),
            new_actor(41, OBJ_TEAM_ONE),
        ],
        vec![],
        vec![
            upd(1, KEY_UNIQUE_ID, unique(1)),
            upd(2, KEY_UNIQUE_ID, unique(2)),
            upd(1, KEY_TEAM, Attribute::ActiveActor(40)),
            upd(2, KEY_TEAM, Attribute::ActiveActor(41)),
            upd(1, KEY_PLAYER_NAME, Attribute::Str("one".to_owned())),
            upd(2, KEY_PLAYER_NAME, Attribute::Str("two".to_owned())),
            upd(11, KEY_PLAYER_REPL, Attribute::ActiveActor(1)),
            upd(12, KEY_PLAYER_REPL, Attribute::ActiveActor(2)),
            upd(20, KEY_SECONDS, Attribute::Int(300)),
        ],
    )
}

#[test]
fn demolish_dedup_keeps_one_entry_per_window() {
    // The same demolish value at frames 100 and 120 is one event; the value
    // reappearing at frame 300 (after the car's attributes were reset) is a
    // second one.
    let mut frames = vec![two_player_setup_frame()];
    for i in 1..=300i64 {
        let mut news = Vec::new();
        let mut dels = Vec::new();
        let mut ups = Vec::new();
        if i == 100 || i == 120 || i == 300 {
            ups.push(upd(11, KEY_DEMOLISH, demolish_value(11, 12)));
        }
        if i == 121 {
            dels.push(11);
            news.push(new_actor(11, OBJ_CAR));
            ups.push(upd(11, KEY_PLAYER_REPL, Attribute::ActiveActor(1)));
        }
        frames.push(frame(i * 100, 100, news, dels, ups));
    }
    let mut processor = ReplayProcessor::new(replay(frames)).expect("processor");
    processor.process(&mut Passive).expect("process");
    assert_eq!(processor.demolishes.len(), 2);
    assert_eq!(processor.demolishes[0].frame, 100);
    assert_eq!(processor.demolishes[1].frame, 300);
    assert_eq!(processor.demolishes[0].attacker, steam(1));
    assert_eq!(processor.demolishes[0].victim, steam(2));
    assert_eq!(processor.demolishes[0].seconds_remaining, 300);
}

#[test]
fn interpolated_ball_query() {
    // Samples at (0, 0, 0), t = 1.0 s and (10, 0, 0), t = 2.0 s.
    let frames = vec![
        frame(1000, 16, vec![new_actor(30, OBJ_BALL)], vec![], vec![upd(30, KEY_RB_STATE, rb_at(0, false))]),
        frame(2000, 1000, vec![], vec![], vec![upd(30, KEY_RB_STATE, rb_at(10_000, false))]),
    ];
    let mut processor = ReplayProcessor::new(replay(frames)).expect("processor");
    processor.process(&mut Passive).expect("process");

    // A quarter of the way into the window.
    let rb = processor.get_interpolated_ball_rigid_body(1250, 0).expect("interpolated");
    assert_eq!(rb.location.x, 2500);
    // Within the closeness threshold of the first sample: the exact body.
    let rb0 = processor.get_interpolated_ball_rigid_body(1000, 100).expect("exact");
    assert_eq!(rb0.location.x, 0);
    // Before the observable range: the query fails, nothing extrapolates.
    assert!(processor.get_interpolated_ball_rigid_body(500, 0).is_err());
}

#[test]
fn player_order_is_deterministic_and_consistent() {
    let build = || {
        let setup = frame(
            0,
            0,
            vec![
                new_actor(1, OBJ_PRI),
                new_actor(2, OBJ_PRI),
                new_actor(3, OBJ_PRI),
                new_actor(4, OBJ_PRI),
                new_actor(40, OBJ_TEAM_ZERO),
                new_actor(41, OBJ_TEAM_ONE),
            ],
            vec![],
            vec![
                upd(1, KEY_UNIQUE_ID, unique(7)),
                upd(2, KEY_UNIQUE_ID, unique(3)),
                upd(3, KEY_UNIQUE_ID, unique(9)),
                upd(4, KEY_UNIQUE_ID, unique(5)),
                upd(1, KEY_TEAM, Attribute::ActiveActor(40)),
                upd(3, KEY_TEAM, Attribute::ActiveActor(40)),
                upd(2, KEY_TEAM, Attribute::ActiveActor(41)),
                upd(4, KEY_TEAM, Attribute::ActiveActor(41)),
            ],
        );
        replay(vec![setup, frame(100, 100, vec![], vec![], vec![])])
    };
    let p1 = ReplayProcessor::new(build()).expect("first run");
    let p2 = ReplayProcessor::new(build()).expect("second run");
    assert_eq!(p1.team_zero, vec![steam(7), steam(9)]);
    assert_eq!(p1.team_one, vec![steam(3), steam(5)]);
    assert_eq!(p1.team_zero, p2.team_zero);
    assert_eq!(p1.team_one, p2.team_one);

    let mut p = ReplayProcessor::new(build()).expect("third run");
    p.process(&mut Passive).expect("process");
    assert!(p.check_player_id_set().is_ok());
}

#[test]
fn actor_recreated_in_one_frame_keeps_identity_with_reset_attributes() {
    let mut modeler = ActorStateModeler::new();
    let f1 = frame(
        0,
        0,
        vec![new_actor(5, OBJ_BOOST)],
        vec![],
        vec![upd(5, KEY_ACTIVE, Attribute::Byte(3))],
    );
    modeler.process_frame(&f1, 0).expect("first frame");
    assert_eq!(modeler.actor_states.get(5).unwrap().attributes.len(), 1);
    // Deletion and re-creation with the same object id within one frame:
    // the actor persists, its attribute map is reset.
    let f2 = frame(100, 100, vec![new_actor(5, OBJ_BOOST)], vec![5], vec![]);
    modeler.process_frame(&f2, 1).expect("second frame");
    let st = modeler.actor_states.get(5).expect("actor persists");
    assert_eq!(st.attributes.len(), 0);
    assert_eq!(st.object_id, OBJ_BOOST);
    // Announcing a live actor again under a different object id is an error.
    let bad = modeler.new_actor(&new_actor(5, OBJ_CAR));
    assert!(matches!(
        bad.unwrap_err().variant,
        SubtrActorErrorVariant::ActorIdAlreadyExists { actor_id: 5, object_id: OBJ_CAR }
    ));
}

#[test]
fn deleting_unknown_actor_fails() {
    let mut modeler = ActorStateModeler::new();
    let r = modeler.delete_actor(99);
    assert!(matches!(r.unwrap_err().variant, SubtrActorErrorVariant::NoStateForActorId { actor_id: 99 }));
    let r2 = modeler.update_attribute(&upd(99, KEY_ACTIVE, Attribute::Byte(1)), 0);
    assert!(matches!(
        r2.unwrap_err().variant,
        SubtrActorErrorVariant::UpdatedActorIdDoesNotExist { .. }
    ));
}

#[test]
fn processor_requires_network_frames() {
    let r = Replay { objects: objects(), properties: Vec::new(), network_frames: None };
    let e = ReplayProcessor::new(r).err().expect("no frames must fail");
    assert!(matches!(e.variant, SubtrActorErrorVariant::NoNetworkFrames));
}

#[test]
fn roster_sorting_is_canonical() {
    let ids = vec![
        steam(5),
        steam(1),
        RemoteId::Epic("b".to_owned()),
        RemoteId::Epic("a".to_owned()),
        RemoteId::Xbox(2),
    ];
    let sorted = sort_player_ids(&ids);
    assert_eq!(
        sorted,
        vec![
            RemoteId::Epic("a".to_owned()),
            RemoteId::Epic("b".to_owned()),
            steam(1),
            steam(5),
            RemoteId::Xbox(2),
        ]
    );
}
