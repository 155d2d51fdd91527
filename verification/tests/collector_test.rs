use subtr_actor::{
    Attribute, BallFrame, FrameRateDecorator, Frame, HeaderScalar, Milli, NDArrayCollector,
    NDArrayColumnHeaders, NewActor, PlayerData, PlayerFrame, PlayerInfo, PlayerMap, Quaternion,
    RemoteId, Replay, ReplayDataCollector, ReplayMeta, ReplayMetaWithHeaders, ReplayProcessor,
    RigidBody, SubtrActorErrorVariant, SubtrActorResult, TimeAdvance, UniqueId, UpdatedAttribute,
    Vector3, find_player_stats, get_entry, matches_stats, platform_matches,
};

const OBJ_PRI: i32 = 0;
const OBJ_CAR: i32 = 1;
const OBJ_BOOST: i32 = 2;
const OBJ_JUMP: i32 = 3;
const OBJ_DOUBLE_JUMP: i32 = 4;
const OBJ_DODGE: i32 = 5;
const OBJ_GAME: i32 = 6;
const OBJ_BALL: i32 = 7;
const KEY_UNIQUE_ID: i32 = 8;
const KEY_TEAM: i32 = 9;
const KEY_PLAYER_NAME: i32 = 10;
const KEY_PLAYER_REPL: i32 = 11;
const KEY_VEHICLE: i32 = 12;
const KEY_ACTIVE: i32 = 13;
const KEY_REPLICATED_BOOST: i32 = 15;
const KEY_RB_STATE: i32 = 17;
const KEY_SECONDS: i32 = 18;
const OBJ_TEAM_ZERO: i32 = 20;
const OBJ_TEAM_ONE: i32 = 21;

fn objects() -> Vec<String> {
    vec![
        "TAGame.Default__PRI_TA".to_owned(),
        "Archetypes.Car.Car_Default".to_owned(),
        "Archetypes.CarComponents.CarComponent_Boost".to_owned(),
        "Archetypes.CarComponents.CarComponent_Jump".to_owned(),
        "Archetypes.CarComponents.CarComponent_DoubleJump".to_owned(),
        "Archetypes.CarComponents.CarComponent_Dodge".to_owned(),
        "Archetypes.GameEvent.GameEvent_Soccar".to_owned(),
        "Archetypes.Ball.Ball_Default".to_owned(),
        "Engine.PlayerReplicationInfo:UniqueId".to_owned(),
        "Engine.PlayerReplicationInfo:Team".to_owned(),
        "Engine.PlayerReplicationInfo:PlayerName".to_owned(),
        "Engine.Pawn:PlayerReplicationInfo".to_owned(),
        "TAGame.CarComponent_TA:Vehicle".to_owned(),
        "TAGame.CarComponent_TA:ReplicatedActive".to_owned(),
        "TAGame.CarComponent_Boost_TA:ReplicatedBoostAmount".to_owned(),
        "TAGame.CarComponent_Boost_TA:ReplicatedBoost".to_owned(),
        "TAGame.Car_TA:ReplicatedDemolishGoalExplosion".to_owned(),
        "TAGame.RBActor_TA:ReplicatedRBState".to_owned(),
        "TAGame.GameEvent_Soccar_TA:SecondsRemaining".to_owned(),
        "TAGame.RBActor_TA:bIgnoreSyncing".to_owned(),
        "Stadium.Team.Squad0".to_owned(),
        "Stadium.Team.Squad1".to_owned(),
    ]
}

fn new_actor(actor_id: i32, object_id: i32) -> NewActor {
    NewActor { actor_id, object_id, name_id: None }
}

fn upd(actor_id: i32, object_id: i32, attribute: Attribute) -> UpdatedAttribute {
    UpdatedAttribute { actor_id, object_id, attribute }
}

fn frame(
    time: Milli,
    delta: Milli,
    new_actors: Vec<NewActor>,
    deleted_actors: Vec<i32>,
    updated_actors: Vec<UpdatedAttribute>,
) -> Frame {
    Frame { time, delta, new_actors, deleted_actors, updated_actors }
}

fn unique(id: u64) -> Attribute {
    Attribute::UniqueId(UniqueId { system_id: 1, remote_id: RemoteId::Steam(id), local_id: 0 })
}

fn rb_at(x: Milli, sleeping: bool) -> Attribute {
    Attribute::RigidBody(RigidBody {
        sleeping,
        location: Vector3 { x, y: 0, z: 0 },
        rotation: Quaternion { x: 0, y: 0, z: 0, w: 1000 },
        linear_velocity: Some(Vector3 { x: 0, y: 0, z: 0 }),
        angular_velocity: None,
    })
}

/// Two players with full component rigs, a ball and a game actor; three
/// frames, the last with a sleeping ball.
fn full_replay() -> Replay {
    let setup = frame(
        0,
        0,
        vec![
            new_actor(1, OBJ_PRI),
            new_actor(2, OBJ_PRI),
            new_actor(11, OBJ_CAR),
            new_actor(12, OBJ_CAR),
            new_actor(21, OBJ_BOOST),
            new_actor(22, OBJ_BOOST),
            new_actor(31, OBJ_JUMP),
            new_actor(32, OBJ_JUMP),
            new_actor(41, OBJ_DOUBLE_JUMP),
            new_actor(42, OBJ_DOUBLE_JUMP),
            new_actor(51, OBJ_DODGE),
            new_actor(52, OBJ_DODGE),
            new_actor(60, OBJ_GAME),
            new_actor(70, OBJ_BALL),
            new_actor(80, OBJ_TEAM_ZERO),
            new_actor(81, OBJ_TEAM_ONE),
        ],
        vec![],
        vec![
            upd(1, KEY_UNIQUE_ID, unique(1)),
            upd(2, KEY_UNIQUE_ID, unique(2)),
            upd(1, KEY_TEAM, Attribute::ActiveActor(80)),
            upd(2, KEY_TEAM, Attribute::ActiveActor(81)),
            upd(1, KEY_PLAYER_NAME, Attribute::Str("one".to_owned())),
            upd(2, KEY_PLAYER_NAME, Attribute::Str("two".to_owned())),
            upd(11, KEY_PLAYER_REPL, Attribute::ActiveActor(1)),
            upd(12, KEY_PLAYER_REPL, Attribute::ActiveActor(2)),
            upd(21, KEY_VEHICLE, Attribute::ActiveActor(11)),
            upd(22, KEY_VEHICLE, Attribute::ActiveActor(12)),
            upd(31, KEY_VEHICLE, Attribute::ActiveActor(11)),
            upd(32, KEY_VEHICLE, Attribute::ActiveActor(12)),
            upd(41, KEY_VEHICLE, Attribute::ActiveActor(11)),
            upd(42, KEY_VEHICLE, Attribute::ActiveActor(12)),
            upd(51, KEY_VEHICLE, Attribute::ActiveActor(11)),
            upd(52, KEY_VEHICLE, Attribute::ActiveActor(12)),
            upd(60, KEY_SECONDS, Attribute::Int(300)),
            upd(70, KEY_RB_STATE, rb_at(0, false)),
            upd(11, KEY_RB_STATE, rb_at(1000, false)),
            upd(12, KEY_RB_STATE, rb_at(2000, false)),
            // Player one: only the jump component active; player two: all
            // three jump-type components active.
            upd(31, KEY_ACTIVE, Attribute::Byte(1)),
            upd(32, KEY_ACTIVE, Attribute::Byte(1)),
            upd(42, KEY_ACTIVE, Attribute::Byte(1)),
            upd(52, KEY_ACTIVE, Attribute::Byte(1)),
        ],
    );
    let f1 = frame(
        100,
        100,
        vec![],
        vec![],
        vec![
            upd(21, KEY_REPLICATED_BOOST, Attribute::ReplicatedBoost(100)),
            upd(22, KEY_REPLICATED_BOOST, Attribute::ReplicatedBoost(60)),
        ],
    );
    let f2 = frame(200, 100, vec![], vec![], vec![upd(70, KEY_RB_STATE, rb_at(0, true))]);
    Replay { objects: objects(), properties: Vec::new(), network_frames: Some(vec![setup, f1, f2]) }
}

fn collector_names() -> (Vec<String>, Vec<String>) {
    (
        vec![
            "BallRigidBody".to_owned(),
            "SecondsRemaining".to_owned(),
            "CurrentTime".to_owned(),
            "FrameTime".to_owned(),
        ],
        vec![
            "PlayerRigidBody".to_owned(),
            "PlayerBoost".to_owned(),
            "PlayerJump".to_owned(),
            "PlayerAnyJump".to_owned(),
            "PlayerDemolishedBy".to_owned(),
        ],
    )
}

#[test]
fn ndarray_shape_and_values() {
    let (globals, players) = collector_names();
    let mut collector = NDArrayCollector::from_strings(&globals, &players).expect("known names");
    let mut processor = subtr_actor::ReplayProcessor::new(full_replay()).expect("processor");
    processor.process(&mut collector).expect("process");
    let (meta, rows, cols, data) = collector.get_meta_and_ndarray().expect("shape");

    // Row width: 15 global columns plus two players of 18 columns each.
    assert_eq!(cols, 15 + 2 * 18);
    // The third frame's ball sleeps: no row is emitted for it.
    assert_eq!(rows, 2);
    assert_eq!(data.len(), rows * cols);
    assert_eq!(meta.replay_meta.team_zero.len(), 1);
    assert_eq!(meta.replay_meta.team_one.len(), 1);
    assert_eq!(meta.column_headers.global_headers.len(), 15);
    assert_eq!(meta.column_headers.player_headers.len(), 18);

    // Scalar globals: seconds remaining, current time, frame time.
    assert_eq!(data[12], 300_000);
    assert_eq!(data[13], 0);
    assert_eq!(data[14], 0);
    // Packed jump values: {dodge 0, jump 1, double jump 0} packs to 2.0;
    // {1, 1, 1} packs to 7.0.
    let p0_any_jump = 15 + 12 + 1 + 3;
    let p1_any_jump = 15 + 18 + 12 + 1 + 3;
    assert_eq!(data[p0_any_jump], 2_000);
    assert_eq!(data[p1_any_jump], 7_000);
    // Boost levels: zero until the first fresh wire reading, then exactly
    // the delivered amounts (the components are inactive, nothing drains).
    let p0_boost = 15 + 12;
    let p1_boost = 15 + 18 + 12;
    assert_eq!(data[p0_boost], 0);
    assert_eq!(data[cols + p0_boost], 100_000);
    assert_eq!(data[cols + p1_boost], 60_000);
    // Nobody was demolished.
    assert_eq!(data[15 + 12 + 1 + 3 + 1], -1_000);
}

#[test]
fn test_invalid_feature_adder_rejected() {
    let none: Vec<String> = Vec::new();
    let result = NDArrayCollector::from_strings(&vec!["NonExistentFeature".to_owned()], &none);
    assert!(result.is_err(), "Should reject invalid global feature adder");
    assert!(matches!(
        result.err().unwrap().variant,
        SubtrActorErrorVariant::UnknownFeatureAdderName(_)
    ));

    let result =
        NDArrayCollector::from_strings(&none, &vec!["NonExistentPlayerFeature".to_owned()]);
    assert!(result.is_err(), "Should reject invalid player feature adder");
    assert!(matches!(
        result.err().unwrap().variant,
        SubtrActorErrorVariant::UnknownFeatureAdderName(_)
    ));
}

#[test]
fn test_column_header_generation() {
    let collector = NDArrayCollector::from_strings(
        &vec!["BallRigidBody".to_owned(), "SecondsRemaining".to_owned()],
        &vec!["PlayerRigidBody".to_owned(), "PlayerBoost".to_owned()],
    )
    .expect("Should create collector");

    let headers = collector.get_column_headers();

    // Check global headers
    assert!(!headers.global_headers.is_empty(), "Should have global headers");

    // Check player headers
    assert!(!headers.player_headers.is_empty(), "Should have player headers");

    // Verify we have headers containing expected strings (case-insensitive)
    let has_ball_header = headers
        .global_headers
        .iter()
        .any(|h| h.to_lowercase().contains("ball") || h.contains("Ball"));
    assert!(
        has_ball_header,
        "Should have ball-related headers, got: {:?}",
        headers.global_headers
    );

    let has_boost_header =
        headers.player_headers.iter().any(|h| h.to_lowercase().contains("boost"));
    assert!(
        has_boost_header,
        "Should have boost header, got: {:?}",
        headers.player_headers
    );
}

#[test]
fn column_headers_carry_every_column() {
    let headers = NDArrayColumnHeaders::new(
        vec!["a".to_owned(), "b".to_owned()],
        vec!["c".to_owned()],
    );
    assert_eq!(headers.global_headers.len(), 2);
    assert_eq!(headers.player_headers, vec!["c".to_owned()]);

    let collector = NDArrayCollector::default();
    let h = collector.get_column_headers();
    assert_eq!(h.global_headers.len(), 12);
    assert_eq!(h.player_headers.len(), 14);
}

#[test]
fn headers_vec_prefixes_each_player() {
    let headers = NDArrayColumnHeaders::new(
        vec!["Ball - x".to_owned(), "Ball - y".to_owned()],
        vec!["boost".to_owned()],
    );
    let info = |n: u64| PlayerInfo {
        remote_id: RemoteId::Steam(n),
        stats: None,
        name: format!("p{n}"),
    };
    let meta = ReplayMetaWithHeaders {
        replay_meta: ReplayMeta {
            team_zero: vec![info(1)],
            team_one: vec![info(2)],
            all_headers: vec![],
        },
        column_headers: headers,
    };
    assert_eq!(
        meta.headers_vec(),
        vec![
            "Ball - x".to_owned(),
            "Ball - y".to_owned(),
            "Player 0 - boost".to_owned(),
            "Player 1 - boost".to_owned(),
        ]
    );
}

#[test]
fn headers_vec_renders_wide_indexes() {
    let info = |n: u64| PlayerInfo {
        remote_id: RemoteId::Steam(n),
        stats: None,
        name: String::new(),
    };
    let meta = ReplayMetaWithHeaders {
        replay_meta: ReplayMeta {
            team_zero: (0..7).map(|n| info(n)).collect(),
            team_one: (7..12).map(|n| info(n)).collect(),
            all_headers: vec![],
        },
        column_headers: NDArrayColumnHeaders::new(vec![], vec!["h".to_owned()]),
    };
    let names = meta.headers_vec();
    assert_eq!(names.len(), 12);
    assert_eq!(names[10], "Player 10 - h".to_owned());
    assert_eq!(names[11], "Player 11 - h".to_owned());
}

#[test]
fn structured_timeline_stays_index_aligned() {
    let collector = ReplayDataCollector::new();
    let data = collector.get_replay_data(full_replay()).expect("replay data");
    assert_eq!(data.frame_data.metadata_frames.len(), 3);
    assert_eq!(data.frame_data.ball_data.frames.len(), 3);
    // The sleeping ball at the last index becomes an empty record.
    assert!(matches!(data.frame_data.ball_data.frames[2], BallFrame::Empty));
    assert!(matches!(data.frame_data.ball_data.frames[0], BallFrame::Data { .. }));
    // Both player series are as long as the metadata series.
    assert_eq!(data.frame_data.players.len(), 2);
    for i in 0..2 {
        assert_eq!(data.frame_data.players.value_at(i).frames.len(), 3);
    }
    match &data.frame_data.players.value_at(0).frames[0] {
        PlayerFrame::Data { jump_active, boost_amount, is_team_0, .. } => {
            assert!(*jump_active);
            assert_eq!(*boost_amount, 0);
            assert_eq!(*is_team_0, Some(true));
        }
        PlayerFrame::Empty => panic!("player one is present at the first index"),
    }
    assert_eq!(data.meta.team_zero.len(), 1);
    assert_eq!(data.meta.team_zero[0].name, "one".to_owned());
    assert!(data.demolish_infos.is_empty());
    assert_eq!(data.frame_data.metadata_frames[0].seconds_remaining, 300);
}

#[test]
fn player_stats_rows_are_matched_by_platform_and_id() {
    let row_steam = vec![
        (
            "Platform".to_owned(),
            HeaderScalar::Byte {
                kind: "OnlinePlatform".to_owned(),
                value: Some("OnlinePlatform_Steam".to_owned()),
            },
        ),
        ("OnlineID".to_owned(), HeaderScalar::QWord(1)),
    ];
    let row_epic = vec![
        (
            "Platform".to_owned(),
            HeaderScalar::Byte {
                kind: "OnlinePlatform".to_owned(),
                value: Some("OnlinePlatform_Epic".to_owned()),
            },
        ),
        ("OnlineID".to_owned(), HeaderScalar::QWord(0)),
        ("Name".to_owned(), HeaderScalar::Str("epic one".to_owned())),
    ];
    let all = vec![row_steam.clone(), row_epic.clone()];

    assert_eq!(platform_matches(&RemoteId::Steam(1), &row_steam), Some(true));
    assert_eq!(platform_matches(&RemoteId::Steam(1), &row_epic), Some(false));
    assert!(matches_stats(&RemoteId::Steam(1), &"x".to_owned(), &row_steam));
    assert!(!matches_stats(&RemoteId::Steam(2), &"x".to_owned(), &row_steam));

    let found = find_player_stats(&RemoteId::Epic("x".to_owned()), &"epic one".to_owned(), &all)
        .expect("the epic row matches by name");
    assert_eq!(found.len(), 3);
    assert!(find_player_stats(&RemoteId::Steam(9), &"x".to_owned(), &all).is_err());
}

struct CountingCollector {
    invocations: usize,
}

impl subtr_actor::Collector for CountingCollector {
    fn process_frame(
        &mut self,
        _processor: &ReplayProcessor,
        _frame: &Frame,
        _frame_number: usize,
        _target_time: Milli,
    ) -> SubtrActorResult<TimeAdvance> {
        self.invocations += 1;
        Ok(TimeAdvance::NextFrame)
    }
}

#[test]
fn frame_rate_decorator_limits_invocations() {
    // Three frames 100 ms apart. A 150 ms target duration skips the middle
    // frame; a zero duration invokes the wrapped collector every frame.
    let mut slow = FrameRateDecorator::new(150, CountingCollector { invocations: 0 });
    let mut processor = ReplayProcessor::new(full_replay()).expect("processor");
    processor.process(&mut slow).expect("process");
    assert_eq!(slow.collector.invocations, 2);

    let mut fast = FrameRateDecorator::new(0, CountingCollector { invocations: 0 });
    let mut processor = ReplayProcessor::new(full_replay()).expect("processor");
    processor.process(&mut fast).expect("process");
    assert_eq!(fast.collector.invocations, 3);
}

#[test]
fn map_entries_insert_once_per_player() {
    let mut map: PlayerMap<PlayerData> = PlayerMap::new();
    let p = RemoteId::Steam(42);
    let entry = get_entry(&map, &p);
    let i = entry.or_insert_with(&mut map, &p, PlayerData::new);
    assert_eq!(i, 0);
    assert_eq!(map.len(), 1);
    // Looking the same player up again finds the occupied position.
    let entry = get_entry(&map, &p);
    let j = entry.or_insert_with(&mut map, &p, PlayerData::new);
    assert_eq!(j, 0);
    assert_eq!(map.len(), 1);
    let q = RemoteId::Steam(43);
    let entry = get_entry(&map, &q);
    let k = entry.or_insert_with(&mut map, &q, PlayerData::new);
    assert_eq!(k, 1);
    assert_eq!(map.len(), 2);
}
