use subtr_actor::{
    Milli, Quaternion, RigidBody, SearchDirection, Vector3, apply_velocities_to_rigid_body,
    coerce_advance, find_in_direction, get_interpolated_rigid_body, lerp_milli, muldiv_trunc,
    SubtrActorErrorVariant, TimeAdvance,
};

fn body(loc: (Milli, Milli, Milli), rot: (Milli, Milli, Milli, Milli), sleeping: bool) -> RigidBody {
    RigidBody {
        sleeping,
        location: Vector3 { x: loc.0, y: loc.1, z: loc.2 },
        rotation: Quaternion { x: rot.0, y: rot.1, z: rot.2, w: rot.3 },
        linear_velocity: Some(Vector3 { x: 0, y: 0, z: 0 }),
        angular_velocity: Some(Vector3 { x: 0, y: 0, z: 0 }),
    }
}

#[test]
fn test_get_interpolated_rigid_body() {
    // Bodies at (0, 0, 0) and (1, 1, 1), in milli-units, over one second.
    let start_body = body((0, 0, 0), (0, 0, 0, 1000), false);
    let end_body = body((1000, 1000, 1000), (0, 0, 1000, 0), true);
    let start_time: Milli = 0;
    let end_time: Milli = 1000;
    let time: Milli = 500;

    let result = get_interpolated_rigid_body(&start_body, start_time, &end_body, end_time, time);

    match result {
        Ok(interpolated_body) => {
            assert_eq!(interpolated_body.location.x, 500);
            assert_eq!(interpolated_body.location.y, 500);
            assert_eq!(interpolated_body.location.z, 500);
        }
        Err(e) => panic!("Interpolation failed: {e:?}"),
    };
}

#[test]
fn test_find_update_in_direction() {
    let items = vec![1, 2, 3, 4, 5, 6, 7, 8, 9, 10];
    let current_index = 4; // Starting search from number 5
    let predicate = |x: &i32| if *x % 2 == 0 { Some(*x) } else { None }; // Looking for the first even number

    // Test forward search.
    let result_forward =
        find_in_direction(&items, current_index, SearchDirection::Forward, predicate);
    // Check that the result is as expected.
    assert_eq!(result_forward, Some((5, 6))); // First even number after index 4 is 6 at index 5

    // Test backward search.
    let result_backward =
        find_in_direction(&items, current_index, SearchDirection::Backward, predicate);
    // Check that the result is as expected.
    assert_eq!(result_backward, Some((3, 4))); // First even number before index 4 is 4 at index 3
}

#[test]
fn interpolation_outside_range_fails() {
    let start_body = body((0, 0, 0), (0, 0, 0, 1000), false);
    let end_body = body((10000, 0, 0), (0, 0, 0, 1000), false);
    let result = get_interpolated_rigid_body(&start_body, 1000, &end_body, 2000, 500);
    match result {
        Err(e) => assert!(matches!(
            e.variant,
            SubtrActorErrorVariant::InterpolationTimeOrderError { start_time: 1000, time: 500, end_time: 2000 }
        )),
        Ok(_) => panic!("a query before the window must fail"),
    }
}

#[test]
fn interpolation_quarter_point() {
    // Samples (0,0,0) at 1.0 s and (10,0,0) at 2.0 s: at 1.25 s the location
    // is (2.5, 0, 0).
    let start_body = body((0, 0, 0), (0, 0, 0, 1000), false);
    let end_body = body((10000, 0, 0), (0, 0, 0, 1000), false);
    let rb = get_interpolated_rigid_body(&start_body, 1000, &end_body, 2000, 1250).unwrap();
    assert_eq!(rb.location.x, 2500);
    assert_eq!(rb.location.y, 0);
    assert_eq!(rb.location.z, 0);
    assert!(!rb.sleeping);
}

#[test]
fn velocities_move_the_location_only() {
    let mut rb = body((1000, 2000, 3000), (0, 0, 0, 1000), false);
    rb.linear_velocity = Some(Vector3 { x: 2000, y: -1000, z: 0 });
    // No time passed: the body is unchanged.
    let same = apply_velocities_to_rigid_body(&rb, 0);
    assert_eq!(same.location.x, 1000);
    assert_eq!(same.location.y, 2000);
    assert_eq!(same.location.z, 3000);
    // Half a second at 2 units/s moves x by one unit.
    let moved = apply_velocities_to_rigid_body(&rb, 500);
    assert_eq!(moved.location.x, 2000);
    assert_eq!(moved.location.y, 1500);
    assert_eq!(moved.location.z, 3000);
    assert_eq!(moved.rotation.w, 1000);
    assert_eq!(moved.linear_velocity, rb.linear_velocity);
}

#[test]
fn scalar_interpolation_matches_formula() {
    assert_eq!(lerp_milli(0, 1000, 1, 2), 500);
    assert_eq!(lerp_milli(1000, 0, 1, 2), 500);
    assert_eq!(lerp_milli(-1000, 1000, 3, 4), 500);
    assert_eq!(muldiv_trunc(7, 2, 3), 4);
    assert_eq!(muldiv_trunc(-7, 2, 3), -4);
    assert_eq!(muldiv_trunc(7, -2, 3), -4);
}

#[test]
fn frame_rate_coercion_enforces_the_gap() {
    // A positive duration pushes the next invocation past the gap.
    match coerce_advance(TimeAdvance::NextFrame, 1000, 100) {
        TimeAdvance::Time(t) => assert_eq!(t, 1100),
        TimeAdvance::NextFrame => panic!("a positive gap must coerce to a time"),
    }
    match coerce_advance(TimeAdvance::Time(1050), 1000, 100) {
        TimeAdvance::Time(t) => assert_eq!(t, 1100),
        TimeAdvance::NextFrame => panic!(),
    }
    match coerce_advance(TimeAdvance::Time(1500), 1000, 100) {
        TimeAdvance::Time(t) => assert_eq!(t, 1500),
        TimeAdvance::NextFrame => panic!(),
    }
    // Duration zero leaves the request unchanged: the wrapped collector is
    // invoked every frame.
    assert!(matches!(coerce_advance(TimeAdvance::NextFrame, 1000, 0), TimeAdvance::NextFrame));
    assert!(matches!(coerce_advance(TimeAdvance::Time(1050), 1000, 0), TimeAdvance::Time(1050)));
}
