use terrain_flight::fixed_point::{FpVec2, FpVec3, FP_ONE};
use terrain_flight::height_map_data::{BoundingBox, HeightMapData};
use terrain_flight::ship_controller::{
    create_controller_data, ShipController, ShipControllerData, ShipControllerDataType,
    TransformData,
};

/// One tenth of a second, in fixed point.
const DT: i64 = 6554;

fn flat_field(byte: u8) -> HeightMapData {
    let mut img = Vec::new();
    for _ in 0..64 {
        img.extend_from_slice(&[byte, 0, 0, 255]);
    }
    let bb = BoundingBox {
        _min: FpVec3 { x: 0, y: 0, z: 0 },
        _size: FpVec3 {
            x: 100 * FP_ONE,
            y: 255 * FP_ONE,
            z: 100 * FP_ONE,
        },
    };
    HeightMapData::initialize_height_map_data(&bb, 8, 8, &img, 0).unwrap()
}

fn transform_at(x: i64, y: i64, z: i64) -> TransformData {
    TransformData {
        _position: FpVec3 { x, y, z },
        _left: FpVec2 { x: FP_ONE, z: 0 },
        _front: FpVec2 { x: 0, z: FP_ONE },
        _roll: 0,
    }
}

fn ship() -> ShipController {
    ShipController::create_ship_controller(
        create_controller_data(ShipControllerDataType::ShipController),
        10 * FP_ONE,
    )
}

#[test]
fn controller_data_archetypes() {
    let s: ShipControllerData = create_controller_data(ShipControllerDataType::ShipController);
    assert_eq!(s._controller_data_name, "LightShipController");
    assert_eq!(s._controller_data_type, ShipControllerDataType::ShipController);
    assert_eq!(s._max_ground_speed, 50 * FP_ONE);
    assert_eq!(s._boost_acceleration, 98304);
    let t = create_controller_data(ShipControllerDataType::TankController);
    assert_eq!(t._controller_data_name, "LightTankController");
    assert_eq!(t._controller_data_type, ShipControllerDataType::TankController);
}

#[test]
fn command_setters_record_intents() {
    let mut c = ship();
    c.acceleration_forward();
    assert_eq!(c._acceleration.z, FP_ONE);
    c.acceleration_backward();
    assert_eq!(c._acceleration.z, -FP_ONE);
    c.acceleration_left();
    assert_eq!(c._acceleration.x, FP_ONE);
    c.acceleration_right();
    assert_eq!(c._acceleration.x, -FP_ONE);
    c.acceleration_up();
    assert_eq!(c._acceleration.y, FP_ONE);
    c.acceleration_down();
    assert_eq!(c._acceleration.y, -FP_ONE);
    c.acceleration_pitch(1234);
    c.acceleration_yaw(-555);
    assert_eq!(c._rotation_acceleration.x, 1234);
    assert_eq!(c._rotation_acceleration.z, -555);
    c.boost_on();
    assert!(c._boost);
}

#[test]
fn update_clears_all_pending_commands() {
    let hm = flat_field(100);
    let mut c = ship();
    c.acceleration_forward();
    c.acceleration_up();
    c.acceleration_pitch(1000);
    c.boost_on();
    c.update_controller(DT, &transform_at(50 * FP_ONE, 200 * FP_ONE, 50 * FP_ONE), &hm);
    assert_eq!(c._acceleration, FpVec3 { x: 0, y: 0, z: 0 });
    assert_eq!(c._rotation_acceleration, FpVec2 { x: 0, z: 0 });
    assert!(!c._boost);
}

#[test]
fn zero_input_rotation_stops_immediately() {
    let hm = flat_field(100);
    let mut c = ship();
    c.acceleration_yaw(20000);
    let t = transform_at(50 * FP_ONE, 200 * FP_ONE, 50 * FP_ONE);
    c.update_controller(DT, &t, &hm);
    assert_ne!(c._rotation_velocity, FpVec2 { x: 0, z: 0 });
    // next frame has no rotation command: velocity resets outright
    c.update_controller(DT, &t, &hm);
    assert_eq!(c._rotation_velocity, FpVec2 { x: 0, z: 0 });
}

#[test]
fn zero_input_ground_velocity_converges_to_rest() {
    let hm = flat_field(0);
    let mut c = ship();
    c._ground_velocity = FpVec2 {
        x: 3 * FP_ONE,
        z: 4 * FP_ONE,
    };
    let t = transform_at(50 * FP_ONE, 200 * FP_ONE, 50 * FP_ONE);
    let mut last = 7 * FP_ONE;
    for _ in 0..100 {
        c.update_controller(DT, &t, &hm);
        let mag = c._ground_velocity.x.abs() + c._ground_velocity.z.abs();
        assert!(mag <= last);
        last = mag;
    }
    assert_eq!(c._ground_velocity, FpVec2 { x: 0, z: 0 });
}

#[test]
fn ground_clamp_snaps_onto_terrain() {
    let hm = flat_field(100);
    let mut c = ship();
    // actor 10 units below the surface, airborne, no vertical command
    let t = transform_at(50 * FP_ONE, 90 * FP_ONE, 50 * FP_ONE);
    c.update_controller(DT, &t, &hm);
    assert_eq!(c._position.y, 110 * FP_ONE); // terrain plus clearance
    assert_eq!(c._floating_velocity, 0);
    assert!(c._on_ground);
    assert_eq!(c._position.x, 50 * FP_ONE);
    assert_eq!(c._position.z, 50 * FP_ONE);
}

#[test]
fn boost_scales_ground_velocity_delta_exactly() {
    let hm = flat_field(0);
    let t = transform_at(50 * FP_ONE, 200 * FP_ONE, 50 * FP_ONE);
    let mut cfg = create_controller_data(ShipControllerDataType::ShipController);
    cfg._damping = 0; // leave the command increment untouched by damping
    let mut plain = ShipController::create_ship_controller(cfg.clone(), 10 * FP_ONE);
    let mut boosted = ShipController::create_ship_controller(cfg, 10 * FP_ONE);
    plain.acceleration_left();
    boosted.acceleration_left();
    boosted.boost_on();
    plain.update_controller(DT, &t, &hm);
    boosted.update_controller(DT, &t, &hm);
    // boost multiplier 1.5: deltas in the exact ratio 3 : 2
    assert_ne!(plain._ground_velocity.x, 0);
    assert_eq!(boosted._ground_velocity.x * 2, plain._ground_velocity.x * 3);
    assert_eq!(plain._ground_velocity.z, 0);
    assert_eq!(boosted._ground_velocity.z, 0);
}

#[test]
fn roll_eases_to_goal_without_overshoot_and_holds() {
    let hm = flat_field(0);
    let mut c = ship();
    let goal = -c._controller_data._side_step_roll;
    let mut t = transform_at(50 * FP_ONE, 200 * FP_ONE, 50 * FP_ONE);
    let mut dist = goal.abs();
    for _ in 0..50 {
        c.acceleration_left(); // keep steering so the goal stays put
        c.update_controller(DT, &t, &hm);
        t._roll = c.get_roll(); // the actor syncs its transform's roll
        let d = (c.get_roll() - goal).abs();
        assert!(d <= dist);
        dist = d;
    }
    assert_eq!(c.get_roll(), goal);
    // and one more frame holds it exactly
    c.acceleration_left();
    c.update_controller(DT, &t, &hm);
    assert_eq!(c.get_roll(), goal);
}

#[test]
fn airborne_actor_accumulates_gravity() {
    let hm = flat_field(0);
    let mut c = ship();
    let t = transform_at(50 * FP_ONE, 200 * FP_ONE, 50 * FP_ONE);
    c.update_controller(DT, &t, &hm);
    // gravity 9.8 for a tenth of a second: 642253 * 6554 / 65536
    assert_eq!(c._floating_velocity, -64229);
    assert!(!c._on_ground);
}

#[test]
fn vertical_command_raises_floating_velocity() {
    let hm = flat_field(0);
    let mut c = ship();
    let t = transform_at(50 * FP_ONE, 200 * FP_ONE, 50 * FP_ONE);
    c.acceleration_up();
    c.update_controller(DT, &t, &hm);
    // floating acceleration 30.0 over a tenth of a second, no gravity
    // while a vertical command is active
    assert_eq!(c._floating_velocity, 196620);
}

#[test]
fn rotation_velocity_is_clamped_to_maximum() {
    let hm = flat_field(0);
    let mut c = ship();
    let t = transform_at(50 * FP_ONE, 200 * FP_ONE, 50 * FP_ONE);
    // a pitch command strong enough to exceed the 10.0 cap
    c.acceleration_pitch(30 * FP_ONE);
    c.update_controller(DT, &t, &hm);
    assert_eq!(c._rotation_velocity.x, 10 * FP_ONE);
    assert_eq!(c._rotation_velocity.z, 0);
}

#[test]
fn getters_report_state() {
    let mut c = ship();
    c._rotation_velocity = FpVec2 { x: 11, z: -7 };
    c._position = FpVec3 { x: 1, y: 2, z: 3 };
    c._roll = 99;
    assert_eq!(c.get_velocity_pitch(), 11);
    assert_eq!(c.get_velocity_yaw(), -7);
    assert_eq!(c.get_position(), &FpVec3 { x: 1, y: 2, z: 3 });
    assert_eq!(c.get_roll(), 99);
}
