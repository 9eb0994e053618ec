use voxel_core::camera_computer::CameraComputer;
use voxel_core::components::{
    Acceleration, Angle2, Input, Position, Velocity,
};
use voxel_core::geom::Vec3;
use voxel_core::image_manager::ImageManager;
use voxel_core::mymath::Deg;
use voxel_core::player::Player;
use voxel_core::systems::{
    AngleController, PositionUpdater, VelocityController, VelocityUpdater,
};

fn vec3(x: i64, y: i64, z: i64) -> Vec3 {
    Vec3 { x, y, z }
}

#[test]
fn position_advances_by_velocity_times_tick() {
    let mut pos = Position(vec3(1, 2, 3));
    let vel = Velocity(vec3(10, -20, 30));
    PositionUpdater::run(&mut pos, &vel, 5);
    assert_eq!(pos.0, vec3(51, -98, 153));
}

#[test]
fn velocity_advances_by_acceleration_times_tick() {
    let mut vel = Velocity(vec3(0, 0, 0));
    VelocityUpdater::run(&mut vel, &Acceleration::gravity(), 3);
    assert_eq!(vel.0, vec3(0, -30, 0));
}

#[test]
fn horizontal_velocity_is_rewritten_each_tick() {
    // Instant-stop movement: no horizontal momentum persists between
    // ticks; only the vertical component carries over.
    let mut vel = Velocity(vec3(5, 7, 9));
    VelocityController::run(&mut vel);
    assert_eq!(vel.0, vec3(0, 7, 0));
}

#[test]
fn angles_turn_by_mouse_movement() {
    let mut angle = Angle2::new(Deg(100_000), Deg(0));
    let input = Input { mouse_delta_x: 3, mouse_delta_y: -2 };
    AngleController::run(&mut angle, &input, 10, 100);
    // pitch: 100 + 0.1 * 10 * 3 degrees; yaw: 0 + 0.1 * 10 * -2 degrees.
    assert_eq!(angle.pitch(), Deg(103_000));
    assert_eq!(angle.yaw(), Deg(-2_000));
}

#[test]
fn yaw_is_clamped_to_its_band() {
    let input_up = Input { mouse_delta_x: 0, mouse_delta_y: 100 };
    let mut angle = Angle2::new(Deg(0), Deg(85_000));
    AngleController::run(&mut angle, &input_up, 10, 100);
    assert_eq!(angle.yaw(), Deg(90_000));

    let input_down = Input { mouse_delta_x: 0, mouse_delta_y: -100 };
    let mut angle2 = Angle2::new(Deg(0), Deg(-85_000));
    AngleController::run(&mut angle2, &input_down, 10, 100);
    assert_eq!(angle2.yaw(), Deg(-90_000));
}

#[test]
fn pitch_wraps_once_around_the_circle() {
    let input_right = Input { mouse_delta_x: 10, mouse_delta_y: 0 };
    let mut angle = Angle2::new(Deg(355_000), Deg(0));
    AngleController::run(&mut angle, &input_right, 10, 100);
    // 355 + 10 = 365, wrapped down by a whole turn.
    assert_eq!(angle.pitch(), Deg(5_000));

    let input_left = Input { mouse_delta_x: -10, mouse_delta_y: 0 };
    let mut angle2 = Angle2::new(Deg(5_000), Deg(0));
    AngleController::run(&mut angle2, &input_left, 10, 100);
    // 5 - 10 = -5, wrapped up by a whole turn.
    assert_eq!(angle2.pitch(), Deg(355_000));
}

#[test]
fn angle_state_is_replaced_by_set() {
    let mut angle = Angle2::new(Deg(1), Deg(2));
    angle.set(Deg(30_000), Deg(-4_000));
    assert_eq!(angle.pitch(), Deg(30_000));
    assert_eq!(angle.yaw(), Deg(-4_000));
}

#[test]
fn eye_stands_above_the_player_position() {
    let camera = CameraComputer::new();
    let eye = camera.eye_position(&Position(vec3(4000, 2500, 4000)));
    assert_eq!(eye, vec3(4000, 2800, 4000));
}

#[test]
fn image_registry_stores_and_shadows_texture_handles() {
    let mut images = ImageManager::new();
    assert!(images.get_texture_id("atlas/blocks").is_none());
    images.register_image("atlas/blocks", 7);
    images.register_image("atlas/items", 9);
    assert_eq!(images.get_texture_id("atlas/blocks"), Some(7));
    assert_eq!(images.get_texture_id("atlas/items"), Some(9));
    images.register_image("atlas/blocks", 11);
    assert_eq!(images.get_texture_id("atlas/blocks"), Some(11));
}

#[test]
fn default_player_spawns_above_the_demonstration_floor() {
    let player = Player::default();
    assert_eq!(player.pos, vec3(4000, 2500, 4000));
    assert_eq!(player.angle.pitch(), Deg(225_000));
    assert_eq!(player.angle.yaw(), Deg(0));
    assert_eq!(player.collider.0, vec3(150, 450, 150));
    assert!(!player.on_ground);
}

#[test]
fn default_velocity_is_zero() {
    let vel = Velocity::default();
    assert_eq!(vel.0, vec3(0, 0, 0));
}

#[test]
fn gravity_points_straight_down() {
    let acc = Acceleration::gravity();
    assert_eq!(acc.0.x, 0);
    assert!(acc.0.y < 0);
    assert_eq!(acc.0.z, 0);
}
