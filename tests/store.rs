use quad_render::aabb::{Aabb, Vec2, UNITS_PER_PIXEL};
use quad_render::game::{Colour, EntityIdAllocator, GameState, ToRender};
use quad_render::input::{Dir, InputEvent, InputModel};
use quad_render::render::{new_upload_buffer, write_instances, QuadInstance, MAX_INSTANCES};

const U: i64 = UNITS_PER_PIXEL;

fn player_start() -> Aabb {
    Aabb::new(Vec2::new(40 * U, 60 * U), Vec2::new(10 * U, 16 * U))
}

#[test]
fn allocator_counts_up_from_zero() {
    let mut a = EntityIdAllocator::default();
    for expected in 0..100u16 {
        assert!(a.can_allocate());
        assert_eq!(a.allocate(), expected);
    }
}

#[test]
fn allocator_runs_out_at_the_last_id() {
    let mut a = EntityIdAllocator::default();
    for expected in 0..u16::MAX {
        assert_eq!(a.allocate(), expected);
    }
    assert!(!a.can_allocate());
}

#[test]
fn startup_store_holds_the_player_alone() {
    let g = GameState::new();
    let r = g.to_render();
    assert_eq!(r, vec![ToRender { id: 0, aabb: player_start(), colour: Colour::new(255, 0, 0) }]);
}

#[test]
fn update_moves_player_up_one_pixel() {
    let mut g = GameState::new();
    let mut input = InputModel::default();
    input.set_y(-U);
    g.update(&input);
    let r = g.to_render();
    assert_eq!(r.len(), 1);
    assert_eq!(r[0].aabb, Aabb::new(Vec2::new(40 * U, 59 * U), Vec2::new(10 * U, 16 * U)));
}

#[test]
fn update_with_zero_input_keeps_player() {
    let mut g = GameState::new();
    let input = InputModel::default();
    g.update(&input);
    g.update(&input);
    assert_eq!(g.to_render()[0].aabb, player_start());
}

#[test]
fn update_with_unit_x_shifts_x_only() {
    let mut g = GameState::new();
    let mut input = InputModel::default();
    input.set_x(U);
    g.update(&input);
    let a = g.to_render()[0].aabb;
    assert_eq!(a.top_left_coord, Vec2::new(41 * U, 60 * U));
    assert_eq!(a.size, Vec2::new(10 * U, 16 * U));
}

#[test]
fn update_has_no_time_scaling() {
    let mut g = GameState::new();
    let mut input = InputModel::default();
    input.set_x(U / 2);
    for _ in 0..3 {
        g.update(&input);
    }
    assert_eq!(g.to_render()[0].aabb.top_left_coord, Vec2::new(40 * U + 3 * (U / 2), 60 * U));
}

#[test]
fn diagonal_update_is_capped() {
    let mut g = GameState::new();
    let mut input = InputModel::default();
    input.set_x(U);
    input.set_y(U);
    g.update(&input);
    let v = input.vector();
    assert_eq!(g.to_render()[0].aabb.top_left_coord, Vec2::new(40 * U + v.x, 60 * U + v.y));
    assert!(v.x < U);
}

#[test]
fn snapshot_is_the_join_of_both_tables() {
    let mut g = GameState::new();
    let one = g.create_entity();
    let two = g.create_entity();
    assert_eq!((one, two), (1, 2));
    g.insert_aabb(one, Aabb::new(Vec2::new(0, 0), Vec2::new(U, U)));
    g.insert_colour(two, Colour::new(0, 0, 255));
    let ids: Vec<u16> = g.to_render().iter().map(|t| t.id).collect();
    assert_eq!(ids, vec![0]);
    g.insert_colour(one, Colour::new(7, 7, 7));
    let ids: Vec<u16> = g.to_render().iter().map(|t| t.id).collect();
    assert_eq!(ids, vec![0, 1]);
}

#[test]
fn snapshot_lists_entities_with_both_components() {
    let mut g = GameState::new();
    let one = g.create_entity();
    let geometry = Aabb::new(Vec2::new(U, 2 * U), Vec2::new(3 * U, 4 * U));
    g.insert_aabb(one, geometry);
    g.insert_colour(one, Colour::new(0, 255, 0));
    let r = g.to_render();
    assert_eq!(r.len(), 2);
    assert_eq!(r[1], ToRender { id: 1, aabb: geometry, colour: Colour::new(0, 255, 0) });
}

#[test]
fn colour_can_be_replaced() {
    let mut g = GameState::new();
    g.insert_colour(0, Colour::new(1, 2, 3));
    assert_eq!(g.to_render()[0].colour, Colour::new(1, 2, 3));
}

#[test]
fn input_below_one_pixel_is_unchanged() {
    let mut input = InputModel::default();
    input.set_x(U / 2);
    input.set_y(0);
    assert_eq!(input.vector(), Vec2::new(U / 2, 0));
}

#[test]
fn input_of_exactly_one_pixel_is_unchanged() {
    let mut input = InputModel::default();
    input.set_y(-U);
    assert_eq!(input.vector(), Vec2::new(0, -U));
}

#[test]
fn diagonal_input_is_scaled_to_one_pixel() {
    let mut input = InputModel::default();
    input.set_x(U);
    input.set_y(U);
    let v = input.vector();
    assert_eq!(v, Vec2::new(11863282, 11863282));
    assert!(v.x * v.x + v.y * v.y <= U * U);
    let len = ((v.x * v.x + v.y * v.y) as f64).sqrt() / U as f64;
    assert!((len - 1.0).abs() <= 1e-6);
    let diag = 1.0 / 2f64.sqrt();
    assert!((v.x as f64 / U as f64 - diag).abs() <= 1e-6);
}

#[test]
fn input_sign_is_kept_when_scaled() {
    let mut input = InputModel::default();
    input.set_x(-3 * U);
    input.set_y(4 * U);
    let v = input.vector();
    assert!(v.x < 0 && v.y > 0);
    assert!(v.x * v.x + v.y * v.y <= U * U);
    assert_eq!(v, Vec2::new(-10066329, 13421772));
}

#[test]
fn input_last_write_wins() {
    let mut input = InputModel::default();
    input.set_x(U);
    input.set_x(-U / 4);
    assert_eq!(input.vector(), Vec2::new(-U / 4, 0));
}

#[test]
fn extreme_input_stays_within_one_pixel() {
    let mut input = InputModel::default();
    input.set_x(i64::MIN);
    input.set_y(i64::MAX);
    let v = input.vector();
    assert!(v.x * v.x + v.y * v.y <= U * U);
    assert!(v.x < 0 && v.y > 0);
}

#[test]
fn write_instances_fills_in_order() {
    let g = GameState::new();
    let snapshot = g.to_render();
    let mut upload = new_upload_buffer();
    assert_eq!(upload.len(), MAX_INSTANCES);
    let count = write_instances(&mut upload, &snapshot);
    assert_eq!(count, 1);
    assert_eq!(
        upload[0],
        QuadInstance {
            position: Vec2::new(40 * U, 60 * U),
            size: Vec2::new(10 * U, 16 * U),
            colour: Colour::new(255, 0, 0)
        }
    );
    assert_eq!(upload[1], QuadInstance::zeroed());
}

#[test]
fn write_instances_of_empty_snapshot_writes_nothing() {
    let mut upload = new_upload_buffer();
    assert_eq!(write_instances(&mut upload, &Vec::new()), 0);
    assert!(upload.iter().all(|q| *q == QuadInstance::zeroed()));
}

#[test]
fn oversized_snapshot_is_truncated_to_capacity() {
    let mut g = GameState::new();
    for i in 1..1200i64 {
        let id = g.create_entity();
        g.insert_aabb(id, Aabb::new(Vec2::new(i, 0), Vec2::new(U, U)));
        g.insert_colour(id, Colour::new(0, 0, (i % 256) as u8));
    }
    let snapshot = g.to_render();
    assert_eq!(snapshot.len(), 1200);
    let mut upload = new_upload_buffer();
    let count = write_instances(&mut upload, &snapshot);
    assert_eq!(count, 1024);
    assert_eq!(snapshot.len() - count, 176);
    assert_eq!(upload.len(), MAX_INSTANCES);
    assert_eq!(upload[1023].position, Vec2::new(1023, 0));
}

#[test]
fn created_entity_is_fresh_and_bare() {
    let mut g = GameState::new();
    let id = g.create_entity();
    assert_eq!(id, 1);
    assert_eq!(g.to_render().len(), 1);
    g.insert_aabb(id, player_start());
    assert_eq!(g.to_render().len(), 1);
    g.insert_colour(id, Colour::new(9, 9, 9));
    assert_eq!(g.to_render().len(), 2);
    assert_eq!(g.create_entity(), 2);
}

#[test]
fn player_id_and_geometry_lookup() {
    let mut g = GameState::new();
    assert_eq!(g.player_id(), 0);
    assert_eq!(g.aabb_of(0), Some(player_start()));
    let id = g.create_entity();
    assert_eq!(g.aabb_of(id), None);
    assert_eq!(g.aabb_of(500), None);
}

#[test]
fn keyboard_up_is_negative_y() {
    let mut input = InputModel::default();
    input.apply(InputEvent::KeyPressed(Dir::Up));
    assert_eq!(input.vector(), Vec2::new(0, -U));
    input.apply(InputEvent::KeyReleased(Dir::Up));
    assert_eq!(input.vector(), Vec2::new(0, 0));
    input.apply(InputEvent::KeyPressed(Dir::Down));
    input.apply(InputEvent::KeyPressed(Dir::Left));
    let v = input.vector();
    assert!(v.x < 0 && v.y > 0);
}

#[test]
fn gamepad_up_is_negative_y() {
    let mut input = InputModel::default();
    input.apply(InputEvent::PadPressed(Dir::Up));
    assert_eq!(input.vector(), Vec2::new(0, -U));
    input.apply(InputEvent::PadPressed(Dir::Right));
    input.apply(InputEvent::PadReleased(Dir::Down));
    assert_eq!(input.vector(), Vec2::new(U, 0));
    input.apply(InputEvent::PadChanged(Dir::Left, U / 2));
    assert_eq!(input.vector(), Vec2::new(-U / 2, 0));
    input.apply(InputEvent::PadChanged(Dir::Down, U / 4));
    assert_eq!(input.vector(), Vec2::new(-U / 2, U / 4));
    input.apply(InputEvent::PadChanged(Dir::Up, U / 4));
    assert_eq!(input.vector(), Vec2::new(-U / 2, -U / 4));
}

#[test]
fn stick_y_is_flipped() {
    let mut input = InputModel::default();
    input.apply(InputEvent::StickX(U / 2));
    input.apply(InputEvent::StickY(U / 8));
    assert_eq!(input.vector(), Vec2::new(U / 2, -U / 8));
    input.apply(InputEvent::KeyPressed(Dir::Right));
    let v = input.vector();
    assert!(v.x > 0 && v.y < 0 && v.x > 8 * (-v.y) - 8);
    input.apply(InputEvent::StickY(-U / 2));
    assert!(input.vector().y > 0);
    assert!(v.x * v.x + v.y * v.y <= U * U);
    assert!(v.x * v.x + v.y * v.y >= (U - 4) * (U - 4));
}
