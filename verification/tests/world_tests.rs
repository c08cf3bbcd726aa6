use renderables::canvas::{Canvas, DrawCommand, Rect, Renderable, Sprite};
use renderables::sprite::create_frog_sprite;
use renderables::unit::{Key, Unit};
use renderables::world::{check_grid_fits, key_of_cell, Object, World};

fn frog_unit() -> Unit {
    Unit::new(
        create_frog_sprite((0, 0), 1, 9),
        create_frog_sprite((0, 0), 0, 9),
        create_frog_sprite((0, 0), 2, 9),
        create_frog_sprite((0, 0), 3, 9),
    )
}

fn grass() -> Sprite {
    Sprite {
        texture: 2,
        texture_rect: Rect { left: 60, top: 0, width: 30, height: 30 },
        position: (100, 100),
    }
}

fn grass_at(x: i64, y: i64) -> DrawCommand {
    DrawCommand::Sprite(Sprite { position: (x, y), ..grass() })
}

fn world(columns: u32, rows: u32) -> World {
    World::new(frog_unit(), grass(), (columns, rows), 30).unwrap()
}

#[test]
fn cell_keys_hold_column_and_row() {
    assert_eq!(key_of_cell(0, 0), 0);
    assert_eq!(key_of_cell(0, 4), 4);
    assert_eq!(key_of_cell(1, 0), 4_294_967_296);
    assert_eq!(key_of_cell(3, 7), 3 * 4_294_967_296 + 7);
    assert_eq!(key_of_cell(u32::MAX, u32::MAX), u64::MAX);
    assert_ne!(key_of_cell(1, 2), key_of_cell(2, 1));
}

#[test]
fn new_world_is_empty() {
    let world = world(15, 15);
    assert!(world.objects.is_empty());
    assert_eq!(world.player, frog_unit());
    assert_eq!(world.default_sprite, grass());
    assert_eq!(world.map_size, (15, 15));
    assert_eq!(world.tile_size, 30);
    assert_eq!(world.count_unit_renders(), 0);
}

#[test]
fn world_whose_cells_leave_the_pixel_range_is_refused() {
    assert!(check_grid_fits((15, 15), 30));
    assert!(check_grid_fits((0, 0), u32::MAX));
    assert!(check_grid_fits((1, 1), u32::MAX));
    assert!(check_grid_fits((2, 2), u32::MAX));
    assert!(!check_grid_fits((3, 2), u32::MAX));
    assert!(!check_grid_fits((2, 3), u32::MAX));
    assert!(check_grid_fits((u32::MAX, u32::MAX), 1));
    assert!(!check_grid_fits((u32::MAX, 1), 2));
    assert!(World::new(frog_unit(), grass(), (3, 2), u32::MAX).is_none());
    assert!(World::new(frog_unit(), grass(), (2, 2), u32::MAX).is_some());
}

#[test]
fn objects_are_placed_on_the_map_only() {
    let mut world = world(15, 15);
    assert!(world.place(0, 4, Object::Player));
    assert!(world.is_occupied(0, 4));
    assert!(!world.is_occupied(4, 0));
    assert!(!world.place(15, 0, Object::Player));
    assert!(!world.place(0, 15, Object::Player));
    assert!(!world.place(u32::MAX, u32::MAX, Object::Player));
    assert_eq!(world.objects.len(), 1);
    assert_eq!(world.objects.get(&key_of_cell(0, 4)), Some(&Object::Player));
    assert!(world.place(14, 14, Object::Player));
    assert!(world.place(0, 4, Object::Player));
    assert_eq!(world.objects.len(), 2);
    assert_eq!(world.count_unit_renders(), 2);
}

#[test]
fn world_draws_every_cell_and_the_unit_once() {
    let mut world = world(15, 15);
    assert!(world.place(0, 4, Object::Player));
    world.player.consume_input(Key::Right);
    let mut canvas = Canvas::new(800, 600);
    assert!(world.can_render(&canvas, 250));
    world.render(&mut canvas, 250);

    assert_eq!(canvas.commands.len(), 15 * 15 + 1);
    let mut grounds = 0;
    let mut units = 0;
    let mut next = 0usize;
    for column in 0..15i64 {
        for row in 0..15i64 {
            assert_eq!(canvas.commands[next], grass_at(column * 30, row * 30));
            grounds += 1;
            next += 1;
            if column == 0 && row == 4 {
                assert_eq!(canvas.commands[next], DrawCommand::Sprite(world.player.right.sprite));
                units += 1;
                next += 1;
            }
        }
    }
    assert_eq!(grounds, 225);
    assert_eq!(units, 1);
    assert_eq!(world.player.right.last_frame_at, 250);
    assert_eq!(world.player.right.sprite.texture_rect.left, 44);
    assert_eq!(world.player.right.sprite.position, (0, 0));
    assert_eq!(world.default_sprite, Sprite { position: (420, 420), ..grass() });
    assert_eq!(world.objects.len(), 1);
}

#[test]
fn unit_is_drawn_where_it_stands_not_where_the_object_lies() {
    let mut unit = frog_unit();
    unit.down.position = (77, 88);
    let mut world = World::new(unit, grass(), (3, 3), 30).unwrap();
    assert!(world.place(2, 1, Object::Player));
    let mut canvas = Canvas::new(800, 600);
    world.render(&mut canvas, 16);
    assert_eq!(canvas.commands.len(), 10);
    assert_eq!(canvas.commands[7], grass_at(60, 30));
    match canvas.commands[8] {
        DrawCommand::Sprite(sprite) => assert_eq!(sprite.position, (77, 88)),
        DrawCommand::Text(_) => panic!("a sprite was expected"),
    }
    assert_eq!(canvas.commands[9], grass_at(60, 60));
}

#[test]
fn world_without_objects_draws_the_ground_only() {
    let mut world = world(2, 3);
    let mut canvas = Canvas::new(800, 600);
    assert!(world.can_render(&canvas, 16));
    world.render(&mut canvas, 16);
    assert_eq!(
        canvas.commands,
        vec![
            grass_at(0, 0),
            grass_at(0, 30),
            grass_at(0, 60),
            grass_at(30, 0),
            grass_at(30, 30),
            grass_at(30, 60),
        ]
    );
    assert_eq!(world.player, frog_unit());
}

#[test]
fn world_renders_the_unit_once_per_object() {
    let mut world = world(2, 2);
    assert!(world.place(0, 0, Object::Player));
    assert!(world.place(1, 1, Object::Player));
    world.player.consume_input(Key::Down);
    let mut canvas = Canvas::new(800, 600);
    assert!(world.can_render(&canvas, 100));
    world.render(&mut canvas, 100);
    assert_eq!(canvas.commands.len(), 6);
    assert_eq!(world.player.down.last_frame_at, 200);
    let mut once = frog_unit();
    once.consume_input(Key::Down);
    let mut scratch = Canvas::new(800, 600);
    once.render(&mut scratch, 100);
    assert_eq!(canvas.commands[0], grass_at(0, 0));
    assert_eq!(canvas.commands[1], scratch.commands[0]);
    assert_eq!(canvas.commands[2], grass_at(0, 30));
    assert_eq!(canvas.commands[3], grass_at(30, 0));
    assert_eq!(canvas.commands[4], grass_at(30, 30));
    once.render(&mut scratch, 100);
    assert_eq!(canvas.commands[5], scratch.commands[1]);
    assert_eq!(world.player, once);
}

#[test]
fn idle_unit_in_the_world_stays_frozen() {
    let mut world = world(15, 15);
    assert!(world.place(0, 4, Object::Player));
    let mut canvas = Canvas::new(800, 600);
    world.render(&mut canvas, 250);
    assert_eq!(world.player.down.last_frame_at, 0);
    assert_eq!(world.player.down.sprite.texture_rect.left, 6);
    assert_eq!(canvas.commands.len(), 226);
}

#[test]
fn world_without_cells_draws_nothing() {
    let cases: [(u32, u32); 3] = [(0, 0), (0, 5), (5, 0)];
    for (columns, rows) in cases {
        let mut world = world(columns, rows);
        let mut canvas = Canvas::new(800, 600);
        assert!(world.can_render(&canvas, 16));
        world.render(&mut canvas, 16);
        assert!(canvas.commands.is_empty());
        assert_eq!(world.default_sprite, grass());
        assert_eq!(world.count_unit_renders(), 0);
    }
}

#[test]
fn objects_off_the_map_are_not_counted() {
    let mut world = world(2, 2);
    world.objects.insert(key_of_cell(5, 5), Object::Player);
    world.objects.insert(key_of_cell(1, 0), Object::Player);
    assert_eq!(world.count_unit_renders(), 1);
    assert!(world.is_occupied(5, 5));
    let mut canvas = Canvas::new(800, 600);
    world.render(&mut canvas, 16);
    assert_eq!(canvas.commands.len(), 5);
}

#[test]
fn world_refuses_a_frame_its_unit_cannot_take() {
    let canvas = Canvas::new(800, 600);
    let mut world = world(2, 2);
    world.player.consume_input(Key::Down);
    world.player.down.last_frame_at = i32::MAX - 150;
    assert!(world.can_render(&canvas, 100));
    assert!(world.place(0, 0, Object::Player));
    assert!(world.can_render(&canvas, 100));
    assert!(world.place(0, 1, Object::Player));
    assert!(!world.can_render(&canvas, 100));
    assert!(world.can_render(&canvas, 75));
    world.tile_size = u32::MAX;
    assert!(world.can_render(&canvas, 75));
    world.map_size = (3, 2);
    assert!(!world.can_render(&canvas, 75));
}
