use renderables::canvas::{Canvas, DrawCommand, Rect, Renderable, Sprite};
use renderables::sprite::{
    create_frog_sprite, frame_index, AnimatedSprite, FRAME_DURATION_MS, FRAME_MARGIN,
    FRAME_STRIDE,
};

fn frog(row: i32) -> AnimatedSprite {
    create_frog_sprite((0, 0), row, 9)
}

#[test]
fn frame_constants() {
    assert_eq!(FRAME_DURATION_MS, 100);
    assert_eq!(FRAME_STRIDE, 19);
    assert_eq!(FRAME_MARGIN, 2);
}

#[test]
fn frame_index_divides_by_hundred_and_wraps() {
    assert_eq!(frame_index(0, 7), 0);
    assert_eq!(frame_index(99, 7), 0);
    assert_eq!(frame_index(100, 7), 1);
    assert_eq!(frame_index(250, 7), 2);
    assert_eq!(frame_index(699, 7), 6);
    assert_eq!(frame_index(700, 7), 0);
    assert_eq!(frame_index(120, 7), 1);
    assert_eq!(frame_index(i32::MAX, 7), 5);
    assert_eq!(frame_index(i32::MAX, 1), 0);
}

#[test]
fn frame_index_is_never_negative() {
    assert_eq!(frame_index(-1, 7), 6);
    assert_eq!(frame_index(-100, 7), 6);
    assert_eq!(frame_index(-101, 7), 5);
    assert_eq!(frame_index(i32::MIN, 7), 1);
}

#[test]
fn frame_index_stays_in_range() {
    let mut time: i32 = -5000;
    while time <= 5000 {
        let mut frames: i32 = 1;
        while frames <= 9 {
            let index = frame_index(time, frames);
            assert!(0 <= index && index < frames);
            frames += 1;
        }
        time += 37;
    }
}

#[test]
fn create_frog_sprite_fills_the_fields() {
    let sprite = create_frog_sprite((12, -7), 3, 5);
    assert_eq!(
        sprite,
        AnimatedSprite {
            sprite: Sprite {
                texture: 5,
                texture_rect: Rect { left: 0, top: 0, width: 0, height: 0 },
                position: (0, 0),
            },
            offset: (4, 84),
            position: (12, -7),
            width: 19,
            height: 30,
            last_frame_at: 0,
            frames: 7,
        }
    );
    assert!(sprite.is_well_formed());
    assert_eq!(Sprite::new(5), sprite.sprite);
}

#[test]
fn animated_sprite_end_to_end_scenario() {
    let mut sprite = AnimatedSprite {
        sprite: Sprite::new(1),
        offset: (0, 0),
        position: (0, 0),
        width: 19,
        height: 30,
        last_frame_at: 0,
        frames: 7,
    };
    let mut canvas = Canvas::new(800, 600);
    assert!(sprite.can_render(&canvas, 250));
    sprite.render(&mut canvas, 250);
    assert_eq!(frame_index(sprite.last_frame_at, sprite.frames), 2);
    assert_eq!(sprite.sprite.texture_rect.left, 40);

    let mut frog = frog(2);
    frog.render(&mut canvas, 250);
    assert_eq!(frog.sprite.texture_rect, Rect { left: 44, top: 56, width: 19, height: 30 });
}

#[test]
fn render_submits_the_updated_sprite() {
    let mut sprite = create_frog_sprite((100, 200), 1, 3);
    let mut canvas = Canvas::new(800, 600);
    sprite.render(&mut canvas, 310);
    let shown = Sprite {
        texture: 3,
        texture_rect: Rect { left: 4 + 3 * 19 + 2, top: 28, width: 19, height: 30 },
        position: (100, 200),
    };
    assert_eq!(sprite.sprite, shown);
    assert_eq!(sprite.last_frame_at, 310);
    assert_eq!(canvas.size, (800, 600));
    assert_eq!(canvas.commands, vec![DrawCommand::Sprite(shown)]);
    assert_eq!(sprite.current_frame(), shown.texture_rect);
}

#[test]
fn elapsed_times_accumulate_over_renders() {
    let mut sprite = frog(0);
    let mut canvas = Canvas::new(800, 600);
    let steps: [i32; 6] = [60, 60, 16, 17, 400, 147];
    let mut total: i32 = 0;
    for step in steps {
        assert!(sprite.can_render(&canvas, step));
        sprite.render(&mut canvas, step);
        total += step;
        assert_eq!(sprite.last_frame_at, total);
        let index = frame_index(total, 7);
        assert_eq!(sprite.sprite.texture_rect.left, 4 + index * 19 + 2);
    }
    assert_eq!(total, 700);
    assert_eq!(sprite.sprite.texture_rect.left, 6);
    assert_eq!(canvas.commands.len(), 6);
}

#[test]
fn two_renders_show_what_one_render_of_the_sum_shows() {
    let mut twice = frog(1);
    let mut once = frog(1);
    let mut canvas = Canvas::new(10, 10);
    twice.render(&mut canvas, 130);
    twice.render(&mut canvas, 90);
    once.render(&mut canvas, 220);
    assert_eq!(twice, once);
}

#[test]
fn zero_elapsed_keeps_the_frame() {
    let mut sprite = frog(0);
    let mut canvas = Canvas::new(10, 10);
    sprite.render(&mut canvas, 350);
    let before = sprite;
    sprite.render(&mut canvas, 0);
    assert_eq!(sprite, before);
    assert_eq!(canvas.commands[0], canvas.commands[1]);
}

#[test]
fn negative_time_still_shows_a_frame_of_the_row() {
    let mut sprite = frog(0);
    let mut canvas = Canvas::new(10, 10);
    assert!(sprite.can_render(&canvas, -1));
    sprite.render(&mut canvas, -1);
    assert_eq!(sprite.last_frame_at, -1);
    assert_eq!(sprite.sprite.texture_rect.left, 4 + 6 * 19 + 2);
}

#[test]
fn sprite_without_frames_is_not_well_formed() {
    let mut sprite = frog(0);
    sprite.frames = 0;
    assert!(!sprite.is_well_formed());
    assert!(!sprite.can_render(&Canvas::new(1, 1), 10));
    sprite.frames = -3;
    assert!(!sprite.is_well_formed());
    sprite.frames = 1;
    assert!(sprite.is_well_formed());
}

#[test]
fn sprite_whose_last_frame_leaves_the_sheet_is_not_well_formed() {
    let mut sprite = frog(0);
    sprite.offset = (i32::MAX - 2 - 19 * 6, 0);
    assert!(sprite.is_well_formed());
    sprite.last_frame_at = 600;
    assert_eq!(sprite.current_frame().left, i32::MAX);
    sprite.offset = (i32::MAX - 2 - 19 * 6 + 1, 0);
    assert!(!sprite.is_well_formed());
}

#[test]
fn sprite_refuses_time_that_does_not_fit() {
    let mut sprite = frog(0);
    let canvas = Canvas::new(1, 1);
    sprite.last_frame_at = i32::MAX;
    assert!(sprite.can_render(&canvas, 0));
    assert!(!sprite.can_render(&canvas, 1));
    assert!(sprite.can_render(&canvas, -1));
    sprite.last_frame_at = i32::MIN;
    assert!(!sprite.can_render(&canvas, -1));
    assert!(sprite.can_render(&canvas, i32::MAX));
}
