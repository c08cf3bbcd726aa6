use crate::canvas::{Canvas, DrawCommand, Renderable};
use crate::sprite::AnimatedSprite;
use vstd::prelude::*;

verus! {

/// What a unit is doing.
#[derive(Clone, Copy, Debug, PartialEq, Eq)]
pub enum UnitAction {
    Idle,
    Moving,
}

/// One of the four ways a unit can face.
#[derive(Clone, Copy, Debug, PartialEq, Eq)]
pub enum Direction {
    Up,
    Down,
    Left,
    Right,
}

/// A key of the keyboard, as far as the scene tells keys apart.
#[derive(Clone, Copy, Debug, PartialEq, Eq)]
pub enum Key {
    Up,
    Down,
    Left,
    Right,
    Escape,
    /// Any other key.
    Other,
}

impl Key {
    /// The direction a key stands for, if it is one of the four arrow keys.
    pub open spec fn direction(self) -> Option<Direction> {
        match self {
            Key::Up => Some(Direction::Up),
            Key::Down => Some(Direction::Down),
            Key::Left => Some(Direction::Left),
            Key::Right => Some(Direction::Right),
            Key::Escape => None,
            Key::Other => None,
        }
    }
}

/// A character with one animation per direction. Exactly one direction is
/// faced at a time, and only the animation of that direction is advanced
/// and drawn.
#[derive(Clone, Copy, Debug, PartialEq, Eq)]
pub struct Unit {
    pub up: AnimatedSprite,
    pub down: AnimatedSprite,
    pub left: AnimatedSprite,
    pub right: AnimatedSprite,
    pub current_action: UnitAction,
    pub direction: Direction,
}

impl Unit {
    /// The animation that belongs to `direction`.
    pub open spec fn sprite_for(&self, direction: Direction) -> AnimatedSprite {
        match direction {
            Direction::Up => self.up,
            Direction::Down => self.down,
            Direction::Left => self.left,
            Direction::Right => self.right,
        }
    }

    /// The unit with the animation of its current direction replaced.
    pub open spec fn with_facing(&self, sprite: AnimatedSprite) -> Unit {
        match self.direction {
            Direction::Up => Unit { up: sprite, ..*self },
            Direction::Down => Unit { down: sprite, ..*self },
            Direction::Left => Unit { left: sprite, ..*self },
            Direction::Right => Unit { right: sprite, ..*self },
        }
    }

    /// The time that reaches the animation: none while idle, so that the
    /// animation stays frozen, all of it while moving.
    pub open spec fn effective_elapsed(&self, elapsed: i32) -> i32 {
        match self.current_action {
            UnitAction::Idle => 0,
            UnitAction::Moving => elapsed,
        }
    }

    /// The unit after `key` was pressed: an arrow key turns it that way and
    /// sets it moving, any other key changes nothing.
    pub open spec fn after_input(&self, key: Key) -> Unit {
        match key.direction() {
            Some(direction) => Unit {
                direction: direction,
                current_action: UnitAction::Moving,
                ..*self
            },
            None => *self,
        }
    }

    /// The unit after its current direction's animation took `elapsed`
    /// milliseconds, whatever the unit is doing.
    pub open spec fn moved(&self, size: (u32, u32), elapsed: i32) -> Unit {
        self.with_facing(self.sprite_for(self.direction).rendered(size, elapsed))
    }

    /// The unit after `times` renders with the same elapsed time.
    pub open spec fn rendered_times(&self, size: (u32, u32), elapsed: i32, times: nat) -> Unit
        decreases times,
    {
        if times == 0 {
            *self
        } else {
            self.rendered_times(size, elapsed, (times - 1) as nat).rendered(size, elapsed)
        }
    }

    /// Whether `times` renders in a row with the same elapsed time are all
    /// allowed: none are asked for, or the animation of the current
    /// direction is well formed and can take the effective time that often.
    pub open spec fn renderable_times(&self, size: (u32, u32), elapsed: i32, times: nat) -> bool {
        times > 0 ==> {
            &&& self.sprite_for(self.direction).wf()
            &&& i32::MIN <= self.sprite_for(self.direction).last_frame_at + times
                * self.effective_elapsed(elapsed) <= i32::MAX
        }
    }

    /// A unit that faces down and stands idle.
    pub fn new(
        up: AnimatedSprite,
        down: AnimatedSprite,
        left: AnimatedSprite,
        right: AnimatedSprite,
    ) -> (unit: Unit)
        ensures
            unit == (Unit {
                up: up,
                down: down,
                left: left,
                right: right,
                current_action: UnitAction::Idle,
                direction: Direction::Down,
            }),
    {
        Unit {
            up: up,
            down: down,
            left: left,
            right: right,
            direction: Direction::Down,
            current_action: UnitAction::Idle,
        }
    }

    /// Takes a key press.
    pub fn consume_input(&mut self, key: Key)
        ensures
            *final(self) == old(self).after_input(key),
    {
        match key {
            Key::Up => {
                self.direction = Direction::Up;
                self.current_action = UnitAction::Moving;
            },
            Key::Down => {
                self.direction = Direction::Down;
                self.current_action = UnitAction::Moving;
            },
            Key::Left => {
                self.direction = Direction::Left;
                self.current_action = UnitAction::Moving;
            },
            Key::Right => {
                self.direction = Direction::Right;
                self.current_action = UnitAction::Moving;
            },
            _ => {},
        };
    }

    /// Decides whether `render_moving` may be called.
    pub fn can_render_moving(&self, canvas: &Canvas, elapsed: i32) -> (ok: bool)
        ensures
            ok == self.sprite_for(self.direction).renderable(canvas.size, elapsed),
    {
        match self.direction {
            Direction::Up => self.up.can_render(canvas, elapsed),
            Direction::Down => self.down.can_render(canvas, elapsed),
            Direction::Right => self.right.can_render(canvas, elapsed),
            Direction::Left => self.left.can_render(canvas, elapsed),
        }
    }

    /// Decides `renderable_times` at run time.
    pub fn can_render_times(&self, canvas: &Canvas, elapsed: i32, times: u64) -> (ok: bool)
        ensures
            ok == self.renderable_times(canvas.size, elapsed, times as nat),
    {
        if times == 0 {
            return true;
        }
        let step: i32 = match self.current_action {
            UnitAction::Idle => 0,
            UnitAction::Moving => elapsed,
        };
        let (formed, start): (bool, i32) = match self.direction {
            Direction::Up => (self.up.is_well_formed(), self.up.last_frame_at),
            Direction::Down => (self.down.is_well_formed(), self.down.last_frame_at),
            Direction::Right => (self.right.is_well_formed(), self.right.last_frame_at),
            Direction::Left => (self.left.is_well_formed(), self.left.last_frame_at),
        };
        assert(-0x8000_0000_0000_0000_0000_0000 <= times * step <= 0x8000_0000_0000_0000_0000_0000)
            by (nonlinear_arith)
            requires
                0 <= times <= 0xffff_ffff_ffff_ffff,
                -0x8000_0000 <= step <= 0x8000_0000,
        ;
        let total: i128 = start as i128 + times as i128 * step as i128;
        formed && -0x8000_0000 <= total && total <= 0x7fff_ffff
    }

    /// Renders the animation of the current direction with `elapsed`
    /// milliseconds and leaves the three others alone.
    pub fn render_moving(&mut self, canvas: &mut Canvas, elapsed: i32)
        requires
            old(self).sprite_for(old(self).direction).renderable(old(canvas).size, elapsed),
        ensures
            *final(self) == old(self).moved(old(canvas).size, elapsed),
            final(canvas).size == old(canvas).size,
            final(canvas).commands@ == old(canvas).commands@ + old(self).sprite_for(
                old(self).direction,
            ).commands(old(canvas).size, elapsed),
    {
        match self.direction {
            Direction::Up => self.up.render(canvas, elapsed),
            Direction::Down => self.down.render(canvas, elapsed),
            Direction::Right => self.right.render(canvas, elapsed),
            Direction::Left => self.left.render(canvas, elapsed),
        }
    }
}

impl Renderable for Unit {
    /// The animation of the current direction can take the effective time.
    open spec fn renderable(&self, size: (u32, u32), elapsed: i32) -> bool {
        self.sprite_for(self.direction).renderable(size, self.effective_elapsed(elapsed))
    }

    /// Only the animation of the current direction has moved on, by the
    /// effective time.
    open spec fn rendered(&self, size: (u32, u32), elapsed: i32) -> Self {
        self.moved(size, self.effective_elapsed(elapsed))
    }

    /// What the animation of the current direction submits.
    open spec fn commands(&self, size: (u32, u32), elapsed: i32) -> Seq<DrawCommand> {
        self.sprite_for(self.direction).commands(size, self.effective_elapsed(elapsed))
    }

    fn can_render(&self, canvas: &Canvas, elapsed: i32) -> (ok: bool) {
        match self.current_action {
            UnitAction::Idle => self.can_render_moving(canvas, 0),
            UnitAction::Moving => self.can_render_moving(canvas, elapsed),
        }
    }

    fn render(&mut self, canvas: &mut Canvas, elapsed: i32) {
        match self.current_action {
            UnitAction::Idle => {
                self.render_moving(canvas, 0);
            },
            UnitAction::Moving => {
                self.render_moving(canvas, elapsed);
            },
        };
    }
}

/// Pressing an arrow key and then rendering advances and draws exactly the
/// animation of that arrow's direction, by the full elapsed time, and leaves
/// the other three as they were. Any other key leaves the unit unchanged.
pub proof fn lemma_input_selects_sprite(unit: Unit, key: Key, size: (u32, u32), elapsed: i32)
    ensures
        match key.direction() {
            Some(direction) => {
                let turned = unit.after_input(key);
                let shown = unit.sprite_for(direction);
                &&& turned.direction == direction
                &&& turned.current_action == UnitAction::Moving
                &&& turned.renderable(size, elapsed) == shown.renderable(size, elapsed)
                &&& turned.commands(size, elapsed) == shown.commands(size, elapsed)
                &&& turned.rendered(size, elapsed).sprite_for(direction) == shown.rendered(
                    size,
                    elapsed,
                )
                &&& forall|other: Direction|
                    other != direction ==> #[trigger] turned.rendered(size, elapsed).sprite_for(
                        other,
                    ) == unit.sprite_for(other)
            },
            None => unit.after_input(key) == unit,
        },
{
}

/// Where a unit can be rendered `most` times in a row, each of the renders
/// is allowed when its turn comes, and after `times` of them the unit still
/// faces and acts as before, with `times` effective times accumulated by
/// the animation of its direction.
pub proof fn lemma_rendered_times(
    unit: Unit,
    size: (u32, u32),
    elapsed: i32,
    times: nat,
    most: nat,
)
    requires
        times <= most,
        unit.renderable_times(size, elapsed, most),
    ensures
        ({
            let after = unit.rendered_times(size, elapsed, times);
            let step = unit.effective_elapsed(elapsed);
            &&& after.direction == unit.direction
            &&& after.current_action == unit.current_action
            &&& after.sprite_for(after.direction).last_frame_at == unit.sprite_for(
                unit.direction,
            ).last_frame_at + times * step
            &&& times < most ==> after.renderable(size, elapsed)
            &&& forall|other: Direction|
                other != unit.direction ==> #[trigger] after.sprite_for(other) == unit.sprite_for(
                    other,
                )
        }),
    decreases times,
{
    let step = unit.effective_elapsed(elapsed) as int;
    let start = unit.sprite_for(unit.direction).last_frame_at as int;
    let after = unit.rendered_times(size, elapsed, times);
    assert(start + times * step == start + (times - 1) * step + step && (times == 0 ==> times
        * step == 0) && (most > 0 ==> i32::MIN <= start + times * step <= i32::MAX) && (times
        < most ==> i32::MIN <= start + times * step + step <= i32::MAX)) by (nonlinear_arith)
        requires
            0 <= times <= most,
            i32::MIN <= start <= i32::MAX,
            most > 0 ==> i32::MIN <= start + most * step <= i32::MAX,
    ;
    if times > 0 {
        let before = unit.rendered_times(size, elapsed, (times - 1) as nat);
        lemma_rendered_times(unit, size, elapsed, (times - 1) as nat, most);
        assert(after == before.rendered(size, elapsed));
        assert forall|other: Direction| other != unit.direction implies #[trigger] after.sprite_for(
            other,
        ) == unit.sprite_for(other) by {
            assert(before.sprite_for(other) == unit.sprite_for(other));
        }
    }
}

} // verus!
