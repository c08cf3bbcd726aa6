use crate::canvas::{Canvas, DrawCommand, Rect, Renderable, Sprite};
use vstd::arithmetic::div_mod::lemma_mod_bound;
use vstd::prelude::*;

verus! {

/// How long one animation frame stays up, in milliseconds.
pub const FRAME_DURATION_MS: i32 = 100;

/// Horizontal distance between the left edges of two neighbouring frames on
/// a sprite sheet, in texels.
pub const FRAME_STRIDE: i32 = 19;

/// Horizontal gap before the first frame on a sprite sheet, in texels.
pub const FRAME_MARGIN: i32 = 2;

/// The frame that is up once `accumulated` milliseconds have gone by, on a
/// sheet of `frames` frames: one frame per 100 ms, starting over after the
/// last. Division rounds down and the remainder is never negative, so the
/// index stays in range for negative times too.
pub open spec fn frame_index_at(accumulated: int, frames: int) -> int {
    (accumulated / FRAME_DURATION_MS as int) % frames
}

/// Where frame `index` starts on the sheet, left of any configured offset.
pub open spec fn frame_offset_at(index: int) -> int {
    index * FRAME_STRIDE + FRAME_MARGIN
}

/// The frame index is a valid frame number whatever time has gone by.
pub proof fn lemma_frame_index_in_range(accumulated: int, frames: int)
    requires
        frames >= 1,
    ensures
        0 <= frame_index_at(accumulated, frames) < frames,
{
    lemma_mod_bound(accumulated / FRAME_DURATION_MS as int, frames);
}

/// Computes `frame_index_at` on machine integers.
pub fn frame_index(accumulated: i32, frames: i32) -> (index: i32)
    requires
        frames >= 1,
    ensures
        index == frame_index_at(accumulated as int, frames as int),
        0 <= index < frames,
{
    proof {
        lemma_frame_index_in_range(accumulated as int, frames as int);
    }
    let ticks: i32 = match accumulated.checked_div_euclid(FRAME_DURATION_MS) {
        Some(q) => q,
        None => 0,
    };
    match ticks.checked_rem_euclid(frames) {
        Some(r) => r,
        None => 0,
    }
}

/// A sprite that cycles through the frames of one row of a sprite sheet.
#[derive(Clone, Copy, Debug, PartialEq, Eq)]
pub struct AnimatedSprite {
    /// The drawable, as last submitted.
    pub sprite: Sprite,
    /// Where this animation's row starts on the sheet.
    pub offset: (i32, i32),
    /// Where the sprite is drawn on the target.
    pub position: (i64, i64),
    /// Width of one frame.
    pub width: i32,
    /// Height of one frame.
    pub height: i32,
    /// Milliseconds accumulated over all renders so far.
    pub last_frame_at: i32,
    /// Number of frames in the row.
    pub frames: i32,
}

impl AnimatedSprite {
    /// There is at least one frame, and the left edge of every frame is
    /// representable.
    pub open spec fn wf(&self) -> bool {
        &&& self.frames >= 1
        &&& self.offset.0 + frame_offset_at(self.frames - 1) <= i32::MAX
    }

    /// The part of the sheet shown once `accumulated` milliseconds have gone by.
    pub open spec fn frame_at(&self, accumulated: int) -> Rect {
        Rect {
            left: (frame_offset_at(frame_index_at(accumulated, self.frames as int))
                + self.offset.0) as i32,
            top: self.offset.1,
            width: self.width,
            height: self.height,
        }
    }

    /// Decides `wf` at run time.
    pub fn is_well_formed(&self) -> (ok: bool)
        ensures
            ok == self.wf(),
    {
        if self.frames >= 1 {
            let last: i64 = self.frames as i64 - 1;
            let stride: i64 = FRAME_STRIDE as i64;
            let margin: i64 = FRAME_MARGIN as i64;
            last * stride + margin + self.offset.0 as i64 <= i32::MAX as i64
        } else {
            false
        }
    }

    /// The part of the sheet to show for the time accumulated so far.
    pub fn current_frame(&self) -> (frame: Rect)
        requires
            self.wf(),
        ensures
            frame == self.frame_at(self.last_frame_at as int),
            self.offset.0 + frame_offset_at(0) <= frame.left <= self.offset.0 + frame_offset_at(
                self.frames - 1,
            ),
    {
        let index: i32 = frame_index(self.last_frame_at, self.frames);
        let left: i64 = index as i64 * FRAME_STRIDE as i64 + FRAME_MARGIN as i64
            + self.offset.0 as i64;
        Rect { left: left as i32, top: self.offset.1, width: self.width, height: self.height }
    }
}

impl Renderable for AnimatedSprite {
    /// The sprite is well formed and the accumulated time stays representable.
    open spec fn renderable(&self, size: (u32, u32), elapsed: i32) -> bool {
        &&& self.wf()
        &&& i32::MIN <= self.last_frame_at + elapsed <= i32::MAX
    }

    /// Time has moved on by `elapsed`; the drawable shows the frame for the
    /// new total at the configured position.
    open spec fn rendered(&self, size: (u32, u32), elapsed: i32) -> Self {
        AnimatedSprite {
            sprite: Sprite {
                texture: self.sprite.texture,
                texture_rect: self.frame_at(self.last_frame_at + elapsed),
                position: self.position,
            },
            last_frame_at: (self.last_frame_at + elapsed) as i32,
            ..*self
        }
    }

    /// One submission: the drawable as it stands after the update.
    open spec fn commands(&self, size: (u32, u32), elapsed: i32) -> Seq<DrawCommand> {
        seq![DrawCommand::Sprite(self.rendered(size, elapsed).sprite)]
    }

    fn can_render(&self, canvas: &Canvas, elapsed: i32) -> (ok: bool) {
        self.is_well_formed() && self.last_frame_at.checked_add(elapsed).is_some()
    }

    fn render(&mut self, canvas: &mut Canvas, elapsed: i32) {
        self.last_frame_at = self.last_frame_at + elapsed;
        let frame: Rect = self.current_frame();
        self.sprite.position = self.position;
        self.sprite.texture_rect = frame;
        canvas.draw(&self.sprite);
    }
}

/// The sum of a run of elapsed times.
pub open spec fn total_elapsed(elapsed: Seq<i32>) -> int
    decreases elapsed.len(),
{
    if elapsed.len() == 0 {
        0
    } else {
        total_elapsed(elapsed.drop_last()) + elapsed.last()
    }
}

impl AnimatedSprite {
    /// The sprite after one render per entry of `elapsed`, in order.
    pub open spec fn rendered_through(&self, size: (u32, u32), elapsed: Seq<i32>) -> AnimatedSprite
        decreases elapsed.len(),
    {
        if elapsed.len() == 0 {
            *self
        } else {
            self.rendered_through(size, elapsed.drop_last()).rendered(size, elapsed.last())
        }
    }

    /// Every render of the run is allowed when its turn comes.
    pub open spec fn renderable_through(&self, size: (u32, u32), elapsed: Seq<i32>) -> bool
        decreases elapsed.len(),
    {
        if elapsed.len() == 0 {
            self.wf()
        } else {
            &&& self.renderable_through(size, elapsed.drop_last())
            &&& self.rendered_through(size, elapsed.drop_last()).renderable(size, elapsed.last())
        }
    }
}

/// Over any run of renders the sprite accumulates exactly the sum of the
/// elapsed times, keeps its configuration, and ends up showing the frame
/// `(total / 100) mod frames` of its row, which is a valid frame number.
pub proof fn lemma_frame_follows_total_elapsed(
    sprite: AnimatedSprite,
    size: (u32, u32),
    elapsed: Seq<i32>,
)
    requires
        sprite.renderable_through(size, elapsed),
    ensures
        ({
            let after = sprite.rendered_through(size, elapsed);
            let total = sprite.last_frame_at + total_elapsed(elapsed);
            &&& after.wf()
            &&& after.last_frame_at == total
            &&& after.offset == sprite.offset
            &&& after.position == sprite.position
            &&& after.width == sprite.width
            &&& after.height == sprite.height
            &&& after.frames == sprite.frames
            &&& after.sprite.texture == sprite.sprite.texture
            &&& 0 <= frame_index_at(total, sprite.frames as int) < sprite.frames
            &&& elapsed.len() >= 1 ==> after.sprite.position == sprite.position
            &&& elapsed.len() >= 1 ==> after.sprite.texture_rect == sprite.frame_at(total)
            &&& elapsed.len() >= 1 ==> after.sprite.texture_rect.left == sprite.offset.0
                + frame_offset_at(frame_index_at(total, sprite.frames as int))
        }),
    decreases elapsed.len(),
{
    if elapsed.len() > 0 {
        lemma_frame_follows_total_elapsed(sprite, size, elapsed.drop_last());
    }
    lemma_frame_index_in_range(
        sprite.last_frame_at + total_elapsed(elapsed),
        sprite.frames as int,
    );
}

/// The animated sprite for row `animation_index` of the frog sheet: seven
/// frames of 19 by 30 texels, rows 28 texels apart, starting 4 texels in,
/// with no time accumulated yet.
pub fn create_frog_sprite(position: (i64, i64), animation_index: i32, texture: u32) -> (frog:
    AnimatedSprite)
    requires
        i32::MIN <= animation_index * 28 <= i32::MAX,
    ensures
        frog == (AnimatedSprite {
            sprite: Sprite {
                texture: texture,
                texture_rect: Rect { left: 0, top: 0, width: 0, height: 0 },
                position: (0, 0),
            },
            offset: (4, (animation_index * 28) as i32),
            position: position,
            width: 19,
            height: 30,
            last_frame_at: 0,
            frames: 7,
        }),
        frog.wf(),
{
    let frog_sprite: Sprite = Sprite::new(texture);
    AnimatedSprite {
        sprite: frog_sprite,
        offset: (4, animation_index * 28),
        position: position,
        width: 19,
        height: 30,
        frames: 7,
        last_frame_at: 0,
    }
}

} // verus!
