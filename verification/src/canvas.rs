use vstd::prelude::*;

verus! {

/// An axis-aligned rectangle of texels inside a texture.
#[derive(Clone, Copy, Debug, PartialEq, Eq)]
pub struct Rect {
    pub left: i32,
    pub top: i32,
    pub width: i32,
    pub height: i32,
}

/// What a drawable sprite is at the moment it is submitted: the texture it
/// samples, the part of that texture it shows, and where its top-left corner
/// lands on the target, in pixels.
#[derive(Clone, Copy, Debug, PartialEq, Eq)]
pub struct Sprite {
    pub texture: u32,
    pub texture_rect: Rect,
    pub position: (i64, i64),
}

impl Sprite {
    /// A drawable that samples `texture`, shows nothing of it yet, and sits
    /// at the origin.
    pub fn new(texture: u32) -> (sprite: Sprite)
        ensures
            sprite == (Sprite {
                texture: texture,
                texture_rect: Rect { left: 0, top: 0, width: 0, height: 0 },
                position: (0, 0),
            }),
    {
        Sprite {
            texture: texture,
            texture_rect: Rect { left: 0, top: 0, width: 0, height: 0 },
            position: (0, 0),
        }
    }
}

/// A frame rate as an exact fraction: `scaled_frames / millis` frames per
/// second, where `scaled_frames` is the number of frames times 1000.
#[derive(Clone, Copy, Debug, PartialEq, Eq)]
pub struct Rate {
    pub scaled_frames: i64,
    pub millis: i32,
}

/// One submission to a render target.
#[derive(Clone, Copy, Debug, PartialEq, Eq)]
pub enum DrawCommand {
    /// Draw a sprite as it stood when submitted.
    Sprite(Sprite),
    /// Draw the frame-rate label; `None` until a first rate was measured.
    Text(Option<Rate>),
}

/// A render target: its size in pixels and the submissions made to it so
/// far, oldest first.
#[derive(Debug)]
pub struct Canvas {
    pub size: (u32, u32),
    pub commands: Vec<DrawCommand>,
}

impl Canvas {
    /// An empty target of `width` by `height` pixels.
    pub fn new(width: u32, height: u32) -> (canvas: Canvas)
        ensures
            canvas.size == (width, height),
            canvas.commands@ == Seq::<DrawCommand>::empty(),
    {
        Canvas { size: (width, height), commands: Vec::new() }
    }

    /// Submits `sprite` as it stands now.
    pub fn draw(&mut self, sprite: &Sprite)
        ensures
            final(self).size == old(self).size,
            final(self).commands@ == old(self).commands@.push(DrawCommand::Sprite(*sprite)),
    {
        self.commands.push(DrawCommand::Sprite(*sprite));
    }

    /// Submits the frame-rate label showing `rate`.
    pub fn draw_text(&mut self, rate: Option<Rate>)
        ensures
            final(self).size == old(self).size,
            final(self).commands@ == old(self).commands@.push(DrawCommand::Text(rate)),
    {
        self.commands.push(DrawCommand::Text(rate));
    }
}

/// Something that can submit itself to a `Canvas` once per frame.
pub trait Renderable: Sized {
    /// Whether `render` may be called on a target of `size` with `elapsed`
    /// milliseconds since the previous frame.
    spec fn renderable(&self, size: (u32, u32), elapsed: i32) -> bool;

    /// The value after one `render`.
    spec fn rendered(&self, size: (u32, u32), elapsed: i32) -> Self;

    /// What one `render` submits, in order.
    spec fn commands(&self, size: (u32, u32), elapsed: i32) -> Seq<DrawCommand>;

    /// Decides `renderable` at run time.
    fn can_render(&self, canvas: &Canvas, elapsed: i32) -> (ok: bool)
        ensures
            ok == self.renderable(canvas.size, elapsed),
    ;

    /// Advances by `elapsed` milliseconds and appends this frame's
    /// submissions to `canvas`.
    fn render(&mut self, canvas: &mut Canvas, elapsed: i32)
        requires
            old(self).renderable(old(canvas).size, elapsed),
        ensures
            *final(self) == old(self).rendered(old(canvas).size, elapsed),
            final(canvas).size == old(canvas).size,
            final(canvas).commands@ == old(canvas).commands@ + old(self).commands(
                old(canvas).size,
                elapsed,
            ),
    ;
}

} // verus!
