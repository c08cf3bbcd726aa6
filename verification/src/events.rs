use crate::unit::{Key, Unit};
use vstd::prelude::*;

verus! {

/// Something the window reports, as far as the scene tells events apart.
#[derive(Clone, Copy, Debug, PartialEq, Eq)]
pub enum Event {
    /// The user asked to close the window.
    Closed,
    /// A mouse button went down.
    MouseButtonPressed,
    /// A key went down.
    KeyPressed(Key),
    /// Any other event.
    Other,
}

/// What the event loop has to do with the window after one event.
#[derive(Clone, Copy, Debug, PartialEq, Eq)]
pub enum WindowAction {
    /// Nothing; go on with the next event.
    Continue,
    /// Close the window, then go on with the next event.
    Close,
    /// Close the window and drop the events that are still pending.
    CloseAndStop,
}

/// The window's part of handling `event`: a close request closes the
/// window, Escape closes it and ends event handling for this frame, nothing
/// else touches the window.
pub open spec fn window_action(event: Event) -> WindowAction {
    match event {
        Event::Closed => WindowAction::Close,
        Event::KeyPressed(Key::Escape) => WindowAction::CloseAndStop,
        _ => WindowAction::Continue,
    }
}

/// The unit's part of handling `event`: every key press but Escape is
/// handed to the unit, nothing else reaches it.
pub open spec fn entity_after(entity: Unit, event: Event) -> Unit {
    match event {
        Event::KeyPressed(Key::Escape) => entity,
        Event::KeyPressed(key) => entity.after_input(key),
        _ => entity,
    }
}

/// Handles one window event: updates `entity` and says what to do with the
/// window.
pub fn handle_window_event(event: Event, entity: &mut Unit) -> (action: WindowAction)
    ensures
        action == window_action(event),
        *final(entity) == entity_after(*old(entity), event),
{
    match event {
        Event::Closed => WindowAction::Close,
        Event::MouseButtonPressed => WindowAction::Continue,
        Event::KeyPressed(code) => match code {
            Key::Escape => WindowAction::CloseAndStop,
            key => {
                entity.consume_input(key);
                WindowAction::Continue
            },
        },
        _ => WindowAction::Continue,
    }
}

} // verus!
