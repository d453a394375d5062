use vstd::prelude::*;

pub mod cast;
pub mod evtc;
pub mod player;
pub mod buddy;
pub mod fight;
pub mod settings;

verus! {

/// Whether the plugin windows are drawn this frame.
pub fn should_render(hidden: bool, not_loading: bool, draw_always: bool) -> (r: bool)
    ensures
        r == (!hidden && (not_loading || draw_always)),
{
    !hidden && (not_loading || draw_always)
}

/// Whether a key event is a fresh press, the only kind the window hotkeys
/// react to: down now and not down before.
pub fn is_fresh_press(down: bool, prev_down: bool) -> (r: bool)
    ensures
        r == (down && !prev_down),
{
    down && !prev_down
}

} // verus!
