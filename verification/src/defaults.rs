//! The colours of the panel where the theme file names none.

use vstd::prelude::*;

verus! {

/// The colour behind everything.
pub fn background() -> (colour: String)
    ensures
        colour@ == "#1a1a2e"@,
{
    "#1a1a2e".to_owned()
}

/// The colour of cards and bars.
pub fn surface() -> (colour: String)
    ensures
        colour@ == "#16213e"@,
{
    "#16213e".to_owned()
}

/// The colour of keys and buttons.
pub fn interactive() -> (colour: String)
    ensures
        colour@ == "#0f3460"@,
{
    "#0f3460".to_owned()
}

/// The colour of a key or button that is held.
pub fn interactive_pressed() -> (colour: String)
    ensures
        colour@ == "#1a5276"@,
{
    "#1a5276".to_owned()
}

/// The colour of main text.
pub fn text_primary() -> (colour: String)
    ensures
        colour@ == "#e0e0f0"@,
{
    "#e0e0f0".to_owned()
}

/// The colour of secondary text.
pub fn text_secondary() -> (colour: String)
    ensures
        colour@ == "#a0a0b8"@,
{
    "#a0a0b8".to_owned()
}

/// The colour that highlights.
pub fn accent() -> (colour: String)
    ensures
        colour@ == "#e94560"@,
{
    "#e94560".to_owned()
}

/// The colour of outlines.
pub fn border() -> (colour: String)
    ensures
        colour@ == "#2a2a4a"@,
{
    "#2a2a4a".to_owned()
}

/// The colour of the tile of the running app.
pub fn running_app() -> (colour: String)
    ensures
        colour@ == "#1a3a1a"@,
{
    "#1a3a1a".to_owned()
}

/// The colour of the text on that tile.
pub fn running_app_text() -> (colour: String)
    ensures
        colour@ == "#90ee90"@,
{
    "#90ee90".to_owned()
}

} // verus!
