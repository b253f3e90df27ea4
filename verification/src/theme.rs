//! Chrome appearance: the window background color for each theme.

use vstd::prelude::*;

verus! {

/// The host window theme, as reported by the window system.
#[derive(Clone, Copy, Debug, PartialEq, Eq, Structural)]
pub enum Theme {
    Light,
    Dark,
}

/// An RGBA color with 8-bit channels.
#[derive(Clone, Copy, Debug, PartialEq, Eq, Structural)]
pub struct Color {
    pub red: u8,
    pub green: u8,
    pub blue: u8,
    pub alpha: u8,
}

/// White, used on the light theme.
pub open spec fn light_background() -> Color {
    Color { red: 0xff, green: 0xff, blue: 0xff, alpha: 0xff }
}

/// The dark red shell background, used on the dark theme.
pub open spec fn dark_background() -> Color {
    Color { red: 0x28, green: 0x0b, blue: 0x0b, alpha: 0xff }
}

/// The window background color for a theme: white on the light theme, the
/// dark red shell background otherwise.
pub fn get_background_color(theme: Theme) -> (c: Color)
    ensures
        theme == Theme::Light ==> c == light_background(),
        theme != Theme::Light ==> c == dark_background(),
{
    match theme {
        Theme::Light => Color { red: 0xff, green: 0xff, blue: 0xff, alpha: 0xff },
        Theme::Dark => Color { red: 0x28, green: 0x0b, blue: 0x0b, alpha: 0xff },
    }
}

} // verus!
