//! Window geometry: the split of the window into the chrome strip and the
//! content area, in logical (resolution independent) units.

use vstd::prelude::*;

verus! {

/// Height of the chrome strip (the tab bar) in logical units, whenever at
/// least one tab exists.
pub const CHROME_HEIGHT: u32 = 40;

/// A window size in logical units.
#[derive(Clone, Copy, Debug, PartialEq, Eq, Structural)]
pub struct LogicalSize {
    pub width: u32,
    pub height: u32,
}

/// An axis-aligned rectangle in logical units, positioned inside the window.
#[derive(Clone, Copy, Debug, PartialEq, Eq, Structural)]
pub struct Rect {
    pub x: u32,
    pub y: u32,
    pub width: u32,
    pub height: u32,
}

/// The geometry assigned to the chrome surface and, when tabs exist, to the
/// content surfaces.
#[derive(Clone, Copy, Debug, PartialEq, Eq, Structural)]
pub struct Layout {
    pub chrome: Rect,
    pub content: Option<Rect>,
}

/// The whole window as a rectangle.
pub open spec fn full_rect(window: LogicalSize) -> Rect {
    Rect { x: 0, y: 0, width: window.width, height: window.height }
}

/// The chrome strip at the top of the window.
pub open spec fn chrome_strip(window: LogicalSize) -> Rect {
    Rect { x: 0, y: 0, width: window.width, height: CHROME_HEIGHT }
}

/// The content area below the chrome strip. If the window is shorter than
/// the strip the content area has height zero.
pub open spec fn content_rect(window: LogicalSize) -> Rect {
    Rect {
        x: 0,
        y: CHROME_HEIGHT,
        width: window.width,
        height: if window.height >= CHROME_HEIGHT {
            (window.height - CHROME_HEIGHT) as u32
        } else {
            0
        },
    }
}

/// Deterministic layout for a given window size and tab count: with no tabs
/// the chrome occupies the full window and there is no content area; with at
/// least one tab the chrome is the fixed-height strip at the top and the
/// content takes the remainder.
pub fn layout(window: LogicalSize, tab_count: usize) -> (l: Layout)
    ensures
        tab_count == 0 ==> l == (Layout { chrome: full_rect(window), content: None::<Rect> }),
        tab_count > 0 ==> l == (Layout {
            chrome: chrome_strip(window),
            content: Some(content_rect(window)),
        }),
{
    if tab_count == 0 {
        Layout { chrome: Rect { x: 0, y: 0, width: window.width, height: window.height }, content: None }
    } else {
        let content_height: u32 = if window.height >= CHROME_HEIGHT {
            window.height - CHROME_HEIGHT
        } else {
            0
        };
        Layout {
            chrome: Rect { x: 0, y: 0, width: window.width, height: CHROME_HEIGHT },
            content: Some(Rect { x: 0, y: CHROME_HEIGHT, width: window.width, height: content_height }),
        }
    }
}

} // verus!
