//! The default look of a button: a plate inside a margin, which reacts to the pointer
//! wherever the plate is.

use crate::button::{ButtonSkin, ButtonState};
use crate::geometry::Rect;
use vstd::prelude::*;

verus! {

/// The strip around a button that belongs to no plate, in pixels.
pub const MARGIN: u32 = 5;

/// How far a press button's plate moves when it is touched, in pixels.
pub const PRESS_OFFSET: u32 = 10;

/// A button with the default skin.
pub type Button = crate::button::Button<DefaultButtonSkin>;

/// The handle of a button.
pub type ButtonId = crate::button::ButtonId;

/// A builder of buttons with the default skin.
pub type ButtonBuilder = crate::button::ButtonBuilder<DefaultButtonSkin>;

/// A builder of ribbons.
pub type RibbonBuilder = crate::ribbon::RibbonBuilder;

/// The skin that shows a button as a plate inside a margin.
#[derive(Debug)]
pub struct DefaultButtonSkin {
    state: ButtonState,
}

/// The point lies on the plate that the margin leaves of the rectangle.
pub open spec fn on_plate(rect: Rect, x: int, y: int) -> bool {
    &&& rect.x + MARGIN <= x <= rect.x + rect.w - MARGIN
    &&& rect.y + MARGIN <= y <= rect.y + rect.h - MARGIN
}

/// The plate of a check box or radio button: the rectangle without its margin. Nothing is
/// left of a rectangle that is narrower or lower than two margins.
pub fn base_rect(rect: Rect) -> (plate: Option<Rect>)
    requires
        rect.valid(),
    ensures
        plate == if rect.w >= 2 * MARGIN && rect.h >= 2 * MARGIN {
            Some(
                Rect {
                    x: (rect.x + MARGIN) as i32,
                    y: (rect.y + MARGIN) as i32,
                    w: (rect.w - 2 * MARGIN) as u32,
                    h: (rect.h - 2 * MARGIN) as u32,
                },
            )
        } else {
            None
        },
        plate is Some ==> plate->0.valid(),
        plate is Some ==> forall|x: int, y: int| plate->0.holds(x, y) == on_plate(rect, x, y),
        plate is None ==> forall|x: int, y: int| !on_plate(rect, x, y),
{
    if rect.w >= 2 * MARGIN && rect.h >= 2 * MARGIN {
        Some(
            Rect {
                x: (rect.x as i64 + MARGIN as i64) as i32,
                y: (rect.y as i64 + MARGIN as i64) as i32,
                w: rect.w - 2 * MARGIN,
                h: rect.h - 2 * MARGIN,
            },
        )
    } else {
        None
    }
}

/// The plate of a press button: smaller than the base plate by the press offset, and
/// moved by that offset while the button is touched.
pub fn button_rect(rect: Rect, touched: bool) -> (plate: Option<Rect>)
    requires
        rect.valid(),
    ensures
        plate == if rect.w >= 2 * MARGIN + PRESS_OFFSET && rect.h >= 2 * MARGIN + PRESS_OFFSET {
            Some(
                Rect {
                    x: (rect.x + MARGIN + if touched { PRESS_OFFSET as int } else { 0 }) as i32,
                    y: (rect.y + MARGIN + if touched { PRESS_OFFSET as int } else { 0 }) as i32,
                    w: (rect.w - 2 * MARGIN - PRESS_OFFSET) as u32,
                    h: (rect.h - 2 * MARGIN - PRESS_OFFSET) as u32,
                },
            )
        } else {
            None
        },
        plate is Some ==> plate->0.valid(),
{
    if rect.w >= 2 * MARGIN + PRESS_OFFSET && rect.h >= 2 * MARGIN + PRESS_OFFSET {
        let dxy: i64 = if touched { PRESS_OFFSET as i64 } else { 0 };
        Some(
            Rect {
                x: (rect.x as i64 + MARGIN as i64 + dxy) as i32,
                y: (rect.y as i64 + MARGIN as i64 + dxy) as i32,
                w: rect.w - 2 * MARGIN - PRESS_OFFSET,
                h: rect.h - 2 * MARGIN - PRESS_OFFSET,
            },
        )
    } else {
        None
    }
}

impl DefaultButtonSkin {
    /// A skin that shows a press button without label at the origin.
    pub fn new() -> (skin: Self)
        ensures
            skin.shown().mode == crate::button::ButtonMode::PressButton,
            !skin.shown().touched,
            skin.shown().label@ == Seq::<char>::empty(),
            skin.shown().rect == (Rect { x: 0, y: 0, w: 0, h: 0 }),
    {
        DefaultButtonSkin { state: ButtonState::default() }
    }

    /// The snapshot that the skin shows.
    pub fn state(&self) -> (state: &ButtonState)
        ensures
            *state == self.shown(),
    {
        &self.state
    }
}

impl ButtonSkin for DefaultButtonSkin {
    closed spec fn shown(&self) -> ButtonState {
        self.state
    }

    open spec fn hot(&self, x: int, y: int) -> bool {
        on_plate(self.shown().rect, x, y)
    }

    fn set_state(&mut self, state: &ButtonState) {
        self.state = state.clone();
    }

    fn is_hot_area(&self, x: i32, y: i32) -> (hot: bool) {
        let rect = self.state.rect;
        let left: i64 = rect.x as i64 + MARGIN as i64;
        let right: i64 = rect.x as i64 + rect.w as i64 - MARGIN as i64;
        let top: i64 = rect.y as i64 + MARGIN as i64;
        let bottom: i64 = rect.y as i64 + rect.h as i64 - MARGIN as i64;
        left <= x as i64 && x as i64 <= right && top <= y as i64 && y as i64 <= bottom
    }
}

} // verus!
