//! The layered-window attributes that show a window at a given opacity.

use vstd::prelude::*;

verus! {

/// The extended window style bit of a layered window, which alone can be
/// blended.
pub const WS_EX_LAYERED: isize = 0x80000;

/// What a window is given to be shown at some opacity.
#[derive(Clone, Copy, Debug, PartialEq, Eq, Structural)]
pub struct LayeredAttributes {
    /// The extended style to store.
    pub ex_style: isize,
    /// The alpha value of the whole window: 0 is invisible, 255 opaque.
    pub alpha: u8,
}

/// The alpha value for an opacity in thousandths: the 255th parts of it,
/// rounded down; 0 below nothing and 255 above full opacity.
pub open spec fn alpha_of(opacity: int) -> int {
    if opacity <= 0 {
        0
    } else if opacity >= 1000 {
        255
    } else {
        opacity * 255 / 1000
    }
}

/// The attributes that show a window at `opacity`, in thousandths. The
/// caller reads `ex_style` from the window and stores the result there,
/// together with the alpha value.
pub fn set_window_opacity(ex_style: isize, opacity: i32) -> (res: LayeredAttributes)
    ensures
        res.ex_style == ex_style | WS_EX_LAYERED,
        res.ex_style & WS_EX_LAYERED != 0,
        res.ex_style & !WS_EX_LAYERED == ex_style & !WS_EX_LAYERED,
        res.alpha == alpha_of(opacity as int),
{
    assert((ex_style | 0x80000) & 0x80000 != 0 && (ex_style | 0x80000) & !0x80000 == ex_style
        & !0x80000) by (bit_vector);
    let alpha: u8 = if opacity <= 0 {
        0
    } else if opacity >= 1000 {
        255
    } else {
        (opacity * 255 / 1000) as u8
    };
    LayeredAttributes { ex_style: ex_style | WS_EX_LAYERED, alpha }
}

} // verus!
