//! The window style bit that lets pointer input fall through a window.

use vstd::prelude::*;

verus! {

/// The extended window style bit for a window that is transparent to input.
pub const WS_EX_TRANSPARENT: isize = 0x20;

/// `ex_style` with the input transparency bit set or cleared.
pub open spec fn click_through_style(ex_style: isize, enabled: bool) -> isize {
    if enabled {
        ex_style | WS_EX_TRANSPARENT
    } else {
        ex_style & !WS_EX_TRANSPARENT
    }
}

/// The extended style that makes a window click-through (`enabled`) or
/// ordinary again. The caller reads `ex_style` from the window behind its
/// handle and stores the result there.
pub fn set_click_through_by_hwnd(ex_style: isize, enabled: bool) -> (res: isize)
    ensures
        res == click_through_style(ex_style, enabled),
        (res & WS_EX_TRANSPARENT != 0) == enabled,
        res & !WS_EX_TRANSPARENT == ex_style & !WS_EX_TRANSPARENT,
{
    assert((ex_style | 0x20) & 0x20 != 0 && (ex_style | 0x20) & !0x20 == ex_style & !0x20)
        by (bit_vector);
    assert((ex_style & !0x20) & 0x20 == 0 && (ex_style & !0x20) & !0x20 == ex_style & !0x20)
        by (bit_vector);
    if enabled {
        ex_style | WS_EX_TRANSPARENT
    } else {
        ex_style & !WS_EX_TRANSPARENT
    }
}

} // verus!
