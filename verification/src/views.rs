//! Pure per-frame decision logic used by the stock screens: the player
//! ship's movement deltas and animation stance, and menu selection stepping.

use vstd::prelude::*;

verus! {

/// The ship's animation stance, one per combination of vertical and
/// horizontal movement direction. The sprite sheet lays the frames out left
/// to right, then top to bottom, in [`spec_frame_index`] order.
#[derive(Clone, Copy, Debug, PartialEq, Eq, Structural)]
pub enum ShipFrame {
    UpNorm,
    UpFast,
    UpSlow,
    MidNorm,
    MidFast,
    MidSlow,
    DownNorm,
    DownFast,
    DownSlow,
}

/// The stance for one frame of movement, from the signs of the movement
/// deltas. The nine cases cover every combination of signs, so the
/// derivation is total: no combination is left over as an unreachable
/// stance.
pub open spec fn spec_ship_frame(dx: int, dy: int) -> ShipFrame {
    if dy < 0 {
        if dx == 0 {
            ShipFrame::UpNorm
        } else if dx > 0 {
            ShipFrame::UpFast
        } else {
            ShipFrame::UpSlow
        }
    } else if dy == 0 {
        if dx == 0 {
            ShipFrame::MidNorm
        } else if dx > 0 {
            ShipFrame::MidFast
        } else {
            ShipFrame::MidSlow
        }
    } else {
        if dx == 0 {
            ShipFrame::DownNorm
        } else if dx > 0 {
            ShipFrame::DownFast
        } else {
            ShipFrame::DownSlow
        }
    }
}

/// Derives the stance for a frame that moved by `(dx, dy)`.
pub fn ship_frame(dx: i32, dy: i32) -> (f: ShipFrame)
    ensures
        f == spec_ship_frame(dx as int, dy as int),
{
    if dx == 0 && dy < 0 {
        ShipFrame::UpNorm
    } else if dx > 0 && dy < 0 {
        ShipFrame::UpFast
    } else if dx < 0 && dy < 0 {
        ShipFrame::UpSlow
    } else if dx == 0 && dy == 0 {
        ShipFrame::MidNorm
    } else if dx > 0 && dy == 0 {
        ShipFrame::MidFast
    } else if dx < 0 && dy == 0 {
        ShipFrame::MidSlow
    } else if dx == 0 && dy > 0 {
        ShipFrame::DownNorm
    } else if dx > 0 && dy > 0 {
        ShipFrame::DownFast
    } else {
        ShipFrame::DownSlow
    }
}

/// A stance's cell in the 3-by-3 sprite sheet, row by row.
pub open spec fn spec_frame_index(f: ShipFrame) -> int {
    match f {
        ShipFrame::UpNorm => 0,
        ShipFrame::UpFast => 1,
        ShipFrame::UpSlow => 2,
        ShipFrame::MidNorm => 3,
        ShipFrame::MidFast => 4,
        ShipFrame::MidSlow => 5,
        ShipFrame::DownNorm => 6,
        ShipFrame::DownFast => 7,
        ShipFrame::DownSlow => 8,
    }
}

/// The index of a stance's sprite in the sheet, always below nine.
pub fn frame_index(f: ShipFrame) -> (i: usize)
    ensures
        i == spec_frame_index(f),
        i < 9,
{
    match f {
        ShipFrame::UpNorm => 0,
        ShipFrame::UpFast => 1,
        ShipFrame::UpSlow => 2,
        ShipFrame::MidNorm => 3,
        ShipFrame::MidFast => 4,
        ShipFrame::MidSlow => 5,
        ShipFrame::DownNorm => 6,
        ShipFrame::DownFast => 7,
        ShipFrame::DownSlow => 8,
    }
}

/// Movement along one axis from a pair of held direction keys: opposite
/// keys cancel out, otherwise the held key's direction wins.
pub open spec fn spec_axis_delta(neg: bool, pos: bool, moved: int) -> int {
    if neg && !pos {
        -moved
    } else if pos && !neg {
        moved
    } else {
        0
    }
}

/// The distance moved along one axis this frame, given which of the two
/// direction keys are held and the frame's movement distance.
pub fn axis_delta(neg: bool, pos: bool, moved: i32) -> (d: i32)
    requires
        moved >= 0,
    ensures
        d == spec_axis_delta(neg, pos, moved as int),
{
    if neg && !pos {
        -moved
    } else if pos && !neg {
        moved
    } else {
        0
    }
}

/// Whether one frame's input asks to leave the current screen: a
/// window-close signal, or an escape key just pressed this frame (a held
/// escape does not keep quitting).
pub fn wants_quit(quit_signal: bool, escape_edge: Option<bool>) -> (r: bool)
    ensures
        r == (quit_signal || escape_edge == Some(true)),
{
    let escape_pressed = match escape_edge {
        Some(true) => true,
        _ => false,
    };
    quit_signal || escape_pressed
}

/// One step of menu selection: a just-pressed down key moves to the next
/// entry, wrapping to the top; otherwise a just-pressed up key moves to the
/// previous entry, wrapping to the bottom.
pub open spec fn spec_menu_step(selected: int, len: int, up: bool, down: bool) -> int {
    if down {
        if selected + 1 >= len {
            0
        } else {
            selected + 1
        }
    } else if up {
        if selected == 0 {
            len - 1
        } else {
            selected - 1
        }
    } else {
        selected
    }
}

/// Steps the selected entry of a menu of `len` entries, staying in range.
pub fn menu_step(selected: usize, len: usize, up: bool, down: bool) -> (r: usize)
    requires
        1 <= len,
        selected < len,
    ensures
        r == spec_menu_step(selected as int, len as int, up, down),
        r < len,
{
    if down {
        if selected + 1 >= len {
            0
        } else {
            selected + 1
        }
    } else if up {
        if selected == 0 {
            len - 1
        } else {
            selected - 1
        }
    } else {
        selected
    }
}

/// What a menu screen does with one frame of input, in priority order:
/// leave, activate the currently selected entry, or move the selection.
#[derive(Clone, Copy, Debug, PartialEq, Eq, Structural)]
pub enum MenuDecision {
    Quit,
    Activate { entry: usize },
    Navigate { selected: usize },
}

/// The menu's whole per-frame decision: a close signal or just-pressed
/// escape quits; otherwise a just-pressed confirm key activates the entry
/// selected when the frame began; otherwise the up and down edges move the
/// selection as [`spec_menu_step`] says.
pub open spec fn spec_menu_decide(
    quit_signal: bool,
    escape_edge: Option<bool>,
    confirm_edge: Option<bool>,
    up_edge: Option<bool>,
    down_edge: Option<bool>,
    selected: int,
    len: int,
) -> MenuDecision {
    if quit_signal || escape_edge == Some(true) {
        MenuDecision::Quit
    } else if confirm_edge == Some(true) {
        MenuDecision::Activate { entry: selected as usize }
    } else {
        MenuDecision::Navigate {
            selected: spec_menu_step(
                selected,
                len,
                up_edge == Some(true),
                down_edge == Some(true),
            ) as usize,
        }
    }
}

/// Decides one frame of a menu of `len` entries from the frame's edges: the
/// entry it activates is the one currently selected, and a navigated
/// selection stays in range.
pub fn menu_decide(
    quit_signal: bool,
    escape_edge: Option<bool>,
    confirm_edge: Option<bool>,
    up_edge: Option<bool>,
    down_edge: Option<bool>,
    selected: usize,
    len: usize,
) -> (d: MenuDecision)
    requires
        1 <= len,
        selected < len,
    ensures
        d == spec_menu_decide(
            quit_signal,
            escape_edge,
            confirm_edge,
            up_edge,
            down_edge,
            selected as int,
            len as int,
        ),
        d matches MenuDecision::Activate { entry } ==> entry == selected,
        d matches MenuDecision::Navigate { selected: s } ==> s < len,
{
    let confirm_pressed = match confirm_edge {
        Some(true) => true,
        _ => false,
    };
    let up_pressed = match up_edge {
        Some(true) => true,
        _ => false,
    };
    let down_pressed = match down_edge {
        Some(true) => true,
        _ => false,
    };
    if wants_quit(quit_signal, escape_edge) {
        MenuDecision::Quit
    } else if confirm_pressed {
        MenuDecision::Activate { entry: selected }
    } else {
        MenuDecision::Navigate { selected: menu_step(selected, len, up_pressed, down_pressed) }
    }
}

} // verus!
