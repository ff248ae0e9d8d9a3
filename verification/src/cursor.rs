//! The blinking grey cursor shown while a date-time bound is typed.
use vstd::prelude::*;

verus! {

/// Whether the cursor is in its visible phase, and whether the terminal's
/// cursor colour is currently set to grey.
#[derive(Debug, Clone, Copy, PartialEq, Eq, Structural)]
pub struct CursorBlink {
    pub visible: bool,
    pub grey: bool,
}

/// What the terminal is asked to do in one step of the event loop: reset
/// or set the cursor colour, show or hide the cursor, and whether the
/// blink timer starts again.
#[derive(Debug, Clone, Copy, PartialEq, Eq, Structural)]
pub struct CursorStep {
    pub reset_color: bool,
    pub set_grey: bool,
    pub show: bool,
    pub restart_timer: bool,
}

/// The cursor before the date-time popup was ever opened.
pub fn initial_cursor() -> (r: CursorBlink)
    ensures
        r == (CursorBlink { visible: true, grey: false }),
{
    CursorBlink { visible: true, grey: false }
}

/// One step: outside the date-time popup the colour is reset once, the
/// cursor hidden and the blink restarted visible; inside it the colour is
/// set to grey once, and the cursor flips between shown and hidden each
/// time the blink interval has elapsed.
pub open spec fn blink_step_spec(s: CursorBlink, active: bool, elapsed: bool) -> (
    CursorBlink,
    CursorStep,
) {
    if !active {
        (
            CursorBlink { visible: true, grey: false },
            CursorStep { reset_color: s.grey, set_grey: false, show: false, restart_timer: true },
        )
    } else {
        let visible = if elapsed {
            !s.visible
        } else {
            s.visible
        };
        (
            CursorBlink { visible, grey: true },
            CursorStep { reset_color: false, set_grey: !s.grey, show: visible, restart_timer: elapsed },
        )
    }
}

/// The next cursor state and what the terminal is asked to do, given
/// whether the date-time popup is open and whether the blink interval has
/// elapsed since the timer last started.
pub fn blink_step(s: CursorBlink, active: bool, elapsed: bool) -> (r: (CursorBlink, CursorStep))
    ensures
        r == blink_step_spec(s, active, elapsed),
{
    if !active {
        return (
            CursorBlink { visible: true, grey: false },
            CursorStep { reset_color: s.grey, set_grey: false, show: false, restart_timer: true },
        );
    }
    let visible = if elapsed {
        !s.visible
    } else {
        s.visible
    };
    (
        CursorBlink { visible, grey: true },
        CursorStep { reset_color: false, set_grey: !s.grey, show: visible, restart_timer: elapsed },
    )
}

/// Two elapsed intervals in the date-time popup bring the cursor back to
/// the phase it had, and the grey colour is set at most once.
pub proof fn law_blink_two_intervals_restore(s: CursorBlink)
    requires
        s.grey,
    ensures
        blink_step_spec(blink_step_spec(s, true, true).0, true, true).0 == s,
        !blink_step_spec(s, true, true).1.set_grey,
{
}

} // verus!
