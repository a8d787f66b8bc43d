use vstd::prelude::*;

use crate::geometry::Point;

verus! {

/// The player's intents for one frame.
#[derive(Debug, Clone, Copy, PartialEq, Eq, Structural)]
pub struct InputSnapshot {
    pub ok_clicked: bool,
    pub ok_down: bool,
    pub cancel_clicked: bool,
    pub menu_up_clicked: bool,
    pub menu_down_clicked: bool,
    pub menu_left_clicked: bool,
    pub menu_right_clicked: bool,
    pub mouse_position: Point<i32>,
    pub mouse_button_left_down: bool,
    pub player_turn_left_down: bool,
    pub player_turn_right_down: bool,
    pub player_forward_down: bool,
    pub player_backward_down: bool,
    pub player_strafe_left_down: bool,
    pub player_strafe_right_down: bool,
}

impl InputSnapshot {
    /// A frame with nothing pressed and the mouse at the origin.
    pub fn idle() -> (r: InputSnapshot)
        ensures
            !r.ok_clicked && !r.ok_down && !r.cancel_clicked,
            !r.menu_up_clicked && !r.menu_down_clicked && !r.menu_left_clicked && !r.menu_right_clicked,
            r.mouse_position == (Point { x: 0i32, y: 0i32 }),
            !r.mouse_button_left_down,
            !r.player_turn_left_down && !r.player_turn_right_down,
            !r.player_forward_down && !r.player_backward_down,
            !r.player_strafe_left_down && !r.player_strafe_right_down,
    {
        InputSnapshot {
            ok_clicked: false,
            ok_down: false,
            cancel_clicked: false,
            menu_up_clicked: false,
            menu_down_clicked: false,
            menu_left_clicked: false,
            menu_right_clicked: false,
            mouse_position: Point { x: 0, y: 0 },
            mouse_button_left_down: false,
            player_turn_left_down: false,
            player_turn_right_down: false,
            player_forward_down: false,
            player_backward_down: false,
            player_strafe_left_down: false,
            player_strafe_right_down: false,
        }
    }
}

/// A sound effect to be played.
#[derive(Debug, Clone, Copy, PartialEq, Eq, Structural)]
pub enum Sound {
    Click,
}

/// Whether two texts hold the same characters.
pub fn text_equals(a: &str, b: &str) -> (r: bool)
    ensures
        r == (a@ == b@),
{
    let n = a.unicode_len();
    if n != b.unicode_len() {
        return false;
    }
    let mut i: usize = 0;
    while i < n
        invariant
            n == a@.len(),
            n == b@.len(),
            i <= n,
            forall|k: int| 0 <= k < i ==> a@[k] == b@[k],
        decreases n - i,
    {
        if a.get_char(i) != b.get_char(i) {
            return false;
        }
        i = i + 1;
    }
    assert(a@ =~= b@);
    true
}

} // verus!
