use vstd::prelude::*;

use crate::geometry::{Point, Rect};
use crate::input::{InputSnapshot, Sound};
use crate::rendercontext::{RenderContext, RenderLayer, SpriteBatchEntry};
use crate::sprite::Sprite;

verus! {

/// How a button is shown, and which press it is waiting to see released.
#[derive(Debug, Clone, Copy, PartialEq, Eq, Structural)]
pub enum UiButtonState {
    Normal,
    Hover,
    MouseClick,
    GamepadClick,
}

/// The button's next state, and whether this frame completed a click. A click
/// completes when the press that started it is released: the mouse button over
/// the button, or OK while the button is selected.
pub open spec fn button_step(state: UiButtonState, selected: bool, mouse_inside: bool, inputs: InputSnapshot) -> (UiButtonState, bool) {
    match state {
        UiButtonState::MouseClick => if inputs.mouse_button_left_down {
            (state, false)
        } else {
            (UiButtonState::Normal, mouse_inside)
        },
        UiButtonState::GamepadClick => if inputs.ok_down {
            (state, false)
        } else {
            (UiButtonState::Normal, true)
        },
        _ => if selected && inputs.ok_down {
            (UiButtonState::GamepadClick, false)
        } else if mouse_inside && inputs.mouse_button_left_down {
            (UiButtonState::MouseClick, false)
        } else if selected || mouse_inside {
            (UiButtonState::Hover, false)
        } else {
            (UiButtonState::Normal, false)
        },
    }
}

/// A clickable button that reports its action when clicked.
pub struct UiButton {
    pub position: Rect<i32>,
    sprite: Sprite,
    state: UiButtonState,
    action: String,
}

impl UiButton {
    pub closed spec fn spec_position(&self) -> Rect<i32> {
        self.position
    }

    pub closed spec fn spec_sprite(&self) -> Sprite {
        self.sprite
    }

    pub closed spec fn spec_state(&self) -> UiButtonState {
        self.state
    }

    pub closed spec fn spec_action(&self) -> Seq<char> {
        self.action@
    }

    /// Where the button is drawn: pressed buttons shift 16 pixels right and down.
    pub open spec fn draw_destination(&self) -> Rect<i32> {
        match self.spec_state() {
            UiButtonState::MouseClick | UiButtonState::GamepadClick => Rect {
                x: (self.spec_position().x + 16) as i32,
                y: (self.spec_position().y + 16) as i32,
                w: self.spec_position().w,
                h: self.spec_position().h,
            },
            _ => self.spec_position(),
        }
    }

    pub fn position(&self) -> (r: Rect<i32>)
        ensures
            r == self.spec_position(),
    {
        self.position
    }

    /// Whether the shifted position of a pressed button is representable.
    pub open spec fn draw_fits(&self) -> bool {
        (self.spec_state() == UiButtonState::MouseClick || self.spec_state() == UiButtonState::GamepadClick) ==> {
            &&& self.spec_position().x + 16 <= i32::MAX
            &&& self.spec_position().y + 16 <= i32::MAX
        }
    }

    /// Whether the button is pressed.
    pub fn is_pressed(&self) -> (r: bool)
        ensures
            r == (self.spec_state() == UiButtonState::MouseClick || self.spec_state() == UiButtonState::GamepadClick),
    {
        matches!(self.state, UiButtonState::MouseClick | UiButtonState::GamepadClick)
    }

    /// A button at `position`, drawn with `sprite`, that reports `action`.
    pub fn new(sprite: Sprite, position: Rect<i32>, action: &str) -> (r: UiButton)
        ensures
            r.spec_position() == position,
            r.spec_sprite() == sprite,
            r.spec_state() == UiButtonState::Normal,
            r.spec_action() == action@,
    {
        let state = UiButtonState::Normal;
        let action = action.to_owned();
        UiButton { position, sprite, state, action }
    }

    /// Advances the button by one frame. On a completed click a click sound is
    /// queued and the button's action returned.
    pub fn update(&mut self, selected: bool, inputs: &InputSnapshot, sounds: &mut Vec<Sound>) -> (r: Option<String>)
        ensures
            ({
                let (state, clicked) = button_step(
                    old(self).spec_state(),
                    selected,
                    old(self).spec_position().contains_spec(inputs.mouse_position),
                    *inputs,
                );
                &&& final(self).spec_state() == state
                &&& clicked ==> r is Some && r->Some_0@ == old(self).spec_action() && final(sounds)@ == old(sounds)@.push(Sound::Click)
                &&& !clicked ==> r is None && final(sounds)@ == old(sounds)@
            }),
            final(self).spec_position() == old(self).spec_position(),
            final(self).spec_sprite() == old(self).spec_sprite(),
            final(self).spec_action() == old(self).spec_action(),
    {
        let mut clicked = false;
        let mouse_inside = self.position.contains(inputs.mouse_position);
        self.state = if matches!(self.state, UiButtonState::MouseClick) {
            if inputs.mouse_button_left_down {
                self.state
            } else {
                if mouse_inside {
                    clicked = true;
                }
                UiButtonState::Normal
            }
        } else if matches!(self.state, UiButtonState::GamepadClick) {
            if inputs.ok_down {
                self.state
            } else {
                clicked = true;
                UiButtonState::Normal
            }
        } else if selected && inputs.ok_down {
            UiButtonState::GamepadClick
        } else if mouse_inside && inputs.mouse_button_left_down {
            UiButtonState::MouseClick
        } else if selected || mouse_inside {
            UiButtonState::Hover
        } else {
            UiButtonState::Normal
        };
        if clicked {
            sounds.push(Sound::Click);
            Some(self.action.clone())
        } else {
            None
        }
    }

    /// Draws the whole sprite onto the button's area, shifted while pressed.
    pub fn draw(&self, context: &mut RenderContext, layer: RenderLayer)
        requires
            self.draw_fits(),
        ensures
            RenderContext::appended(
                old(context),
                final(context),
                layer,
                SpriteBatchEntry::Sprite {
                    sprite: self.spec_sprite(),
                    source: Rect { x: 0, y: 0, w: self.spec_sprite().area.w, h: self.spec_sprite().area.h },
                    destination: self.draw_destination(),
                    reversed: false,
                },
            ),
    {
        let src = Rect { x: 0, y: 0, w: self.sprite.area.w, h: self.sprite.area.h };
        let dst = if matches!(self.state, UiButtonState::MouseClick | UiButtonState::GamepadClick) {
            self.position + Point::new(16, 16)
        } else {
            self.position
        };
        context.draw(self.sprite, layer, dst, src);
    }
}

} // verus!
