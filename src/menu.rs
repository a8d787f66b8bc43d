use vstd::prelude::*;

use crate::constants::RENDER_WIDTH;
use crate::cursor::{cursor_source, Cursor};
use crate::font::{layout, Font};
use crate::geometry::{Point, Rect};
use crate::rendercontext::{half_width, RenderContext, RenderLayer, SpriteBatchEntry};
use crate::input::{text_equals, InputSnapshot, Sound};
use crate::scene::SceneResult;
use crate::sprite::Sprite;
use crate::uibutton::{button_step, UiButton};

verus! {

/// The scene transition that a button action names, if any: `level`, `menu`,
/// `pop`, `pop2` and `reload`.
pub open spec fn action_result(action: Seq<char>) -> Option<SceneResult> {
    if action == "level"@ {
        Some(SceneResult::PushLevel)
    } else if action == "menu"@ {
        Some(SceneResult::PushMenu)
    } else if action == "pop"@ {
        Some(SceneResult::Pop)
    } else if action == "pop2"@ {
        Some(SceneResult::PopTwo)
    } else if action == "reload"@ {
        Some(SceneResult::ReloadLevel)
    } else {
        None
    }
}

/// The order in which menu navigation moves through the buttons.
pub enum ButtonOrderDirection {
    Vertical,
    Horizontal,
}

/// Where the selection lands after `moves` navigation steps from `selected`
/// among `count` buttons: each step moves to the next button, wrapping around.
pub open spec fn selection_after(selected: int, count: int, moves: nat) -> int
    decreases moves,
{
    if moves == 0 {
        selected
    } else {
        (selection_after(selected, count, (moves - 1) as nat) + 1) % count
    }
}

/// How many of the four navigation inputs were clicked.
pub open spec fn navigation_moves(inputs: InputSnapshot) -> nat {
    (if inputs.menu_down_clicked { 1nat } else { 0nat }) + (if inputs.menu_up_clicked { 1nat } else { 0nat })
        + (if inputs.menu_left_clicked { 1nat } else { 0nat }) + (if inputs.menu_right_clicked { 1nat } else { 0nat })
}

/// The action of the last of the first `upto` buttons whose click completes on
/// this frame, with `selected` the selected button.
pub open spec fn clicked_action(buttons: Seq<UiButton>, selected: int, inputs: InputSnapshot, upto: int) -> Option<Seq<char>>
    decreases upto,
{
    if upto <= 0 {
        None
    } else {
        let b = buttons[upto - 1];
        if button_step(b.spec_state(), upto - 1 == selected, b.spec_position().contains_spec(inputs.mouse_position), inputs).1 {
            Some(b.spec_action())
        } else {
            clicked_action(buttons, selected, inputs, upto - 1)
        }
    }
}

/// How many of the first `upto` buttons complete a click on this frame.
pub open spec fn click_count(buttons: Seq<UiButton>, selected: int, inputs: InputSnapshot, upto: int) -> nat
    decreases upto,
{
    if upto <= 0 {
        0
    } else {
        let b = buttons[upto - 1];
        let rest = click_count(buttons, selected, inputs, upto - 1);
        if button_step(b.spec_state(), upto - 1 == selected, b.spec_position().contains_spec(inputs.mouse_position), inputs).1 {
            rest + 1
        } else {
            rest
        }
    }
}

/// What a menu update returns when no cancel applies: the transition named by
/// the clicked button's action, or `Continue`.
pub open spec fn click_result(action: Option<Seq<char>>) -> SceneResult {
    match action {
        Some(a) => match action_result(a) {
            Some(res) => res,
            None => SceneResult::Continue,
        },
        None => SceneResult::Continue,
    }
}

/// Where a caption of `byte_len` bytes starts so that it is centred across the
/// frame, 250 pixels from the top.
pub open spec fn caption_position(byte_len: int, char_width: i32) -> Point<i32> {
    Point { x: half_width(RENDER_WIDTH as int - byte_len * char_width) as i32, y: 250 }
}

/// The part of a menu background image that is drawn.
pub open spec fn background_source() -> Rect<i32> {
    Rect { x: 0, y: 0, w: 1600, h: 900 }
}

/// The entries that drawing the buttons appends, in order.
pub open spec fn button_entries(buttons: Seq<UiButton>) -> Seq<SpriteBatchEntry> {
    buttons.map_values(
        |b: UiButton|
            SpriteBatchEntry::Sprite {
                sprite: b.spec_sprite(),
                source: Rect { x: 0, y: 0, w: b.spec_sprite().area.w, h: b.spec_sprite().area.h },
                destination: b.draw_destination(),
                reversed: false,
            },
    )
}

/// A screen of buttons over a background image.
pub struct Menu {
    cancel_action: String,
    cursor: Cursor,
    background: Sprite,
    buttons: Vec<UiButton>,
    selected: usize,
    text: Option<String>,
}

impl Menu {
    pub closed spec fn spec_cancel_action(&self) -> Seq<char> {
        self.cancel_action@
    }

    pub closed spec fn spec_buttons(&self) -> Seq<UiButton> {
        self.buttons@
    }

    pub closed spec fn spec_selected(&self) -> int {
        self.selected as int
    }

    pub closed spec fn spec_background(&self) -> Sprite {
        self.background
    }

    pub closed spec fn spec_text(&self) -> Option<Seq<char>> {
        match self.text {
            Some(t) => Some(t@),
            None => None,
        }
    }

    /// The selected button is one of the buttons, or the first slot of a menu
    /// without buttons.
    pub closed spec fn wf(&self) -> bool {
        &&& (self.buttons@.len() == 0 ==> self.selected == 0)
        &&& (self.buttons@.len() > 0 ==> self.selected < self.buttons@.len())
    }

    /// A menu without buttons.
    pub fn new(background: Sprite, cursor: Cursor, cancel_action: &str, text: Option<String>) -> (r: Menu)
        ensures
            r.wf(),
            r.spec_background() == background,
            r.spec_cancel_action() == cancel_action@,
            r.spec_buttons().len() == 0,
            r.spec_selected() == 0,
            r.spec_text() == match text {
                Some(t) => Some(t@),
                None => None::<Seq<char>>,
            },
    {
        let cancel_action = cancel_action.to_owned();
        let buttons = Vec::new();
        let selected: usize = 0;
        Menu { cancel_action, cursor, background, buttons, selected, text }
    }

    /// The start screen: one button that starts a level; cancelling returns to
    /// the menu.
    pub fn new_splash(background: Sprite, cursor: Cursor, start_button: Sprite) -> (r: Menu)
        ensures
            r.wf(),
            r.spec_background() == background,
            r.spec_cancel_action() == "menu"@,
            r.spec_text() is None,
            r.spec_buttons().len() == 1,
            r.spec_buttons()[0].spec_sprite() == start_button,
            r.spec_buttons()[0].spec_position() == (Rect { x: 60i32, y: 80i32, w: 394i32, h: 145i32 }),
            r.spec_buttons()[0].spec_action() == "level"@,
    {
        let mut menu = Menu::new(background, cursor, "menu", None);
        let start = Rect { x: 60, y: 80, w: 394, h: 145 };
        menu.add_button(start_button, start, "level");
        menu
    }

    /// The screen shown when the player dies, with `text` on it: a button to
    /// retry the level and one to quit to the menu; cancelling retries.
    pub fn new_kill_screen(text: &str, background: Sprite, cursor: Cursor, retry_button: Sprite, quit_button: Sprite) -> (r: Menu)
        ensures
            r.wf(),
            r.spec_background() == background,
            r.spec_cancel_action() == "level"@,
            r.spec_text() == Some(text@),
            r.spec_buttons().len() == 2,
            r.spec_buttons()[0].spec_sprite() == retry_button,
            r.spec_buttons()[0].spec_position() == (Rect { x: 603i32, y: 450i32, w: 394i32, h: 145i32 }),
            r.spec_buttons()[0].spec_action() == "level"@,
            r.spec_buttons()[1].spec_sprite() == quit_button,
            r.spec_buttons()[1].spec_position() == (Rect { x: 603i32, y: 650i32, w: 394i32, h: 145i32 }),
            r.spec_buttons()[1].spec_action() == "menu"@,
    {
        let mut menu = Menu::new(background, cursor, "level", Some(text.to_owned()));
        let retry = Rect { x: 800 - 197, y: 450, w: 394, h: 145 };
        let quit = Rect { x: 800 - 197, y: 650, w: 394, h: 145 };
        menu.add_button(retry_button, retry, "level");
        menu.add_button(quit_button, quit, "menu");
        menu
    }

    /// Adds a button after the existing ones.
    pub fn add_button(&mut self, sprite: Sprite, position: Rect<i32>, action: &str)
        requires
            old(self).wf(),
        ensures
            final(self).wf(),
            final(self).spec_buttons().len() == old(self).spec_buttons().len() + 1,
            forall|i: int| 0 <= i < old(self).spec_buttons().len() ==> final(self).spec_buttons()[i] == old(self).spec_buttons()[i],
            final(self).spec_buttons().last().spec_sprite() == sprite,
            final(self).spec_buttons().last().spec_position() == position,
            final(self).spec_buttons().last().spec_action() == action@,
            final(self).spec_buttons().last().spec_state() == crate::uibutton::UiButtonState::Normal,
            final(self).spec_selected() == old(self).spec_selected(),
            final(self).spec_cancel_action() == old(self).spec_cancel_action(),
            final(self).spec_background() == old(self).spec_background(),
            final(self).spec_text() == old(self).spec_text(),
    {
        let button = UiButton::new(sprite, position, action);
        self.buttons.push(button);
    }

    /// Moves the selection to the next button, wrapping around after the last.
    pub fn next_button(&mut self, delta: i32, direction: ButtonOrderDirection)
        requires
            old(self).wf(),
            old(self).spec_buttons().len() > 0,
        ensures
            final(self).wf(),
            final(self).spec_selected() == (old(self).spec_selected() + 1) % (old(self).spec_buttons().len() as int),
            final(self).spec_buttons() == old(self).spec_buttons(),
            final(self).spec_cancel_action() == old(self).spec_cancel_action(),
            final(self).spec_background() == old(self).spec_background(),
            final(self).spec_text() == old(self).spec_text(),
    {
        let n = self.buttons.len();
        self.selected = (self.selected + 1) % n;
    }

    /// Advances the menu by one frame. A cancel whose action names a transition
    /// returns it at once. Otherwise each navigation input moves the selection on
    /// by one button, the cursor follows the mouse, every button is advanced,
    /// and the last button clicked decides the result.
    pub fn update(&mut self, inputs: &InputSnapshot, sounds: &mut Vec<Sound>) -> (r: SceneResult)
        requires
            old(self).wf(),
            navigation_moves(*inputs) > 0 ==> old(self).spec_buttons().len() > 0,
        ensures
            final(self).wf(),
            final(self).spec_cancel_action() == old(self).spec_cancel_action(),
            final(self).spec_background() == old(self).spec_background(),
            final(self).spec_text() == old(self).spec_text(),
            inputs.cancel_clicked && action_result(old(self).spec_cancel_action()) is Some ==> {
                &&& r == action_result(old(self).spec_cancel_action())->Some_0
                &&& final(self).spec_buttons() == old(self).spec_buttons()
                &&& final(self).spec_selected() == old(self).spec_selected()
                &&& final(sounds)@ == old(sounds)@
            },
            !(inputs.cancel_clicked && action_result(old(self).spec_cancel_action()) is Some) ==> {
                let n = old(self).spec_buttons().len() as int;
                let sel = if n == 0 { 0 } else { selection_after(old(self).spec_selected(), n, navigation_moves(*inputs)) };
                &&& final(self).spec_selected() == sel
                &&& final(self).spec_buttons().len() == n
                &&& forall|j: int| 0 <= j < n ==> {
                    let b = #[trigger] old(self).spec_buttons()[j];
                    let nb = final(self).spec_buttons()[j];
                    &&& nb.spec_state() == button_step(b.spec_state(), j == sel, b.spec_position().contains_spec(inputs.mouse_position), *inputs).0
                    &&& nb.spec_position() == b.spec_position()
                    &&& nb.spec_sprite() == b.spec_sprite()
                    &&& nb.spec_action() == b.spec_action()
                }
                &&& r == click_result(clicked_action(old(self).spec_buttons(), sel, *inputs, n))
                &&& final(sounds)@ == old(sounds)@ + Seq::new(click_count(old(self).spec_buttons(), sel, *inputs, n), |k: int| Sound::Click)
            },
    {
        if inputs.cancel_clicked {
            if let Some(result) = self.perform_action(&self.cancel_action) {
                return result;
            }
        }
        let ghost n = self.buttons@.len() as int;
        let ghost moves: nat = 0;
        if inputs.menu_down_clicked {
            self.next_button(1, ButtonOrderDirection::Vertical);
            proof { moves = moves + 1; }
        }
        if inputs.menu_up_clicked {
            self.next_button(-1, ButtonOrderDirection::Vertical);
            proof { moves = moves + 1; }
        }
        if inputs.menu_left_clicked {
            self.next_button(-1, ButtonOrderDirection::Horizontal);
            proof { moves = moves + 1; }
        }
        if inputs.menu_right_clicked {
            self.next_button(1, ButtonOrderDirection::Horizontal);
            proof { moves = moves + 1; }
        }
        assert(moves == navigation_moves(*inputs));
        assert(n > 0 ==> self.selected == selection_after(old(self).selected as int, n, moves)) by {
            reveal_with_fuel(selection_after, 5);
        }
        self.cursor.update(inputs);
        let ghost before = self.buttons@;
        let ghost sounds_before = sounds@;
        let ghost sel = self.selected as int;
        let mut last_click: Option<String> = None;
        let mut i: usize = 0;
        while i < self.buttons.len()
            invariant
                self.wf(),
                sel == self.selected,
                self.buttons@.len() == before.len(),
                i <= before.len(),
                forall|j: int| i <= j < before.len() ==> self.buttons@[j] == before[j],
                forall|j: int| 0 <= j < i ==> {
                    let b = #[trigger] before[j];
                    let nb = self.buttons@[j];
                    &&& nb.spec_state() == button_step(b.spec_state(), j == sel, b.spec_position().contains_spec(inputs.mouse_position), *inputs).0
                    &&& nb.spec_position() == b.spec_position()
                    &&& nb.spec_sprite() == b.spec_sprite()
                    &&& nb.spec_action() == b.spec_action()
                },
                match last_click {
                    Some(a) => clicked_action(before, sel, *inputs, i as int) == Some(a@),
                    None => clicked_action(before, sel, *inputs, i as int) is None,
                },
                sounds@ == sounds_before + Seq::new(click_count(before, sel, *inputs, i as int), |k: int| Sound::Click),
                self.cancel_action@ == old(self).cancel_action@,
                self.background == old(self).background,
                self.spec_text() == old(self).spec_text(),
            decreases before.len() - i,
        {
            let selected = i == self.selected;
            let ghost sounds_mid = sounds@;
            let result = self.buttons[i].update(selected, inputs, sounds);
            if let Some(action) = result {
                last_click = Some(action);
            }
            proof {
                let c = click_count(before, sel, *inputs, i as int);
                let c1 = click_count(before, sel, *inputs, i + 1);
                if c1 == c + 1 {
                    assert(sounds@ =~= sounds_before + Seq::new(c1, |k: int| Sound::Click));
                } else {
                    assert(sounds@ =~= sounds_before + Seq::new(c1, |k: int| Sound::Click));
                }
            }
            i = i + 1;
        }
        if let Some(action) = last_click {
            if let Some(result) = self.perform_action(&action) {
                return result;
            }
        }
        SceneResult::Continue
    }

    pub closed spec fn spec_cursor(&self) -> &Cursor {
        &self.cursor
    }

    /// Whether the caption, if any, can be laid out centred with representable
    /// coordinates.
    pub open spec fn caption_fits(&self, font: &Font) -> bool {
        match self.spec_text() {
            Some(t) => {
                let bytes = crate::font::utf8_len(t);
                &&& bytes <= i32::MAX
                &&& i32::MIN <= bytes * font.spec_char_width() <= i32::MAX
                &&& i32::MIN <= RENDER_WIDTH as int - bytes * font.spec_char_width() <= i32::MAX
                &&& font.text_fits(caption_position(bytes, font.spec_char_width()), t)
            },
            None => true,
        }
    }

    /// The entries that the caption adds, if any.
    pub open spec fn caption_entries(&self, font: &Font) -> Seq<SpriteBatchEntry> {
        match self.spec_text() {
            Some(t) => layout(
                font.spec_tileset(),
                caption_position(crate::font::utf8_len(t), font.spec_char_width()),
                t,
                t.len() as int,
                font.spec_char_width(),
                font.spec_char_height(),
            ).0,
            None => Seq::empty(),
        }
    }

    /// Draws the menu's HUD layer: the background over the whole screen, the
    /// caption centred, the buttons in order, and the cursor on top.
    pub fn draw_hud(&self, context: &mut RenderContext, font: &Font)
        requires
            font.glyphs_fit(),
            self.caption_fits(font),
            forall|j: int| 0 <= j < self.spec_buttons().len() ==> (#[trigger] self.spec_buttons()[j]).draw_fits(),
        ensures
            RenderContext::layer_grown(
                old(context),
                final(context),
                RenderLayer::Hud,
                seq![
                    SpriteBatchEntry::Sprite {
                        sprite: self.spec_background(),
                        source: background_source(),
                        destination: Rect { x: 0, y: 0, w: old(context).width as i32, h: old(context).height as i32 },
                        reversed: false,
                    },
                ] + self.caption_entries(font) + button_entries(self.spec_buttons()) + seq![
                    SpriteBatchEntry::Sprite {
                        sprite: self.spec_cursor().spec_sprite(),
                        source: cursor_source(),
                        destination: Rect { x: self.spec_cursor().spec_position().x, y: self.spec_cursor().spec_position().y, w: 64, h: 64 },
                        reversed: false,
                    },
                ],
            ),
    {
        let src = Rect { x: 0, y: 0, w: 1600, h: 900 };
        let area = context.logical_area();
        context.hud_batch.draw(self.background, area, src, false);
        let ghost first = seq![
            SpriteBatchEntry::Sprite { sprite: self.background, source: src, destination: area, reversed: false },
        ];
        assert(old(context).layer_entries(RenderLayer::Hud) + first =~= context.layer_entries(RenderLayer::Hud));
        assert(RenderContext::layer_grown(old(context), context, RenderLayer::Hud, first));
        let ghost after_background = *context;
        match &self.text {
            Some(text) => {
                let t = text.as_str();
                let bytes = t.as_bytes().len();
                let text_width = bytes as i32 * font.char_width();
                let text_pos = Point::new((RENDER_WIDTH as i32 - text_width) / 2, 250);
                assert(t@ == text@);
                assert(text_pos == caption_position(crate::font::utf8_len(text@), font.spec_char_width()));
                font.draw_string(context, RenderLayer::Hud, text_pos, t);
            },
            None => {
                assert(context.layer_entries(RenderLayer::Hud) + Seq::empty() =~= context.layer_entries(RenderLayer::Hud));
            },
        }
        assert(RenderContext::layer_grown(&after_background, context, RenderLayer::Hud, self.caption_entries(font)));
        proof {
            RenderContext::lemma_layer_grown_concat(old(context), &after_background, context, RenderLayer::Hud, first, self.caption_entries(font));
        }
        let ghost after_caption = *context;
        let ghost so_far = first + self.caption_entries(font);
        let mut j: usize = 0;
        while j < self.buttons.len()
            invariant
                j <= self.buttons@.len(),
                forall|k: int| 0 <= k < self.spec_buttons().len() ==> (#[trigger] self.spec_buttons()[k]).draw_fits(),
                RenderContext::layer_grown(&after_caption, context, RenderLayer::Hud, button_entries(self.buttons@).take(j as int)),
            decreases self.buttons@.len() - j,
        {
            let ghost before = *context;
            assert(self.spec_buttons()[j as int] == self.buttons@[j as int]);
            self.buttons[j].draw(context, RenderLayer::Hud);
            proof {
                RenderContext::lemma_layer_grown_push(&after_caption, &before, context, RenderLayer::Hud,
                    button_entries(self.buttons@).take(j as int), button_entries(self.buttons@)[j as int]);
                assert(button_entries(self.buttons@).take(j as int).push(button_entries(self.buttons@)[j as int]) =~= button_entries(self.buttons@).take(j + 1));
            }
            j = j + 1;
        }
        assert(button_entries(self.buttons@).take(j as int) =~= button_entries(self.buttons@));
        proof {
            RenderContext::lemma_layer_grown_concat(old(context), &after_caption, context, RenderLayer::Hud, so_far, button_entries(self.buttons@));
        }
        let ghost before_cursor = *context;
        let ghost cursor_entry = SpriteBatchEntry::Sprite {
            sprite: self.spec_cursor().spec_sprite(),
            source: cursor_source(),
            destination: Rect { x: self.spec_cursor().spec_position().x, y: self.spec_cursor().spec_position().y, w: 64, h: 64 },
            reversed: false,
        };
        self.cursor.draw(context, RenderLayer::Hud);
        proof {
            RenderContext::lemma_layer_grown_push(old(context), &before_cursor, context, RenderLayer::Hud,
                so_far + button_entries(self.buttons@), cursor_entry);
            assert((so_far + button_entries(self.buttons@)).push(cursor_entry) =~= first + self.caption_entries(font) + button_entries(self.spec_buttons()) + seq![cursor_entry]);
        }
    }

    /// Whether `draw_hud` can draw this menu with `font`: every glyph and the
    /// centred caption have representable areas, and so do the buttons when
    /// pressed.
    pub fn can_draw_hud(&self, font: &Font) -> (r: bool)
        ensures
            r == (font.glyphs_fit() && self.caption_fits(font) && forall|j: int|
                0 <= j < self.spec_buttons().len() ==> (#[trigger] self.spec_buttons()[j]).draw_fits()),
    {
        if !font.has_all_glyphs() {
            return false;
        }
        match &self.text {
            Some(text) => {
                let t = text.as_str();
                let bytes = t.as_bytes().len() as i128;
                let chars = t.unicode_len() as i128;
                let cw = font.char_width() as i128;
                let ch = font.char_height() as i128;
                assert(t@ == text@);
                if bytes > i32::MAX as i128 {
                    return false;
                }
                assert(-0x8000_0000_0000_0000 < bytes * cw < 0x8000_0000_0000_0000) by (nonlinear_arith)
                    requires
                        0 <= bytes <= 0x8000_0000,
                        -0x8000_0000 <= cw < 0x8000_0000,
                ;
                let width = bytes * cw;
                if width < i32::MIN as i128 || width > i32::MAX as i128 {
                    return false;
                }
                let span = RENDER_WIDTH as i128 - width;
                if span < i32::MIN as i128 || span > i32::MAX as i128 {
                    return false;
                }
                let x = (span as i32 / 2) as i128;
                assert(x == caption_position(bytes as int, font.spec_char_width()).x);
                if cw < 0 || 250 + ch > i32::MAX as i128 || 250 + ch < i32::MIN as i128 {
                    return false;
                }
                assert(chars * cw <= 0x1_0000_0000_0000_0000 * 0x8000_0000) by (nonlinear_arith)
                    requires
                        0 <= chars <= 0x1_0000_0000_0000_0000,
                        0 <= cw <= 0x8000_0000,
                ;
                if x + chars * cw > i32::MAX as i128 {
                    return false;
                }
                assert(bytes == crate::font::utf8_len(text@));
                assert(font.text_fits(caption_position(bytes as int, font.spec_char_width()), text@));
            },
            None => {},
        }
        assert(self.caption_fits(font));
        let mut j: usize = 0;
        while j < self.buttons.len()
            invariant
                j <= self.buttons@.len(),
                font.glyphs_fit(),
                self.caption_fits(font),
                forall|k: int| 0 <= k < j ==> (#[trigger] self.spec_buttons()[k]).draw_fits(),
            decreases self.buttons@.len() - j,
        {
            let p = self.buttons[j].position();
            assert(self.spec_buttons()[j as int] == self.buttons@[j as int]);
            if self.buttons[j].is_pressed() && (p.x > i32::MAX - 16 || p.y > i32::MAX - 16) {
                return false;
            }
            j = j + 1;
        }
        true
    }

    /// How many buttons the menu has.
    pub fn button_count(&self) -> (r: usize)
        ensures
            r == self.spec_buttons().len(),
    {
        self.buttons.len()
    }

    /// The scene transition that `action` names, if any.
    pub fn perform_action(&self, action: &str) -> (r: Option<SceneResult>)
        ensures
            r == action_result(action@),
    {
        if text_equals(action, "level") {
            Some(SceneResult::PushLevel)
        } else if text_equals(action, "menu") {
            Some(SceneResult::PushMenu)
        } else if text_equals(action, "pop") {
            Some(SceneResult::Pop)
        } else if text_equals(action, "pop2") {
            Some(SceneResult::PopTwo)
        } else if text_equals(action, "reload") {
            Some(SceneResult::ReloadLevel)
        } else {
            None
        }
    }
}

} // verus!
