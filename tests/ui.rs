use meez3d::cursor::Cursor;
use meez3d::geometry::{Point, Rect};
use meez3d::input::{text_equals, InputSnapshot, Sound};
use meez3d::menu::{ButtonOrderDirection, Menu};
use meez3d::rendercontext::{RenderContext, RenderLayer, SpriteBatchEntry};
use meez3d::scene::SceneResult;
use meez3d::sprite::Sprite;
use meez3d::stagemanager::{SceneRequest, StageManager, StageStep};
use meez3d::uibutton::UiButton;

fn sprite(id: usize) -> Sprite {
    Sprite { id, area: Rect { x: 0, y: 0, w: 394, h: 145 } }
}

#[test]
fn cursor_follows_mouse() {
    let mut cursor = Cursor::new(sprite(9));
    let mut inputs = InputSnapshot::idle();
    inputs.mouse_position = Point::new(30, 40);
    cursor.update(&inputs);
    let mut context = RenderContext::new(320, 200, 0);
    cursor.draw(&mut context, RenderLayer::Hud);
    assert_eq!(
        context.hud_batch.entries[0],
        SpriteBatchEntry::Sprite {
            sprite: sprite(9),
            source: Rect { x: 0, y: 0, w: 64, h: 64 },
            destination: Rect { x: 30, y: 40, w: 64, h: 64 },
            reversed: false
        }
    );
}

#[test]
fn mouse_click_completes_on_release_inside() {
    let mut button = UiButton::new(sprite(1), Rect { x: 10, y: 10, w: 20, h: 20 }, "level");
    let mut sounds = Vec::new();
    let mut inputs = InputSnapshot::idle();
    inputs.mouse_position = Point::new(15, 15);
    inputs.mouse_button_left_down = true;
    assert_eq!(button.update(false, &inputs, &mut sounds), None);
    let mut context = RenderContext::new(320, 200, 0);
    button.draw(&mut context, RenderLayer::Hud);
    assert_eq!(
        context.hud_batch.entries[0],
        SpriteBatchEntry::Sprite {
            sprite: sprite(1),
            source: Rect { x: 0, y: 0, w: 394, h: 145 },
            destination: Rect { x: 26, y: 26, w: 20, h: 20 },
            reversed: false
        }
    );
    inputs.mouse_button_left_down = false;
    assert_eq!(button.update(false, &inputs, &mut sounds), Some("level".to_string()));
    assert_eq!(sounds, vec![Sound::Click]);
}

#[test]
fn release_outside_does_not_click() {
    let mut button = UiButton::new(sprite(1), Rect { x: 10, y: 10, w: 20, h: 20 }, "level");
    let mut sounds = Vec::new();
    let mut inputs = InputSnapshot::idle();
    inputs.mouse_position = Point::new(15, 15);
    inputs.mouse_button_left_down = true;
    button.update(false, &inputs, &mut sounds);
    inputs.mouse_button_left_down = false;
    inputs.mouse_position = Point::new(100, 100);
    assert_eq!(button.update(false, &inputs, &mut sounds), None);
    assert!(sounds.is_empty());
}

#[test]
fn gamepad_click_on_selected_button() {
    let mut button = UiButton::new(sprite(1), Rect { x: 10, y: 10, w: 20, h: 20 }, "menu");
    let mut sounds = Vec::new();
    let mut inputs = InputSnapshot::idle();
    inputs.ok_down = true;
    assert_eq!(button.update(true, &inputs, &mut sounds), None);
    inputs.ok_down = false;
    assert_eq!(button.update(true, &inputs, &mut sounds), Some("menu".to_string()));
    assert_eq!(sounds.len(), 1);
}

#[test]
fn actions_name_transitions() {
    let menu = Menu::new_splash(sprite(2), Cursor::new(sprite(9)), sprite(3));
    assert_eq!(menu.perform_action("level"), Some(SceneResult::PushLevel));
    assert_eq!(menu.perform_action("menu"), Some(SceneResult::PushMenu));
    assert_eq!(menu.perform_action("pop"), Some(SceneResult::Pop));
    assert_eq!(menu.perform_action("pop2"), Some(SceneResult::PopTwo));
    assert_eq!(menu.perform_action("reload"), Some(SceneResult::ReloadLevel));
    assert_eq!(menu.perform_action("quit"), None);
}

#[test]
fn cancel_on_splash_returns_to_menu() {
    let mut menu = Menu::new_splash(sprite(2), Cursor::new(sprite(9)), sprite(3));
    let mut inputs = InputSnapshot::idle();
    inputs.cancel_clicked = true;
    let mut sounds = Vec::new();
    assert_eq!(menu.update(&inputs, &mut sounds), SceneResult::PushMenu);
}

#[test]
fn kill_screen_selection_wraps() {
    let mut menu = Menu::new_kill_screen("hello world", sprite(2), Cursor::new(sprite(9)), sprite(3), sprite(4));
    assert_eq!(menu.button_count(), 2);
    menu.next_button(1, ButtonOrderDirection::Vertical);
    menu.next_button(-1, ButtonOrderDirection::Horizontal);
    // Selecting with OK then releasing it clicks the first button again.
    let mut sounds = Vec::new();
    let mut inputs = InputSnapshot::idle();
    inputs.ok_down = true;
    assert_eq!(menu.update(&inputs, &mut sounds), SceneResult::Continue);
    inputs.ok_down = false;
    assert_eq!(menu.update(&inputs, &mut sounds), SceneResult::PushLevel);
    assert_eq!(sounds, vec![Sound::Click]);
}

#[test]
fn menu_navigation_then_click_quits() {
    let mut menu = Menu::new_kill_screen("x", sprite(2), Cursor::new(sprite(9)), sprite(3), sprite(4));
    let mut sounds = Vec::new();
    let mut inputs = InputSnapshot::idle();
    inputs.menu_down_clicked = true;
    inputs.ok_down = true;
    assert_eq!(menu.update(&inputs, &mut sounds), SceneResult::Continue);
    let mut inputs = InputSnapshot::idle();
    inputs.ok_down = false;
    assert_eq!(menu.update(&inputs, &mut sounds), SceneResult::PushMenu);
}

#[test]
fn text_comparison() {
    assert!(text_equals("abc", "abc"));
    assert!(!text_equals("abc", "abd"));
    assert!(!text_equals("abc", "ab"));
    assert!(text_equals("", ""));
}

#[test]
fn stage_transitions() {
    let mut stage = StageManager::new(1u32);
    assert_eq!(stage.update(SceneResult::Continue), StageStep::Running);
    assert_eq!(stage.update(SceneResult::PushLevel), StageStep::Push(SceneRequest::Level));
    stage.push(2);
    stage.push(3);
    assert_eq!(stage.stack, vec![1, 2]);
    assert_eq!(stage.update(SceneResult::PopTwo), StageStep::Running);
    assert_eq!(stage.current, 1);
    assert!(stage.stack.is_empty());
    assert_eq!(stage.update(SceneResult::Pop), StageStep::Finished);
    assert_eq!(stage.current, 1);
    stage.push(4);
    assert_eq!(stage.update(SceneResult::ReloadLevel), StageStep::ReplaceCurrent(SceneRequest::Level));
    assert!(stage.stack.is_empty());
    assert_eq!(stage.current, 4);
    assert_eq!(
        stage.update(SceneResult::PushKillScreen { text: "hello world".to_string() }),
        StageStep::Push(SceneRequest::KillScreen { text: "hello world".to_string() })
    );
    assert_eq!(stage.update(SceneResult::PushPause), StageStep::Push(SceneRequest::Menu));
    assert_eq!(stage.update(SceneResult::PushMenu), StageStep::Push(SceneRequest::Menu));
}
