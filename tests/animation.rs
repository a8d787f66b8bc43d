use meez3d::animation::{AnimationError, AnimationStateMachine, NextFrame};
use meez3d::utils::normalize_path;

const DESCRIPTION: &str = "
[STATES]
IDLE
  RUN
[TRANSITIONS]
# frames, state: next
0-2, IDLE: +
3, IDLE: 0
*, RUN: =
 5 , * : -
\t+6 -  7, *: 11\r
";

#[test]
fn rules_pick_next_frame() {
    let machine = AnimationStateMachine::new(DESCRIPTION).unwrap();
    assert_eq!(machine.next_frame(0, "IDLE"), Ok(1));
    assert_eq!(machine.next_frame(2, "IDLE"), Ok(3));
    assert_eq!(machine.next_frame(3, "IDLE"), Ok(0));
    assert_eq!(machine.next_frame(7, "RUN"), Ok(7));
    assert_eq!(machine.next_frame(5, "JUMP"), Ok(4));
    assert_eq!(machine.next_frame(7, "JUMP"), Ok(11));
    assert_eq!(machine.next_frame(9, "JUMP"), Err(AnimationError::UnhandledCase));
    assert_eq!(machine.next_frame(4, "IDLE"), Err(AnimationError::UnhandledCase));
}

#[test]
fn malformed_rules_are_refused() {
    let cases = [
        ("[TRANSITIONS]\n1, FOO: +", AnimationError::InvalidState),
        ("[TRANSITIONS]\n1 FOO +", AnimationError::MissingColon),
        ("[TRANSITIONS]\n1: +", AnimationError::MissingComma),
        ("[TRANSITIONS]\nx, *: +", AnimationError::InvalidNumber),
        ("[TRANSITIONS]\n1-y, *: +", AnimationError::InvalidNumber),
        ("[TRANSITIONS]\n*, *: q", AnimationError::InvalidNumber),
        ("[TRANSITIONS]\n*, *: 4294967296", AnimationError::InvalidNumber),
        ("[TRANSITIONS]\n+, *: 1", AnimationError::InvalidNumber),
    ];
    for (text, error) in cases {
        assert_eq!(AnimationStateMachine::new(text).err(), Some(error), "{text}");
    }
}

#[test]
fn states_must_come_before_rules() {
    let text = "[TRANSITIONS]\n*, IDLE: 1\n[STATES]\nIDLE\n";
    assert_eq!(AnimationStateMachine::new(text).err(), Some(AnimationError::InvalidState));
    let text = "[STATES]\nIDLE\n[TRANSITIONS]\n*, IDLE: 4294967295\n";
    let machine = AnimationStateMachine::new(text).unwrap();
    assert_eq!(machine.next_frame(0, "IDLE"), Ok(u32::MAX));
}

#[test]
fn next_frame_choices() {
    assert_eq!(NextFrame::Value(9).next(3), 9);
    assert_eq!(NextFrame::Increment.next(3), 4);
    assert_eq!(NextFrame::Decrement.next(3), 2);
    assert_eq!(NextFrame::Same.next(3), 3);
}

fn parts(items: &[&str]) -> Vec<String> {
    items.iter().map(|s| s.to_string()).collect()
}

#[test]
fn parent_components_are_resolved() {
    assert_eq!(normalize_path(&parts(&["assets", "maps", "..", "tiles.tsx"])), parts(&["assets", "tiles.tsx"]));
    assert_eq!(normalize_path(&parts(&["..", "a"])), parts(&["..", "a"]));
    assert_eq!(normalize_path(&parts(&["/", "..", "a"])), parts(&["/", "..", "a"]));
    assert_eq!(normalize_path(&parts(&["a", "..", ".."])), parts(&[".."]));
    assert_eq!(normalize_path(&parts(&["..", ".."])), parts(&[]));
}
