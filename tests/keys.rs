use zephyr::{normalize_keys, KeyAction, KeyListener};

#[test]
fn left_and_right_modifiers_fold() {
    assert_eq!(
        normalize_keys(vec![160, 161, 162, 163, 164, 165, 91, 92, 32, 65]),
        vec![16, 16, 17, 17, 18, 18, 91, 91, 32, 65]
    );
    assert_eq!(normalize_keys(vec![]), Vec::<i32>::new());
}

#[test]
fn chord_completes_when_all_keys_are_held() {
    let mut l = KeyListener::new();
    l.listen(vec![17, 32], 200, 0);
    assert!(l.on_key(162, KeyAction::Down).is_empty());
    assert_eq!(l.on_key(32, KeyAction::Down), vec![0]);
    // held keys are forgotten once a chord completes
    assert!(l.on_key(65, KeyAction::Down).is_empty());
}

#[test]
fn released_key_breaks_the_chord() {
    let mut l = KeyListener::new();
    l.listen(vec![17, 32], 200, 0);
    l.listen(vec![18, 32], 200, 0);
    assert!(l.on_key(163, KeyAction::Down).is_empty());
    assert!(l.on_key(163, KeyAction::Up).is_empty());
    assert!(l.on_key(164, KeyAction::Down).is_empty());
    assert!(l.on_key(7, KeyAction::Other).is_empty());
    assert_eq!(l.on_key(32, KeyAction::Down), vec![1]);
}

#[test]
fn chord_fires_only_after_its_interval() {
    let mut l = KeyListener::new();
    l.listen(vec![17, 32], 200, 1000);
    assert!(!l.try_fire(0, 1100));
    assert!(l.try_fire(0, 1200));
    assert!(!l.try_fire(0, 1300));
    assert!(!l.try_fire(0, 500));
    assert!(l.try_fire(0, 1400));
}

#[test]
fn unlisten_drops_all_chords() {
    let mut l = KeyListener::new();
    l.listen(vec![32], 0, 0);
    l.unlisten();
    assert!(l.on_key(32, KeyAction::Down).is_empty());
}
