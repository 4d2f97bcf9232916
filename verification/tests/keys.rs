use packet::keys::{take_keys, Keys};

#[test]
fn space_and_escape_are_the_two_shortcuts() {
    let mut keys = Keys::default();
    assert!(keys.press(" "));
    assert!(keys.compare && !keys.dismiss);
    assert!(keys.press("Esc"));
    assert!(keys.dismiss);
    assert!(!keys.press("a"));
    assert!(!keys.press("Enter"));
    assert!(!keys.press("escape"));

    let mut other = Keys::default();
    assert!(other.press("Spacebar"));
    assert!(other.press("Escape"));
    assert!(other.compare && other.dismiss);
}

#[test]
fn taking_the_keys_clears_them() {
    let mut keys = Keys::default();
    keys.press(" ");
    let taken = take_keys(&mut keys);
    assert!(taken.compare && !taken.dismiss);
    assert_eq!(keys, Keys::default());
    let again = take_keys(&mut keys);
    assert!(!again.compare && !again.dismiss);
}
