use chip8_core::{convert_to_rgba, get_key_idx};

#[test]
fn key_names_map_to_pad() {
    assert_eq!(get_key_idx("1"), Some(0x1));
    assert_eq!(get_key_idx("4"), Some(0xC));
    assert_eq!(get_key_idx("q"), Some(0x4));
    assert_eq!(get_key_idx("Q"), Some(0x4));
    assert_eq!(get_key_idx("r"), Some(0xD));
    assert_eq!(get_key_idx("F"), Some(0xE));
    assert_eq!(get_key_idx("x"), Some(0x0));
    assert_eq!(get_key_idx("V"), Some(0xF));
    assert_eq!(get_key_idx("p"), None);
    assert_eq!(get_key_idx("qq"), None);
    assert_eq!(get_key_idx(""), None);
    assert_eq!(get_key_idx("Escape"), None);
}

#[test]
fn every_pad_key_has_one_keyboard_key() {
    let mut seen = [false; 16];
    for key in "1234qwerasdfzxcv".chars() {
        let idx = get_key_idx(&key.to_string()).unwrap();
        assert!(!seen[idx]);
        seen[idx] = true;
    }
    assert!(seen.iter().all(|&s| s));
}

#[test]
fn pixels_become_rgba() {
    assert_eq!(
        convert_to_rgba(&[true, false]),
        vec![255, 255, 255, 255, 0, 0, 0, 255]
    );
    assert!(convert_to_rgba(&[]).is_empty());
    assert_eq!(convert_to_rgba(&[false; 2048]).len(), 8192);
}
