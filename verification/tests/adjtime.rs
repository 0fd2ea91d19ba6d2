use linux_teasing::adjtime::{char_vec, mode_from_uppercased, trim_bounds};

#[test]
fn trim_bounds_drops_flagged_ends() {
    assert_eq!(trim_bounds(&vec![true, false, true, false, true, true]), (1, 4));
    assert_eq!(trim_bounds(&vec![false, false]), (0, 2));
    assert_eq!(trim_bounds(&vec![true, true]), (2, 2));
    assert_eq!(trim_bounds(&vec![]), (0, 0));
}

#[test]
fn empty_uppercased_line_is_no_mode() {
    assert_eq!(mode_from_uppercased(String::new()), None);
    assert_eq!(mode_from_uppercased("LOCAL".to_string()), Some("LOCAL".to_string()));
}

#[test]
fn char_vec_keeps_characters() {
    assert_eq!(char_vec("a\u{e9}\n"), vec!['a', '\u{e9}', '\n']);
}
