use shipping_costs::text::{
    chars_of, digit_of, find_char, is_digit_char, only_digits, same_text, slice_of,
};

#[test]
fn characters_of_a_string() {
    assert_eq!(chars_of(""), Vec::<char>::new());
    assert_eq!(chars_of("a-1"), vec!['a', '-', '1']);
    assert_eq!(chars_of("né"), vec!['n', 'é']);
}

#[test]
fn digits() {
    for (at, c) in "0123456789".chars().enumerate() {
        assert!(is_digit_char(c));
        assert_eq!(digit_of(c) as usize, at);
    }
    for c in ['/', ':', 'a', ' ', '-', '+', '.', '٣', '１'] {
        assert!(!is_digit_char(c));
    }
    assert!(only_digits(&chars_of("0042")));
    assert!(only_digits(&chars_of("")));
    assert!(!only_digits(&chars_of("4 2")));
    assert!(!only_digits(&chars_of("42-")));
}

#[test]
fn finding_a_character() {
    let s = chars_of("ab-cd-e");
    assert_eq!(find_char(&s, '-', 0), 2);
    assert_eq!(find_char(&s, '-', 2), 2);
    assert_eq!(find_char(&s, '-', 3), 5);
    assert_eq!(find_char(&s, '-', 6), 7);
    assert_eq!(find_char(&s, '-', 7), 7);
    assert_eq!(find_char(&s, 'x', 0), 7);
    assert_eq!(find_char(&chars_of(""), '-', 0), 0);
}

#[test]
fn parts_and_equal_texts() {
    let s = chars_of("ab-cd");
    assert_eq!(slice_of(&s, 0, 2), vec!['a', 'b']);
    assert_eq!(slice_of(&s, 3, 5), vec!['c', 'd']);
    assert_eq!(slice_of(&s, 2, 2), Vec::<char>::new());
    assert_eq!(slice_of(&s, 0, 5), s);
    assert!(same_text(&s, "ab-cd"));
    assert!(!same_text(&s, "ab-cD"));
    assert!(!same_text(&s, "ab-c"));
    assert!(!same_text(&s, "ab-cde"));
    assert!(same_text(&chars_of(""), ""));
}
