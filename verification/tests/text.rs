use price_sampler::text::{chars_of, same_text, starts_with};

#[test]
fn chars_of_keeps_every_character_in_order() {
    assert_eq!(chars_of(""), Vec::<char>::new());
    assert_eq!(chars_of("a=b"), vec!['a', '=', 'b']);
    assert_eq!(chars_of("\u{e9}\u{20ac}\u{1f600}"), vec!['\u{e9}', '\u{20ac}', '\u{1f600}']);
}

#[test]
fn starts_with_tests_a_prefix() {
    let text = chars_of("--times=5");
    assert!(starts_with(&text, &chars_of("")));
    assert!(starts_with(&text, &chars_of("--times=")));
    assert!(starts_with(&text, &chars_of("--times=5")));
    assert!(!starts_with(&text, &chars_of("--times=56")));
    assert!(!starts_with(&text, &chars_of("-times=")));
    assert!(!starts_with(&text, &chars_of("--timez=")));
    assert!(!starts_with(&chars_of(""), &chars_of("-")));
    assert!(starts_with(&chars_of(""), &chars_of("")));
}

#[test]
fn same_text_tests_equality() {
    assert!(same_text(&chars_of("--mode=read"), &chars_of("--mode=read")));
    assert!(same_text(&chars_of(""), &chars_of("")));
    assert!(!same_text(&chars_of("--mode=read"), &chars_of("--mode=rea")));
    assert!(!same_text(&chars_of("--mode=rea"), &chars_of("--mode=read")));
    assert!(!same_text(&chars_of("--mode=read"), &chars_of("--mode=reed")));
}
