use rusty_games::hello_rust::{
    _abc, _first_word, check_option, count_words, check_result, control_flow_line, first_word, last_char_of_first_line, longest,
    question_mark_operator, sum_and_describe, Color, Point, User,
};

#[test]
fn users_sign_in_and_copy() {
    let mut user = User::create("tonyko");
    assert_eq!("User(tonyko <> - active, sign in count: 0)", user.line());
    user.update_email("me@nowhere.com");
    user.sign_in();
    user.deactivate();
    assert_eq!("User(tonyko <me@nowhere.com> - inactive, sign in count: 1)", user.line());
    user.activate();
    user.sign_in();
    let other = user.copy("gogu");
    assert_eq!("User(gogu <> - active, sign in count: 2)", other.line());
    assert_eq!("User( <> - inactive, sign in count: 0)", User::default().line());
}

#[test]
fn colors_and_points_show_their_numbers() {
    let c = Color::new(12, -34, 56);
    assert_eq!((12, -34, 56), (c.r(), c.g(), c.b()));
    assert_eq!("Color(r:12, g:-34, b:56)", c.line());
    assert_eq!("(-3, 4)", Point { x: -3, y: 4 }.to_text());
}

#[test]
fn first_words() {
    assert_eq!("hello", _first_word("hello"));
    assert_eq!("hello", _first_word("hello world of rust"));
    assert_eq!("hello", _first_word("   hello   "));
    assert_eq!("hello", _first_word("   hello"));
    assert_eq!("hello", _first_word("hello   "));
    assert_eq!("", _first_word("   "));
    assert_eq!("", _first_word(""));
    assert_eq!("abc", first_word("abc def ghi"));
    assert_eq!("abc", first_word("abc"));
    assert_eq!("", first_word(" abc"));
}

#[test]
fn longest_prefers_the_second_on_ties() {
    assert_eq!("abcdefg", longest("abcdefg", "xyz"));
    assert_eq!("xyz", longest("abc", "xyz"));
}

#[test]
fn numbers_are_parsed_and_added() {
    assert_eq!(Ok(68), question_mark_operator("23", "45"));
    assert_eq!(Ok(-2), question_mark_operator("-5", "+3"));
    assert!(question_mark_operator("x", "23").is_err());
    assert!(question_mark_operator("23", "").is_err());
    assert!(question_mark_operator("2147483648", "0").is_err());
}

#[test]
fn last_characters_of_first_lines() {
    assert_eq!(Some('o'), last_char_of_first_line("hello\nworld"));
    assert_eq!(Some('o'), last_char_of_first_line("hello\r\nworld"));
    assert_eq!(None, last_char_of_first_line("\nworld"));
    assert_eq!(None, last_char_of_first_line(""));
    assert_eq!(Some('d'), last_char_of_first_line("world"));
}

#[test]
fn arrays_are_summed_and_described() {
    let (line, sum) = sum_and_describe(&[1, -2, 30]);
    assert_eq!(29, sum);
    assert_eq!("Array has 3 elements: [1, -2, 30 ] => sum is 29", line);
    let (line, sum) = sum_and_describe(&[]);
    assert_eq!(0, sum);
    assert_eq!("Array has 0 elements:  ] => sum is 0", line);
    assert_eq!((), _abc());
}

#[test]
fn options_and_results_are_described() {
    assert_eq!("We got some data: abc", check_option(&Some(String::from("abc"))));
    assert_eq!("We got NO data!", check_option(&None));
    assert_eq!("Result is OK: 42", check_result(&Ok(42)));
    assert_eq!("Result is OK: -7", check_result(&Ok(-7)));
    assert_eq!("Result is FAILURE: some error", check_result(&Err(String::from("some error"))));
}

#[test]
fn numbers_are_placed_in_their_range() {
    assert_eq!("4 < 5", control_flow_line(4));
    assert_eq!("-3 < 5", control_flow_line(-3));
    assert_eq!("5 in range [5, 50)", control_flow_line(5));
    assert_eq!("49 in range [5, 50)", control_flow_line(49));
    assert_eq!("50 >= 50", control_flow_line(50));
}

#[test]
fn words_are_counted_in_order_of_first_occurrence() {
    let counts = count_words("hello world wonderful world");
    let expected = vec![
        (String::from("hello"), 1usize),
        (String::from("world"), 2),
        (String::from("wonderful"), 1),
    ];
    assert_eq!(expected, counts);
    assert!(count_words("").is_empty());
    assert!(count_words(" \t\n ").is_empty());
    assert_eq!(vec![(String::from("a"), 3), (String::from("b"), 1)], count_words("  a\tb a\n a "));
}

#[test]
fn first_words_of_texts_with_non_ascii_characters() {
    assert_eq!("hello", _first_word("hello wörld"));
    assert_eq!("héllo", _first_word("   héllo"));
    assert_eq!("héllo", first_word("héllo wörld"));
    assert_eq!("wörld", first_word("wörld"));
}

#[test]
fn words_are_split_at_unicode_white_space() {
    assert_eq!(
        vec![(String::from("a"), 2usize), (String::from("b"), 1)],
        count_words("a\u{3000}b\u{85}a\u{a0}")
    );
}

#[test]
fn white_space_splits_words_as_std_does() {
    let mut text = String::new();
    for v in 0u32..0x3100 {
        if let Some(c) = char::from_u32(v) {
            text.push('a');
            text.push(c);
        }
    }
    let total: usize = count_words(&text).iter().map(|(_, n)| *n).sum();
    assert_eq!(text.split_whitespace().count(), total);
    let distinct: std::collections::HashSet<&str> = text.split_whitespace().collect();
    assert_eq!(distinct.len(), count_words(&text).len());
}
