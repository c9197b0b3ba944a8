use rusty_games::guessing_game::{is_final, read_guess, reply_text, GuessingGame, ReadError, Reply};

#[test]
fn lines_are_trimmed_and_read_as_guesses() {
    assert_eq!(Ok(42), read_guess("42\n"));
    assert_eq!(Ok(7), read_guess("  +7 \t\r\n"));
    assert_eq!(Ok(1), read_guess("1"));
    assert_eq!(Ok(100), read_guess("100\n"));
}

#[test]
fn exit_and_quit_give_up_in_any_case() {
    assert_eq!(Err(ReadError::Quit), read_guess("exit\n"));
    assert_eq!(Err(ReadError::Quit), read_guess("  QUIT  \n"));
    assert_eq!(Err(ReadError::Quit), read_guess("Exit"));
    assert_eq!(Err(ReadError::BadNumber), read_guess("exits\n"));
}

#[test]
fn numbers_out_of_range_and_other_text_are_bad() {
    assert_eq!(Err(ReadError::BadNumber), read_guess("0\n"));
    assert_eq!(Err(ReadError::BadNumber), read_guess("101\n"));
    assert_eq!(Err(ReadError::BadNumber), read_guess("-5\n"));
    assert_eq!(Err(ReadError::BadNumber), read_guess("abc\n"));
    assert_eq!(Err(ReadError::BadNumber), read_guess("\n"));
    assert_eq!(Err(ReadError::BadNumber), read_guess("4 2\n"));
    assert_eq!(Err(ReadError::BadNumber), read_guess("99999999999\n"));
}

#[test]
fn a_game_counts_only_real_guesses() {
    let mut g = GuessingGame::with_secret(37);
    assert_eq!("\n(1) Please input your guess: ", g.prompt());
    assert_eq!(Reply::TooBig, g.handle_line("50\n"));
    assert_eq!(Reply::BadNumber, g.handle_line("fifty\n"));
    assert_eq!("\n(2) Please input your guess: ", g.prompt());
    assert_eq!(Reply::TooSmall, g.handle_line("25\n"));
    let r = g.handle_line("37\n");
    assert_eq!(Reply::Won(3), r);
    assert!(is_final(r));
    assert_eq!("You win after (3) attempts :)", reply_text(r));
}

#[test]
fn giving_up_reports_the_guesses_made() {
    let mut g = GuessingGame::with_secret(5);
    assert_eq!(Reply::TooBig, g.handle_line("9"));
    let r = g.handle_line("quit");
    assert_eq!(Reply::GaveUp(1), r);
    assert!(is_final(r));
    assert!(!is_final(Reply::TooBig));
    assert_eq!("You gave up after (1) attempts :(", reply_text(r));
    assert_eq!("Too small!", reply_text(Reply::TooSmall));
    assert_eq!("Please type a number between 1 and 100!", reply_text(Reply::BadNumber));
}

#[test]
fn random_secrets_are_between_one_and_a_hundred() {
    for _ in 0..50 {
        let mut g = GuessingGame::new();
        let mut lo = 1;
        let mut hi = 100;
        let mut found = false;
        for _ in 0..10 {
            let mid = (lo + hi) / 2;
            match g.handle_line(&mid.to_string()) {
                Reply::TooSmall => lo = mid + 1,
                Reply::TooBig => hi = mid - 1,
                Reply::Won(_) => {
                    found = true;
                    break;
                }
                _ => panic!("unexpected reply"),
            }
        }
        assert!(found);
    }
}
