use rusty_games::minigrep::{extract_program_name, report, search, Config};

const TEST_CONTENTS: &'static str = "\
Rust:
safe, fast, productive.
Pick three.";

#[test]
fn one_result() {
    let query = "duct";
    let results = search(query, TEST_CONTENTS);
    assert_eq!(vec!["safe, fast, productive."], results);
}

#[test]
fn no_result() {
    let query = "x";
    let results = search(query, TEST_CONTENTS);
    assert_eq!(Vec::<&str>::new(), results);
}

#[test]
fn search_keeps_line_order_and_strips_crlf() {
    let contents = "ab\r\nxab\nno\r\nab";
    assert_eq!(vec!["ab", "xab", "ab"], search("ab", contents));
    assert_eq!(vec!["ab", "xab", "no", "ab"], search("", contents));
    assert_eq!(vec!["one"], search("one", "one\n"));
    assert_eq!(Vec::<&str>::new(), search("a", ""));
    assert_eq!(vec!["", "", "b"], search("", "\n\nb"));
}

#[test]
fn search_handles_non_ascii_text() {
    let contents = "Здравствуйте\nこんにちは";
    assert_eq!(vec!["こんにちは"], search("にち", contents));
}

#[test]
fn config_needs_three_arguments() {
    let args: Vec<String> = vec!["minigrep".to_string(), "duct".to_string()];
    assert_eq!(Err("not enough arguments"), Config::build(&args).map(|_| ()));
    let args: Vec<String> = vec!["minigrep".to_string(), "duct".to_string(), "poem.txt".to_string()];
    let cfg = Config::build(&args).ok().unwrap();
    assert_eq!("duct", cfg.query());
    assert_eq!("poem.txt", cfg.file_path());
}

#[test]
fn program_name_drops_the_directory() {
    let args = vec!["/usr/bin/minigrep".to_string()];
    assert_eq!("minigrep", extract_program_name(&args));
    let args = vec!["C:\\tools\\minigrep.exe".to_string()];
    assert_eq!("minigrep.exe", extract_program_name(&args));
    let args = vec!["minigrep".to_string()];
    assert_eq!("minigrep", extract_program_name(&args));
    let args = vec!["a\\b/c".to_string()];
    assert_eq!("c", extract_program_name(&args));
}

#[test]
fn reports_list_the_matching_lines() {
    let args = vec!["minigrep".to_string(), "duct".to_string(), "poem.txt".to_string()];
    let config = Config::build(&args).unwrap();
    let contents = "Rust:\nsafe, fast, productive.\nPick three.\nDuct tape.\nproduct";
    assert_eq!(
        vec![
            "`duct` was found 2 times in file poem.txt:".to_string(),
            "-> safe, fast, productive.".to_string(),
            "-> product".to_string(),
        ],
        report(&config, contents)
    );
    assert_eq!(vec!["`duct` was not found in file poem.txt".to_string()], report(&config, "nothing\nhere"));
}
