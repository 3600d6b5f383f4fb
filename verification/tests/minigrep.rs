use rust_basics::minigrep::{search, search_case_insensitive, search_folded, Config};

#[test]
fn case_sensitive() {
    let query = "duct";
    let contents = "\
Rust:
safe, fast, productive.
Pick three.
Duct tape.";

    assert_eq!(vec!["safe, fast, productive."], search(query, contents));
}

#[test]
fn case_insensitive() {
    let query = "rUsT";
    let contents = "\
Rust:
safe, fast, productive.
Pick three.
Trust me.";

    assert_eq!(
        vec!["Rust:", "Trust me."],
        search_case_insensitive(query, contents)
    );
}

#[test]
fn search_keeps_the_order_of_the_lines() {
    let contents = "b one\na\nb two\n\nb three\n";
    assert_eq!(vec!["b one", "b two", "b three"], search("b", contents));
}

#[test]
fn search_finds_nothing_in_an_empty_text() {
    assert!(search("a", "").is_empty());
    assert!(search_case_insensitive("a", "").is_empty());
}

#[test]
fn empty_query_keeps_every_line() {
    assert_eq!(vec!["one", "", "two"], search("", "one\n\ntwo\n"));
}

#[test]
fn lines_end_at_line_feeds_and_drop_a_carriage_return_before_one() {
    assert_eq!(
        vec!["ab", "a\rb", "ab\r"],
        search("a", "ab\r\nno\na\rb\nab\r")
    );
}

#[test]
fn case_insensitive_search_returns_lines_as_written() {
    assert_eq!(
        vec!["ÄPFEL und Birnen", "äpfel"],
        search_case_insensitive("Äpfel", "ÄPFEL und Birnen\nBirnen\näpfel")
    );
}

#[test]
fn case_sensitive_search_tells_cases_apart() {
    assert!(search("rUsT", "Rust:\nTrust me.").is_empty());
}

#[test]
fn folded_search_tests_the_folded_line_and_keeps_the_other() {
    let lines = vec!["Rust:", "Pick three.", "Trust me."];
    let folded = vec![
        String::from("rust:"),
        String::from("pick three."),
        String::from("trust me."),
    ];
    assert_eq!(vec!["Rust:", "Trust me."], search_folded("rust", &lines, &folded));
    assert!(search_folded("Rust", &lines, &folded).is_empty());
}

#[test]
fn config_takes_query_and_path() {
    let args = vec![
        String::from("minigrep"),
        String::from("to"),
        String::from("poem.txt"),
        String::from("more"),
    ];
    let config = Config::build(&args, true).unwrap();
    assert_eq!(config.query, "to");
    assert_eq!(config.file_path, "poem.txt");
    assert!(config.ignore_case);
    assert!(!Config::build(&args, false).unwrap().ignore_case);
}

#[test]
fn config_needs_three_arguments() {
    let args = vec![String::from("minigrep"), String::from("to")];
    assert_eq!(Config::build(&args, false).err(), Some("Not enough arguents."));
    assert!(Config::build(&[], true).is_err());
}
