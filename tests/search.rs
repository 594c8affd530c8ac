use lilgrep::config::Config;
use lilgrep::search::{run_search, search, search_case_insensitive};
use lilgrep::text::{contains_str, split_lines};

#[test]
fn case_sensitive() {
    let query = "duct";
    let contents = "\
Rust:
safe, fast, productive.
Pick three.
Duct tape.";

    assert_eq!(vec!["safe, fast, productive."], search(query, contents));
}

#[test]
fn case_insensitive() {
    let query = "rUsT";
    let contents = "\
Rust:
safe, fast, productive.
Pick three.
Trust me.";

    assert_eq!(
        vec!["Rust:", "Trust me."],
        search_case_insensitive(query, contents)
    );
}

const POEM: &str = "Rust:\nsafe, fast, productive.\nPick three.\nDuct tape.";

#[test]
fn end_to_end_both_policies() {
    assert_eq!(vec!["safe, fast, productive."], search("duct", POEM));
    assert_eq!(vec!["Rust:"], search_case_insensitive("rUsT", POEM));
}

#[test]
fn empty_query_returns_every_line() {
    assert_eq!(
        vec!["Rust:", "safe, fast, productive.", "Pick three.", "Duct tape."],
        search("", POEM)
    );
    assert_eq!(vec!["a", "", "b"], search("", "a\n\nb\n"));
}

#[test]
fn absent_query_returns_nothing() {
    assert!(search("zzz_not_present", POEM).is_empty());
    assert!(search_case_insensitive("zzz_not_present", POEM).is_empty());
    assert!(search("x", "").is_empty());
}

#[test]
fn search_twice_gives_same_lines() {
    assert_eq!(search("t", POEM), search("t", POEM));
}

#[test]
fn result_never_longer_than_text() {
    let lines = split_lines(POEM).len();
    assert_eq!(4, lines);
    assert!(search("", POEM).len() <= lines);
    assert_eq!(2, search("st", POEM).len());
}

#[test]
fn folded_search_finds_at_least_the_exact_matches() {
    let exact = search("Duct", POEM);
    let folded = search_case_insensitive("Duct", POEM);
    assert_eq!(vec!["Duct tape."], exact);
    assert_eq!(vec!["safe, fast, productive.", "Duct tape."], folded);
    assert!(exact.len() <= folded.len());
}

#[test]
fn folded_search_keeps_original_text() {
    assert_eq!(vec!["ÄPFEL und Birnen"], search_case_insensitive("äpfel", "ÄPFEL und Birnen\nkirschen"));
}

#[test]
fn lines_split_on_newline_and_crlf() {
    assert_eq!(vec!["one", "two", "three"], split_lines("one\r\ntwo\nthree\n"));
    assert_eq!(vec!["a", "b\r"], split_lines("a\r\nb\r"));
    assert_eq!(vec![""], split_lines("\n"));
    assert_eq!(vec!["x\ry"], split_lines("x\ry"));
    assert!(split_lines("").is_empty());
}

#[test]
fn crlf_is_not_part_of_matched_line() {
    assert_eq!(vec!["tape"], search("tape", "duct\r\ntape\r\n"));
}

#[test]
fn containment() {
    assert!(contains_str("productive", "duct"));
    assert!(contains_str("abc", ""));
    assert!(contains_str("", ""));
    assert!(!contains_str("", "a"));
    assert!(!contains_str("ab", "abc"));
    assert!(!contains_str("Duct", "duct"));
    assert!(contains_str("aaab", "aab"));
}

#[test]
fn run_search_follows_the_configuration() {
    let exact = Config {
        query: "rUsT".to_string(),
        file_path: "poem.txt".to_string(),
        ignore_case: false,
    };
    assert!(run_search(&exact, POEM).is_empty());
    let folded = Config {
        ignore_case: true,
        ..exact
    };
    assert_eq!(vec!["Rust:"], run_search(&folded, POEM));
}
