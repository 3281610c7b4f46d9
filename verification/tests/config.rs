use minigrep::{run, Config};

fn args(words: &[&str]) -> Vec<String> {
    words.iter().map(|word| word.to_string()).collect()
}

#[test]
fn build_takes_query_and_file_path_after_the_program_name() {
    let config = Config::build(args(&["minigrep", "duct", "poem.txt"]), false).unwrap();
    assert_eq!(config.query, "duct");
    assert_eq!(config.file_path, "poem.txt");
    assert!(!config.ignore_case);
}

#[test]
fn build_records_the_ignore_case_switch() {
    let config = Config::build(args(&["minigrep", "duct", "poem.txt"]), true).unwrap();
    assert!(config.ignore_case);
}

#[test]
fn build_ignores_further_arguments() {
    let config = Config::build(args(&["minigrep", "duct", "poem.txt", "more", "words"]), false).unwrap();
    assert_eq!(config.query, "duct");
    assert_eq!(config.file_path, "poem.txt");
}

#[test]
fn build_accepts_an_empty_query() {
    let config = Config::build(args(&["minigrep", "", "poem.txt"]), false).unwrap();
    assert_eq!(config.query, "");
}

#[test]
fn build_without_query_fails() {
    assert_eq!(
        Config::build(args(&["minigrep"]), false).err(),
        Some("Didn't get a query string")
    );
    assert_eq!(
        Config::build(args(&[]), true).err(),
        Some("Didn't get a query string")
    );
}

#[test]
fn build_without_file_path_fails() {
    assert_eq!(
        Config::build(args(&["minigrep", "duct"]), false).err(),
        Some("Didn't get a file path")
    );
}

#[test]
fn run_searches_with_case_when_not_told_to_ignore_it() {
    let config = Config::build(args(&["minigrep", "duct", "poem.txt"]), false).unwrap();
    let contents = "Rust:\nsafe, fast, productive.\nPick three.\nDuct tape.";
    assert_eq!(run(config, contents), vec!["safe, fast, productive."]);
}

#[test]
fn run_ignores_case_when_told_to() {
    let config = Config::build(args(&["minigrep", "duct", "poem.txt"]), true).unwrap();
    let contents = "Rust:\nsafe, fast, productive.\nPick three.\nDuct tape.";
    assert_eq!(run(config, contents), vec!["safe, fast, productive.", "Duct tape."]);
}

#[test]
fn run_does_not_look_at_the_file_path() {
    let config = Config {
        query: String::from("three"),
        file_path: String::from("/no/such/file"),
        ignore_case: false,
    };
    assert_eq!(run(config, "Pick three."), vec!["Pick three."]);
}
