use workshop::search::{search, search_case_insensitive, Config};

#[test]
fn case_sensitive() {
    let query = "duct";
    let contents = "\
Rust:
safe, fast, productive.
Pick three.
Duct tape.";

    assert_eq!(vec!["safe, fast, productive."], search(query, contents));
}

#[test]
fn case_insensitive() {
    let query = "rUsT";
    let contents = "\
Rust:
safe, fast, productive.
Pick three.
Trust Me.
Duct tape.";

    assert_eq!(
        vec!["Rust:", "Trust Me."],
        search_case_insensitive(query, contents)
    );
}

#[test]
fn test_workspace() {
    let query = "hiya";
    let contents = "\
hiya first line
hiya second line
third line";

    assert_eq!(
        search(query, contents),
        vec!["hiya first line", "hiya second line"]
    );
}

#[test]
fn search_empty_query_keeps_every_line() {
    let contents = "one\ntwo\nthree";
    assert_eq!(search("", contents), vec!["one", "two", "three"]);
}

#[test]
fn search_no_match_returns_nothing() {
    let contents = "one\ntwo\nthree";
    assert!(search("four", contents).is_empty());
}

#[test]
fn search_empty_contents_returns_nothing() {
    assert!(search("x", "").is_empty());
}

#[test]
fn search_strips_carriage_returns() {
    let contents = "alpha\r\nalphabet\r\ngamma";
    assert_eq!(search("alpha", contents), vec!["alpha", "alphabet"]);
}

#[test]
fn config_needs_a_query() {
    let args = vec![String::from("prog")];
    assert_eq!(Config::new(&args, false), Err("couldn't extract query"));
}

#[test]
fn config_needs_a_filename() {
    let args = vec![String::from("prog"), String::from("needle")];
    assert_eq!(Config::new(&args, false), Err("couldn't extract filename"));
}

#[test]
fn config_reads_query_and_filename() {
    let args = vec![
        String::from("prog"),
        String::from("needle"),
        String::from("haystack.txt"),
    ];
    let config = Config::new(&args, false).unwrap();
    assert_eq!(config.query, "needle");
    assert_eq!(config.filename, "haystack.txt");
    assert!(config.case_sensitive);

    let relaxed = Config::new(&args, true).unwrap();
    assert!(!relaxed.case_sensitive);
}

#[test]
fn config_random_reads_query_and_filename() {
    let args = vec![
        String::from("prog"),
        String::from("needle"),
        String::from("haystack.txt"),
    ];
    let config = Config::new_random(&args).unwrap();
    assert_eq!(config.query, "needle");
    assert_eq!(config.filename, "haystack.txt");
}

#[test]
fn config_random_needs_a_query() {
    let args: Vec<String> = vec![String::from("prog")];
    assert_eq!(Config::new_random(&args), Err("couldn't extract query"));
}
