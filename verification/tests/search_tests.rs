use minigrep::search;
use minigrep::search_case_insensitive;
use minigrep::Config;

#[test]
fn case_sensitive() {
    let query = "duct";
    let contents = "\
Rust:
safe, fast, productive.
Pick three.
Duct tape.";

    assert_eq!(
        vec!["safe, fast, productive.".to_string()],
        search(query, contents)
    );
}

#[test]
fn case_insensitive() {
    let query = "rUsT";
    let contents = "\
Rust:
safe, fast, productive.
Pick three.
Trust me.";

    assert_eq!(
        vec!["Rust:".to_string(), "Trust me.".to_string()],
        search_case_insensitive(query, contents)
    );
}

#[test]
fn empty_contents_yield_no_matches() {
    assert_eq!(search("xyz", ""), Vec::<String>::new());
    assert_eq!(search_case_insensitive("xyz", ""), Vec::<String>::new());
}

#[test]
fn empty_query_matches_every_line() {
    assert_eq!(
        search("", "a\nb\nc"),
        vec!["a".to_string(), "b".to_string(), "c".to_string()]
    );
    assert_eq!(
        search_case_insensitive("", "a\nb"),
        vec!["a".to_string(), "b".to_string()]
    );
}

#[test]
fn trailing_newline_adds_no_empty_line() {
    assert_eq!(search("", "a\nb\n"), vec!["a".to_string(), "b".to_string()]);
    assert_eq!(search("", "\n"), vec!["".to_string()]);
    assert_eq!(search("", ""), Vec::<String>::new());
}

#[test]
fn matches_preserve_file_order_and_original_case() {
    let contents = "Duct tape.\nabductor\nnothing here\nDUCT";
    assert_eq!(search("duct", contents), vec!["abductor".to_string()]);
    assert_eq!(
        search_case_insensitive("duct", contents),
        vec![
            "Duct tape.".to_string(),
            "abductor".to_string(),
            "DUCT".to_string()
        ]
    );
}

#[test]
fn search_is_idempotent() {
    let query = "rUsT";
    let contents = "Rust:\nsafe, fast, productive.\nPick three.\nTrust me.";
    assert_eq!(search(query, contents), search(query, contents));
    assert_eq!(
        search_case_insensitive(query, contents),
        search_case_insensitive(query, contents)
    );
}

#[test]
fn matching_lines_selects_the_configured_mode() {
    let contents = "Rust:\nTrust me.";
    let sensitive = Config::new(
        &vec![
            "prog".to_string(),
            "rUsT".to_string(),
            "f".to_string(),
            "true".to_string(),
        ],
        false,
    )
    .unwrap();
    assert_eq!(
        minigrep::search::matching_lines(&sensitive, contents),
        Vec::<String>::new()
    );

    let insensitive = Config::new(
        &vec![
            "prog".to_string(),
            "rUsT".to_string(),
            "f".to_string(),
            "false".to_string(),
        ],
        false,
    )
    .unwrap();
    assert_eq!(
        minigrep::search::matching_lines(&insensitive, contents),
        vec!["Rust:".to_string(), "Trust me.".to_string()]
    );
}
