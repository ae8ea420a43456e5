use regex::Regex;
use squidge::get_shortened_lines;
use squidge::lines::join;
use squidge::pattern::is_exempt;
use squidge::shorten::{is_in_window, shorten_components, shrink};
use squidge::source::{select_source, Source, SourceError};
use squidge::split::{chars_of, occurs_at, split_line};
use squidge::{shorten_line, Config};

fn strings(v: &[&str]) -> Vec<String> {
    v.iter().map(|s| s.to_string()).collect()
}

#[test]
fn get_shortened_lines_works() {
    let data = "src/main/scala/app/billing/ApplicationComponents.scala\n\
                /src/main/scala/app/billing/Components.scala\n\
                src/main/scala/app/billing/api/ErrorHandler.scala\n\
                src/main/scala/app/billing/auth/utils/Authenticator.scala";
    let lines: Vec<String> = data.lines().map(|l| l.to_string()).collect();
    let re = Regex::new("billing|utils").unwrap();
    let cfg = Config {
        ignore_first_n: 2,
        ignore_last_n: 2,
        ignore_regex: Some(re),
        ..Config::default()
    };
    let shortened_lines = get_shortened_lines(&cfg, &lines, " .. ");
    let expected = vec![
        "src .. main .. s .. a .. billing .. ApplicationComponents.scala",
        " .. src .. m .. s .. a .. billing .. Components.scala",
        "src .. main .. s .. a .. billing .. api .. ErrorHandler.scala",
        "src .. main .. s .. a .. billing .. a .. utils .. Authenticator.scala",
    ];
    assert_eq!(expected, shortened_lines);
}

#[test]
fn get_shortened_lines_of_no_lines_is_empty() {
    let lines: Vec<String> = Vec::new();
    assert!(get_shortened_lines(&Config::default(), &lines, "/").is_empty());
}

#[test]
fn join_puts_separator_between_components() {
    assert_eq!(join(&strings(&["a", "bc", ""]), "::"), "a::bc::");
    assert_eq!(join(&strings(&["only"]), "::"), "only");
    assert_eq!(join(&Vec::new(), "::"), "");
}

#[test]
fn component_count_is_kept() {
    let cfg = Config::default();
    for line in ["", "a", "a/b", "//x//", "/module/submodule/service/lib.rs"] {
        let parts: Vec<&str> = line.split("/").collect();
        assert_eq!(shorten_line(&cfg, line).len(), parts.len());
    }
}

#[test]
fn full_preservation_when_a_window_covers_the_line() {
    let line = "alpha/beta/gamma";
    let first = Config {
        ignore_first_n: 3,
        ..Config::default()
    };
    let last = Config {
        ignore_last_n: 3,
        ..Config::default()
    };
    assert_eq!(shorten_line(&first, line), vec!["alpha", "beta", "gamma"]);
    assert_eq!(shorten_line(&last, line), vec!["alpha", "beta", "gamma"]);
}

#[test]
fn shrinking_takes_the_first_character_not_byte() {
    let line = "école/ünïcode/ß/end";
    assert_eq!(shorten_line(&Config::default(), line), vec!["é", "ü", "ß", "end"]);
    assert_eq!(shrink("日本"), "日");
    assert_eq!(shrink(""), "");
}

#[test]
fn pattern_exemption_wins_outside_both_windows() {
    let cfg = Config {
        ignore_first_n: 1,
        ignore_last_n: 1,
        ignore_regex: Some(Regex::new("^keep").unwrap()),
        ..Config::default()
    };
    assert_eq!(
        shorten_line(&cfg, "a/keepme/drop/keep2/z"),
        vec!["a", "keepme", "d", "keep2", "z"]
    );
}

#[test]
fn line_with_no_delimiter_comes_back_whole() {
    let line = "line-with-no-delimiter";
    assert_eq!(shorten_line(&Config::default(), line), vec![line]);
    let cfg = Config {
        delimiter: ":",
        ignore_first_n: 0,
        ignore_last_n: 4,
        ignore_regex: None,
    };
    assert_eq!(shorten_line(&cfg, line), vec![line]);
}

#[test]
fn ignore_last_n_zero_shrinks_the_last_component() {
    let cfg = Config {
        ignore_last_n: 0,
        ..Config::default()
    };
    assert_eq!(shorten_line(&cfg, "abc/def"), vec!["a", "d"]);
}

#[test]
fn empty_line_gives_one_empty_component() {
    assert_eq!(shorten_line(&Config::default(), ""), vec![""]);
}

#[test]
fn split_line_follows_leftmost_non_overlapping_matches() {
    assert_eq!(split_line("aaa", "aa"), vec!["", "a"]);
    assert_eq!(split_line("a::b:c", "::"), vec!["a", "b:c"]);
    assert_eq!(split_line("abc", ""), vec!["", "a", "b", "c", ""]);
    assert_eq!(split_line("", ""), vec!["", ""]);
    assert_eq!(split_line("", "/"), vec![""]);
}

#[test]
fn occurs_at_checks_the_position() {
    let s = chars_of("a/b");
    let d = chars_of("/");
    assert!(!occurs_at(&s, &d, 0));
    assert!(occurs_at(&s, &d, 1));
    assert!(!occurs_at(&s, &d, 3));
    assert_eq!(chars_of("hé"), vec!['h', 'é']);
}

#[test]
fn shorten_components_follows_the_marks() {
    let parts = strings(&["one", "two", "three", "four"]);
    let r = shorten_components(&parts, 0, 1, &vec![false, true, false, false]);
    assert_eq!(r, vec!["o", "two", "t", "four"]);
    let r = shorten_components(&parts, 1, 2, &vec![false, false, false, false]);
    assert_eq!(r, vec!["one", "t", "three", "four"]);
    assert!(shorten_components(&Vec::new(), 0, 1, &Vec::new()).is_empty());
}

#[test]
fn is_exempt_asks_the_pattern() {
    let re = Some(Regex::new("mod").unwrap());
    assert!(is_exempt(&re, "module"));
    assert!(is_exempt(&re, "submodule"));
    assert!(!is_exempt(&re, "service"));
    assert!(!is_exempt(&None, "module"));
}

#[test]
fn select_source_needs_exactly_one() {
    assert_eq!(select_source(false, None), Err(SourceError::NoSource));
    assert_eq!(
        select_source(true, Some("in.txt".to_string())),
        Err(SourceError::TooManySources)
    );
    assert_eq!(select_source(true, None), Ok(Source::Stdin));
    assert_eq!(
        select_source(false, Some("in.txt".to_string())),
        Ok(Source::File("in.txt".to_string()))
    );
}

#[test]
fn window_is_measured_against_the_delimiter_count() {
    // Four components, three delimiters.
    assert!(is_in_window(0, 4, 1, 1));
    assert!(!is_in_window(1, 4, 1, 1));
    assert!(!is_in_window(2, 4, 1, 1));
    assert!(is_in_window(3, 4, 1, 1));
    assert!(is_in_window(2, 4, 0, 2));
    assert!(!is_in_window(1, 4, 0, 2));
    assert!(is_in_window(0, 4, 0, 4));
    assert!(!is_in_window(2, 4, 0, 0));
}
