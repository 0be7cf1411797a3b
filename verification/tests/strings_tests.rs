use zellij_project_sidebar::strings::{
    base_name_or_else, chars_of, decimal_string, split_lines, str_eq, str_less, strip_prefix,
    subsequence_of, without_last_char,
};
use zellij_project_sidebar::discovery::parse_scan_output;
use zellij_project_sidebar::state::fuzzy_matches;

#[test]
fn decimal_of_small_and_large_numbers() {
    assert_eq!(decimal_string(0), "0");
    assert_eq!(decimal_string(7), "7");
    assert_eq!(decimal_string(42), "42");
    assert_eq!(decimal_string(1000), "1000");
    assert_eq!(decimal_string(u64::MAX), u64::MAX.to_string());
}

#[test]
fn prefix_is_stripped_only_when_present() {
    assert_eq!(strip_prefix("sidebar::clear::web", "sidebar::clear::"), Some("web".to_string()));
    assert_eq!(strip_prefix("sidebar::clear::", "sidebar::clear::"), Some(String::new()));
    assert_eq!(strip_prefix("sidebar::clea", "sidebar::clear::"), None);
    assert_eq!(strip_prefix("other", "sidebar::"), None);
    assert_eq!(strip_prefix("héllo wörld", "héllo"), Some(" wörld".to_string()));
    assert_eq!(strip_prefix("hello", "help"), None);
}

#[test]
fn subsequence_follows_order() {
    assert!(subsequence_of("mpj", "my-project"));
    assert!(subsequence_of("", "anything"));
    assert!(!subsequence_of("acb", "abc"));
    assert!(!subsequence_of("abcd", "abc"));
    assert!(subsequence_of("abc", "abc"));
}

#[test]
fn fuzzy_match_ignores_case() {
    assert!(fuzzy_matches("MyProject", "myp"));
    assert!(fuzzy_matches("zellij-sidebar", "ZSB"));
    assert!(fuzzy_matches("anything", ""));
    assert!(!fuzzy_matches("api", "app"));
}

#[test]
fn shorter_queries_match_at_least_as_much() {
    let names = ["zellij-sidebar", "api", "Alpha", "gamma", "MyProject"];
    let query = "ZSBr";
    for cut in 0..=query.len() {
        let shorter = &query[..cut];
        for name in names {
            if fuzzy_matches(name, query) {
                assert!(fuzzy_matches(name, shorter));
            }
        }
    }
    assert!(fuzzy_matches("gamma", "g"));
    assert!(!fuzzy_matches("gamma", "gx"));
}

#[test]
fn fuzzy_match_lowercases_beyond_ascii() {
    assert!(fuzzy_matches("ÀBC", "àc"));
    assert!(fuzzy_matches("àbc", "ÀB"));
    assert!(!fuzzy_matches("ÀBC", "cà"));
}

#[test]
fn lines_split_like_std() {
    let text = "foo\r\nbar\n\nbaz\r";
    let expected: Vec<String> = text.lines().map(|l| l.to_string()).collect();
    assert_eq!(split_lines(text), expected);
    assert_eq!(split_lines(text), vec!["foo", "bar", "", "baz\r"]);
    assert_eq!(split_lines(""), Vec::<String>::new());
    assert_eq!(split_lines("x\n"), vec!["x"]);
    assert_eq!(split_lines("\n"), vec![""]);
    assert_eq!(split_lines("a\nb"), vec!["a", "b"]);
}

#[test]
fn string_order_matches_std() {
    let pairs = [("a", "b"), ("ab", "abc"), ("B", "a"), ("abc", "abc"), ("é", "z"), ("", "a"), ("a", "")];
    for (a, b) in pairs {
        assert_eq!(str_less(a, b), a < b, "{} < {}", a, b);
    }
}

#[test]
fn base_name_of_paths() {
    assert_eq!(base_name_or_else("/home/u/projects/web", "unknown"), "web");
    assert_eq!(base_name_or_else("/home/u/projects/web/", "unknown"), "web");
    assert_eq!(base_name_or_else("relative", "unknown"), "relative");
    assert_eq!(base_name_or_else("/", "unknown"), "unknown");
    assert_eq!(base_name_or_else("/a/..", "unknown"), "unknown");
}

#[test]
fn lossy_decoding_replaces_invalid_bytes() {
    let dirs = parse_scan_output(&b"/p/a\xffb\n/p/\xc3\xbcn\xc3\xaf\n".to_vec());
    assert_eq!(dirs[0].0, "a\u{FFFD}b");
    assert_eq!(dirs[1].0, "ünï");
}

#[test]
fn chars_and_equality() {
    assert_eq!(chars_of("añb"), vec!['a', 'ñ', 'b']);
    assert!(str_eq("same", "same"));
    assert!(!str_eq("same", "Same"));
    assert_eq!(without_last_char(&"abc".to_string()), "ab");
    assert_eq!(without_last_char(&"é".to_string()), "");
    assert_eq!(without_last_char(&String::new()), "");
}
