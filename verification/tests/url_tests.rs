use web_crawler::text::{
    from_chars, has_prefix, is_space_char, lower_char, same_text, slice_chars,
    starts_with_lowered_at, string_of, to_chars, trim_bounds,
};
use web_crawler::text::{join_parts, split_chars};
use web_crawler::url::{
    clean_parts, domain_of_url, find_after_last, find_char, find_path_start, is_in_domain,
    normalize_url, path_of_url, resolve_url, resolve_urls, robots_url_of, scheme_len, tidy_chars,
};

fn chars(s: &str) -> Vec<char> {
    s.chars().collect()
}

#[test]
fn normal_form_drops_fragment_and_lowers_domain() {
    assert_eq!(normalize_url("HTTPS://Ex.COM/Path?Q=1#frag"), "https://ex.com/Path?Q=1");
    assert_eq!(normalize_url("https://ex.com/a"), "https://ex.com/a");
    assert_eq!(normalize_url("https://EX.com"), "https://ex.com");
    assert_eq!(normalize_url("https://ex.com/#"), "https://ex.com/");
    assert_eq!(normalize_url("#only"), "");
    assert_eq!(normalize_url(""), "");
    assert_eq!(normalize_url("Relative/Path"), "relative/Path");
    assert_eq!(normalize_url("/Rooted/Path"), "/Rooted/Path");
}

#[test]
fn normal_form_of_a_normal_form_is_itself() {
    for raw in ["HTTPS://Ex.COM/Path?Q=1#frag", "a#b#c", "X://Y/Z://W", "plain", "HTTP:/One/Two"] {
        let once = normalize_url(raw);
        assert_eq!(normalize_url(&once), once);
    }
}

#[test]
fn non_ascii_letters_are_left_alone() {
    assert_eq!(normalize_url("https://ÉX.com/É"), "https://Éx.com/É");
}

#[test]
fn domain_and_path_split_at_the_first_path_slash() {
    assert_eq!(domain_of_url("https://d/private/x"), "https://d");
    assert_eq!(path_of_url("https://d/private/x"), chars("/private/x"));
    assert_eq!(domain_of_url("https://d"), "https://d");
    assert_eq!(path_of_url("https://d"), chars("/"));
    assert_eq!(path_of_url("https://d/a?b=1"), chars("/a?b=1"));
    assert_eq!(domain_of_url("d.org/x/y"), "d.org");
    assert_eq!(path_of_url("d.org/x/y"), chars("/x/y"));
    assert_eq!(domain_of_url(""), "");
    assert_eq!(path_of_url(""), chars("/"));
}

#[test]
fn robots_address_is_domain_plus_robots_txt() {
    assert_eq!(robots_url_of("https://d/private/x"), "https://d/robots.txt");
    assert_eq!(robots_url_of("https://d"), "https://d/robots.txt");
}

#[test]
fn find_char_gives_first_index_or_length() {
    let v = chars("a/b/c");
    assert_eq!(find_char(&v, '/', 0), 1);
    assert_eq!(find_char(&v, '/', 2), 3);
    assert_eq!(find_char(&v, '/', 4), 5);
    assert_eq!(find_char(&v, '#', 0), 5);
    assert_eq!(find_path_start(&chars("s://h/p")), 5);
    assert_eq!(find_path_start(&chars("s://h")), 5);
    assert_eq!(find_path_start(&chars("s:/h")), 2);
    assert_eq!(find_path_start(&chars("/")), 0);
    assert_eq!(find_path_start(&chars(":/")), 1);
    assert_eq!(find_path_start(&chars("://")), 3);
}

#[test]
fn text_round_trips_through_chars() {
    let v = to_chars("héllo");
    assert_eq!(v, chars("héllo"));
    assert_eq!(from_chars(&v), "héllo");
    assert_eq!(string_of(&v, 1, 3), "él");
    assert_eq!(slice_chars(&v, 2, 5), chars("llo"));
    assert_eq!(string_of(&v, 2, 2), "");
}

#[test]
fn trimming_removes_unicode_spaces() {
    let v = chars(" \t\u{a0}x y\u{3000}\r\n");
    assert_eq!(trim_bounds(&v, 0, v.len()), (3, 6));
    let blank = chars(" \t ");
    let (a, b) = trim_bounds(&blank, 0, blank.len());
    assert_eq!(a, b);
    let w = chars("ab cd");
    assert_eq!(trim_bounds(&w, 2, 5), (3, 5));
    for c in ['\u{9}', '\u{a}', '\u{b}', '\u{c}', '\u{d}', ' ', '\u{85}', '\u{a0}', '\u{1680}', '\u{2000}', '\u{200a}', '\u{2028}', '\u{2029}', '\u{202f}', '\u{205f}', '\u{3000}'] {
        assert!(is_space_char(c));
        assert!(c.is_whitespace());
    }
    for c in ['a', '\u{8}', '\u{e}', '\u{200b}', '\u{feff}', '0'] {
        assert!(!is_space_char(c));
        assert!(!c.is_whitespace());
    }
}

#[test]
fn lowering_touches_ascii_capitals_only() {
    assert_eq!(lower_char('A'), 'a');
    assert_eq!(lower_char('Z'), 'z');
    assert_eq!(lower_char('m'), 'm');
    assert_eq!(lower_char('@'), '@');
    assert_eq!(lower_char('['), '[');
    assert_eq!(lower_char('É'), 'É');
    let line = chars("xxUSER-Agent: *");
    assert!(starts_with_lowered_at(&line, 2, line.len(), &chars("user-agent:")));
    assert!(!starts_with_lowered_at(&line, 0, line.len(), &chars("user-agent:")));
    assert!(!starts_with_lowered_at(&line, 2, 6, &chars("user-agent:")));
    assert!(starts_with_lowered_at(&line, 2, 2, &chars("")));
}

#[test]
fn prefix_and_equality_compare_characters() {
    assert!(has_prefix(&chars("https://ex.com/a"), &chars("https://ex.com/")));
    assert!(!has_prefix(&chars("https://other.com/c"), &chars("https://ex.com/")));
    assert!(has_prefix(&chars("abc"), &chars("")));
    assert!(has_prefix(&chars("abc"), &chars("abc")));
    assert!(!has_prefix(&chars("ab"), &chars("abc")));
    assert!(same_text("abc", "abc"));
    assert!(!same_text("abc", "abd"));
    assert!(!same_text("abc", "ab"));
    assert!(same_text("", ""));
}

#[test]
fn links_are_resolved_against_the_document() {
    let base = "https://ex.com/dir/page.html?q=1#top";
    assert_eq!(resolve_url(base, "https://other.com/c"), "https://other.com/c");
    assert_eq!(resolve_url(base, "mailto:me@ex.com"), "mailto:me@ex.com");
    assert_eq!(resolve_url(base, "//cdn.ex.com/x"), "https://cdn.ex.com/x");
    assert_eq!(resolve_url(base, "/root"), "https://ex.com/root");
    assert_eq!(resolve_url(base, "next.html"), "https://ex.com/dir/next.html");
    assert_eq!(resolve_url(base, "sub/next.html?a=b"), "https://ex.com/dir/sub/next.html?a=b");
    assert_eq!(resolve_url(base, "?page=2"), "https://ex.com/dir/page.html?page=2");
    assert_eq!(resolve_url(base, "#frag"), "https://ex.com/dir/page.html?q=1#frag");
    assert_eq!(resolve_url(base, ""), "https://ex.com/dir/page.html?q=1");
    assert_eq!(resolve_url(base, "../up"), "https://ex.com/up");
    assert_eq!(resolve_url("https://ex.com", "a"), "https://ex.com/a");
    assert_eq!(resolve_url("https://ex.com", "/a"), "https://ex.com/a");
    assert_eq!(resolve_url("https://ex.com/", "a"), "https://ex.com/a");
    assert_eq!(resolve_url("https://ex.com/x/y", "a"), "https://ex.com/x/a");
    assert_eq!(resolve_url("https://ex.com/x/y?z=/w", "a"), "https://ex.com/x/a");
    assert_eq!(resolve_url("no-scheme/here", "//h/p"), "//h/p");
    assert_eq!(resolve_url(base, "1abc:x"), "https://ex.com/dir/1abc:x");
    assert_eq!(resolve_url(base, "a/b:c"), "https://ex.com/dir/a/b:c");
    assert_eq!(
        resolve_urls(base, &vec!["a".to_string(), "/b".to_string(), "x:y".to_string()]),
        vec!["https://ex.com/dir/a".to_string(), "https://ex.com/b".to_string(), "x:y".to_string()]
    );
    assert_eq!(resolve_urls(base, &Vec::new()), Vec::<String>::new());
}

#[test]
fn a_scheme_is_a_letter_then_scheme_characters_then_a_colon() {
    assert_eq!(scheme_len(&chars("https://ex.com")), 6);
    assert_eq!(scheme_len(&chars("a:")), 2);
    assert_eq!(scheme_len(&chars("a+b-c.d1:x")), 9);
    assert_eq!(scheme_len(&chars("1a:x")), 0);
    assert_eq!(scheme_len(&chars(":x")), 0);
    assert_eq!(scheme_len(&chars("abc")), 0);
    assert_eq!(scheme_len(&chars("a/b:c")), 0);
    assert_eq!(scheme_len(&chars("")), 0);
    assert_eq!(find_after_last(&chars("a/b/c"), '/', 5), 4);
    assert_eq!(find_after_last(&chars("a/b/c"), '/', 3), 2);
    assert_eq!(find_after_last(&chars("abc"), '/', 3), 0);
}

#[test]
fn a_url_is_in_the_domain_by_host_and_path() {
    assert!(is_in_domain(&chars("https://ex.com/a"), &chars("https://ex.com")));
    assert!(is_in_domain(&chars("https://ex.com"), &chars("https://ex.com/")));
    assert!(is_in_domain(&chars("https://ex.com/docs/a"), &chars("https://ex.com/docs")));
    assert!(!is_in_domain(&chars("https://ex.com/a"), &chars("https://ex.com/docs")));
    assert!(!is_in_domain(&chars("https://ex.com.evil.org/x"), &chars("https://ex.com")));
    assert!(!is_in_domain(&chars("https://ex.co/"), &chars("https://ex.com")));
    assert!(!is_in_domain(&chars("http://ex.com/"), &chars("https://ex.com")));
    assert!(!is_in_domain(&chars(""), &chars("https://ex.com")));
}

#[test]
fn dot_segments_are_worked_off() {
    let base = "http://a/b/c/d;p?q";
    let cases = [
        ("g", "http://a/b/c/g"),
        ("./g", "http://a/b/c/g"),
        ("g/", "http://a/b/c/g/"),
        ("/g", "http://a/g"),
        ("//g", "http://g"),
        ("?y", "http://a/b/c/d;p?y"),
        ("g?y", "http://a/b/c/g?y"),
        ("#s", "http://a/b/c/d;p?q#s"),
        ("g#s", "http://a/b/c/g#s"),
        ("g?y#s", "http://a/b/c/g?y#s"),
        (";x", "http://a/b/c/;x"),
        ("g;x", "http://a/b/c/g;x"),
        ("", "http://a/b/c/d;p?q"),
        (".", "http://a/b/c/"),
        ("./", "http://a/b/c/"),
        ("..", "http://a/b/"),
        ("../", "http://a/b/"),
        ("../g", "http://a/b/g"),
        ("../..", "http://a/"),
        ("../../", "http://a/"),
        ("../../g", "http://a/g"),
        ("../../../g", "http://a/g"),
        ("../../../../g", "http://a/g"),
        ("/./g", "http://a/g"),
        ("/../g", "http://a/g"),
        ("g.", "http://a/b/c/g."),
        (".g", "http://a/b/c/.g"),
        ("g..", "http://a/b/c/g.."),
        ("..g", "http://a/b/c/..g"),
        ("./../g", "http://a/b/g"),
        ("./g/.", "http://a/b/c/g/"),
        ("g/./h", "http://a/b/c/g/h"),
        ("g/../h", "http://a/b/c/h"),
        ("g;x=1/./y", "http://a/b/c/g;x=1/y"),
        ("g;x=1/../y", "http://a/b/c/y"),
        ("g?y/./x", "http://a/b/c/g?y/./x"),
        ("g?y/../x", "http://a/b/c/g?y/../x"),
        ("g#s/./x", "http://a/b/c/g#s/./x"),
        ("g#s/../x", "http://a/b/c/g#s/../x"),
        ("http:g", "http:g"),
        ("a//b/../c", "http://a/b/c/a//c"),
    ];
    for (link, want) in cases {
        assert_eq!(resolve_url(base, link), want, "{}", link);
    }
    assert_eq!(tidy_chars(&chars("https://h/a/./b/../c?x=/../y#/./z")), chars("https://h/a/c?x=/../y#/./z"));
    assert_eq!(tidy_chars(&chars("https://h")), chars("https://h"));
    assert_eq!(tidy_chars(&chars("https://h/..")), chars("https://h/"));
    let segs = split_chars(&chars("/a/b/../c"), '/');
    assert_eq!(segs, vec![chars(""), chars("a"), chars("b"), chars(".."), chars("c")]);
    assert_eq!(clean_parts(&segs), vec![chars(""), chars("a"), chars("c")]);
    assert_eq!(join_parts(&clean_parts(&segs), '/'), chars("/a/c"));
    assert_eq!(join_parts(&Vec::new(), '/'), chars(""));
    assert_eq!(join_parts(&vec![chars("x")], '/'), chars("x"));
    assert_eq!(join_parts(&vec![chars(""), chars("")], '/'), chars("/"));
}
