use anon_pipeline::content_policy::{ReasonCode, Rule, RuleAction};
use anon_pipeline::easylist::{
    is_cosmetic_or_element_hiding, is_domain_char, is_simple_domain, line_skipped,
    parse_domain_rule, rule_of_line, ruleset_from_easylist, EASYLIST_MAX_RULES,
};
use anon_pipeline::text::{
    bytes_eq, ends_with, fnv1a_64, index_of, lines, matches_at, push_decimal, starts_with,
    string_of_utf8,
};

fn block_suffix(s: &str) -> Rule {
    Rule::DomainSuffix { suffix: s.to_string(), action: RuleAction::Block(ReasonCode::Ads) }
}

fn block_exact(s: &str) -> Rule {
    Rule::DomainExact { domain: s.to_string(), action: RuleAction::Block(ReasonCode::Ads) }
}

#[test]
fn easylist_takes_the_plain_domain_rules() {
    let text = "[Adblock Plus 2.0]\n! a comment\n\n||ads.example.com^\n  ||tracker.example.net  \r\n@@||good.example.org^\n|http://exact.example.com/\n|https://secure.example.com^\nplain.example.com\n@@allowed.example.com\n";
    let set = ruleset_from_easylist(text);
    assert_eq!(
        set.rules().to_vec(),
        vec![
            block_suffix("ads.example.com"),
            block_suffix("tracker.example.net"),
            Rule::DomainSuffix { suffix: "good.example.org".to_string(), action: RuleAction::Allow },
            block_exact("exact.example.com"),
            block_exact("secure.example.com"),
            block_exact("plain.example.com"),
            Rule::DomainExact { domain: "allowed.example.com".to_string(), action: RuleAction::Allow },
        ]
    );
    assert_eq!(ruleset_from_easylist("").rules().len(), 0);
}

#[test]
fn easylist_passes_over_everything_else() {
    for line in [
        "example.com##.banner",
        "example.com#@#.banner",
        "example.com#?#div",
        "a#@?b",
        "a#$#b",
        "a#@$#b",
        "||example.com^$third-party",
        "/banner[0-9]+/",
        "||example.com/path",
        "||example.com:8080",
        "||.example.com^",
        "||example..com^",
        "||example.com.^",
        "||^",
        "|http://example.com/ads",
        "|ftp://example.com/",
        "exa mple.com",
        "example.com^",
        "!comment",
        "[header]",
        "",
        "   ",
        "||ex\u{e4}mple.com^",
    ] {
        assert_eq!(rule_of_line(line), None, "line {:?}", line);
    }
    assert_eq!(rule_of_line("\t a-b.example \t"), Some(block_exact("a-b.example")));
    assert_eq!(rule_of_line("\u{a0}||x.y\u{2003}"), Some(block_suffix("x.y")));
    let long = format!("||{}.com^", "a".repeat(1024));
    assert_eq!(rule_of_line(&long), None);
    let fits = format!("||{}.com", "a".repeat(1018));
    assert_eq!(fits.len(), 1024);
    assert!(rule_of_line(&fits).is_some());
    assert_eq!(parse_domain_rule(b"/"), None);
    assert_eq!(parse_domain_rule(b"@@"), None);
    assert_eq!(parse_domain_rule(b"a"), Some(block_exact("a")));
    assert_eq!(parse_domain_rule(b"-"), Some(block_exact("-")));
}

#[test]
fn easylist_line_classes() {
    assert!(line_skipped(b""));
    assert!(line_skipped(b"!x"));
    assert!(line_skipped(b"[x"));
    assert!(line_skipped(b"a$b"));
    assert!(line_skipped(b"//"));
    assert!(!line_skipped(b"/"));
    assert!(!line_skipped(b"/a"));
    assert!(!line_skipped(b"a#b"));
    assert!(is_cosmetic_or_element_hiding(b"a##b"));
    assert!(!is_cosmetic_or_element_hiding(b"a#b#c"));
    assert!(is_simple_domain(b"a.b-c.d9"));
    assert!(!is_simple_domain(b""));
    assert!(!is_simple_domain(b".a"));
    assert!(!is_simple_domain(b"a."));
    assert!(!is_simple_domain(b"a..b"));
    assert!(!is_simple_domain(b"a_b"));
    assert!(is_domain_char(b'z') && is_domain_char(b'A') && is_domain_char(b'0'));
    assert!(is_domain_char(b'-') && is_domain_char(b'.'));
    assert!(!is_domain_char(b'_') && !is_domain_char(b'/') && !is_domain_char(0xC3));
}

#[test]
fn easylist_stops_at_the_rule_limit() {
    let mut text = String::new();
    for i in 0..(EASYLIST_MAX_RULES + 10) {
        text.push_str(&format!("d{}.example\n", i));
    }
    let set = ruleset_from_easylist(&text);
    assert_eq!(set.rules().len(), 50_000);
    assert_eq!(set.rules()[49_999], block_exact("d49999.example"));
}

#[test]
fn text_helpers() {
    assert_eq!(lines(b"a\nb\r\nc\r"), vec![b"a".to_vec(), b"b".to_vec(), b"c\r".to_vec()]);
    assert_eq!(lines(b"\n\n"), vec![Vec::<u8>::new(), Vec::<u8>::new()]);
    assert_eq!(lines(b""), Vec::<Vec<u8>>::new());
    assert_eq!(lines(b"x"), vec![b"x".to_vec()]);
    assert_eq!(lines(b"\r\n"), vec![Vec::<u8>::new()]);
    assert_eq!(index_of(b"abcabc", 0, b'c'), 2);
    assert_eq!(index_of(b"abcabc", 3, b'c'), 2);
    assert_eq!(index_of(b"abc", 0, b'z'), 3);
    assert_eq!(index_of(b"abc", 3, b'a'), 0);
    assert!(bytes_eq(b"ab", b"ab") && !bytes_eq(b"ab", b"abc") && !bytes_eq(b"ab", b"ac"));
    assert!(starts_with(b"abc", b"ab") && starts_with(b"abc", b"") && !starts_with(b"ab", b"abc"));
    assert!(ends_with(b"abc", b"bc") && ends_with(b"abc", b"") && !ends_with(b"bc", b"abc"));
    assert!(!starts_with(b"abc", b"bc") && !ends_with(b"abc", b"ab"));
    assert!(matches_at(b"abcd", 1, b"bc") && !matches_at(b"abcd", 1, b"bd"));
    let mut out = b"n=".to_vec();
    push_decimal(&mut out, 0);
    push_decimal(&mut out, 65535);
    push_decimal(&mut out, u64::MAX);
    assert_eq!(out, b"n=06553518446744073709551615".to_vec());
    assert_eq!(string_of_utf8("gr\u{fc}n".as_bytes().to_vec()), "gr\u{fc}n");
}

#[test]
fn fnv_hash_has_its_known_values() {
    assert_eq!(fnv1a_64(b""), 0xcbf29ce484222325);
    assert_eq!(fnv1a_64(b"a"), 0xaf63dc4c8601ec8c);
    assert_eq!(fnv1a_64(b"foobar"), 0x85944171f73967e8);
}
