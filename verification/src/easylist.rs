//! Rules from a filter list in the EasyList format. Only the plain domain
//! rules are taken; every other kind of line is passed over.

use vstd::prelude::*;
use vstd::string::StringSliceAdditionalSpecFns;
use vstd::utf8::valid_utf8;
use crate::content_policy::{spec_rules, ReasonCode, Rule, RuleAction, RuleSet, RuleView};
use crate::frame::copy_range;
use crate::guard::{contains_token, spec_contains};
use crate::text::{
    lemma_ascii_is_utf8, lemma_lines_valid, lines, spec_byte_strings, spec_lines,
    spec_starts_with, spec_trim_bytes, starts_with, str_trim, string_from_utf8, string_of_utf8,
};

verus! {

/// The most rules taken from one list.
pub const EASYLIST_MAX_RULES: usize = 50000;

/// The longest line that is looked at.
pub const EASYLIST_MAX_LINE_LEN: usize = 1024;

/// Whether a byte may stand in a domain name: a letter, a digit, a hyphen or
/// a dot.
pub open spec fn spec_is_domain_byte(b: u8) -> bool {
    (48 <= b <= 57) || (65 <= b <= 90) || (97 <= b <= 122) || b == 45 || b == 46
}

/// Whether `d` is a plain domain name: not empty, made of domain bytes, no
/// dot at either end and no two dots in a row.
pub open spec fn spec_is_simple_domain(d: Seq<u8>) -> bool {
    &&& d.len() > 0
    &&& d[0] != 46u8
    &&& d.last() != 46u8
    &&& forall|i: int| 0 <= i < d.len() ==> spec_is_domain_byte(#[trigger] d[i])
    &&& forall|i: int| 0 <= i < d.len() - 1 ==> !(#[trigger] d[i] == 46u8 && d[i + 1] == 46u8)
}

/// The length of the longest piece at the front of `t` that is made of
/// domain bytes.
pub open spec fn spec_domain_prefix_len(t: Seq<u8>) -> int
    decreases t.len(),
{
    if t.len() == 0 || !spec_is_domain_byte(t[0]) {
        0
    } else {
        1 + spec_domain_prefix_len(t.skip(1))
    }
}

/// A target split into its domain and what follows: the domain is the
/// longest piece at the front made of domain bytes; it must be a plain
/// domain name, and no colon may follow it.
pub open spec fn spec_split_domain_target(target: Seq<u8>) -> Option<(Seq<u8>, Seq<u8>)> {
    let end = spec_domain_prefix_len(target);
    if end == 0 || !spec_is_simple_domain(target.take(end)) || (end < target.len() && target[end]
        == 58u8) {
        None
    } else {
        Some((target.take(end), target.skip(end)))
    }
}

/// The bytes of `@@`.
pub open spec fn spec_allow_marker() -> Seq<u8> {
    seq![64u8, 64u8]
}

/// The bytes of `||`.
pub open spec fn spec_suffix_marker() -> Seq<u8> {
    seq![124u8, 124u8]
}

/// The bytes of `|http://`.
pub open spec fn spec_http_marker() -> Seq<u8> {
    seq![124u8, 104u8, 116u8, 116u8, 112u8, 58u8, 47u8, 47u8]
}

/// The bytes of `|https://`.
pub open spec fn spec_https_marker() -> Seq<u8> {
    seq![124u8, 104u8, 116u8, 116u8, 112u8, 115u8, 58u8, 47u8, 47u8]
}

/// The markers of cosmetic and element-hiding rules.
pub open spec fn spec_cosmetic_markers() -> Seq<Seq<u8>> {
    seq![
        seq![35u8, 35u8],
        seq![35u8, 64u8, 35u8],
        seq![35u8, 63u8, 35u8],
        seq![35u8, 64u8, 63u8],
        seq![35u8, 36u8, 35u8],
        seq![35u8, 64u8, 36u8, 35u8],
    ]
}

/// Whether a line is a comment or a header: it begins with `!` or `[`.
pub open spec fn spec_is_comment_or_header(line: Seq<u8>) -> bool {
    line.len() > 0 && (line[0] == 33u8 || line[0] == 91u8)
}

/// Whether a line is a cosmetic or element-hiding rule: one of the markers
/// occurs in it.
pub open spec fn spec_is_cosmetic(line: Seq<u8>) -> bool {
    exists|k: int|
        0 <= k < spec_cosmetic_markers().len() && spec_contains(
            line,
            #[trigger] spec_cosmetic_markers()[k],
        )
}

/// Whether a line is a rule by regular expression: it begins and ends with
/// a slash and is longer than one byte.
pub open spec fn spec_is_regex_rule(line: Seq<u8>) -> bool {
    line.len() > 1 && line[0] == 47u8 && line.last() == 47u8
}

/// Whether a line, already without the white space at its ends, is passed
/// over before it is parsed.
pub open spec fn spec_line_skipped(line: Seq<u8>) -> bool {
    ||| line.len() == 0
    ||| line.len() > EASYLIST_MAX_LINE_LEN
    ||| spec_is_comment_or_header(line)
    ||| spec_is_cosmetic(line)
    ||| spec_contains(line, seq![36u8])
    ||| spec_is_regex_rule(line)
}

/// The domain of a suffix rule: behind `||`, a domain with nothing or only
/// `^` after it.
pub open spec fn spec_parse_domain_suffix(body: Seq<u8>) -> Option<Seq<u8>> {
    if spec_starts_with(body, spec_suffix_marker()) {
        match spec_split_domain_target(body.skip(2)) {
            Some((domain, rest)) => {
                if rest.len() == 0 || rest == seq![94u8] {
                    Some(domain)
                } else {
                    None
                }
            },
            None => None,
        }
    } else {
        None
    }
}

/// The domain of a URL: a domain with nothing, only `^` or only `/` after
/// it.
pub open spec fn spec_parse_exact_from_url(url: Seq<u8>) -> Option<Seq<u8>> {
    match spec_split_domain_target(url) {
        Some((domain, rest)) => {
            if rest.len() == 0 || rest == seq![94u8] || rest == seq![47u8] {
                Some(domain)
            } else {
                None
            }
        },
        None => None,
    }
}

/// The domain of an exact rule: the domain of the URL behind `|http://` or
/// `|https://`, or the body itself if it is a plain domain name.
pub open spec fn spec_parse_domain_exact(body: Seq<u8>) -> Option<Seq<u8>> {
    if spec_starts_with(body, spec_http_marker()) {
        spec_parse_exact_from_url(body.skip(8))
    } else if spec_starts_with(body, spec_https_marker()) {
        spec_parse_exact_from_url(body.skip(9))
    } else if spec_is_simple_domain(body) {
        Some(body)
    } else {
        None
    }
}

/// The rule of a line: `@@` in front makes it an allow rule, anything else a
/// rule that blocks as advertising; the body is a suffix rule if it parses
/// as one, else an exact rule if it parses as one.
pub open spec fn spec_parse_domain_rule(line: Seq<u8>) -> Option<RuleView> {
    let allow = spec_starts_with(line, spec_allow_marker());
    let action = if allow {
        RuleAction::Allow
    } else {
        RuleAction::Block(ReasonCode::Ads)
    };
    let body = if allow {
        line.skip(2)
    } else {
        line
    };
    match spec_parse_domain_suffix(body) {
        Some(suffix) => Some(RuleView::DomainSuffix { suffix, action }),
        None => match spec_parse_domain_exact(body) {
            Some(domain) => Some(RuleView::DomainExact { domain, action }),
            None => None,
        },
    }
}

/// The rule that a raw line of the list gives, if any: the line is looked
/// at without the white space at its ends.
pub open spec fn spec_rule_of_line(raw: Seq<u8>) -> Option<RuleView> {
    let line = spec_trim_bytes(raw);
    if spec_line_skipped(line) {
        None
    } else {
        spec_parse_domain_rule(line)
    }
}

/// The rules of the lines from index `from` on, given that `have` rules
/// were taken before: the rules of the lines in order, until the list is
/// full.
pub open spec fn spec_rules_from(all: Seq<Seq<u8>>, from: int, have: int) -> Seq<RuleView>
    decreases all.len() - from,
{
    if from < 0 || from >= all.len() || have >= EASYLIST_MAX_RULES {
        Seq::<RuleView>::empty()
    } else {
        match spec_rule_of_line(all[from]) {
            Some(rule) => seq![rule] + spec_rules_from(all, from + 1, have + 1),
            None => spec_rules_from(all, from + 1, have),
        }
    }
}

/// Whether a byte may stand in a domain name.
pub fn is_domain_char(b: u8) -> (r: bool)
    ensures
        r == spec_is_domain_byte(b),
{
    (48 <= b && b <= 57) || (65 <= b && b <= 90) || (97 <= b && b <= 122) || b == 45 || b == 46
}

/// Whether `domain` is a plain domain name.
pub fn is_simple_domain(domain: &[u8]) -> (r: bool)
    ensures
        r == spec_is_simple_domain(domain@),
{
    let n: usize = domain.len();
    if n == 0 {
        return false;
    }
    if domain[0] == 46 || domain[n - 1] == 46 {
        return false;
    }
    let mut prev_dot = false;
    let mut i: usize = 0;
    while i < n
        invariant
            0 <= i <= n,
            n == domain@.len(),
            forall|j: int| 0 <= j < i ==> spec_is_domain_byte(#[trigger] domain@[j]),
            forall|j: int| 0 <= j < i - 1 ==> !(#[trigger] domain@[j] == 46u8 && domain@[j + 1]
                == 46u8),
            prev_dot == (i > 0 && domain@[i - 1] == 46u8),
        decreases n - i,
    {
        if !is_domain_char(domain[i]) {
            return false;
        }
        if domain[i] == 46 {
            if prev_dot {
                proof {
                    assert(domain@[i - 1] == 46u8 && domain@[i - 1 + 1] == 46u8);
                }
                return false;
            }
            prev_dot = true;
        } else {
            prev_dot = false;
        }
        i += 1;
    }
    true
}

/// The length of the longest piece at the front of `t[from..]` that is made
/// of domain bytes.
fn domain_prefix_len(t: &[u8], from: usize) -> (end: usize)
    requires
        from <= t@.len(),
    ensures
        end == spec_domain_prefix_len(t@.skip(from as int)),
        from + end <= t@.len(),
    decreases t@.len() - from,
{
    if from >= t.len() || !is_domain_char(t[from]) {
        0
    } else {
        proof {
            assert(t@.skip(from as int).skip(1) =~= t@.skip(from + 1));
        }
        1 + domain_prefix_len(t, from + 1)
    }
}

/// Splits the target `t[from..]` into its domain and what follows, and
/// returns the length of the domain.
fn split_domain_target(t: &[u8], from: usize) -> (end: Option<usize>)
    requires
        from <= t@.len(),
    ensures
        end is Some <==> spec_split_domain_target(t@.skip(from as int)) is Some,
        end is Some ==> from + end->Some_0 <= t@.len() && spec_split_domain_target(
            t@.skip(from as int),
        ) == Some(
            (
                t@.subrange(from as int, from + end->Some_0),
                t@.skip(from + end->Some_0),
            ),
        ),
{
    let ghost target = t@.skip(from as int);
    let n: usize = t.len();
    let end: usize = domain_prefix_len(t, from);
    if end == 0 {
        return None;
    }
    let domain = copy_range(t, from, from + end);
    proof {
        assert(domain@ =~= target.take(end as int));
        assert(target.skip(end as int) =~= t@.skip(from + end));
    }
    if !is_simple_domain(domain.as_slice()) {
        return None;
    }
    if from + end < t.len() && t[from + end] == 58 {
        return None;
    }
    Some(end)
}

/// Whether what follows a domain, `t[at..]`, is nothing or the one byte
/// `only`.
fn rest_is_empty_or(t: &[u8], at: usize, only: u8) -> (r: bool)
    requires
        at <= t@.len(),
    ensures
        r == (t@.skip(at as int).len() == 0 || t@.skip(at as int) == seq![only]),
{
    if at == t.len() {
        true
    } else if at + 1 == t.len() && t[at] == only {
        assert(t@.skip(at as int) =~= seq![only]);
        true
    } else {
        proof {
            if t@.skip(at as int) == seq![only] {
                assert(t@.skip(at as int).len() == 1);
                assert(t@.skip(at as int)[0] == only);
            }
        }
        false
    }
}

/// The domain of the URL `t[from..]`, as a piece of `t`.
fn parse_exact_from_url(t: &[u8], from: usize) -> (domain: Option<Vec<u8>>)
    requires
        from <= t@.len(),
    ensures
        domain is Some <==> spec_parse_exact_from_url(t@.skip(from as int)) is Some,
        domain is Some ==> Some(domain->Some_0@) == spec_parse_exact_from_url(
            t@.skip(from as int),
        ),
{
    let n: usize = t.len();
    match split_domain_target(t, from) {
        None => None,
        Some(end) => {
            if rest_is_empty_or(t, from + end, 94) || rest_is_empty_or(t, from + end, 47) {
                Some(copy_range(t, from, from + end))
            } else {
                None
            }
        },
    }
}

/// The domain of a suffix rule with the body `t[from..]`.
fn parse_domain_suffix(t: &[u8], from: usize) -> (domain: Option<Vec<u8>>)
    requires
        from <= t@.len(),
    ensures
        domain is Some <==> spec_parse_domain_suffix(t@.skip(from as int)) is Some,
        domain is Some ==> Some(domain->Some_0@) == spec_parse_domain_suffix(
            t@.skip(from as int),
        ),
{
    let ghost body = t@.skip(from as int);
    let n: usize = t.len();
    let marker: Vec<u8> = vec![124u8, 124u8];
    proof {
        assert(marker@ =~= spec_suffix_marker());
    }
    if !starts_with(crate::stream::tail_of(t, from), marker.as_slice()) {
        return None;
    }
    proof {
        assert(body.skip(2) =~= t@.skip(from + 2));
    }
    match split_domain_target(t, from + 2) {
        None => None,
        Some(end) => {
            if rest_is_empty_or(t, from + 2 + end, 94) {
                Some(copy_range(t, from + 2, from + 2 + end))
            } else {
                None
            }
        },
    }
}

/// The domain of an exact rule with the body `t[from..]`.
fn parse_domain_exact(t: &[u8], from: usize) -> (domain: Option<Vec<u8>>)
    requires
        from <= t@.len(),
    ensures
        domain is Some <==> spec_parse_domain_exact(t@.skip(from as int)) is Some,
        domain is Some ==> Some(domain->Some_0@) == spec_parse_domain_exact(
            t@.skip(from as int),
        ),
{
    let ghost body = t@.skip(from as int);
    let n: usize = t.len();
    let body_slice = crate::stream::tail_of(t, from);
    let http: Vec<u8> = vec![124u8, 104u8, 116u8, 116u8, 112u8, 58u8, 47u8, 47u8];
    let https: Vec<u8> = vec![124u8, 104u8, 116u8, 116u8, 112u8, 115u8, 58u8, 47u8, 47u8];
    proof {
        assert(http@ =~= spec_http_marker());
        assert(https@ =~= spec_https_marker());
    }
    if starts_with(body_slice, http.as_slice()) {
        proof {
            assert(body.skip(8) =~= t@.skip(from + 8));
        }
        return parse_exact_from_url(t, from + 8);
    }
    if starts_with(body_slice, https.as_slice()) {
        proof {
            assert(body.skip(9) =~= t@.skip(from + 9));
        }
        return parse_exact_from_url(t, from + 9);
    }
    if is_simple_domain(body_slice) {
        let domain = copy_range(t, from, t.len());
        proof {
            assert(domain@ =~= body);
        }
        return Some(domain);
    }
    None
}

/// A plain domain name is valid UTF-8.
pub proof fn lemma_simple_domain_is_text(d: Seq<u8>)
    requires
        spec_is_simple_domain(d),
    ensures
        valid_utf8(d),
{
    assert forall|i: int| 0 <= i < d.len() implies #[trigger] d[i] < 128 by {
        assert(spec_is_domain_byte(d[i]));
    }
    lemma_ascii_is_utf8(d);
}

/// The domain of a split target is a plain domain name.
pub proof fn lemma_split_gives_simple_domain(target: Seq<u8>)
    ensures
        spec_split_domain_target(target) is Some ==> spec_is_simple_domain(
            spec_split_domain_target(target)->Some_0.0,
        ),
{
}

/// The rule of a line that was not passed over.
pub fn parse_domain_rule(line: &[u8]) -> (rule: Option<Rule>)
    ensures
        rule is Some <==> spec_parse_domain_rule(line@) is Some,
        rule is Some ==> rule->Some_0@ == spec_parse_domain_rule(line@)->Some_0,
{
    broadcast use vstd::utf8::decode_utf8_encode_utf8;

    let n: usize = line.len();
    let marker: Vec<u8> = vec![64u8, 64u8];
    proof {
        assert(marker@ =~= spec_allow_marker());
        assert(line@.skip(0) =~= line@);
    }
    let allow = starts_with(line, marker.as_slice());
    let action = if allow {
        RuleAction::Allow
    } else {
        RuleAction::Block(ReasonCode::Ads)
    };
    let from: usize = if allow {
        2
    } else {
        0
    };
    let ghost body = line@.skip(from as int);
    match parse_domain_suffix(line, from) {
        Some(bytes) => {
            proof {
                lemma_split_gives_simple_domain(body.skip(2));
                lemma_simple_domain_is_text(bytes@);
            }
            match string_from_utf8(bytes) {
                Some(suffix) => Some(Rule::DomainSuffix { suffix, action }),
                None => None,
            }
        },
        None => {
            match parse_domain_exact(line, from) {
                Some(bytes) => {
                    proof {
                        lemma_split_gives_simple_domain(body.skip(8));
                        lemma_split_gives_simple_domain(body.skip(9));
                        lemma_simple_domain_is_text(bytes@);
                    }
                    match string_from_utf8(bytes) {
                        Some(domain) => Some(Rule::DomainExact { domain, action }),
                        None => None,
                    }
                },
                None => None,
            }
        },
    }
}

/// Whether a line is a cosmetic or element-hiding rule.
pub fn is_cosmetic_or_element_hiding(line: &[u8]) -> (r: bool)
    ensures
        r == spec_is_cosmetic(line@),
{
    let markers: Vec<Vec<u8>> = vec![
        vec![35u8, 35u8],
        vec![35u8, 64u8, 35u8],
        vec![35u8, 63u8, 35u8],
        vec![35u8, 64u8, 63u8],
        vec![35u8, 36u8, 35u8],
        vec![35u8, 64u8, 36u8, 35u8],
    ];
    proof {
        assert forall|k: int| 0 <= k < 6 implies (#[trigger] markers@[k])@
            == spec_cosmetic_markers()[k] by {
            assert(markers@[k]@ =~= spec_cosmetic_markers()[k]);
        }
    }
    let mut k: usize = 0;
    while k < markers.len()
        invariant
            0 <= k <= markers@.len(),
            markers@.len() == 6,
            spec_cosmetic_markers().len() == 6,
            forall|j: int| 0 <= j < 6 ==> (#[trigger] markers@[j])@ == spec_cosmetic_markers()[j],
            forall|j: int|
                0 <= j < k ==> !spec_contains(line@, #[trigger] spec_cosmetic_markers()[j]),
        decreases markers@.len() - k,
    {
        if contains_token(line, markers[k].as_slice()) {
            proof {
                assert(spec_contains(line@, spec_cosmetic_markers()[k as int]));
            }
            return true;
        }
        k += 1;
    }
    false
}

/// Whether a line, already without the white space at its ends, is passed
/// over before it is parsed.
pub fn line_skipped(line: &[u8]) -> (r: bool)
    ensures
        r == spec_line_skipped(line@),
{
    let n: usize = line.len();
    if n == 0 {
        return true;
    }
    if n > EASYLIST_MAX_LINE_LEN {
        return true;
    }
    if line[0] == 33 || line[0] == 91 {
        return true;
    }
    if is_cosmetic_or_element_hiding(line) {
        return true;
    }
    let dollar: Vec<u8> = vec![36u8];
    proof {
        assert(dollar@ =~= seq![36u8]);
    }
    if contains_token(line, dollar.as_slice()) {
        return true;
    }
    if n > 1 && line[0] == 47 && line[n - 1] == 47 {
        return true;
    }
    false
}

/// The rule that a raw line of the list gives, if any.
pub fn rule_of_line(raw: &str) -> (rule: Option<Rule>)
    ensures
        rule is Some <==> spec_rule_of_line(raw.spec_bytes()) is Some,
        rule is Some ==> spec_rule_of_line(raw.spec_bytes()) == Some(rule->Some_0@),
{
    broadcast use vstd::utf8::encode_utf8_decode_utf8;

    let trimmed = str_trim(raw);
    let line = trimmed.as_str().as_bytes();
    if line_skipped(line) {
        return None;
    }
    parse_domain_rule(line)
}

/// The rules of a filter list: the plain domain rules among its lines, in
/// order, `EASYLIST_MAX_RULES` at most.
pub fn ruleset_from_easylist(text: &str) -> (set: RuleSet)
    ensures
        set@ == spec_rules_from(spec_lines(text.spec_bytes()), 0, 0),
{
    broadcast use vstd::utf8::encode_utf8_valid_utf8;

    let all = lines(text.as_bytes());
    let ghost all_lines = spec_lines(text.spec_bytes());
    let mut rules: Vec<Rule> = Vec::new();
    let mut i: usize = 0;
    proof {
        lemma_lines_valid(text.spec_bytes());
        assert(spec_rules(rules@) + spec_rules_from(all_lines, 0, 0) =~= spec_rules_from(
            all_lines,
            0,
            0,
        ));
    }
    while i < all.len()
        invariant
            0 <= i <= all@.len(),
            spec_byte_strings(all@) == all_lines,
            forall|k: int| 0 <= k < all_lines.len() ==> valid_utf8(#[trigger] all_lines[k]),
            rules@.len() <= EASYLIST_MAX_RULES,
            spec_rules_from(all_lines, 0, 0) == spec_rules(rules@) + spec_rules_from(
                all_lines,
                i as int,
                rules@.len() as int,
            ),
        ensures
            spec_rules_from(all_lines, 0, 0) == spec_rules(rules@),
        decreases all@.len() - i,
    {
        if rules.len() >= EASYLIST_MAX_RULES {
            proof {
                assert(spec_rules(rules@) + Seq::<RuleView>::empty() =~= spec_rules(rules@));
            }
            break ;
        }
        proof {
            assert(all_lines[i as int] == all@[i as int]@);
        }
        let ghost before = rules@;
        let piece = copy_range(all[i].as_slice(), 0, all[i].len());
        proof {
            assert(piece@ =~= all@[i as int]@);
        }
        let raw = string_of_utf8(piece);
        match rule_of_line(raw.as_str()) {
            Some(rule) => {
                rules.push(rule);
                proof {
                    assert(spec_rules(rules@) =~= spec_rules(before).push(rule@));
                    assert(spec_rules(before) + (seq![rule@] + spec_rules_from(
                        all_lines,
                        i + 1,
                        before.len() as int + 1,
                    )) =~= spec_rules(rules@) + spec_rules_from(
                        all_lines,
                        i + 1,
                        rules@.len() as int,
                    ));
                }
            },
            None => {},
        }
        i += 1;
    }
    proof {
        if i >= all@.len() {
            assert(spec_rules(rules@) + Seq::<RuleView>::empty() =~= spec_rules(rules@));
        }
    }
    RuleSet::new(rules)
}

} // verus!
