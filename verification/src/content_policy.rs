//! The content policy of the proxy edge: an ordered list of rules over the
//! metadata of a request, of which the first that matches decides.

use vstd::prelude::*;
use vstd::string::StringSliceAdditionalSpecFns;
use vstd::utf8::encode_utf8;
use crate::text::{bytes_eq, ends_with, spec_ends_with, spec_starts_with, starts_with};

verus! {

/// Why a request was blocked.
#[derive(Debug, Clone, Copy, PartialEq, Eq, Structural)]
pub enum ReasonCode {
    Ads,
    Tracking,
    Custom,
    Unknown,
}

/// What the policy says of a request.
#[derive(Debug, Clone, Copy, PartialEq, Eq, Structural)]
pub enum Decision {
    Allow,
    Block { reason: ReasonCode },
}

/// What a rule says of the requests it matches.
#[derive(Debug, Clone, Copy, PartialEq, Eq, Structural)]
pub enum RuleAction {
    Allow,
    Block(ReasonCode),
}

/// A rule of the policy.
#[derive(Debug, Clone, PartialEq, Eq)]
pub enum Rule {
    DomainExact { domain: String, action: RuleAction },
    DomainSuffix { suffix: String, action: RuleAction },
    UrlPrefix { prefix: String, action: RuleAction },
    HeaderEquals { name: String, value: String, action: RuleAction },
}

/// A rule as a mathematical value: each text by its UTF-8 bytes.
pub enum RuleView {
    DomainExact { domain: Seq<u8>, action: RuleAction },
    DomainSuffix { suffix: Seq<u8>, action: RuleAction },
    UrlPrefix { prefix: Seq<u8>, action: RuleAction },
    HeaderEquals { name: Seq<u8>, value: Seq<u8>, action: RuleAction },
}

impl View for Rule {
    type V = RuleView;

    open spec fn view(&self) -> RuleView {
        match *self {
            Rule::DomainExact { domain, action } => RuleView::DomainExact {
                domain: encode_utf8(domain@),
                action,
            },
            Rule::DomainSuffix { suffix, action } => RuleView::DomainSuffix {
                suffix: encode_utf8(suffix@),
                action,
            },
            Rule::UrlPrefix { prefix, action } => RuleView::UrlPrefix {
                prefix: encode_utf8(prefix@),
                action,
            },
            Rule::HeaderEquals { name, value, action } => RuleView::HeaderEquals {
                name: encode_utf8(name@),
                value: encode_utf8(value@),
                action,
            },
        }
    }
}

/// The metadata of a request. The headers are a list of names with their
/// values; of two headers with the same name the later one counts.
#[derive(Debug, Clone, PartialEq, Eq)]
pub struct RequestMetadata {
    pub method: String,
    pub full_url: String,
    pub host: String,
    pub port: u16,
    headers: Vec<(String, String)>,
}

/// The metadata of a request as a mathematical value: each text by its UTF-8
/// bytes.
pub struct RequestView {
    pub method: Seq<u8>,
    pub full_url: Seq<u8>,
    pub host: Seq<u8>,
    pub port: u16,
    pub headers: Seq<(Seq<u8>, Seq<u8>)>,
}

/// The headers of a list, each name and value by its UTF-8 bytes.
pub open spec fn spec_headers(headers: Seq<(String, String)>) -> Seq<(Seq<u8>, Seq<u8>)> {
    Seq::new(
        headers.len(),
        |i: int| (encode_utf8(headers[i].0@), encode_utf8(headers[i].1@)),
    )
}

impl View for RequestMetadata {
    type V = RequestView;

    closed spec fn view(&self) -> RequestView {
        RequestView {
            method: encode_utf8(self.method@),
            full_url: encode_utf8(self.full_url@),
            host: encode_utf8(self.host@),
            port: self.port,
            headers: spec_headers(self.headers@),
        }
    }
}

/// The value of the header `name`: that of the last header of the list with
/// that name, if there is one.
pub open spec fn spec_header_value(headers: Seq<(Seq<u8>, Seq<u8>)>, name: Seq<u8>) -> Option<
    Seq<u8>,
>
    decreases headers.len(),
{
    if headers.len() == 0 {
        None
    } else if headers.last().0 == name {
        Some(headers.last().1)
    } else {
        spec_header_value(headers.drop_last(), name)
    }
}

/// Whether `host` is `suffix` or a subdomain of it: it ends with `suffix`,
/// and what stands in front of the suffix ends with a dot.
pub open spec fn spec_host_matches_suffix(host: Seq<u8>, suffix: Seq<u8>) -> bool {
    host == suffix || (host.len() > suffix.len() && spec_ends_with(host, suffix) && host[host.len()
        - suffix.len() - 1] == 46u8)
}

/// The action of a rule.
pub open spec fn spec_rule_action(rule: RuleView) -> RuleAction {
    match rule {
        RuleView::DomainExact { action, .. } => action,
        RuleView::DomainSuffix { action, .. } => action,
        RuleView::UrlPrefix { action, .. } => action,
        RuleView::HeaderEquals { action, .. } => action,
    }
}

/// The decision that an action stands for.
pub open spec fn spec_action_decision(action: RuleAction) -> Decision {
    match action {
        RuleAction::Allow => Decision::Allow,
        RuleAction::Block(reason) => Decision::Block { reason },
    }
}

/// Whether a rule matches a request.
pub open spec fn spec_rule_matches(rule: RuleView, request: RequestView) -> bool {
    match rule {
        RuleView::DomainExact { domain, .. } => request.host == domain,
        RuleView::DomainSuffix { suffix, .. } => spec_host_matches_suffix(request.host, suffix),
        RuleView::UrlPrefix { prefix, .. } => spec_starts_with(request.full_url, prefix),
        RuleView::HeaderEquals { name, value, .. } => spec_header_value(request.headers, name)
            == Some(value),
    }
}

/// The decision of the first rule, from index `from` on, that matches the
/// request; `None` if no rule matches.
pub open spec fn spec_evaluate_from(rules: Seq<RuleView>, request: RequestView, from: int) -> Option<
    Decision,
>
    decreases rules.len() - from,
{
    if from < 0 || from >= rules.len() {
        None
    } else if spec_rule_matches(rules[from], request) {
        Some(spec_action_decision(spec_rule_action(rules[from])))
    } else {
        spec_evaluate_from(rules, request, from + 1)
    }
}

/// The rules of a list, each as a mathematical value.
pub open spec fn spec_rules(rules: Seq<Rule>) -> Seq<RuleView> {
    Seq::new(rules.len(), |i: int| rules[i]@)
}

impl RequestMetadata {
    /// The metadata of a request.
    pub fn new(
        method: String,
        full_url: String,
        host: String,
        port: u16,
        headers: Vec<(String, String)>,
    ) -> (request: RequestMetadata)
        ensures
            request@ == (RequestView {
                method: encode_utf8(method@),
                full_url: encode_utf8(full_url@),
                host: encode_utf8(host@),
                port,
                headers: spec_headers(headers@),
            }),
    {
        RequestMetadata { method, full_url, host, port, headers }
    }

    /// The headers of the request.
    pub fn headers(&self) -> (headers: &Vec<(String, String)>)
        ensures
            spec_headers(headers@) == self@.headers,
    {
        &self.headers
    }

    /// The value of the header `name`, if the request has one.
    pub fn header_value(&self, name: &[u8]) -> (value: Option<&String>)
        ensures
            value is Some <==> spec_header_value(self@.headers, name@) is Some,
            value is Some ==> Some(encode_utf8(value->Some_0@)) == spec_header_value(
                self@.headers,
                name@,
            ),
    {
        let mut i: usize = self.headers.len();
        proof {
            assert(self@.headers.take(i as int) =~= self@.headers);
        }
        while i > 0
            invariant
                0 <= i <= self.headers@.len(),
                spec_header_value(self@.headers, name@) == spec_header_value(
                    self@.headers.take(i as int),
                    name@,
                ),
            decreases i,
        {
            let ghost upto = self@.headers.take(i as int);
            i -= 1;
            proof {
                assert(upto.drop_last() =~= self@.headers.take(i as int));
                assert(upto.last() == self@.headers[i as int]);
            }
            if bytes_eq(self.headers[i].0.as_str().as_bytes(), name) {
                return Some(&self.headers[i].1);
            }
        }
        proof {
            assert(self@.headers.take(0).len() == 0);
        }
        None
    }
}

/// Whether `host` is `suffix` or a subdomain of it.
pub fn host_matches_suffix(host: &str, suffix: &str) -> (r: bool)
    ensures
        r == spec_host_matches_suffix(host.spec_bytes(), suffix.spec_bytes()),
{
    let h = host.as_bytes();
    let s = suffix.as_bytes();
    if bytes_eq(h, s) {
        return true;
    }
    if h.len() <= s.len() {
        return false;
    }
    if !ends_with(h, s) {
        return false;
    }
    h[h.len() - s.len() - 1] == 46
}

/// The action of a rule.
pub fn rule_action(rule: &Rule) -> (action: RuleAction)
    ensures
        action == spec_rule_action(rule@),
{
    match rule {
        Rule::DomainExact { action, .. } => *action,
        Rule::DomainSuffix { action, .. } => *action,
        Rule::UrlPrefix { action, .. } => *action,
        Rule::HeaderEquals { action, .. } => *action,
    }
}

/// The decision that an action stands for.
pub fn rule_action_to_decision(action: RuleAction) -> (decision: Decision)
    ensures
        decision == spec_action_decision(action),
{
    match action {
        RuleAction::Allow => Decision::Allow,
        RuleAction::Block(reason) => Decision::Block { reason },
    }
}

/// Whether a rule matches a request.
pub fn rule_matches(rule: &Rule, request: &RequestMetadata) -> (r: bool)
    ensures
        r == spec_rule_matches(rule@, request@),
{
    match rule {
        Rule::DomainExact { domain, .. } => bytes_eq(
            request.host.as_str().as_bytes(),
            domain.as_str().as_bytes(),
        ),
        Rule::DomainSuffix { suffix, .. } => host_matches_suffix(
            request.host.as_str(),
            suffix.as_str(),
        ),
        Rule::UrlPrefix { prefix, .. } => starts_with(
            request.full_url.as_str().as_bytes(),
            prefix.as_str().as_bytes(),
        ),
        Rule::HeaderEquals { name, value, .. } => {
            match request.header_value(name.as_str().as_bytes()) {
                Some(header_value) => bytes_eq(
                    header_value.as_str().as_bytes(),
                    value.as_str().as_bytes(),
                ),
                None => false,
            }
        },
    }
}

/// An ordered list of rules.
#[derive(Debug, Clone, PartialEq, Eq)]
pub struct RuleSet {
    rules: Vec<Rule>,
}

impl View for RuleSet {
    type V = Seq<RuleView>;

    closed spec fn view(&self) -> Seq<RuleView> {
        spec_rules(self.rules@)
    }
}

impl RuleSet {
    /// The rule set that holds `rules` in their order.
    pub fn new(rules: Vec<Rule>) -> (set: RuleSet)
        ensures
            set@ == spec_rules(rules@),
    {
        RuleSet { rules }
    }

    /// The rule set without rules.
    pub fn empty() -> (set: RuleSet)
        ensures
            set@.len() == 0,
    {
        RuleSet { rules: Vec::new() }
    }

    /// The rules in their order.
    pub fn rules(&self) -> (rules: &[Rule])
        ensures
            spec_rules(rules@) == self@,
    {
        self.rules.as_slice()
    }

    /// The decision of the first rule that matches `request`; `None` if no
    /// rule matches.
    pub fn evaluate(&self, request: &RequestMetadata) -> (decision: Option<Decision>)
        ensures
            decision == spec_evaluate_from(self@, request@, 0),
    {
        let mut i: usize = 0;
        while i < self.rules.len()
            invariant
                0 <= i <= self.rules@.len(),
                spec_evaluate_from(self@, request@, 0) == spec_evaluate_from(
                    self@,
                    request@,
                    i as int,
                ),
            decreases self.rules@.len() - i,
        {
            if rule_matches(&self.rules[i], request) {
                return Some(rule_action_to_decision(rule_action(&self.rules[i])));
            }
            i += 1;
        }
        None
    }
}

/// The content policy engine: a rule set, with `Allow` for every request
/// that no rule matches.
#[derive(Debug, Clone, PartialEq, Eq)]
pub struct ContentPolicyEngine {
    rules: RuleSet,
}

/// The decision of an engine with the rules `rules` on `request`.
pub open spec fn spec_engine_decision(rules: Seq<RuleView>, request: RequestView) -> Decision {
    match spec_evaluate_from(rules, request, 0) {
        Some(decision) => decision,
        None => Decision::Allow,
    }
}

impl View for ContentPolicyEngine {
    type V = Seq<RuleView>;

    closed spec fn view(&self) -> Seq<RuleView> {
        self.rules@
    }
}

impl ContentPolicyEngine {
    /// An engine over `rules`.
    pub fn new(rules: RuleSet) -> (engine: ContentPolicyEngine)
        ensures
            engine@ == rules@,
    {
        ContentPolicyEngine { rules }
    }

    /// The decision on `request`: that of the first rule that matches, and
    /// `Allow` if none does.
    pub fn evaluate(&self, request: &RequestMetadata) -> (decision: Decision)
        ensures
            decision == spec_engine_decision(self@, request@),
    {
        match self.rules.evaluate(request) {
            Some(decision) => decision,
            None => Decision::Allow,
        }
    }
}

/// The first match wins: if a rule matches a request and no rule in front of
/// it does, the engine decides as that rule says, whatever rules follow.
pub proof fn lemma_first_match_wins(rules: Seq<RuleView>, request: RequestView, index: int)
    requires
        0 <= index < rules.len(),
        spec_rule_matches(rules[index], request),
        forall|j: int| 0 <= j < index ==> !spec_rule_matches(rules[j], request),
    ensures
        spec_engine_decision(rules, request) == spec_action_decision(
            spec_rule_action(rules[index]),
        ),
{
    lemma_skip_unmatched(rules, request, 0, index);
}

/// Rules that do not match are passed over.
proof fn lemma_skip_unmatched(rules: Seq<RuleView>, request: RequestView, from: int, index: int)
    requires
        0 <= from <= index < rules.len(),
        forall|j: int| from <= j < index ==> !spec_rule_matches(rules[j], request),
    ensures
        spec_evaluate_from(rules, request, from) == spec_evaluate_from(rules, request, index),
    decreases index - from,
{
    if from < index {
        lemma_skip_unmatched(rules, request, from + 1, index);
    }
}

/// Without a matching rule every request is allowed.
pub proof fn lemma_default_allow(rules: Seq<RuleView>, request: RequestView, from: int)
    requires
        0 <= from,
        forall|j: int| from <= j < rules.len() ==> !spec_rule_matches(rules[j], request),
    ensures
        spec_evaluate_from(rules, request, from) is None,
    decreases rules.len() - from,
{
    if from < rules.len() {
        lemma_default_allow(rules, request, from + 1);
    }
}

impl Default for RuleSet {
    /// The rule set without rules.
    fn default() -> (set: RuleSet)
        ensures
            set@.len() == 0,
    {
        RuleSet::empty()
    }
}

} // verus!
