use anon_pipeline::content_policy::{
    ContentPolicyEngine, Decision, ReasonCode, RequestMetadata, Rule, RuleAction, RuleSet,
};
use anon_pipeline::proxy_policy::{
    build_connect_metadata, parse_headers, policy_allows_connect, PolicyAdapter,
};

fn sample_request() -> RequestMetadata {
    let headers = vec![("User-Agent".to_string(), "EBT-Test".to_string())];
    RequestMetadata::new(
        "GET".to_string(),
        "https://ads.example.com/banner".to_string(),
        "ads.example.com".to_string(),
        443,
        headers,
    )
}

fn make_adapter(rules: Vec<Rule>, enabled: bool) -> PolicyAdapter {
    PolicyAdapter::new(ContentPolicyEngine::new(RuleSet::new(rules)), enabled)
}

#[test]
fn deterministic_same_input_same_output() {
    let rules = RuleSet::new(vec![Rule::DomainSuffix {
        suffix: "example.com".to_string(),
        action: RuleAction::Block(ReasonCode::Ads),
    }]);
    let engine = ContentPolicyEngine::new(rules);
    let request = sample_request();

    let first = engine.evaluate(&request);
    let second = engine.evaluate(&request);
    let third = engine.evaluate(&request);

    assert_eq!(first, second);
    assert_eq!(second, third);
    assert_eq!(first, Decision::Block { reason: ReasonCode::Ads });
}

#[test]
fn rule_ordering_first_match_wins() {
    let rules = RuleSet::new(vec![
        Rule::DomainSuffix {
            suffix: "example.com".to_string(),
            action: RuleAction::Block(ReasonCode::Tracking),
        },
        Rule::DomainExact {
            domain: "ads.example.com".to_string(),
            action: RuleAction::Allow,
        },
    ]);
    let engine = ContentPolicyEngine::new(rules);
    let request = sample_request();

    assert_eq!(
        engine.evaluate(&request),
        Decision::Block {
            reason: ReasonCode::Tracking
        }
    );
}

#[test]
fn deterministic_multiple_evaluations_same_result() {
    let rules = RuleSet::new(vec![Rule::UrlPrefix {
        prefix: "https://ads.example.com/".to_string(),
        action: RuleAction::Block(ReasonCode::Ads),
    }]);
    let engine = ContentPolicyEngine::new(rules);
    let request = sample_request();

    for _ in 0..10 {
        assert_eq!(
            engine.evaluate(&request),
            Decision::Block {
                reason: ReasonCode::Ads
            }
        );
    }
}

#[test]
fn same_request_same_rules_same_result() {
    let headers = vec![("User-Agent".to_string(), "EBT-Test".to_string())];
    let request = RequestMetadata::new(
        "GET".to_string(),
        "https://tracker.example.com/pixel".to_string(),
        "tracker.example.com".to_string(),
        443,
        headers,
    );

    let rules = RuleSet::new(vec![
        Rule::DomainSuffix {
            suffix: "example.com".to_string(),
            action: RuleAction::Block(ReasonCode::Tracking),
        },
        Rule::DomainExact {
            domain: "tracker.example.com".to_string(),
            action: RuleAction::Allow,
        },
    ]);
    let engine = ContentPolicyEngine::new(rules);

    let first = engine.evaluate(&request);
    let second = engine.evaluate(&request);
    let third = engine.evaluate(&request);

    assert_eq!(
        first,
        Decision::Block {
            reason: ReasonCode::Tracking
        }
    );
    assert_eq!(first, second);
    assert_eq!(second, third);
}

#[test]
fn blocked_requests_do_not_reach_connect() {
    let adapter = make_adapter(
        vec![Rule::DomainExact {
            domain: "blocked.example.com".to_string(),
            action: RuleAction::Block(ReasonCode::Custom),
        }],
        true,
    );
    let request = "CONNECT blocked.example.com:443 HTTP/1.1\r\nHost: blocked.example.com\r\n\r\n";

    assert!(!policy_allows_connect(
        &adapter,
        request,
        "blocked.example.com",
        443
    ));
}

#[test]
fn allowed_requests_behave_like_phase6_when_disabled() {
    let adapter = make_adapter(
        vec![Rule::DomainExact {
            domain: "blocked.example.com".to_string(),
            action: RuleAction::Block(ReasonCode::Ads),
        }],
        false,
    );
    let request = "CONNECT blocked.example.com:443 HTTP/1.1\r\nHost: blocked.example.com\r\n\r\n";

    assert!(policy_allows_connect(
        &adapter,
        request,
        "blocked.example.com",
        443
    ));
}

#[test]
fn allowed_rule_proceeds_when_enabled() {
    let adapter = make_adapter(
        vec![Rule::DomainExact {
            domain: "allowed.example.com".to_string(),
            action: RuleAction::Allow,
        }],
        true,
    );
    let request = "CONNECT allowed.example.com:443 HTTP/1.1\r\nHost: allowed.example.com\r\n\r\n";

    assert!(policy_allows_connect(
        &adapter,
        request,
        "allowed.example.com",
        443
    ));
}

#[test]
fn no_matching_rule_allows() {
    let engine = ContentPolicyEngine::new(RuleSet::new(vec![Rule::DomainExact {
        domain: "other.example.org".to_string(),
        action: RuleAction::Block(ReasonCode::Unknown),
    }]));
    assert_eq!(engine.evaluate(&sample_request()), Decision::Allow);
    assert_eq!(RuleSet::new(vec![]).evaluate(&sample_request()), None);
}

#[test]
fn domain_suffix_needs_a_label_boundary() {
    let rules = RuleSet::new(vec![Rule::DomainSuffix {
        suffix: "example.com".to_string(),
        action: RuleAction::Block(ReasonCode::Ads),
    }]);
    let host = |h: &str| {
        RequestMetadata::new("GET".to_string(), "https://x/".to_string(), h.to_string(), 443, vec![])
    };
    assert_eq!(rules.evaluate(&host("example.com")), Some(Decision::Block { reason: ReasonCode::Ads }));
    assert_eq!(rules.evaluate(&host("a.example.com")), Some(Decision::Block { reason: ReasonCode::Ads }));
    assert_eq!(rules.evaluate(&host("badexample.com")), None);
    assert_eq!(rules.evaluate(&host("example.com.evil")), None);
    assert_eq!(rules.evaluate(&host("com")), None);
}

#[test]
fn header_rule_uses_the_last_value_of_a_name() {
    let rules = RuleSet::new(vec![Rule::HeaderEquals {
        name: "x-track".to_string(),
        value: "1".to_string(),
        action: RuleAction::Block(ReasonCode::Tracking),
    }]);
    let with = |headers: Vec<(String, String)>| {
        RequestMetadata::new("GET".to_string(), "u".to_string(), "h".to_string(), 80, headers)
    };
    let pair = |n: &str, v: &str| (n.to_string(), v.to_string());
    assert_eq!(
        rules.evaluate(&with(vec![pair("x-track", "0"), pair("x-track", "1")])),
        Some(Decision::Block { reason: ReasonCode::Tracking })
    );
    assert_eq!(rules.evaluate(&with(vec![pair("x-track", "1"), pair("x-track", "0")])), None);
    assert_eq!(rules.evaluate(&with(vec![])), None);
    let request = with(vec![pair("a", "b")]);
    assert_eq!(request.headers().len(), 1);
    assert_eq!(request.header_value(b"a").map(|v| v.as_str()), Some("b"));
    assert_eq!(request.header_value(b"c"), None);
}

#[test]
fn headers_are_trimmed_and_names_lower_cased() {
    let request = "CONNECT h:1 HTTP/1.1\r\n  User-Agent :  EBT Test  \r\nno colon here\r\nX-A:b:c\r\n\r\nIgnored: yes\r\n";
    let headers = parse_headers(request);
    assert_eq!(
        headers,
        vec![
            ("user-agent".to_string(), "EBT Test".to_string()),
            ("x-a".to_string(), "b:c".to_string()),
        ]
    );
    assert_eq!(parse_headers(""), vec![]);
    assert_eq!(parse_headers("GET / HTTP/1.1"), vec![]);
    assert_eq!(
        parse_headers("GET / HTTP/1.1\nHost: a\n"),
        vec![("host".to_string(), "a".to_string())]
    );
}

#[test]
fn connect_metadata_names_method_and_url() {
    let metadata = build_connect_metadata(
        "CONNECT example.com:8443 HTTP/1.1\r\nHost: example.com\r\n\r\n",
        "example.com",
        8443,
    );
    assert_eq!(metadata.method, "CONNECT");
    assert_eq!(metadata.full_url, "https://example.com:8443");
    assert_eq!(metadata.host, "example.com");
    assert_eq!(metadata.port, 8443);
    assert_eq!(metadata.headers(), &vec![("host".to_string(), "example.com".to_string())]);
}

#[test]
fn policy_adapter_can_be_switched() {
    let mut adapter = make_adapter(
        vec![Rule::UrlPrefix {
            prefix: "https://blocked".to_string(),
            action: RuleAction::Block(ReasonCode::Custom),
        }],
        false,
    );
    let request = "CONNECT blocked.example.com:443 HTTP/1.1\r\n\r\n";
    assert!(!adapter.is_enabled());
    assert!(policy_allows_connect(&adapter, request, "blocked.example.com", 443));
    adapter.set_enabled(true);
    assert!(adapter.is_enabled());
    assert!(!policy_allows_connect(&adapter, request, "blocked.example.com", 443));
    assert!(policy_allows_connect(&adapter, request, "fine.example.com", 443));
}
