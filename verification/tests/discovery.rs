use ows_wallet::discovery::{
    descriptions_truncate_cleanly, discover_page, discovery_paging, fetch_result, format_usdc, network_is_testnet,
    parse_u128, select_services, truncate, truncate_is_defined, DiscoveredService,
    DiscoveryResponse, FetchResult, Pagination, PaymentRequirements, Protocol, ServiceMetadata,
};

fn entry(resource: &str, network: &str, desc: Option<&str>, amount: &str, meta: Option<&str>) -> DiscoveredService {
    DiscoveredService {
        resource: resource.to_string(),
        accepts: vec![PaymentRequirements {
            network: network.to_string(),
            description: desc.map(|d| d.to_string()),
            amount: amount.to_string(),
        }],
        metadata: Some(ServiceMetadata {
            description: meta.map(|d| d.to_string()),
        }),
    }
}

#[test]
fn usdc_prices() {
    assert_eq!(format_usdc("1500000"), "$1.5");
    assert_eq!(format_usdc("1000000"), "$1.00");
    assert_eq!(format_usdc("10000"), "$0.01");
    assert_eq!(format_usdc("1200000"), "$1.2");
    assert_eq!(format_usdc("123456789"), "$123.456789");
    assert_eq!(format_usdc("0"), "$0.00");
    assert_eq!(format_usdc("+5"), "$0.000005");
}

#[test]
fn usdc_unparseable_amounts_count_as_zero() {
    assert_eq!(format_usdc(""), "$0.00");
    assert_eq!(format_usdc("abc"), "$0.00");
    assert_eq!(format_usdc("-5"), "$0.00");
    assert_eq!(format_usdc("+"), "$0.00");
    assert_eq!(format_usdc("1.5"), "$0.00");
    assert_eq!(format_usdc(" 1"), "$0.00");
}

#[test]
fn usdc_largest_amount_and_overflow() {
    assert_eq!(
        format_usdc("340282366920938463463374607431768211455"),
        "$340282366920938463463374607431768.211455"
    );
    assert_eq!(format_usdc("340282366920938463463374607431768211456"), "$0.00");
}

#[test]
fn parse_u128_matches_std() {
    for s in ["0", "+0", "007", "42", "+", "", "-1", "12a", "340282366920938463463374607431768211455", "340282366920938463463374607431768211456", "٣"] {
        assert_eq!(parse_u128(s), s.parse::<u128>().ok(), "input {:?}", s);
    }
}

#[test]
fn truncate_keeps_short_first_lines() {
    assert_eq!(truncate("abc", 80), "abc");
    assert_eq!(truncate("", 80), "");
    assert_eq!(truncate("line1\nline2", 80), "line1");
    assert_eq!(truncate("a\r\nb", 80), "a");
    assert_eq!(truncate("abc\r", 80), "abc\r");
    assert_eq!(truncate("\nsecond", 80), "");
}

#[test]
fn truncate_cuts_long_lines() {
    let long = "x".repeat(100);
    let t = truncate(&long, 80);
    assert_eq!(t, format!("{}...", "x".repeat(77)));
    assert_eq!(truncate("abcd", 2), "...");
    assert_eq!(truncate(&"y".repeat(80), 80), "y".repeat(80));
    assert_eq!(truncate(&"y".repeat(81), 80), format!("{}...", "y".repeat(77)));
}

#[test]
fn truncate_respects_character_boundaries() {
    let accents = "é".repeat(50); // 100 bytes
    assert!(!truncate_is_defined(&accents, 80)); // cut at byte 77, inside a character
    assert!(truncate_is_defined(&accents, 81));
    assert_eq!(truncate(&accents, 81), format!("{}...", "é".repeat(39)));
    assert!(truncate_is_defined("short", 80));
}

#[test]
fn testnets_are_recognised() {
    assert!(network_is_testnet("base-sepolia"));
    assert!(network_is_testnet("eip155:84532"));
    assert!(network_is_testnet("eip155:11155111"));
    assert!(network_is_testnet("solana-devnet"));
    assert!(network_is_testnet("my-base-sepolia-2"));
    assert!(!network_is_testnet("base"));
    assert!(!network_is_testnet("eip155:8453"));
}

#[test]
fn paging_defaults() {
    assert_eq!(discovery_paging(None, None), (100, 0));
    assert_eq!(discovery_paging(Some(5), Some(10)), (5, 10));
}

#[test]
fn fetch_result_total() {
    let r = fetch_result(DiscoveryResponse { items: vec![], pagination: None });
    assert_eq!(r.total, 0);
    let r = fetch_result(DiscoveryResponse {
        items: vec![entry("https://a", "base", None, "1", None)],
        pagination: Some(Pagination { total: 42 }),
    });
    assert_eq!(r.total, 42);
    assert_eq!(r.items.len(), 1);
}

fn sample_page() -> FetchResult {
    FetchResult {
        items: vec![
            entry("https://weather.example/api", "base", Some("Weather forecasts"), "1000000", None),
            entry("https://test.example", "base-sepolia", Some("Weather on testnet"), "5", None),
            DiscoveredService {
                resource: "https://empty.example".to_string(),
                accepts: vec![],
                metadata: None,
            },
            entry("https://news.example", "solana", None, "2500", Some("Daily NEWS digest\nmore")),
            entry("https://plain.example", "base", None, "x", None),
        ],
        total: 17,
    }
}

#[test]
fn select_without_query() {
    let page = sample_page();
    assert!(descriptions_truncate_cleanly(&page.items, None));
    let r = select_services(page, None, 100, 0);
    assert_eq!(r.total, 17);
    assert_eq!(r.limit, 100);
    assert_eq!(r.offset, 0);
    let names: Vec<&str> = r.services.iter().map(|s| s.name.as_str()).collect();
    assert_eq!(
        names,
        ["https://weather.example/api", "https://news.example", "https://plain.example"]
    );
    let first = &r.services[0];
    assert_eq!(first.protocol, Protocol::X402);
    assert_eq!(first.url, "https://weather.example/api");
    assert_eq!(first.description, "Weather forecasts");
    assert_eq!(first.price, "$1.00");
    assert_eq!(first.network, "base");
    assert!(first.tags.is_empty());
    assert_eq!(r.services[1].description, "Daily NEWS digest");
    assert_eq!(r.services[1].price, "$0.0025");
    assert_eq!(r.services[2].description, "");
    assert_eq!(r.services[2].price, "$0.00");
}

#[test]
fn select_with_query_ignores_case() {
    let r = select_services(sample_page(), Some("WEATHER"), 10, 20);
    assert_eq!(r.services.len(), 1);
    assert_eq!(r.services[0].name, "https://weather.example/api");
    assert_eq!(r.limit, 10);
    assert_eq!(r.offset, 20);

    let r = select_services(sample_page(), Some("news"), 10, 0);
    assert_eq!(r.services.len(), 1);
    assert_eq!(r.services[0].name, "https://news.example");

    let r = select_services(sample_page(), Some("nothing-matches"), 10, 0);
    assert!(r.services.is_empty());
}

#[test]
fn long_descriptions_are_truncated_in_services() {
    let long = "d".repeat(120);
    let page = FetchResult {
        items: vec![entry("https://long.example", "base", Some(&long), "1", None)],
        total: 1,
    };
    let r = select_services(page, None, 100, 0);
    assert_eq!(r.services[0].description, format!("{}...", "d".repeat(77)));
}

#[test]
fn uncuttable_description_is_detected() {
    let accents = "é".repeat(50);
    let items = vec![entry("https://x.example", "base", Some(&accents), "1", None)];
    assert!(!descriptions_truncate_cleanly(&items, None));
    // Filtered out by the query: nothing needs cutting.
    assert!(descriptions_truncate_cleanly(&items, Some("zzz")));
}

#[test]
fn truncated_descriptions_fit_their_limit() {
    for len in [0usize, 3, 10, 79, 80, 81, 200] {
        for max in [3usize, 10, 80] {
            let s = "a".repeat(len);
            assert!(truncate(&s, max).len() <= max, "len {} max {}", len, max);
        }
    }
}

#[test]
fn kept_services_are_never_on_testnets() {
    let r = select_services(sample_page(), None, 100, 0);
    assert!(r.services.iter().all(|s| !network_is_testnet(&s.network)));
}

#[test]
fn query_case_and_empty_query() {
    for q in ["weather", "WEATHER", "WeAtHeR"] {
        let r = select_services(sample_page(), Some(q), 10, 0);
        assert_eq!(r.services.len(), 1, "{}", q);
        assert_eq!(r.services[0].name, "https://weather.example/api");
    }
    let all = select_services(sample_page(), None, 10, 0);
    let empty = select_services(sample_page(), Some(""), 10, 0);
    assert_eq!(empty.services.len(), all.services.len());
    for (a, b) in all.services.iter().zip(empty.services.iter()) {
        assert_eq!(a.name, b.name);
        assert_eq!(a.description, b.description);
    }
}

#[test]
fn truncating_twice_is_truncating_once() {
    let cases = [
        "short".to_string(),
        "a".repeat(200),
        "line one\nline two".to_string(),
        "é".repeat(50),
        "abcd".to_string(),
    ];
    for s in cases.iter() {
        for max in [0usize, 1, 2, 3, 10, 81] {
            if truncate_is_defined(s, max) {
                let once = truncate(s, max);
                assert!(truncate_is_defined(&once, max));
                assert_eq!(truncate(&once, max), once, "{:?} {}", s, max);
            }
        }
    }
    assert_eq!(truncate("abcd", 1), "...");
    assert_eq!(truncate("...", 1), "...");
}

#[test]
fn discover_page_answers_or_refuses() {
    let r = discover_page(sample_page(), Some("Weather"), 10, 5).unwrap();
    assert_eq!(r.services.len(), 1);
    assert_eq!(r.total, 17);
    assert_eq!((r.limit, r.offset), (10, 5));
    let upper = discover_page(sample_page(), Some("WEATHER"), 10, 5).unwrap();
    assert_eq!(upper.services[0].name, r.services[0].name);
    let accents = "é".repeat(50);
    let page = FetchResult {
        items: vec![entry("https://x.example", "base", Some(&accents), "1", None)],
        total: 1,
    };
    assert!(discover_page(page, None, 10, 0).is_none());
    let page = FetchResult {
        items: vec![entry("https://x.example", "base", Some(&accents), "1", None)],
        total: 1,
    };
    assert!(discover_page(page, Some("zzz"), 10, 0).unwrap().services.is_empty());
}
