use shodancli::config::{load_credential, missing_credential_message, parse_targets, ConfigError};
use shodancli::host::{sort_ports, Shodan, ShodanHostData, ShodanPortData};
use shodancli::lookup::{
    is_success_status, lookup_outcome, lookup_url, lookup_urls, not_found_notice, report_for,
    reports_for, Outcome,
};
use shodancli::text::{i64_to_string, join_ports_exec, trim_str};
use shodancli::Config;

fn sample_shodan() -> Shodan {
    Shodan {
        crawler: "c1".to_string(),
        id: "id1".to_string(),
        module: "https".to_string(),
        ptr: Some(true),
        region: "eu".to_string(),
    }
}

fn sample_port(port: i64, transport: &str, product: Option<&str>) -> ShodanPortData {
    ShodanPortData {
        shodan: sample_shodan(),
        cpe: None,
        cpe23: None,
        data: None,
        domains: None,
        hash: 42,
        hostname: None,
        info: None,
        product: product.map(|p| p.to_string()),
        port,
        transport: transport.to_string(),
    }
}

fn sample_host(ports: Vec<i64>, tags: Option<Vec<String>>) -> ShodanHostData {
    ShodanHostData {
        asn: "AS123".to_string(),
        city: "Springfield".to_string(),
        country_code: "US".to_string(),
        country_name: "United States".to_string(),
        data: vec![sample_port(80, "tcp", None), sample_port(443, "tcp", Some("nginx"))],
        ip: 16909060,
        ip_str: "1.2.3.4".to_string(),
        isp: "ExampleISP".to_string(),
        last_update: "2024-01-01T00:00:00".to_string(),
        org: "ExampleOrg".to_string(),
        os: "Linux".to_string(),
        ports,
        region_code: "IL".to_string(),
        tags,
    }
}

fn expected_report(port_list: &str, tags: &str) -> String {
    format!(
        "IP:           1.2.3.4\nASN:          AS123\nCity:         Springfield\nCountry code: US\nCountry name: United States\nISP:          ExampleISP\nLast update:  2024-01-01T00:00:00\nOrganization: ExampleOrg\nOS:           Linux\nPort list:    {}\nComprehensive information about ports:\nPort: 80/tcp | None\nPort: 443/tcp | nginx\n\nRegion code:  IL\nTags:         {}\nLink:         https://www.shodan.io/host/1.2.3.4\n",
        port_list, tags
    )
}

#[test]
fn test_config_new() {
    let api_key = "my_api_key".to_string();
    let targets = vec!["127.0.0.1".to_string(), "0.0.0.0".to_string()];
    let config = Config::new(api_key.clone(), targets.clone());

    assert_eq!(config.api_key, api_key);
    assert_eq!(config.targets, targets);
}

#[test]
fn load_credential_present_returns_it() {
    let r = load_credential(Some("my_api_key".to_string()));
    assert_eq!(r.unwrap(), "my_api_key".to_string());
}

#[test]
fn load_credential_missing_is_fatal() {
    let r = load_credential(None);
    assert!(matches!(r, Err(ConfigError::MissingCredential)));
}

#[test]
fn missing_credential_message_names_variable() {
    let msg = missing_credential_message();
    assert!(msg.contains("SHODAN_API_KEY"));
    assert_eq!(
        msg,
        "Please set the SHODAN_API_KEY environment variable to your Shodan API key. You can obtain an API key from your account on the Shodan website (https://account.shodan.io/)."
    );
}

#[test]
fn parse_targets_splits_and_trims() {
    let r = parse_targets(" 127.0.0.1 ,0.0.0.0");
    assert_eq!(r, vec!["127.0.0.1".to_string(), "0.0.0.0".to_string()]);
}

#[test]
fn parse_targets_keeps_empty_pieces() {
    assert_eq!(parse_targets(""), vec!["".to_string()]);
    assert_eq!(
        parse_targets("a,,b"),
        vec!["a".to_string(), "".to_string(), "b".to_string()]
    );
}

#[test]
fn trim_str_removes_unicode_whitespace() {
    assert_eq!(trim_str("\u{3000} x\t"), "x".to_string());
    assert_eq!(trim_str("   "), "".to_string());
    assert_eq!(trim_str("a b"), "a b".to_string());
}

#[test]
fn i64_to_string_matches_decimal() {
    assert_eq!(i64_to_string(0), "0".to_string());
    assert_eq!(i64_to_string(9), "9".to_string());
    assert_eq!(i64_to_string(8080), "8080".to_string());
    assert_eq!(i64_to_string(-5), "-5".to_string());
    assert_eq!(i64_to_string(i64::MAX), "9223372036854775807".to_string());
    assert_eq!(i64_to_string(i64::MIN), "-9223372036854775808".to_string());
}

#[test]
fn sort_ports_is_ascending() {
    assert_eq!(sort_ports(&vec![443, 80, 8080]), vec![80, 443, 8080]);
    assert_eq!(sort_ports(&vec![5, 1, 5]), vec![1, 5, 5]);
    assert_eq!(sort_ports(&vec![]), Vec::<i64>::new());
}

#[test]
fn join_ports_uses_comma_space() {
    assert_eq!(join_ports_exec(&vec![80, 443, 8080]), "80, 443, 8080".to_string());
    assert_eq!(join_ports_exec(&vec![]), "".to_string());
    assert_eq!(join_ports_exec(&vec![7]), "7".to_string());
}

#[test]
fn render_sorts_ports_ascending() {
    let host = sample_host(vec![443, 80, 8080], None);
    let report = host.render();
    assert_eq!(report, expected_report("80, 443, 8080", "None"));
    assert!(report.contains("Port list:    80, 443, 8080\n"));
}

#[test]
fn render_tags_absent_and_empty_both_none() {
    let absent = sample_host(vec![80], None);
    let empty = sample_host(vec![80], Some(vec![]));
    assert!(absent.render().contains("Tags:         None\n"));
    assert!(empty.render().contains("Tags:         None\n"));
}

#[test]
fn render_joins_tags() {
    let tagged = sample_host(vec![80], Some(vec!["vpn".to_string(), "proxy".to_string()]));
    assert!(tagged.render().contains("Tags:         vpn, proxy\n"));
}

#[test]
fn render_port_without_product_ends_with_none() {
    let host = sample_host(vec![80], None);
    let report = host.render();
    let line = report
        .lines()
        .find(|l| l.starts_with("Port: 80/tcp"))
        .unwrap();
    assert!(line.ends_with("| None"));
    assert_eq!(line, "Port: 80/tcp | None");
}

#[test]
fn not_found_notice_is_exact() {
    assert_eq!(
        not_found_notice("8.8.8.8"),
        "There are no entries for: 8.8.8.8".to_string()
    );
}

#[test]
fn success_status_is_only_200() {
    assert!(is_success_status(200));
    assert!(!is_success_status(404));
    assert!(!is_success_status(500));
    assert!(!is_success_status(201));
}

#[test]
fn lookup_outcome_non_success_is_not_found() {
    let r = lookup_outcome("8.8.8.8", 404, Err("".to_string()));
    match &r {
        Outcome::NotFound(t) => assert_eq!(t.as_str(), "8.8.8.8"),
        _ => panic!("expected NotFound"),
    }
    assert_eq!(
        report_for(&r).unwrap(),
        "There are no entries for: 8.8.8.8".to_string()
    );
}

#[test]
fn lookup_outcome_success_is_found() {
    let host = sample_host(vec![80], None);
    let r = lookup_outcome("1.2.3.4", 200, Ok(host));
    let report = report_for(&r).unwrap();
    assert_eq!(report, expected_report("80", "None"));
}

#[test]
fn lookup_outcome_decode_failure_prints_nothing() {
    let r = lookup_outcome("1.2.3.4", 200, Err("bad body".to_string()));
    match &r {
        Outcome::Failed(t, c) => {
            assert_eq!(t.as_str(), "1.2.3.4");
            assert_eq!(c.as_str(), "bad body");
        },
        _ => panic!("expected Failed"),
    }
    assert!(report_for(&r).is_none());
}

#[test]
fn lookup_url_embeds_trimmed_target_and_key() {
    assert_eq!(
        lookup_url("my_api_key", " 1.1.1.1 "),
        "https://api.shodan.io/shodan/host/1.1.1.1?key=my_api_key".to_string()
    );
}

#[test]
fn lookup_urls_one_per_target() {
    let cfg = Config::new(
        "my_api_key".to_string(),
        vec!["127.0.0.1".to_string(), "0.0.0.0".to_string()],
    );
    let urls = lookup_urls(&cfg);
    assert_eq!(
        urls,
        vec![
            "https://api.shodan.io/shodan/host/127.0.0.1?key=my_api_key".to_string(),
            "https://api.shodan.io/shodan/host/0.0.0.0?key=my_api_key".to_string(),
        ]
    );
}

#[test]
fn batch_reports_at_most_one_per_target() {
    let outcomes = vec![
        lookup_outcome("a", 404, Err("".to_string())),
        Outcome::Failed("b".to_string(), "connection refused".to_string()),
        lookup_outcome("1.2.3.4", 200, Ok(sample_host(vec![80], None))),
    ];
    let reports = reports_for(&outcomes);
    assert!(reports.len() <= outcomes.len());
    assert_eq!(reports.len(), 2);
    assert_eq!(reports[0], "There are no entries for: a".to_string());
    assert_eq!(reports[1], expected_report("80", "None"));
}
