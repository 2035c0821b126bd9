use blackhole::cookies::ca::{base64_decode, fingerprint, pem_to_der};
use blackhole::cookies::config::{CookiesConfig, DEFAULT_PROXY_PORT};
use blackhole::cookies::cookie_store::{CookieStore, RANDOM_VALUE_LEN};
use blackhole::cookies::error::CookiesError;
use blackhole::cookies::handler::{
    request_host, rewrite_incoming_set_cookie_headers, rewrite_outgoing_cookie_header,
    rewrite_set_cookie, CookieRandomizingHandler,
};
use blackhole::cookies::stats::{day_of, load_today, record, DailyStats};
use blackhole::cookies::tracker_list::{parse_line, valid_domain, TrackerList};
use std::sync::Arc;

#[test]
fn default_is_disabled_with_no_tracker_list() {
    let config = CookiesConfig::default();
    assert!(!config.enabled);
    assert!(config.tracker_list_path.is_none());
    assert_eq!(config.proxy_port, DEFAULT_PROXY_PORT);
}

#[test]
fn same_pair_gets_the_same_value_across_repeated_lookups() {
    let mut store = CookieStore::new();
    let first = store.randomized_value("faketracker.test", "trackid");
    let second = store.randomized_value("faketracker.test", "trackid");
    assert_eq!(first, second);
}

#[test]
fn different_cookie_names_on_the_same_domain_get_different_values() {
    let mut store = CookieStore::new();
    let a = store.randomized_value("faketracker.test", "trackid");
    let b = store.randomized_value("faketracker.test", "sessionid");
    assert_ne!(a, b);
}

#[test]
fn the_same_cookie_name_on_different_domains_gets_different_values() {
    let mut store = CookieStore::new();
    let a = store.randomized_value("faketracker.test", "trackid");
    let b = store.randomized_value("otherfaketracker.test", "trackid");
    assert_ne!(a, b);
}

#[test]
fn domain_matching_is_case_insensitive() {
    let mut store = CookieStore::new();
    let a = store.randomized_value("FakeTracker.test", "trackid");
    let b = store.randomized_value("faketracker.test", "trackid");
    assert_eq!(a, b);
}

#[test]
fn generated_values_do_not_echo_a_real_value_passed_in_elsewhere() {
    let mut store = CookieStore::new();
    let value = store.randomized_value("faketracker.test", "trackid");
    assert_eq!(value.len(), RANDOM_VALUE_LEN);
    assert!(value.chars().all(|c| c.is_ascii_alphanumeric()));
}

#[test]
fn randomized_count_tracks_distinct_pairs_not_lookups() {
    let mut store = CookieStore::new();
    store.randomized_value("faketracker.test", "a");
    store.randomized_value("faketracker.test", "a");
    store.randomized_value("faketracker.test", "b");
    assert_eq!(store.randomized_count(), 2);
}

#[test]
fn cookie_names_are_case_sensitive_in_the_store() {
    let mut store = CookieStore::new();
    store.randomized_value("faketracker.test", "ID");
    store.randomized_value("faketracker.test", "id");
    assert_eq!(store.randomized_count(), 2);
}

#[test]
fn parses_easylist_style_domain_rules() {
    let list = TrackerList::parse("||faketracker.test^\n||adnetwork.invalid^$third-party\n");
    assert_eq!(list.len(), 2);
    assert!(list.matches("faketracker.test"));
    assert!(list.matches("adnetwork.invalid"));
}

#[test]
fn parses_bare_domain_lines_too() {
    let list = TrackerList::parse("faketracker.test\nadnetwork.invalid\n");
    assert_eq!(list.len(), 2);
    assert!(list.matches("faketracker.test"));
}

#[test]
fn subdomains_of_a_listed_domain_match() {
    let list = TrackerList::parse("||faketracker.test^\n");
    assert!(list.matches("cdn.faketracker.test"));
    assert!(list.matches("a.b.faketracker.test"));
}

#[test]
fn unrelated_domains_do_not_match() {
    let list = TrackerList::parse("||faketracker.test^\n");
    assert!(!list.matches("example.test"));
    assert!(!list.matches("notfaketracker.test"));
    assert!(!list.matches("faketracker.test.evil.invalid"));
}

#[test]
fn comments_and_cosmetic_and_exception_rules_are_skipped() {
    let list = TrackerList::parse(
        "! this is a comment\n\
         ##.ad-banner\n\
         example.test#@#.allowed-ad\n\
         @@||exception.test^\n\
         /some-regex-rule.*/\n",
    );
    assert!(list.is_empty());
}

#[test]
fn blank_lines_are_ignored() {
    let list = TrackerList::parse("\n\n||faketracker.test^\n\n");
    assert_eq!(list.len(), 1);
}

#[test]
fn matching_is_case_insensitive_and_ignores_a_trailing_dot() {
    let list = TrackerList::parse("||FakeTracker.test^\n");
    assert!(list.matches("faketracker.test"));
    assert!(list.matches("faketracker.test."));
    assert!(list.matches("FAKETRACKER.TEST"));
}

#[test]
fn empty_list_matches_nothing_pure_pass_through() {
    let list = TrackerList::empty();
    assert!(!list.matches("faketracker.test"));
    assert!(!list.matches("anything.at.all"));
}

#[test]
fn duplicate_rules_count_once() {
    let list = TrackerList::parse("||faketracker.test^\nFAKETRACKER.TEST\n");
    assert_eq!(list.len(), 1);
}

#[test]
fn rule_lines_parse_to_their_domain() {
    assert_eq!(parse_line("||Ads.Example.test^$third-party"), Some("ads.example.test".to_string()));
    assert_eq!(parse_line("  tracker.test.  "), Some("tracker.test.".to_string()));
    assert_eq!(parse_line("! comment"), None);
    assert_eq!(parse_line("localhost"), None);
    assert_eq!(parse_line("bad_domain.test"), None);
    assert_eq!(valid_domain("a-b.test"), Some("a-b.test".to_string()));
    assert_eq!(valid_domain(".test"), None);
}

#[test]
fn request_host_prefers_the_host_header() {
    assert_eq!(
        request_host(Some("faketracker.test"), Some("other.test")),
        Some("faketracker.test".to_string())
    );
}

#[test]
fn request_host_strips_a_port_from_the_host_header() {
    assert_eq!(request_host(Some("faketracker.test:8443"), None), Some("faketracker.test".to_string()));
}

#[test]
fn request_host_falls_back_to_the_uri() {
    assert_eq!(request_host(None, Some("faketracker.test")), Some("faketracker.test".to_string()));
    assert_eq!(request_host(None, None), None);
}

#[test]
fn rewrite_outgoing_cookie_replaces_every_value_consistently() {
    let mut store = CookieStore::new();
    let header = "trackid=REALVALUE; other=REALVALUE2";
    let rewritten = rewrite_outgoing_cookie_header(Some(header), "faketracker.test", &mut store).unwrap();
    assert!(!rewritten.contains("REALVALUE"));
    let again = rewrite_outgoing_cookie_header(Some(header), "faketracker.test", &mut store).unwrap();
    assert_eq!(rewritten, again);
    assert!(rewritten.starts_with("trackid="));
    assert!(rewritten.contains("; other="));
    assert_eq!(store.randomized_count(), 2);
}

#[test]
fn rewrite_incoming_set_cookie_replaces_value_but_keeps_attributes() {
    let mut store = CookieStore::new();
    let values = vec![Some("trackid=REALVALUE; Path=/; Secure; HttpOnly; SameSite=None".to_string())];
    let out = rewrite_incoming_set_cookie_headers(&values, "faketracker.test", &mut store);
    let rewritten = out[0].clone().unwrap();
    assert!(!rewritten.contains("REALVALUE"));
    assert!(rewritten.starts_with("trackid="));
    assert!(rewritten.contains("Path=/"));
    assert!(rewritten.contains("Secure"));
    assert!(rewritten.contains("HttpOnly"));
    assert!(rewritten.contains("SameSite=None"));
    // The substitute is the store's value for the pair, and the cookie is
    // otherwise printed as `cookie` prints it.
    let substitute = store.randomized_value("faketracker.test", "trackid");
    assert_eq!(store.randomized_count(), 1);
    assert_eq!(substitute.len(), RANDOM_VALUE_LEN);
    let mut expected = cookie::Cookie::parse("trackid=REALVALUE; Path=/; Secure; HttpOnly; SameSite=None").unwrap();
    expected.set_value(substitute);
    assert_eq!(rewritten, expected.to_string());
}

#[test]
fn set_cookie_and_cookie_rewrites_share_the_same_randomized_value() {
    let mut store = CookieStore::new();
    let set_cookie = rewrite_set_cookie("trackid=REALVALUE; Path=/", "faketracker.test", &mut store).unwrap();
    let randomized_from_response = cookie::Cookie::parse(set_cookie).unwrap().value().to_string();
    let cookie_header =
        rewrite_outgoing_cookie_header(Some("trackid=REALVALUE"), "faketracker.test", &mut store).unwrap();
    assert_eq!(cookie_header, format!("trackid={randomized_from_response}"));
}

#[test]
fn multiple_set_cookie_headers_are_each_rewritten_independently() {
    let mut store = CookieStore::new();
    let values = vec![Some("a=REAL1; Path=/".to_string()), Some("b=REAL2; Path=/".to_string())];
    let out = rewrite_incoming_set_cookie_headers(&values, "faketracker.test", &mut store);
    assert_eq!(out.len(), 2);
    assert!(out.iter().all(|v| {
        let v = v.clone().unwrap();
        !v.contains("REAL1") && !v.contains("REAL2")
    }));
}

#[test]
fn unparseable_or_non_text_set_cookie_values_are_kept() {
    let mut store = CookieStore::new();
    let values = vec![None, Some("=novalue".to_string())];
    let out = rewrite_incoming_set_cookie_headers(&values, "faketracker.test", &mut store);
    assert_eq!(out, vec![None, None]);
    assert_eq!(store.randomized_count(), 0);
}

#[test]
fn no_cookie_header_is_a_harmless_no_op() {
    let mut store = CookieStore::new();
    assert_eq!(rewrite_outgoing_cookie_header(None, "faketracker.test", &mut store), None);
    assert_eq!(store.randomized_count(), 0);
}

#[test]
fn no_set_cookie_header_is_a_harmless_no_op() {
    let mut store = CookieStore::new();
    let out = rewrite_incoming_set_cookie_headers(&Vec::new(), "faketracker.test", &mut store);
    assert!(out.is_empty());
}

#[test]
fn handler_rewrites_only_tracker_traffic() {
    let list = Arc::new(TrackerList::parse("||faketracker.test^\n"));
    let mut handler = CookieRandomizingHandler::new(list);
    assert_eq!(handler.handle_request(Some("cdn.faketracker.test".to_string())), Some("cdn.faketracker.test".to_string()));
    assert_eq!(handler.handle_response(), Some("cdn.faketracker.test".to_string()));
    assert_eq!(handler.handle_response(), None);
    assert_eq!(handler.handle_request(Some("example.test".to_string())), None);
    assert_eq!(handler.handle_response(), None);
}

#[test]
fn base64_decodes_and_rejects_bad_input() {
    assert_eq!(base64_decode("aGVsbG8="), Ok(b"hello".to_vec()));
    assert_eq!(base64_decode("aGk="), Ok(b"hi".to_vec()));
    assert_eq!(base64_decode(""), Ok(Vec::new()));
    assert_eq!(base64_decode("aGVsbG8"), Ok(b"hello".to_vec()));
    assert_eq!(base64_decode("aGVsb"), Err("invalid base64 length"));
    assert_eq!(base64_decode("a*=="), Err("invalid base64 character"));
}

#[test]
fn pem_body_is_decoded_to_der() {
    let pem = "-----BEGIN CERTIFICATE-----\naGVs\nbG8=\n-----END CERTIFICATE-----\n";
    assert_eq!(pem_to_der(pem).unwrap(), b"hello".to_vec());
    assert!(matches!(pem_to_der("no pem here"), Err(CookiesError::Ca(_))));
}

#[test]
fn fingerprint_is_colon_separated_uppercase_sha256_of_the_der() {
    let pem = "-----BEGIN CERTIFICATE-----\naGVsbG8=\n-----END CERTIFICATE-----\n";
    assert_eq!(
        fingerprint(pem).unwrap(),
        "2C:F2:4D:BA:5F:B0:A3:0E:26:E8:3B:2A:C5:B9:E2:9E:1B:16:1E:5C:1F:A7:42:5E:73:04:33:62:93:8B:98:24"
    );
}

#[test]
fn daily_stats_reset_on_a_new_day() {
    assert_eq!(day_of(86_400 * 3 + 5), 3);
    let saved = DailyStats { day: 3, cookies_randomized: 7 };
    assert_eq!(load_today(Some(saved), 3), DailyStats { day: 3, cookies_randomized: 7 });
    assert_eq!(load_today(Some(saved), 4), DailyStats { day: 4, cookies_randomized: 0 });
    assert_eq!(load_today(None, 4), DailyStats { day: 4, cookies_randomized: 0 });
    assert_eq!(record(Some(saved), 3, 2), DailyStats { day: 3, cookies_randomized: 9 });
    assert_eq!(record(Some(saved), 5, 2), DailyStats { day: 5, cookies_randomized: 2 });
}

#[test]
fn fingerprint_is_stable_for_the_same_certificate() {
    let cert_pem = "-----BEGIN CERTIFICATE-----\nMIIBszCCAVmgAwIBAgIUQmxhY2tob2xlIHRlc3QgQ0E=\n-----END CERTIFICATE-----\n";
    let a = fingerprint(cert_pem).unwrap();
    let b = fingerprint(cert_pem).unwrap();
    assert_eq!(a, b);
    // SHA-256 -> 32 bytes -> 32 two-hex-digit groups joined by ':'.
    assert_eq!(a.split(':').count(), 32);
}

#[test]
fn two_generated_cas_have_different_fingerprints() {
    let cert_a = "-----BEGIN CERTIFICATE-----\nMIIBszCCAVmgAwIBAgIUQmxhY2tob2xlIHRlc3QgQ0E=\n-----END CERTIFICATE-----\n";
    let cert_b = "-----BEGIN CERTIFICATE-----\nMIIBszCCAVmgAwIBAgIUYW5vdGhlciB0ZXN0IENBIQ==\n-----END CERTIFICATE-----\n";
    let fp_a = fingerprint(cert_a).unwrap();
    let fp_b = fingerprint(cert_b).unwrap();
    assert_ne!(fp_a, fp_b);
}

#[test]
fn decoding_undoes_padded_encoding_with_whitespace() {
    assert_eq!(base64_decode("TWFu"), Ok(vec![77, 97, 110]));
    assert_eq!(base64_decode("TWE="), Ok(vec![77, 97]));
    assert_eq!(base64_decode("TQ=="), Ok(vec![77]));
    assert_eq!(base64_decode(" TW\nFu\r\n TQ== "), Ok(vec![77, 97, 110, 77]));
}

#[test]
fn joined_lists_match_like_either_list() {
    let a = "||doubleclick.net^\n! comment";
    let b = "tracker.example\nexample.org##.ad";
    let joined = format!("{a}\n{b}");
    let (la, lb, lj) = (TrackerList::parse(a), TrackerList::parse(b), TrackerList::parse(&joined));
    for host in ["ads.doubleclick.net", "tracker.example", "example.org", "other.test"] {
        assert_eq!(lj.matches(host), la.matches(host) || lb.matches(host), "{host}");
    }
    assert_eq!(lj.len(), 2);
    assert!(lj.len() <= joined.lines().count());
}
