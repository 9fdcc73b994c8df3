use wstunnel_server::admission::{extract_tunnel_info, validate_destination, validate_url};
use wstunnel_server::text::{endpoint, port_text};

fn list(items: &[&str]) -> Option<Vec<String>> {
    Some(items.iter().map(|s| s.to_string()).collect())
}

#[test]
fn path_must_end_with_events() {
    assert!(validate_url("/events", &None));
    assert!(validate_url("/anything/events", &None));
    assert!(!validate_url("/event", &None));
    assert!(!validate_url("/events/", &None));
    assert!(!validate_url("", &None));
}

#[test]
fn bad_path_prefix_is_refused() {
    let prefixes = list(&["v1"]);
    assert!(!validate_url("/v2/events", &prefixes));
    assert!(validate_url("/v1/events", &prefixes));
}

#[test]
fn prefix_must_be_followed_by_slash() {
    let prefixes = list(&["v1"]);
    assert!(!validate_url("/v1x/events", &prefixes));
    assert!(!validate_url("v1/events", &prefixes));
    assert!(validate_url("/v1/a/b/events", &prefixes));
}

#[test]
fn any_listed_prefix_admits() {
    // "v" starts the segment "v1" but is not followed by '/'; "v1" is.
    let prefixes = list(&["v", "v1"]);
    assert!(validate_url("/v1/events", &prefixes));
    let prefixes = list(&["v1", "v"]);
    assert!(validate_url("/v1/events", &prefixes));
    let prefixes = list(&["v", "w"]);
    assert!(!validate_url("/v1/events", &prefixes));
}

#[test]
fn empty_prefix_list_rejects_all() {
    let prefixes = list(&[]);
    assert!(!validate_url("/v1/events", &prefixes));
    assert!(!validate_url("/events", &prefixes));
}

#[test]
fn suffix_does_not_bypass_prefix() {
    let prefixes = list(&["v1"]);
    assert!(!validate_url("/v2", &prefixes));
    assert!(!validate_url("/v2/events", &prefixes));
    assert!(!validate_url("/v1", &prefixes));
}

#[test]
fn token_follows_prefix() {
    let t = extract_tunnel_info(Some("v1, authorization.bearer.abc.def.ghi"));
    assert_eq!(t, "abc.def.ghi");
    let t = extract_tunnel_info(Some("authorization.bearer.x"));
    assert_eq!(t, "x");
}

#[test]
fn token_missing_is_empty() {
    assert_eq!(extract_tunnel_info(None), "");
    assert_eq!(extract_tunnel_info(Some("v1")), "");
    assert_eq!(extract_tunnel_info(Some("")), "");
    assert_eq!(extract_tunnel_info(Some("authorization.bearer")), "");
}

#[test]
fn token_is_its_own_sub_value() {
    assert_eq!(extract_tunnel_info(Some("authorization.bearer.abc, v1")), "abc");
    assert_eq!(extract_tunnel_info(Some(" v1 ,\tauthorization.bearer.tok \t, authorization.bearer.other")), "tok");
    assert_eq!(extract_tunnel_info(Some("v1,authorization.bearer.t")), "t");
}

#[test]
fn token_sub_value_must_start_with_prefix() {
    assert_eq!(extract_tunnel_info(Some("xauthorization.bearer.T")), "");
    assert_eq!(extract_tunnel_info(Some("v1, xauthorization.bearer.T, authorization.bearer.U")), "U");
    assert_eq!(extract_tunnel_info(Some("v1, , ")), "");
}

#[test]
fn token_keeps_text_within_its_sub_value() {
    let t = extract_tunnel_info(Some("authorization.bearer.a authorization.bearer.b"));
    assert_eq!(t, "a authorization.bearer.b");
}

#[test]
fn disallowed_destination_is_refused() {
    let allowed = list(&["a.example:80"]);
    assert!(!validate_destination("b.example", 80, &allowed));
    assert!(validate_destination("a.example", 80, &allowed));
    assert!(!validate_destination("a.example", 8080, &allowed));
    assert!(!validate_destination("a.example", 8, &allowed));
}

#[test]
fn destination_list_unset_allows_all() {
    assert!(validate_destination("b.example", 80, &None));
    assert!(!validate_destination("b.example", 80, &list(&[])));
}

#[test]
fn destination_match_is_exact() {
    let allowed = list(&["A.example:80", "127.0.0.1:65535"]);
    assert!(!validate_destination("a.example", 80, &allowed));
    assert!(validate_destination("127.0.0.1", 65535, &allowed));
}

#[test]
fn decimal_port_text() {
    assert_eq!(port_text(0), "0");
    assert_eq!(port_text(7), "7");
    assert_eq!(port_text(80), "80");
    assert_eq!(port_text(1080), "1080");
    assert_eq!(port_text(65535), "65535");
    assert_eq!(endpoint("host", 443), "host:443");
}
