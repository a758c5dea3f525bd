use heddle::rtc_origin::derive_http_origin_from_ws_url;

#[test]
fn wss_becomes_https_and_strips_path() {
    let got = derive_http_origin_from_ws_url("wss://rtc.app.warp.dev/graphql/v2");
    assert_eq!(got.as_deref(), Some("https://rtc.app.warp.dev"));
}

#[test]
fn ws_becomes_http_and_preserves_port() {
    let got = derive_http_origin_from_ws_url("ws://localhost:8080/graphql/v2");
    assert_eq!(got.as_deref(), Some("http://localhost:8080"));
}

#[test]
fn unparseable_input_returns_none() {
    assert!(derive_http_origin_from_ws_url("not a url").is_none());
    assert!(derive_http_origin_from_ws_url("https://app.warp.dev").is_none());
}

#[test]
fn a_url_without_a_host_has_no_origin() {
    assert!(derive_http_origin_from_ws_url("wss://").is_none());
    assert!(derive_http_origin_from_ws_url("ws:///graphql").is_none());
    assert!(derive_http_origin_from_ws_url("").is_none());
}

#[test]
fn query_and_fragment_end_the_host_too() {
    assert_eq!(
        derive_http_origin_from_ws_url("wss://example.com?x=1").as_deref(),
        Some("https://example.com")
    );
    assert_eq!(
        derive_http_origin_from_ws_url("ws://example.com:9000#f").as_deref(),
        Some("http://example.com:9000")
    );
    assert_eq!(
        derive_http_origin_from_ws_url("wss://example.com").as_deref(),
        Some("https://example.com")
    );
}
