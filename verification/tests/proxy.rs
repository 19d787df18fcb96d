use mindchat_core::proxy::{
    http_connect_request, parse_http_connect_response, parse_socks5_auth_reply,
    parse_socks5_connect_reply, parse_socks5_method_reply, probe_from_result, socks5_auth_request,
    socks5_connect_request, socks5_greeting, ConnectStrategy, ProxyConfig, ProxyError, ProxyKind,
    ProxyTarget, PROXY_DEFAULT_TLS_PORT, SOCKS5_ATYP_DOMAIN,
};
use mindchat_core::proxy::{
    http_header_step, socks5_method_step, socks5_offered_methods, socks5_reply_address_len,
    HeaderStep,
};
use std::time::Duration;

fn target(host: &str, port: u16) -> ProxyTarget {
    ProxyTarget::new(host, port).expect("valid target")
}

#[test]
fn default_strategy_is_direct() {
    assert_eq!(ConnectStrategy::default(), ConnectStrategy::Direct);
}

#[test]
fn stable_names_round_trip() {
    for strategy in [ConnectStrategy::Direct, ConnectStrategy::HttpConnect, ConnectStrategy::Socks5] {
        let name = strategy.as_str();
        assert_eq!(ConnectStrategy::from_name(name), Some(strategy));
        assert_eq!(name.parse::<ConnectStrategy>().expect("stable name parses"), strategy);
        assert_eq!(strategy.to_text(), name);
    }
}

#[test]
fn unknown_names_do_not_parse() {
    assert_eq!(ConnectStrategy::from_name("direct "), None);
    assert_eq!(ConnectStrategy::from_name(""), None);
    assert_eq!(ConnectStrategy::from_name("socks"), None);
    assert_eq!(ConnectStrategy::from_name("Direct"), None);
    assert_eq!(
        "direct".parse::<ConnectStrategy>().expect("lowercase name parses"),
        ConnectStrategy::Direct
    );
    assert!("SOCKS5".parse::<ConnectStrategy>().is_err());
}

#[test]
fn proxy_kind_maps_to_its_connect_strategy() {
    assert_eq!(ConnectStrategy::from(ProxyKind::Socks5), ConnectStrategy::Socks5);
    assert_eq!(ConnectStrategy::from(ProxyKind::HttpConnect), ConnectStrategy::HttpConnect);
    assert_eq!(ProxyKind::Socks5.as_str(), "socks5");
    assert_eq!(ProxyKind::HttpConnect.as_str(), "http_connect");
}

#[test]
fn proxy_config_validates_host_and_port() {
    assert!(ProxyConfig::new("127.0.0.1", 1080, ProxyKind::Socks5).is_ok());
    assert!(ProxyConfig::new("proxy.example.org", 8080, ProxyKind::HttpConnect).is_ok());
    assert!(ProxyConfig::new("", 1080, ProxyKind::Socks5).is_err());
    assert!(ProxyConfig::new("host", 0, ProxyKind::Socks5).is_err());
    assert!(ProxyConfig::new("host with space", 1080, ProxyKind::Socks5).is_err());
    assert!(
        ProxyConfig::new("host\r\nInjected: yes", 1080, ProxyKind::Socks5).is_err(),
        "CR/LF in a host would allow HTTP header injection"
    );
}

#[test]
fn socks5_greeting_builds_version_method_count_and_methods() {
    assert_eq!(socks5_greeting(&[0x00]), vec![0x05, 0x01, 0x00]);
    assert_eq!(socks5_greeting(&[0x00, 0x02]), vec![0x05, 0x02, 0x00, 0x02]);
}

#[test]
fn socks5_method_reply_parses_selection_and_rejection() {
    assert_eq!(parse_socks5_method_reply(&[0x05, 0x00]), Ok(0x00));
    assert_eq!(parse_socks5_method_reply(&[0x05, 0x02]), Ok(0x02));
    assert_eq!(parse_socks5_method_reply(&[0x05, 0xFF]), Err(ProxyError::SocksMethodRejected));
    assert!(matches!(parse_socks5_method_reply(&[0x05]), Err(ProxyError::SocksProtocol(_))));
    assert!(matches!(parse_socks5_method_reply(&[0x04, 0x00]), Err(ProxyError::SocksProtocol(_))));
}

#[test]
fn socks5_auth_request_encodes_rfc1929_fields() {
    assert_eq!(
        socks5_auth_request("user", "pass"),
        vec![0x01, 0x04, b'u', b's', b'e', b'r', 0x04, b'p', b'a', b's', b's']
    );
    assert_eq!(
        socks5_auth_request("", "s3cret"),
        vec![0x01, 0x00, 0x06, b's', b'3', b'c', b'r', b'e', b't']
    );
}

#[test]
fn socks5_auth_reply_parses_acceptance_and_refusal() {
    assert_eq!(parse_socks5_auth_reply(&[0x01, 0x00]), Ok(()));
    assert_eq!(parse_socks5_auth_reply(&[0x01, 0x01]), Err(ProxyError::SocksAuthRejected));
    assert!(matches!(parse_socks5_auth_reply(&[0x01]), Err(ProxyError::SocksProtocol(_))));
    assert!(matches!(parse_socks5_auth_reply(&[0x02, 0x00]), Err(ProxyError::SocksProtocol(_))));
}

#[test]
fn socks5_connect_request_sends_the_domain_to_the_proxy_verbatim() {
    let request = socks5_connect_request(&target("jabber.ru", 5223)).expect("valid request");
    assert_eq!(
        request,
        vec![
            0x05, 0x01, 0x00, 0x03, 0x09, b'j', b'a', b'b', b'b', b'e', b'r', b'.', b'r', b'u', 0x14,
            0x67,
        ]
    );
    let needle = b"jabber.ru";
    assert!(
        request.windows(needle.len()).any(|window| window == needle),
        "the hostname bytes must be present verbatim (DNS happens at the proxy)"
    );
}

#[test]
fn socks5_connect_request_encodes_ip_literals_without_resolution() {
    let v4 = socks5_connect_request(&target("127.0.0.1", 5222)).expect("valid IPv4 target");
    assert_eq!(v4, vec![0x05, 0x01, 0x00, 0x01, 127, 0, 0, 1, 0x14, 0x66]);
    let v6 = socks5_connect_request(&target("::1", 5222)).expect("valid IPv6 target");
    let mut expected = vec![0x05, 0x01, 0x00, 0x04];
    expected.extend([0u8; 15]);
    expected.push(1);
    expected.extend_from_slice(&5222u16.to_be_bytes());
    assert_eq!(v6, expected);
}

#[test]
fn socks5_connect_reply_parses_success_failure_and_framing() {
    assert_eq!(parse_socks5_connect_reply(&[0x05, 0x00, 0x00, 0x01, 127, 0, 0, 1, 0x00, 0x50]), Ok(()));
    assert_eq!(
        parse_socks5_connect_reply(&[0x05, 0x00, 0x00, 0x03, 0x02, b'a', b'b', 0x00, 0x50]),
        Ok(())
    );
    assert_eq!(
        parse_socks5_connect_reply(&[0x05, 0x05, 0x00, 0x01, 0, 0, 0, 0, 0, 0]),
        Err(ProxyError::SocksConnectFailed(0x05))
    );
    assert!(matches!(parse_socks5_connect_reply(&[0x05, 0x00]), Err(ProxyError::SocksProtocol(_))));
    assert!(matches!(
        parse_socks5_connect_reply(&[0x05, 0x00, 0x00, 0x01, 0, 0, 0]),
        Err(ProxyError::SocksProtocol(_))
    ));
    assert!(matches!(
        parse_socks5_connect_reply(&[0x05, 0x00, 0x00, 0x02, 0, 0, 0, 0, 0, 0]),
        Err(ProxyError::SocksProtocol(_))
    ));
}

#[test]
fn http_connect_request_builds_authority_and_host_header() {
    let request = http_connect_request(&target("jabber.ru", 5223), None);
    assert_eq!(request, "CONNECT jabber.ru:5223 HTTP/1.1\r\nHost: jabber.ru:5223\r\n\r\n");
}

#[test]
fn http_connect_request_appends_basic_auth_from_rfc7617() {
    let request = http_connect_request(&target("proxy.example.org", 8080), Some(("", "s3cret")));
    let expected = "CONNECT proxy.example.org:8080 HTTP/1.1\r\n\
                    Host: proxy.example.org:8080\r\n\
                    Proxy-Authorization: Basic OnMzY3JldA==\r\n\r\n";
    assert_eq!(request, expected);
}

#[test]
fn http_connect_response_parses_200_and_rejects_other_statuses() {
    assert_eq!(parse_http_connect_response(b"HTTP/1.1 200 Connection established\r\n\r\n"), Ok(()));
    assert_eq!(parse_http_connect_response(b"HTTP/1.0 200 OK\r\n\r\n"), Ok(()));
    assert_eq!(
        parse_http_connect_response(b"HTTP/1.1 407 Proxy Authentication Required\r\n\r\n"),
        Err(ProxyError::HttpStatus { status: 407, reason: "Proxy Authentication Required".to_owned() })
    );
    assert!(matches!(parse_http_connect_response(b"garbage\r\n\r\n"), Err(ProxyError::HttpMalformed(_))));
    assert!(matches!(parse_http_connect_response(b"HTTP/1.1\r\n\r\n"), Err(ProxyError::HttpMalformed(_))));
}

#[test]
fn proxy_target_from_server_skips_srv_and_defaults_to_direct_tls_port() {
    assert_eq!(
        ProxyTarget::from_server("jabber.ru").expect("bare domain"),
        target("jabber.ru", PROXY_DEFAULT_TLS_PORT)
    );
    assert_eq!(ProxyTarget::from_server("jabber.ru:5222").expect("explicit port"), target("jabber.ru", 5222));
    assert_eq!(ProxyTarget::from_server("[::1]:5222").expect("bracketed IPv6"), target("::1", 5222));
    assert!(ProxyTarget::from_server("").is_err());
    assert!(ProxyTarget::from_server("jabber.ru:not-a-port").is_err());
}

#[test]
fn proxy_mode_never_resolves_the_xmpp_hostname_locally() {
    let derived = ProxyTarget::from_server("jabber.ru").expect("derived target");
    assert_eq!(derived.host, "jabber.ru");

    let socks = socks5_connect_request(&derived).expect("SOCKS5 request");
    assert!(socks.contains(&(SOCKS5_ATYP_DOMAIN)));
    assert!(socks.windows(9).any(|w| w == b"jabber.ru"));

    let http = http_connect_request(&derived, None);
    assert!(http.starts_with("CONNECT jabber.ru:5223 HTTP/1.1"));
    assert!(http.contains("Host: jabber.ru:5223"));
}

#[test]
fn probe_mapping_reports_latency_and_error() {
    let ok = probe_from_result(Ok(()), Duration::from_millis(42));
    assert!(ok.ok);
    assert_eq!(ok.latency_ms, 42);
    assert_eq!(ok.error, None);

    let failed = probe_from_result(Err(ProxyError::SocksAuthRejected), Duration::from_millis(7));
    assert!(!failed.ok);
    assert_eq!(failed.latency_ms, 7);
    assert!(
        failed.error.as_deref().is_some_and(|detail| detail.contains("credentials")),
        "probe errors must be UI-safe and descriptive"
    );
}

#[test]
fn proxy_error_messages_are_ui_safe() {
    assert_eq!(
        ProxyError::SocksConnectFailed(5).message(),
        "the SOCKS5 proxy refused the tunnel (reply code 5)"
    );
    assert_eq!(ProxyError::InvalidConfig("x".to_owned()).message(), "invalid proxy configuration: x");
}

#[test]
fn bracketed_server_without_closing_bracket_is_refused() {
    assert!(ProxyTarget::from_server("[::1:5222").is_err());
    assert!(ProxyTarget::from_server("jabber.ru:0").is_err());
}

#[test]
fn http_connect_response_must_be_utf8_and_quotes_a_bad_status_line() {
    assert_eq!(
        parse_http_connect_response(&[0x48, 0xff, 0x0d, 0x0a]),
        Err(ProxyError::HttpMalformed("the proxy response is not valid UTF-8".to_owned()))
    );
    assert_eq!(
        parse_http_connect_response(b"garbage\r\n\r\n"),
        Err(ProxyError::HttpMalformed(
            "the proxy response status line does not start with HTTP/: \"garbage\"".to_owned()
        ))
    );
}

#[test]
fn socks5_method_selection_and_reply_framing_decisions() {
    assert_eq!(socks5_offered_methods(false), vec![0x00]);
    assert_eq!(socks5_offered_methods(true), vec![0x00, 0x02]);
    assert_eq!(socks5_method_step(0x00, true), Ok(false));
    assert_eq!(socks5_method_step(0x02, true), Ok(true));
    assert_eq!(
        socks5_method_step(0x02, false),
        Err(ProxyError::SocksProtocol("the proxy requires credentials but none were supplied".to_owned()))
    );
    assert_eq!(
        socks5_method_step(0x80, true),
        Err(ProxyError::SocksProtocol("the proxy selected unsupported authentication method 128".to_owned()))
    );
    assert_eq!(socks5_reply_address_len(0x01), Ok(Some(4)));
    assert_eq!(socks5_reply_address_len(0x04), Ok(Some(16)));
    assert_eq!(socks5_reply_address_len(0x03), Ok(None));
    assert!(socks5_reply_address_len(0x09).is_err());
    assert_eq!(http_header_step(b"HTTP/1.1 200 OK\r\n", 17), Ok(HeaderStep::More));
    assert_eq!(http_header_step(b"\r\n", 19), Ok(HeaderStep::Done));
    assert!(http_header_step(b"", 19).is_err());
    assert!(http_header_step(b"X: y\r\n", 20_000).is_err());
}

#[test]
fn proxy_hosts_with_surrounding_line_breaks_are_refused() {
    let line_break = "a proxy or tunnel host must not contain whitespace or line breaks".to_owned();
    assert_eq!(
        ProxyConfig::new("example.org\r\n", 1080, ProxyKind::Socks5),
        Err(ProxyError::InvalidConfig(line_break.clone()))
    );
    assert_eq!(
        ProxyConfig::new(" example.org", 1080, ProxyKind::Socks5),
        Err(ProxyError::InvalidConfig(line_break))
    );
    assert_eq!(
        ProxyConfig::new("  ", 1080, ProxyKind::Socks5),
        Err(ProxyError::InvalidConfig("a proxy or tunnel host is required".to_owned()))
    );
}
