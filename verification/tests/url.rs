use stalkermap::utils::url::{UrlParser, UrlParserErrors};
use std::str::FromStr;

#[test]
fn test_url_urlparser_valid_http_dns() {
    let url = UrlParser::new("http://example.com").unwrap();
    assert_eq!(url.scheme.display_name(), "http");
    assert_eq!(url.target, "example.com");
    assert_eq!(url.target_type.display_name(), "dns");
    assert_eq!(url.port, 0);
    assert_eq!(url.subdirectory, "");
    assert_eq!(url.full_url, "http://example.com");
    assert_ne!(
        url.describe(),
        "Scheme: http Target: example.com Target type: dns Port: 0 Sub directory: Full url: http://example.com"
    );
}

#[test]
fn test_url_urlparser_valid_https_dns_with_path() {
    let url = UrlParser::new("https://example.com/test/path").unwrap();
    assert_eq!(url.scheme.display_name(), "https");
    assert_eq!(url.target, "example.com");
    assert_eq!(url.target_type.display_name(), "dns");
    assert_eq!(url.port, 0);
    assert_eq!(url.subdirectory, "/test/path");
    assert_eq!(url.full_url, "https://example.com/test/path");
    assert_ne!(
        url.describe(),
        "Scheme: https Target: example.com Target type: dns Port: 0 Sub directory: /test/path Full url: https://example.com/test/path"
    );
}

#[test]
fn test_url_urlparser_valid_https_dns_with_port_and_path() {
    let url = UrlParser::new("https://example.com:420/test/path").unwrap();
    assert_eq!(url.scheme.display_name(), "https");
    assert_eq!(url.target, "example.com");
    assert_eq!(url.target_type.display_name(), "dns");
    assert_eq!(url.port, 420);
    assert_eq!(url.subdirectory, "/test/path");
    assert_eq!(url.full_url, "https://example.com:420/test/path");
    assert_ne!(
        url.describe(),
        "Scheme: https Target: example.com Target type: dns Port: 420 Sub directory: /test/path Full url: https://example.com:420/test/path"
    );
}

#[test]
fn test_url_urlparser_valid_http_with_port() {
    let url = UrlParser::new("http://localhost:8080").unwrap();
    assert_eq!(url.scheme.display_name(), "http");
    assert_eq!(url.target, "localhost");
    assert_eq!(url.target_type.display_name(), "dns");
    assert_eq!(url.port, 8080);
    assert_eq!(url.subdirectory, "");
    assert_eq!(url.full_url, "http://localhost:8080");
    assert_ne!(
        url.describe(),
        "Scheme: http Target: localhost Target type: dns Port: 8080 Sub directory: Full url: http://localhost:8080"
    );
}

#[test]
fn test_url_urlparser_valid_ipv4() {
    let url = UrlParser::new("http://127.0.0.1").unwrap();
    assert_eq!(url.scheme.display_name(), "http");
    assert_eq!(url.target, "127.0.0.1");
    assert_eq!(url.target_type.display_name(), "ipv4");
    assert_eq!(url.port, 0);
    assert_eq!(url.subdirectory, "");
    assert_eq!(url.full_url, "http://127.0.0.1");
    assert_ne!(
        url.describe(),
        "Scheme: http Target: 127.0.0.1 Target type: ipv4 Port: 0 Sub directory: Full url: http://127.0.0.1"
    );
}

#[test]
fn test_url_urlparser_valid_ipv6() {
    let url = UrlParser::new("https://[::1]").unwrap();
    assert_eq!(url.scheme.display_name(), "https");
    assert_eq!(url.target, "[::1]");
    assert_eq!(url.target_type.display_name(), "ipv6");
    assert_eq!(url.port, 0);
    assert_eq!(url.subdirectory, "");
    assert_eq!(url.full_url, "https://[::1]");
    assert_ne!(
        url.describe(),
        "Scheme: https Target: [::1] Target type: ipv6 Port: 0 Sub directory: Full url: https://[::1]"
    );
}

#[test]
fn test_url_urlparser_direct_parse() {
    let url = "https://example.com:33".parse::<UrlParser>().unwrap();
    assert_eq!(url.scheme.display_name(), "https");
    assert_eq!(url.target, "example.com");
    assert_eq!(url.target_type.display_name(), "dns");
    assert_eq!(url.port, 33);
    assert_eq!(url.subdirectory, "");
    assert_eq!(url.full_url, "https://example.com:33");
    assert_ne!(
        url.describe(),
        "Scheme: https Target: example.com Target type: dns Port: 33 Sub directory: Full url: https://example.com:33"
    );
}

#[test]
fn test_url_urlparser_direct_parse_try_from() {
    let url = UrlParser::try_from("http://example.com").unwrap();
    assert_eq!(url.scheme.display_name(), "http");
    assert_eq!(url.target, "example.com");
    assert_eq!(url.target_type.display_name(), "dns");
    assert_eq!(url.port, 0);
    assert_eq!(url.subdirectory, "");
    assert_eq!(url.full_url, "http://example.com");
    assert_ne!(
        url.describe(),
        "Scheme: http Target: example.com Target type: dns Port: 0 Sub directory: Full url: https://example.com"
    );
}

#[test]
fn test_url_urlparser_invalid_empty_url() {
    let res = UrlParser::new("");
    assert!(matches!(res, Err(UrlParserErrors::UrlEmpty)));
}

#[test]
fn test_url_urlparser_invalid_scheme() {
    let res = UrlParser::new("ftp://example.com");
    assert!(matches!(res, Err(UrlParserErrors::InvalidSchemeSyntax)));
}

#[test]
fn test_url_urlparser_invalid_dns() {
    let res = UrlParser::new("http://exa$mple.com");
    assert!(matches!(res, Err(UrlParserErrors::InvalidTargetType)));
}

#[test]
fn test_url_urlparser_invalid_port_not_number() {
    let res = UrlParser::new("http://example.com:abcd");
    assert!(matches!(res, Err(UrlParserErrors::InvalidPort)));
}

#[test]
fn test_url_urlparser_invalid_port_out_of_range() {
    let res = UrlParser::new("http://example.com:70000");
    assert!(matches!(res, Err(UrlParserErrors::InvalidPort)));
}

#[test]
fn test_url_urlparser_short_inputs() {
    assert!(matches!(UrlParser::new("http"), Err(UrlParserErrors::InvalidSize)));
    assert!(matches!(UrlParser::new("httpxyz"), Err(UrlParserErrors::InvalidSize)));
}

#[test]
fn test_url_urlparser_describe_lines() {
    let url = UrlParser::new("http://example.com:81/a").unwrap();
    assert_eq!(
        url.describe(),
        "Scheme: http\nTarget: example.com\nTarget type: dns\nPort: 81\nSub directory: /a\nFull url: http://example.com:81/a"
    );
}

#[test]
fn test_url_urlparser_ipv6_forms() {
    assert!(UrlParser::new("http://[2001:db8::8a2e:370:7334]").unwrap().port == 0);
    let url = UrlParser::new("https://[::ffff:192.168.0.1]:8443/x").unwrap();
    assert_eq!(url.target_type.display_name(), "ipv6");
    assert_eq!(url.port, 8443);
    assert_eq!(url.subdirectory, "/x");
    assert!(UrlParser::new("http://[1:2:3:4:5:6:7:8:9]").is_err());
    assert!(UrlParser::new("http://[1::2::3]").is_err());
}

#[test]
fn test_url_urlparser_error_messages() {
    assert_eq!(UrlParserErrors::UrlEmpty.message(), "The url is empty");
    assert_eq!(
        UrlParserErrors::InvalidPort.message(),
        "Invalid port => (1 -> 65,535)"
    );
}
