use ord::server::{ImageRendering, Language, Media, PolicyError, ServerConfig};

fn config(csp_origin: Option<&str>, domain: Option<&str>) -> ServerConfig {
    ServerConfig {
        csp_origin: csp_origin.map(|s| s.to_string()),
        domain: domain.map(|s| s.to_string()),
        ..ServerConfig::default()
    }
}

fn policy(result: Result<[(http::HeaderName, http::HeaderValue); 1], PolicyError>) -> String {
    let [(name, value)] = result.unwrap();
    assert_eq!(name, http::header::CONTENT_SECURITY_POLICY);
    value.to_str().unwrap().to_string()
}

#[test]
fn preview_policy_defaults_without_origin() {
    let config = ServerConfig::default();
    assert_eq!(policy(config.preview_content_security_policy(Media::Text, None)), "default-src 'self'");
    assert_eq!(
        policy(config.preview_content_security_policy(Media::Code(Language::Python), None)),
        "script-src-elem 'self' https://cdn.jsdelivr.net"
    );
    assert_eq!(
        policy(config.preview_content_security_policy(Media::Image(ImageRendering::Pixelated), None)),
        "default-src 'self' 'unsafe-inline'"
    );
}

#[test]
fn preview_policy_scoped_to_origin_or_host() {
    let config = config(Some("https://ordinals.com"), None);
    assert_eq!(
        policy(config.preview_content_security_policy(Media::Font, Some("other.host"))),
        "script-src-elem https://ordinals.com; style-src https://ordinals.com 'unsafe-inline'"
    );
    let plain = ServerConfig::default();
    assert_eq!(
        policy(plain.preview_content_security_policy(Media::Video, Some("example.com"))),
        "default-src example.com"
    );
}

#[test]
fn preview_policy_errors() {
    let plain = ServerConfig::default();
    assert!(matches!(
        plain.preview_content_security_policy(Media::Iframe, None),
        Err(PolicyError::IframeMedia)
    ));
    match plain.preview_content_security_policy(Media::Text, Some("bad\nhost")) {
        Err(PolicyError::InvalidOrigin(origin)) => assert_eq!(origin, "bad\nhost"),
        _ => panic!("expected an invalid origin"),
    }
}

#[test]
fn embed_policy_allows_any_frame_ancestor() {
    let plain = ServerConfig::default();
    assert_eq!(
        policy(plain.embed_content_security_policy(Media::Pdf, None)),
        "default-src 'self'; style-src 'self' 'unsafe-inline'; frame-ancestors *"
    );
    assert_eq!(
        policy(plain.embed_content_security_policy(Media::Image(ImageRendering::Auto), Some("h"))),
        "default-src h; img-src h data:; style-src h 'unsafe-inline'; frame-ancestors *"
    );
    assert!(matches!(
        plain.embed_content_security_policy(Media::Audio, Some("a\u{7f}")),
        Err(PolicyError::InvalidEmbedPolicy)
    ));
}

#[test]
fn public_origin_prefers_configuration() {
    let headers = http::HeaderMap::new();
    assert_eq!(config(Some("https://o.example"), Some("d.example")).public_origin(&headers), "https://o.example");
    assert_eq!(config(None, Some("d.example")).public_origin(&headers), "https://d.example");
    assert_eq!(config(None, None).public_origin(&headers), "http://localhost");
}

#[test]
fn public_origin_reads_request_headers() {
    let mut headers = http::HeaderMap::new();
    headers.insert(http::header::HOST, http::HeaderValue::from_static("example.com:8080"));
    assert_eq!(config(None, None).public_origin(&headers), "http://example.com:8080");
    headers.insert("x-forwarded-proto", http::HeaderValue::from_static("https"));
    assert_eq!(config(None, None).public_origin(&headers), "https://example.com:8080");
    assert_eq!(config(None, None).public_origin_from(None, Some("https")), "http://localhost");
}

#[test]
fn request_header_text_reads_first_visible_value() {
    let mut headers = http::HeaderMap::new();
    assert_eq!(ord::server::request_header_text(&headers, "range"), None);
    headers.append("range", http::HeaderValue::from_static("bytes=0-1"));
    headers.append("range", http::HeaderValue::from_static("bytes=2-3"));
    assert_eq!(ord::server::request_header_text(&headers, "range").as_deref(), Some("bytes=0-1"));
    headers.insert("x-bin", http::HeaderValue::from_bytes(&[0xe9]).unwrap());
    assert_eq!(ord::server::request_header_text(&headers, "x-bin"), None);
}

#[test]
fn public_origin_ignores_host_with_invalid_text_and_empty_map() {
    assert_eq!(ServerConfig::default().public_origin(&http::HeaderMap::new()), "http://localhost");
    let mut headers = http::HeaderMap::new();
    headers.insert(http::header::HOST, http::HeaderValue::from_bytes(&[0x68, 0xff]).unwrap());
    headers.insert("x-forwarded-proto", http::HeaderValue::from_static("https"));
    assert_eq!(ServerConfig::default().public_origin(&headers), "http://localhost");
    let mut headers = http::HeaderMap::new();
    headers.insert(http::header::HOST, http::HeaderValue::from_static("example.com"));
    headers.insert("x-forwarded-proto", http::HeaderValue::from_static("https"));
    assert_eq!(ServerConfig::default().public_origin(&headers), "https://example.com");
    assert_eq!(config(None, Some("ordinals.com")).public_origin(&headers), "https://ordinals.com");
}

#[test]
fn embed_policy_of_iframe_and_origin_scoping() {
    assert_eq!(
        policy(ServerConfig::default().embed_content_security_policy(Media::Iframe, None)),
        "default-src 'self'; style-src 'self' 'unsafe-inline'; frame-ancestors *"
    );
    assert_eq!(
        policy(config(Some("https://ord.io"), None).embed_content_security_policy(Media::Video, Some("h.example"))),
        "default-src https://ord.io; media-src https://ord.io blob:; style-src https://ord.io 'unsafe-inline'; frame-ancestors *"
    );
}

#[test]
fn policy_header_value_bytes_are_the_policy_text() {
    let config = ServerConfig::default();
    let [(name, value)] = config.preview_content_security_policy(Media::Text, None).unwrap();
    assert_eq!(name.as_str(), "content-security-policy");
    assert_eq!(value.as_bytes(), b"default-src 'self'");
    let [(_, value)] = config.embed_content_security_policy(Media::Text, Some("example.com")).unwrap();
    assert_eq!(value.as_bytes(), b"default-src example.com; style-src example.com 'unsafe-inline'; frame-ancestors *");
}
