//! Header and text parsing behaviour.

use xet::error::XetErrorCode;
use xet::xet_integration::parse_link_header_for_xet_auth;
use xet::xet_integration::parse_xet_connection_info_from_headers;
use xet::xet_integration::parse_xet_file_data_from_headers;
use xet::xet_integration::ResponseHeaders;
use xet::xet_integration::XetTokenType;

fn empty_headers() -> ResponseHeaders {
    ResponseHeaders {
        xet_hash: None,
        link: None,
        xet_refresh_route: None,
        cas_url: None,
        access_token: None,
        token_expiration: None,
    }
}

#[test]
fn test_parse_link_header() {
    let link = r#"<https://huggingface.co/api/models/test/xet-read-token/abc123>; rel="xet-auth", <https://cas-server.xethub.hf.co/reconstruction/hash>; rel="xet-reconstruction-info""#;

    let result = parse_link_header_for_xet_auth(link);
    assert_eq!(
        result,
        Some("https://huggingface.co/api/models/test/xet-read-token/abc123".to_string())
    );
}

#[test]
fn test_parse_xet_connection_info() {
    let mut headers = empty_headers();
    headers.cas_url = Some("https://cas-server.xethub.hf.co".to_string());
    headers.access_token = Some("test-token".to_string());
    headers.token_expiration = Some("1758055996".to_string());

    let result = parse_xet_connection_info_from_headers(&headers);
    assert!(result.is_some());

    let info = result.unwrap();
    assert_eq!(info.endpoint, "https://cas-server.xethub.hf.co");
    assert_eq!(info.access_token, "test-token");
    assert_eq!(info.expiration_unix_epoch, 1758055996);
}

#[test]
fn link_header_picks_only_xet_auth_entry() {
    let link = r#"<a>; rel="other", <b>; rel="xet-auth", <c>; rel="xet-reconstruction-info""#;
    assert_eq!(parse_link_header_for_xet_auth(link), Some("b".to_string()));

    let no_auth = r#"<a>; rel="other", <c>; rel="xet-reconstruction-info""#;
    assert_eq!(parse_link_header_for_xet_auth(no_auth), None);
}

#[test]
fn link_header_accepts_single_quotes() {
    let link = r#"<https://hub/xet-auth>; rel='xet-auth'"#;
    assert_eq!(
        parse_link_header_for_xet_auth(link),
        Some("https://hub/xet-auth".to_string())
    );
}

#[test]
fn link_header_relation_is_case_sensitive() {
    let link = r#"<https://hub/xet-auth>; rel="XET-AUTH""#;
    assert_eq!(parse_link_header_for_xet_auth(link), None);
}

#[test]
fn link_header_entry_without_url_is_skipped() {
    // The selected entry delimits no URL; a later well-formed entry wins.
    let link = r#"no-brackets; rel="xet-auth", <https://hub/second>; rel="xet-auth""#;
    assert_eq!(
        parse_link_header_for_xet_auth(link),
        Some("https://hub/second".to_string())
    );
}

#[test]
fn file_data_prefers_link_header() {
    let mut headers = empty_headers();
    headers.xet_hash = Some("deadbeef".to_string());
    headers.link = Some(r#"<https://hub/xet-auth>; rel="xet-auth""#.to_string());
    headers.xet_refresh_route = Some("https://hub/fallback".to_string());

    let data = parse_xet_file_data_from_headers(&headers).unwrap();
    assert_eq!(data.file_hash, "deadbeef");
    assert_eq!(data.refresh_route, "https://hub/xet-auth");
}

#[test]
fn file_data_falls_back_to_refresh_route_header() {
    let mut headers = empty_headers();
    headers.xet_hash = Some("deadbeef".to_string());
    headers.xet_refresh_route = Some("https://hub/fallback".to_string());

    let data = parse_xet_file_data_from_headers(&headers).unwrap();
    assert_eq!(data.refresh_route, "https://hub/fallback");
}

#[test]
fn file_data_requires_hash_and_route() {
    let mut headers = empty_headers();
    headers.link = Some(r#"<https://hub/xet-auth>; rel="xet-auth""#.to_string());
    assert!(parse_xet_file_data_from_headers(&headers).is_none());

    let mut headers = empty_headers();
    headers.xet_hash = Some("deadbeef".to_string());
    assert!(parse_xet_file_data_from_headers(&headers).is_none());
}

#[test]
fn connection_info_requires_numeric_expiration() {
    let mut headers = empty_headers();
    headers.cas_url = Some("https://cas".to_string());
    headers.access_token = Some("t".to_string());
    headers.token_expiration = Some("soon".to_string());
    assert!(parse_xet_connection_info_from_headers(&headers).is_none());

    headers.token_expiration = Some("+42".to_string());
    let info = parse_xet_connection_info_from_headers(&headers).unwrap();
    assert_eq!(info.expiration_unix_epoch, 42);

    // Larger than u64 can hold.
    headers.token_expiration = Some("18446744073709551616".to_string());
    assert!(parse_xet_connection_info_from_headers(&headers).is_none());

    headers.token_expiration = Some("18446744073709551615".to_string());
    let info = parse_xet_connection_info_from_headers(&headers).unwrap();
    assert_eq!(info.expiration_unix_epoch, u64::MAX);
}

#[test]
fn error_codes_are_stable() {
    assert_eq!(XetErrorCode::Success.as_i32(), 0);
    assert_eq!(XetErrorCode::InvalidConfig.as_i32(), 1);
    assert_eq!(XetErrorCode::AuthFailed.as_i32(), 2);
    assert_eq!(XetErrorCode::NetworkError.as_i32(), 3);
    assert_eq!(XetErrorCode::NotFound.as_i32(), 4);
    assert_eq!(XetErrorCode::PermissionDenied.as_i32(), 5);
    assert_eq!(XetErrorCode::ChecksumMismatch.as_i32(), 6);
    assert_eq!(XetErrorCode::Cancelled.as_i32(), 7);
    assert_eq!(XetErrorCode::IoError.as_i32(), 8);
    assert_eq!(XetErrorCode::Unknown.as_i32(), 99);
}

#[test]
fn token_type_names() {
    assert_eq!(XetTokenType::Read.as_str(), "read");
    assert_eq!(XetTokenType::Write.as_str(), "write");
}

#[test]
fn token_route_url() {
    let url = xet::xet_integration::xet_token_url(
        "https://huggingface.co",
        "model",
        "org/model",
        XetTokenType::Read,
        "main",
    );
    assert_eq!(
        url,
        "https://huggingface.co/api/models/org/model/xet-read-token/main"
    );
}
