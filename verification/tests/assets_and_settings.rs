use session_auth::assets::favicon;
use session_auth::assets::handle_assets;
use session_auth::assets::theme_css;
use session_auth::settings::parse_port;
use session_auth::settings::Settings;
use session_auth::settings::DEFAULT_PORT;

#[test]
fn theme_css_is_served_as_css() {
    let r = handle_assets(&String::from("theme.css"));
    assert_eq!(r.status, 200);
    assert_eq!(r.content_type, Some(String::from("text/css")));
    assert_eq!(r.body, theme_css());
}

#[test]
fn favicon_is_served_without_content_type() {
    let r = handle_assets(&String::from("favicon.svg"));
    assert_eq!(r.status, 200);
    assert_eq!(r.content_type, None);
    assert_eq!(r.body, favicon());
}

#[test]
fn unknown_asset_is_an_empty_404() {
    let r = handle_assets(&String::from("unknown.txt"));
    assert_eq!(r.status, 404);
    assert_eq!(r.content_type, None);
    assert_eq!(r.body, "");
}

#[test]
fn empty_configuration_falls_back_to_defaults() {
    let st = Settings::from_str("").unwrap();
    assert_eq!(st.ip, "127.0.0.1");
    assert_eq!(st.port, DEFAULT_PORT);
    assert_eq!(st.port, 3000);
}

#[test]
fn host_and_port_are_read_from_the_text() {
    let st = Settings::from_str("0.0.0.0:8080").unwrap();
    assert_eq!(st.ip, "0.0.0.0");
    assert_eq!(st.port, 8080);
}

#[test]
fn the_last_colon_splits_host_from_port() {
    let st = Settings::from_str("::1:8080").unwrap();
    assert_eq!(st.ip, "::1");
    assert_eq!(st.port, 8080);
}

#[test]
fn malformed_configuration_is_rejected() {
    // no colon at all
    assert!(Settings::from_str("localhost").is_none());
    // empty host
    assert!(Settings::from_str(":8080").is_none());
    // empty port
    assert!(Settings::from_str("localhost:").is_none());
    // not a numeral
    assert!(Settings::from_str("localhost:12ab").is_none());
    // out of range
    assert!(Settings::from_str("localhost:70000").is_none());
}

#[test]
fn port_numerals_parse_exactly() {
    assert_eq!(parse_port("0"), Some(0));
    assert_eq!(parse_port("80"), Some(80));
    assert_eq!(parse_port("65535"), Some(65535));
    assert_eq!(parse_port("65536"), None);
    assert_eq!(parse_port("99999999999999999999"), None);
    assert_eq!(parse_port(""), None);
    assert_eq!(parse_port("8x0"), None);
    assert_eq!(parse_port(" 80"), None);
}
