use vcp_media_manager::client::{base_url_of, normalize_path, request_url};
use vcp_media_manager::model::{default_webrtc_port, parse_port_from_url, MediaServerInstance};
use vcp_media_manager::play_urls::build_play_urls;
use vcp_media_manager::text::{chars_of, is_blank, parse_u16, text_less, trimmed};

fn node(api_url: &str) -> MediaServerInstance {
    MediaServerInstance {
        id: "cn-east-01".to_string(),
        region_id: "cn-east".to_string(),
        name: "华东节点 1".to_string(),
        api_url: api_url.to_string(),
        public_host: "10.0.0.5".to_string(),
        rtmp_port: 1935,
        rtsp_port: 554,
        webrtc_port: 9080,
    }
}

fn parse(s: &str) -> Option<u16> {
    let v = chars_of(s);
    parse_u16(&v, 0, v.len())
}

#[test]
fn port_is_read_from_api_url() {
    assert_eq!(parse_port_from_url("http://127.0.0.1:8081", 1), 8081);
    assert_eq!(parse_port_from_url("http://127.0.0.1:9000/api", 1), 9000);
    assert_eq!(parse_port_from_url("https://media.example.com:443/", 1), 443);
}

#[test]
fn port_defaults_when_url_names_none() {
    assert_eq!(parse_port_from_url("http://127.0.0.1", 8081), 8081);
    assert_eq!(parse_port_from_url("http://media.example.com/api", 7), 7);
    assert_eq!(parse_port_from_url("", 7), 7);
}

#[test]
fn port_defaults_when_not_a_number() {
    assert_eq!(parse_port_from_url("http://host:abc", 7), 7);
    assert_eq!(parse_port_from_url("http://host:", 7), 7);
    assert_eq!(parse_port_from_url("http://host:70000", 7), 7);
    assert_eq!(parse_port_from_url("http://host:-1", 7), 7);
}

#[test]
fn port_edge_cases_follow_the_url_rules() {
    // No scheme: the whole text is the authority up to the first '/'.
    assert_eq!(parse_port_from_url("localhost:3000/x", 7), 3000);
    // A '+' sign is accepted, as `u16::from_str` accepts it.
    assert_eq!(parse_port_from_url("http://host:+80", 7), 80);
    // The last ':' of the authority counts.
    assert_eq!(parse_port_from_url("http://[::1]:8082", 7), 8082);
    // Text after a second "//" is not part of the authority.
    assert_eq!(parse_port_from_url("http://host//x:99", 7), 7);
    assert_eq!(parse_port_from_url("http://host:65535", 7), 65535);
}

#[test]
fn u16_parsing() {
    assert_eq!(parse("0"), Some(0));
    assert_eq!(parse("0080"), Some(80));
    assert_eq!(parse("65535"), Some(65535));
    assert_eq!(parse("65536"), None);
    assert_eq!(parse("+7"), Some(7));
    assert_eq!(parse("+"), None);
    assert_eq!(parse(""), None);
    assert_eq!(parse(" 1"), None);
    assert_eq!(parse("1a"), None);
    assert_eq!(parse("99999999999999999999"), None);
}

#[test]
fn http_port_of_a_node() {
    assert_eq!(node("http://127.0.0.1:8081").http_port(), 8081);
    assert_eq!(node("http://127.0.0.1:9999/").http_port(), 9999);
    assert_eq!(node("http://127.0.0.1").http_port(), 8081);
    assert_eq!(default_webrtc_port(), 9080);
}

#[test]
fn play_urls_of_a_stream() {
    let urls = build_play_urls(&node("http://127.0.0.1:8081"), "cam-1");
    assert_eq!(urls.rtmp, "rtmp://10.0.0.5:1935/live/cam-1");
    assert_eq!(urls.rtsp, "rtsp://10.0.0.5:554/cam-1");
    assert_eq!(urls.http_flv.as_deref(), Some("http://10.0.0.5:8081/flv/cam-1"));
    assert_eq!(urls.hls.as_deref(), Some("http://10.0.0.5:8081/hls/cam-1/live.m3u8"));
    assert_eq!(urls.webrtc_test_page, "http://10.0.0.5:8081/webrtc/webrtc-test.html");
    assert_eq!(urls.webrtc_signaling_url, "");
}

#[test]
fn play_urls_use_the_api_port_for_http() {
    let urls = build_play_urls(&node("http://media:7000/api"), "s");
    assert_eq!(urls.http_flv.as_deref(), Some("http://10.0.0.5:7000/flv/s"));
    assert_eq!(urls.rtmp, "rtmp://10.0.0.5:1935/live/s");
    let urls = build_play_urls(&node("http://media"), "s");
    assert_eq!(urls.webrtc_test_page, "http://10.0.0.5:8081/webrtc/webrtc-test.html");
}

#[test]
fn paths_and_base_urls() {
    assert_eq!(normalize_path("api/streams"), "/api/streams");
    assert_eq!(normalize_path("/api/streams"), "/api/streams");
    assert_eq!(normalize_path(""), "/");
    assert_eq!(normalize_path(&normalize_path("x")), "/x");
    assert_eq!(base_url_of("http://h:1///"), "http://h:1");
    assert_eq!(base_url_of("http://h:1"), "http://h:1");
    assert_eq!(request_url("http://h:1", "health"), "http://h:1/health");
    assert_eq!(request_url(&base_url_of("http://h:1/"), "/api/metrics"), "http://h:1/api/metrics");
}

#[test]
fn trimming_and_ordering() {
    assert_eq!(trimmed("  cam 1 \t\n"), "cam 1");
    assert_eq!(trimmed("\u{3000}x\u{a0}"), "x");
    assert_eq!(trimmed("   "), "");
    assert!(is_blank(" \n "));
    assert!(!is_blank(" a "));
    assert!(text_less("a", "b"));
    assert!(text_less("a", "ab"));
    assert!(!text_less("ab", "a"));
    assert!(!text_less("a", "a"));
    assert!(text_less("Z", "a"));
    assert_eq!(text_less("é", "z"), "é" < "z");
}
