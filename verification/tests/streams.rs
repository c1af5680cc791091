use vcp_media_manager::api::{
    add_node_streams, check_create, device_with_lookup, device_with_stream, find_server, node_metrics,
    stream_lookup, health_entry, node_health, node_streams, create_device_at, next_stream_step, sort_devices, stream_reply,
    update_device_at, ApiError, CreateDeviceRequest, HealthCheck, HealthStatus, StreamStep,
    UpdateDeviceRequest,
};
use vcp_media_manager::client::{
    play_urls_path, sessions_parse_error, stream_path, transcode_parse_error, UpstreamError,
};
use vcp_media_manager::registry::RegistryError;
use vcp_media_manager::device_store::DeviceStore;
use vcp_media_manager::json::Json;
use vcp_media_manager::model::{Device, DeviceWithStream, MediaServerInstance, Region};
use vcp_media_manager::play_urls::{build_play_urls, play_urls_json};
use vcp_media_manager::registry::{ClientTable, MediaServerRegistry};

fn node(id: &str, region_id: &str, port: u16) -> MediaServerInstance {
    MediaServerInstance {
        id: id.to_string(),
        region_id: region_id.to_string(),
        name: id.to_string(),
        api_url: format!("http://10.0.0.1:{port}"),
        public_host: "media.local".to_string(),
        rtmp_port: 1935,
        rtsp_port: 554,
        webrtc_port: 9080,
    }
}

fn two_nodes() -> MediaServerRegistry {
    MediaServerRegistry::from_config(
        vec![Region { id: "r1".to_string(), name: "R1".to_string() }],
        vec![node("a", "r1", 8081), node("b", "r1", 8082)],
    )
}

fn device(id: &str, server: &str, region_id: &str) -> Device {
    Device {
        id: id.to_string(),
        name: id.to_string(),
        region_id: region_id.to_string(),
        server_id: server.to_string(),
        description: None,
        created_at: "t0".to_string(),
        updated_at: "t0".to_string(),
    }
}

fn text(v: &Json, key: &str) -> Option<String> {
    v.str_member(key)
}

#[test]
fn stream_queries_go_to_the_device_node_alone() {
    let r = two_nodes();
    let store = DeviceStore::new(String::new(), vec![device("cam", "b", "r1")]);
    match next_stream_step(&store, &r, "cam", None) {
        StreamStep::AskDeviceNode(server, d) => {
            assert_eq!(server.id, "b");
            assert_eq!(d.id, "cam");
        }
        _ => panic!("device node first"),
    }
}

#[test]
fn stream_queries_without_device_try_every_node_in_order() {
    let r = two_nodes();
    let store = DeviceStore::new(String::new(), vec![device("cam", "gone", "r1")]);
    match next_stream_step(&store, &r, "cam", None) {
        StreamStep::AskNode(0, server) => assert_eq!(server.id, "a"),
        _ => panic!("first node"),
    }
    match next_stream_step(&store, &r, "cam", Some((0, false))) {
        StreamStep::AskNode(1, server) => assert_eq!(server.id, "b"),
        _ => panic!("second node"),
    }
    assert!(matches!(next_stream_step(&store, &r, "cam", Some((1, false))), StreamStep::NotFound));
    assert!(matches!(next_stream_step(&store, &r, "cam", Some((0, true))), StreamStep::Answered));
    let empty = MediaServerRegistry::from_config(Vec::new(), Vec::new());
    assert!(matches!(next_stream_step(&store, &empty, "cam", None), StreamStep::NotFound));
}

#[test]
fn play_urls_in_json() {
    let urls = build_play_urls(&node("a", "r1", 8081), "s1");
    let v = play_urls_json(&urls);
    assert_eq!(text(&v, "rtmp").as_deref(), Some("rtmp://media.local:1935/live/s1"));
    assert_eq!(text(&v, "rtsp").as_deref(), Some("rtsp://media.local:554/s1"));
    assert_eq!(text(&v, "httpFlv").as_deref(), Some("http://media.local:8081/flv/s1"));
    assert_eq!(text(&v, "hls").as_deref(), Some("http://media.local:8081/hls/s1/live.m3u8"));
    assert_eq!(text(&v, "webrtcTestPage").as_deref(), Some("http://media.local:8081/webrtc/webrtc-test.html"));
    assert_eq!(text(&v, "webrtcSignalingUrl").as_deref(), Some(""));
}

#[test]
fn stream_replies_are_marked_with_device_and_node() {
    let server = node("b", "r1", 8082);
    let d = device("cam", "b", "r-device");
    let reply = Json::Object(vec![("status".to_string(), Json::Str("live".to_string()))]);
    let v = stream_reply(reply, &server, "cam", Some(&d));
    assert_eq!(text(&v, "status").as_deref(), Some("live"));
    assert_eq!(text(&v, "deviceId").as_deref(), Some("cam"));
    assert_eq!(text(&v, "serverId").as_deref(), Some("b"));
    assert_eq!(text(&v, "regionId").as_deref(), Some("r-device"));
    let urls = v.get("playUrls").unwrap();
    assert_eq!(text(urls, "rtmp").as_deref(), Some("rtmp://media.local:1935/live/cam"));

    let v = stream_reply(Json::Null, &server, "other", None);
    assert!(v.get("deviceId").is_none());
    assert_eq!(text(&v, "serverId").as_deref(), Some("b"));
    assert_eq!(text(&v, "regionId").as_deref(), Some("r1"));
    assert_eq!(text(v.get("playUrls").unwrap(), "hls").as_deref(), Some("http://media.local:8082/hls/other/live.m3u8"));
}

#[test]
fn stream_lists_are_gathered_until_an_error() {
    let server = node("a", "r1", 8081);
    let reply = Json::Object(vec![(
        "streams".to_string(),
        Json::Array(vec![
            Json::Object(vec![("id".to_string(), Json::Str("s1".to_string()))]),
            Json::Str("loose".to_string()),
        ]),
    )]);
    let all = add_node_streams(vec![Json::Null], &server, Ok((200, reply))).ok().unwrap();
    assert_eq!(all.len(), 3);
    assert!(matches!(all[0], Json::Null));
    assert_eq!(text(&all[1], "serverId").as_deref(), Some("a"));
    assert_eq!(text(&all[1], "regionId").as_deref(), Some("r1"));
    assert!(matches!(&all[2], Json::Str(t) if t == "loose"));
    let kept = add_node_streams(all, &server, Ok((204, Json::Null))).ok().unwrap();
    assert_eq!(kept.len(), 3);
    let e = add_node_streams(kept, &server, Err(UpstreamError { status: 502, body: "down".to_string() }))
        .err()
        .unwrap();
    assert_eq!((e.status, e.body.as_str()), (502, "down"));
}

#[test]
fn clients_pair_with_listed_nodes() {
    let r = two_nodes();
    let table = ClientTable::for_servers(&r, vec!["client-a", "client-b"]);
    assert_eq!(table.get_client("a"), Some(&"client-a"));
    assert_eq!(table.get_client("b"), Some(&"client-b"));
    assert_eq!(table.get_client("c"), None);
}

#[test]
fn listings_keep_the_order_of_equal_ids() {
    let entry = |id: &str, name: &str| DeviceWithStream {
        device: Device { name: name.to_string(), ..device(id, "a", "r1") },
        stream_online: false,
        stream: None,
    };
    let sorted = sort_devices(vec![entry("b", "1"), entry("a", "2"), entry("b", "3"), entry("a", "4")]);
    let names: Vec<&str> = sorted.iter().map(|d| d.device.name.as_str()).collect();
    assert_eq!(names, vec!["2", "4", "1", "3"]);
}

#[test]
fn devices_are_stamped_with_the_given_time() {
    let r = two_nodes();
    let mut store = DeviceStore::new(String::new(), Vec::new());
    let req = CreateDeviceRequest {
        id: " cam ".to_string(),
        name: "Cam".to_string(),
        region_id: "r1".to_string(),
        server_id: None,
        description: None,
    };
    assert!(check_create(&r, &req).is_ok());
    let d = create_device_at(&mut store, &r, req, "2024-05-01T00:00:00+00:00".to_string()).ok().unwrap();
    assert_eq!(d.id, "cam");
    assert_eq!(d.server_id, "a");
    assert_eq!(d.created_at, "2024-05-01T00:00:00+00:00");
    assert_eq!(d.updated_at, "2024-05-01T00:00:00+00:00");
    let req = UpdateDeviceRequest {
        name: "Cam 2".to_string(),
        region_id: "r1".to_string(),
        server_id: Some("b".to_string()),
        description: None,
    };
    let u = update_device_at(&mut store, &r, "cam", req, "2024-06-01T00:00:00+00:00".to_string()).ok().unwrap();
    assert_eq!(u.created_at, "2024-05-01T00:00:00+00:00");
    assert_eq!(u.updated_at, "2024-06-01T00:00:00+00:00");
    assert_eq!(u.server_id, "b");
    let bad = CreateDeviceRequest {
        id: "  ".to_string(),
        name: "x".to_string(),
        region_id: "r1".to_string(),
        server_id: None,
        description: None,
    };
    match check_create(&r, &bad) {
        Err(ApiError::BadRequest(m)) => assert_eq!(m, "device id is required"),
        _ => panic!("blank id accepted"),
    }
    let e = ApiError::Internal("failed to read the system clock".to_string());
    assert_eq!(e.status(), 500);
}

#[test]
fn node_details_list_the_reported_streams() {
    let reply = Json::Object(vec![("streams".to_string(), Json::Array(vec![Json::Null, Json::Bool(true)]))]);
    assert_eq!(node_streams(Ok((200, reply))).len(), 2);
    assert_eq!(node_streams(Ok((200, Json::Null))).len(), 0);
    assert_eq!(node_streams(Err(UpstreamError { status: 502, body: String::new() })).len(), 0);
}

#[test]
fn health_entries_describe_each_check() {
    let server = node("a", "r1", 8081);
    let (status, v) = health_entry(&server, HealthCheck::Answered(Json::Bool(true)));
    assert!(matches!(status, HealthStatus::Healthy));
    assert_eq!(text(&v, "serverId").as_deref(), Some("a"));
    assert_eq!(text(&v, "regionId").as_deref(), Some("r1"));
    assert_eq!(text(&v, "apiUrl").as_deref(), Some("http://10.0.0.1:8081"));
    assert_eq!(text(&v, "status").as_deref(), Some("healthy"));
    assert!(matches!(v.get("detail"), Some(Json::Bool(true))));
    let down = UpstreamError { status: 502, body: "down".to_string() };
    let (status, v) = health_entry(&server, HealthCheck::Failed(down));
    assert!(matches!(status, HealthStatus::Unhealthy));
    assert_eq!(text(&v, "error").as_deref(), Some("upstream HTTP 502 Bad Gateway: down"));
    let (status, v) = health_entry(&server, HealthCheck::NoClient);
    assert!(matches!(status, HealthStatus::Misconfigured));
    assert_eq!(text(&v, "status").as_deref(), Some("misconfigured"));
    assert!(v.get("name").is_none());

    let (status, v) = node_health(None, HealthCheck::NoClient);
    assert!(matches!(status, HealthStatus::Unknown));
    assert_eq!(text(&v, "status").as_deref(), Some("unknown"));
    let (status, v) = node_health(Some(&server), HealthCheck::NoClient);
    assert!(matches!(status, HealthStatus::Misconfigured));
    assert_eq!(text(&v, "apiUrl").as_deref(), Some("http://10.0.0.1:8081"));
    let failed = UpstreamError { status: 404, body: "x".to_string() };
    let (_, v) = node_health(Some(&server), HealthCheck::Failed(failed));
    assert_eq!(text(&v, "error").as_deref(), Some("upstream HTTP 404 Not Found: x"));
}

#[test]
fn upstream_errors_read_as_http_does() {
    let e = UpstreamError { status: 503, body: "busy".to_string() };
    assert_eq!(e.message(), "upstream HTTP 503 Service Unavailable: busy");
    let e = UpstreamError { status: 299, body: String::new() };
    assert_eq!(e.message(), "upstream HTTP 299 <unknown status code>: ");
    assert_eq!(sessions_parse_error("bad").body, "failed to parse sessions: bad");
    assert_eq!(sessions_parse_error("bad").status, 500);
    assert_eq!(transcode_parse_error("x").body, "failed to parse transcode response: x");
    assert_eq!(stream_path("cam"), "/api/stream/cam");
    assert_eq!(play_urls_path("cam"), "/api/play-urls/cam");
}

#[test]
fn node_metrics_and_stream_lookups() {
    let v = node_metrics("a", Some(Ok((200, Json::Bool(true)))));
    assert!(matches!(v, Json::Bool(true)));
    let v = node_metrics("a", Some(Err(UpstreamError { status: 500, body: "oops".to_string() })));
    assert_eq!(text(&v, "error").as_deref(), Some("upstream HTTP 500 Internal Server Error: oops"));
    let v = node_metrics("a", None);
    assert_eq!(text(&v, "error").as_deref(), Some("unknown server: a"));

    match stream_lookup("a", None) {
        Err(e @ RegistryError::UnknownServer(_)) => assert_eq!(e.message(), "unknown server: a"),
        _ => panic!("unknown server"),
    }
    let reply = Json::Object(vec![("protocol".to_string(), Json::Str("rtmp".to_string()))]);
    let info = stream_lookup("a", Some(Ok((200, reply)))).ok().unwrap().unwrap();
    assert_eq!(info.protocol.as_deref(), Some("rtmp"));
    assert!(stream_lookup("a", Some(Err(UpstreamError { status: 404, body: String::new() })))
        .ok()
        .unwrap()
        .is_none());

    let r = two_nodes();
    assert_eq!(find_server(&r, "b").ok().unwrap().id, "b");
    let e = find_server(&r, "z").err().unwrap();
    assert_eq!((e.status(), e.message().as_str()), (404, "media server not found: z"));
}

#[test]
fn device_entries_carry_stream_details_only_when_online() {
    let reports = vec![("a".to_string(), vec!["cam".to_string()])];
    let info = || {
        stream_lookup("a", Some(Ok((200, Json::Object(vec![("status".to_string(), Json::Str("on".to_string()))])))))
    };
    let e = device_with_stream(&reports, device("cam", "a", "r1"), Some(info()));
    assert!(e.stream_online);
    assert_eq!(e.stream.unwrap().status.as_deref(), Some("on"));
    let e = device_with_stream(&reports, device("other", "a", "r1"), Some(info()));
    assert!(!e.stream_online && e.stream.is_none());
    let e = device_with_lookup(device("cam", "a", "r1"), info());
    assert!(e.stream_online && e.stream.is_some());
    let e = device_with_lookup(device("cam", "a", "r1"), stream_lookup("a", None));
    assert!(!e.stream_online && e.stream.is_none());
}
