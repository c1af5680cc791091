use vcp_media_manager::api::{
    choose_server, create_device, delete_device, device_play_urls, device_server, first_server,
    new_device, server_detail, server_listing, stream_play_urls, update_device, upstream_for,
    ApiError, CreateDeviceRequest, HealthStatus, UpdateDeviceRequest,
};
use vcp_media_manager::config::{default_servers, servers_config_path, Config};
use vcp_media_manager::device_store::DeviceStore;
use vcp_media_manager::model::{Device, MediaServerInstance, Region};
use vcp_media_manager::registry::{MediaServerRegistry, RegistryError};

fn region(id: &str, name: &str) -> Region {
    Region { id: id.to_string(), name: name.to_string() }
}

fn node(id: &str, region_id: &str, port: u16) -> MediaServerInstance {
    MediaServerInstance {
        id: id.to_string(),
        region_id: region_id.to_string(),
        name: format!("node {id}"),
        api_url: format!("http://127.0.0.1:{port}"),
        public_host: "127.0.0.1".to_string(),
        rtmp_port: 1935,
        rtsp_port: 554,
        webrtc_port: 9080,
    }
}

fn registry() -> MediaServerRegistry {
    MediaServerRegistry::from_config(
        vec![region("cn-east", "华东"), region("cn-north", "华北"), region("empty", "空")],
        vec![node("e1", "cn-east", 8081), node("n1", "cn-north", 8082), node("e2", "cn-east", 8083)],
    )
}

fn device(id: &str, server: &str, region_id: &str) -> Device {
    Device {
        id: id.to_string(),
        name: id.to_string(),
        region_id: region_id.to_string(),
        server_id: server.to_string(),
        description: None,
        created_at: "t0".to_string(),
        updated_at: "t0".to_string(),
    }
}

fn create_request(id: &str, region_id: &str, server_id: Option<&str>) -> CreateDeviceRequest {
    CreateDeviceRequest {
        id: id.to_string(),
        name: "  Camera  ".to_string(),
        region_id: region_id.to_string(),
        server_id: server_id.map(|s| s.to_string()),
        description: Some("  front door ".to_string()),
    }
}

fn bad_request(e: ApiError) -> String {
    assert_eq!(e.status(), 400);
    match e {
        ApiError::BadRequest(m) => m,
        _ => unreachable!(),
    }
}

#[test]
fn registry_lists_nodes_and_regions() {
    let r = registry();
    assert_eq!(r.regions().len(), 3);
    let ids: Vec<&str> = r.list_servers().iter().map(|s| s.id.as_str()).collect();
    assert_eq!(ids, vec!["e1", "n1", "e2"]);
    let east: Vec<&str> = r.servers_in_region("cn-east").iter().map(|s| s.id.as_str()).collect();
    assert_eq!(east, vec!["e1", "e2"]);
    assert_eq!(r.get_server("n1").unwrap().api_url, "http://127.0.0.1:8082");
    assert!(r.get_server("zz").is_none());
    assert_eq!(r.default_server_for_region("cn-east").ok().unwrap().id, "e1");
    match r.default_server_for_region("empty") {
        Err(e @ RegistryError::NoServerForRegion(_)) => {
            assert_eq!(e.message(), "no media server configured for region empty")
        }
        Ok(_) => panic!("server for empty region"),
        Err(_) => panic!("wrong error"),
    }
    assert!(r.knows_region("cn-north"));
    assert!(!r.knows_region("cn-south"));
    assert_eq!(r.region_name("cn-north"), "华北");
    assert_eq!(r.region_name("mars"), "mars");
}

#[test]
fn last_node_with_an_id_wins() {
    let r = MediaServerRegistry::from_config(
        vec![region("r", "R")],
        vec![node("a", "r", 1), node("b", "r", 2), node("a", "r", 3)],
    );
    assert_eq!(r.list_servers().len(), 2);
    assert_eq!(r.get_server("a").unwrap().api_url, "http://127.0.0.1:3");
}

#[test]
fn server_choice_follows_the_rules() {
    let r = registry();
    assert_eq!(choose_server(&r, "cn-east", &None).ok().unwrap().id, "e1");
    assert_eq!(choose_server(&r, "cn-east", &Some("e2".to_string())).ok().unwrap().id, "e2");
    assert_eq!(bad_request(choose_server(&r, "mars", &None).err().unwrap()), "unknown region: mars");
    assert_eq!(
        bad_request(choose_server(&r, "cn-east", &Some("zz".to_string())).err().unwrap()),
        "unknown server: zz"
    );
    assert_eq!(
        bad_request(choose_server(&r, "empty", &None).err().unwrap()),
        "no media server configured for region empty"
    );
    assert_eq!(
        bad_request(choose_server(&r, "cn-east", &Some("n1".to_string())).err().unwrap()),
        "server n1 does not belong to region cn-east"
    );
}

#[test]
fn new_device_is_trimmed_and_stamped() {
    let r = registry();
    let d = new_device(&r, create_request("  cam-1 ", "cn-east", None), "T".to_string()).ok().unwrap();
    assert_eq!(d.id, "cam-1");
    assert_eq!(d.name, "Camera");
    assert_eq!(d.server_id, "e1");
    assert_eq!(d.region_id, "cn-east");
    assert_eq!(d.description.as_deref(), Some("front door"));
    assert_eq!(d.created_at, "T");
    assert_eq!(d.updated_at, "T");
    let mut req = create_request("cam-2", "cn-east", Some("e2"));
    req.description = Some("   ".to_string());
    let d = new_device(&r, req, "T".to_string()).ok().unwrap();
    assert!(d.description.is_none());
    assert_eq!(d.server_id, "e2");
}

#[test]
fn blank_device_id_is_refused_first() {
    let r = registry();
    let e = new_device(&r, create_request("   ", "mars", None), "T".to_string()).err().unwrap();
    assert_eq!(bad_request(e), "device id is required");
}

#[test]
fn create_device_adds_to_the_store() {
    let r = registry();
    let mut store = DeviceStore::new(String::new(), Vec::new());
    let d = create_device(&mut store, &r, create_request("cam-1", "cn-north", None)).ok().unwrap();
    assert_eq!(d.server_id, "n1");
    assert_eq!(d.created_at, d.updated_at);
    assert_eq!(store.get("cam-1").unwrap().name, "Camera");
    let e = create_device(&mut store, &r, create_request(" cam-1", "cn-north", None)).err().unwrap();
    assert_eq!(bad_request(e), "device already exists: cam-1");
    let e = create_device(&mut store, &r, create_request("cam-2", "mars", None)).err().unwrap();
    assert_eq!(bad_request(e), "unknown region: mars");
    assert_eq!(store.list().len(), 1);
}

#[test]
fn update_device_rules() {
    let r = registry();
    let mut store = DeviceStore::new(String::new(), vec![device("cam-1", "e1", "cn-east")]);
    let req = UpdateDeviceRequest {
        name: " Lobby ".to_string(),
        region_id: "cn-north".to_string(),
        server_id: None,
        description: None,
    };
    let d = update_device(&mut store, &r, "cam-1", req).ok().unwrap();
    assert_eq!(d.id, "cam-1");
    assert_eq!(d.name, "Lobby");
    assert_eq!(d.server_id, "n1");
    assert_eq!(d.created_at, "t0");
    assert_eq!(store.get("cam-1").unwrap().region_id, "cn-north");

    let req = UpdateDeviceRequest {
        name: "x".to_string(),
        region_id: "cn-north".to_string(),
        server_id: None,
        description: None,
    };
    let e = update_device(&mut store, &r, "cam-9", req).err().unwrap();
    assert_eq!(e.status(), 404);
    assert_eq!(e.message(), "device not found: cam-9");

    let req = UpdateDeviceRequest {
        name: "x".to_string(),
        region_id: "cn-north".to_string(),
        server_id: Some("e1".to_string()),
        description: None,
    };
    let e = update_device(&mut store, &r, "cam-1", req).err().unwrap();
    assert_eq!(bad_request(e), "server e1 does not belong to region cn-north");
    assert_eq!(store.get("cam-1").unwrap().name, "Lobby");
}

#[test]
fn delete_device_rules() {
    let mut store = DeviceStore::new(String::new(), vec![device("cam-1", "e1", "cn-east")]);
    assert!(delete_device(&mut store, "cam-1").is_ok());
    let e = delete_device(&mut store, "cam-1").err().unwrap();
    assert_eq!(e.status(), 404);
    assert_eq!(e.message(), "device not found: cam-1");
}

#[test]
fn device_play_urls_use_the_device_node() {
    let r = registry();
    let store = DeviceStore::new(
        String::new(),
        vec![device("cam-1", "n1", "cn-north"), device("cam-2", "gone", "cn-north")],
    );
    let (d, urls) = device_play_urls(&store, &r, "cam-1").ok().unwrap();
    assert_eq!(d.id, "cam-1");
    assert_eq!(urls.http_flv.as_deref(), Some("http://127.0.0.1:8082/flv/cam-1"));
    let e = device_play_urls(&store, &r, "cam-2").err().unwrap();
    assert_eq!(bad_request(e), "unknown server: gone");
    let e = device_play_urls(&store, &r, "cam-3").err().unwrap();
    assert_eq!(e.status(), 404);
    assert_eq!(e.message(), "device not found: cam-3");
}

#[test]
fn stream_play_urls_fall_back_to_the_first_node() {
    let r = registry();
    let store = DeviceStore::new(String::new(), vec![device("cam-1", "n1", "cn-north")]);
    let a = stream_play_urls(&store, &r, "cam-1").ok().unwrap();
    assert_eq!(a.device_id.as_deref(), Some("cam-1"));
    assert_eq!(a.play_urls.hls.as_deref(), Some("http://127.0.0.1:8082/hls/cam-1/live.m3u8"));
    let b = stream_play_urls(&store, &r, "other").ok().unwrap();
    assert_eq!(b.stream_id, "other");
    assert!(b.device_id.is_none());
    assert_eq!(b.play_urls.rtsp, "rtsp://127.0.0.1:554/other");
    assert_eq!(b.play_urls.http_flv.as_deref(), Some("http://127.0.0.1:8081/flv/other"));
    let empty = MediaServerRegistry::from_config(Vec::new(), Vec::new());
    let e = stream_play_urls(&store, &empty, "x").err().unwrap();
    assert_eq!(e.status(), 404);
    assert_eq!(e.message(), "no media server configured");
}

#[test]
fn stream_requests_are_routed_to_the_device_node() {
    let r = registry();
    let store = DeviceStore::new(
        String::new(),
        vec![device("cam-1", "n1", "cn-north"), device("cam-2", "gone", "cn-north")],
    );
    assert_eq!(device_server(&store, &r, "cam-1").unwrap().id, "n1");
    assert!(device_server(&store, &r, "cam-2").is_none());
    assert_eq!(upstream_for(&store, &r, "cam-1").ok().unwrap().id, "n1");
    assert_eq!(upstream_for(&store, &r, "cam-2").ok().unwrap().id, "e1");
    assert_eq!(upstream_for(&store, &r, "nobody").ok().unwrap().id, "e1");
    assert_eq!(first_server(&r).ok().unwrap().id, "e1");
    let empty = MediaServerRegistry::from_config(Vec::new(), Vec::new());
    let e = upstream_for(&store, &empty, "cam-1").err().unwrap();
    assert_eq!(e.status(), 503);
    assert_eq!(e.message(), "no media server configured");
}

#[test]
fn node_listing_is_sorted_and_counts_devices() {
    let r = MediaServerRegistry::from_config(
        vec![region("r", "R")],
        vec![node("zeta", "r", 8081), node("alpha", "r", 9000), node("mid", "r", 8082)],
    );
    let devices = vec![device("a", "zeta", "r"), device("b", "zeta", "r"), device("c", "alpha", "r")];
    let statuses = vec![HealthStatus::Healthy, HealthStatus::Unhealthy, HealthStatus::Misconfigured];
    let ids = |xs: &[&str]| Some(xs.iter().map(|x| x.to_string()).collect::<Vec<String>>());
    let reports = vec![ids(&["s1", "s2", "s3"]), None, ids(&["s4"])];
    let lines = server_listing(&r, &devices, &statuses, &reports);
    let ids: Vec<&str> = lines.iter().map(|l| l.id.as_str()).collect();
    assert_eq!(ids, vec!["alpha", "mid", "zeta"]);
    assert_eq!(lines[0].status, "unhealthy");
    assert_eq!(lines[0].device_count, 1);
    assert_eq!(lines[0].http_port, 9000);
    assert_eq!(lines[1].status, "misconfigured");
    assert_eq!(lines[1].stream_count, 1);
    assert_eq!(lines[2].status, "healthy");
    assert_eq!(lines[2].device_count, 2);
    assert_eq!(lines[2].stream_count, 3);
}

#[test]
fn node_detail() {
    let r = registry();
    let devices = vec![device("a", "n1", "cn-north"), device("b", "e1", "cn-east")];
    let d = server_detail(&r, &devices, "n1", &HealthStatus::Unknown).ok().unwrap();
    assert_eq!(d.region_name, "华北");
    assert_eq!(d.status, "unknown");
    assert_eq!(d.http_port, 8082);
    assert_eq!(d.devices.len(), 1);
    assert_eq!(d.devices[0].id, "a");
    let e = server_detail(&r, &devices, "zz", &HealthStatus::Healthy).err().unwrap();
    assert_eq!(e.status(), 404);
    assert_eq!(e.message(), "media server not found: zz");
}

#[test]
fn configuration_defaults() {
    let c = default_servers(None, None);
    assert_eq!(c.regions.len(), 1);
    assert_eq!(c.regions[0].id, "default");
    assert_eq!(c.regions[0].name, "默认区域");
    assert_eq!(c.servers[0].id, "default-01");
    assert_eq!(c.servers[0].name, "本地节点");
    assert_eq!(c.servers[0].api_url, "http://127.0.0.1:8081");
    assert_eq!(c.servers[0].public_host, "127.0.0.1");
    assert_eq!(c.servers[0].rtmp_port, 1935);
    assert_eq!(c.servers[0].rtsp_port, 554);
    assert_eq!(c.servers[0].webrtc_port, 9080);
    let c = default_servers(Some("http://m:1".to_string()), Some("h".to_string()));
    assert_eq!(c.servers[0].api_url, "http://m:1");
    assert_eq!(c.servers[0].public_host, "h");

    let cfg = Config::from_values(None, None, default_servers(None, None));
    assert_eq!(cfg.port, 8090);
    assert_eq!(cfg.devices_file, "data/devices.json");
    let cfg = Config::from_values(Some("9091"), Some("d.json".to_string()), default_servers(None, None));
    assert_eq!(cfg.port, 9091);
    assert_eq!(cfg.devices_file, "d.json");
    let cfg = Config::from_values(Some("port"), None, default_servers(None, None));
    assert_eq!(cfg.port, 8090);
    assert_eq!(servers_config_path(None), "servers.json");
    assert_eq!(servers_config_path(Some("x.json".to_string())), "x.json");
}
