use vcp_media_manager::device_store::{now_rfc3339, rfc3339_from_clock, DeviceStore, StoreError};
use vcp_media_manager::model::Device;

fn device(id: &str, server: &str) -> Device {
    Device {
        id: id.to_string(),
        name: format!("device {id}"),
        region_id: "cn-east".to_string(),
        server_id: server.to_string(),
        description: None,
        created_at: "2024-01-01T00:00:00+00:00".to_string(),
        updated_at: "2024-01-01T00:00:00+00:00".to_string(),
    }
}

fn ids(store: &DeviceStore) -> Vec<String> {
    store.list().into_iter().map(|d| d.id).collect()
}

#[test]
fn created_device_can_be_read_back() {
    let mut store = DeviceStore::new("data/devices.json".to_string(), Vec::new());
    let created = store.create(device("cam-1", "s1")).ok().unwrap();
    assert_eq!(created.id, "cam-1");
    let got = store.get("cam-1").unwrap();
    assert_eq!(got.name, "device cam-1");
    assert_eq!(got.server_id, "s1");
    assert!(store.get("cam-2").is_none());
    assert_eq!(store.path(), "data/devices.json");
}

#[test]
fn creating_a_duplicate_is_refused() {
    let mut store = DeviceStore::new(String::new(), vec![device("cam-1", "s1")]);
    match store.create(device("cam-1", "s2")) {
        Err(e @ StoreError::AlreadyExists(_)) => {
            assert_eq!(e.message(), "device already exists: cam-1");
        }
        _ => panic!("duplicate accepted"),
    }
    assert_eq!(ids(&store), vec!["cam-1"]);
    assert_eq!(store.get("cam-1").unwrap().server_id, "s1");
}

#[test]
fn list_keeps_insertion_order() {
    let mut store = DeviceStore::new(String::new(), Vec::new());
    for id in ["b", "a", "c"] {
        assert!(store.create(device(id, "s1")).is_ok());
    }
    assert_eq!(ids(&store), vec!["b", "a", "c"]);
}

#[test]
fn update_keeps_id_and_creation_time() {
    let mut store = DeviceStore::new(String::new(), vec![device("cam-1", "s1")]);
    let mut changed = device("other", "s2");
    changed.name = "renamed".to_string();
    changed.created_at = "never".to_string();
    let updated = store.update_at("cam-1", changed, "2025-05-05T05:05:05+00:00".to_string()).ok().unwrap();
    assert_eq!(updated.id, "cam-1");
    assert_eq!(updated.name, "renamed");
    assert_eq!(updated.server_id, "s2");
    assert_eq!(updated.created_at, "2024-01-01T00:00:00+00:00");
    assert_eq!(updated.updated_at, "2025-05-05T05:05:05+00:00");
    let got = store.get("cam-1").unwrap();
    assert_eq!(got.name, "renamed");
    assert_eq!(ids(&store), vec!["cam-1"]);
}

#[test]
fn update_stamps_the_current_time() {
    let mut store = DeviceStore::new(String::new(), vec![device("cam-1", "s1")]);
    let updated = store.update("cam-1", device("x", "s1")).ok().unwrap();
    assert_ne!(updated.updated_at, "2024-01-01T00:00:00+00:00");
    assert!(updated.updated_at.starts_with("20"));
    assert!(updated.updated_at.ends_with("+00:00"));
    assert!(now_rfc3339().unwrap().ends_with("+00:00"));
}

#[test]
fn update_of_missing_device_is_refused() {
    let mut store = DeviceStore::new(String::new(), vec![device("cam-1", "s1")]);
    match store.update("cam-9", device("cam-9", "s1")) {
        Err(e @ StoreError::NotFound(_)) => assert_eq!(e.message(), "device not found: cam-9"),
        _ => panic!("missing device updated"),
    }
    assert_eq!(ids(&store), vec!["cam-1"]);
}

#[test]
fn delete_removes_every_device_with_the_id() {
    let mut store = DeviceStore::new(
        String::new(),
        vec![device("a", "s1"), device("b", "s1"), device("a", "s2")],
    );
    assert!(store.delete("a").is_ok());
    assert_eq!(ids(&store), vec!["b"]);
    assert!(store.get("a").is_none());
    match store.delete("a") {
        Err(e) => assert_eq!(e.message(), "device not found: a"),
        Ok(()) => panic!("deleted twice"),
    }
    assert_eq!(ids(&store), vec!["b"]);
}

#[test]
fn delete_undoes_create() {
    let mut store = DeviceStore::new(String::new(), vec![device("a", "s1")]);
    assert!(store.create(device("n", "s1")).is_ok());
    assert!(store.delete("n").is_ok());
    assert_eq!(ids(&store), vec!["a"]);
}

#[test]
fn lookup_finds_the_first_of_duplicate_ids() {
    let store = DeviceStore::new(String::new(), vec![device("a", "s1"), device("a", "s2")]);
    assert_eq!(store.get("a").unwrap().server_id, "s1");
}

#[test]
fn clock_readings_are_written_in_rfc3339() {
    assert_eq!(rfc3339_from_clock(Some((0, 0))).as_deref(), Some("1970-01-01T00:00:00+00:00"));
    assert_eq!(
        rfc3339_from_clock(Some((1_700_000_000, 500_000_000))).as_deref(),
        Some("2023-11-14T22:13:20.500+00:00")
    );
    assert_eq!(rfc3339_from_clock(None), None);
    assert_eq!(rfc3339_from_clock(Some((u64::MAX, 0))), None);
    assert_eq!(rfc3339_from_clock(Some((1u64 << 62, 0))), None);
    assert_eq!(StoreError::ClockUnavailable.message(), "failed to read the system clock");
}
