use vcp_media_manager::api::{
    health_of, overall_health, request_stream_id, servers_of, sort_devices, stream_online,
    HealthStatus,
};
use vcp_media_manager::client::{
    decode_reply, reply_error, reply_outcome, sessions_of, stream_info_from, unreachable_error, TranscodeProfile,
};
use vcp_media_manager::json::{parse_stream_info, set_index, stream_ids, streams_of, tag_with_server, Json};
use vcp_media_manager::model::{Device, DeviceWithStream};

fn s(x: &str) -> Json {
    Json::Str(x.to_string())
}

fn obj(members: Vec<(&str, Json)>) -> Json {
    Json::Object(members.into_iter().map(|(k, v)| (k.to_string(), v)).collect())
}

fn device(id: &str, server: &str) -> Device {
    Device {
        id: id.to_string(),
        name: id.to_string(),
        region_id: "r".to_string(),
        server_id: server.to_string(),
        description: None,
        created_at: "t".to_string(),
        updated_at: "t".to_string(),
    }
}

#[test]
fn stream_details_are_read_from_a_reply() {
    let reply = obj(vec![
        ("status", s("publishing")),
        ("status_description", s("live")),
        ("playback_status", Json::Number("1".to_string())),
        ("protocol", s("rtmp")),
        ("tracks", Json::Array(vec![Json::Null, Json::Null])),
    ]);
    let info = parse_stream_info(&reply);
    assert_eq!(info.status.as_deref(), Some("publishing"));
    assert_eq!(info.status_description.as_deref(), Some("live"));
    assert_eq!(info.playback_status, None);
    assert_eq!(info.playback_description, None);
    assert_eq!(info.protocol.as_deref(), Some("rtmp"));
    assert_eq!(info.tracks, Some(2));
    let info = parse_stream_info(&s("text"));
    assert!(info.status.is_none() && info.tracks.is_none());
}

#[test]
fn stream_ids_are_distinct() {
    let reply = obj(vec![(
        "streams",
        Json::Array(vec![
            obj(vec![("id", s("a"))]),
            obj(vec![("id", s("b"))]),
            obj(vec![("id", s("a"))]),
            obj(vec![("id", Json::Number("3".to_string()))]),
            s("loose"),
        ]),
    )]);
    let ids = stream_ids(&reply);
    assert_eq!(ids, vec!["a".to_string(), "b".to_string()]);
    assert!(stream_ids(&obj(vec![("streams", s("x"))])).is_empty());
    assert!(stream_ids(&Json::Null).is_empty());
}

#[test]
fn stream_list_is_taken_from_a_reply() {
    let reply = obj(vec![("count", Json::Number("2".to_string())), ("streams", Json::Array(vec![s("a"), s("b")]))]);
    let items = streams_of(reply);
    assert_eq!(items.len(), 2);
    assert!(streams_of(obj(vec![("streams", Json::Null)])).is_empty());
    assert!(streams_of(Json::Array(vec![])).is_empty());
}

#[test]
fn entries_are_tagged_with_their_node() {
    let tagged = tag_with_server(obj(vec![("id", s("a")), ("serverId", s("old"))]), &"n1".to_string(), &"r1".to_string());
    match tagged {
        Json::Object(m) => {
            assert_eq!(m.len(), 3);
            assert_eq!(m[0].0, "id");
            assert_eq!(m[1].0, "serverId");
            assert!(matches!(&m[1].1, Json::Str(x) if x == "n1"));
            assert_eq!(m[2].0, "regionId");
            assert!(matches!(&m[2].1, Json::Str(x) if x == "r1"));
        }
        _ => panic!("not an object"),
    }
    assert!(matches!(tag_with_server(s("x"), &"n".to_string(), &"r".to_string()), Json::Str(_)));
    match set_index(Json::Null, "k".to_string(), s("v")) {
        Json::Object(m) => assert_eq!(m.len(), 1),
        _ => panic!("not an object"),
    }
}

#[test]
fn replies_are_decoded_by_status_and_body() {
    match reply_outcome(200, "  ".to_string(), None) {
        Ok((200, Json::Object(m))) => assert!(m.is_empty()),
        _ => panic!("blank body"),
    }
    match reply_outcome(201, "not json".to_string(), None) {
        Ok((201, Json::Str(t))) => assert_eq!(t, "not json"),
        _ => panic!("text body"),
    }
    match reply_outcome(200, "{}".to_string(), Some(Json::Bool(true))) {
        Ok((200, Json::Bool(true))) => {}
        _ => panic!("json body"),
    }
    match reply_outcome(404, "missing".to_string(), None) {
        Err(e) => {
            assert_eq!(e.status, 404);
            assert_eq!(e.body, "missing");
        }
        Ok(_) => panic!("error accepted"),
    }
    match reply_outcome(42, "odd".to_string(), None) {
        Err(e) => assert_eq!(e.status, 502),
        Ok(_) => panic!("odd status accepted"),
    }
    let e = unreachable_error("http://h:1", "refused");
    assert_eq!(e.status, 502);
    assert_eq!(e.body, "cannot reach media server at http://h:1: refused");
    let e = reply_error("failed to parse sessions", "eof");
    assert_eq!(e.status, 500);
    assert_eq!(e.body, "failed to parse sessions: eof");
}

#[test]
fn stream_info_only_from_successful_replies() {
    let ok: Result<(u16, Json), _> = Ok((200, obj(vec![("protocol", s("rtsp"))])));
    assert_eq!(stream_info_from(&ok).unwrap().protocol.as_deref(), Some("rtsp"));
    let failed = Err(unreachable_error("u", "c"));
    assert!(stream_info_from(&failed).is_none());
}

#[test]
fn sessions_member_is_required() {
    assert!(sessions_of(&obj(vec![("sessions", Json::Array(vec![]))])).is_ok());
    match sessions_of(&obj(vec![])) {
        Err(e) => {
            assert_eq!(e.status, 500);
            assert_eq!(e.body, "missing sessions field in response");
        }
        Ok(_) => panic!("missing sessions accepted"),
    }
    let p = TranscodeProfile::default();
    assert!(p.video_codec.is_none() && p.fps.is_none() && p.audio_sample_rate.is_none());
}

#[test]
fn request_stream_id_member() {
    assert_eq!(request_stream_id(&obj(vec![("stream_id", s("cam"))])), "cam");
    assert_eq!(request_stream_id(&obj(vec![("stream_id", Json::Number("1".to_string()))])), "");
    assert_eq!(request_stream_id(&Json::Null), "");
}

#[test]
fn health_states() {
    assert!(matches!(health_of(false, true, true), HealthStatus::Unknown));
    assert!(matches!(health_of(true, false, true), HealthStatus::Misconfigured));
    assert!(matches!(health_of(true, true, true), HealthStatus::Healthy));
    assert!(matches!(health_of(true, true, false), HealthStatus::Unhealthy));
    assert_eq!(overall_health(&vec![HealthStatus::Healthy, HealthStatus::Healthy]), "healthy");
    assert_eq!(overall_health(&vec![]), "healthy");
    assert_eq!(overall_health(&vec![HealthStatus::Healthy, HealthStatus::Unhealthy]), "degraded");
    assert_eq!(HealthStatus::Misconfigured.text(), "misconfigured");
}

#[test]
fn device_streams_online_and_sorted() {
    let reports = vec![
        ("s1".to_string(), vec!["a".to_string(), "c".to_string()]),
        ("s2".to_string(), vec![]),
    ];
    assert!(stream_online(&reports, &device("a", "s1")));
    assert!(!stream_online(&reports, &device("b", "s1")));
    assert!(!stream_online(&reports, &device("a", "s2")));
    assert!(!stream_online(&reports, &device("a", "s3")));
    let servers = servers_of(&vec![device("a", "s1"), device("b", "s2"), device("c", "s1")]);
    assert_eq!(servers, vec!["s1".to_string(), "s2".to_string()]);
    let items = vec!["c", "a", "b"]
        .into_iter()
        .map(|id| DeviceWithStream { device: device(id, "s1"), stream_online: false, stream: None })
        .collect();
    let sorted: Vec<String> = sort_devices(items).into_iter().map(|d| d.device.id).collect();
    assert_eq!(sorted, vec!["a", "b", "c"]);
}

#[test]
fn object_members_are_set_in_place_or_appended() {
    let v = obj(vec![("a", s("1")), ("b", s("2"))]);
    let v = v.insert_member("a".to_string(), s("x"));
    let v = v.insert_member("c".to_string(), s("3"));
    match &v {
        Json::Object(fields) => {
            let names: Vec<&str> = fields.iter().map(|(k, _)| k.as_str()).collect();
            assert_eq!(names, vec!["a", "b", "c"]);
        }
        _ => panic!("expected an object"),
    }
    assert_eq!(v.str_member("a").as_deref(), Some("x"));
    assert_eq!(v.str_member("c").as_deref(), Some("3"));
    let kept = s("text").insert_member("a".to_string(), s("x"));
    assert_eq!(kept.as_str().map(|t| t.as_str()), Some("text"));
    let e = Json::empty_object();
    assert!(e.get("a").is_none());
}

#[test]
fn reply_bodies_are_read_as_json() {
    match decode_reply(200, "{\"a\": \"x\", \"n\": 12}".to_string()) {
        Ok((200, v)) => {
            assert_eq!(v.str_member("a").as_deref(), Some("x"));
            match v.get("n") {
                Some(Json::Number(n)) => assert_eq!(n, "12"),
                _ => panic!("number member"),
            }
        }
        _ => panic!("json body"),
    }
    match decode_reply(200, "not json".to_string()) {
        Ok((200, Json::Str(t))) => assert_eq!(t, "not json"),
        _ => panic!("text body"),
    }
    match decode_reply(200, " ".to_string()) {
        Ok((200, Json::Object(m))) => assert!(m.is_empty()),
        _ => panic!("blank body"),
    }
    match decode_reply(503, "{}".to_string()) {
        Err(e) => assert_eq!((e.status, e.body.as_str()), (503, "{}")),
        Ok(_) => panic!("error status accepted"),
    }
    match decode_reply(200, "[true, null]".to_string()) {
        Ok((200, Json::Array(items))) => {
            assert!(matches!(items[0], Json::Bool(true)));
            assert!(matches!(items[1], Json::Null));
        }
        _ => panic!("array"),
    }
    match decode_reply(200, "{".to_string()) {
        Ok((200, Json::Str(t))) => assert_eq!(t, "{"),
        _ => panic!("broken json"),
    }
}
