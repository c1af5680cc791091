//! The decisions the HTTP API makes: which requests about devices are
//! accepted and what they change, which node a stream request goes to, and
//! how node and device listings are put together. Talking to the media
//! servers is left to the caller, who hands the replies in.

use vstd::prelude::*;

use crate::device_store::{has_id, lookup, now_rfc3339, position_of, utc_stamp, without, DeviceStore};
use crate::client::{error_text, is_success, stream_info_from, UpstreamError};
use crate::json::{array_member, describes_stream, listed, members_view, set_index, str_member, streams_of, tag_with_server, tagged, with_member, Json};
use crate::model::{opt_view, Device, DeviceWithStream, MediaServerInstance, PlayUrls, Region, StreamInfo};
use crate::play_urls::{build_play_urls, http_port_of, play_urls_json, str_entries, urls_entries, urls_for};
use crate::registry::{
    has_region, in_region, law_default_in_region, law_table_ids, lists_table, region_name_of,
    MediaServerRegistry, RegistryError,
};
use crate::sort::{sort_by_key, sorted_by_key, with_key, Keyed};
use crate::text::{copy_str, lex_le, same_text, trim, trimmed};

verus! {

// ---------------------------------------------------------------------------
// Errors and requests
// ---------------------------------------------------------------------------

/// A refused API request: the HTTP status it is answered with and the
/// message of its error body.
pub enum ApiError {
    /// 400 Bad Request.
    BadRequest(String),
    /// 404 Not Found.
    NotFound(String),
    /// 503 Service Unavailable.
    Unavailable(String),
    /// 500 Internal Server Error.
    Internal(String),
}

impl ApiError {
    /// The HTTP status of the answer.
    pub fn status(&self) -> (s: u16)
        ensures
            s == match self {
                ApiError::BadRequest(_) => 400u16,
                ApiError::NotFound(_) => 404u16,
                ApiError::Unavailable(_) => 503u16,
                ApiError::Internal(_) => 500u16,
            },
    {
        match self {
            ApiError::BadRequest(_) => 400,
            ApiError::NotFound(_) => 404,
            ApiError::Unavailable(_) => 503,
            ApiError::Internal(_) => 500,
        }
    }

    /// The message of the error body.
    pub fn message(&self) -> (m: &String)
        ensures
            *m == match self {
                ApiError::BadRequest(m) => *m,
                ApiError::NotFound(m) => *m,
                ApiError::Unavailable(m) => *m,
                ApiError::Internal(m) => *m,
            },
    {
        match self {
            ApiError::BadRequest(m) => m,
            ApiError::NotFound(m) => m,
            ApiError::Unavailable(m) => m,
            ApiError::Internal(m) => m,
        }
    }
}

/// `e` is a 400 answer with the message `m`.
pub open spec fn is_bad_request(e: ApiError, m: Seq<char>) -> bool {
    e matches ApiError::BadRequest(msg) && msg@ == m
}

/// `e` is a 404 answer with the message `m`.
pub open spec fn is_not_found(e: ApiError, m: Seq<char>) -> bool {
    e matches ApiError::NotFound(msg) && msg@ == m
}

/// `e` is a 503 answer with the message `m`.
pub open spec fn is_unavailable(e: ApiError, m: Seq<char>) -> bool {
    e matches ApiError::Unavailable(msg) && msg@ == m
}

/// `e` is a 500 answer saying that the system clock could not be read.
pub open spec fn is_clock_failure(e: ApiError) -> bool {
    e matches ApiError::Internal(msg) && msg@ == "failed to read the system clock"@
}

fn clock_failure() -> (e: ApiError)
    ensures
        is_clock_failure(e),
{
    ApiError::Internal(copy_str("failed to read the system clock"))
}

/// A request to add a device.
pub struct CreateDeviceRequest {
    pub id: String,
    pub name: String,
    pub region_id: String,
    pub server_id: Option<String>,
    pub description: Option<String>,
}

/// A request to change a device.
pub struct UpdateDeviceRequest {
    pub name: String,
    pub region_id: String,
    pub server_id: Option<String>,
    pub description: Option<String>,
}

fn message2(a: &str, b: &str) -> (m: String)
    ensures
        m@ == a@ + b@,
{
    let mut m = copy_str(a);
    m.append(b);
    m
}

// ---------------------------------------------------------------------------
// Choosing the node of a device
// ---------------------------------------------------------------------------

/// The node a device of the region `region_id` is placed on, or the message
/// of the refusal: the region must exist; a named node must exist, otherwise
/// the region's default node is taken; the node must belong to the region.
pub open spec fn server_choice(
    registry: MediaServerRegistry,
    region_id: Seq<char>,
    server_id: Option<Seq<char>>,
) -> Result<MediaServerInstance, Seq<char>> {
    if !has_region(registry.regions_view(), region_id) {
        Err("unknown region: "@ + region_id)
    } else {
        let chosen = match server_id {
            Some(sid) => if registry.table().contains_key(sid) {
                Ok(registry.table()[sid])
            } else {
                Err("unknown server: "@ + sid)
            },
            None => if in_region(registry.listing(), region_id).len() > 0 {
                Ok(in_region(registry.listing(), region_id)[0])
            } else {
                Err("no media server configured for region "@ + region_id)
            },
        };
        match chosen {
            Ok(s) => if s.region_id@ == region_id {
                Ok(s)
            } else {
                Err("server "@ + s.id@ + " does not belong to region "@ + region_id)
            },
            Err(m) => Err(m),
        }
    }
}

/// The node for a device of the region `region_id` (see `server_choice`).
pub fn choose_server<'a>(
    registry: &'a MediaServerRegistry,
    region_id: &str,
    server_id: &Option<String>,
) -> (r: Result<&'a MediaServerInstance, ApiError>)
    ensures
        match r {
            Ok(s) => server_choice(*registry, region_id@, opt_view(*server_id)) == Ok::<
                MediaServerInstance,
                Seq<char>,
            >(*s),
            Err(e) => server_choice(*registry, region_id@, opt_view(*server_id)) matches Err(m)
                && is_bad_request(e, m),
        },
{
    if !registry.knows_region(region_id) {
        return Err(ApiError::BadRequest(message2("unknown region: ", region_id)));
    }
    let server = match server_id {
        Some(sid) => match registry.get_server(sid.as_str()) {
            Some(s) => s,
            None => {
                return Err(ApiError::BadRequest(message2("unknown server: ", sid.as_str())));
            },
        },
        None => match registry.default_server_for_region(region_id) {
            Ok(s) => s,
            Err(e) => {
                return Err(ApiError::BadRequest(e.message()));
            },
        },
    };
    if !same_text(server.region_id.as_str(), region_id) {
        let mut m = message2("server ", server.id.as_str());
        m.append(" does not belong to region ");
        m.append(region_id);
        return Err(ApiError::BadRequest(m));
    }
    Ok(server)
}

/// An optional description as the API stores it: trimmed, and dropped when
/// nothing is left.
pub open spec fn clean_description(d: Option<Seq<char>>) -> Option<Seq<char>> {
    match d {
        Some(t) => if trim(t).len() > 0 {
            Some(trim(t))
        } else {
            None
        },
        None => None,
    }
}

/// The description `d`, trimmed, or none when it is blank.
pub fn tidy_description(d: Option<String>) -> (r: Option<String>)
    ensures
        opt_view(r) == clean_description(opt_view(d)),
{
    match d {
        Some(t) => {
            let s = trimmed(t.as_str());
            if s.as_str().unicode_len() == 0 {
                None
            } else {
                Some(s)
            }
        },
        None => None,
    }
}

/// `d` carries what a device request asks for: the id `id`, the trimmed
/// name, the region, the chosen node and the cleaned description.
pub open spec fn device_fields(
    d: Device,
    id: Seq<char>,
    name: Seq<char>,
    region_id: Seq<char>,
    server: MediaServerInstance,
    description: Option<Seq<char>>,
) -> bool {
    &&& d.id@ == id
    &&& d.name@ == trim(name)
    &&& d.region_id@ == region_id
    &&& d.server_id == server.id
    &&& opt_view(d.description) == clean_description(description)
}

// ---------------------------------------------------------------------------
// Adding, changing and removing devices
// ---------------------------------------------------------------------------

/// Why a request to add a device is refused before the device list is
/// consulted, if it is: a blank id, or a refused node choice.
pub open spec fn create_refusal(registry: MediaServerRegistry, req: CreateDeviceRequest) -> Option<
    Seq<char>,
> {
    if trim(req.id@).len() == 0 {
        Some("device id is required"@)
    } else {
        match server_choice(registry, req.region_id@, opt_view(req.server_id)) {
            Err(m) => Some(m),
            Ok(_) => None,
        }
    }
}

/// The device a creation request describes, stamped with the time `now`.
pub fn new_device(registry: &MediaServerRegistry, req: CreateDeviceRequest, now: String) -> (r:
    Result<Device, ApiError>)
    ensures
        match r {
            Ok(d) => {
                &&& create_refusal(*registry, req) is None
                &&& server_choice(*registry, req.region_id@, opt_view(req.server_id)) matches Ok(s)
                    && device_fields(
                    d,
                    trim(req.id@),
                    req.name@,
                    req.region_id@,
                    s,
                    opt_view(req.description),
                )
                &&& d.created_at == now
                &&& d.updated_at == now
            },
            Err(e) => create_refusal(*registry, req) matches Some(m) && is_bad_request(e, m),
        },
{
    let id = trimmed(req.id.as_str());
    if id.as_str().unicode_len() == 0 {
        return Err(ApiError::BadRequest(copy_str("device id is required")));
    }
    let server = choose_server(registry, req.region_id.as_str(), &req.server_id);
    match server {
        Err(e) => Err(e),
        Ok(server) => {
            let server_id = server.id.clone();
            Ok(
                Device {
                    id,
                    name: trimmed(req.name.as_str()),
                    region_id: req.region_id,
                    server_id,
                    description: tidy_description(req.description),
                    created_at: now.clone(),
                    updated_at: now,
                },
            )
        },
    }
}

/// Whether a request to add a device is refused before the device list is
/// consulted (see `create_refusal`).
pub fn check_create(registry: &MediaServerRegistry, req: &CreateDeviceRequest) -> (r: Result<(), ApiError>)
    ensures
        r is Ok <==> create_refusal(*registry, *req) is None,
        r matches Err(e) ==> create_refusal(*registry, *req) matches Some(m) && is_bad_request(e, m),
{
    let id = trimmed(req.id.as_str());
    if id.as_str().unicode_len() == 0 {
        return Err(ApiError::BadRequest(copy_str("device id is required")));
    }
    match choose_server(registry, req.region_id.as_str(), &req.server_id) {
        Err(e) => Err(e),
        Ok(_) => Ok(()),
    }
}

/// Adds the device a creation request describes, stamped with the time
/// `now`. Refused with 400 when the request is refused (see
/// `create_refusal`) or a device with the same id exists; the device list is
/// then unchanged.
pub fn create_device_at(
    store: &mut DeviceStore,
    registry: &MediaServerRegistry,
    req: CreateDeviceRequest,
    now: String,
) -> (r: Result<Device, ApiError>)
    ensures
        match r {
            Ok(d) => {
                &&& create_refusal(*registry, req) is None
                &&& server_choice(*registry, req.region_id@, opt_view(req.server_id)) matches Ok(s)
                    && device_fields(
                    d,
                    trim(req.id@),
                    req.name@,
                    req.region_id@,
                    s,
                    opt_view(req.description),
                )
                &&& d.created_at == now
                &&& d.updated_at == now
                &&& !has_id(old(store)@, d.id@)
                &&& final(store)@ == old(store)@.push(d)
            },
            Err(e) => {
                &&& final(store)@ == old(store)@
                &&& match create_refusal(*registry, req) {
                    Some(m) => is_bad_request(e, m),
                    None => has_id(old(store)@, trim(req.id@)) && is_bad_request(
                        e,
                        "device already exists: "@ + trim(req.id@),
                    ),
                }
            },
        },
        final(store).path_view() == old(store).path_view(),
{
    let device = match new_device(registry, req, now) {
        Ok(d) => d,
        Err(e) => {
            return Err(e);
        },
    };
    match store.create(device) {
        Ok(d) => Ok(d),
        Err(e) => Err(ApiError::BadRequest(e.message())),
    }
}

/// Adds the device a creation request describes, stamped with the current
/// time (see `create_device_at`). A request that is not refused gets a 500
/// answer when the clock cannot be read; the device list is then unchanged.
pub fn create_device(
    store: &mut DeviceStore,
    registry: &MediaServerRegistry,
    req: CreateDeviceRequest,
) -> (r: Result<Device, ApiError>)
    ensures
        match r {
            Ok(d) => {
                &&& create_refusal(*registry, req) is None
                &&& server_choice(*registry, req.region_id@, opt_view(req.server_id)) matches Ok(s)
                    && device_fields(
                    d,
                    trim(req.id@),
                    req.name@,
                    req.region_id@,
                    s,
                    opt_view(req.description),
                )
                &&& d.created_at == d.updated_at
                &&& utc_stamp(d.created_at@)
                &&& !has_id(old(store)@, d.id@)
                &&& final(store)@ == old(store)@.push(d)
            },
            Err(e) => {
                &&& final(store)@ == old(store)@
                &&& match create_refusal(*registry, req) {
                    Some(m) => is_bad_request(e, m),
                    None => is_clock_failure(e) || (has_id(old(store)@, trim(req.id@))
                        && is_bad_request(e, "device already exists: "@ + trim(req.id@))),
                }
            },
        },
        final(store).path_view() == old(store).path_view(),
{
    let now = now_rfc3339();
    create_device_with_clock(store, registry, req, now)
}

/// Changes the device `id` as an update request describes, keeping its id
/// and creation time and stamping the time `now`. Refused with 404 when no
/// device has the id, and with 400 when the node choice is refused; the
/// device list is then unchanged.
pub fn update_device_at(
    store: &mut DeviceStore,
    registry: &MediaServerRegistry,
    id: &str,
    req: UpdateDeviceRequest,
    now: String,
) -> (r: Result<Device, ApiError>)
    ensures
        match r {
            Ok(d) => {
                let p = position_of(old(store)@, id@);
                &&& has_id(old(store)@, id@)
                &&& server_choice(*registry, req.region_id@, opt_view(req.server_id)) matches Ok(s)
                    && device_fields(d, id@, req.name@, req.region_id@, s, opt_view(req.description))
                &&& d.created_at == old(store)@[p].created_at
                &&& d.updated_at == now
                &&& final(store)@ == old(store)@.update(p, d)
            },
            Err(e) => {
                &&& final(store)@ == old(store)@
                &&& if !has_id(old(store)@, id@) {
                    is_not_found(e, "device not found: "@ + id@)
                } else {
                    server_choice(*registry, req.region_id@, opt_view(req.server_id)) matches Err(m)
                        && is_bad_request(e, m)
                }
            },
        },
        final(store).path_view() == old(store).path_view(),
{
    let existing = match store.get(id) {
        Some(d) => d,
        None => {
            proof {
                crate::device_store::lemma_has_id_position(store@, id@);
            }
            return Err(ApiError::NotFound(message2("device not found: ", id)));
        },
    };
    proof {
        crate::device_store::lemma_has_id_position(store@, id@);
    }
    let server = match choose_server(registry, req.region_id.as_str(), &req.server_id) {
        Ok(s) => s,
        Err(e) => {
            return Err(e);
        },
    };
    let device = Device {
        id: copy_str(id),
        name: trimmed(req.name.as_str()),
        region_id: req.region_id,
        server_id: server.id.clone(),
        description: tidy_description(req.description),
        created_at: existing.created_at,
        updated_at: copy_str(""),
    };
    match store.update_at(id, device, now) {
        Ok(d) => Ok(d),
        Err(_) => Err(ApiError::NotFound(message2("device not found: ", id))),
    }
}

/// Changes the device `id` as an update request describes, keeping its id
/// and creation time and stamping the current time (see `update_device_at`).
/// A request that is not refused gets a 500 answer when the clock cannot be
/// read; the device list is then unchanged.
pub fn update_device(
    store: &mut DeviceStore,
    registry: &MediaServerRegistry,
    id: &str,
    req: UpdateDeviceRequest,
) -> (r: Result<Device, ApiError>)
    ensures
        match r {
            Ok(d) => {
                let p = position_of(old(store)@, id@);
                &&& has_id(old(store)@, id@)
                &&& server_choice(*registry, req.region_id@, opt_view(req.server_id)) matches Ok(s)
                    && device_fields(d, id@, req.name@, req.region_id@, s, opt_view(req.description))
                &&& d.created_at == old(store)@[p].created_at
                &&& utc_stamp(d.updated_at@)
                &&& final(store)@ == old(store)@.update(p, d)
            },
            Err(e) => {
                &&& final(store)@ == old(store)@
                &&& if !has_id(old(store)@, id@) {
                    is_not_found(e, "device not found: "@ + id@)
                } else {
                    match server_choice(*registry, req.region_id@, opt_view(req.server_id)) {
                        Err(m) => is_bad_request(e, m),
                        Ok(_) => is_clock_failure(e),
                    }
                }
            },
        },
        final(store).path_view() == old(store).path_view(),
{
    let now = now_rfc3339();
    update_device_with_clock(store, registry, id, req, now)
}

/// Adds the device a creation request describes, given what the clock gave:
/// the request's refusal first (see `create_refusal`); then, when the clock
/// gave a time, the creation at that time (see `create_device_at`), which
/// succeeds exactly when no device has the id; and a 500 clock failure only
/// when the clock gave nothing.
pub fn create_device_with_clock(
    store: &mut DeviceStore,
    registry: &MediaServerRegistry,
    req: CreateDeviceRequest,
    now: Option<String>,
) -> (r: Result<Device, ApiError>)
    ensures
        match r {
            Ok(d) => {
                &&& now matches Some(n) && d.created_at == n && d.updated_at == n
                &&& create_refusal(*registry, req) is None
                &&& server_choice(*registry, req.region_id@, opt_view(req.server_id)) matches Ok(s)
                    && device_fields(
                    d,
                    trim(req.id@),
                    req.name@,
                    req.region_id@,
                    s,
                    opt_view(req.description),
                )
                &&& !has_id(old(store)@, d.id@)
                &&& final(store)@ == old(store)@.push(d)
            },
            Err(e) => {
                &&& final(store)@ == old(store)@
                &&& match create_refusal(*registry, req) {
                    Some(m) => is_bad_request(e, m),
                    None => if now is None {
                        is_clock_failure(e)
                    } else {
                        has_id(old(store)@, trim(req.id@)) && is_bad_request(
                            e,
                            "device already exists: "@ + trim(req.id@),
                        )
                    },
                }
            },
        },
        now is Some && create_refusal(*registry, req) is None && !has_id(old(store)@, trim(req.id@))
            ==> r is Ok && final(store)@.len() == old(store)@.len() + 1,
        final(store).path_view() == old(store).path_view(),
{
    match check_create(registry, &req) {
        Err(e) => {
            return Err(e);
        },
        Ok(()) => {},
    }
    match now {
        None => Err(clock_failure()),
        Some(n) => create_device_at(store, registry, req, n),
    }
}

/// Changes the device `id` as an update request describes, given what the
/// clock gave: 404 when no device has the id, 400 when the node choice is
/// refused; then, when the clock gave a time, the change stamped with it
/// (see `update_device_at`), which succeeds; and a 500 clock failure only
/// when the clock gave nothing.
pub fn update_device_with_clock(
    store: &mut DeviceStore,
    registry: &MediaServerRegistry,
    id: &str,
    req: UpdateDeviceRequest,
    now: Option<String>,
) -> (r: Result<Device, ApiError>)
    ensures
        match r {
            Ok(d) => {
                let p = position_of(old(store)@, id@);
                &&& now matches Some(n) && d.updated_at == n
                &&& has_id(old(store)@, id@)
                &&& server_choice(*registry, req.region_id@, opt_view(req.server_id)) matches Ok(s)
                    && device_fields(d, id@, req.name@, req.region_id@, s, opt_view(req.description))
                &&& d.created_at == old(store)@[p].created_at
                &&& final(store)@ == old(store)@.update(p, d)
            },
            Err(e) => {
                &&& final(store)@ == old(store)@
                &&& if !has_id(old(store)@, id@) {
                    is_not_found(e, "device not found: "@ + id@)
                } else {
                    match server_choice(*registry, req.region_id@, opt_view(req.server_id)) {
                        Err(m) => is_bad_request(e, m),
                        Ok(_) => now is None && is_clock_failure(e),
                    }
                }
            },
        },
        now is Some && has_id(old(store)@, id@) && server_choice(
            *registry,
            req.region_id@,
            opt_view(req.server_id),
        ) is Ok ==> r is Ok,
        final(store).path_view() == old(store).path_view(),
{
    match now {
        Some(n) => update_device_at(store, registry, id, req, n),
        None => {
            match store.get(id) {
                None => {
                    proof {
                        crate::device_store::lemma_has_id_position(store@, id@);
                    }
                    return Err(ApiError::NotFound(message2("device not found: ", id)));
                },
                Some(_) => {},
            }
            proof {
                crate::device_store::lemma_has_id_position(store@, id@);
            }
            match choose_server(registry, req.region_id.as_str(), &req.server_id) {
                Err(e) => Err(e),
                Ok(_) => Err(clock_failure()),
            }
        },
    }
}

/// Removes every device with the id `id`; 404 when there is none.
pub fn delete_device(store: &mut DeviceStore, id: &str) -> (r: Result<(), ApiError>)
    ensures
        final(store)@ == without(old(store)@, id@),
        r is Ok <==> has_id(old(store)@, id@),
        r matches Err(e) ==> is_not_found(e, "device not found: "@ + id@),
        r is Err ==> final(store)@ == old(store)@,
        final(store).path_view() == old(store).path_view(),
{
    match store.delete(id) {
        Ok(()) => Ok(()),
        Err(e) => Err(ApiError::NotFound(e.message())),
    }
}

/// The device `id`; 404 when there is none.
pub fn find_device(store: &DeviceStore, id: &str) -> (r: Result<Device, ApiError>)
    ensures
        match r {
            Ok(d) => lookup(store@, id@) == Some(d),
            Err(e) => lookup(store@, id@) is None && is_not_found(e, "device not found: "@ + id@),
        },
{
    match store.get(id) {
        Some(d) => Ok(d),
        None => Err(ApiError::NotFound(message2("device not found: ", id))),
    }
}

// ---------------------------------------------------------------------------
// Playback addresses
// ---------------------------------------------------------------------------

/// The playback addresses of the device `id` on its node. 404 when no
/// device has the id, 400 when its node is not configured.
pub fn device_play_urls(store: &DeviceStore, registry: &MediaServerRegistry, id: &str) -> (r: Result<
    (Device, PlayUrls),
    ApiError,
>)
    ensures
        match r {
            Ok((d, urls)) => {
                &&& lookup(store@, id@) == Some(d)
                &&& registry.table().contains_key(d.server_id@)
                &&& urls_for(urls, registry.table()[d.server_id@], d.id@)
            },
            Err(e) => match lookup(store@, id@) {
                None => is_not_found(e, "device not found: "@ + id@),
                Some(d) => !registry.table().contains_key(d.server_id@) && is_bad_request(
                    e,
                    "unknown server: "@ + d.server_id@,
                ),
            },
        },
{
    let device = match store.get(id) {
        Some(d) => d,
        None => {
            return Err(ApiError::NotFound(message2("device not found: ", id)));
        },
    };
    match registry.get_server(device.server_id.as_str()) {
        None => Err(ApiError::BadRequest(message2("unknown server: ", device.server_id.as_str()))),
        Some(server) => {
            let urls = build_play_urls(server, device.id.as_str());
            Ok((device, urls))
        },
    }
}

/// The answer to a playback address query for a stream.
pub struct StreamPlayUrls {
    pub stream_id: String,
    pub device_id: Option<String>,
    pub play_urls: PlayUrls,
}

/// The playback addresses of the stream `id`: on the node of the device
/// with that id when there is one on a configured node, otherwise on the
/// first node. 404 when no node is configured.
pub fn stream_play_urls(store: &DeviceStore, registry: &MediaServerRegistry, id: &str) -> (r: Result<
    StreamPlayUrls,
    ApiError,
>)
    ensures
        r matches Ok(a) ==> a.stream_id@ == id@,
        match lookup(store@, id@) {
            Some(d) if registry.table().contains_key(d.server_id@) => r matches Ok(a)
                && a.device_id == Some(d.id) && urls_for(
                a.play_urls,
                registry.table()[d.server_id@],
                d.id@,
            ),
            _ => if registry.listing().len() > 0 {
                r matches Ok(a) && a.device_id is None && urls_for(
                    a.play_urls,
                    registry.listing()[0],
                    id@,
                )
            } else {
                r matches Err(e) && is_not_found(e, "no media server configured"@)
            },
        },
{
    match store.get(id) {
        Some(device) => match registry.get_server(device.server_id.as_str()) {
            Some(server) => {
                let play_urls = build_play_urls(server, device.id.as_str());
                return Ok(StreamPlayUrls { stream_id: copy_str(id), device_id: Some(device.id), play_urls });
            },
            None => {},
        },
        None => {},
    }
    let servers = registry.list_servers();
    if servers.len() == 0 {
        return Err(ApiError::NotFound(copy_str("no media server configured")));
    }
    let play_urls = build_play_urls(servers[0], id);
    Ok(StreamPlayUrls { stream_id: copy_str(id), device_id: None, play_urls })
}

// ---------------------------------------------------------------------------
// Where stream requests go
// ---------------------------------------------------------------------------

/// The node of the device whose id is `stream_id`, when such a device
/// exists and its node is configured.
pub open spec fn device_node(store: DeviceStore, registry: MediaServerRegistry, stream_id: Seq<char>) -> Option<
    MediaServerInstance,
> {
    match lookup(store@, stream_id) {
        Some(d) => if registry.table().contains_key(d.server_id@) {
            Some(registry.table()[d.server_id@])
        } else {
            None
        },
        None => None,
    }
}

/// The node of the device whose id is `stream_id` (see `device_node`).
pub fn device_server<'a>(
    store: &DeviceStore,
    registry: &'a MediaServerRegistry,
    stream_id: &str,
) -> (r: Option<&'a MediaServerInstance>)
    ensures
        match r {
            Some(s) => device_node(*store, *registry, stream_id@) == Some(*s),
            None => device_node(*store, *registry, stream_id@) is None,
        },
{
    match store.get(stream_id) {
        Some(device) => registry.get_server(device.server_id.as_str()),
        None => None,
    }
}

/// The first node, which takes requests no device routes; 503 when no node
/// is configured.
pub fn first_server(registry: &MediaServerRegistry) -> (r: Result<&MediaServerInstance, ApiError>)
    ensures
        match r {
            Ok(s) => registry.listing().len() > 0 && *s == registry.listing()[0],
            Err(e) => registry.listing().len() == 0 && is_unavailable(e, "no media server configured"@),
        },
{
    let servers = registry.list_servers();
    if servers.len() == 0 {
        Err(ApiError::Unavailable(copy_str("no media server configured")))
    } else {
        Ok(servers[0])
    }
}

/// The node a request about the stream `stream_id` is sent to: the node of
/// the device with that id, otherwise the first node; 503 when there is
/// none.
pub fn upstream_for<'a>(
    store: &DeviceStore,
    registry: &'a MediaServerRegistry,
    stream_id: &str,
) -> (r: Result<&'a MediaServerInstance, ApiError>)
    ensures
        match device_node(*store, *registry, stream_id@) {
            Some(s) => r == Ok::<&MediaServerInstance, ApiError>(&s),
            None => match r {
                Ok(s) => registry.listing().len() > 0 && *s == registry.listing()[0],
                Err(e) => registry.listing().len() == 0 && is_unavailable(
                    e,
                    "no media server configured"@,
                ),
            },
        },
{
    match device_server(store, registry, stream_id) {
        Some(s) => Ok(s),
        None => first_server(registry),
    }
}

/// The `stream_id` member of a request body when it is a string, otherwise
/// the empty string.
pub fn request_stream_id(body: &Json) -> (id: String)
    ensures
        id@ == match str_member(*body, "stream_id"@) {
            Some(s) => s,
            None => Seq::<char>::empty(),
        },
{
    match body.str_member("stream_id") {
        Some(s) => s,
        None => String::new(),
    }
}

// ---------------------------------------------------------------------------
// Health
// ---------------------------------------------------------------------------

/// The health of a media server as the manager sees it.
pub enum HealthStatus {
    Healthy,
    Unhealthy,
    Misconfigured,
    Unknown,
}

/// The name of a health state in API answers.
pub open spec fn health_text(h: HealthStatus) -> Seq<char> {
    match h {
        HealthStatus::Healthy => "healthy"@,
        HealthStatus::Unhealthy => "unhealthy"@,
        HealthStatus::Misconfigured => "misconfigured"@,
        HealthStatus::Unknown => "unknown"@,
    }
}

impl HealthStatus {
    /// The name of this state in API answers.
    pub fn text(&self) -> (s: String)
        ensures
            s@ == health_text(*self),
    {
        match self {
            HealthStatus::Healthy => copy_str("healthy"),
            HealthStatus::Unhealthy => copy_str("unhealthy"),
            HealthStatus::Misconfigured => copy_str("misconfigured"),
            HealthStatus::Unknown => copy_str("unknown"),
        }
    }

    /// An exact copy.
    pub fn duplicate(&self) -> (r: Self)
        ensures
            r == *self,
    {
        match self {
            HealthStatus::Healthy => HealthStatus::Healthy,
            HealthStatus::Unhealthy => HealthStatus::Unhealthy,
            HealthStatus::Misconfigured => HealthStatus::Misconfigured,
            HealthStatus::Unknown => HealthStatus::Unknown,
        }
    }
}

/// The health state of a node: unknown when no node has the id,
/// misconfigured when the manager has no client for it, otherwise healthy
/// when it answered its health check and unhealthy when it did not.
pub fn health_of(known: bool, has_client: bool, answered: bool) -> (h: HealthStatus)
    ensures
        h == if !known {
            HealthStatus::Unknown
        } else if !has_client {
            HealthStatus::Misconfigured
        } else if answered {
            HealthStatus::Healthy
        } else {
            HealthStatus::Unhealthy
        },
{
    if !known {
        HealthStatus::Unknown
    } else if !has_client {
        HealthStatus::Misconfigured
    } else if answered {
        HealthStatus::Healthy
    } else {
        HealthStatus::Unhealthy
    }
}

/// The overall state of the deployment: `healthy` when every node is
/// healthy, `degraded` otherwise.
pub fn overall_health(statuses: &Vec<HealthStatus>) -> (s: String)
    ensures
        s@ == if forall|i: int| 0 <= i < statuses@.len() ==> (#[trigger] statuses@[i]) == HealthStatus::Healthy {
            "healthy"@
        } else {
            "degraded"@
        },
{
    let mut i: usize = 0;
    while i < statuses.len()
        invariant
            i <= statuses@.len(),
            forall|k: int| 0 <= k < i ==> (#[trigger] statuses@[k]) == HealthStatus::Healthy,
        decreases statuses@.len() - i,
    {
        match statuses[i] {
            HealthStatus::Healthy => {},
            _ => {
                return copy_str("degraded");
            },
        }
        i = i + 1;
    }
    copy_str("healthy")
}

// ---------------------------------------------------------------------------
// Node listings
// ---------------------------------------------------------------------------

/// The devices of `devices` placed on the node `server_id`, in order.
pub open spec fn on_server(devices: Seq<Device>, server_id: Seq<char>) -> Seq<Device> {
    devices.filter(|d: Device| d.server_id@ == server_id)
}

/// The devices placed on the node `server_id`, in order.
pub fn devices_on_server(devices: &Vec<Device>, server_id: &str) -> (r: Vec<Device>)
    ensures
        r@ == on_server(devices@, server_id@),
{
    let mut r: Vec<Device> = Vec::new();
    let mut i: usize = 0;
    while i < devices.len()
        invariant
            i <= devices@.len(),
            r@ == on_server(devices@.take(i as int), server_id@),
        decreases devices@.len() - i,
    {
        reveal(Seq::filter);
        assert(devices@.take(i + 1).drop_last() == devices@.take(i as int));
        if same_text(devices[i].server_id.as_str(), server_id) {
            r.push(devices[i].duplicate());
        }
        i = i + 1;
    }
    assert(devices@.take(devices@.len() as int) == devices@);
    r
}

/// How many devices are placed on the node `server_id`.
pub fn device_count(devices: &Vec<Device>, server_id: &str) -> (n: usize)
    ensures
        n == on_server(devices@, server_id@).len(),
{
    let mut n: usize = 0;
    let mut i: usize = 0;
    while i < devices.len()
        invariant
            i <= devices@.len(),
            n == on_server(devices@.take(i as int), server_id@).len(),
            n <= i,
        decreases devices@.len() - i,
    {
        reveal(Seq::filter);
        assert(devices@.take(i + 1).drop_last() == devices@.take(i as int));
        if same_text(devices[i].server_id.as_str(), server_id) {
            n = n + 1;
        }
        i = i + 1;
    }
    assert(devices@.take(devices@.len() as int) == devices@);
    n
}

/// One line of the node listing.
pub struct ServerSummary {
    pub id: String,
    pub region_id: String,
    pub name: String,
    pub api_url: String,
    pub public_host: String,
    pub rtmp_port: u16,
    pub rtsp_port: u16,
    pub webrtc_port: u16,
    pub http_port: u16,
    pub status: String,
    pub stream_count: usize,
    pub device_count: usize,
}

impl Keyed for ServerSummary {
    open spec fn key_view(&self) -> Seq<char> {
        self.id@
    }

    fn key(&self) -> (k: &String) {
        &self.id
    }
}

/// `line` describes `server` with the health `status`, `streams` streams and
/// the devices of `devices` placed on it.
pub open spec fn summarizes(
    line: ServerSummary,
    server: MediaServerInstance,
    devices: Seq<Device>,
    status: HealthStatus,
    streams: usize,
) -> bool {
    &&& line.id == server.id
    &&& line.region_id == server.region_id
    &&& line.name == server.name
    &&& line.api_url == server.api_url
    &&& line.public_host == server.public_host
    &&& line.rtmp_port == server.rtmp_port
    &&& line.rtsp_port == server.rtsp_port
    &&& line.webrtc_port == server.webrtc_port
    &&& line.http_port == http_port_of(server)
    &&& line.status@ == health_text(status)
    &&& line.stream_count == streams
    &&& line.device_count == on_server(devices, server.id@).len()
}

/// The listing line of `server`.
pub fn summarize_server(
    server: &MediaServerInstance,
    devices: &Vec<Device>,
    status: &HealthStatus,
    streams: usize,
) -> (line: ServerSummary)
    ensures
        summarizes(line, *server, devices@, *status, streams),
{
    ServerSummary {
        id: server.id.clone(),
        region_id: server.region_id.clone(),
        name: server.name.clone(),
        api_url: server.api_url.clone(),
        public_host: server.public_host.clone(),
        rtmp_port: server.rtmp_port,
        rtsp_port: server.rtsp_port,
        webrtc_port: server.webrtc_port,
        http_port: server.http_port(),
        status: status.text(),
        stream_count: streams,
        device_count: device_count(devices, server.id.as_str()),
    }
}

/// The number of streams a node reported: none when its list could not be
/// read.
pub open spec fn stream_count(report: Option<Vec<String>>) -> usize {
    match report {
        Some(ids) => ids@.len() as usize,
        None => 0,
    }
}

/// Some line of `lines` describes the node at position `i` of `listing`.
pub open spec fn line_for(
    lines: Seq<ServerSummary>,
    listing: Seq<MediaServerInstance>,
    devices: Seq<Device>,
    statuses: Seq<HealthStatus>,
    reports: Seq<Option<Vec<String>>>,
    i: int,
) -> bool {
    exists|j: int|
        0 <= j < lines.len() && summarizes(#[trigger] lines[j], listing[i], devices, statuses[i], stream_count(reports[i]))
}

/// The line `line` describes some node of `listing`.
pub open spec fn node_for(
    line: ServerSummary,
    listing: Seq<MediaServerInstance>,
    devices: Seq<Device>,
    statuses: Seq<HealthStatus>,
    reports: Seq<Option<Vec<String>>>,
) -> bool {
    exists|i: int|
        0 <= i < listing.len() && summarizes(line, #[trigger] listing[i], devices, statuses[i], stream_count(reports[i]))
}

/// The node listing: one line per node, given each node's health and the
/// stream ids it reported (none when its stream list could not be read), in
/// listing order; sorted by node id. A node counts the streams it reported,
/// and none when it reported none.
pub fn server_listing(
    registry: &MediaServerRegistry,
    devices: &Vec<Device>,
    statuses: &Vec<HealthStatus>,
    stream_reports: &Vec<Option<Vec<String>>>,
) -> (lines: Vec<ServerSummary>)
    requires
        statuses@.len() == registry.listing().len(),
        stream_reports@.len() == registry.listing().len(),
    ensures
        lines@.len() == registry.listing().len(),
        sorted_by_key(lines@),
        forall|i: int, j: int|
            0 <= i < j < lines@.len() ==> lex_le((#[trigger] lines@[i]).id@, (#[trigger] lines@[j]).id@),
        forall|i: int|
            0 <= i < registry.listing().len() ==> #[trigger] line_for(
                lines@,
                registry.listing(),
                devices@,
                statuses@,
                stream_reports@,
                i,
            ),
        forall|j: int|
            0 <= j < lines@.len() ==> node_for(
                #[trigger] lines@[j],
                registry.listing(),
                devices@,
                statuses@,
                stream_reports@,
            ),
{
    broadcast use vstd::seq_lib::group_to_multiset_ensures;

    let servers = registry.list_servers();
    let mut lines: Vec<ServerSummary> = Vec::new();
    let mut i: usize = 0;
    while i < servers.len()
        invariant
            servers@.len() == registry.listing().len(),
            forall|k: int| 0 <= k < servers@.len() ==> *servers@[k] == registry.listing()[k],
            statuses@.len() == registry.listing().len(),
            stream_reports@.len() == registry.listing().len(),
            i <= servers@.len(),
            lines@.len() == i,
            forall|k: int|
                0 <= k < i ==> summarizes(
                    #[trigger] lines@[k],
                    registry.listing()[k],
                    devices@,
                    statuses@[k],
                    stream_count(stream_reports@[k]),
                ),
        decreases servers@.len() - i,
    {
        let count = match &stream_reports[i] {
            Some(ids) => ids.len(),
            None => 0,
        };
        lines.push(summarize_server(servers[i], devices, &statuses[i], count));
        i = i + 1;
    }
    let ghost unsorted = lines@;
    let sorted = sort_by_key(lines);
    assert forall|i: int| 0 <= i < registry.listing().len() implies #[trigger] line_for(
        sorted@,
        registry.listing(),
        devices@,
        statuses@,
        stream_reports@,
        i,
    ) by {
        unsorted.to_multiset_ensures();
        sorted@.to_multiset_ensures();
        assert(unsorted.contains(unsorted[i]));
        assert(unsorted.to_multiset().count(unsorted[i]) > 0);
        assert(sorted@.to_multiset().count(unsorted[i]) > 0);
        assert(sorted@.contains(unsorted[i]));
        let j = choose|j: int| 0 <= j < sorted@.len() && sorted@[j] == unsorted[i];
        assert(summarizes(sorted@[j], registry.listing()[i], devices@, statuses@[i], stream_count(stream_reports@[i])));
    }
    assert forall|j: int| 0 <= j < sorted@.len() implies node_for(
        #[trigger] sorted@[j],
        registry.listing(),
        devices@,
        statuses@,
        stream_reports@,
    ) by {
        unsorted.to_multiset_ensures();
        sorted@.to_multiset_ensures();
        assert(sorted@.contains(sorted@[j]));
        assert(sorted@.to_multiset().count(sorted@[j]) > 0);
        assert(unsorted.to_multiset().count(sorted@[j]) > 0);
        assert(unsorted.contains(sorted@[j]));
        let i = choose|i: int| 0 <= i < unsorted.len() && unsorted[i] == sorted@[j];
        assert(summarizes(sorted@[j], registry.listing()[i], devices@, statuses@[i], stream_count(stream_reports@[i])));
    }
    proof {
        law_lines_sorted_by_id(sorted@);
    }
    sorted
}

/// The details of one node shown by the node query.
pub struct ServerDetail {
    pub id: String,
    pub region_id: String,
    pub region_name: String,
    pub name: String,
    pub api_url: String,
    pub public_host: String,
    pub rtmp_port: u16,
    pub rtsp_port: u16,
    pub webrtc_port: u16,
    pub http_port: u16,
    pub status: String,
    pub devices: Vec<Device>,
}

/// The details of the node `id` with the health `status`: its settings, the
/// name of its region and the devices placed on it. 404 when no node has
/// the id.
pub fn server_detail(
    registry: &MediaServerRegistry,
    devices: &Vec<Device>,
    id: &str,
    status: &HealthStatus,
) -> (r: Result<ServerDetail, ApiError>)
    ensures
        match r {
            Ok(d) => {
                let s = registry.table()[id@];
                &&& registry.table().contains_key(id@)
                &&& d.id == s.id
                &&& d.region_id == s.region_id
                &&& d.region_name@ == region_name_of(registry.regions_view(), s.region_id@)
                &&& d.name == s.name
                &&& d.api_url == s.api_url
                &&& d.public_host == s.public_host
                &&& d.rtmp_port == s.rtmp_port
                &&& d.rtsp_port == s.rtsp_port
                &&& d.webrtc_port == s.webrtc_port
                &&& d.http_port == http_port_of(s)
                &&& d.status@ == health_text(*status)
                &&& d.devices@ == on_server(devices@, id@)
            },
            Err(e) => !registry.table().contains_key(id@) && is_not_found(
                e,
                "media server not found: "@ + id@,
            ),
        },
{
    match registry.get_server(id) {
        None => Err(ApiError::NotFound(message2("media server not found: ", id))),
        Some(s) => {
            Ok(
                ServerDetail {
                    id: s.id.clone(),
                    region_id: s.region_id.clone(),
                    region_name: registry.region_name(s.region_id.as_str()),
                    name: s.name.clone(),
                    api_url: s.api_url.clone(),
                    public_host: s.public_host.clone(),
                    rtmp_port: s.rtmp_port,
                    rtsp_port: s.rtsp_port,
                    webrtc_port: s.webrtc_port,
                    http_port: s.http_port(),
                    status: status.text(),
                    devices: devices_on_server(devices, id),
                },
            )
        },
    }
}

// ---------------------------------------------------------------------------
// Device listings
// ---------------------------------------------------------------------------

impl Keyed for DeviceWithStream {
    open spec fn key_view(&self) -> Seq<char> {
        self.device.id@
    }

    fn key(&self) -> (k: &String) {
        &self.device.id
    }
}

/// Some device of `devices` is placed on the node `server_id`.
pub open spec fn has_server(devices: Seq<Device>, server_id: Seq<char>) -> bool {
    exists|i: int| 0 <= i < devices.len() && (#[trigger] devices[i]).server_id@ == server_id
}

/// The distinct nodes the devices are placed on.
#[verifier::loop_isolation(false)]
pub fn servers_of(devices: &Vec<Device>) -> (ids: Vec<String>)
    ensures
        forall|i: int, j: int|
            0 <= i < ids@.len() && 0 <= j < ids@.len() && i != j ==> (#[trigger] ids@[i])@ != (
            #[trigger] ids@[j])@,
        forall|i: int| 0 <= i < ids@.len() ==> has_server(devices@, (#[trigger] ids@[i])@),
        forall|k: int| 0 <= k < devices@.len() ==> listed(ids@, (#[trigger] devices@[k]).server_id@),
{
    let mut ids: Vec<String> = Vec::new();
    let mut k: usize = 0;
    while k < devices.len()
        invariant
            k <= devices@.len(),
            forall|i: int, j: int|
                0 <= i < ids@.len() && 0 <= j < ids@.len() && i != j ==> (#[trigger] ids@[i])@ != (
                #[trigger] ids@[j])@,
            forall|i: int| 0 <= i < ids@.len() ==> has_server(devices@, (#[trigger] ids@[i])@),
            forall|m: int| 0 <= m < k ==> listed(ids@, (#[trigger] devices@[m]).server_id@),
        decreases devices@.len() - k,
    {
        let sid = &devices[k].server_id;
        let mut found = false;
        let mut a: usize = 0;
        while a < ids.len()
            invariant
                a <= ids@.len(),
                found ==> exists|i: int| 0 <= i < ids@.len() && (#[trigger] ids@[i])@ == sid@,
                !found ==> forall|i: int| 0 <= i < a ==> (#[trigger] ids@[i])@ != sid@,
            decreases ids@.len() - a,
        {
            if same_text(ids[a].as_str(), sid.as_str()) {
                found = true;
            }
            a = a + 1;
        }
        if !found {
            let ghost before = ids@;
            ids.push(sid.clone());
            assert(has_server(devices@, sid@)) by {
                assert(devices@[k as int].server_id@ == sid@);
            }
            assert forall|i: int, j: int|
                0 <= i < ids@.len() && 0 <= j < ids@.len() && i != j implies (#[trigger] ids@[i])@ != (
            #[trigger] ids@[j])@ by {
                if i < before.len() && j < before.len() {
                    assert(ids@[i] == before[i] && ids@[j] == before[j]);
                } else if i < before.len() {
                    assert(ids@[i] == before[i]);
                } else {
                    assert(ids@[j] == before[j]);
                }
            }
            assert forall|i: int| 0 <= i < ids@.len() implies has_server(devices@, (#[trigger] ids@[i])@) by {
                if i < before.len() {
                    assert(ids@[i] == before[i]);
                }
            }
            assert forall|m: int| 0 <= m < k + 1 implies listed(ids@, (#[trigger] devices@[m]).server_id@) by {
                if m < k {
                    assert(listed(before, devices@[m].server_id@));
                    let i = choose|i: int|
                        0 <= i < before.len() && (#[trigger] before[i])@ == devices@[m].server_id@;
                    assert(ids@[i] == before[i]);
                } else {
                    assert(ids@[before.len() as int]@ == devices@[m].server_id@);
                }
            }
        } else {
            assert(listed(ids@, devices@[k as int].server_id@));
        }
        k = k + 1;
    }
    ids
}

/// The stream ids reported by the node `server_id` in `online` (the first
/// entry for that node), if it answered.
pub open spec fn reported_ids(online: Seq<(String, Vec<String>)>, server_id: Seq<char>) -> Option<Seq<String>>
    decreases online.len(),
{
    if online.len() == 0 {
        None
    } else if online[0].0@ == server_id {
        Some(online[0].1@)
    } else {
        reported_ids(online.drop_first(), server_id)
    }
}

/// The device's stream is online: its node answered and listed the device's
/// id among its streams.
pub open spec fn online(online: Seq<(String, Vec<String>)>, device: Device) -> bool {
    match reported_ids(online, device.server_id@) {
        Some(ids) => exists|i: int| 0 <= i < ids.len() && (#[trigger] ids[i])@ == device.id@,
        None => false,
    }
}

/// Whether the stream of `device` is online, given the stream ids each
/// node that answered reported.
#[verifier::loop_isolation(false)]
pub fn stream_online(reports: &Vec<(String, Vec<String>)>, device: &Device) -> (r: bool)
    ensures
        r == online(reports@, *device),
        r == exists|i: int, j: int| #[trigger] lists_at(reports@, device.server_id@, device.id@, i, j),
{
    proof {
        law_online_iff_listed(reports@, *device);
    }
    let mut i: usize = 0;
    assert(reports@.skip(0) == reports@);
    while i < reports.len()
        invariant
            i <= reports@.len(),
            reported_ids(reports@, device.server_id@) == reported_ids(
                reports@.skip(i as int),
                device.server_id@,
            ),
        decreases reports@.len() - i,
    {
        assert(reports@.skip(i as int)[0] == reports@[i as int]);
        if same_text(reports[i].0.as_str(), device.server_id.as_str()) {
            let ids = &reports[i].1;
            assert(reported_ids(reports@, device.server_id@) == Some(ids@));
            let mut k: usize = 0;
            while k < ids.len()
                invariant
                    k <= ids@.len(),
                    forall|j: int| 0 <= j < k ==> (#[trigger] ids@[j])@ != device.id@,
                decreases ids@.len() - k,
            {
                if same_text(ids[k].as_str(), device.id.as_str()) {
                    assert(ids@[k as int]@ == device.id@);
                    assert(reported_ids(reports@, device.server_id@) == Some(ids@));
                    assert(reported_ids(reports@, device.server_id@) matches Some(x) && x[k as int]@ == device.id@);
                    assert(online(reports@, *device));
                    return true;
                }
                k = k + 1;
            }
            return false;
        }
        assert(reports@.skip(i as int).drop_first() == reports@.skip(i + 1));
        i = i + 1;
    }
    false
}

/// The device listing, sorted by device id; entries with the same id keep
/// their order.
pub fn sort_devices(items: Vec<DeviceWithStream>) -> (r: Vec<DeviceWithStream>)
    ensures
        r@.to_multiset() == items@.to_multiset(),
        r@.len() == items@.len(),
        sorted_by_key(r@),
        forall|k: Seq<char>| #[trigger] r@.filter(with_key::<DeviceWithStream>(k)) == items@.filter(
            with_key::<DeviceWithStream>(k),
        ),
        forall|i: int, j: int|
            0 <= i < j < r@.len() ==> lex_le((#[trigger] r@[i]).device.id@, (#[trigger] r@[j]).device.id@),
        forall|k: Seq<char>| #[trigger] r@.filter(with_device_id(k)) == items@.filter(with_device_id(k)),
{
    let r = sort_by_key(items);
    proof {
        law_entries_sorted_by_device_id(r@);
        assert forall|k: Seq<char>| #[trigger] r@.filter(with_device_id(k)) == items@.filter(with_device_id(k)) by {
            law_device_key_is_id(k);
            assert(r@.filter(with_key::<DeviceWithStream>(k)) == items@.filter(with_key::<DeviceWithStream>(k)));
        }
    }
    r
}

} // verus!

verus! {

/// The node chosen for a device belongs to the device's region, which
/// exists, and is a configured node.
pub proof fn law_chosen_server_in_region(
    registry: MediaServerRegistry,
    region_id: Seq<char>,
    server_id: Option<Seq<char>>,
)
    requires
        lists_table(registry.listing(), registry.table()),
    ensures
        server_choice(registry, region_id, server_id) matches Ok(s) ==> {
            &&& s.region_id@ == region_id
            &&& has_region(registry.regions_view(), region_id)
            &&& registry.table().contains_key(s.id@)
            &&& registry.table()[s.id@] == s
        },
{
    if server_choice(registry, region_id, server_id) is Ok {
        let s = server_choice(registry, region_id, server_id)->Ok_0;
        match server_id {
            Some(sid) => {
                law_table_ids(registry, sid);
            },
            None => {
                law_default_in_region(registry.listing(), region_id);
                let listing = registry.listing();
                let i = choose|i: int| 0 <= i < listing.len() && listing[i] == s;
                assert(registry.table().contains_key(listing[i].id@));
            },
        }
    }
}

} // verus!

verus! {

// ---------------------------------------------------------------------------
// Stream queries
// ---------------------------------------------------------------------------

/// The next thing to do for a request about one stream.
pub enum StreamStep<'a> {
    /// Ask the node of the stream's device; its answer, whatever it is, is
    /// the answer.
    AskDeviceNode(&'a MediaServerInstance, Device),
    /// Ask the node at this position of the listing; a 2xx answer is the
    /// answer.
    AskNode(usize, &'a MediaServerInstance),
    /// The node asked last answered with 2xx: its answer stands.
    Answered,
    /// No node has the stream: 404.
    NotFound,
}

/// The next step of a request about the stream `id`, after `last`: none
/// when nothing has been asked yet, otherwise the listing position of the
/// node asked last and whether it answered with 2xx. The node of the
/// device with the id is asked first, and alone; without one the nodes are
/// asked in listing order until one answers with 2xx.
pub fn next_stream_step<'a>(
    store: &DeviceStore,
    registry: &'a MediaServerRegistry,
    id: &str,
    last: Option<(usize, bool)>,
) -> (s: StreamStep<'a>)
    ensures
        match last {
            None => match device_node(*store, *registry, id@) {
                Some(n) => s matches StreamStep::AskDeviceNode(m, d) && *m == n && lookup(store@, id@)
                    == Some(d),
                None => if registry.listing().len() > 0 {
                    s matches StreamStep::AskNode(i, m) && i == 0 && *m == registry.listing()[0]
                } else {
                    s is NotFound
                },
            },
            Some((k, answered)) => if answered {
                s is Answered
            } else if k + 1 < registry.listing().len() {
                s matches StreamStep::AskNode(i, m) && i == k + 1 && *m == registry.listing()[k + 1]
            } else {
                s is NotFound
            },
        },
{
    let servers = registry.list_servers();
    match last {
        None => {
            match store.get(id) {
                Some(device) => match registry.get_server(device.server_id.as_str()) {
                    Some(server) => {
                        return StreamStep::AskDeviceNode(server, device);
                    },
                    None => {},
                },
                None => {},
            }
            if servers.len() > 0 {
                StreamStep::AskNode(0, servers[0])
            } else {
                StreamStep::NotFound
            }
        },
        Some((k, answered)) => {
            if answered {
                StreamStep::Answered
            } else if k < servers.len() && k + 1 < servers.len() {
                StreamStep::AskNode(k + 1, servers[k + 1])
            } else {
                StreamStep::NotFound
            }
        },
    }
}

/// The members of an object before the playback details are set: those of
/// an object, none for `null`.
pub open spec fn start_members(value: Json) -> Seq<(Seq<char>, Json)> {
    match value {
        Json::Object(fields) => members_view(fields@),
        _ => Seq::empty(),
    }
}

/// `u` is the JSON form of the playback addresses of the stream `stream_id`
/// on `server`.
pub open spec fn is_urls_json(u: Json, server: MediaServerInstance, stream_id: Seq<char>) -> bool {
    exists|urls: PlayUrls|
        #[trigger] urls_for(urls, server, stream_id) && (u matches Json::Object(f) && str_entries(
            members_view(f@),
            urls_entries(urls),
        ))
}

/// The members of a stream reply after its node is marked: `playUrls` set
/// to `urls`, `deviceId` to the device's id when there is a device, and
/// `serverId` and `regionId` to those of the device, or of the node when
/// there is none.
pub open spec fn stream_members(
    start: Seq<(Seq<char>, Json)>,
    urls: Json,
    server: MediaServerInstance,
    device: Option<Device>,
) -> Seq<(Seq<char>, Json)> {
    let a = with_member(start, "playUrls"@, urls);
    match device {
        Some(d) => with_member(
            with_member(with_member(a, "deviceId"@, Json::Str(d.id)), "serverId"@, Json::Str(d.server_id)),
            "regionId"@,
            Json::Str(d.region_id),
        ),
        None => with_member(
            with_member(a, "serverId"@, Json::Str(server.id)),
            "regionId"@,
            Json::Str(server.region_id),
        ),
    }
}

/// A node's reply about the stream `stream_id`, marked with where the stream
/// is played and which device and node it belongs to (see `stream_members`).
pub fn stream_reply(value: Json, server: &MediaServerInstance, stream_id: &str, device: Option<&Device>) -> (r:
    Json)
    requires
        value is Object || value is Null,
    ensures
        exists|u: Json|
            #[trigger] is_urls_json(u, *server, stream_id@) && (r matches Json::Object(g) && members_view(g@)
                == stream_members(
                start_members(value),
                u,
                *server,
                match device {
                    Some(d) => Some(*d),
                    None => None,
                },
            )),
{
    let play_urls = build_play_urls(server, stream_id);
    let urls = play_urls_json(&play_urls);
    let ghost u = urls;
    assert(is_urls_json(u, *server, stream_id@)) by {
        assert(urls_for(play_urls, *server, stream_id@));
    }
    proof {
        reveal_strlit("playUrls");
        reveal_strlit("deviceId");
        reveal_strlit("serverId");
        reveal_strlit("regionId");
    }
    let v = set_index(value, copy_str("playUrls"), urls);
    match device {
        Some(d) => {
            let v = set_index(v, copy_str("deviceId"), Json::Str(d.id.clone()));
            let v = set_index(v, copy_str("serverId"), Json::Str(d.server_id.clone()));
            set_index(v, copy_str("regionId"), Json::Str(d.region_id.clone()))
        },
        None => {
            let v = set_index(v, copy_str("serverId"), Json::Str(server.id.clone()));
            set_index(v, copy_str("regionId"), Json::Str(server.region_id.clone()))
        },
    }
}

} // verus!

verus! {

/// The entries of the array `streams` of a reply, or none.
pub open spec fn listed_streams(reply: Json) -> Seq<Json> {
    match array_member(reply, "streams"@) {
        Some(a) => a,
        None => Seq::empty(),
    }
}

/// The streams a node reported, for its details: the entries of the array
/// `streams` of its reply, none when the request failed.
pub fn node_streams(reply: Result<(u16, Json), UpstreamError>) -> (r: Vec<Json>)
    ensures
        r@ == match reply {
            Ok((_, v)) => listed_streams(v),
            Err(_) => Seq::<Json>::empty(),
        },
{
    match reply {
        Ok((_, v)) => streams_of(v),
        Err(_) => Vec::new(),
    }
}

/// The stream list gathered so far, `acc`, after the node `server` replied
/// `reply`: extended by the node's streams, each marked with the node and
/// its region, when it answered with 2xx; unchanged for another answer; and
/// the node's error when the request failed, which ends the gathering.
pub fn add_node_streams(
    acc: Vec<Json>,
    server: &MediaServerInstance,
    reply: Result<(u16, Json), UpstreamError>,
) -> (r: Result<Vec<Json>, UpstreamError>)
    ensures
        match reply {
            Err(e) => r matches Err(e2) && e2 == e,
            Ok((status, v)) => if is_success(status) {
                r matches Ok(all) && {
                    &&& all@.len() == acc@.len() + listed_streams(v).len()
                    &&& forall|i: int| 0 <= i < acc@.len() ==> all@[i] == acc@[i]
                    &&& forall|i: int|
                        0 <= i < listed_streams(v).len() ==> tagged(
                            #[trigger] all@[acc@.len() + i],
                            listed_streams(v)[i],
                            server.id,
                            server.region_id,
                        )
                }
            } else {
                r matches Ok(all) && all@ == acc@
            },
        },
{
    match reply {
        Err(e) => Err(e),
        Ok((status, v)) => {
            if !(200 <= status && status <= 299) {
                return Ok(acc);
            }
            let ghost items0 = listed_streams(v);
            let mut items = streams_of(v);
            let mut all = acc;
            let ghost start = all@;
            let n = items.len();
            let mut i: usize = 0;
            while i < n
                invariant
                    n == items0.len(),
                    i <= n,
                    items@ == items0.skip(i as int),
                    all@.len() == start.len() + i,
                    forall|k: int| 0 <= k < start.len() ==> all@[k] == start[k],
                    forall|k: int|
                        0 <= k < i ==> tagged(#[trigger] all@[start.len() + k], items0[k], server.id, server.region_id),
                decreases n - i,
            {
                let item = items.remove(0);
                assert(item == items0[i as int]);
                let ghost before = all@;
                all.push(tag_with_server(item, &server.id, &server.region_id));
                assert(items@ =~= items0.skip(i + 1));
                assert forall|k: int| 0 <= k < i + 1 implies tagged(
                    #[trigger] all@[start.len() + k],
                    items0[k],
                    server.id,
                    server.region_id,
                ) by {
                    if k < i {
                        assert(all@[start.len() + k] == before[start.len() + k]);
                    }
                }
                i = i + 1;
            }
            Ok(all)
        },
    }
}

} // verus!

verus! {

// ---------------------------------------------------------------------------
// Health entries
// ---------------------------------------------------------------------------

/// What a node's health check gave: no client for the node, its answer, or
/// the error of the failed request.
pub enum HealthCheck {
    NoClient,
    Answered(Json),
    Failed(UpstreamError),
}

/// `e` is the member `error` with the text of the upstream error `u`.
pub open spec fn is_error_member(e: (Seq<char>, Json), u: UpstreamError) -> bool {
    e.0 == "error"@ && (e.1 matches Json::Str(t) && t@ == error_text(u))
}

/// The health state a check shows.
pub open spec fn check_status(check: HealthCheck) -> HealthStatus {
    match check {
        HealthCheck::NoClient => HealthStatus::Misconfigured,
        HealthCheck::Answered(_) => HealthStatus::Healthy,
        HealthCheck::Failed(_) => HealthStatus::Unhealthy,
    }
}

/// `e` is the member `key` with the text `t`.
pub open spec fn is_text_member(e: (Seq<char>, Json), key: Seq<char>, t: String) -> bool {
    e.0 == key && e.1 == Json::Str(t)
}

/// `e` is the member `status` with the name of `h`.
pub open spec fn is_status_member(e: (Seq<char>, Json), h: HealthStatus) -> bool {
    e.0 == "status"@ && (e.1 matches Json::Str(s) && s@ == health_text(h))
}

/// The members of a node's entry in the health list: the node's id,
/// region, name and API URL with the state and the answer or the failure;
/// only the id and the state when the node has no client.
pub open spec fn entry_members(m: Seq<(Seq<char>, Json)>, server: MediaServerInstance, check: HealthCheck) -> bool {
    match check {
        HealthCheck::NoClient => {
            &&& m.len() == 2
            &&& is_text_member(m[0], "serverId"@, server.id)
            &&& is_status_member(m[1], HealthStatus::Misconfigured)
        },
        HealthCheck::Answered(d) => {
            &&& m.len() == 6
            &&& is_text_member(m[0], "serverId"@, server.id)
            &&& is_text_member(m[1], "regionId"@, server.region_id)
            &&& is_text_member(m[2], "name"@, server.name)
            &&& is_text_member(m[3], "apiUrl"@, server.api_url)
            &&& is_status_member(m[4], HealthStatus::Healthy)
            &&& m[5] == ("detail"@, d)
        },
        HealthCheck::Failed(e) => {
            &&& m.len() == 6
            &&& is_text_member(m[0], "serverId"@, server.id)
            &&& is_text_member(m[1], "regionId"@, server.region_id)
            &&& is_text_member(m[2], "name"@, server.name)
            &&& is_text_member(m[3], "apiUrl"@, server.api_url)
            &&& is_status_member(m[4], HealthStatus::Unhealthy)
            &&& is_error_member(m[5], e)
        },
    }
}

fn push_member(v: &mut Vec<(String, Json)>, key: &str, value: Json)
    ensures
        final(v)@.len() == old(v)@.len() + 1,
        forall|i: int| 0 <= i < old(v)@.len() ==> final(v)@[i] == old(v)@[i],
        final(v)@.last().0@ == key@,
        final(v)@.last().1 == value,
{
    v.push((copy_str(key), value));
}

/// The health state of `server` and its entry in the health list.
pub fn health_entry(server: &MediaServerInstance, check: HealthCheck) -> (r: (HealthStatus, Json))
    ensures
        r.0 == check_status(check),
        check is Answered ==> r.0 == HealthStatus::Healthy,
        check is Failed ==> r.0 == HealthStatus::Unhealthy,
        check is NoClient ==> r.0 == HealthStatus::Misconfigured,
        r.1 matches Json::Object(f) && entry_members(members_view(f@), *server, check),
{
    let ghost c = check;
    proof {
        reveal_strlit("serverId");
        reveal_strlit("regionId");
        reveal_strlit("name");
        reveal_strlit("apiUrl");
        reveal_strlit("status");
        reveal_strlit("detail");
        reveal_strlit("error");
    }
    let mut v: Vec<(String, Json)> = Vec::new();
    push_member(&mut v, "serverId", Json::Str(server.id.clone()));
    let status = match check {
        HealthCheck::NoClient => HealthStatus::Misconfigured,
        HealthCheck::Answered(_) => HealthStatus::Healthy,
        HealthCheck::Failed(_) => HealthStatus::Unhealthy,
    };
    match check {
        HealthCheck::NoClient => {
            let ghost v1 = v@;
            push_member(&mut v, "status", Json::Str(status.text()));
            assert(v@[0] == v1[0]);
        },
        HealthCheck::Answered(d) => {
            push_member(&mut v, "regionId", Json::Str(server.region_id.clone()));
            push_member(&mut v, "name", Json::Str(server.name.clone()));
            push_member(&mut v, "apiUrl", Json::Str(server.api_url.clone()));
            push_member(&mut v, "status", Json::Str(status.text()));
            push_member(&mut v, "detail", d);
        },
        HealthCheck::Failed(e) => {
            push_member(&mut v, "regionId", Json::Str(server.region_id.clone()));
            push_member(&mut v, "name", Json::Str(server.name.clone()));
            push_member(&mut v, "apiUrl", Json::Str(server.api_url.clone()));
            push_member(&mut v, "status", Json::Str(status.text()));
            push_member(&mut v, "error", Json::Str(e.message()));
        },
    }
    (status, Json::Object(v))
}

} // verus!

verus! {

/// The health state of a node looked up by id: unknown when there is no
/// such node, otherwise the state its check shows.
pub open spec fn node_status(server: Option<MediaServerInstance>, check: HealthCheck) -> HealthStatus {
    match server {
        None => HealthStatus::Unknown,
        Some(_) => check_status(check),
    }
}

/// The members of the health shown with a node's details: the state, with
/// the API URL when the node has no client, the answer, or the failure.
pub open spec fn detail_health_members(
    m: Seq<(Seq<char>, Json)>,
    server: Option<MediaServerInstance>,
    check: HealthCheck,
) -> bool {
    match server {
        None => m.len() == 1 && is_status_member(m[0], HealthStatus::Unknown),
        Some(s) => {
            &&& m.len() == 2
            &&& is_status_member(m[0], check_status(check))
            &&& match check {
                HealthCheck::NoClient => is_text_member(m[1], "apiUrl"@, s.api_url),
                HealthCheck::Answered(d) => m[1] == ("detail"@, d),
                HealthCheck::Failed(e) => is_error_member(m[1], e),
            }
        },
    }
}

/// The health state of the node `server` (none when no node has the id
/// asked for) and the health shown with its details.
pub fn node_health(server: Option<&MediaServerInstance>, check: HealthCheck) -> (r: (HealthStatus, Json))
    ensures
        server is None ==> r.0 == HealthStatus::Unknown,
        server is Some && check is Answered ==> r.0 == HealthStatus::Healthy,
        server is Some && check is Failed ==> r.0 == HealthStatus::Unhealthy,
        server is Some && check is NoClient ==> r.0 == HealthStatus::Misconfigured,
        r.1 matches Json::Object(f) && members_view(f@).len() > 0 && members_view(f@)[0].0 == "status"@
            && (members_view(f@)[0].1 matches Json::Str(t) && t@ == match server {
            None => "unknown"@,
            Some(_) => match check {
                HealthCheck::NoClient => "misconfigured"@,
                HealthCheck::Answered(_) => "healthy"@,
                HealthCheck::Failed(_) => "unhealthy"@,
            },
        }),
        r.0 == node_status(
            match server {
                Some(s) => Some(*s),
                None => None,
            },
            check,
        ),
        r.1 matches Json::Object(f) && detail_health_members(
            members_view(f@),
            match server {
                Some(s) => Some(*s),
                None => None,
            },
            check,
        ),
{
    proof {
        reveal_strlit("status");
        reveal_strlit("apiUrl");
        reveal_strlit("detail");
        reveal_strlit("error");
    }
    let mut v: Vec<(String, Json)> = Vec::new();
    match server {
        None => {
            push_member(&mut v, "status", Json::Str(HealthStatus::Unknown.text()));
            (HealthStatus::Unknown, Json::Object(v))
        },
        Some(s) => {
            let status = match check {
                HealthCheck::NoClient => HealthStatus::Misconfigured,
                HealthCheck::Answered(_) => HealthStatus::Healthy,
                HealthCheck::Failed(_) => HealthStatus::Unhealthy,
            };
            push_member(&mut v, "status", Json::Str(status.text()));
            match check {
                HealthCheck::NoClient => push_member(&mut v, "apiUrl", Json::Str(s.api_url.clone())),
                HealthCheck::Answered(d) => push_member(&mut v, "detail", d),
                HealthCheck::Failed(e) => push_member(&mut v, "error", Json::Str(e.message())),
            }
            (status, Json::Object(v))
        },
    }
}

} // verus!

verus! {

// ---------------------------------------------------------------------------
// Answers of a node read for the API
// ---------------------------------------------------------------------------

/// The details of a stream from the node `server_id`, given the outcome of
/// the query: none when the manager has no client for the node (then an
/// unknown-server error), otherwise the details when the node answered with
/// 2xx and none when it did not.
pub fn stream_lookup(server_id: &str, reply: Option<Result<(u16, Json), UpstreamError>>) -> (r: Result<
    Option<StreamInfo>,
    RegistryError,
>)
    ensures
        match reply {
            None => r matches Err(RegistryError::UnknownServer(id)) && id@ == server_id@,
            Some(Ok((status, v))) => if is_success(status) {
                r matches Ok(Some(info)) && describes_stream(info, v)
            } else {
                r matches Ok(None)
            },
            Some(Err(_)) => r matches Ok(None),
        },
{
    match reply {
        None => Err(RegistryError::UnknownServer(copy_str(server_id))),
        Some(rep) => Ok(stream_info_from(&rep)),
    }
}

/// The metrics shown with a node's details: the node's answer, or an object
/// whose `error` is the text of what failed: an unknown server when the
/// manager has no client for it, the upstream error otherwise.
pub fn node_metrics(server_id: &str, reply: Option<Result<(u16, Json), UpstreamError>>) -> (r: Json)
    ensures
        match reply {
            Some(Ok((_, v))) => r == v,
            Some(Err(e)) => r matches Json::Object(f) && members_view(f@).len() == 1 && is_error_member(
                members_view(f@)[0],
                e,
            ),
            None => r matches Json::Object(f) && members_view(f@).len() == 1 && members_view(f@)[0].0
                == "error"@ && (members_view(f@)[0].1 matches Json::Str(t) && t@ == "unknown server: "@
                + server_id@),
        },
{
    proof {
        reveal_strlit("error");
    }
    let mut v: Vec<(String, Json)> = Vec::new();
    match reply {
        Some(Ok((_, value))) => value,
        Some(Err(e)) => {
            push_member(&mut v, "error", Json::Str(e.message()));
            Json::Object(v)
        },
        None => {
            push_member(&mut v, "error", Json::Str(RegistryError::UnknownServer(copy_str(server_id)).message()));
            Json::Object(v)
        },
    }
}

/// A device of the listing with its stream: online when its node listed
/// its id (see `online`); then with the details `fetched` gave, if any,
/// and with none when it is offline.
pub fn device_with_stream(
    reports: &Vec<(String, Vec<String>)>,
    device: Device,
    fetched: Option<Result<Option<StreamInfo>, RegistryError>>,
) -> (r: DeviceWithStream)
    ensures
        r.device == device,
        r.stream_online == online(reports@, device),
        r.stream_online ==> r.stream == match fetched {
            Some(Ok(info)) => info,
            _ => None,
        },
        !r.stream_online ==> r.stream is None,
{
    let is_online = stream_online(reports, &device);
    let stream = if is_online {
        match fetched {
            Some(Ok(info)) => info,
            _ => None,
        }
    } else {
        None
    };
    DeviceWithStream { device, stream_online: is_online, stream }
}

/// A single device with its stream: the details the query gave, if any;
/// online exactly when there are details.
pub fn device_with_lookup(device: Device, fetched: Result<Option<StreamInfo>, RegistryError>) -> (r:
    DeviceWithStream)
    ensures
        r.device == device,
        r.stream == match fetched {
            Ok(info) => info,
            Err(_) => None,
        },
        r.stream_online == r.stream is Some,
{
    let stream = match fetched {
        Ok(info) => info,
        Err(_) => None,
    };
    let is_online = stream.is_some();
    DeviceWithStream { device, stream_online: is_online, stream }
}

/// The node `id`; 404 when no node has it.
pub fn find_server<'a>(registry: &'a MediaServerRegistry, id: &str) -> (r: Result<&'a MediaServerInstance, ApiError>)
    ensures
        match r {
            Ok(s) => registry.table().contains_key(id@) && *s == registry.table()[id@],
            Err(e) => !registry.table().contains_key(id@) && is_not_found(e, "media server not found: "@ + id@),
        },
{
    match registry.get_server(id) {
        Some(s) => Ok(s),
        None => Err(ApiError::NotFound(message2("media server not found: ", id))),
    }
}

} // verus!

verus! {

/// Report `i` is the first one from the node `server_id`, and its stream
/// id at position `j` is `id`.
pub open spec fn lists_at(
    reports: Seq<(String, Vec<String>)>,
    server_id: Seq<char>,
    id: Seq<char>,
    i: int,
    j: int,
) -> bool {
    &&& 0 <= i < reports.len()
    &&& reports[i].0@ == server_id
    &&& forall|k: int| 0 <= k < i ==> (#[trigger] reports[k]).0@ != server_id
    &&& 0 <= j < reports[i].1@.len()
    &&& reports[i].1@[j]@ == id
}

/// A device is online exactly when the first report from its node lists
/// the device's id, at any position.
pub proof fn law_online_iff_listed(reports: Seq<(String, Vec<String>)>, device: Device)
    ensures
        online(reports, device) <==> exists|i: int, j: int|
            #[trigger] lists_at(reports, device.server_id@, device.id@, i, j),
    decreases reports.len(),
{
    let sid = device.server_id@;
    let id = device.id@;
    if reports.len() == 0 {
        assert(!online(reports, device));
        assert(!exists|i: int, j: int| #[trigger] lists_at(reports, sid, id, i, j));
    } else if reports[0].0@ == sid {
        let ids = reports[0].1@;
        assert(reported_ids(reports, sid) == Some(ids));
        if online(reports, device) {
            let j = choose|j: int| 0 <= j < ids.len() && (#[trigger] ids[j])@ == id;
            assert(lists_at(reports, sid, id, 0, j));
        }
        if exists|i: int, j: int| #[trigger] lists_at(reports, sid, id, i, j) {
            let (i, j) = choose|i: int, j: int| #[trigger] lists_at(reports, sid, id, i, j);
            if i > 0 {
                assert(reports[0].0@ != sid);
            }
            assert(i == 0);
            assert(ids[j]@ == id);
            assert(reported_ids(reports, sid) matches Some(x) && x[j]@ == id);
            assert(online(reports, device));
        }
    } else {
        let tail = reports.drop_first();
        law_online_iff_listed(tail, device);
        assert(reported_ids(reports, sid) == reported_ids(tail, sid));
        if exists|i: int, j: int| #[trigger] lists_at(tail, sid, id, i, j) {
            let (i, j) = choose|i: int, j: int| #[trigger] lists_at(tail, sid, id, i, j);
            assert(reports[i + 1] == tail[i]);
            assert forall|k: int| 0 <= k < i + 1 implies (#[trigger] reports[k]).0@ != sid by {
                if k > 0 {
                    assert(reports[k] == tail[k - 1]);
                }
            }
            assert(lists_at(reports, sid, id, i + 1, j));
        }
        if exists|i: int, j: int| #[trigger] lists_at(reports, sid, id, i, j) {
            let (i, j) = choose|i: int, j: int| #[trigger] lists_at(reports, sid, id, i, j);
            assert(i > 0);
            assert(tail[i - 1] == reports[i]);
            assert forall|k: int| 0 <= k < i - 1 implies (#[trigger] tail[k]).0@ != sid by {
                assert(tail[k] == reports[k + 1]);
            }
            assert(lists_at(tail, sid, id, i - 1, j));
        }
        assert(online(reports, device) == online(tail, device));
    }
}

} // verus!

verus! {

/// Whether a device entry is for the device id `k`.
pub open spec fn with_device_id(k: Seq<char>) -> spec_fn(DeviceWithStream) -> bool {
    |x: DeviceWithStream| x.device.id@ == k
}

/// Lines in ascending key order are in ascending order of node id: the key
/// of a listing line is its node's id.
pub proof fn law_lines_sorted_by_id(lines: Seq<ServerSummary>)
    requires
        sorted_by_key(lines),
    ensures
        forall|i: int, j: int|
            0 <= i < j < lines.len() ==> lex_le((#[trigger] lines[i]).id@, (#[trigger] lines[j]).id@),
{
    assert forall|i: int, j: int| 0 <= i < j < lines.len() implies lex_le(
        (#[trigger] lines[i]).id@,
        (#[trigger] lines[j]).id@,
    ) by {
        assert(lex_le(lines[i].key_view(), lines[j].key_view()));
        assert(lines[i].key_view() == lines[i].id@);
        assert(lines[j].key_view() == lines[j].id@);
    }
}

/// Device entries in ascending key order are in ascending order of device
/// id: the key of a device entry is its device's id.
pub proof fn law_entries_sorted_by_device_id(entries: Seq<DeviceWithStream>)
    requires
        sorted_by_key(entries),
    ensures
        forall|i: int, j: int|
            0 <= i < j < entries.len() ==> lex_le(
                (#[trigger] entries[i]).device.id@,
                (#[trigger] entries[j]).device.id@,
            ),
{
    assert forall|i: int, j: int| 0 <= i < j < entries.len() implies lex_le(
        (#[trigger] entries[i]).device.id@,
        (#[trigger] entries[j]).device.id@,
    ) by {
        assert(lex_le(entries[i].key_view(), entries[j].key_view()));
        assert(entries[i].key_view() == entries[i].device.id@);
        assert(entries[j].key_view() == entries[j].device.id@);
    }
}

/// Selecting device entries by key is selecting them by device id.
pub proof fn law_device_key_is_id(k: Seq<char>)
    ensures
        with_key::<DeviceWithStream>(k) == with_device_id(k),
{
    assert forall|x: DeviceWithStream| #[trigger] with_key::<DeviceWithStream>(k)(x) == with_device_id(k)(x) by {
        assert(x.key_view() == x.device.id@);
    }
    assert(with_key::<DeviceWithStream>(k) =~= with_device_id(k));
}

} // verus!

verus! {

/// The health shown for a node follows its check: a node no one has is
/// unknown; a node without a client is misconfigured; a node that answered
/// is healthy and one whose check failed is unhealthy, both in the node
/// list and in a node's details.
pub proof fn law_health_follows_check(server: MediaServerInstance, check: HealthCheck)
    ensures
        node_status(None, check) == HealthStatus::Unknown,
        node_status(Some(server), check) == check_status(check),
        check is Answered ==> check_status(check) == HealthStatus::Healthy,
        check is Failed ==> check_status(check) == HealthStatus::Unhealthy,
        check is NoClient ==> check_status(check) == HealthStatus::Misconfigured,
        health_text(HealthStatus::Healthy) == "healthy"@,
        health_text(HealthStatus::Unhealthy) == "unhealthy"@,
        health_text(HealthStatus::Misconfigured) == "misconfigured"@,
        health_text(HealthStatus::Unknown) == "unknown"@,
{
}

} // verus!
