//! The settings of the manager, from the values of its environment
//! variables. Reading the environment and the configuration file is left to
//! the caller.

use vstd::prelude::*;

use crate::model::{default_webrtc_port, MediaServerInstance, Region, ServersConfig};
use crate::text::{chars_of, copy_str, parse_u16, parse_u16_spec};

verus! {

/// The settings of the manager.
pub struct Config {
    pub port: u16,
    pub devices_file: String,
    pub servers_config: ServersConfig,
}

/// The number a variable holds when it is set to a port number (see
/// `parse_u16_spec`), otherwise `default`.
pub open spec fn u16_or(value: Option<Seq<char>>, default: u16) -> u16 {
    match value {
        Some(v) => match parse_u16_spec(v) {
            Some(p) => p,
            None => default,
        },
        None => default,
    }
}

/// The value of a variable read as a port number, or `default` when it is
/// unset or not a port number.
pub fn read_u16(value: Option<&str>, default: u16) -> (r: u16)
    ensures
        r == u16_or(
            match value {
                Some(v) => Some(v@),
                None => None,
            },
            default,
        ),
{
    match value {
        None => default,
        Some(v) => {
            let chars = chars_of(v);
            assert(chars@.subrange(0, chars@.len() as int) == chars@);
            match parse_u16(&chars, 0, chars.len()) {
                Some(p) => p,
                None => default,
            }
        },
    }
}

/// The value of a variable, or `default` when it is unset.
pub fn text_or(value: Option<String>, default: &str) -> (r: String)
    ensures
        r@ == match value {
            Some(v) => v@,
            None => default@,
        },
{
    match value {
        Some(v) => v,
        None => copy_str(default),
    }
}

/// The single-node deployment used when no servers file exists: region
/// `default` with node `default-01`, whose API URL and public host come from
/// the variables when they are set (by default `http://127.0.0.1:8081` and
/// `127.0.0.1`), with RTMP on 1935, RTSP on 554 and WebRTC on 9080.
pub fn default_servers(media_server_url: Option<String>, public_host: Option<String>) -> (c:
    ServersConfig)
    ensures
        c.regions@.len() == 1,
        c.regions@[0].id@ == "default"@,
        c.regions@[0].name@ == "默认区域"@,
        c.servers@.len() == 1,
        c.servers@[0].id@ == "default-01"@,
        c.servers@[0].region_id@ == "default"@,
        c.servers@[0].name@ == "本地节点"@,
        c.servers@[0].api_url@ == match media_server_url {
            Some(v) => v@,
            None => "http://127.0.0.1:8081"@,
        },
        c.servers@[0].public_host@ == match public_host {
            Some(v) => v@,
            None => "127.0.0.1"@,
        },
        c.servers@[0].rtmp_port == 1935,
        c.servers@[0].rtsp_port == 554,
        c.servers@[0].webrtc_port == 9080,
{
    let mut regions: Vec<Region> = Vec::new();
    regions.push(Region { id: copy_str("default"), name: copy_str("默认区域") });
    let mut servers: Vec<MediaServerInstance> = Vec::new();
    servers.push(
        MediaServerInstance {
            id: copy_str("default-01"),
            region_id: copy_str("default"),
            name: copy_str("本地节点"),
            api_url: text_or(media_server_url, "http://127.0.0.1:8081"),
            public_host: text_or(public_host, "127.0.0.1"),
            rtmp_port: 1935,
            rtsp_port: 554,
            webrtc_port: default_webrtc_port(),
        },
    );
    ServersConfig { regions, servers }
}

impl Config {
    /// The settings from the values of `PORT` (default 8090) and
    /// `DEVICES_FILE` (default `data/devices.json`), with the deployment
    /// `servers_config`.
    pub fn from_values(port: Option<&str>, devices_file: Option<String>, servers_config: ServersConfig) -> (c:
        Config)
        ensures
            c.port == u16_or(
                match port {
                    Some(v) => Some(v@),
                    None => None,
                },
                8090,
            ),
            c.devices_file@ == match devices_file {
                Some(v) => v@,
                None => "data/devices.json"@,
            },
            c.servers_config == servers_config,
    {
        Config {
            port: read_u16(port, 8090),
            devices_file: text_or(devices_file, "data/devices.json"),
            servers_config,
        }
    }
}

/// The path of the servers file: the value of `SERVERS_CONFIG`, or
/// `servers.json`.
pub fn servers_config_path(value: Option<String>) -> (r: String)
    ensures
        r@ == match value {
            Some(v) => v@,
            None => "servers.json"@,
        },
{
    text_or(value, "servers.json")
}

} // verus!
