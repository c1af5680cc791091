# vcp_media_manager

A management back end for media servers: regions, media server nodes, and the
devices that push streams to them. The decisions it makes are written in Verus
and proved against their contracts; the HTTP server around them is ordinary
Rust.

## Layout

- `src/` — the verified library.
  - `text` — trimming, decimal numbers, the order of `str::cmp`.
  - `model` — regions, nodes, devices; the port a node's API URL names.
  - `play_urls` — the playback addresses of a stream on a node.
  - `device_store` — the device list: add, change, remove, look up; the
    current time.
  - `registry` — the regions and nodes of a deployment, keyed by id, and
    the client of each node.
  - `json` — JSON values as media servers send them, and the fields read
    from them.
  - `client` — the messages exchanged with a media server and how its
    replies are read.
  - `sort` — ordering by a text key.
  - `api` — what the HTTP API accepts, changes and answers, and which
    node a stream request goes to.
  - `config` — the settings, from the values of the environment.
- `tests/` — tests of the library.
- `app/` — the HTTP server: configuration and device files, the HTTP client
  for the media servers, and the request handlers.

## Settings

The server listens on port 8090 (`PORT`). Regions and nodes are read from
`servers.json` (`SERVERS_CONFIG`); without it, a single node is taken from
`MEDIA_SERVER_URL` and `MEDIA_PUBLIC_HOST`. Devices are kept in
`data/devices.json` (`DEVICES_FILE`).
