//! The playback addresses of a stream on a media server node.

use vstd::prelude::*;

use crate::model::{port_from_url, default_http_port, MediaServerInstance, PlayUrls};
use crate::json::{members_view, Json};
use crate::text::{copy_str, decimal, push_decimal};

verus! {

/// `scheme + host + ":" + port + rest`.
pub open spec fn address(scheme: Seq<char>, host: Seq<char>, port: u16, rest: Seq<char>) -> Seq<
    char,
> {
    scheme + host + ":"@ + decimal(port as nat) + rest
}

/// The HTTP port of `server` (see `MediaServerInstance::http_port`).
pub open spec fn http_port_of(server: MediaServerInstance) -> u16 {
    port_from_url(server.api_url@, default_http_port())
}

/// `urls` are the playback addresses of the stream `stream_id` on `server`:
/// RTMP and RTSP on their own ports, HTTP-FLV, HLS and the WebRTC test page
/// on the port of the API URL, and an empty signaling address.
pub open spec fn urls_for(urls: PlayUrls, server: MediaServerInstance, stream_id: Seq<char>) -> bool {
    &&& urls.rtmp@ == address("rtmp://"@, server.public_host@, server.rtmp_port, "/live/"@ + stream_id)
    &&& urls.rtsp@ == address("rtsp://"@, server.public_host@, server.rtsp_port, "/"@ + stream_id)
    &&& urls.http_flv matches Some(u) && u@ == address(
        "http://"@,
        server.public_host@,
        http_port_of(server),
        "/flv/"@ + stream_id,
    )
    &&& urls.hls matches Some(u) && u@ == address(
        "http://"@,
        server.public_host@,
        http_port_of(server),
        "/hls/"@ + stream_id + "/live.m3u8"@,
    )
    &&& urls.webrtc_test_page@ == address(
        "http://"@,
        server.public_host@,
        http_port_of(server),
        "/webrtc/webrtc-test.html"@,
    )
    &&& urls.webrtc_signaling_url@ == Seq::<char>::empty()
}

fn address_string(scheme: &str, host: &str, port: u16, rest1: &str, rest2: &str, rest3: &str) -> (r:
    String)
    ensures
        r@ == address(scheme@, host@, port, rest1@ + rest2@ + rest3@),
{
    let mut s = String::new();
    s.append(scheme);
    s.append(host);
    s.append(":");
    push_decimal(&mut s, port as u64);
    s.append(rest1);
    s.append(rest2);
    s.append(rest3);
    assert(s@ =~= address(scheme@, host@, port, rest1@ + rest2@ + rest3@));
    s
}

/// The RTMP, RTSP, HTTP-FLV, HLS and WebRTC test page addresses of the
/// stream `stream_id` on `server`. RTMP and RTSP use their own ports; the
/// HTTP addresses use the port of the server's API URL. The signaling
/// address is left empty.
pub fn build_play_urls(server: &MediaServerInstance, stream_id: &str) -> (urls: PlayUrls)
    ensures
        urls_for(urls, *server, stream_id@),
{
    let host = server.public_host.as_str();
    let http = server.http_port();
    let rtmp = address_string("rtmp://", host, server.rtmp_port, "/live/", stream_id, "");
    let rtsp = address_string("rtsp://", host, server.rtsp_port, "/", stream_id, "");
    let flv = address_string("http://", host, http, "/flv/", stream_id, "");
    let hls = address_string("http://", host, http, "/hls/", stream_id, "/live.m3u8");
    let page = address_string("http://", host, http, "/webrtc/webrtc-test.html", "", "");
    proof {
        reveal_strlit("");
        assert("/live/"@ + stream_id@ + ""@ =~= "/live/"@ + stream_id@);
        assert("/"@ + stream_id@ + ""@ =~= "/"@ + stream_id@);
        assert("/flv/"@ + stream_id@ + ""@ =~= "/flv/"@ + stream_id@);
        assert("/webrtc/webrtc-test.html"@ + ""@ + ""@ =~= "/webrtc/webrtc-test.html"@);
    }
    PlayUrls {
        rtmp,
        rtsp,
        http_flv: Some(flv),
        hls: Some(hls),
        webrtc_test_page: page,
        webrtc_signaling_url: String::new(),
    }
}

} // verus!

verus! {

/// The member `key` with the text of `v`, when `v` is set.
pub open spec fn opt_entry(key: Seq<char>, v: Option<String>) -> Seq<(Seq<char>, Seq<char>)> {
    match v {
        Some(s) => seq![(key, s@)],
        None => Seq::empty(),
    }
}

/// The members of the JSON form of `u`, in order, with their texts:
/// `rtmp`, `rtsp`, `httpFlv` and `hls` when set, `webrtcTestPage`,
/// `webrtcSignalingUrl`.
pub open spec fn urls_entries(u: PlayUrls) -> Seq<(Seq<char>, Seq<char>)> {
    seq![("rtmp"@, u.rtmp@), ("rtsp"@, u.rtsp@)] + opt_entry("httpFlv"@, u.http_flv) + opt_entry(
        "hls"@,
        u.hls,
    ) + seq![("webrtcTestPage"@, u.webrtc_test_page@), ("webrtcSignalingUrl"@, u.webrtc_signaling_url@)]
}

/// The members `f` are the named texts `e`, in order, each a JSON string.
pub open spec fn str_entries(f: Seq<(Seq<char>, Json)>, e: Seq<(Seq<char>, Seq<char>)>) -> bool {
    &&& f.len() == e.len()
    &&& forall|i: int|
        0 <= i < f.len() ==> (#[trigger] f[i]).0 == e[i].0 && (f[i].1 matches Json::Str(s) && s@ == e[i].1)
}

fn push_entry(v: &mut Vec<(String, Json)>, key: &str, text: &String)
    ensures
        final(v)@.len() == old(v)@.len() + 1,
        forall|i: int| 0 <= i < old(v)@.len() ==> final(v)@[i] == old(v)@[i],
        final(v)@.last().0@ == key@,
        final(v)@.last().1 matches Json::Str(s) && s@ == text@,
{
    v.push((copy_str(key), Json::Str(text.clone())));
}

/// The JSON object of playback addresses that API answers carry.
pub fn play_urls_json(urls: &PlayUrls) -> (r: Json)
    ensures
        r matches Json::Object(f) && str_entries(members_view(f@), urls_entries(*urls)),
{
    let mut v: Vec<(String, Json)> = Vec::new();
    let ghost mut e: Seq<(Seq<char>, Seq<char>)> = Seq::empty();
    proof {
        reveal_strlit("rtmp");
        reveal_strlit("rtsp");
        reveal_strlit("httpFlv");
        reveal_strlit("hls");
        reveal_strlit("webrtcTestPage");
        reveal_strlit("webrtcSignalingUrl");
    }
    push_entry(&mut v, "rtmp", &urls.rtmp);
    proof { e = e.push(("rtmp"@, urls.rtmp@)); }
    assert(str_entries(members_view(v@), e));
    push_entry(&mut v, "rtsp", &urls.rtsp);
    proof { e = e.push(("rtsp"@, urls.rtsp@)); }
    assert(str_entries(members_view(v@), e)) by {
        assert forall|i: int| 0 <= i < v@.len() implies (#[trigger] members_view(v@)[i]).0 == e[i].0
            && (members_view(v@)[i].1 matches Json::Str(s) && s@ == e[i].1) by {
            if i < 1 {
                assert(members_view(v@)[i] == members_view(v@.drop_last())[i]);
            }
        }
    }
    let ghost base = e;
    match &urls.http_flv {
        Some(t) => {
            let ghost before = v@;
            push_entry(&mut v, "httpFlv", t);
            proof { e = e.push(("httpFlv"@, t@)); }
            assert(str_entries(members_view(v@), e)) by {
                assert forall|i: int| 0 <= i < v@.len() implies (#[trigger] members_view(v@)[i]).0
                    == e[i].0 && (members_view(v@)[i].1 matches Json::Str(s) && s@ == e[i].1) by {
                    if i < before.len() {
                        assert(members_view(v@)[i] == members_view(before)[i]);
                    }
                }
            }
        },
        None => {},
    }
    assert(e == base + opt_entry("httpFlv"@, urls.http_flv));
    let ghost base2 = e;
    match &urls.hls {
        Some(t) => {
            let ghost before = v@;
            push_entry(&mut v, "hls", t);
            proof { e = e.push(("hls"@, t@)); }
            assert(str_entries(members_view(v@), e)) by {
                assert forall|i: int| 0 <= i < v@.len() implies (#[trigger] members_view(v@)[i]).0
                    == e[i].0 && (members_view(v@)[i].1 matches Json::Str(s) && s@ == e[i].1) by {
                    if i < before.len() {
                        assert(members_view(v@)[i] == members_view(before)[i]);
                    }
                }
            }
        },
        None => {},
    }
    assert(e == base2 + opt_entry("hls"@, urls.hls));
    let ghost before = v@;
    push_entry(&mut v, "webrtcTestPage", &urls.webrtc_test_page);
    proof { e = e.push(("webrtcTestPage"@, urls.webrtc_test_page@)); }
    assert(str_entries(members_view(v@), e)) by {
        assert forall|i: int| 0 <= i < v@.len() implies (#[trigger] members_view(v@)[i]).0 == e[i].0
            && (members_view(v@)[i].1 matches Json::Str(s) && s@ == e[i].1) by {
            if i < before.len() {
                assert(members_view(v@)[i] == members_view(before)[i]);
            }
        }
    }
    let ghost before = v@;
    push_entry(&mut v, "webrtcSignalingUrl", &urls.webrtc_signaling_url);
    proof { e = e.push(("webrtcSignalingUrl"@, urls.webrtc_signaling_url@)); }
    assert(str_entries(members_view(v@), e)) by {
        assert forall|i: int| 0 <= i < v@.len() implies (#[trigger] members_view(v@)[i]).0 == e[i].0
            && (members_view(v@)[i].1 matches Json::Str(s) && s@ == e[i].1) by {
            if i < before.len() {
                assert(members_view(v@)[i] == members_view(before)[i]);
            }
        }
    }
    assert(e =~= urls_entries(*urls));
    Json::Object(v)
}

} // verus!
