//! The data the manager works with: regions, media server nodes, devices and
//! the views of them that the API hands out.

use vstd::prelude::*;

use crate::text::{
    all_digits, chars_of, decimal, digit_char, digit_value, digits_value, is_digit, parse_u16,
    parse_u16_spec, sign_stripped,
};

verus! {

/// A logical region under which media servers are deployed.
pub struct Region {
    pub id: String,
    pub name: String,
}

impl Region {
    /// An exact copy.
    pub fn duplicate(&self) -> (r: Self)
        ensures
            r == *self,
    {
        Region { id: self.id.clone(), name: self.name.clone() }
    }
}

/// One media server node.
pub struct MediaServerInstance {
    pub id: String,
    pub region_id: String,
    pub name: String,
    pub api_url: String,
    pub public_host: String,
    pub rtmp_port: u16,
    pub rtsp_port: u16,
    pub webrtc_port: u16,
}

/// The WebRTC port of a node whose configuration names none.
pub fn default_webrtc_port() -> (p: u16)
    ensures
        p == 9080,
{
    9080
}

/// The HTTP port a node uses when its API URL names none.
pub open spec fn default_http_port() -> u16 {
    8081
}

impl MediaServerInstance {
    /// An exact copy.
    pub fn duplicate(&self) -> (r: Self)
        ensures
            r == *self,
    {
        MediaServerInstance {
            id: self.id.clone(),
            region_id: self.region_id.clone(),
            name: self.name.clone(),
            api_url: self.api_url.clone(),
            public_host: self.public_host.clone(),
            rtmp_port: self.rtmp_port,
            rtsp_port: self.rtsp_port,
            webrtc_port: self.webrtc_port,
        }
    }

    /// The port that HTTP, HLS, FLV and the WebRTC test page share with the
    /// API: the one in `api_url`, or 8081 when the URL names none.
    pub fn http_port(&self) -> (p: u16)
        ensures
            p == port_from_url(self.api_url@, default_http_port()),
    {
        parse_port_from_url(self.api_url.as_str(), 8081)
    }
}

// ---------------------------------------------------------------------------
// Ports in URLs
// ---------------------------------------------------------------------------

/// The first position at or after `from` where `//` begins, or `s.len()`.
pub open spec fn find_double_slash(s: Seq<char>, from: nat) -> nat
    decreases s.len() - from,
{
    if from + 1 >= s.len() {
        s.len()
    } else if s[from as int] == '/' && s[from + 1int] == '/' {
        from
    } else {
        find_double_slash(s, from + 1)
    }
}

/// The first position at or after `from` that holds `c`, or `s.len()`.
pub open spec fn find_char(s: Seq<char>, c: char, from: nat) -> nat
    decreases s.len() - from,
{
    if from >= s.len() {
        s.len()
    } else if s[from as int] == c {
        from
    } else {
        find_char(s, c, from + 1)
    }
}

/// The last position that holds `c`, or -1.
pub open spec fn rfind_char(s: Seq<char>, c: char) -> int
    decreases s.len(),
{
    if s.len() == 0 {
        -1
    } else if s.last() == c {
        s.len() - 1
    } else {
        rfind_char(s.drop_last(), c)
    }
}

/// `raw.split("//").nth(1).unwrap_or(raw)`: the text between the first and
/// the second `//`, or all of `raw` when it holds no `//`.
pub open spec fn after_scheme(raw: Seq<char>) -> Seq<char> {
    let i = find_double_slash(raw, 0);
    if i == raw.len() {
        raw
    } else {
        let rest = raw.skip(i + 2int);
        rest.take(find_double_slash(rest, 0) as int)
    }
}

/// The authority of a URL: what follows the scheme, up to the first `/`.
pub open spec fn host_port(raw: Seq<char>) -> Seq<char> {
    let a = after_scheme(raw);
    a.take(find_char(a, '/', 0) as int)
}

/// The port written after the last `:` of the authority of `raw`, or
/// `default` when there is no `:` or what follows it is not a port number.
pub open spec fn port_from_url(raw: Seq<char>, default: u16) -> u16 {
    let h = host_port(raw);
    let k = rfind_char(h, ':');
    if k < 0 {
        default
    } else {
        match parse_u16_spec(h.skip(k + 1)) {
            Some(p) => p,
            None => default,
        }
    }
}

fn sub_chars(v: &Vec<char>, from: usize, to: usize) -> (r: Vec<char>)
    requires
        from <= to <= v@.len(),
    ensures
        r@ == v@.subrange(from as int, to as int),
{
    let mut r: Vec<char> = Vec::new();
    let mut i = from;
    while i < to
        invariant
            from <= i <= to <= v@.len(),
            r@ == v@.subrange(from as int, i as int),
        decreases to - i,
    {
        r.push(v[i]);
        assert(v@.subrange(from as int, i + 1) == v@.subrange(from as int, i as int).push(
            v@[i as int],
        ));
        i = i + 1;
    }
    r
}

fn first_double_slash(v: &Vec<char>) -> (r: usize)
    ensures
        r == find_double_slash(v@, 0),
        r <= v@.len(),
        r < v@.len() ==> r + 1 < v@.len(),
{
    let mut i: usize = 0;
    while i < v.len() && i + 1 < v.len() && !(v[i] == '/' && v[i + 1] == '/')
        invariant
            i <= v@.len(),
            find_double_slash(v@, 0) == find_double_slash(v@, i as nat),
        decreases v@.len() - i,
    {
        i = i + 1;
    }
    if i >= v.len() || i + 1 >= v.len() {
        v.len()
    } else {
        i
    }
}

fn first_char(v: &Vec<char>, c: char) -> (r: usize)
    ensures
        r == find_char(v@, c, 0),
        r <= v@.len(),
{
    let mut i: usize = 0;
    while i < v.len() && v[i] != c
        invariant
            i <= v@.len(),
            find_char(v@, c, 0) == find_char(v@, c, i as nat),
        decreases v@.len() - i,
    {
        i = i + 1;
    }
    i
}

fn last_char(v: &Vec<char>, c: char) -> (r: Option<usize>)
    ensures
        match r {
            Some(k) => k as int == rfind_char(v@, c) && k < v@.len(),
            None => rfind_char(v@, c) == -1,
        },
{
    let mut j = v.len();
    assert(v@.take(j as int) == v@);
    while j > 0 && v[j - 1] != c
        invariant
            j <= v@.len(),
            rfind_char(v@, c) == rfind_char(v@.take(j as int), c),
        decreases j,
    {
        assert(v@.take(j as int).drop_last() == v@.take(j - 1));
        j = j - 1;
    }
    if j == 0 {
        None
    } else {
        Some(j - 1)
    }
}

/// The port named in the URL `raw` (see `port_from_url`), or `default`.
pub fn parse_port_from_url(raw: &str, default: u16) -> (p: u16)
    ensures
        p == port_from_url(raw@, default),
{
    let v = chars_of(raw);
    let i = first_double_slash(&v);
    let a = if i == v.len() {
        sub_chars(&v, 0, v.len())
    } else {
        let rest = sub_chars(&v, i + 2, v.len());
        assert(v@.skip(i + 2) == v@.subrange(i + 2, v@.len() as int));
        let j = first_double_slash(&rest);
        assert(rest@.take(j as int) == v@.subrange(i + 2, i + 2 + j));
        sub_chars(&v, i + 2, i + 2 + j)
    };
    assert(v@.subrange(0, v@.len() as int) == v@);
    assert(a@ == after_scheme(raw@));
    let h_end = first_char(&a, '/');
    let h = sub_chars(&a, 0, h_end);
    assert(h@ == host_port(raw@));
    match last_char(&h, ':') {
        None => default,
        Some(k) => {
            assert(h@.skip(k + 1) == h@.subrange(k + 1, h@.len() as int));
            match parse_u16(&h, k + 1, h.len()) {
                Some(port) => port,
                None => default,
            }
        },
    }
}

// ---------------------------------------------------------------------------
// Devices and the views handed out by the API
// ---------------------------------------------------------------------------

/// A managed device. Its id is normally the id of the stream it pushes.
pub struct Device {
    pub id: String,
    pub name: String,
    pub region_id: String,
    pub server_id: String,
    pub description: Option<String>,
    pub created_at: String,
    pub updated_at: String,
}

/// The characters of an optional string.
pub open spec fn opt_view(s: Option<String>) -> Option<Seq<char>> {
    match s {
        Some(t) => Some(t@),
        None => None,
    }
}

/// An exact copy of an optional string.
pub fn duplicate_opt(s: &Option<String>) -> (r: Option<String>)
    ensures
        r == *s,
{
    match s {
        Some(t) => Some(t.clone()),
        None => None,
    }
}

impl Device {
    /// An exact copy.
    pub fn duplicate(&self) -> (r: Self)
        ensures
            r == *self,
    {
        Device {
            id: self.id.clone(),
            name: self.name.clone(),
            region_id: self.region_id.clone(),
            server_id: self.server_id.clone(),
            description: duplicate_opt(&self.description),
            created_at: self.created_at.clone(),
            updated_at: self.updated_at.clone(),
        }
    }
}

/// The regions and media servers of a deployment.
pub struct ServersConfig {
    pub regions: Vec<Region>,
    pub servers: Vec<MediaServerInstance>,
}

/// The addresses at which a stream can be played.
pub struct PlayUrls {
    pub rtmp: String,
    pub rtsp: String,
    pub http_flv: Option<String>,
    pub hls: Option<String>,
    pub webrtc_test_page: String,
    pub webrtc_signaling_url: String,
}

/// What a media server reports about one stream.
pub struct StreamInfo {
    pub status: Option<String>,
    pub status_description: Option<String>,
    pub playback_status: Option<String>,
    pub playback_description: Option<String>,
    pub protocol: Option<String>,
    pub tracks: Option<u64>,
}

/// A device together with the state of its stream.
pub struct DeviceWithStream {
    pub device: Device,
    pub stream_online: bool,
    pub stream: Option<StreamInfo>,
}

} // verus!

verus! {

// ---------------------------------------------------------------------------
// Laws of ports in URLs
// ---------------------------------------------------------------------------

proof fn lemma_find_ds_bounds(s: Seq<char>, from: nat)
    ensures
        find_double_slash(s, from) >= from || find_double_slash(s, from) == s.len(),
        find_double_slash(s, from) <= s.len() || find_double_slash(s, from) == from,
    decreases s.len() - from,
{
    if from + 1 < s.len() && !(s[from as int] == '/' && s[from + 1int] == '/') {
        lemma_find_ds_bounds(s, from + 1);
    }
}

proof fn lemma_find_ds_no_slash(s: Seq<char>, from: nat, bound: nat)
    requires
        from <= bound <= s.len(),
        forall|j: int| from <= j < bound ==> s[j] != '/',
    ensures
        find_double_slash(s, from) >= bound,
    decreases bound - from,
{
    lemma_find_ds_bounds(s, from);
    if from < bound && from + 1 < s.len() {
        lemma_find_ds_no_slash(s, from + 1, bound);
    }
}

proof fn lemma_find_ds_at(s: Seq<char>, from: nat, t: nat)
    requires
        from <= t,
        t + 1 < s.len(),
        s[t as int] == '/',
        s[t + 1int] == '/',
        forall|j: int| from <= j < t ==> !(#[trigger] s[j] == '/' && s[j + 1] == '/'),
    ensures
        find_double_slash(s, from) == t,
    decreases t - from,
{
    if from < t {
        lemma_find_ds_at(s, from + 1, t);
    }
}

proof fn lemma_find_char_at(s: Seq<char>, c: char, from: nat, t: nat)
    requires
        from <= t <= s.len(),
        t < s.len() ==> s[t as int] == c,
        forall|j: int| from <= j < t ==> s[j] != c,
    ensures
        find_char(s, c, from) == t,
    decreases t - from,
{
    if from < t {
        lemma_find_char_at(s, c, from + 1, t);
    }
}

proof fn lemma_rfind_at(s: Seq<char>, c: char, k: int)
    requires
        -1 <= k < s.len(),
        k >= 0 ==> s[k] == c,
        forall|j: int| k < j < s.len() ==> s[j] != c,
    ensures
        rfind_char(s, c) == k,
    decreases s.len(),
{
    if s.len() > 0 && s.len() - 1 != k {
        let p = s.drop_last();
        assert forall|j: int| k < j < p.len() implies p[j] != c by {
            assert(p[j] == s[j]);
        }
        if k >= 0 {
            assert(p[k] == s[k]);
        }
        lemma_rfind_at(p, c, k);
    }
}

/// Every `/` of `s` is followed by a character other than `/`: `s` holds no
/// `//` and does not end with `/`.
pub open spec fn single_slashes(s: Seq<char>) -> bool {
    forall|j: int| 0 <= j < s.len() && #[trigger] s[j] == '/' ==> j + 1 < s.len() && s[j + 1] != '/'
}

proof fn lemma_scheme_has_no_double_slash(scheme: Seq<char>, raw: Seq<char>)
    requires
        single_slashes(scheme),
        raw.len() >= scheme.len() + 2,
        raw.take(scheme.len() as int) == scheme,
    ensures
        forall|j: int| 0 <= j < scheme.len() ==> !(#[trigger] raw[j] == '/' && raw[j + 1] == '/'),
{
    assert forall|j: int| 0 <= j < scheme.len() implies !(#[trigger] raw[j] == '/' && raw[j + 1] == '/') by {
        assert(raw[j] == raw.take(scheme.len() as int)[j]);
        if scheme[j] == '/' {
            assert(raw[j + 1] == raw.take(scheme.len() as int)[j + 1]);
        }
    }
}

/// The decimal rendering of a number is a digit string that parses back to
/// the number.
pub proof fn law_decimal_digits(n: nat)
    ensures
        decimal(n).len() > 0,
        all_digits(decimal(n)),
        digits_value(decimal(n)) == n,
    decreases n,
{
    let d = n % 10;
    assert(digit_value(digit_char(d)) == d) by {
        assert(((48 + d) as u8) as char as u32 == 48 + d);
    }
    assert(is_digit(digit_char(d)));
    if n >= 10 {
        law_decimal_digits(n / 10);
        let s = decimal(n / 10);
        assert(decimal(n) == s.push(digit_char(d)));
        assert(decimal(n).drop_last() == s);
        assert(decimal(n).last() == digit_char(d));
        assert(digits_value(decimal(n)) == digits_value(s) * 10 + d);
        assert((n / 10) * 10 + n % 10 == n);
        assert forall|i: int| 0 <= i < decimal(n).len() implies is_digit(#[trigger] decimal(n)[i]) by {
            if i < s.len() {
                assert(decimal(n)[i] == s[i]);
            }
        }
    } else {
        assert(decimal(n).drop_last() =~= Seq::<char>::empty());
        assert(decimal(n).last() == digit_char(d));
        assert(digits_value(decimal(n)) == digits_value(Seq::<char>::empty()) * 10 + d);
    }
}

/// A port number written in decimal reads back as that port.
pub proof fn law_port_round_trip(p: u16)
    ensures
        parse_u16_spec(decimal(p as nat)) == Some(p),
{
    law_decimal_digits(p as nat);
    let s = decimal(p as nat);
    assert(is_digit(s[0]));
    assert(sign_stripped(s) == s);
}

/// A URL that names a port yields that port: for `scheme//host:port/path`,
/// where the scheme holds no `//` and does not end with `/`, and the host
/// holds no `/`, the port read from the URL is `port`.
pub proof fn law_port_from_url(scheme: Seq<char>, host: Seq<char>, port: u16, path: Seq<char>, default: u16)
    requires
        single_slashes(scheme),
        forall|j: int| 0 <= j < host.len() ==> host[j] != '/',
        path.len() == 0 || path[0] == '/',
    ensures
        port_from_url(scheme + seq!['/', '/'] + host + seq![':'] + decimal(port as nat) + path, default)
            == port,
{
    let digits = decimal(port as nat);
    law_decimal_digits(port as nat);
    law_port_round_trip(port);
    let hp = host + seq![':'] + digits;
    let rest = hp + path;
    let raw = scheme + seq!['/', '/'] + rest;
    assert(raw =~= scheme + seq!['/', '/'] + host + seq![':'] + digits + path);
    assert forall|j: int| 0 <= j < hp.len() implies hp[j] != '/' by {
        if j < host.len() {
            assert(hp[j] == host[j]);
        } else if j > host.len() {
            assert(hp[j] == digits[j - host.len() - 1]);
            assert(is_digit(digits[j - host.len() - 1]));
        } else {
            assert(hp[j] == ':');
        }
    }
    // The first `//` follows the scheme.
    assert(raw.take(scheme.len() as int) =~= scheme);
    lemma_scheme_has_no_double_slash(scheme, raw);
    lemma_find_ds_at(raw, 0, scheme.len());
    assert(raw.skip(scheme.len() + 2int) =~= rest);
    // The authority runs to the first `/` after it.
    assert forall|j: int| 0 <= j < hp.len() implies rest[j] != '/' by {
        assert(rest[j] == hp[j]);
    }
    lemma_find_ds_no_slash(rest, 0, hp.len());
    lemma_find_ds_bounds(rest, 0);
    let a = rest.take(find_double_slash(rest, 0) as int);
    assert(after_scheme(raw) == a);
    assert forall|j: int| 0 <= j < hp.len() implies a[j] != '/' by {
        assert(a[j] == rest[j]);
    }
    if a.len() > hp.len() {
        assert(a[hp.len() as int] == path[0]);
    }
    lemma_find_char_at(a, '/', 0, hp.len());
    assert(host_port(raw) =~= hp);
    // The last `:` of the authority is the one before the port.
    assert forall|j: int| host.len() < j < hp.len() implies hp[j] != ':' by {
        assert(hp[j] == digits[j - host.len() - 1]);
        assert(is_digit(digits[j - host.len() - 1]));
    }
    lemma_rfind_at(hp, ':', host.len() as int);
    assert(hp.skip(host.len() + 1int) =~= digits);
}

/// A URL that names no port yields the default: for `scheme//host/path`,
/// where the scheme holds no `//` and does not end with `/`, and the host
/// holds neither `/` nor `:`, the port read from the URL is `default`.
pub proof fn law_port_default(scheme: Seq<char>, host: Seq<char>, path: Seq<char>, default: u16)
    requires
        single_slashes(scheme),
        forall|j: int| 0 <= j < host.len() ==> host[j] != '/' && host[j] != ':',
        path.len() == 0 || path[0] == '/',
    ensures
        port_from_url(scheme + seq!['/', '/'] + host + path, default) == default,
{
    let rest = host + path;
    let raw = scheme + seq!['/', '/'] + rest;
    assert(raw =~= scheme + seq!['/', '/'] + host + path);
    assert(raw.take(scheme.len() as int) =~= scheme);
    lemma_scheme_has_no_double_slash(scheme, raw);
    lemma_find_ds_at(raw, 0, scheme.len());
    assert(raw.skip(scheme.len() + 2int) =~= rest);
    assert forall|j: int| 0 <= j < host.len() implies rest[j] != '/' by {
        assert(rest[j] == host[j]);
    }
    lemma_find_ds_no_slash(rest, 0, host.len());
    lemma_find_ds_bounds(rest, 0);
    let a = rest.take(find_double_slash(rest, 0) as int);
    assert forall|j: int| 0 <= j < host.len() implies a[j] != '/' by {
        assert(a[j] == rest[j]);
    }
    if a.len() > host.len() {
        assert(a[host.len() as int] == path[0]);
    }
    lemma_find_char_at(a, '/', 0, host.len());
    assert(host_port(raw) =~= host);
    lemma_rfind_at(host, ':', -1);
}

} // verus!
