//! JSON values as media servers send them, and the fields the manager reads
//! from them.

use vstd::prelude::*;

use crate::model::{opt_view, StreamInfo};
use crate::text::{copy_str, same_text};

verus! {

/// A JSON value. Numbers keep their text; object members keep their order.
pub enum Json {
    Null,
    Bool(bool),
    Number(String),
    Str(String),
    Array(Vec<Json>),
    Object(Vec<(String, Json)>),
}

/// The value of the first member of `fields` named `key`.
pub open spec fn member(fields: Seq<(String, Json)>, key: Seq<char>) -> Option<Json>
    decreases fields.len(),
{
    if fields.len() == 0 {
        None
    } else if fields[0].0@ == key {
        Some(fields[0].1)
    } else {
        member(fields.drop_first(), key)
    }
}

/// `v.get(key)`: the member `key` of an object, nothing for other values.
pub open spec fn get(v: Json, key: Seq<char>) -> Option<Json> {
    match v {
        Json::Object(fields) => member(fields@, key),
        _ => None,
    }
}

/// `v.get(key).and_then(|v| v.as_str())`: the member `key` when it is a string.
pub open spec fn str_member(v: Json, key: Seq<char>) -> Option<Seq<char>> {
    match get(v, key) {
        Some(Json::Str(s)) => Some(s@),
        _ => None,
    }
}

/// `v.get(key).and_then(|v| v.as_array())`: the member `key` when it is an
/// array.
pub open spec fn array_member(v: Json, key: Seq<char>) -> Option<Seq<Json>> {
    match get(v, key) {
        Some(Json::Array(items)) => Some(items@),
        _ => None,
    }
}

/// The ids of the streams in a stream list reply: the string `id` of each
/// entry of the array `streams`.
pub open spec fn stream_id_set(reply: Json) -> Set<Seq<char>> {
    match array_member(reply, "streams"@) {
        Some(items) => Set::new(
            |id: Seq<char>|
                exists|i: int| 0 <= i < items.len() && str_member(#[trigger] items[i], "id"@) == Some(id),
        ),
        None => Set::empty(),
    }
}

/// The members of an object with their names as text.
pub open spec fn members_view(fields: Seq<(String, Json)>) -> Seq<(Seq<char>, Json)> {
    fields.map_values(|f: (String, Json)| (f.0@, f.1))
}

/// `fields` with the member `key` set to `value`: replaced in place when it
/// exists, appended otherwise.
pub open spec fn with_member(fields: Seq<(Seq<char>, Json)>, key: Seq<char>, value: Json) -> Seq<
    (Seq<char>, Json),
>
    decreases fields.len(),
{
    if fields.len() == 0 {
        seq![(key, value)]
    } else if fields[0].0 == key {
        seq![(key, value)] + fields.drop_first()
    } else {
        seq![fields[0]] + with_member(fields.drop_first(), key, value)
    }
}

impl Json {
    /// The member `key` of an object.
    pub fn get(&self, key: &str) -> (r: Option<&Json>)
        ensures
            match r {
                Some(x) => get(*self, key@) == Some(*x),
                None => get(*self, key@) is None,
            },
    {
        match self {
            Json::Object(fields) => {
                let mut i: usize = 0;
                assert(fields@.skip(0) == fields@);
                while i < fields.len()
                    invariant
                        i <= fields@.len(),
                        get(*self, key@) == member(fields@, key@),
                        member(fields@, key@) == member(fields@.skip(i as int), key@),
                    decreases fields@.len() - i,
                {
                    assert(fields@.skip(i as int)[0] == fields@[i as int]);
                    if same_text(fields[i].0.as_str(), key) {
                        assert(member(fields@.skip(i as int), key@) == Some(fields@[i as int].1));
                        return Some(&fields[i].1);
                    }
                    assert(fields@.skip(i as int).drop_first() == fields@.skip(i + 1));
                    i = i + 1;
                }
                None
            },
            _ => None,
        }
    }

    /// The text of a string value.
    pub fn as_str(&self) -> (r: Option<&String>)
        ensures
            match r {
                Some(s) => *self == Json::Str(*s),
                None => !(*self is Str),
            },
    {
        match self {
            Json::Str(s) => Some(s),
            _ => None,
        }
    }

    /// The items of an array value.
    pub fn as_array(&self) -> (r: Option<&Vec<Json>>)
        ensures
            match r {
                Some(a) => *self == Json::Array(*a),
                None => !(*self is Array),
            },
    {
        match self {
            Json::Array(a) => Some(a),
            _ => None,
        }
    }

    /// A copy of the member `key` when it is a string.
    pub fn str_member(&self, key: &str) -> (r: Option<String>)
        ensures
            match r {
                Some(s) => str_member(*self, key@) == Some(s@),
                None => str_member(*self, key@) is None,
            },
    {
        match self.get(key) {
            Some(v) => match v.as_str() {
                Some(s) => Some(s.clone()),
                None => None,
            },
            None => None,
        }
    }

    /// An empty object.
    pub fn empty_object() -> (r: Json)
        ensures
            r matches Json::Object(f) && f@.len() == 0,
    {
        Json::Object(Vec::new())
    }

    /// Sets the member `key` of an object to `value` (as
    /// `Map::insert` does); any other value is left as it is.
    #[verifier::loop_isolation(false)]
    pub fn insert_member(self, key: String, value: Json) -> (r: Json)
        ensures
            match self {
                Json::Object(fields) => r matches Json::Object(g) && members_view(g@) == with_member(
                    members_view(fields@),
                    key@,
                    value,
                ),
                _ => r == self,
            },
    {
        let ghost orig = self;
        match self {
            Json::Object(fields) => {
                let mut fields = fields;
                let ghost start = fields@;
                assert(orig == Json::Object(fields));
                let mut i: usize = 0;
                while i < fields.len()
                    invariant
                        fields@ == start,
                        orig matches Json::Object(f) && f@ == start,
                        i <= start.len(),
                        forall|k: int| 0 <= k < i ==> (#[trigger] start[k]).0@ != key@,
                    decreases start.len() - i,
                {
                    if same_text(fields[i].0.as_str(), key.as_str()) {
                        let (name, _old) = fields.remove(i);
                        assert(name == start[i as int].0);
                        fields.insert(i, (name, value));
                        assert(fields@ =~= start.update(i as int, (start[i as int].0, value)));
                        proof {
                            lemma_with_member_at(members_view(start), key@, value, i as int);
                            assert(members_view(fields@) =~= members_view(start).update(i as int, (key@, value)));
                        }
                        return Json::Object(fields);
                    }
                    i = i + 1;
                }
                fields.push((key, value));
                proof {
                    lemma_with_member_absent(members_view(start), key@, value);
                    assert(members_view(fields@) =~= members_view(start).push((key@, value)));
                }
                Json::Object(fields)
            },
            other => other,
        }
    }
}

proof fn lemma_with_member_at(fields: Seq<(Seq<char>, Json)>, key: Seq<char>, value: Json, i: int)
    requires
        0 <= i < fields.len(),
        fields[i].0 == key,
        forall|k: int| 0 <= k < i ==> (#[trigger] fields[k]).0 != key,
    ensures
        with_member(fields, key, value) == fields.update(i, (key, value)),
    decreases i,
{
    if i > 0 {
        let rest = fields.drop_first();
        assert forall|k: int| 0 <= k < i - 1 implies (#[trigger] rest[k]).0 != key by {
            assert(rest[k] == fields[k + 1]);
        }
        lemma_with_member_at(rest, key, value, i - 1);
        assert(fields[0].0 != key);
        assert(with_member(fields, key, value) =~= fields.update(i, (key, value)));
    } else {
        assert(with_member(fields, key, value) =~= fields.update(i, (key, value)));
    }
}

proof fn lemma_with_member_absent(fields: Seq<(Seq<char>, Json)>, key: Seq<char>, value: Json)
    requires
        forall|k: int| 0 <= k < fields.len() ==> (#[trigger] fields[k]).0 != key,
    ensures
        with_member(fields, key, value) == fields.push((key, value)),
    decreases fields.len(),
{
    if fields.len() > 0 {
        let rest = fields.drop_first();
        assert forall|k: int| 0 <= k < rest.len() implies (#[trigger] rest[k]).0 != key by {
            assert(rest[k] == fields[k + 1]);
        }
        lemma_with_member_absent(rest, key, value);
        assert(fields[0].0 != key);
        assert(with_member(fields, key, value) =~= fields.push((key, value)));
    } else {
        assert(with_member(fields, key, value) =~= fields.push((key, value)));
    }
}

/// `info` holds the stream details of the reply `value` (see
/// `parse_stream_info`).
pub open spec fn describes_stream(info: StreamInfo, value: Json) -> bool {
    &&& opt_view(info.status) == str_member(value, "status"@)
    &&& opt_view(info.status_description) == str_member(value, "status_description"@)
    &&& opt_view(info.playback_status) == str_member(value, "playback_status"@)
    &&& opt_view(info.playback_description) == str_member(value, "playback_description"@)
    &&& opt_view(info.protocol) == str_member(value, "protocol"@)
    &&& info.tracks == match array_member(value, "tracks"@) {
        Some(items) => Some(items.len() as u64),
        None => None::<u64>,
    }
}

/// The stream details a media server reports in reply to a stream query:
/// the string members `status`, `status_description`, `playback_status`,
/// `playback_description` and `protocol`, and the number of entries of the
/// array `tracks`.
pub fn parse_stream_info(value: &Json) -> (info: StreamInfo)
    ensures
        describes_stream(info, *value),
{
    let tracks = match value.get("tracks") {
        Some(t) => match t.as_array() {
            Some(items) => Some(items.len() as u64),
            None => None,
        },
        None => None,
    };
    let status = value.str_member("status");
    let status_description = value.str_member("status_description");
    let playback_status = value.str_member("playback_status");
    let playback_description = value.str_member("playback_description");
    let protocol = value.str_member("protocol");
    StreamInfo { status, status_description, playback_status, playback_description, protocol, tracks }
}

/// Some of the first `n` entries of `items` has the string `id` `s`.
pub open spec fn id_among(items: Seq<Json>, n: int, s: Seq<char>) -> bool {
    exists|k: int| 0 <= k < n && str_member(#[trigger] items[k], "id"@) == Some(s)
}

/// Some string of `ids` reads `s`.
pub open spec fn listed(ids: Seq<String>, s: Seq<char>) -> bool {
    exists|a: int| 0 <= a < ids.len() && (#[trigger] ids[a])@ == s
}

/// No two strings of `ids` read the same.
pub open spec fn distinct_texts(ids: Seq<String>) -> bool {
    forall|i: int, j: int|
        0 <= i < ids.len() && 0 <= j < ids.len() && i != j ==> (#[trigger] ids[i])@ != (#[trigger] ids[j])@
}

/// The distinct stream ids of a stream list reply (see `stream_id_set`).
pub fn stream_ids(reply: &Json) -> (ids: Vec<String>)
    ensures
        distinct_texts(ids@),
        forall|s: Seq<char>| #![trigger listed(ids@, s)] stream_id_set(*reply).contains(s) <==> listed(ids@, s),
{
    let mut ids: Vec<String> = Vec::new();
    match reply.get("streams") {
        Some(list) => match list.as_array() {
            Some(items) => {
                let mut i: usize = 0;
                while i < items.len()
                    invariant
                        i <= items@.len(),
                        array_member(*reply, "streams"@) == Some(items@),
                        distinct_texts(ids@),
                        forall|s: Seq<char>|
                            #![trigger id_among(items@, i as int, s)]
                            #![trigger listed(ids@, s)]
                            id_among(items@, i as int, s) <==> listed(ids@, s),
                    decreases items@.len() - i,
                {
                    let ghost before = ids@;
                    match items[i].str_member("id") {
                        Some(id) => {
                            let mut seen = false;
                            let mut a: usize = 0;
                            while a < ids.len()
                                invariant
                                    a <= ids@.len(),
                                    seen == exists|b: int| 0 <= b < a && (#[trigger] ids@[b])@ == id@,
                                decreases ids@.len() - a,
                            {
                                if same_text(ids[a].as_str(), id.as_str()) {
                                    seen = true;
                                }
                                a = a + 1;
                            }
                            let ghost idv = id@;
                            assert(str_member(items@[i as int], "id"@) == Some(idv));
                            if !seen {
                                ids.push(id);
                                assert forall|x: int, y: int|
                                    0 <= x < ids@.len() && 0 <= y < ids@.len() && x != y implies (
                                #[trigger] ids@[x])@ != (#[trigger] ids@[y])@ by {
                                    if x < before.len() && y < before.len() {
                                        assert(ids@[x] == before[x] && ids@[y] == before[y]);
                                    } else if x < before.len() {
                                        assert(ids@[x] == before[x]);
                                    } else {
                                        assert(ids@[y] == before[y]);
                                    }
                                }
                                assert forall|s: Seq<char>|
                                    #![trigger id_among(items@, i + 1, s)]
                                    #![trigger listed(ids@, s)]
                                    id_among(items@, i + 1, s) <==> listed(ids@, s) by {
                                    if listed(ids@, s) {
                                        let b = choose|b: int| 0 <= b < ids@.len() && (#[trigger] ids@[b])@ == s;
                                        if b < before.len() {
                                            assert(before[b] == ids@[b]);
                                            assert(listed(before, s));
                                        }
                                    }
                                    if id_among(items@, i as int, s) {
                                        assert(listed(before, s));
                                        let b = choose|b: int| 0 <= b < before.len() && (#[trigger] before[b])@ == s;
                                        assert(ids@[b] == before[b]);
                                    }
                                    if s == idv {
                                        assert(ids@[before.len() as int]@ == s);
                                    }
                                }
                            } else {
                                assert forall|s: Seq<char>|
                                    #![trigger id_among(items@, i + 1, s)]
                                    #![trigger listed(ids@, s)]
                                    id_among(items@, i + 1, s) <==> listed(ids@, s) by {
                                    if s == idv {
                                        let b = choose|b: int| 0 <= b < ids@.len() && (#[trigger] ids@[b])@ == idv;
                                        assert(listed(ids@, s));
                                    }
                                    if id_among(items@, i + 1, s) && s != idv {
                                        let k = choose|k: int| 0 <= k < i + 1 && str_member(#[trigger] items@[k], "id"@) == Some(s);
                                        assert(k < i);
                                        assert(id_among(items@, i as int, s));
                                    }
                                    if id_among(items@, i as int, s) {
                                        let k = choose|k: int| 0 <= k < i && str_member(#[trigger] items@[k], "id"@) == Some(s);
                                        assert(str_member(items@[k], "id"@) == Some(s));
                                    }
                                }
                            }
                        },
                        None => {
                            assert forall|s: Seq<char>|
                                #![trigger id_among(items@, i + 1, s)]
                                #![trigger listed(ids@, s)]
                                id_among(items@, i + 1, s) <==> listed(ids@, s) by {
                                if id_among(items@, i + 1, s) {
                                    let k = choose|k: int| 0 <= k < i + 1 && str_member(#[trigger] items@[k], "id"@) == Some(s);
                                    assert(k < i);
                                    assert(id_among(items@, i as int, s));
                                }
                                if id_among(items@, i as int, s) {
                                    let k = choose|k: int| 0 <= k < i && str_member(#[trigger] items@[k], "id"@) == Some(s);
                                    assert(str_member(items@[k], "id"@) == Some(s));
                                }
                            }
                        },
                    }
                    i = i + 1;
                }
                assert forall|s: Seq<char>| #![trigger listed(ids@, s)]
                    stream_id_set(*reply).contains(s) <==> listed(ids@, s) by {
                    assert(stream_id_set(*reply).contains(s) == id_among(items@, items@.len() as int, s));
                }
                ids
            },
            None => ids,
        },
        None => ids,
    }
}

/// The entries of the array `streams` of a stream list reply, or none when
/// the reply has no such array.
#[verifier::loop_isolation(false)]
pub fn streams_of(reply: Json) -> (items: Vec<Json>)
    ensures
        items@ == match array_member(reply, "streams"@) {
            Some(a) => a,
            None => Seq::<Json>::empty(),
        },
{
    let ghost orig = reply;
    match reply {
        Json::Object(fields) => {
            let mut fields = fields;
            let ghost start = fields@;
            assert(get(orig, "streams"@) == member(start, "streams"@));
            let mut i: usize = 0;
            assert(start.skip(0) == start);
            while i < fields.len()
                invariant
                    fields@ == start,
                    get(orig, "streams"@) == member(start, "streams"@),
                    i <= start.len(),
                    member(start, "streams"@) == member(start.skip(i as int), "streams"@),
                decreases start.len() - i,
            {
                assert(start.skip(i as int)[0] == start[i as int]);
                if same_text(fields[i].0.as_str(), "streams") {
                    assert(member(start.skip(i as int), "streams"@) == Some(start[i as int].1));
                    let (_name, value) = fields.remove(i);
                    assert(value == start[i as int].1);
                    return match value {
                        Json::Array(items) => items,
                        _ => Vec::new(),
                    };
                }
                assert(start.skip(i as int).drop_first() == start.skip(i + 1));
                i = i + 1;
            }
            Vec::new()
        },
        _ => Vec::new(),
    }
}

} // verus!

verus! {

/// `v[key] = value`: sets the member `key` of an object, turning `null`
/// into an object first.
pub fn set_index(v: Json, key: String, value: Json) -> (r: Json)
    requires
        v is Object || v is Null,
    ensures
        match v {
            Json::Object(fields) => r matches Json::Object(g) && members_view(g@) == with_member(
                members_view(fields@),
                key@,
                value,
            ),
            _ => r matches Json::Object(g) && members_view(g@) == seq![(key@, value)],
        },
{
    match v {
        Json::Null => {
            let mut fields: Vec<(String, Json)> = Vec::new();
            fields.push((key, value));
            assert(members_view(fields@) =~= seq![(key@, value)]);
            Json::Object(fields)
        },
        other => other.insert_member(key, value),
    }
}

/// `r` is `item` marked with the node `server_id` and its region
/// `region_id`: the members `serverId` and `regionId` set when `item` is an
/// object, `item` itself otherwise.
pub open spec fn tagged(r: Json, item: Json, server_id: String, region_id: String) -> bool {
    match item {
        Json::Object(fields) => r matches Json::Object(g) && members_view(g@) == with_member(
            with_member(members_view(fields@), "serverId"@, Json::Str(server_id)),
            "regionId"@,
            Json::Str(region_id),
        ),
        _ => r == item,
    }
}

/// An entry of a node's listing, marked with the node and its region: the
/// members `serverId` and `regionId` are set when the entry is an object.
pub fn tag_with_server(item: Json, server_id: &String, region_id: &String) -> (r: Json)
    ensures
        tagged(r, item, *server_id, *region_id),
{
    let with_server = item.insert_member(copy_str("serverId"), Json::Str(server_id.clone()));
    with_server.insert_member(copy_str("regionId"), Json::Str(region_id.clone()))
}

} // verus!

verus! {

/// The value of the first member named `key` of a list of named members.
pub open spec fn member_named(fields: Seq<(Seq<char>, Json)>, key: Seq<char>) -> Option<Json>
    decreases fields.len(),
{
    if fields.len() == 0 {
        None
    } else if fields[0].0 == key {
        Some(fields[0].1)
    } else {
        member_named(fields.drop_first(), key)
    }
}

proof fn lemma_member_by_name(fields: Seq<(String, Json)>, key: Seq<char>)
    ensures
        member(fields, key) == member_named(members_view(fields), key),
    decreases fields.len(),
{
    if fields.len() > 0 {
        assert(members_view(fields).drop_first() =~= members_view(fields.drop_first()));
        lemma_member_by_name(fields.drop_first(), key);
    }
}

proof fn lemma_member_named_after_set(
    fields: Seq<(Seq<char>, Json)>,
    key: Seq<char>,
    value: Json,
    other: Seq<char>,
)
    ensures
        member_named(with_member(fields, key, value), key) == Some(value),
        other != key ==> member_named(with_member(fields, key, value), other) == member_named(
            fields,
            other,
        ),
    decreases fields.len(),
{
    if fields.len() > 0 {
        let w = with_member(fields, key, value);
        if fields[0].0 == key {
            assert(w[0] == (key, value));
            assert(w.drop_first() =~= fields.drop_first());
        } else {
            lemma_member_named_after_set(fields.drop_first(), key, value, other);
            assert(w[0] == fields[0]);
            assert(w.drop_first() =~= with_member(fields.drop_first(), key, value));
        }
    } else {
        let w = with_member(fields, key, value);
        assert(w[0] == (key, value));
        assert(w.drop_first() =~= Seq::<(Seq<char>, Json)>::empty());
        assert(member_named(w.drop_first(), other) is None);
    }
}

/// Reading a member back after setting it: once the member `key` of an
/// object is set to `value` (by `insert_member`, `set_index` or
/// `tag_with_server`), reading `key` gives `value`, and reading any other
/// member gives what it gave before.
pub proof fn law_get_after_set(
    before: Seq<(String, Json)>,
    after: Seq<(String, Json)>,
    key: Seq<char>,
    value: Json,
    other: Seq<char>,
)
    requires
        members_view(after) == with_member(members_view(before), key, value),
    ensures
        member(after, key) == Some(value),
        other != key ==> member(after, other) == member(before, other),
{
    lemma_member_by_name(after, key);
    lemma_member_by_name(after, other);
    lemma_member_by_name(before, other);
    lemma_member_named_after_set(members_view(before), key, value, other);
}

} // verus!

verus! {

#[verifier::external_type_specification]
#[verifier::external_body]
pub struct ExValue(serde_json::Value);

/// The JSON value `serde_json::from_str::<serde_json::Value>` reads from
/// `text`, as a value of this crate, or none when `text` is not JSON.
pub uninterp spec fn json_text(text: Seq<char>) -> Option<Json>;

/// `serde_json::from_str::<serde_json::Value>`: the JSON value written by
/// `text`, or none when `text` is not JSON; the value is carried over
/// variant by variant, numbers as the text `serde_json` writes for them.
/// The result is named by `json_text`; nothing more is claimed of it.
#[verifier::external_body]
pub(crate) fn parse_json(text: &str) -> (r: Option<Json>)
    ensures
        r == json_text(text@),
{
    match serde_json::from_str::<serde_json::Value>(text) {
        Ok(v) => Some(json_of_value(v)),
        Err(_) => None,
    }
}

/// Carries a `serde_json::Value` over into a `Json`, variant by variant:
/// the conversion of `parse_json`'s result.
#[verifier::external_body]
fn json_of_value(v: serde_json::Value) -> Json {
    match v {
        serde_json::Value::Null => Json::Null,
        serde_json::Value::Bool(b) => Json::Bool(b),
        serde_json::Value::Number(n) => Json::Number(n.to_string()),
        serde_json::Value::String(s) => Json::Str(s),
        serde_json::Value::Array(items) => Json::Array(items.into_iter().map(json_of_value).collect()),
        serde_json::Value::Object(m) => Json::Object(m.into_iter().map(|(k, v)| (k, json_of_value(v))).collect()),
    }
}

} // verus!
