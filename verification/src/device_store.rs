//! The list of managed devices and the operations on it. Saving the list to
//! disk after a change is left to the caller.

use vstd::prelude::*;

use crate::model::{opt_view, Device};
use crate::text::{copy_str, same_text};

verus! {

/// Some device in `s` has the id `id`.
pub open spec fn has_id(s: Seq<Device>, id: Seq<char>) -> bool {
    exists|i: int| 0 <= i < s.len() && (#[trigger] s[i]).id@ == id
}

/// `i` is the first position of `s` whose device has the id `id`.
pub open spec fn is_first(s: Seq<Device>, id: Seq<char>, i: int) -> bool {
    &&& 0 <= i < s.len()
    &&& s[i].id@ == id
    &&& forall|j: int| 0 <= j < i ==> (#[trigger] s[j]).id@ != id
}

/// The first position whose device has the id `id`, or -1.
pub open spec fn position_of(s: Seq<Device>, id: Seq<char>) -> int {
    if exists|i: int| is_first(s, id, i) {
        choose|i: int| is_first(s, id, i)
    } else {
        -1
    }
}

/// The first device with the id `id`, as a lookup by id finds it.
pub open spec fn lookup(s: Seq<Device>, id: Seq<char>) -> Option<Device> {
    if position_of(s, id) >= 0 {
        Some(s[position_of(s, id)])
    } else {
        None
    }
}

/// Whether a device has an id other than `id`.
pub open spec fn other_id(id: Seq<char>) -> spec_fn(Device) -> bool {
    |d: Device| d.id@ != id
}

/// `s` without any device that has the id `id`.
pub open spec fn without(s: Seq<Device>, id: Seq<char>) -> Seq<Device> {
    s.filter(other_id(id))
}

/// No two devices of `s` share an id.
pub open spec fn unique_ids(s: Seq<Device>) -> bool {
    forall|i: int, j: int|
        0 <= i < s.len() && 0 <= j < s.len() && i != j ==> (#[trigger] s[i]).id@ != (#[trigger] s[j]).id@
}

/// Why a change to the device list was refused.
pub enum StoreError {
    /// A device with this id is already stored.
    AlreadyExists(String),
    /// No device with this id is stored.
    NotFound(String),
    /// The system clock could not be read.
    ClockUnavailable,
}

impl StoreError {
    /// The message the API reports for this error.
    pub fn message(&self) -> (m: String)
        ensures
            m@ == match self {
                StoreError::AlreadyExists(id) => "device already exists: "@ + id@,
                StoreError::NotFound(id) => "device not found: "@ + id@,
                StoreError::ClockUnavailable => "failed to read the system clock"@,
            },
    {
        let mut m = String::new();
        match self {
            StoreError::AlreadyExists(id) => {
                m.append("device already exists: ");
                m.append(id.as_str());
            },
            StoreError::NotFound(id) => {
                m.append("device not found: ");
                m.append(id.as_str());
            },
            StoreError::ClockUnavailable => {
                m.append("failed to read the system clock");
            },
        }
        m
    }
}

#[verifier::external_type_specification]
#[verifier::external_body]
pub struct ExSystemTime(std::time::SystemTime);

/// `std::time::SystemTime::now`: the current reading of the system clock.
/// Nothing is claimed of it: it depends on the clock.
#[verifier::external_body]
fn system_time_now() -> std::time::SystemTime {
    std::time::SystemTime::now()
}

/// `SystemTime::duration_since(UNIX_EPOCH)`: the time since 1970 of the
/// reading `t`, or none when `t` is earlier. Nothing is claimed of the
/// duration: it depends on the clock.
#[verifier::external_body]
fn since_epoch(t: &std::time::SystemTime) -> Option<core::time::Duration> {
    match t.duration_since(std::time::UNIX_EPOCH) {
        Ok(d) => Some(d),
        Err(_) => None,
    }
}

/// `Duration::as_secs`: the whole seconds of a duration. Nothing is claimed
/// of them: the duration is opaque here.
#[verifier::external_body]
fn whole_seconds(d: &core::time::Duration) -> u64 {
    d.as_secs()
}

/// `Duration::subsec_nanos`: the nanoseconds of a duration beyond its whole
/// seconds, which the documentation bounds below one billion.
#[verifier::external_body]
fn subsec_nanos(d: &core::time::Duration) -> (n: u32)
    ensures
        n < 1_000_000_000,
{
    d.subsec_nanos()
}

/// The reading `t` in whole seconds and nanoseconds since 1970, or none
/// when it is earlier.
fn seconds_since_epoch(t: &std::time::SystemTime) -> (r: Option<(u64, u32)>)
    ensures
        r matches Some((_, nanos)) ==> nanos < 1_000_000_000,
{
    match since_epoch(t) {
        Some(d) => Some((whole_seconds(&d), subsec_nanos(&d))),
        None => None,
    }
}

/// The RFC 3339 text chrono gives for a time in seconds and nanoseconds
/// since 1970 (`DateTime::<Utc>::from_timestamp` followed by
/// `to_rfc3339`), or none when the time is out of chrono's range.
pub uninterp spec fn rfc3339_text(secs: i64, nanos: u32) -> Option<Seq<char>>;

/// `s` ends with the UTC offset `+00:00`.
pub open spec fn utc_stamp(s: Seq<char>) -> bool {
    s.len() >= 6 && s.skip(s.len() - 6) == "+00:00"@
}

/// `chrono::DateTime::<Utc>::from_timestamp(secs, nanos)` rendered by
/// `DateTime::to_rfc3339`. `from_timestamp` answers none for a time outside
/// its range and does not panic; for a UTC time `to_rfc3339` writes the
/// offset as `+00:00`. When the result is none is left to the name.
#[verifier::external_body]
fn rfc3339_at(secs: i64, nanos: u32) -> (r: Option<String>)
    ensures
        opt_view(r) == rfc3339_text(secs, nanos),
        r matches Some(s) ==> utc_stamp(s@),
{
    chrono::DateTime::from_timestamp(secs, nanos).map(|t| t.to_rfc3339())
}

/// The RFC 3339 text of a clock reading in seconds and nanoseconds since
/// 1970; none when there is no reading or chrono cannot represent it.
pub fn rfc3339_from_clock(reading: Option<(u64, u32)>) -> (r: Option<String>)
    ensures
        opt_view(r) == match reading {
            Some((secs, nanos)) => if secs <= 9223372036854775807u64 {
                rfc3339_text(secs as i64, nanos)
            } else {
                None
            },
            None => None,
        },
        r matches Some(s) ==> utc_stamp(s@),
{
    match reading {
        Some((secs, nanos)) => if secs <= 9223372036854775807u64 {
            rfc3339_at(secs as i64, nanos)
        } else {
            None
        },
        None => None,
    }
}

/// The current time as an RFC 3339 string in UTC, or none when the system
/// clock reads a time before 1970 or one chrono cannot represent.
pub fn now_rfc3339() -> (r: Option<String>)
    ensures
        r matches Some(s) ==> utc_stamp(s@),
        r matches Some(s) ==> exists|secs: i64, nanos: u32| #[trigger] rfc3339_text(secs, nanos) == Some(s@),
{
    let t = system_time_now();
    let reading = seconds_since_epoch(&t);
    let r = rfc3339_from_clock(reading);
    proof {
        match (&reading, &r) {
            (Some((secs, nanos)), Some(s)) => {
                assert(rfc3339_text(*secs as i64, *nanos) == Some(s@));
            },
            _ => {},
        }
    }
    r
}

/// The devices of the manager, in the order they were added, with the path
/// of the file they are saved to.
pub struct DeviceStore {
    path: String,
    devices: Vec<Device>,
}

impl View for DeviceStore {
    type V = Seq<Device>;

    closed spec fn view(&self) -> Seq<Device> {
        self.devices@
    }
}

proof fn lemma_first_unique(s: Seq<Device>, id: Seq<char>, i: int)
    requires
        is_first(s, id, i),
    ensures
        position_of(s, id) == i,
{
    let k = choose|k: int| is_first(s, id, k);
    assert(is_first(s, id, k));
    if k < i {
        assert(s[k].id@ != id);
    } else if k > i {
        assert(s[i].id@ != id);
    }
}

/// When some device has the id, a first one exists.
pub proof fn lemma_has_id_position(s: Seq<Device>, id: Seq<char>)
    ensures
        has_id(s, id) <==> position_of(s, id) >= 0,
        position_of(s, id) >= 0 ==> is_first(s, id, position_of(s, id)),
    decreases s.len(),
{
    if has_id(s, id) {
        let p = s.drop_last();
        if has_id(p, id) {
            lemma_has_id_position(p, id);
            let i = position_of(p, id);
            assert forall|j: int| 0 <= j < i implies (#[trigger] s[j]).id@ != id by {
                assert(s[j] == p[j]);
                assert(p[j].id@ != id);
            }
            assert(s[i] == p[i]);
            assert(is_first(s, id, i));
            lemma_first_unique(s, id, i);
        } else {
            let i = s.len() - 1;
            assert forall|j: int| 0 <= j < i implies (#[trigger] s[j]).id@ != id by {
                assert(s[j] == p[j]);
            }
            assert(is_first(s, id, i));
            lemma_first_unique(s, id, i);
        }
    } else {
        if exists|i: int| is_first(s, id, i) {
            let i = choose|i: int| is_first(s, id, i);
            assert(s[i].id@ == id);
        }
    }
}

fn find_position(devices: &Vec<Device>, id: &str) -> (r: Option<usize>)
    ensures
        match r {
            Some(i) => i < devices@.len() && position_of(devices@, id@) == i as int && is_first(
                devices@,
                id@,
                i as int,
            ),
            None => position_of(devices@, id@) == -1 && !has_id(devices@, id@),
        },
{
    let mut i: usize = 0;
    while i < devices.len()
        invariant
            i <= devices@.len(),
            forall|j: int| 0 <= j < i ==> (#[trigger] devices@[j]).id@ != id@,
        decreases devices@.len() - i,
    {
        if same_text(devices[i].id.as_str(), id) {
            proof {
                lemma_first_unique(devices@, id@, i as int);
            }
            return Some(i);
        }
        i = i + 1;
    }
    proof {
        lemma_has_id_position(devices@, id@);
    }
    None
}

impl DeviceStore {
    /// A store holding `devices`, saved to `path`.
    pub fn new(path: String, devices: Vec<Device>) -> (store: Self)
        ensures
            store@ == devices@,
            store.path_view() == path@,
    {
        DeviceStore { path, devices }
    }

    /// The path of the file the devices are saved to.
    pub closed spec fn path_view(&self) -> Seq<char> {
        self.path@
    }

    /// The path of the file the devices are saved to.
    pub fn path(&self) -> (p: &String)
        ensures
            p@ == self.path_view(),
    {
        &self.path
    }

    /// All devices, in order.
    pub fn list(&self) -> (r: Vec<Device>)
        ensures
            r@ == self@,
    {
        let mut r: Vec<Device> = Vec::new();
        let mut i: usize = 0;
        while i < self.devices.len()
            invariant
                i <= self.devices@.len(),
                r@ == self.devices@.take(i as int),
            decreases self.devices@.len() - i,
        {
            r.push(self.devices[i].duplicate());
            assert(self.devices@.take(i + 1) == self.devices@.take(i as int).push(
                self.devices@[i as int],
            ));
            i = i + 1;
        }
        assert(self.devices@.take(self.devices@.len() as int) == self.devices@);
        r
    }

    /// The first device with the id `id`.
    pub fn get(&self, id: &str) -> (r: Option<Device>)
        ensures
            r == lookup(self@, id@),
    {
        match find_position(&self.devices, id) {
            Some(i) => Some(self.devices[i].duplicate()),
            None => None,
        }
    }

    /// Adds `device` at the end, unless a device with its id is stored.
    pub fn create(&mut self, device: Device) -> (r: Result<Device, StoreError>)
        ensures
            match r {
                Ok(d) => {
                    &&& !has_id(old(self)@, device.id@)
                    &&& d == device
                    &&& final(self)@ == old(self)@.push(device)
                },
                Err(e) => {
                    &&& has_id(old(self)@, device.id@)
                    &&& e matches StoreError::AlreadyExists(id) && id@ == device.id@
                    &&& final(self)@ == old(self)@
                },
            },
            final(self).path_view() == old(self).path_view(),
    {
        match find_position(&self.devices, device.id.as_str()) {
            Some(i) => {
                assert(self.devices@[i as int].id@ == device.id@);
                Err(StoreError::AlreadyExists(device.id))
            },
            None => {
                let copy = device.duplicate();
                self.devices.push(device);
                Ok(copy)
            },
        }
    }

    /// Replaces the first device with the id `id` by `device`, keeping the id
    /// and the creation time of the stored one and taking `now` as the time of
    /// the change.
    pub fn update_at(&mut self, id: &str, device: Device, now: String) -> (r: Result<
        Device,
        StoreError,
    >)
        ensures
            match r {
                Ok(d) => {
                    let p = position_of(old(self)@, id@);
                    &&& has_id(old(self)@, id@)
                    &&& d.id@ == id@
                    &&& d.name == device.name
                    &&& d.region_id == device.region_id
                    &&& d.server_id == device.server_id
                    &&& d.description == device.description
                    &&& d.created_at == old(self)@[p].created_at
                    &&& d.updated_at == now
                    &&& final(self)@ == old(self)@.update(p, d)
                },
                Err(e) => {
                    &&& !has_id(old(self)@, id@)
                    &&& e matches StoreError::NotFound(missing) && missing@ == id@
                    &&& final(self)@ == old(self)@
                },
            },
            final(self).path_view() == old(self).path_view(),
    {
        match find_position(&self.devices, id) {
            None => Err(StoreError::NotFound(copy_str(id))),
            Some(i) => {
                let mut device = device;
                device.id = copy_str(id);
                device.created_at = self.devices[i].created_at.clone();
                device.updated_at = now;
                let copy = device.duplicate();
                self.devices.set(i, device);
                Ok(copy)
            },
        }
    }

    /// Replaces the first device with the id `id` by `device`, keeping the id
    /// and the creation time of the stored one and stamping the current time.
    /// Refused when no device has the id, and when the clock cannot be read;
    /// the list is then unchanged.
    pub fn update(&mut self, id: &str, device: Device) -> (r: Result<Device, StoreError>)
        ensures
            match r {
                Ok(d) => {
                    let p = position_of(old(self)@, id@);
                    &&& has_id(old(self)@, id@)
                    &&& d.id@ == id@
                    &&& d.name == device.name
                    &&& d.region_id == device.region_id
                    &&& d.server_id == device.server_id
                    &&& d.description == device.description
                    &&& d.created_at == old(self)@[p].created_at
                    &&& utc_stamp(d.updated_at@)
                    &&& final(self)@ == old(self)@.update(p, d)
                },
                Err(e) => {
                    &&& final(self)@ == old(self)@
                    &&& match e {
                        StoreError::NotFound(missing) => !has_id(old(self)@, id@) && missing@ == id@,
                        StoreError::ClockUnavailable => has_id(old(self)@, id@),
                        StoreError::AlreadyExists(_) => false,
                    }
                },
            },
            final(self).path_view() == old(self).path_view(),
    {
        if find_position(&self.devices, id).is_none() {
            return Err(StoreError::NotFound(copy_str(id)));
        }
        match now_rfc3339() {
            None => Err(StoreError::ClockUnavailable),
            Some(now) => self.update_at(id, device, now),
        }
    }

    /// Removes every device with the id `id`; refused when there is none.
    pub fn delete(&mut self, id: &str) -> (r: Result<(), StoreError>)
        ensures
            final(self)@ == without(old(self)@, id@),
            r is Ok <==> has_id(old(self)@, id@),
            r matches Err(e) ==> e matches StoreError::NotFound(missing) && missing@ == id@,
            r is Err ==> final(self)@ == old(self)@,
            final(self).path_view() == old(self).path_view(),
    {
        let ghost old_devices = self.devices@;
        let mut kept: Vec<Device> = Vec::new();
        let mut found = false;
        let mut i: usize = 0;
        while i < self.devices.len()
            invariant
                self.devices@ == old_devices,
                i <= old_devices.len(),
                kept@ == without(old_devices.take(i as int), id@),
                found == has_id(old_devices.take(i as int), id@),
            decreases old_devices.len() - i,
        {
            let ghost pre = old_devices.take(i as int);
            assert(old_devices.take(i + 1) == pre.push(old_devices[i as int]));
            assert(old_devices.take(i + 1).drop_last() == pre);
            reveal(Seq::filter);
            if same_text(self.devices[i].id.as_str(), id) {
                found = true;
                assert(old_devices.take(i + 1)[i as int].id@ == id@);
            } else {
                kept.push(self.devices[i].duplicate());
                proof {
                    if has_id(old_devices.take(i + 1), id@) {
                        let k = choose|k: int|
                            0 <= k < i + 1 && (#[trigger] old_devices.take(i + 1)[k]).id@ == id@;
                        assert(k < i);
                        assert(pre[k] == old_devices.take(i + 1)[k]);
                    }
                }
            }
            proof {
                if has_id(pre, id@) {
                    let k = choose|k: int| 0 <= k < i && (#[trigger] pre[k]).id@ == id@;
                    assert(old_devices.take(i + 1)[k] == pre[k]);
                }
            }
            i = i + 1;
        }
        assert(old_devices.take(old_devices.len() as int) == old_devices);
        if !found {
            proof {
                lemma_without_absent(old_devices, id@);
            }
            return Err(StoreError::NotFound(copy_str(id)));
        }
        self.devices = kept;
        Ok(())
    }
}

/// Filtering out an id that no device has changes nothing.
pub proof fn lemma_without_absent(s: Seq<Device>, id: Seq<char>)
    requires
        !has_id(s, id),
    ensures
        without(s, id) == s,
    decreases s.len(),
{
    reveal(Seq::filter);
    if s.len() > 0 {
        let p = s.drop_last();
        assert(!has_id(p, id)) by {
            if has_id(p, id) {
                let k = choose|k: int| 0 <= k < p.len() && (#[trigger] p[k]).id@ == id;
                assert(s[k] == p[k]);
            }
        }
        lemma_without_absent(p, id);
        assert(s.last().id@ != id);
        assert(s == p.push(s.last()));
    }
}

// ---------------------------------------------------------------------------
// Laws of the device list
// ---------------------------------------------------------------------------

/// A device that was added can be looked up by its id.
pub proof fn law_get_after_create(s: Seq<Device>, d: Device)
    requires
        !has_id(s, d.id@),
    ensures
        lookup(s.push(d), d.id@) == Some(d),
{
    let t = s.push(d);
    assert forall|j: int| 0 <= j < s.len() implies (#[trigger] t[j]).id@ != d.id@ by {
        assert(t[j] == s[j]);
    }
    assert(is_first(t, d.id@, s.len() as int));
    lemma_first_unique(t, d.id@, s.len() as int);
}

/// Adding a device leaves the lookup of every other id as it was.
pub proof fn law_create_keeps_others(s: Seq<Device>, d: Device, other: Seq<char>)
    requires
        other != d.id@,
    ensures
        lookup(s.push(d), other) == lookup(s, other),
{
    let t = s.push(d);
    lemma_has_id_position(s, other);
    if position_of(s, other) >= 0 {
        let i = position_of(s, other);
        assert forall|j: int| 0 <= j < i implies (#[trigger] t[j]).id@ != other by {
            assert(t[j] == s[j]);
        }
        assert(is_first(t, other, i));
        lemma_first_unique(t, other, i);
    } else {
        lemma_has_id_position(t, other);
        if has_id(t, other) {
            let k = choose|k: int| 0 <= k < t.len() && (#[trigger] t[k]).id@ == other;
            assert(k < s.len());
            assert(s[k] == t[k]);
        }
    }
}

/// Adding a device whose id is new keeps ids unique.
pub proof fn law_create_keeps_ids_unique(s: Seq<Device>, d: Device)
    requires
        unique_ids(s),
        !has_id(s, d.id@),
    ensures
        unique_ids(s.push(d)),
{
    let t = s.push(d);
    assert forall|i: int, j: int|
        0 <= i < t.len() && 0 <= j < t.len() && i != j implies (#[trigger] t[i]).id@ != (
    #[trigger] t[j]).id@ by {
        if i < s.len() && j < s.len() {
            assert(t[i] == s[i] && t[j] == s[j]);
        } else if i < s.len() {
            assert(t[i] == s[i]);
        } else {
            assert(t[j] == s[j]);
        }
    }
}

/// After removing an id, no device with it is found.
pub proof fn law_get_after_delete(s: Seq<Device>, id: Seq<char>)
    ensures
        lookup(without(s, id), id) is None,
{
    let t = without(s, id);
    lemma_has_id_position(t, id);
    if has_id(t, id) {
        let k = choose|k: int| 0 <= k < t.len() && (#[trigger] t[k]).id@ == id;
        broadcast use vstd::seq_lib::group_filter_ensures;
        assert(t.contains(t[k]));
    }
}

/// Removing the id of a device that was just added gives back the list from
/// before the addition.
pub proof fn law_delete_undoes_create(s: Seq<Device>, d: Device)
    requires
        !has_id(s, d.id@),
    ensures
        without(s.push(d), d.id@) == s,
{
    reveal(Seq::filter);
    assert(s.push(d).drop_last() == s);
    lemma_without_absent(s, d.id@);
}

/// Replacing the device at the position of `id` by one with that id makes it
/// the device found for `id`.
pub proof fn law_get_after_update(s: Seq<Device>, id: Seq<char>, d: Device)
    requires
        has_id(s, id),
        d.id@ == id,
    ensures
        lookup(s.update(position_of(s, id), d), id) == Some(d),
{
    lemma_has_id_position(s, id);
    let p = position_of(s, id);
    let t = s.update(p, d);
    assert forall|j: int| 0 <= j < p implies (#[trigger] t[j]).id@ != id by {
        assert(t[j] == s[j]);
    }
    assert(is_first(t, id, p));
    lemma_first_unique(t, id, p);
}

} // verus!

verus! {

/// Changing the device of one id leaves the lookup of every other id as it
/// was.
pub proof fn law_update_keeps_others(s: Seq<Device>, id: Seq<char>, d: Device, other: Seq<char>)
    requires
        has_id(s, id),
        d.id@ == id,
        other != id,
    ensures
        lookup(s.update(position_of(s, id), d), other) == lookup(s, other),
{
    lemma_has_id_position(s, id);
    let p = position_of(s, id);
    let t = s.update(p, d);
    lemma_has_id_position(s, other);
    lemma_has_id_position(t, other);
    if position_of(s, other) >= 0 {
        let i = position_of(s, other);
        assert(i != p);
        assert forall|j: int| 0 <= j < i implies (#[trigger] t[j]).id@ != other by {
            if j != p {
                assert(t[j] == s[j]);
            }
        }
        assert(t[i] == s[i]);
        assert(is_first(t, other, i));
        lemma_first_unique(t, other, i);
    } else {
        if has_id(t, other) {
            let k = choose|k: int| 0 <= k < t.len() && (#[trigger] t[k]).id@ == other;
            assert(k != p);
            assert(s[k] == t[k]);
        }
    }
}

/// Removing an id leaves the lookup of every other id as it was.
pub proof fn law_delete_keeps_others(s: Seq<Device>, id: Seq<char>, other: Seq<char>)
    requires
        other != id,
    ensures
        lookup(without(s, id), other) == lookup(s, other),
    decreases s.len(),
{
    reveal(Seq::filter);
    if s.len() > 0 {
        let p = s.drop_last();
        law_delete_keeps_others(p, id, other);
        lemma_lookup_after_push(p, s.last(), other);
        if s.last().id@ != id {
            assert(without(s, id) == without(p, id).push(s.last()));
            lemma_lookup_after_push(without(p, id), s.last(), other);
        } else {
            assert(without(s, id) == without(p, id));
        }
        assert(s == p.push(s.last()));
    }
}

/// Adding a device changes the lookup of an id only when no device had it
/// before and the new device has it.
proof fn lemma_lookup_after_push(s: Seq<Device>, d: Device, other: Seq<char>)
    ensures
        lookup(s, other) is Some ==> lookup(s.push(d), other) == lookup(s, other),
        lookup(s, other) is None ==> lookup(s.push(d), other) == (if d.id@ == other {
            Some(d)
        } else {
            None::<Device>
        }),
{
    let t = s.push(d);
    lemma_has_id_position(s, other);
    lemma_has_id_position(t, other);
    if position_of(s, other) >= 0 {
        let i = position_of(s, other);
        assert forall|j: int| 0 <= j < i implies (#[trigger] t[j]).id@ != other by {
            assert(t[j] == s[j]);
        }
        assert(t[i] == s[i]);
        assert(is_first(t, other, i));
        lemma_first_unique(t, other, i);
    } else if d.id@ == other {
        law_get_after_create(s, d);
    } else {
        law_create_keeps_others(s, d, other);
    }
}

} // verus!

verus! {

/// Changing the device of an id to one with the same id keeps ids unique.
pub proof fn law_update_keeps_ids_unique(s: Seq<Device>, id: Seq<char>, d: Device)
    requires
        unique_ids(s),
        has_id(s, id),
        d.id@ == id,
    ensures
        unique_ids(s.update(position_of(s, id), d)),
{
    lemma_has_id_position(s, id);
    let p = position_of(s, id);
    let t = s.update(p, d);
    assert forall|i: int, j: int|
        0 <= i < t.len() && 0 <= j < t.len() && i != j implies (#[trigger] t[i]).id@ != (
    #[trigger] t[j]).id@ by {
        if i == p {
            assert(t[j] == s[j]);
            assert(s[p].id@ != s[j].id@);
        } else if j == p {
            assert(t[i] == s[i]);
            assert(s[i].id@ != s[p].id@);
        } else {
            assert(t[i] == s[i] && t[j] == s[j]);
        }
    }
}

/// Removing an id keeps ids unique.
pub proof fn law_delete_keeps_ids_unique(s: Seq<Device>, id: Seq<char>)
    requires
        unique_ids(s),
    ensures
        unique_ids(without(s, id)),
    decreases s.len(),
{
    reveal(Seq::filter);
    if s.len() > 0 {
        let p = s.drop_last();
        let x = s.last();
        assert(unique_ids(p)) by {
            assert forall|i: int, j: int|
                0 <= i < p.len() && 0 <= j < p.len() && i != j implies (#[trigger] p[i]).id@ != (
            #[trigger] p[j]).id@ by {
                assert(p[i] == s[i] && p[j] == s[j]);
            }
        }
        law_delete_keeps_ids_unique(p, id);
        if x.id@ != id {
            let w = without(p, id);
            assert(without(s, id) == w.push(x));
            assert forall|k: int| 0 <= k < w.len() implies (#[trigger] w[k]).id@ != x.id@ by {
                assert(w.contains(w[k]));
                p.lemma_filter_contains_rev(other_id(id), w[k]);
                let a = choose|a: int| 0 <= a < p.len() && p[a] == w[k];
                assert(s[a] == p[a]);
                assert(s[s.len() - 1] == x);
            }
            let t = w.push(x);
            assert forall|i: int, j: int|
                0 <= i < t.len() && 0 <= j < t.len() && i != j implies (#[trigger] t[i]).id@ != (
            #[trigger] t[j]).id@ by {
                if i < w.len() && j < w.len() {
                    assert(t[i] == w[i] && t[j] == w[j]);
                } else if i < w.len() {
                    assert(t[i] == w[i]);
                } else {
                    assert(t[j] == w[j]);
                }
            }
        } else {
            assert(without(s, id) == without(p, id));
        }
    }
}

} // verus!
