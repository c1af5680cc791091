//! The regions and media server nodes of a deployment, keyed by id.

use vstd::prelude::*;

use crate::model::{MediaServerInstance, Region};
use crate::text::{copy_str, same_text};

verus! {

/// The node table a configuration describes: each id maps to the last node
/// listed with that id.
pub open spec fn config_map(servers: Seq<MediaServerInstance>) -> Map<Seq<char>, MediaServerInstance>
    decreases servers.len(),
{
    if servers.len() == 0 {
        Map::empty()
    } else {
        config_map(servers.drop_last()).insert(servers.last().id@, servers.last())
    }
}

/// No two nodes of `s` share an id.
pub open spec fn unique_server_ids(s: Seq<MediaServerInstance>) -> bool {
    forall|i: int, j: int|
        0 <= i < s.len() && 0 <= j < s.len() && i != j ==> (#[trigger] s[i]).id@ != (#[trigger] s[j]).id@
}

/// `s` lists the table `m`: every node once, each under its own id.
pub open spec fn lists_table(s: Seq<MediaServerInstance>, m: Map<Seq<char>, MediaServerInstance>) -> bool {
    &&& unique_server_ids(s)
    &&& forall|i: int| 0 <= i < s.len() ==> m.contains_key((#[trigger] s[i]).id@) && m[s[i].id@] == s[i]
    &&& forall|k: Seq<char>| #[trigger] m.contains_key(k) ==> exists|i: int| 0 <= i < s.len() && (#[trigger] s[i]).id@ == k
}

/// Some region of `regions` has the id `id`.
pub open spec fn has_region(regions: Seq<Region>, id: Seq<char>) -> bool {
    exists|i: int| 0 <= i < regions.len() && (#[trigger] regions[i]).id@ == id
}

/// `i` is the first region of `regions` with the id `id`.
pub open spec fn is_first_region(regions: Seq<Region>, id: Seq<char>, i: int) -> bool {
    &&& 0 <= i < regions.len()
    &&& regions[i].id@ == id
    &&& forall|j: int| 0 <= j < i ==> (#[trigger] regions[j]).id@ != id
}

/// The display name of the region `id`: the name of the first region with
/// that id, or the id itself when no region has it.
pub open spec fn region_name_of(regions: Seq<Region>, id: Seq<char>) -> Seq<char> {
    if exists|i: int| is_first_region(regions, id, i) {
        regions[choose|i: int| is_first_region(regions, id, i)].name@
    } else {
        id
    }
}

/// The nodes of `s` in the region `region_id`, in order.
pub open spec fn in_region(s: Seq<MediaServerInstance>, region_id: Seq<char>) -> Seq<MediaServerInstance> {
    s.filter(of_region(region_id))
}

/// Whether a node belongs to the region `region_id`.
pub open spec fn of_region(region_id: Seq<char>) -> spec_fn(MediaServerInstance) -> bool {
    |m: MediaServerInstance| m.region_id@ == region_id
}

/// Why no node could be chosen.
pub enum RegistryError {
    /// No node is configured for this region.
    NoServerForRegion(String),
    /// The manager has no client for this node.
    UnknownServer(String),
}

impl RegistryError {
    /// The message the API reports for this error.
    pub fn message(&self) -> (m: String)
        ensures
            m@ == match self {
                RegistryError::NoServerForRegion(r) => "no media server configured for region "@ + r@,
                RegistryError::UnknownServer(id) => "unknown server: "@ + id@,
            },
    {
        let mut m = String::new();
        match self {
            RegistryError::NoServerForRegion(r) => {
                m.append("no media server configured for region ");
                m.append(r.as_str());
            },
            RegistryError::UnknownServer(id) => {
                m.append("unknown server: ");
                m.append(id.as_str());
            },
        }
        m
    }
}

/// The regions and media server nodes of a deployment.
pub struct MediaServerRegistry {
    regions: Vec<Region>,
    servers: Vec<MediaServerInstance>,
}

proof fn lemma_table_of_unique(s: Seq<MediaServerInstance>)
    requires
        unique_server_ids(s),
    ensures
        lists_table(s, config_map(s)),
    decreases s.len(),
{
    if s.len() > 0 {
        let p = s.drop_last();
        assert(unique_server_ids(p)) by {
            assert forall|i: int, j: int|
                0 <= i < p.len() && 0 <= j < p.len() && i != j implies (#[trigger] p[i]).id@ != (
            #[trigger] p[j]).id@ by {
                assert(p[i] == s[i] && p[j] == s[j]);
            }
        }
        lemma_table_of_unique(p);
        let m = config_map(s);
        assert forall|i: int| 0 <= i < s.len() implies m.contains_key((#[trigger] s[i]).id@) && m[s[i].id@]
            == s[i] by {
            if i < s.len() - 1 {
                assert(s[i] == p[i]);
                assert(s[i].id@ != s.last().id@);
            }
        }
        assert forall|k: Seq<char>| #[trigger] m.contains_key(k) implies exists|i: int|
            0 <= i < s.len() && (#[trigger] s[i]).id@ == k by {
            if k == s.last().id@ {
                assert(s[s.len() - 1].id@ == k);
            } else {
                assert(config_map(p).contains_key(k));
                let i = choose|i: int| 0 <= i < p.len() && (#[trigger] p[i]).id@ == k;
                assert(s[i] == p[i]);
            }
        }
    }
}

proof fn lemma_table_update(s: Seq<MediaServerInstance>, k: int, x: MediaServerInstance)
    requires
        unique_server_ids(s),
        0 <= k < s.len(),
        s[k].id@ == x.id@,
    ensures
        config_map(s.update(k, x)) == config_map(s).insert(x.id@, x),
    decreases s.len(),
{
    let p = s.drop_last();
    let t = s.update(k, x);
    if k == s.len() - 1 {
        assert(t.drop_last() == p);
        assert(config_map(t) =~= config_map(s).insert(x.id@, x));
    } else {
        assert(unique_server_ids(p)) by {
            assert forall|i: int, j: int|
                0 <= i < p.len() && 0 <= j < p.len() && i != j implies (#[trigger] p[i]).id@ != (
            #[trigger] p[j]).id@ by {
                assert(p[i] == s[i] && p[j] == s[j]);
            }
        }
        lemma_table_update(p, k, x);
        assert(t.drop_last() == p.update(k, x));
        assert(t.last() == s.last());
        assert(s[k].id@ != s.last().id@);
        assert(config_map(t) =~= config_map(s).insert(x.id@, x));
    }
}

/// A list of regions and nodes, built from the configuration.
impl MediaServerRegistry {
    #[verifier::type_invariant]
    spec fn inv(self) -> bool {
        unique_server_ids(self.servers@)
    }

    /// The regions, in configuration order.
    pub closed spec fn regions_view(&self) -> Seq<Region> {
        self.regions@
    }

    /// The nodes, in the order the registry lists them.
    pub closed spec fn listing(&self) -> Seq<MediaServerInstance> {
        self.servers@
    }

    /// The node table: each id with its node.
    pub closed spec fn table(&self) -> Map<Seq<char>, MediaServerInstance> {
        config_map(self.servers@)
    }

    /// The registry of `regions` and `servers`. When several nodes share an
    /// id, the last one listed stands for that id.
    pub fn from_config(regions: Vec<Region>, servers: Vec<MediaServerInstance>) -> (r: Self)
        ensures
            r.regions_view() == regions@,
            r.table() == config_map(servers@),
            lists_table(r.listing(), r.table()),
    {
        let mut list: Vec<MediaServerInstance> = Vec::new();
        let mut servers = servers;
        let ghost input = servers@;
        let mut i: usize = 0;
        let n = servers.len();
        while i < n
            invariant
                n == input.len(),
                servers@.len() == input.len() - i,
                forall|k: int| 0 <= k < servers@.len() ==> servers@[k] == input[k + i],
                i <= n,
                unique_server_ids(list@),
                config_map(list@) == config_map(input.take(i as int)),
            decreases n - i,
        {
            let server = servers.remove(0);
            assert(server == input[i as int]);
            assert(input.take(i + 1).drop_last() == input.take(i as int));
            let mut k: usize = 0;
            while k < list.len() && !same_text(list[k].id.as_str(), server.id.as_str())
                invariant
                    k <= list@.len(),
                    forall|j: int| 0 <= j < k ==> (#[trigger] list@[j]).id@ != server.id@,
                decreases list@.len() - k,
            {
                k = k + 1;
            }
            if k < list.len() {
                proof {
                    lemma_table_update(list@, k as int, server);
                }
                let ghost before = list@;
                list.set(k, server);
                assert forall|a: int, b: int|
                    0 <= a < list@.len() && 0 <= b < list@.len() && a != b implies (#[trigger] list@[a]).id@
                    != (#[trigger] list@[b]).id@ by {
                    if a != k as int && b != k as int {
                        assert(list@[a] == before[a] && list@[b] == before[b]);
                    } else if a == k as int {
                        assert(list@[b] == before[b]);
                        assert(before[a].id@ != before[b].id@);
                    } else {
                        assert(list@[a] == before[a]);
                        assert(before[a].id@ != before[b].id@);
                    }
                }
            } else {
                let ghost before = list@;
                list.push(server);
                assert(list@.drop_last() == before);
                assert forall|a: int, b: int|
                    0 <= a < list@.len() && 0 <= b < list@.len() && a != b implies (#[trigger] list@[a]).id@
                    != (#[trigger] list@[b]).id@ by {
                    if a < before.len() && b < before.len() {
                        assert(list@[a] == before[a] && list@[b] == before[b]);
                    } else if a < before.len() {
                        assert(list@[a] == before[a]);
                    } else {
                        assert(list@[b] == before[b]);
                    }
                }
            }
            i = i + 1;
        }
        assert(input.take(n as int) == input);
        proof {
            lemma_table_of_unique(list@);
        }
        MediaServerRegistry { regions, servers: list }
    }

    /// The regions, in configuration order.
    pub fn regions(&self) -> (r: &[Region])
        ensures
            r@ == self.regions_view(),
    {
        self.regions.as_slice()
    }

    /// All nodes, each once.
    pub fn list_servers(&self) -> (r: Vec<&MediaServerInstance>)
        ensures
            r@.len() == self.listing().len(),
            forall|i: int| 0 <= i < r@.len() ==> *r@[i] == self.listing()[i],
            lists_table(self.listing(), self.table()),
    {
        proof {
            use_type_invariant(self);
            lemma_table_of_unique(self.servers@);
        }
        let mut r: Vec<&MediaServerInstance> = Vec::new();
        let mut i: usize = 0;
        while i < self.servers.len()
            invariant
                i <= self.servers@.len(),
                r@.len() == i,
                forall|k: int| 0 <= k < i ==> *r@[k] == self.servers@[k],
            decreases self.servers@.len() - i,
        {
            r.push(&self.servers[i]);
            i = i + 1;
        }
        r
    }

    /// The nodes of the region `region_id`, in listing order.
    pub fn servers_in_region(&self, region_id: &str) -> (r: Vec<&MediaServerInstance>)
        ensures
            r@.len() == in_region(self.listing(), region_id@).len(),
            forall|i: int| 0 <= i < r@.len() ==> *r@[i] == in_region(self.listing(), region_id@)[i],
    {
        let mut r: Vec<&MediaServerInstance> = Vec::new();
        let mut i: usize = 0;
        while i < self.servers.len()
            invariant
                i <= self.servers@.len(),
                r@.len() == in_region(self.servers@.take(i as int), region_id@).len(),
                forall|k: int|
                    0 <= k < r@.len() ==> *r@[k] == in_region(self.servers@.take(i as int), region_id@)[k],
            decreases self.servers@.len() - i,
        {
            reveal(Seq::filter);
            assert(self.servers@.take(i + 1).drop_last() == self.servers@.take(i as int));
            if same_text(self.servers[i].region_id.as_str(), region_id) {
                r.push(&self.servers[i]);
            }
            i = i + 1;
        }
        assert(self.servers@.take(self.servers@.len() as int) == self.servers@);
        r
    }

    /// The node with the id `server_id`.
    pub fn get_server(&self, server_id: &str) -> (r: Option<&MediaServerInstance>)
        ensures
            match r {
                Some(s) => self.table().contains_key(server_id@) && *s == self.table()[server_id@]
                    && s.id@ == server_id@,
                None => !self.table().contains_key(server_id@),
            },
    {
        proof {
            use_type_invariant(self);
            lemma_table_of_unique(self.servers@);
        }
        let mut i: usize = 0;
        while i < self.servers.len()
            invariant
                i <= self.servers@.len(),
                forall|k: int| 0 <= k < i ==> (#[trigger] self.servers@[k]).id@ != server_id@,
                lists_table(self.servers@, config_map(self.servers@)),
            decreases self.servers@.len() - i,
        {
            if same_text(self.servers[i].id.as_str(), server_id) {
                return Some(&self.servers[i]);
            }
            i = i + 1;
        }
        None
    }

    /// The node new devices of the region `region_id` go to when they name
    /// none: the first node of the region in listing order.
    pub fn default_server_for_region(&self, region_id: &str) -> (r: Result<
        &MediaServerInstance,
        RegistryError,
    >)
        ensures
            match r {
                Ok(s) => in_region(self.listing(), region_id@).len() > 0 && *s == in_region(
                    self.listing(),
                    region_id@,
                )[0],
                Err(e) => {
                    &&& in_region(self.listing(), region_id@).len() == 0
                    &&& e matches RegistryError::NoServerForRegion(id) && id@ == region_id@
                },
            },
    {
        let candidates = self.servers_in_region(region_id);
        if candidates.len() == 0 {
            Err(RegistryError::NoServerForRegion(copy_str(region_id)))
        } else {
            Ok(candidates[0])
        }
    }

    /// Whether some region has the id `region_id`.
    pub fn knows_region(&self, region_id: &str) -> (r: bool)
        ensures
            r == has_region(self.regions_view(), region_id@),
    {
        let mut i: usize = 0;
        while i < self.regions.len()
            invariant
                i <= self.regions@.len(),
                forall|k: int| 0 <= k < i ==> (#[trigger] self.regions@[k]).id@ != region_id@,
            decreases self.regions@.len() - i,
        {
            if same_text(self.regions[i].id.as_str(), region_id) {
                return true;
            }
            i = i + 1;
        }
        false
    }

    /// The display name of the region `region_id` (see `region_name_of`).
    pub fn region_name(&self, region_id: &str) -> (r: String)
        ensures
            r@ == region_name_of(self.regions_view(), region_id@),
    {
        let mut i: usize = 0;
        while i < self.regions.len()
            invariant
                i <= self.regions@.len(),
                forall|k: int| 0 <= k < i ==> (#[trigger] self.regions@[k]).id@ != region_id@,
            decreases self.regions@.len() - i,
        {
            if same_text(self.regions[i].id.as_str(), region_id) {
                proof {
                    let c = choose|c: int| is_first_region(self.regions@, region_id@, c);
                    assert(is_first_region(self.regions@, region_id@, i as int));
                    if c < i {
                        assert(self.regions@[c].id@ != region_id@);
                    } else if c > i {
                        assert(self.regions@[i as int].id@ != region_id@);
                    }
                }
                return self.regions[i].name.clone();
            }
            i = i + 1;
        }
        proof {
            if exists|c: int| is_first_region(self.regions@, region_id@, c) {
                let c = choose|c: int| is_first_region(self.regions@, region_id@, c);
                assert(self.regions@[c].id@ == region_id@);
            }
        }
        copy_str(region_id)
    }
}

} // verus!

verus! {

// ---------------------------------------------------------------------------
// Laws of the node table
// ---------------------------------------------------------------------------

/// The table holds exactly the ids of the configured nodes, each under the
/// node that carries it.
pub proof fn law_table_keys(servers: Seq<MediaServerInstance>, k: Seq<char>)
    ensures
        config_map(servers).contains_key(k) <==> exists|i: int|
            0 <= i < servers.len() && (#[trigger] servers[i]).id@ == k,
        config_map(servers).contains_key(k) ==> config_map(servers)[k].id@ == k,
    decreases servers.len(),
{
    if servers.len() > 0 {
        let p = servers.drop_last();
        law_table_keys(p, k);
        if exists|i: int| 0 <= i < p.len() && (#[trigger] p[i]).id@ == k {
            let i = choose|i: int| 0 <= i < p.len() && (#[trigger] p[i]).id@ == k;
            assert(servers[i] == p[i]);
        }
        if exists|i: int| 0 <= i < servers.len() && (#[trigger] servers[i]).id@ == k {
            let i = choose|i: int| 0 <= i < servers.len() && (#[trigger] servers[i]).id@ == k;
            if i < p.len() {
                assert(servers[i] == p[i]);
            }
        }
    }
}

/// When several nodes share an id, the last one listed stands for it.
pub proof fn law_last_listed_wins(servers: Seq<MediaServerInstance>, i: int)
    requires
        0 <= i < servers.len(),
        forall|j: int| i < j < servers.len() ==> (#[trigger] servers[j]).id@ != servers[i].id@,
    ensures
        config_map(servers).contains_key(servers[i].id@),
        config_map(servers)[servers[i].id@] == servers[i],
    decreases servers.len(),
{
    if i < servers.len() - 1 {
        let p = servers.drop_last();
        assert forall|j: int| i < j < p.len() implies (#[trigger] p[j]).id@ != p[i].id@ by {
            assert(p[j] == servers[j]);
        }
        law_last_listed_wins(p, i);
        assert(servers.last().id@ != servers[i].id@);
    }
}

/// The default node of a region belongs to the region and is a listed
/// node.
pub proof fn law_default_in_region(listing: Seq<MediaServerInstance>, region_id: Seq<char>)
    requires
        in_region(listing, region_id).len() > 0,
    ensures
        in_region(listing, region_id)[0].region_id@ == region_id,
        listing.contains(in_region(listing, region_id)[0]),
{
    broadcast use vstd::seq_lib::group_filter_ensures;

    assert(in_region(listing, region_id).contains(in_region(listing, region_id)[0]));
    listing.lemma_filter_contains_rev(of_region(region_id), in_region(listing, region_id)[0]);
}

} // verus!

verus! {

/// Every node of a registry's table is filed under its own id.
pub proof fn law_table_ids(registry: MediaServerRegistry, k: Seq<char>)
    ensures
        registry.table().contains_key(k) ==> registry.table()[k].id@ == k,
{
    law_table_keys(registry.listing(), k);
}

} // verus!

verus! {

/// The ids of the nodes of a listing, in order.
pub open spec fn ids_of(listing: Seq<MediaServerInstance>) -> Seq<Seq<char>> {
    listing.map_values(|s: MediaServerInstance| s.id@)
}

/// The client of each node of a registry, by node id: `C` is whatever
/// talks to a node's API.
pub struct ClientTable<C> {
    ids: Vec<String>,
    clients: Vec<C>,
}

impl<C> ClientTable<C> {
    #[verifier::type_invariant]
    spec fn inv(self) -> bool {
        self.ids@.len() == self.clients@.len()
    }

    /// The node ids, in order.
    pub closed spec fn ids(&self) -> Seq<Seq<char>> {
        self.ids@.map_values(|s: String| s@)
    }

    /// The clients, in the order of `ids`.
    pub closed spec fn clients(&self) -> Seq<C> {
        self.clients@
    }

    /// The table that gives each node of `registry`, in listing order, the
    /// client at the same position of `clients`.
    pub fn for_servers(registry: &MediaServerRegistry, clients: Vec<C>) -> (r: Self)
        requires
            clients@.len() == registry.listing().len(),
        ensures
            r.ids() == ids_of(registry.listing()),
            r.clients() == clients@,
    {
        let servers = registry.list_servers();
        let mut ids: Vec<String> = Vec::new();
        let mut i: usize = 0;
        while i < servers.len()
            invariant
                servers@.len() == registry.listing().len(),
                forall|k: int| 0 <= k < servers@.len() ==> *servers@[k] == registry.listing()[k],
                i <= servers@.len(),
                ids@.len() == i,
                forall|k: int| 0 <= k < i ==> (#[trigger] ids@[k])@ == registry.listing()[k].id@,
            decreases servers@.len() - i,
        {
            ids.push(servers[i].id.clone());
            i = i + 1;
        }
        let r = ClientTable { ids, clients };
        assert(r.ids() =~= ids_of(registry.listing()));
        r
    }

    /// The client of the node `server_id`: the first with that id.
    pub fn get_client(&self, server_id: &str) -> (r: Option<&C>)
        ensures
            match r {
                Some(c) => exists|i: int|
                    0 <= i < self.ids().len() && #[trigger] self.ids()[i] == server_id@ && self.clients()[i]
                        == *c,
                None => !self.ids().contains(server_id@),
            },
    {
        proof {
            use_type_invariant(self);
        }
        let mut i: usize = 0;
        while i < self.ids.len()
            invariant
                i <= self.ids@.len(),
                self.ids@.len() == self.clients@.len(),
                forall|k: int| 0 <= k < i ==> (#[trigger] self.ids@[k])@ != server_id@,
            decreases self.ids@.len() - i,
        {
            if same_text(self.ids[i].as_str(), server_id) {
                assert(self.ids()[i as int] == server_id@);
                return Some(&self.clients[i]);
            }
            i = i + 1;
        }
        proof {
            if self.ids().contains(server_id@) {
                let k = choose|k: int| 0 <= k < self.ids().len() && self.ids()[k] == server_id@;
                assert(self.ids@[k]@ == server_id@);
            }
        }
        None
    }
}

/// A node has a client exactly when the registry has the node: in a table
/// built for a registry's listing, the ids with a client are the ids of the
/// registry's table.
pub proof fn law_client_for_every_server(registry: MediaServerRegistry, ids: Seq<Seq<char>>, id: Seq<char>)
    requires
        lists_table(registry.listing(), registry.table()),
        ids == ids_of(registry.listing()),
    ensures
        ids.contains(id) <==> registry.table().contains_key(id),
{
    let listing = registry.listing();
    if ids.contains(id) {
        let k = choose|k: int| 0 <= k < ids.len() && ids[k] == id;
        assert(listing[k].id@ == id);
        assert(registry.table().contains_key(listing[k].id@));
    }
    if registry.table().contains_key(id) {
        let k = choose|k: int| 0 <= k < listing.len() && (#[trigger] listing[k]).id@ == id;
        assert(ids[k] == id);
    }
}

} // verus!
