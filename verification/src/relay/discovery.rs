//! Which advertised hosts to show, and under what name.
//!
//! The browsing itself is the window's; these are the rules it applies to what it hears,
//! and the table of hosts those rules keep: one entry per instance name, in name order.

use vstd::prelude::*;

use crate::text::{
    chars_of, ends_with, lemma_lex_strict_total, lemma_lex_transitive, lex_less, lex_lt,
    spec_ends_with, str_eq, string_of,
};

verus! {

/// A host that advertises `w=0` is up but not offering a picture yet; anything else,
/// including no flag at all, is watchable.
pub fn is_watchable(flag: Option<&str>) -> (watchable: bool)
    ensures
        watchable == !(flag matches Some(text) && text@ == seq!['0']),
{
    match flag {
        Some(text) => {
            proof {
                reveal_strlit("0");
                assert("0"@ =~= seq!['0']);
            }
            !str_eq(text, "0")
        },
        None => true,
    }
}

/// Whether a host's watchable flag lets it be shown.
pub open spec fn spec_watchable(flag: Option<Seq<char>>) -> bool {
    !(flag matches Some(text) && text == seq!['0'])
}

/// The service type as it trails a full instance name.
pub open spec fn dotted(service_type: Seq<char>) -> Seq<char> {
    seq!['.'] + service_type
}

/// A full instance name with the service type stripped back off, when it ends in it.
pub open spec fn stripped(fullname: Seq<char>, service_type: Seq<char>) -> Seq<char> {
    if spec_ends_with(fullname, dotted(service_type)) {
        fullname.subrange(0, fullname.len() - dotted(service_type).len())
    } else {
        fullname
    }
}

/// `Studio._opc-mon._tcp.local.` with the service type stripped back off; a name that
/// does not end in it is left alone.
pub fn instance_name(fullname: &str, service_type: &str) -> (name: String)
    ensures
        name@ == stripped(fullname@, service_type@),
        spec_ends_with(fullname@, dotted(service_type@)) ==> name@ == fullname@.subrange(
            0,
            fullname@.len() - dotted(service_type@).len(),
        ),
        !spec_ends_with(fullname@, dotted(service_type@)) ==> name@ == fullname@,
{
    let full = chars_of(fullname);
    let mut suffix: Vec<char> = Vec::new();
    suffix.push('.');
    let kind = chars_of(service_type);
    let mut i: usize = 0;
    while i < kind.len()
        invariant
            i <= kind@.len(),
            suffix@ == seq!['.'] + kind@.subrange(0, i as int),
        decreases kind@.len() - i,
    {
        suffix.push(kind[i]);
        i = i + 1;
        proof {
            assert(suffix@ =~= seq!['.'] + kind@.subrange(0, i as int));
        }
    }
    proof {
        assert(kind@.subrange(0, i as int) =~= kind@);
    }
    if ends_with(full.as_slice(), suffix.as_slice()) {
        let keep = full.len() - suffix.len();
        string_of(&full.as_slice()[0..keep])
    } else {
        string_of(full.as_slice())
    }
}

/// An advertised address: the family (4 or 6) and the octets, an IPv4 address in the
/// first four. Pairs order as `IpAddr` does: IPv4 first, then octet by octet.
pub open spec fn octets_le(a: Seq<u8>, b: Seq<u8>) -> bool
    decreases a.len(),
{
    if a.len() == 0 {
        true
    } else if b.len() == 0 {
        false
    } else if a[0] < b[0] {
        true
    } else if a[0] > b[0] {
        false
    } else {
        octets_le(a.drop_first(), b.drop_first())
    }
}

pub open spec fn address_le(a: (u8, [u8; 16]), b: (u8, [u8; 16])) -> bool {
    a.0 < b.0 || (a.0 == b.0 && octets_le(a.1@, b.1@))
}

pub open spec fn addresses_sorted(addresses: Seq<(u8, [u8; 16])>) -> bool {
    forall|i: int, j: int|
        0 <= i < j < addresses.len() ==> address_le(#[trigger] addresses[i], #[trigger] addresses[j])
}

/// Sorts addresses ascending. A thin wrapper over `slice::sort`, which leaves the same
/// items in ascending order; a pair of integers and an array of them order
/// lexicographically.
#[verifier::external_body]
fn sort_addresses(addresses: &mut Vec<(u8, [u8; 16])>)
    ensures
        final(addresses)@.to_multiset() == old(addresses)@.to_multiset(),
        addresses_sorted(final(addresses)@),
{
    addresses.sort();
}

/// A host offering a picture.
#[derive(Debug, PartialEq, Eq)]
pub struct DiscoveredHost {
    pub name: String,
    pub camera: String,
    pub addresses: Vec<(u8, [u8; 16])>,
    pub port: u16,
}

/// A host as values.
pub struct HostView {
    pub name: Seq<char>,
    pub camera: Seq<char>,
    pub addresses: Seq<(u8, [u8; 16])>,
    pub port: u16,
}

pub open spec fn host_view(host: DiscoveredHost) -> HostView {
    HostView {
        name: host.name@,
        camera: host.camera@,
        addresses: host.addresses@,
        port: host.port,
    }
}

pub open spec fn host_views(hosts: Seq<DiscoveredHost>) -> Seq<HostView> {
    hosts.map_values(|host: DiscoveredHost| host_view(host))
}

fn copy_addresses(addresses: &Vec<(u8, [u8; 16])>) -> (copy: Vec<(u8, [u8; 16])>)
    ensures
        copy@ == addresses@,
{
    let mut copy: Vec<(u8, [u8; 16])> = Vec::new();
    let mut i: usize = 0;
    while i < addresses.len()
        invariant
            i <= addresses@.len(),
            copy@ == addresses@.subrange(0, i as int),
        decreases addresses@.len() - i,
    {
        copy.push(addresses[i]);
        i = i + 1;
        proof {
            assert(copy@ =~= addresses@.subrange(0, i as int));
        }
    }
    proof {
        assert(addresses@.subrange(0, i as int) =~= addresses@);
    }
    copy
}

impl Clone for DiscoveredHost {
    fn clone(&self) -> (copy: Self)
        ensures
            host_view(copy) == host_view(*self),
    {
        DiscoveredHost {
            name: self.name.clone(),
            camera: self.camera.clone(),
            addresses: copy_addresses(&self.addresses),
            port: self.port,
        }
    }
}

/// What the browser heard, with the outside record already read into plain values.
#[derive(Debug)]
pub enum HostEvent {
    /// An instance resolved: its full name, its watchable and camera TXT values when it
    /// carries them, its addresses and its port.
    Resolved {
        fullname: String,
        watchable: Option<String>,
        camera: Option<String>,
        addresses: Vec<(u8, [u8; 16])>,
        port: u16,
    },
    /// An instance went away.
    Removed { fullname: String },
    /// Anything else the browser reports.
    Other,
}

/// Names strictly ascending: each name once, in the order `str` compares them.
pub open spec fn names_sorted(hosts: Seq<HostView>) -> bool {
    forall|i: int, j: int|
        0 <= i < j < hosts.len() ==> lex_lt(#[trigger] hosts[i].name, #[trigger] hosts[j].name)
}

/// Whether `p` is where a host named `name` belongs: after every name before it.
pub open spec fn insert_point(hosts: Seq<HostView>, name: Seq<char>, p: int) -> bool {
    &&& 0 <= p <= hosts.len()
    &&& forall|k: int| 0 <= k < p ==> lex_lt(#[trigger] hosts[k].name, name)
    &&& forall|k: int| p <= k < hosts.len() ==> !lex_lt(#[trigger] hosts[k].name, name)
}

/// The table with `host` in it: replacing the entry of the same name, or added in order.
pub open spec fn placed(hosts: Seq<HostView>, host: HostView) -> Seq<HostView> {
    let p = choose|p: int| insert_point(hosts, host.name, p);
    if p < hosts.len() && hosts[p].name == host.name {
        hosts.update(p, host)
    } else {
        hosts.insert(p, host)
    }
}

/// The table without the entry named `name`, if it has one.
pub open spec fn removed(hosts: Seq<HostView>, name: Seq<char>) -> Seq<HostView> {
    if exists|i: int| 0 <= i < hosts.len() && hosts[i].name == name {
        hosts.remove(choose|i: int| 0 <= i < hosts.len() && hosts[i].name == name)
    } else {
        hosts
    }
}

/// The host a resolved event describes, once its addresses are put in order.
pub open spec fn resolved_as(
    host: HostView,
    name: Seq<char>,
    camera: Option<String>,
    addresses: Seq<(u8, [u8; 16])>,
    port: u16,
) -> bool {
    &&& host.name == name
    &&& host.camera == (match camera {
        Some(text) => text@,
        None => Seq::<char>::empty(),
    })
    &&& host.addresses.to_multiset() == addresses.to_multiset()
    &&& addresses_sorted(host.addresses)
    &&& host.port == port
}

proof fn lemma_names_unique(hosts: Seq<HostView>, i: int, j: int)
    requires
        names_sorted(hosts),
        0 <= i < hosts.len(),
        0 <= j < hosts.len(),
        hosts[i].name == hosts[j].name,
    ensures
        i == j,
{
    lemma_lex_strict_total(hosts[i].name, hosts[i].name);
    if i < j {
        assert(lex_lt(hosts[i].name, hosts[j].name));
    } else if j < i {
        assert(lex_lt(hosts[j].name, hosts[i].name));
    }
}

/// A host taken off is gone: no entry of the table carries its name afterwards, and
/// every other entry stays.
pub proof fn lemma_removed_is_gone(hosts: Seq<HostView>, name: Seq<char>)
    requires
        names_sorted(hosts),
    ensures
        forall|i: int| 0 <= i < removed(hosts, name).len() ==> #[trigger] removed(hosts, name)[i].name != name,
        forall|i: int| 0 <= i < hosts.len() && hosts[i].name != name ==> removed(hosts, name).contains(hosts[i]),
{
    if exists|i: int| 0 <= i < hosts.len() && hosts[i].name == name {
        let c = choose|i: int| 0 <= i < hosts.len() && hosts[i].name == name;
        let out = hosts.remove(c);
        assert forall|i: int| 0 <= i < out.len() implies #[trigger] out[i].name != name by {
            let k = if i < c { i } else { i + 1 };
            assert(out[i] == hosts[k]);
            if hosts[k].name == name {
                lemma_names_unique(hosts, c, k);
            }
        }
        assert forall|i: int| 0 <= i < hosts.len() && hosts[i].name != name implies out.contains(hosts[i]) by {
            if i < c {
                assert(out[i] == hosts[i]);
            } else {
                assert(out[i - 1] == hosts[i]);
            }
        }
    } else {
        assert forall|i: int| 0 <= i < hosts.len() && hosts[i].name != name implies hosts.contains(hosts[i]) by {
        }
    }
}

/// A host put in the table is found there, under its name.
pub proof fn lemma_placed_is_found(hosts: Seq<HostView>, host: HostView)
    requires
        names_sorted(hosts),
    ensures
        placed(hosts, host).contains(host),
{
    let p = choose|p: int| insert_point(hosts, host.name, p);
    if exists|q: int| insert_point(hosts, host.name, q) {
        if p < hosts.len() && hosts[p].name == host.name {
            assert(hosts.update(p, host)[p] == host);
        } else {
            assert(hosts.insert(p, host)[p] == host);
        }
    } else {
        // Every sorted table has a place for every name.
        lemma_insert_point_exists(hosts, host.name);
    }
}

proof fn lemma_insert_point_exists(hosts: Seq<HostView>, name: Seq<char>)
    requires
        names_sorted(hosts),
    ensures
        exists|p: int| insert_point(hosts, name, p),
    decreases hosts.len(),
{
    if hosts.len() == 0 {
        assert(insert_point(hosts, name, 0));
    } else {
        let init = hosts.drop_last();
        assert forall|i: int, j: int| 0 <= i < j < init.len() implies lex_lt(
            #[trigger] init[i].name,
            #[trigger] init[j].name,
        ) by {
            assert(init[i] == hosts[i]);
            assert(init[j] == hosts[j]);
        }
        lemma_insert_point_exists(init, name);
        let q = choose|q: int| insert_point(init, name, q);
        let last = hosts.len() - 1;
        if q == init.len() {
            assert forall|k: int| 0 <= k < last implies lex_lt(#[trigger] hosts[k].name, name) by {
                assert(hosts[k] == init[k]);
            }
            if lex_lt(hosts[last].name, name) {
                assert(insert_point(hosts, name, hosts.len() as int));
            } else {
                assert(insert_point(hosts, name, last));
            }
        } else {
            assert forall|k: int| q <= k < hosts.len() implies !lex_lt(#[trigger] hosts[k].name, name) by {
                if k < last {
                    assert(hosts[k] == init[k]);
                } else {
                    assert(init[q] == hosts[q]);
                    if lex_lt(hosts[last].name, name) {
                        if q < last {
                            lemma_lex_transitive(hosts[q].name, hosts[last].name, name);
                        }
                    }
                }
            }
            assert forall|k: int| 0 <= k < q implies lex_lt(#[trigger] hosts[k].name, name) by {
                assert(hosts[k] == init[k]);
            }
            assert(insert_point(hosts, name, q));
        }
    }
}

/// The hosts heard so far that offer a picture, by instance name.
#[derive(Debug)]
pub struct HostTable {
    service_type: String,
    hosts: Vec<DiscoveredHost>,
}

impl View for HostTable {
    type V = Seq<HostView>;

    closed spec fn view(&self) -> Seq<HostView> {
        host_views(self.hosts@)
    }
}

impl HostTable {
    /// The service type, in the form the full instance names end in.
    pub closed spec fn service(&self) -> Seq<char> {
        self.service_type@
    }

    pub open spec fn wf(&self) -> bool {
        names_sorted(self@)
    }

    /// An empty table for instances of `service_type`.
    pub fn new(service_type: String) -> (table: Self)
        ensures
            table.wf(),
            table@.len() == 0,
            table.service() == service_type@,
    {
        let table = HostTable { service_type, hosts: Vec::new() };
        proof {
            assert(table@ =~= Seq::<HostView>::empty());
        }
        table
    }

    fn remove_named(&mut self, name: &str)
        requires
            old(self).wf(),
        ensures
            final(self).wf(),
            final(self).service() == old(self).service(),
            final(self)@ == removed(old(self)@, name@),
    {
        let ghost before = self@;
        let mut i: usize = 0;
        while i < self.hosts.len()
            invariant
                i <= self.hosts@.len(),
                self@ == before,
                before == old(self)@,
                self.service() == old(self).service(),
                names_sorted(before),
                forall|k: int| 0 <= k < i ==> (#[trigger] before[k]).name != name@,
            decreases self.hosts@.len() - i,
        {
            proof {
                assert(before[i as int] == host_view(self.hosts@[i as int]));
            }
            if str_eq(self.hosts[i].name.as_str(), name) {
                self.hosts.remove(i);
                proof {
                    assert(self@ =~= before.remove(i as int));
                    let c = choose|c: int| 0 <= c < before.len() && before[c].name == name@;
                    lemma_names_unique(before, c, i as int);
                    assert(removed(before, name@) == before.remove(i as int));
                    assert forall|a: int, b: int|
                        0 <= a < b < self@.len() implies lex_lt(
                        #[trigger] self@[a].name,
                        #[trigger] self@[b].name,
                    ) by {
                        let a0 = if a < i { a } else { a + 1 };
                        let b0 = if b < i { b } else { b + 1 };
                        assert(self@[a] == before[a0]);
                        assert(self@[b] == before[b0]);
                    }
                }
                return;
            }
            i = i + 1;
        }
    }

    fn place(&mut self, host: DiscoveredHost)
        requires
            old(self).wf(),
        ensures
            final(self).wf(),
            final(self).service() == old(self).service(),
            final(self)@ == placed(old(self)@, host_view(host)),
    {
        let ghost before = self@;
        let ghost h = host_view(host);
        let name = chars_of(host.name.as_str());
        let mut i: usize = 0;
        while i < self.hosts.len() && lex_less(
            chars_of(self.hosts[i].name.as_str()).as_slice(),
            name.as_slice(),
        )
            invariant
                i <= self.hosts@.len(),
                self@ == before,
                names_sorted(before),
                name@ == h.name,
                forall|k: int| 0 <= k < i ==> lex_lt(#[trigger] before[k].name, h.name),
            decreases self.hosts@.len() - i,
        {
            proof {
                assert(before[i as int] == host_view(self.hosts@[i as int]));
            }
            i = i + 1;
        }
        proof {
            if i < before.len() {
                assert(before[i as int] == host_view(self.hosts@[i as int]));
                assert forall|k: int| i <= k < before.len() implies !lex_lt(
                    #[trigger] before[k].name,
                    h.name,
                ) by {
                    if k > i && lex_lt(before[k].name, h.name) {
                        lemma_lex_transitive(before[i as int].name, before[k].name, h.name);
                    }
                }
            }
            assert(insert_point(before, h.name, i as int));
            let p = choose|p: int| insert_point(before, h.name, p);
            if p < i {
                assert(lex_lt(before[p].name, h.name));
            } else if p > i {
                assert(lex_lt(before[i as int].name, h.name));
            }
            assert(p == i);
        }
        let same = i < self.hosts.len() && str_eq(self.hosts[i].name.as_str(), host.name.as_str());
        if same {
            let ghost old_hosts = self.hosts@;
            self.hosts.set(i, host);
            proof {
                assert(self@ =~= before.update(i as int, h));
                assert forall|a: int, b: int|
                    0 <= a < b < self@.len() implies lex_lt(
                    #[trigger] self@[a].name,
                    #[trigger] self@[b].name,
                ) by {
                    assert(self@[a].name == before[a].name);
                    assert(self@[b].name == before[b].name);
                }
            }
        } else {
            self.hosts.insert(i, host);
            proof {
                assert(self@ =~= before.insert(i as int, h));
                if i < before.len() {
                    assert(before[i as int] == host_view(old(self).hosts@[i as int]));
                    lemma_lex_strict_total(before[i as int].name, h.name);
                }
                assert forall|a: int, b: int|
                    0 <= a < b < self@.len() implies lex_lt(
                    #[trigger] self@[a].name,
                    #[trigger] self@[b].name,
                ) by {
                    if b < i {
                    } else if b == i {
                        assert(self@[b] == h);
                        assert(self@[a] == before[a]);
                    } else if a == i {
                        assert(self@[a] == h);
                        assert(self@[b] == before[b - 1]);
                        if b - 1 > i {
                            lemma_lex_transitive(h.name, before[i as int].name, before[b - 1].name);
                        }
                    } else if a < i {
                        assert(self@[a] == before[a]);
                        assert(self@[b] == before[b - 1]);
                    } else {
                        assert(self@[a] == before[a - 1]);
                        assert(self@[b] == before[b - 1]);
                    }
                }
            }
        }
    }

    /// Folds one thing the browser heard into the table. A resolved instance that says
    /// it is not watchable is taken off, as is one that went away; a watchable one is
    /// added or replaces its entry, its addresses in order and its camera name empty
    /// when it carries none.
    pub fn apply(&mut self, event: HostEvent)
        requires
            old(self).wf(),
        ensures
            final(self).wf(),
            final(self).service() == old(self).service(),
            match event {
                HostEvent::Resolved { fullname, watchable, camera, addresses, port } => {
                    let name = stripped(fullname@, old(self).service());
                    if !spec_watchable(
                        match watchable {
                            Some(text) => Some(text@),
                            None => None,
                        },
                    ) {
                        final(self)@ == removed(old(self)@, name)
                    } else {
                        exists|host: HostView|
                            resolved_as(host, name, camera, addresses@, port) && final(self)@
                                == placed(old(self)@, host)
                    }
                },
                HostEvent::Removed { fullname } => final(self)@ == removed(
                    old(self)@,
                    stripped(fullname@, old(self).service()),
                ),
                HostEvent::Other => final(self)@ == old(self)@,
            },
    {
        match event {
            HostEvent::Resolved { fullname, watchable, camera, addresses, port } => {
                let name = instance_name(fullname.as_str(), self.service_type.as_str());
                let flag = match &watchable {
                    Some(text) => Some(text.as_str()),
                    None => None,
                };
                if !is_watchable(flag) {
                    self.remove_named(name.as_str());
                    return;
                }
                let mut addresses = addresses;
                sort_addresses(&mut addresses);
                let camera = match camera {
                    Some(text) => text,
                    None => String::new(),
                };
                let host = DiscoveredHost { name, camera, addresses, port };
                self.place(host);
            },
            HostEvent::Removed { fullname } => {
                let name = instance_name(fullname.as_str(), self.service_type.as_str());
                self.remove_named(name.as_str());
            },
            HostEvent::Other => {},
        }
    }

    /// Every host, in name order.
    pub fn hosts(&self) -> (hosts: Vec<DiscoveredHost>)
        ensures
            host_views(hosts@) == self@,
    {
        let mut out: Vec<DiscoveredHost> = Vec::new();
        let mut i: usize = 0;
        while i < self.hosts.len()
            invariant
                i <= self.hosts@.len(),
                host_views(out@) == host_views(self.hosts@).subrange(0, i as int),
            decreases self.hosts@.len() - i,
        {
            let copy = self.hosts[i].clone();
            let ghost before = out@;
            out.push(copy);
            proof {
                assert(host_views(out@) =~= host_views(before).push(host_view(copy)));
                assert(host_views(out@) =~= host_views(self.hosts@).subrange(0, i + 1));
            }
            i = i + 1;
        }
        proof {
            assert(host_views(self.hosts@).subrange(0, i as int) =~= host_views(self.hosts@));
        }
        out
    }
}

} // verus!
