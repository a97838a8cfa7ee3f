//! The decision half of the connectivity monitor: given the links and
//! addresses a netlink query reported, decide whether the host is offline,
//! and track transitions so that only a real change is announced. The
//! netlink queries themselves, the socket and the event loop live with the
//! runtime around the library.

use vstd::prelude::*;

verus! {

/// Describes all the ways the connectivity check can fail. Each variant
/// stands for one failure of the netlink plumbing that gathers the
/// snapshot.
#[derive(Clone, Copy, PartialEq, Eq, Structural, Debug)]
pub enum Error {
    /// The list of links could not be fetched.
    GetLinksError,
    /// The netlink socket could not be opened.
    NetlinkConnectionError,
    /// The netlink socket could not start listening.
    NetlinkBindError,
    /// The netlink connection failed mid-conversation.
    NetlinkError,
    /// The stream of netlink messages failed.
    MonitorNetlinkError,
    /// The netlink connection is gone.
    NetlinkDisconnected,
}

/// The layer a link runs at, as far as the offline check cares: the three
/// kinds it rules out, and everything else.
#[derive(Clone, Copy, PartialEq, Eq, Structural, Debug)]
pub enum LinkLayerType {
    Loopback,
    NoLayer,
    Irda,
    Other,
}

/// What kind of device a virtual link says it is.
#[derive(Clone, Copy, PartialEq, Eq, Structural, Debug)]
pub enum LinkInfoKind {
    Dummy,
    Bridge,
    Tun,
    Nlmon,
    IpTun,
    Veth,
    Vlan,
    OtherKind,
}

/// One attribute inside a link's info list.
#[derive(Clone, Copy, PartialEq, Eq, Structural, Debug)]
pub enum LinkInfo {
    Kind(LinkInfoKind),
    OtherInfo,
}

/// One attribute of a link message.
pub enum LinkNla {
    LinkInfo(Vec<LinkInfo>),
    OtherNla,
}

/// A link as the offline check reads it: its layer type, whether it is
/// running, its interface index, and its attributes.
pub struct LinkMessage {
    pub link_layer_type: LinkLayerType,
    pub running: bool,
    pub index: u32,
    pub nlas: Vec<LinkNla>,
}

/// An assigned address as the offline check reads it: the index of the
/// interface it is assigned to.
#[derive(Clone, Copy, PartialEq, Eq, Structural, Debug)]
pub struct AddressMessage {
    pub index: u32,
}

/// What one netlink query round reported: all links, all addresses.
pub struct NetworkSnapshot {
    pub links: Vec<LinkMessage>,
    pub addresses: Vec<AddressMessage>,
}

/// The first device kind in an info list.
pub open spec fn first_kind(infos: Seq<LinkInfo>) -> Option<LinkInfoKind>
    decreases infos.len(),
{
    if infos.len() == 0 {
        None
    } else {
        match infos[0] {
            LinkInfo::Kind(k) => Some(k),
            LinkInfo::OtherInfo => first_kind(infos.drop_first()),
        }
    }
}

/// The first device kind any of a link's info attributes carries.
pub open spec fn link_kind(nlas: Seq<LinkNla>) -> Option<LinkInfoKind>
    decreases nlas.len(),
{
    if nlas.len() == 0 {
        None
    } else {
        match nlas[0] {
            LinkNla::LinkInfo(infos) => match first_kind(infos@) {
                Some(k) => Some(k),
                None => link_kind(nlas.drop_first()),
            },
            LinkNla::OtherNla => link_kind(nlas.drop_first()),
        }
    }
}

/// The kinds that mark a link as virtual; a kind attribute is only present
/// on virtual links, but these are the ones known not to reach the
/// outside world.
pub open spec fn spec_virtual_kind(k: LinkInfoKind) -> bool {
    match k {
        LinkInfoKind::Dummy => true,
        LinkInfoKind::Bridge => true,
        LinkInfoKind::Tun => true,
        LinkInfoKind::Nlmon => true,
        LinkInfoKind::IpTun => true,
        _ => false,
    }
}

pub open spec fn spec_is_virtual(link: LinkMessage) -> bool {
    match link_kind(link.nlas@) {
        Some(k) => spec_virtual_kind(k),
        None => false,
    }
}

/// A link that can carry traffic to the outside: not loopback, not typeless
/// (some tunnels), not infrared, running, and not a virtual device.
pub open spec fn spec_provides_connectivity(link: LinkMessage) -> bool {
    &&& link.link_layer_type != LinkLayerType::Loopback
    &&& link.link_layer_type != LinkLayerType::NoLayer
    &&& link.link_layer_type != LinkLayerType::Irda
    &&& link.running
    &&& !spec_is_virtual(link)
}

/// The indices of the links that provide connectivity.
pub open spec fn spec_running_interfaces(links: Seq<LinkMessage>) -> Set<u32> {
    Set::new(
        |idx: u32|
            exists|i: int|
                0 <= i < links.len() && #[trigger] spec_provides_connectivity(links[i])
                    && links[i].index == idx,
    )
}

/// Offline means: no link provides connectivity, or no assigned address
/// belongs to a link that does.
pub open spec fn spec_offline(links: Seq<LinkMessage>, addresses: Seq<AddressMessage>) -> bool {
    spec_running_interfaces(links).is_empty() || (forall|i: int|
        0 <= i < addresses.len() ==> !spec_running_interfaces(links).contains(
            #[trigger] addresses[i].index,
        ))
}

/// Scans an info list for the first device kind.
fn first_kind_of(infos: &Vec<LinkInfo>) -> (r: Option<LinkInfoKind>)
    ensures
        r == first_kind(infos@),
{
    proof {
        assert(infos@.skip(0) =~= infos@);
    }
    let n = infos.len();
    let mut i: usize = 0;
    while i < n
        invariant
            0 <= i <= n,
            n == infos@.len(),
            forall|j: int| 0 <= j < i ==> #[trigger] infos@[j] is OtherInfo,
            first_kind(infos@) == first_kind(infos@.skip(i as int)),
        decreases n - i,
    {
        let ghost before = infos@.skip(i as int);
        match infos[i] {
            LinkInfo::Kind(k) => {
                proof {
                    assert(before[0] == infos@[i as int]);
                }
                return Some(k);
            },
            LinkInfo::OtherInfo => (),
        }
        proof {
            assert(before[0] == infos@[i as int]);
            assert(before.drop_first() =~= infos@.skip(i + 1));
        }
        i = i + 1;
    }
    proof {
        assert(infos@.skip(n as int).len() == 0);
    }
    None
}

/// LinkInfo::Kind is only set when the link is actually virtual; a link is
/// treated as virtual exactly when its first kind attribute names a kind
/// known to be.
pub fn is_virtual_interface(link: &LinkMessage) -> (r: bool)
    ensures
        r == spec_is_virtual(*link),
{
    proof {
        assert(link.nlas@.skip(0) =~= link.nlas@);
    }
    let n = link.nlas.len();
    let mut i: usize = 0;
    while i < n
        invariant
            0 <= i <= n,
            n == link.nlas@.len(),
            link_kind(link.nlas@) == link_kind(link.nlas@.skip(i as int)),
        decreases n - i,
    {
        let ghost before = link.nlas@.skip(i as int);
        proof {
            assert(before[0] == link.nlas@[i as int]);
            assert(before.drop_first() =~= link.nlas@.skip(i + 1));
        }
        match &link.nlas[i] {
            LinkNla::LinkInfo(infos) => {
                match first_kind_of(infos) {
                    Some(kind) => {
                        let virt = match kind {
                            LinkInfoKind::Dummy => true,
                            LinkInfoKind::Bridge => true,
                            LinkInfoKind::Tun => true,
                            LinkInfoKind::Nlmon => true,
                            LinkInfoKind::IpTun => true,
                            _ => false,
                        };
                        return virt;
                    },
                    None => (),
                }
            },
            LinkNla::OtherNla => (),
        }
        i = i + 1;
    }
    proof {
        assert(link.nlas@.skip(n as int).len() == 0);
    }
    false
}

/// Whether this link can carry traffic to the outside.
pub fn link_provides_connectivity(link: &LinkMessage) -> (r: bool)
    ensures
        r == spec_provides_connectivity(*link),
{
    // Some tunnels have the link layer type set to no layer at all
    match link.link_layer_type {
        LinkLayerType::Loopback => false,
        LinkLayerType::NoLayer => false,
        LinkLayerType::Irda => false,
        LinkLayerType::Other => link.running && !is_virtual_interface(link),
    }
}

/// The interface indices that have a running, connectivity-providing link.
pub fn running_interfaces(links: &Vec<LinkMessage>) -> (r: Vec<u32>)
    ensures
        r@.to_set() == spec_running_interfaces(links@),
        r@.len() == 0 <==> spec_running_interfaces(links@).is_empty(),
{
    let n = links.len();
    let mut r: Vec<u32> = Vec::new();
    let mut i: usize = 0;
    while i < n
        invariant
            0 <= i <= n,
            n == links@.len(),
            forall|idx: u32|
                r@.to_set().contains(idx) <==> exists|j: int|
                    0 <= j < i && #[trigger] spec_provides_connectivity(links@[j]) && links@[j].index
                        == idx,
        decreases n - i,
    {
        let ghost r_pre = r@;
        if link_provides_connectivity(&links[i]) {
            r.push(links[i].index);
            proof {
                assert forall|idx: u32| r@.to_set().contains(idx) implies exists|j: int|
                    0 <= j < i + 1 && #[trigger] spec_provides_connectivity(links@[j])
                        && links@[j].index == idx by {
                    let w = choose|w: int| 0 <= w < r@.len() && r@[w] == idx;
                    if w < r_pre.len() {
                        assert(r_pre[w] == idx);
                        assert(r_pre.to_set().contains(idx));
                    } else {
                        assert(idx == links@[i as int].index);
                        assert(spec_provides_connectivity(links@[i as int]));
                    }
                };
                assert forall|idx: u32|
                    (exists|j: int|
                        0 <= j < i + 1 && #[trigger] spec_provides_connectivity(links@[j])
                            && links@[j].index == idx) implies r@.to_set().contains(idx) by {
                    let j = choose|j: int|
                        0 <= j < i + 1 && #[trigger] spec_provides_connectivity(links@[j])
                            && links@[j].index == idx;
                    if j < i {
                        assert(r_pre.to_set().contains(idx));
                        let w = choose|w: int| 0 <= w < r_pre.len() && r_pre[w] == idx;
                        assert(r@[w] == idx);
                    } else {
                        assert(r@[r_pre.len() as int] == idx);
                    }
                };
            }
        }
        i = i + 1;
    }
    proof {
        assert(r@.to_set() =~= spec_running_interfaces(links@));
        if r@.len() == 0 {
            assert(r@.to_set() =~= Set::<u32>::empty());
        } else {
            assert(r@.to_set().contains(r@[0]));
        }
        vstd::set_lib::lemma_set_empty_equivalency_len(spec_running_interfaces(links@));
    }
    r
}

/// Checks if there are no running links, or none of the assigned addresses
/// belongs to a running link. A failed snapshot passes its error through.
pub fn check_if_offline(snapshot: Result<NetworkSnapshot, Error>) -> (r: Result<bool, Error>)
    ensures
        match snapshot {
            Ok(s) => r == Ok::<bool, Error>(spec_offline(s.links@, s.addresses@)),
            Err(e) => r == Err::<bool, Error>(e),
        },
{
    match snapshot {
        Err(e) => Err(e),
        Ok(s) => {
            let interfaces = running_interfaces(&s.links);
            if interfaces.len() == 0 {
                return Ok(true);
            }
            // Check that no current address is assigned to a running interface
            let n = s.addresses.len();
            let mut i: usize = 0;
            while i < n
                invariant
                    snapshot matches Ok(sn) && sn == s,
                    0 <= i <= n,
                    n == s.addresses@.len(),
                    interfaces@.to_set() == spec_running_interfaces(s.links@),
                    forall|j: int|
                        0 <= j < i ==> !spec_running_interfaces(s.links@).contains(
                            #[trigger] s.addresses@[j].index,
                        ),
                decreases n - i,
            {
                if contains_index(&interfaces, s.addresses[i].index) {
                    proof {
                        broadcast use vstd::set::group_set_axioms;

                        assert(spec_running_interfaces(s.links@).contains(
                            s.addresses@[i as int].index,
                        ));
                        assert(!spec_offline(s.links@, s.addresses@));
                    }
                    return Ok(false);
                }
                i = i + 1;
            }
            Ok(true)
        },
    }
}

/// Whether the index list holds this index.
fn contains_index(interfaces: &Vec<u32>, index: u32) -> (r: bool)
    ensures
        r == interfaces@.to_set().contains(index),
{
    let n = interfaces.len();
    let mut i: usize = 0;
    while i < n
        invariant
            0 <= i <= n,
            n == interfaces@.len(),
            forall|j: int| 0 <= j < i ==> interfaces@[j] != index,
        decreases n - i,
    {
        if interfaces[i] == index {
            proof {
                assert(interfaces@.to_set().contains(index));
            }
            return true;
        }
        i = i + 1;
    }
    proof {
        assert(!interfaces@.contains(index));
    }
    false
}

/// Whether the host is offline by the latest snapshot; a failed check fails
/// open, reporting the host as online.
pub fn is_offline(snapshot: Result<NetworkSnapshot, Error>) -> (r: bool)
    ensures
        match snapshot {
            Ok(s) => r == spec_offline(s.links@, s.addresses@),
            Err(_) => r == false,
        },
{
    match check_if_offline(snapshot) {
        Ok(offline) => offline,
        Err(_) => false,
    }
}

/// The caller-facing handle of the spawned monitor.
pub struct MonitorHandle;

impl MonitorHandle {
    /// Whether the host is offline by the given snapshot, failing open.
    pub fn is_offline(&self, snapshot: Result<NetworkSnapshot, Error>) -> (r: bool)
        ensures
            match snapshot {
                Ok(s) => r == spec_offline(s.links@, s.addresses@),
                Err(_) => r == false,
            },
    {
        is_offline(snapshot)
    }
}

/// Tracks the last announced offline state and decides what each new
/// observation means: `Some(state)` is owed to the listener, `None` keeps
/// quiet. The channel that carries the announcement lives with the runtime.
pub struct LinkMonitor {
    is_offline: bool,
}

impl LinkMonitor {
    pub closed spec fn spec_is_offline(self) -> bool {
        self.is_offline
    }

    /// Starts from the offline state observed at spawn time.
    pub fn new(is_offline: bool) -> (r: LinkMonitor)
        ensures
            r.spec_is_offline() == is_offline,
    {
        LinkMonitor { is_offline }
    }

    /// Absorbs a new observation: only a change of state is announced.
    pub fn update(&mut self, is_offline: bool) -> (notify: Option<bool>)
        ensures
            final(self).spec_is_offline() == is_offline,
            notify == if old(self).spec_is_offline() != is_offline {
                Some(is_offline)
            } else {
                None::<bool>
            },
    {
        self.set_is_offline(is_offline)
    }

    fn set_is_offline(&mut self, is_offline: bool) -> (notify: Option<bool>)
        ensures
            final(self).spec_is_offline() == is_offline,
            notify == if old(self).spec_is_offline() != is_offline {
                Some(is_offline)
            } else {
                None::<bool>
            },
    {
        if self.is_offline != is_offline {
            self.is_offline = is_offline;
            Some(is_offline)
        } else {
            None
        }
    }

    /// When the monitor's event loop dies, the offline check fails open:
    /// the listener is told the host is online, whatever was last observed.
    pub fn reset(&self) -> (notify: Option<bool>)
        ensures
            notify == Some(false),
    {
        Some(false)
    }
}

} // verus!
