use mullvad_rpc::offline::{
    AddressMessage, Error, LinkInfo, LinkInfoKind, LinkLayerType, LinkMessage, LinkMonitor,
    LinkNla, MonitorHandle, NetworkSnapshot, check_if_offline, is_offline, is_virtual_interface,
    link_provides_connectivity, running_interfaces,
};

fn ether_link(index: u32, running: bool) -> LinkMessage {
    LinkMessage { link_layer_type: LinkLayerType::Other, running, index, nlas: Vec::new() }
}

fn virtual_link(index: u32, kind: LinkInfoKind) -> LinkMessage {
    LinkMessage {
        link_layer_type: LinkLayerType::Other,
        running: true,
        index,
        nlas: vec![LinkNla::OtherNla, LinkNla::LinkInfo(vec![
            LinkInfo::OtherInfo,
            LinkInfo::Kind(kind),
        ])],
    }
}

fn snapshot(links: Vec<LinkMessage>, addresses: Vec<u32>) -> NetworkSnapshot {
    NetworkSnapshot {
        links,
        addresses: addresses.into_iter().map(|index| AddressMessage { index }).collect(),
    }
}

#[test]
fn virtual_interfaces_are_recognized_by_kind() {
    assert!(is_virtual_interface(&virtual_link(1, LinkInfoKind::Dummy)));
    assert!(is_virtual_interface(&virtual_link(1, LinkInfoKind::Bridge)));
    assert!(is_virtual_interface(&virtual_link(1, LinkInfoKind::Tun)));
    assert!(is_virtual_interface(&virtual_link(1, LinkInfoKind::Nlmon)));
    assert!(is_virtual_interface(&virtual_link(1, LinkInfoKind::IpTun)));
    assert!(!is_virtual_interface(&virtual_link(1, LinkInfoKind::Veth)));
    assert!(!is_virtual_interface(&virtual_link(1, LinkInfoKind::Vlan)));
    assert!(!is_virtual_interface(&ether_link(1, true)));
}

#[test]
fn connectivity_needs_a_running_physical_link() {
    assert!(link_provides_connectivity(&ether_link(2, true)));
    assert!(!link_provides_connectivity(&ether_link(2, false)));
    assert!(!link_provides_connectivity(&virtual_link(2, LinkInfoKind::Tun)));

    let loopback = LinkMessage {
        link_layer_type: LinkLayerType::Loopback,
        running: true,
        index: 1,
        nlas: Vec::new(),
    };
    assert!(!link_provides_connectivity(&loopback));

    let typeless = LinkMessage {
        link_layer_type: LinkLayerType::NoLayer,
        running: true,
        index: 3,
        nlas: Vec::new(),
    };
    assert!(!link_provides_connectivity(&typeless));

    let infrared = LinkMessage {
        link_layer_type: LinkLayerType::Irda,
        running: true,
        index: 4,
        nlas: Vec::new(),
    };
    assert!(!link_provides_connectivity(&infrared));
}

#[test]
fn running_interfaces_lists_connectivity_providers() {
    let links = vec![
        ether_link(1, false),
        ether_link(2, true),
        virtual_link(3, LinkInfoKind::Dummy),
        ether_link(4, true),
    ];
    let indices = running_interfaces(&links);
    assert_eq!(indices, vec![2, 4]);
}

#[test]
fn offline_without_running_links() {
    let s = snapshot(vec![ether_link(2, false)], vec![2]);
    assert_eq!(check_if_offline(Ok(s)), Ok(true));
}

#[test]
fn online_when_an_address_sits_on_a_running_link() {
    let s = snapshot(vec![ether_link(2, true)], vec![1, 2]);
    assert_eq!(check_if_offline(Ok(s)), Ok(false));
}

#[test]
fn offline_when_addresses_sit_elsewhere() {
    let s = snapshot(vec![ether_link(2, true)], vec![1, 3]);
    assert_eq!(check_if_offline(Ok(s)), Ok(true));
}

#[test]
fn failed_snapshot_passes_its_error_through() {
    assert_eq!(
        check_if_offline(Err(Error::NetlinkDisconnected)),
        Err(Error::NetlinkDisconnected),
    );
}

#[test]
fn offline_check_fails_open() {
    assert!(!is_offline(Err(Error::NetlinkError)));
    let handle = MonitorHandle;
    assert!(!handle.is_offline(Err(Error::GetLinksError)));
    let s = snapshot(vec![], vec![]);
    assert!(handle.is_offline(Ok(s)));
}

#[test]
fn monitor_announces_only_changes() {
    let mut monitor = LinkMonitor::new(false);
    assert_eq!(monitor.update(false), None);
    assert_eq!(monitor.update(true), Some(true));
    assert_eq!(monitor.update(true), None);
    assert_eq!(monitor.update(false), Some(false));
}

#[test]
fn monitor_reset_fails_open() {
    let monitor = LinkMonitor::new(true);
    assert_eq!(monitor.reset(), Some(false));
}

#[test]
fn kind_search_moves_past_kindless_info_lists() {
    // the first info list has no kind attribute; the second one decides
    let link = LinkMessage {
        link_layer_type: LinkLayerType::Other,
        running: true,
        index: 9,
        nlas: vec![
            LinkNla::LinkInfo(vec![LinkInfo::OtherInfo]),
            LinkNla::LinkInfo(vec![LinkInfo::Kind(LinkInfoKind::Dummy)]),
        ],
    };
    assert!(is_virtual_interface(&link));
}
