use mullvad_rpc::relay_list::{
    Bridges, Location, OpenVpn, OpenVpnEndpointData, Relay, RelayListProxy, ServerRelayList,
    ShadowsocksEndpointData, TransportProtocol, WireGuardRelay, Wireguard, split_location_code,
};
use mullvad_rpc::rest::{MullvadRestHandle, RequestFactory};

fn location(country: &str, city: &str, lat: i64, lon: i64) -> Location {
    Location {
        city: String::from(city),
        country: String::from(country),
        latitude: lat,
        longitude: lon,
    }
}

fn wire_relay(hostname: &str, location: &str) -> Relay {
    Relay {
        hostname: String::from(hostname),
        active: true,
        owned: true,
        location: String::from(location),
        provider: String::from("provider1"),
        ipv4_addr_in: 0x0a000001,
        weight: 100,
        include_in_country: true,
    }
}

fn server_list() -> ServerRelayList {
    ServerRelayList {
        locations: vec![
            (String::from("de-ber"), location("Germany", "Berlin", 52_520_000, 13_405_000)),
            (String::from("se-got"), location("Sweden", "Gothenburg", 57_708_700, 11_974_600)),
            (String::from("se-mma"), location("Sweden", "Malmo", 55_605_000, 13_003_800)),
        ],
        openvpn: OpenVpn {
            ports: vec![OpenVpnEndpointData { port: 1300, protocol: TransportProtocol::Udp }],
            relays: vec![wire_relay("se1", "se-mma")],
        },
        wireguard: Wireguard {
            port_ranges: vec![(53, 53), (4000, 33433)],
            ipv4_gateway: 0x0a400001,
            ipv6_gateway: 1,
            relays: vec![
                WireGuardRelay {
                    relay: wire_relay("se1", "se-mma"),
                    ipv6_addr_in: 42,
                    public_key: vec![7u8; 32],
                },
            ],
        },
        bridge: Bridges {
            shadowsocks: vec![
                ShadowsocksEndpointData {
                    port: 443,
                    cipher: String::from("aes-256-gcm"),
                    password: String::from("mullvad"),
                    protocol: TransportProtocol::Tcp,
                },
            ],
            relays: vec![wire_relay("se2", "se-got")],
        },
    }
}

#[test]
fn splits_location_codes() {
    let (country, city) = split_location_code("se-mma").unwrap();
    assert_eq!(country, "se");
    assert_eq!(city, "mma");

    // extra segments belong to no one: only the first two count
    let (country, city) = split_location_code("se-mma-extra").unwrap();
    assert_eq!(country, "se");
    assert_eq!(city, "mma");

    let (country, city) = split_location_code("-x").unwrap();
    assert_eq!(country, "");
    assert_eq!(city, "x");

    assert!(split_location_code("se").is_none());
    assert!(split_location_code("").is_none());
}

#[test]
fn flattens_locations_into_hierarchy() {
    let list = server_list().into_relay_list();
    assert_eq!(list.countries.len(), 2);

    // countries appear in the key order of the wire map
    assert_eq!(list.countries[0].code, "de");
    assert_eq!(list.countries[0].name, "Germany");
    assert_eq!(list.countries[1].code, "se");
    assert_eq!(list.countries[1].name, "Sweden");

    let sweden = &list.countries[1];
    assert_eq!(sweden.cities.len(), 2);
    assert_eq!(sweden.cities[0].code, "got");
    assert_eq!(sweden.cities[1].code, "mma");
    assert_eq!(sweden.cities[1].name, "Malmo");
    assert_eq!(sweden.cities[1].latitude, 55_605_000);
    assert_eq!(sweden.cities[1].longitude, 13_003_800);

    let berlin = &list.countries[0].cities[0];
    assert_eq!(berlin.name, "Berlin");
    assert!(berlin.relays.is_empty());
}

#[test]
fn merges_relays_into_their_cities() {
    let list = server_list().into_relay_list();
    let sweden = &list.countries[1];

    let malmo = &sweden.cities[1];
    assert_eq!(malmo.relays.len(), 1);
    let se1 = &malmo.relays[0];
    assert_eq!(se1.hostname, "se1");
    assert_eq!(se1.tunnels.openvpn.len(), 1);
    assert_eq!(se1.tunnels.openvpn[0].port, 1300);
    // the same hostname gained a WireGuard endpoint instead of a second entry
    assert_eq!(se1.tunnels.wireguard.len(), 1);
    assert_eq!(se1.tunnels.wireguard[0].public_key, vec![7u8; 32]);
    assert_eq!(se1.tunnels.wireguard[0].port_ranges, vec![(53, 53), (4000, 33433)]);
    // the OpenVPN pass listed it first, so its IPv6 ingress stayed unset
    assert_eq!(se1.ipv6_addr_in, None);
    let geo = se1.location.as_ref().unwrap();
    assert_eq!(geo.country, "Sweden");
    assert_eq!(geo.country_code, "se");
    assert_eq!(geo.city, "Malmo");
    assert_eq!(geo.city_code, "mma");

    let gothenburg = &sweden.cities[0];
    assert_eq!(gothenburg.relays.len(), 1);
    let se2 = &gothenburg.relays[0];
    assert_eq!(se2.hostname, "se2");
    assert!(se2.tunnels.openvpn.is_empty());
    assert_eq!(se2.bridges.shadowsocks.len(), 1);
    assert_eq!(se2.bridges.shadowsocks[0].cipher, "aes-256-gcm");
}

#[test]
fn wireguard_relay_at_fresh_hostname_carries_ipv6() {
    let mut list = server_list();
    list.openvpn.relays.clear();
    let flattened = list.into_relay_list();
    let se1 = &flattened.countries[1].cities[1].relays[0];
    assert_eq!(se1.ipv6_addr_in, Some(42));
    assert_eq!(se1.tunnels.wireguard.len(), 1);
    assert!(se1.tunnels.openvpn.is_empty());
}

#[test]
fn relays_at_unknown_locations_are_dropped() {
    let mut list = server_list();
    list.openvpn.relays.push(wire_relay("xx1", "xx-nowhere"));
    list.openvpn.relays.push(wire_relay("xx2", "malformed"));
    let flattened = list.into_relay_list();
    for country in &flattened.countries {
        for city in &country.cities {
            for relay in &city.relays {
                assert_ne!(relay.hostname, "xx1");
                assert_ne!(relay.hostname, "xx2");
            }
        }
    }
}

#[test]
fn malformed_location_keys_are_skipped() {
    let mut list = server_list();
    list.locations.push((String::from("nodash"), location("Nowhere", "Nowhere", 0, 0)));
    let flattened = list.into_relay_list();
    assert_eq!(flattened.countries.len(), 2);
}

#[test]
fn repeated_openvpn_relay_replaces_endpoints() {
    let mut list = server_list();
    list.openvpn.relays.push(wire_relay("se1", "se-mma"));
    let flattened = list.into_relay_list();
    let malmo = &flattened.countries[1].cities[1];
    assert_eq!(malmo.relays.len(), 1);
    assert_eq!(malmo.relays[0].tunnels.openvpn.len(), 1);
}

#[test]
fn new() {
    let factory = RequestFactory::new(String::from("api.mullvad.net"), None, None);
    let proxy = RelayListProxy::new(MullvadRestHandle::new(factory));
    assert_eq!(proxy.relay_list_path(), "/v1/relays");
    let request = proxy.handle().factory().get(proxy.relay_list_path()).unwrap();
    assert_eq!(request.uri(), "https://api.mullvad.net//v1/relays");
}
