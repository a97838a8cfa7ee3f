//! Retrieving the relay directory: the wire-shaped relay list the API
//! returns, and its flattening into a normalized country, city, relay
//! hierarchy.
//!
//! Geographic coordinates are carried as signed microdegrees (a millionth
//! of a degree), addresses as their integer forms, so that every field is a
//! plain value.

use vstd::prelude::*;
use vstd::string::StringExecFns;
use vstd::string::StrSliceExecFns;
use crate::rest::MullvadRestHandle;

verus! {

/// A location entry of the wire list: the names behind a location code.
pub struct Location {
    pub city: String,
    pub country: String,
    pub latitude: i64,
    pub longitude: i64,
}

#[derive(Clone, Copy, PartialEq, Eq, Structural, Debug)]
pub enum TransportProtocol {
    Tcp,
    Udp,
}

#[derive(Clone, Copy, PartialEq, Eq, Structural, Debug)]
pub struct OpenVpnEndpointData {
    pub port: u16,
    pub protocol: TransportProtocol,
}

pub struct WireguardEndpointData {
    pub port_ranges: Vec<(u16, u16)>,
    pub ipv4_gateway: u32,
    pub ipv6_gateway: u128,
    pub public_key: Vec<u8>,
}

pub struct ShadowsocksEndpointData {
    pub port: u16,
    pub cipher: String,
    pub password: String,
    pub protocol: TransportProtocol,
}

/// One relay of the wire list.
pub struct Relay {
    pub hostname: String,
    pub active: bool,
    pub owned: bool,
    pub location: String,
    pub provider: String,
    pub ipv4_addr_in: u32,
    pub weight: u64,
    pub include_in_country: bool,
}

pub struct WireGuardRelay {
    pub relay: Relay,
    pub ipv6_addr_in: u128,
    pub public_key: Vec<u8>,
}

pub struct OpenVpn {
    pub ports: Vec<OpenVpnEndpointData>,
    pub relays: Vec<Relay>,
}

pub struct Wireguard {
    pub port_ranges: Vec<(u16, u16)>,
    pub ipv4_gateway: u32,
    pub ipv6_gateway: u128,
    pub relays: Vec<WireGuardRelay>,
}

pub struct Bridges {
    pub shadowsocks: Vec<ShadowsocksEndpointData>,
    pub relays: Vec<Relay>,
}

/// The relay list as the server sends it: locations keyed by location code
/// (in the key order the wire map had), and the per-protocol relay arrays.
pub struct ServerRelayList {
    pub locations: Vec<(String, Location)>,
    pub openvpn: OpenVpn,
    pub wireguard: Wireguard,
    pub bridge: Bridges,
}

/// A relay's resolved geographic location in the flattened list.
pub struct GeoLocation {
    pub country: String,
    pub country_code: String,
    pub city: String,
    pub city_code: String,
    pub latitude: i64,
    pub longitude: i64,
}

pub struct RelayTunnels {
    pub openvpn: Vec<OpenVpnEndpointData>,
    pub wireguard: Vec<WireguardEndpointData>,
}

pub struct RelayBridges {
    pub shadowsocks: Vec<ShadowsocksEndpointData>,
}

/// One relay of the flattened list.
pub struct RelayListEntry {
    pub hostname: String,
    pub ipv4_addr_in: u32,
    pub ipv6_addr_in: Option<u128>,
    pub include_in_country: bool,
    pub active: bool,
    pub owned: bool,
    pub provider: String,
    pub weight: u64,
    pub tunnels: RelayTunnels,
    pub bridges: RelayBridges,
    pub location: Option<GeoLocation>,
}

pub struct RelayListCity {
    pub name: String,
    pub code: String,
    pub latitude: i64,
    pub longitude: i64,
    pub relays: Vec<RelayListEntry>,
}

pub struct RelayListCountry {
    pub name: String,
    pub code: String,
    pub cities: Vec<RelayListCity>,
}

/// The flattened, normalized relay list.
pub struct RelayList {
    pub countries: Vec<RelayListCountry>,
}

/// The index of the first dash, scanning left to right.
pub open spec fn first_dash(s: Seq<char>) -> Option<int>
    decreases s.len(),
{
    if s.len() == 0 {
        None
    } else if s[0] == '-' {
        Some(0)
    } else {
        match first_dash(s.drop_first()) {
            None => None,
            Some(i) => Some(i + 1),
        }
    }
}

/// A left-to-right scan that misses everywhere before `i` settles
/// `first_dash`: a hit at `i` is the first, a miss across the whole string
/// means there is none.
proof fn lemma_first_dash_scan(s: Seq<char>, i: int)
    requires
        0 <= i <= s.len(),
        forall|j: int| 0 <= j < i ==> s[j] != '-',
        i < s.len() ==> s[i] == '-',
    ensures
        first_dash(s) == if i < s.len() {
            Some(i)
        } else {
            None::<int>
        },
    decreases i,
{
    if i > 0 {
        assert(forall|j: int| 0 <= j < i - 1 ==> s.drop_first()[j] == s[j + 1]);
        lemma_first_dash_scan(s.drop_first(), i - 1);
    }
}

/// How a location code splits: the country code up to the first dash, the
/// city code from there to the second dash or the end. No dash, no split.
pub open spec fn spec_split_location(s: Seq<char>) -> Option<(Seq<char>, Seq<char>)> {
    match first_dash(s) {
        None => None,
        Some(i) => {
            let rest = s.skip(i + 1);
            let city = match first_dash(rest) {
                None => rest,
                Some(j) => rest.take(j),
            };
            Some((s.take(i), city))
        },
    }
}

/// Finds the first dash at or after `from`, the way the spec scan does.
fn find_dash(s: &str, from: usize) -> (r: Option<usize>)
    requires
        from <= s@.len(),
    ensures
        match r {
            Some(i) => from <= i < s@.len() && first_dash(s@.skip(from as int)) == Some(
                i - from,
            ),
            None => first_dash(s@.skip(from as int)) is None,
        },
{
    let len = s.unicode_len();
    let mut i: usize = from;
    while i < len
        invariant
            from <= i <= len,
            len == s@.len(),
            forall|j: int| from <= j < i ==> s@[j] != '-',
        decreases len - i,
    {
        if s.get_char(i) == '-' {
            proof {
                assert(forall|j: int|
                    0 <= j < s@.skip(from as int).len() ==> s@.skip(from as int)[j] == s@[j
                        + from]);
                lemma_first_dash_scan(s@.skip(from as int), i - from);
            }
            return Some(i);
        }
        i = i + 1;
    }
    proof {
        assert(forall|j: int|
            0 <= j < s@.skip(from as int).len() ==> s@.skip(from as int)[j] == s@[j + from]);
        lemma_first_dash_scan(s@.skip(from as int), s@.len() - from);
    }
    None
}

/// Splits a location code such as `se-mma` into the country code (`se`) and
/// the city code (`mma`); a code without a dash does not split.
pub fn split_location_code(location: &str) -> (r: Option<(String, String)>)
    ensures
        match r {
            Some(parts) => spec_split_location(location@) matches Some(sp) && parts.0@ == sp.0
                && parts.1@ == sp.1,
            None => spec_split_location(location@) is None,
        },
{
    let len = location.unicode_len();
    match find_dash(location, 0) {
        None => {
            proof {
                assert(location@.skip(0) =~= location@);
            }
            None
        },
        Some(i) => {
            proof {
                assert(location@.skip(0) =~= location@);
            }
            let country = location.substring_char(0, i);
            let second = find_dash(location, i + 1);
            let city_end = match second {
                Some(j) => j,
                None => len,
            };
            let city = location.substring_char(i + 1, city_end);
            proof {
                let rest = location@.skip(i + 1);
                match second {
                    None => {
                        assert(first_dash(rest) is None);
                        assert(city@ =~= rest);
                    },
                    Some(j) => {
                        assert(first_dash(rest) == Some(j - (i + 1)));
                        assert(city@ =~= rest.take(j - (i + 1)));
                    },
                }
                assert(country@ =~= location@.take(i as int));
            }
            Some((String::from_str(country), String::from_str(city)))
        },
    }
}

/// A fresh country for a location: named after the location's country, with
/// no cities yet.
pub fn location_to_country(location: &Location, code: String) -> (r: RelayListCountry)
    ensures
        r.name@ == location.country@,
        r.code@ == code@,
        r.cities@ == Seq::<RelayListCity>::empty(),
{
    let r = RelayListCountry { cities: Vec::with_capacity(20), name: location.country.clone(), code };
    proof {
        assert(r.cities@ =~= Seq::<RelayListCity>::empty());
    }
    r
}

/// A fresh city for a location: named and placed after the location, with
/// no relays yet.
pub fn location_to_city(location: &Location, code: String) -> (r: RelayListCity)
    ensures
        r.name@ == location.city@,
        r.code@ == code@,
        r.latitude == location.latitude,
        r.longitude == location.longitude,
        r.relays@ == Seq::<RelayListEntry>::empty(),
{
    let r = RelayListCity {
        name: location.city.clone(),
        code,
        latitude: location.latitude,
        longitude: location.longitude,
        relays: Vec::with_capacity(100),
    };
    proof {
        assert(r.relays@ =~= Seq::<RelayListEntry>::empty());
    }
    r
}

/// What a freshly listed relay looks like: the wire relay's fields, no
/// tunnel or bridge endpoints yet, the resolved location attached.
pub open spec fn spec_new_entry(relay: Relay, location: GeoLocation, e: RelayListEntry) -> bool {
    &&& e.hostname@ == relay.hostname@
    &&& e.ipv4_addr_in == relay.ipv4_addr_in
    &&& e.ipv6_addr_in is None
    &&& e.include_in_country == relay.include_in_country
    &&& e.active == relay.active
    &&& e.owned == relay.owned
    &&& e.provider@ == relay.provider@
    &&& e.weight == relay.weight
    &&& e.tunnels.openvpn@ == Seq::<OpenVpnEndpointData>::empty()
    &&& e.tunnels.wireguard@ == Seq::<WireguardEndpointData>::empty()
    &&& e.bridges.shadowsocks@ == Seq::<ShadowsocksEndpointData>::empty()
    &&& e.location == Some(location)
}

/// Turns a wire relay into a listed relay at a resolved location.
pub fn relay(wire: Relay, location: GeoLocation) -> (r: RelayListEntry)
    ensures
        spec_new_entry(wire, location, r),
{
    let r = RelayListEntry {
        hostname: wire.hostname,
        ipv4_addr_in: wire.ipv4_addr_in,
        ipv6_addr_in: None,
        include_in_country: wire.include_in_country,
        active: wire.active,
        owned: wire.owned,
        provider: wire.provider,
        weight: wire.weight,
        tunnels: RelayTunnels { openvpn: Vec::new(), wireguard: Vec::new() },
        bridges: RelayBridges { shadowsocks: Vec::new() },
        location: Some(location),
    };
    proof {
        assert(r.tunnels.openvpn@ =~= Seq::<OpenVpnEndpointData>::empty());
        assert(r.tunnels.wireguard@ =~= Seq::<WireguardEndpointData>::empty());
        assert(r.bridges.shadowsocks@ =~= Seq::<ShadowsocksEndpointData>::empty());
    }
    r
}

// ---------------------------------------------------------------------
// Mathematical views of the flattened list
// ---------------------------------------------------------------------

#[verifier::ext_equal]
pub ghost struct WireguardEndpointDataV {
    pub port_ranges: Seq<(u16, u16)>,
    pub ipv4_gateway: u32,
    pub ipv6_gateway: u128,
    pub public_key: Seq<u8>,
}

impl View for WireguardEndpointData {
    type V = WireguardEndpointDataV;

    open spec fn view(&self) -> WireguardEndpointDataV {
        WireguardEndpointDataV {
            port_ranges: self.port_ranges@,
            ipv4_gateway: self.ipv4_gateway,
            ipv6_gateway: self.ipv6_gateway,
            public_key: self.public_key@,
        }
    }
}

#[verifier::ext_equal]
pub ghost struct ShadowsocksEndpointDataV {
    pub port: u16,
    pub cipher: Seq<char>,
    pub password: Seq<char>,
    pub protocol: TransportProtocol,
}

impl View for ShadowsocksEndpointData {
    type V = ShadowsocksEndpointDataV;

    open spec fn view(&self) -> ShadowsocksEndpointDataV {
        ShadowsocksEndpointDataV {
            port: self.port,
            cipher: self.cipher@,
            password: self.password@,
            protocol: self.protocol,
        }
    }
}

#[verifier::ext_equal]
pub ghost struct GeoLocationV {
    pub country: Seq<char>,
    pub country_code: Seq<char>,
    pub city: Seq<char>,
    pub city_code: Seq<char>,
    pub latitude: i64,
    pub longitude: i64,
}

impl View for GeoLocation {
    type V = GeoLocationV;

    open spec fn view(&self) -> GeoLocationV {
        GeoLocationV {
            country: self.country@,
            country_code: self.country_code@,
            city: self.city@,
            city_code: self.city_code@,
            latitude: self.latitude,
            longitude: self.longitude,
        }
    }
}

#[verifier::ext_equal]
pub ghost struct EntryV {
    pub hostname: Seq<char>,
    pub ipv4_addr_in: u32,
    pub ipv6_addr_in: Option<u128>,
    pub include_in_country: bool,
    pub active: bool,
    pub owned: bool,
    pub provider: Seq<char>,
    pub weight: u64,
    pub openvpn: Seq<OpenVpnEndpointData>,
    pub wireguard: Seq<WireguardEndpointDataV>,
    pub shadowsocks: Seq<ShadowsocksEndpointDataV>,
    pub location: Option<GeoLocationV>,
}

impl View for RelayListEntry {
    type V = EntryV;

    open spec fn view(&self) -> EntryV {
        EntryV {
            hostname: self.hostname@,
            ipv4_addr_in: self.ipv4_addr_in,
            ipv6_addr_in: self.ipv6_addr_in,
            include_in_country: self.include_in_country,
            active: self.active,
            owned: self.owned,
            provider: self.provider@,
            weight: self.weight,
            openvpn: self.tunnels.openvpn@,
            wireguard: self.tunnels.wireguard@.map_values(|w: WireguardEndpointData| w@),
            shadowsocks: self.bridges.shadowsocks@.map_values(|s: ShadowsocksEndpointData| s@),
            location: match self.location {
                Some(g) => Some(g@),
                None => None,
            },
        }
    }
}

#[verifier::ext_equal]
pub ghost struct CityV {
    pub name: Seq<char>,
    pub code: Seq<char>,
    pub latitude: i64,
    pub longitude: i64,
    pub relays: Seq<EntryV>,
}

impl View for RelayListCity {
    type V = CityV;

    open spec fn view(&self) -> CityV {
        CityV {
            name: self.name@,
            code: self.code@,
            latitude: self.latitude,
            longitude: self.longitude,
            relays: self.relays@.map_values(|e: RelayListEntry| e@),
        }
    }
}

#[verifier::ext_equal]
pub ghost struct CountryV {
    pub name: Seq<char>,
    pub code: Seq<char>,
    pub cities: Seq<CityV>,
}

impl View for RelayListCountry {
    type V = CountryV;

    open spec fn view(&self) -> CountryV {
        CountryV {
            name: self.name@,
            code: self.code@,
            cities: self.cities@.map_values(|c: RelayListCity| c@),
        }
    }
}

/// The views of a country sequence.
pub open spec fn countries_view(cs: Seq<RelayListCountry>) -> Seq<CountryV> {
    cs.map_values(|c: RelayListCountry| c@)
}

// ---------------------------------------------------------------------
// What the flattening computes, pass by pass
// ---------------------------------------------------------------------

/// The first country carrying this code.
pub open spec fn country_index_v(countries: Seq<CountryV>, code: Seq<char>) -> Option<int>
    decreases countries.len(),
{
    if countries.len() == 0 {
        None
    } else if countries[0].code == code {
        Some(0)
    } else {
        match country_index_v(countries.drop_first(), code) {
            None => None,
            Some(i) => Some(i + 1),
        }
    }
}

/// The first city carrying this code.
pub open spec fn city_index_v(cities: Seq<CityV>, code: Seq<char>) -> Option<int>
    decreases cities.len(),
{
    if cities.len() == 0 {
        None
    } else if cities[0].code == code {
        Some(0)
    } else {
        match city_index_v(cities.drop_first(), code) {
            None => None,
            Some(i) => Some(i + 1),
        }
    }
}

/// The first listed relay carrying this hostname.
pub open spec fn entry_index_v(relays: Seq<EntryV>, hostname: Seq<char>) -> Option<int>
    decreases relays.len(),
{
    if relays.len() == 0 {
        None
    } else if relays[0].hostname == hostname {
        Some(0)
    } else {
        match entry_index_v(relays.drop_first(), hostname) {
            None => None,
            Some(i) => Some(i + 1),
        }
    }
}

pub open spec fn new_city_v(loc: Location, code: Seq<char>) -> CityV {
    CityV {
        name: loc.city@,
        code,
        latitude: loc.latitude,
        longitude: loc.longitude,
        relays: Seq::empty(),
    }
}

/// One location entry folded in: a malformed code changes nothing; a known
/// country code gains a city; a fresh country code founds the country with
/// that city, at the end of the list.
pub open spec fn add_location_v(countries: Seq<CountryV>, code: Seq<char>, loc: Location) -> Seq<
    CountryV,
> {
    match spec_split_location(code) {
        None => countries,
        Some(parts) => match country_index_v(countries, parts.0) {
            Some(i) => countries.update(
                i,
                CountryV { cities: countries[i].cities.push(new_city_v(loc, parts.1)), ..countries[i] },
            ),
            None => countries.push(
                CountryV {
                    name: loc.country@,
                    code: parts.0,
                    cities: seq![new_city_v(loc, parts.1)],
                },
            ),
        },
    }
}

/// The countries after the whole location map is folded in, in order.
pub open spec fn run_locations_v(
    countries: Seq<CountryV>,
    locations: Seq<(String, Location)>,
) -> Seq<CountryV>
    decreases locations.len(),
{
    if locations.len() == 0 {
        countries
    } else {
        add_location_v(
            run_locations_v(countries, locations.drop_last()),
            locations.last().0@,
            locations.last().1,
        )
    }
}

/// A relay's resolved location: the names of the country and city it sits
/// in.
pub open spec fn geo_of_v(country: CountryV, city: CityV) -> GeoLocationV {
    GeoLocationV {
        country: country.name,
        country_code: country.code,
        city: city.name,
        city_code: city.code,
        latitude: city.latitude,
        longitude: city.longitude,
    }
}

/// A freshly listed relay: the wire relay's fields, no endpoints yet.
pub open spec fn new_entry_v(r: Relay, geo: GeoLocationV) -> EntryV {
    EntryV {
        hostname: r.hostname@,
        ipv4_addr_in: r.ipv4_addr_in,
        ipv6_addr_in: None,
        include_in_country: r.include_in_country,
        active: r.active,
        owned: r.owned,
        provider: r.provider@,
        weight: r.weight,
        openvpn: Seq::empty(),
        wireguard: Seq::empty(),
        shadowsocks: Seq::empty(),
        location: Some(geo),
    }
}

/// Replaces the city at the located position of the located country.
pub open spec fn put_city_v(countries: Seq<CountryV>, i: int, j: int, city: CityV) -> Seq<
    CountryV,
>
    recommends
        0 <= i < countries.len(),
        0 <= j < countries[i].cities.len(),
{
    countries.update(i, CountryV { cities: countries[i].cities.update(j, city), ..countries[i] })
}

/// One OpenVPN relay folded in: a relay whose location code is malformed or
/// resolves to no known country and city changes nothing; a known hostname
/// has its OpenVPN endpoints replaced by the shared list; a fresh hostname
/// is appended with them.
pub open spec fn add_openvpn_v(
    countries: Seq<CountryV>,
    r: Relay,
    data: Seq<OpenVpnEndpointData>,
) -> Seq<CountryV> {
    match spec_split_location(r.location@) {
        None => countries,
        Some(parts) => match country_index_v(countries, parts.0) {
            None => countries,
            Some(i) => {
                let country = countries[i];
                match city_index_v(country.cities, parts.1) {
                    None => countries,
                    Some(j) => {
                        let city = country.cities[j];
                        let geo = geo_of_v(country, city);
                        let relays = match entry_index_v(city.relays, r.hostname@) {
                            Some(k) => city.relays.update(
                                k,
                                EntryV { openvpn: data, ..city.relays[k] },
                            ),
                            None => city.relays.push(EntryV { openvpn: data, ..new_entry_v(r, geo) }),
                        };
                        put_city_v(countries, i, j, CityV { relays, ..city })
                    },
                }
            },
        },
    }
}

pub open spec fn run_openvpn_v(
    countries: Seq<CountryV>,
    relays: Seq<Relay>,
    data: Seq<OpenVpnEndpointData>,
) -> Seq<CountryV>
    decreases relays.len(),
{
    if relays.len() == 0 {
        countries
    } else {
        add_openvpn_v(run_openvpn_v(countries, relays.drop_last(), data), relays.last(), data)
    }
}

/// The WireGuard endpoint a relay advertises: the list-wide gateways and
/// port ranges, the relay's own public key.
pub open spec fn wg_endpoint_v(
    port_ranges: Seq<(u16, u16)>,
    ipv4_gateway: u32,
    ipv6_gateway: u128,
    public_key: Seq<u8>,
) -> WireguardEndpointDataV {
    WireguardEndpointDataV { port_ranges, ipv4_gateway, ipv6_gateway, public_key }
}

/// One WireGuard relay folded in: a known hostname gains one more WireGuard
/// endpoint; a fresh hostname is appended with that endpoint alone and its
/// IPv6 ingress address set.
pub open spec fn add_wireguard_v(
    countries: Seq<CountryV>,
    wr: WireGuardRelay,
    port_ranges: Seq<(u16, u16)>,
    ipv4_gateway: u32,
    ipv6_gateway: u128,
) -> Seq<CountryV> {
    let endpoint = wg_endpoint_v(port_ranges, ipv4_gateway, ipv6_gateway, wr.public_key@);
    match spec_split_location(wr.relay.location@) {
        None => countries,
        Some(parts) => match country_index_v(countries, parts.0) {
            None => countries,
            Some(i) => {
                let country = countries[i];
                match city_index_v(country.cities, parts.1) {
                    None => countries,
                    Some(j) => {
                        let city = country.cities[j];
                        let geo = geo_of_v(country, city);
                        let relays = match entry_index_v(city.relays, wr.relay.hostname@) {
                            Some(k) => city.relays.update(
                                k,
                                EntryV {
                                    wireguard: city.relays[k].wireguard.push(endpoint),
                                    ..city.relays[k]
                                },
                            ),
                            None => city.relays.push(
                                EntryV {
                                    ipv6_addr_in: Some(wr.ipv6_addr_in),
                                    wireguard: seq![endpoint],
                                    ..new_entry_v(wr.relay, geo)
                                },
                            ),
                        };
                        put_city_v(countries, i, j, CityV { relays, ..city })
                    },
                }
            },
        },
    }
}

pub open spec fn run_wireguard_v(
    countries: Seq<CountryV>,
    relays: Seq<WireGuardRelay>,
    port_ranges: Seq<(u16, u16)>,
    ipv4_gateway: u32,
    ipv6_gateway: u128,
) -> Seq<CountryV>
    decreases relays.len(),
{
    if relays.len() == 0 {
        countries
    } else {
        add_wireguard_v(
            run_wireguard_v(countries, relays.drop_last(), port_ranges, ipv4_gateway, ipv6_gateway),
            relays.last(),
            port_ranges,
            ipv4_gateway,
            ipv6_gateway,
        )
    }
}

/// One bridge relay folded in: a known hostname has its bridge endpoints
/// replaced by the shared list; a fresh hostname is appended with them.
pub open spec fn add_bridge_v(
    countries: Seq<CountryV>,
    r: Relay,
    shadowsocks: Seq<ShadowsocksEndpointDataV>,
) -> Seq<CountryV> {
    match spec_split_location(r.location@) {
        None => countries,
        Some(parts) => match country_index_v(countries, parts.0) {
            None => countries,
            Some(i) => {
                let country = countries[i];
                match city_index_v(country.cities, parts.1) {
                    None => countries,
                    Some(j) => {
                        let city = country.cities[j];
                        let geo = geo_of_v(country, city);
                        let relays = match entry_index_v(city.relays, r.hostname@) {
                            Some(k) => city.relays.update(
                                k,
                                EntryV { shadowsocks, ..city.relays[k] },
                            ),
                            None => city.relays.push(
                                EntryV { shadowsocks, ..new_entry_v(r, geo) },
                            ),
                        };
                        put_city_v(countries, i, j, CityV { relays, ..city })
                    },
                }
            },
        },
    }
}

pub open spec fn run_bridges_v(
    countries: Seq<CountryV>,
    relays: Seq<Relay>,
    shadowsocks: Seq<ShadowsocksEndpointDataV>,
) -> Seq<CountryV>
    decreases relays.len(),
{
    if relays.len() == 0 {
        countries
    } else {
        add_bridge_v(
            run_bridges_v(countries, relays.drop_last(), shadowsocks),
            relays.last(),
            shadowsocks,
        )
    }
}

pub open spec fn ss_views(s: Seq<ShadowsocksEndpointData>) -> Seq<ShadowsocksEndpointDataV> {
    s.map_values(|e: ShadowsocksEndpointData| e@)
}

/// The whole flattening: locations found the hierarchy, then the OpenVPN,
/// WireGuard and bridge arrays are merged into it, in that order.
pub open spec fn spec_relay_list(list: ServerRelayList) -> Seq<CountryV> {
    let after_locations = run_locations_v(Seq::empty(), list.locations@);
    let after_openvpn = run_openvpn_v(after_locations, list.openvpn.relays@, list.openvpn.ports@);
    let after_wireguard = run_wireguard_v(
        after_openvpn,
        list.wireguard.relays@,
        list.wireguard.port_ranges@,
        list.wireguard.ipv4_gateway,
        list.wireguard.ipv6_gateway,
    );
    run_bridges_v(after_wireguard, list.bridge.relays@, ss_views(list.bridge.shadowsocks@))
}

// ---------------------------------------------------------------------
// The flattening itself
// ---------------------------------------------------------------------

/// A scan settles `country_index_v` the way `lemma_first_dash_scan` settles
/// `first_dash`.
proof fn lemma_country_index_scan(cs: Seq<CountryV>, code: Seq<char>, i: int)
    requires
        0 <= i <= cs.len(),
        forall|j: int| 0 <= j < i ==> #[trigger] cs[j].code != code,
        i < cs.len() ==> cs[i].code == code,
    ensures
        country_index_v(cs, code) == if i < cs.len() {
            Some(i)
        } else {
            None::<int>
        },
    decreases i,
{
    if i > 0 {
        assert(forall|j: int| 0 <= j < i - 1 ==> cs.drop_first()[j] == cs[j + 1]);
        lemma_country_index_scan(cs.drop_first(), code, i - 1);
    }
}

proof fn lemma_city_index_scan(cs: Seq<CityV>, code: Seq<char>, i: int)
    requires
        0 <= i <= cs.len(),
        forall|j: int| 0 <= j < i ==> #[trigger] cs[j].code != code,
        i < cs.len() ==> cs[i].code == code,
    ensures
        city_index_v(cs, code) == if i < cs.len() {
            Some(i)
        } else {
            None::<int>
        },
    decreases i,
{
    if i > 0 {
        assert(forall|j: int| 0 <= j < i - 1 ==> cs.drop_first()[j] == cs[j + 1]);
        lemma_city_index_scan(cs.drop_first(), code, i - 1);
    }
}

proof fn lemma_entry_index_scan(es: Seq<EntryV>, hostname: Seq<char>, i: int)
    requires
        0 <= i <= es.len(),
        forall|j: int| 0 <= j < i ==> #[trigger] es[j].hostname != hostname,
        i < es.len() ==> es[i].hostname == hostname,
    ensures
        entry_index_v(es, hostname) == if i < es.len() {
            Some(i)
        } else {
            None::<int>
        },
    decreases i,
{
    if i > 0 {
        assert(forall|j: int| 0 <= j < i - 1 ==> es.drop_first()[j] == es[j + 1]);
        lemma_entry_index_scan(es.drop_first(), hostname, i - 1);
    }
}

/// Finds the country carrying this code.
fn locate_country(countries: &Vec<RelayListCountry>, code: &String) -> (r: Option<usize>)
    ensures
        match r {
            Some(i) => i < countries@.len() && country_index_v(countries_view(countries@), code@)
                == Some(i as int),
            None => country_index_v(countries_view(countries@), code@) is None,
        },
{
    let ghost cs = countries_view(countries@);
    let n = countries.len();
    let mut i: usize = 0;
    while i < n
        invariant
            0 <= i <= n,
            n == countries@.len(),
            cs == countries_view(countries@),
            cs.len() == n,
            forall|j: int| 0 <= j < i ==> #[trigger] cs[j].code != code@,
        decreases n - i,
    {
        if countries[i].code == *code {
            proof {
                assert(cs[i as int].code == code@);
                lemma_country_index_scan(cs, code@, i as int);
            }
            return Some(i);
        }
        proof {
            assert(cs[i as int].code != code@);
        }
        i = i + 1;
    }
    proof {
        lemma_country_index_scan(cs, code@, n as int);
    }
    None
}

/// Finds the city carrying this code.
fn locate_city(cities: &Vec<RelayListCity>, code: &String) -> (r: Option<usize>)
    ensures
        match r {
            Some(i) => i < cities@.len() && city_index_v(
                cities@.map_values(|c: RelayListCity| c@),
                code@,
            ) == Some(i as int),
            None => city_index_v(cities@.map_values(|c: RelayListCity| c@), code@) is None,
        },
{
    let ghost cs = cities@.map_values(|c: RelayListCity| c@);
    let n = cities.len();
    let mut i: usize = 0;
    while i < n
        invariant
            0 <= i <= n,
            n == cities@.len(),
            cs == cities@.map_values(|c: RelayListCity| c@),
            cs.len() == n,
            forall|j: int| 0 <= j < i ==> #[trigger] cs[j].code != code@,
        decreases n - i,
    {
        if cities[i].code == *code {
            proof {
                assert(cs[i as int].code == code@);
                lemma_city_index_scan(cs, code@, i as int);
            }
            return Some(i);
        }
        proof {
            assert(cs[i as int].code != code@);
        }
        i = i + 1;
    }
    proof {
        lemma_city_index_scan(cs, code@, n as int);
    }
    None
}

/// Finds the listed relay carrying this hostname.
fn locate_entry(relays: &Vec<RelayListEntry>, hostname: &String) -> (r: Option<usize>)
    ensures
        match r {
            Some(i) => i < relays@.len() && entry_index_v(
                relays@.map_values(|e: RelayListEntry| e@),
                hostname@,
            ) == Some(i as int),
            None => entry_index_v(relays@.map_values(|e: RelayListEntry| e@), hostname@) is None,
        },
{
    let ghost es = relays@.map_values(|e: RelayListEntry| e@);
    let n = relays.len();
    let mut i: usize = 0;
    while i < n
        invariant
            0 <= i <= n,
            n == relays@.len(),
            es == relays@.map_values(|e: RelayListEntry| e@),
            es.len() == n,
            forall|j: int| 0 <= j < i ==> #[trigger] es[j].hostname != hostname@,
        decreases n - i,
    {
        if relays[i].hostname == *hostname {
            proof {
                assert(es[i as int].hostname == hostname@);
                lemma_entry_index_scan(es, hostname@, i as int);
            }
            return Some(i);
        }
        proof {
            assert(es[i as int].hostname != hostname@);
        }
        i = i + 1;
    }
    proof {
        lemma_entry_index_scan(es, hostname@, n as int);
    }
    None
}

/// Replaces the element at a position.
fn vec_put<T>(v: &mut Vec<T>, i: usize, x: T)
    requires
        i < old(v)@.len(),
    ensures
        final(v)@ == old(v)@.update(i as int, x),
{
    v.remove(i);
    v.insert(i, x);
    proof {
        assert(final(v)@ =~= old(v)@.update(i as int, x));
    }
}

fn copy_openvpn_data(v: &Vec<OpenVpnEndpointData>) -> (r: Vec<OpenVpnEndpointData>)
    ensures
        r@ == v@,
{
    let mut r: Vec<OpenVpnEndpointData> = Vec::new();
    let n = v.len();
    let mut i: usize = 0;
    while i < n
        invariant
            0 <= i <= n,
            n == v@.len(),
            r@ == v@.take(i as int),
        decreases n - i,
    {
        r.push(v[i]);
        proof {
            assert(r@ =~= v@.take(i + 1));
        }
        i = i + 1;
    }
    proof {
        assert(v@.take(n as int) =~= v@);
    }
    r
}

fn copy_port_ranges(v: &Vec<(u16, u16)>) -> (r: Vec<(u16, u16)>)
    ensures
        r@ == v@,
{
    let mut r: Vec<(u16, u16)> = Vec::new();
    let n = v.len();
    let mut i: usize = 0;
    while i < n
        invariant
            0 <= i <= n,
            n == v@.len(),
            r@ == v@.take(i as int),
        decreases n - i,
    {
        r.push(v[i]);
        proof {
            assert(r@ =~= v@.take(i + 1));
        }
        i = i + 1;
    }
    proof {
        assert(v@.take(n as int) =~= v@);
    }
    r
}

fn clone_shadowsocks(v: &Vec<ShadowsocksEndpointData>) -> (r: Vec<ShadowsocksEndpointData>)
    ensures
        ss_views(r@) == ss_views(v@),
{
    let mut r: Vec<ShadowsocksEndpointData> = Vec::new();
    let n = v.len();
    let mut i: usize = 0;
    while i < n
        invariant
            0 <= i <= n,
            n == v@.len(),
            r@.len() == i,
            forall|k: int| 0 <= k < i ==> (#[trigger] r@[k])@ == v@[k]@,
        decreases n - i,
    {
        let e = ShadowsocksEndpointData {
            port: v[i].port,
            cipher: v[i].cipher.clone(),
            password: v[i].password.clone(),
            protocol: v[i].protocol,
        };
        proof {
            assert(e@ =~= v@[i as int]@);
        }
        r.push(e);
        i = i + 1;
    }
    proof {
        assert(ss_views(r@) =~= ss_views(v@));
    }
    r
}

/// The resolved location a relay in this country and city gets.
fn geo_for(country: &RelayListCountry, city: &RelayListCity) -> (g: GeoLocation)
    ensures
        g@ == geo_of_v(country@, city@),
{
    let g = GeoLocation {
        country: country.name.clone(),
        country_code: country.code.clone(),
        city: city.name.clone(),
        city_code: city.code.clone(),
        latitude: city.latitude,
        longitude: city.longitude,
    };
    proof {
        assert(g@ =~= geo_of_v(country@, city@));
    }
    g
}

/// Folds one location entry into the hierarchy.
fn add_location_one(countries: &mut Vec<RelayListCountry>, code: &String, loc: &Location)
    ensures
        countries_view(final(countries)@) == add_location_v(
            countries_view(old(countries)@),
            code@,
            *loc,
        ),
{
    let ghost pre = countries_view(countries@);
    match split_location_code(code.as_str()) {
        None => (),
        Some((country_code, city_code)) => {
            let ghost cc = country_code@;
            let ghost city_cv = city_code@;
            match locate_country(countries, &country_code) {
                Some(i) => {
                    let mut country = countries.remove(i);
                    let city = location_to_city(loc, city_code);
                    proof {
                        assert(city@ =~= new_city_v(*loc, city_cv));
                    }
                    let ghost country_pre = country@;
                    country.cities.push(city);
                    proof {
                        assert(country@.cities =~= country_pre.cities.push(new_city_v(*loc, city_cv)));
                        assert(country@ =~= CountryV { cities: pre[i as int].cities.push(new_city_v(*loc, city_cv)), ..pre[i as int] });
                    }
                    countries.insert(i, country);
                    proof {
                        assert(countries_view(countries@) =~= add_location_v(pre, code@, *loc));
                    }
                },
                None => {
                    let mut country = location_to_country(loc, country_code);
                    let city = location_to_city(loc, city_code);
                    proof {
                        assert(city@ =~= new_city_v(*loc, city_cv));
                    }
                    country.cities.push(city);
                    proof {
                        assert(country@.cities =~= seq![new_city_v(*loc, city_cv)]);
                        assert(country@ =~= CountryV { name: loc.country@, code: cc, cities: seq![new_city_v(*loc, city_cv)] });
                    }
                    countries.push(country);
                    proof {
                        assert(countries_view(countries@) =~= add_location_v(pre, code@, *loc));
                    }
                },
            }
        },
    }
}

/// What the three relay-merging passes share: the located country and city,
/// the entry slot for the hostname, and the relay's resolved location.
struct CitySlot {
    country_at: usize,
    city_at: usize,
    country: RelayListCountry,
    city: RelayListCity,
    geo: GeoLocation,
    entry_at: Option<usize>,
}

impl CitySlot {
    spec fn wf(self, pre: Seq<CountryV>, location_code: Seq<char>, hostname: Seq<char>) -> bool {
        &&& spec_split_location(location_code) matches Some(parts) && {
            &&& country_index_v(pre, parts.0) == Some(self.country_at as int)
            &&& self.country_at < pre.len()
            &&& city_index_v(pre[self.country_at as int].cities, parts.1) == Some(
                self.city_at as int,
            )
            &&& self.city_at < pre[self.country_at as int].cities.len()
            &&& self.city@ == pre[self.country_at as int].cities[self.city_at as int]
            &&& self.country@ == CountryV {
                cities: pre[self.country_at as int].cities.remove(self.city_at as int),
                ..pre[self.country_at as int]
            }
            &&& self.geo@ == geo_of_v(
                pre[self.country_at as int],
                pre[self.country_at as int].cities[self.city_at as int],
            )
            &&& (match self.entry_at {
                Some(k) => entry_index_v(self.city@.relays, hostname) == Some(k as int) && k
                    < self.city@.relays.len(),
                None => entry_index_v(self.city@.relays, hostname) is None,
            })
        }
    }
}

/// Locates the country, city and entry slot a relay's location code and
/// hostname point at; the located country and city are taken out of the
/// hierarchy for the caller to put back updated. Nothing is found (and
/// nothing moves) when the code is malformed or points at no known city.
fn take_city_slot(countries: &mut Vec<RelayListCountry>, location_code: &String, hostname: &String) -> (r: Option<CitySlot>)
    ensures
        match r {
            Some(slot) => {
                &&& slot.wf(countries_view(old(countries)@), location_code@, hostname@)
                &&& final(countries)@ == old(countries)@.remove(slot.country_at as int)
            },
            None => {
                &&& *final(countries) == *old(countries)
                &&& (match spec_split_location(location_code@) {
                    Some(parts) => (match country_index_v(
                        countries_view(old(countries)@),
                        parts.0,
                    ) {
                        Some(i) => city_index_v(
                            countries_view(old(countries)@)[i].cities,
                            parts.1,
                        ) is None,
                        None => true,
                    }),
                    None => true,
                })
            },
        },
{
    let ghost pre = countries_view(countries@);
    match split_location_code(location_code.as_str()) {
        None => None,
        Some((country_code, city_code)) => {
            match locate_country(countries, &country_code) {
                None => None,
                Some(i) => {
                    match locate_city(&countries[i].cities, &city_code) {
                        None => {
                            proof {
                                assert(countries@[i as int]@ == pre[i as int]);
                            }
                            None
                        },
                        Some(j) => {
                            proof {
                                assert(countries@[i as int]@ == pre[i as int]);
                            }
                            let mut country = countries.remove(i);
                            let city = country.cities.remove(j);
                            let geo = geo_for(&country, &city);
                            proof {
                                assert(country@.cities =~= pre[i as int].cities.remove(j as int));
                                assert(country@ =~= CountryV {
                                    cities: pre[i as int].cities.remove(j as int),
                                    ..pre[i as int]
                                });
                                assert(city@ == pre[i as int].cities[j as int]);
                                assert(geo@ =~= geo_of_v(
                                    pre[i as int],
                                    pre[i as int].cities[j as int],
                                ));
                            }
                            let entry_at = locate_entry(&city.relays, hostname);
                            Some(CitySlot { country_at: i, city_at: j, country, city, geo, entry_at })
                        },
                    }
                },
            }
        },
    }
}

/// Puts an updated city and its country back where the slot took them from.
fn put_city_slot(countries: &mut Vec<RelayListCountry>, country_at: usize, city_at: usize, mut country: RelayListCountry, city: RelayListCity)
    requires
        country_at <= old(countries)@.len(),
        city_at <= country.cities@.len(),
    ensures
        countries_view(final(countries)@) == countries_view(old(countries)@).insert(
            country_at as int,
            CountryV { cities: country@.cities.insert(city_at as int, city@), ..country@ },
        ),
{
    let ghost pre = countries_view(countries@);
    let ghost country_pre = country@;
    country.cities.insert(city_at, city);
    proof {
        assert(country@.cities =~= country_pre.cities.insert(city_at as int, city@));
        assert(country@ =~= CountryV {
            cities: country_pre.cities.insert(city_at as int, city@),
            ..country_pre
        });
    }
    countries.insert(country_at, country);
    proof {
        assert(countries_view(countries@) =~= pre.insert(
            country_at as int,
            CountryV { cities: country_pre.cities.insert(city_at as int, city@), ..country_pre },
        ));
    }
}

/// A removed-then-reinserted element is an update in place.
proof fn lemma_remove_insert_is_update<T>(s: Seq<T>, i: int, x: T)
    requires
        0 <= i < s.len(),
    ensures
        s.remove(i).insert(i, x) =~= s.update(i, x),
{
}

/// Folds one OpenVPN relay into the hierarchy.
#[verifier::rlimit(30)]
fn add_openvpn_one(countries: &mut Vec<RelayListCountry>, r: Relay, data: &Vec<OpenVpnEndpointData>)
    ensures
        countries_view(final(countries)@) == add_openvpn_v(
            countries_view(old(countries)@),
            r,
            data@,
        ),
{
    let ghost pre = countries_view(countries@);
    match take_city_slot(countries, &r.location, &r.hostname) {
        None => {
            proof {
                assert(countries_view(countries@) =~= add_openvpn_v(pre, r, data@));
            }
        },
        Some(slot) => {
            let CitySlot { country_at, city_at, country, mut city, geo, entry_at } = slot;
            let ghost i = country_at as int;
            let ghost j = city_at as int;
            let ghost city_pre = city@;
            match entry_at {
                Some(k) => {
                    let mut entry = city.relays.remove(k);
                    let ghost entry_pre = entry@;
                    proof {
                        assert(entry_pre == city_pre.relays[k as int]);
                    }
                    entry.tunnels.openvpn = copy_openvpn_data(data);
                    proof {
                        assert(entry@ =~= EntryV { openvpn: data@, ..entry_pre });
                    }
                    city.relays.insert(k, entry);
                    proof {
                        assert(city@.relays =~= city_pre.relays.update(
                            k as int,
                            EntryV { openvpn: data@, ..city_pre.relays[k as int] },
                        ));
                    }
                },
                None => {
                    let mut entry = relay(r, geo);
                    entry.tunnels.openvpn = copy_openvpn_data(data);
                    proof {
                        assert(entry@ =~= EntryV { openvpn: data@, ..new_entry_v(r, geo@) });
                    }
                    city.relays.push(entry);
                    proof {
                        assert(city@.relays =~= city_pre.relays.push(
                            EntryV { openvpn: data@, ..new_entry_v(r, geo@) },
                        ));
                    }
                },
            }
            let ghost city_new = city@;
            proof {
                assert(i < pre.len());
                assert(j < pre[i].cities.len());
                assert(country@.cities.len() == pre[i].cities.len() - 1);
            }
            put_city_slot(countries, country_at, city_at, country, city);
            proof {
                lemma_remove_insert_is_update(pre, i, pre[i]);
                lemma_remove_insert_is_update(pre[i].cities, j, city_new);
                assert(pre[i].cities.remove(j).insert(j, city_new) =~= pre[i].cities.update(
                    j,
                    city_new,
                ));
                assert(countries_view(countries@) =~= pre.remove(i).insert(
                    i,
                    CountryV { cities: pre[i].cities.update(j, city_new), ..pre[i] },
                ));
                assert(pre.remove(i).insert(
                    i,
                    CountryV { cities: pre[i].cities.update(j, city_new), ..pre[i] },
                ) =~= put_city_v(pre, i, j, city_new));
                assert(city_new =~= CityV { relays: city_new.relays, ..pre[i].cities[j] });
                assert(countries_view(countries@) =~= add_openvpn_v(pre, r, data@));
            }
        },
    }
}

/// Folds one WireGuard relay into the hierarchy.
#[verifier::rlimit(30)]
fn add_wireguard_one(
    countries: &mut Vec<RelayListCountry>,
    wr: WireGuardRelay,
    port_ranges: &Vec<(u16, u16)>,
    ipv4_gateway: u32,
    ipv6_gateway: u128,
)
    ensures
        countries_view(final(countries)@) == add_wireguard_v(
            countries_view(old(countries)@),
            wr,
            port_ranges@,
            ipv4_gateway,
            ipv6_gateway,
        ),
{
    let ghost pre = countries_view(countries@);
    let WireGuardRelay { relay: wire, ipv6_addr_in, public_key } = wr;
    let endpoint = WireguardEndpointData {
        port_ranges: copy_port_ranges(port_ranges),
        ipv4_gateway,
        ipv6_gateway,
        public_key,
    };
    proof {
        assert(endpoint@ =~= wg_endpoint_v(
            port_ranges@,
            ipv4_gateway,
            ipv6_gateway,
            wr.public_key@,
        ));
    }
    match take_city_slot(countries, &wire.location, &wire.hostname) {
        None => {
            proof {
                assert(countries_view(countries@) =~= add_wireguard_v(
                    pre,
                    wr,
                    port_ranges@,
                    ipv4_gateway,
                    ipv6_gateway,
                ));
            }
        },
        Some(slot) => {
            let CitySlot { country_at, city_at, country, mut city, geo, entry_at } = slot;
            let ghost i = country_at as int;
            let ghost j = city_at as int;
            let ghost city_pre = city@;
            let ghost ep = endpoint@;
            match entry_at {
                Some(k) => {
                    let mut entry = city.relays.remove(k);
                    let ghost entry_pre = entry@;
                    proof {
                        assert(entry_pre == city_pre.relays[k as int]);
                    }
                    entry.tunnels.wireguard.push(endpoint);
                    proof {
                        assert(entry@ =~= EntryV {
                            wireguard: entry_pre.wireguard.push(ep),
                            ..entry_pre
                        });
                    }
                    city.relays.insert(k, entry);
                    proof {
                        assert(city@.relays =~= city_pre.relays.update(
                            k as int,
                            EntryV {
                                wireguard: city_pre.relays[k as int].wireguard.push(ep),
                                ..city_pre.relays[k as int]
                            },
                        ));
                    }
                },
                None => {
                    let mut entry = relay(wire, geo);
                    entry.ipv6_addr_in = Some(ipv6_addr_in);
                    let mut tunnels: Vec<WireguardEndpointData> = Vec::new();
                    tunnels.push(endpoint);
                    entry.tunnels.wireguard = tunnels;
                    proof {
                        assert(entry@.wireguard =~= seq![ep]);
                        assert(entry@ =~= EntryV {
                            ipv6_addr_in: Some(wr.ipv6_addr_in),
                            wireguard: seq![ep],
                            ..new_entry_v(wr.relay, geo@)
                        });
                    }
                    city.relays.push(entry);
                    proof {
                        assert(city@.relays =~= city_pre.relays.push(
                            EntryV {
                                ipv6_addr_in: Some(wr.ipv6_addr_in),
                                wireguard: seq![ep],
                                ..new_entry_v(wr.relay, geo@)
                            },
                        ));
                    }
                },
            }
            let ghost city_new = city@;
            proof {
                assert(i < pre.len());
                assert(j < pre[i].cities.len());
                assert(country@.cities.len() == pre[i].cities.len() - 1);
            }
            put_city_slot(countries, country_at, city_at, country, city);
            proof {
                lemma_remove_insert_is_update(pre, i, pre[i]);
                lemma_remove_insert_is_update(pre[i].cities, j, city_new);
                assert(pre[i].cities.remove(j).insert(j, city_new) =~= pre[i].cities.update(
                    j,
                    city_new,
                ));
                assert(countries_view(countries@) =~= pre.remove(i).insert(
                    i,
                    CountryV { cities: pre[i].cities.update(j, city_new), ..pre[i] },
                ));
                assert(pre.remove(i).insert(
                    i,
                    CountryV { cities: pre[i].cities.update(j, city_new), ..pre[i] },
                ) =~= put_city_v(pre, i, j, city_new));
                assert(countries_view(countries@) =~= add_wireguard_v(
                    pre,
                    wr,
                    port_ranges@,
                    ipv4_gateway,
                    ipv6_gateway,
                ));
            }
        },
    }
}

/// Folds one bridge relay into the hierarchy.
#[verifier::rlimit(30)]
fn add_bridge_one(
    countries: &mut Vec<RelayListCountry>,
    r: Relay,
    shadowsocks: &Vec<ShadowsocksEndpointData>,
)
    ensures
        countries_view(final(countries)@) == add_bridge_v(
            countries_view(old(countries)@),
            r,
            ss_views(shadowsocks@),
        ),
{
    let ghost pre = countries_view(countries@);
    match take_city_slot(countries, &r.location, &r.hostname) {
        None => {
            proof {
                assert(countries_view(countries@) =~= add_bridge_v(pre, r, ss_views(shadowsocks@)));
            }
        },
        Some(slot) => {
            let CitySlot { country_at, city_at, country, mut city, geo, entry_at } = slot;
            let ghost i = country_at as int;
            let ghost j = city_at as int;
            let ghost city_pre = city@;
            match entry_at {
                Some(k) => {
                    let mut entry = city.relays.remove(k);
                    let ghost entry_pre = entry@;
                    proof {
                        assert(entry_pre == city_pre.relays[k as int]);
                    }
                    entry.bridges.shadowsocks = clone_shadowsocks(shadowsocks);
                    proof {
                        assert(entry@ =~= EntryV { shadowsocks: ss_views(shadowsocks@), ..entry_pre });
                    }
                    city.relays.insert(k, entry);
                    proof {
                        assert(city@.relays =~= city_pre.relays.update(
                            k as int,
                            EntryV {
                                shadowsocks: ss_views(shadowsocks@),
                                ..city_pre.relays[k as int]
                            },
                        ));
                    }
                },
                None => {
                    let mut entry = relay(r, geo);
                    entry.bridges.shadowsocks = clone_shadowsocks(shadowsocks);
                    proof {
                        assert(entry@ =~= EntryV {
                            shadowsocks: ss_views(shadowsocks@),
                            ..new_entry_v(r, geo@)
                        });
                    }
                    city.relays.push(entry);
                    proof {
                        assert(city@.relays =~= city_pre.relays.push(
                            EntryV { shadowsocks: ss_views(shadowsocks@), ..new_entry_v(r, geo@) },
                        ));
                    }
                },
            }
            let ghost city_new = city@;
            proof {
                assert(i < pre.len());
                assert(j < pre[i].cities.len());
                assert(country@.cities.len() == pre[i].cities.len() - 1);
            }
            put_city_slot(countries, country_at, city_at, country, city);
            proof {
                lemma_remove_insert_is_update(pre, i, pre[i]);
                lemma_remove_insert_is_update(pre[i].cities, j, city_new);
                assert(pre[i].cities.remove(j).insert(j, city_new) =~= pre[i].cities.update(
                    j,
                    city_new,
                ));
                assert(countries_view(countries@) =~= pre.remove(i).insert(
                    i,
                    CountryV { cities: pre[i].cities.update(j, city_new), ..pre[i] },
                ));
                assert(pre.remove(i).insert(
                    i,
                    CountryV { cities: pre[i].cities.update(j, city_new), ..pre[i] },
                ) =~= put_city_v(pre, i, j, city_new));
                assert(countries_view(countries@) =~= add_bridge_v(pre, r, ss_views(shadowsocks@)));
            }
        },
    }
}

impl ServerRelayList {
    /// Merges the OpenVPN relays and their shared endpoint list in.
    fn add_openvpn_relays(countries: &mut Vec<RelayListCountry>, openvpn: OpenVpn)
        ensures
            countries_view(final(countries)@) == run_openvpn_v(
                countries_view(old(countries)@),
                openvpn.relays@,
                openvpn.ports@,
            ),
    {
        let OpenVpn { ports, relays } = openvpn;
        let ghost all = relays@;
        let ghost base = countries_view(countries@);
        let mut relays = relays;
        let total: usize = relays.len();
        let mut k: usize = 0;
        while relays.len() > 0
            invariant
                all.len() == total,
                k + relays@.len() == all.len(),
                relays@ == all.skip(k as int),
                countries_view(countries@) == run_openvpn_v(base, all.take(k as int), ports@),
            decreases relays@.len(),
        {
            let r = relays.remove(0);
            proof {
                assert(r == all[k as int]);
                assert(relays@ =~= all.skip(k as int + 1));
            }
            add_openvpn_one(countries, r, &ports);
            proof {
                assert(all.take(k as int + 1).drop_last() =~= all.take(k as int));
                assert(all.take(k as int + 1).last() == all[k as int]);
            }
            k = k + 1;
        }
        proof {
            assert(all.take(k as int) =~= all);
        }
    }

    /// Merges the WireGuard relays and the list-wide gateway data in.
    fn add_wireguard_relays(countries: &mut Vec<RelayListCountry>, wireguard: Wireguard)
        ensures
            countries_view(final(countries)@) == run_wireguard_v(
                countries_view(old(countries)@),
                wireguard.relays@,
                wireguard.port_ranges@,
                wireguard.ipv4_gateway,
                wireguard.ipv6_gateway,
            ),
    {
        let Wireguard { port_ranges, ipv4_gateway, ipv6_gateway, relays } = wireguard;
        let ghost all = relays@;
        let ghost base = countries_view(countries@);
        let mut relays = relays;
        let total: usize = relays.len();
        let mut k: usize = 0;
        while relays.len() > 0
            invariant
                all.len() == total,
                k + relays@.len() == all.len(),
                relays@ == all.skip(k as int),
                countries_view(countries@) == run_wireguard_v(
                    base,
                    all.take(k as int),
                    port_ranges@,
                    ipv4_gateway,
                    ipv6_gateway,
                ),
            decreases relays@.len(),
        {
            let wr = relays.remove(0);
            proof {
                assert(wr == all[k as int]);
                assert(relays@ =~= all.skip(k as int + 1));
            }
            add_wireguard_one(countries, wr, &port_ranges, ipv4_gateway, ipv6_gateway);
            proof {
                assert(all.take(k as int + 1).drop_last() =~= all.take(k as int));
                assert(all.take(k as int + 1).last() == all[k as int]);
            }
            k = k + 1;
        }
        proof {
            assert(all.take(k as int) =~= all);
        }
    }

    /// Merges the bridge relays and their shared endpoint list in.
    fn add_bridge_relays(countries: &mut Vec<RelayListCountry>, bridges: Bridges)
        ensures
            countries_view(final(countries)@) == run_bridges_v(
                countries_view(old(countries)@),
                bridges.relays@,
                ss_views(bridges.shadowsocks@),
            ),
    {
        let Bridges { shadowsocks, relays } = bridges;
        let ghost all = relays@;
        let ghost base = countries_view(countries@);
        let mut relays = relays;
        let total: usize = relays.len();
        let mut k: usize = 0;
        while relays.len() > 0
            invariant
                all.len() == total,
                k + relays@.len() == all.len(),
                relays@ == all.skip(k as int),
                countries_view(countries@) == run_bridges_v(
                    base,
                    all.take(k as int),
                    ss_views(shadowsocks@),
                ),
            decreases relays@.len(),
        {
            let r = relays.remove(0);
            proof {
                assert(r == all[k as int]);
                assert(relays@ =~= all.skip(k as int + 1));
            }
            add_bridge_one(countries, r, &shadowsocks);
            proof {
                assert(all.take(k as int + 1).drop_last() =~= all.take(k as int));
                assert(all.take(k as int + 1).last() == all[k as int]);
            }
            k = k + 1;
        }
        proof {
            assert(all.take(k as int) =~= all);
        }
    }

    /// Flattens the wire list into the normalized hierarchy: the location
    /// map founds countries and cities (in its key order; a malformed
    /// location code is skipped), then the OpenVPN, WireGuard and bridge
    /// relay arrays are merged into the cities they point at.
    pub fn into_relay_list(self) -> (r: RelayList)
        ensures
            countries_view(r.countries@) == spec_relay_list(self),
    {
        let ServerRelayList { locations, openvpn, wireguard, bridge } = self;
        let mut countries: Vec<RelayListCountry> = Vec::new();
        proof {
            assert(countries_view(countries@) =~= Seq::<CountryV>::empty());
        }
        let ghost all = locations@;
        let mut locations = locations;
        let total: usize = locations.len();
        let mut k: usize = 0;
        while locations.len() > 0
            invariant
                all.len() == total,
                k + locations@.len() == all.len(),
                locations@ == all.skip(k as int),
                countries_view(countries@) == run_locations_v(
                    Seq::empty(),
                    all.take(k as int),
                ),
            decreases locations@.len(),
        {
            let pair = locations.remove(0);
            proof {
                assert(pair == all[k as int]);
                assert(locations@ =~= all.skip(k as int + 1));
            }
            add_location_one(&mut countries, &pair.0, &pair.1);
            proof {
                assert(all.take(k as int + 1).drop_last() =~= all.take(k as int));
                assert(all.take(k as int + 1).last() == all[k as int]);
            }
            k = k + 1;
        }
        proof {
            assert(all.take(k as int) =~= all);
        }
        Self::add_openvpn_relays(&mut countries, openvpn);
        Self::add_wireguard_relays(&mut countries, wireguard);
        Self::add_bridge_relays(&mut countries, bridge);
        RelayList { countries }
    }
}

/// Fetches relay lists through the core's request primitives.
pub struct RelayListProxy {
    handle: MullvadRestHandle,
}

impl RelayListProxy {
    pub closed spec fn spec_handle(self) -> MullvadRestHandle {
        self.handle
    }

    /// Construct a new relay list rest client.
    pub fn new(handle: MullvadRestHandle) -> (r: RelayListProxy)
        ensures
            r.spec_handle() == handle,
    {
        RelayListProxy { handle }
    }

    /// The fixed path the relay directory lives under.
    pub fn relay_list_path(&self) -> (p: &'static str)
        ensures
            p@ == "/v1/relays"@,
    {
        "/v1/relays"
    }

    pub fn handle(&self) -> (h: &MullvadRestHandle)
        ensures
            h == &self.spec_handle(),
    {
        &self.handle
    }
}

} // verus!
