//! Records exchanged with the inspection services and the aggregated result.
use vstd::prelude::*;

verus! {

/// Where the DNS resolver and the client were seen from.
pub struct DebugInfo {
    pub dns_resolver_info: DnsResolverInfo,
    pub client_ip_info: ClientIpInfo,
}

/// The DNS resolver that looked up the debug host.
pub struct DnsResolverInfo {
    pub ip: String,
    pub as_name: String,
    pub as_number: String,
    pub cc: String,
}

/// The client address as seen by the debug host.
pub struct ClientIpInfo {
    pub ip: String,
    pub as_name: String,
    pub as_number: String,
}

/// The performance-map configuration: geolocation and the POPs to measure.
pub struct PerfMapConfig {
    pub geo_ip: GeoIP,
    pub pops: Vec<Pop>,
}

/// A point of presence.
pub struct Pop {
    pub pop_id: String,
    pub hostname: String,
}

/// Geolocation of the client and of its resolver.
pub struct GeoIP {
    pub ci: String,
    pub co: String,
    pub ct: String,
    pub st: String,
    pub c_ip: String,
    pub c_asn: String,
    pub c_asn_name: String,
    pub r_ip: String,
    pub r_asn: String,
    pub r_asn_name: String,
    pub r_ci: String,
    pub r_co: String,
    pub r_ct: String,
    pub r_st: String,
}

/// Request details echoed by the edge service.
pub struct ReqInfos {
    pub accept: String,
    pub accept_encoding: String,
    pub accept_language: String,
    pub host: String,
    pub pop: String,
    pub server: String,
    pub user_agent: String,
    pub x_forwarded_for: String,
    pub time: String,
}

/// Connection details reported by the helper service.
pub struct ReqInfosLegacy {
    pub cwnd: u32,
    pub nexthop: String,
    pub rtt: u32,
    pub delta_retrans: u32,
    pub total_retrans: u32,
    pub client_ip: String,
    pub client_as_name: String,
    pub client_as_number: String,
    pub city: String,
    pub continent: String,
    pub country: String,
    pub region: String,
}

/// Everything known about the request path of the client. The speed test is kept as its measured duration in milliseconds (`None` before it ran); the bandwidth in Mbps is 4000 divided by it.
pub struct FastlyInspectRequest {
    pub resolver_ip: String,
    pub resolver_as_name: String,
    pub resolver_as_number: String,
    pub resolver_country_code: String,
    pub client_ip: String,
    pub client_as_name: String,
    pub client_as_number: String,
    pub time: String,
    pub host: String,
    pub accept: String,
    pub useragent: String,
    pub acceptlanguage: String,
    pub acceptencoding: String,
    pub fastlyserverip: String,
    pub xff: String,
    pub datacenter: String,
    pub speed_test_millis: Option<u128>,
    pub cwnd: u32,
    pub nexthop: String,
    pub rtt: u32,
    pub delta_retrans: u32,
    pub total_retrans: u32,
}

/// A POP name as answered by an assignment probe.
pub struct FastlyInspectPopAs {
    pub popname: String,
    pub hostname: String,
}

/// The POPs that the client is assigned to.
pub struct FastlyInspectPopAssignments {
    pub ac: String,
    pub popas: String,
}

impl GeoIP {
    /// Every text field is empty, every counter is zero and nothing was measured.
    pub open spec fn is_blank(&self) -> bool {
        &&& self.ci@ == Seq::<char>::empty()
        &&& self.co@ == Seq::<char>::empty()
        &&& self.ct@ == Seq::<char>::empty()
        &&& self.st@ == Seq::<char>::empty()
        &&& self.c_ip@ == Seq::<char>::empty()
        &&& self.c_asn@ == Seq::<char>::empty()
        &&& self.c_asn_name@ == Seq::<char>::empty()
        &&& self.r_ip@ == Seq::<char>::empty()
        &&& self.r_asn@ == Seq::<char>::empty()
        &&& self.r_asn_name@ == Seq::<char>::empty()
        &&& self.r_ci@ == Seq::<char>::empty()
        &&& self.r_co@ == Seq::<char>::empty()
        &&& self.r_ct@ == Seq::<char>::empty()
        &&& self.r_st@ == Seq::<char>::empty()
    }

    /// A record with every field blank.
    pub fn blank() -> (r: Self)
        ensures
            r.is_blank(),
    {
        GeoIP {
            ci: String::new(),
            co: String::new(),
            ct: String::new(),
            st: String::new(),
            c_ip: String::new(),
            c_asn: String::new(),
            c_asn_name: String::new(),
            r_ip: String::new(),
            r_asn: String::new(),
            r_asn_name: String::new(),
            r_ci: String::new(),
            r_co: String::new(),
            r_ct: String::new(),
            r_st: String::new(),
        }
    }
}

impl FastlyInspectRequest {
    /// Every text field is empty, every counter is zero and nothing was measured.
    pub open spec fn is_blank(&self) -> bool {
        &&& self.resolver_ip@ == Seq::<char>::empty()
        &&& self.resolver_as_name@ == Seq::<char>::empty()
        &&& self.resolver_as_number@ == Seq::<char>::empty()
        &&& self.resolver_country_code@ == Seq::<char>::empty()
        &&& self.client_ip@ == Seq::<char>::empty()
        &&& self.client_as_name@ == Seq::<char>::empty()
        &&& self.client_as_number@ == Seq::<char>::empty()
        &&& self.time@ == Seq::<char>::empty()
        &&& self.host@ == Seq::<char>::empty()
        &&& self.accept@ == Seq::<char>::empty()
        &&& self.useragent@ == Seq::<char>::empty()
        &&& self.acceptlanguage@ == Seq::<char>::empty()
        &&& self.acceptencoding@ == Seq::<char>::empty()
        &&& self.fastlyserverip@ == Seq::<char>::empty()
        &&& self.xff@ == Seq::<char>::empty()
        &&& self.datacenter@ == Seq::<char>::empty()
        &&& self.speed_test_millis is None
        &&& self.cwnd == 0
        &&& self.nexthop@ == Seq::<char>::empty()
        &&& self.rtt == 0
        &&& self.delta_retrans == 0
        &&& self.total_retrans == 0
    }

    /// A record with every field blank.
    pub fn blank() -> (r: Self)
        ensures
            r.is_blank(),
    {
        FastlyInspectRequest {
            resolver_ip: String::new(),
            resolver_as_name: String::new(),
            resolver_as_number: String::new(),
            resolver_country_code: String::new(),
            client_ip: String::new(),
            client_as_name: String::new(),
            client_as_number: String::new(),
            time: String::new(),
            host: String::new(),
            accept: String::new(),
            useragent: String::new(),
            acceptlanguage: String::new(),
            acceptencoding: String::new(),
            fastlyserverip: String::new(),
            xff: String::new(),
            datacenter: String::new(),
            speed_test_millis: None,
            cwnd: 0,
            nexthop: String::new(),
            rtt: 0,
            delta_retrans: 0,
            total_retrans: 0,
        }
    }
}

impl FastlyInspectPopAssignments {
    /// Every text field is empty, every counter is zero and nothing was measured.
    pub open spec fn is_blank(&self) -> bool {
        &&& self.ac@ == Seq::<char>::empty()
        &&& self.popas@ == Seq::<char>::empty()
    }

    /// A record with every field blank.
    pub fn blank() -> (r: Self)
        ensures
            r.is_blank(),
    {
        FastlyInspectPopAssignments {
            ac: String::new(),
            popas: String::new(),
        }
    }
}

} // verus!
