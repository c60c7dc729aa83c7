use fastly_inspect::inspect::{FastlyInspect, InspectEvent};
use fastly_inspect::latency::{latency_millis, PopLatency};
use fastly_inspect::model::{
    ClientIpInfo, DebugInfo, DnsResolverInfo, FastlyInspectPopAs, GeoIP, PerfMapConfig, Pop,
    ReqInfos, ReqInfosLegacy,
};

fn s(x: &str) -> String {
    x.to_string()
}

fn geo(city: &str) -> GeoIP {
    GeoIP {
        ci: s(city),
        co: s("EU"),
        ct: s("germany"),
        st: s("BE"),
        c_ip: s("91.64.44.52"),
        c_asn: s("31334"),
        c_asn_name: s("vodafone"),
        r_ip: s("8.8.8.8"),
        r_asn: s("15169"),
        r_asn_name: s("google"),
        r_ci: s("frankfurt"),
        r_co: s("EU"),
        r_ct: s("germany"),
        r_st: s("HE"),
    }
}

fn pop(id: &str) -> Pop {
    Pop { pop_id: s(id), hostname: format!("{}.example", id) }
}

fn req_infos(pop: &str) -> ReqInfos {
    ReqInfos {
        accept: s("*/*"),
        accept_encoding: s("gzip"),
        accept_language: s("en"),
        host: s("edge.example"),
        pop: s(pop),
        server: s("cache-fra1"),
        user_agent: s("Fastly-Inspect v0.1.2"),
        x_forwarded_for: s("91.64.44.52"),
        time: s("Tue, 16 Nov 2021"),
    }
}

fn legacy() -> ReqInfosLegacy {
    ReqInfosLegacy {
        cwnd: 10,
        nexthop: s("10.0.0.1"),
        rtt: 25,
        delta_retrans: 1,
        total_retrans: 3,
        client_ip: s("91.64.44.52"),
        client_as_name: s("vodafone"),
        client_as_number: s("31334"),
        city: s("berlin"),
        continent: s("EU"),
        country: s("germany"),
        region: s("BE"),
    }
}

fn debug_info() -> DebugInfo {
    DebugInfo {
        dns_resolver_info: DnsResolverInfo {
            ip: s("8.8.8.8"),
            as_name: s("google"),
            as_number: s("15169"),
            cc: s("US"),
        },
        client_ip_info: ClientIpInfo { ip: s("1.2.3.4"), as_name: s("x"), as_number: s("1") },
    }
}

fn pop_as(name: &str) -> FastlyInspectPopAs {
    FastlyInspectPopAs { popname: s(name), hostname: s("h") }
}

#[test]
fn fresh_result_is_blank() {
    let r = FastlyInspect::new();
    assert_eq!(r.geoip.ci, "");
    assert_eq!(r.request.resolver_ip, "");
    assert_eq!(r.request.cwnd, 0);
    assert_eq!(r.request.speed_test_millis, None);
    assert_eq!(r.pop_assignments.popas, "");
    assert_eq!(r.pop_latency.len(), 0);
}

#[test]
fn perf_map_config_sets_geoip_and_pops() {
    let mut r = FastlyInspect::new();
    let failed = r.apply(InspectEvent::PerfMapConfig(PerfMapConfig {
        geo_ip: geo("berlin"),
        pops: vec![pop("FRA"), pop("AMS"), pop("FRA")],
    }));
    assert!(!failed);
    assert_eq!(r.geoip.ci, "berlin");
    assert_eq!(r.geoip.r_st, "HE");
    assert_eq!(r.pop_latency.keys(), vec![s("FRA"), s("AMS")]);
    assert_eq!(r.pop_latency.get("FRA"), Some(0));
    assert_eq!(r.pop_latency.get("AMS"), Some(0));
    assert_eq!(r.pop_latency.get("LHR"), None);
}

#[test]
fn req_infos_fill_the_request() {
    let mut r = FastlyInspect::new();
    r.apply(InspectEvent::ReqInfos(req_infos("FRA")));
    assert_eq!(r.pop_assignments.popas, "FRA");
    assert_eq!(r.request.time, "Tue, 16 Nov 2021");
    assert_eq!(r.request.accept, "*/*");
    assert_eq!(r.request.acceptlanguage, "en");
    assert_eq!(r.request.acceptencoding, "gzip");
    assert_eq!(r.request.host, "edge.example");
    assert_eq!(r.request.useragent, "Fastly-Inspect v0.1.2");
    assert_eq!(r.request.xff, "91.64.44.52");
    assert_eq!(r.request.fastlyserverip, "");
    assert_eq!(r.request.datacenter, "");
}

#[test]
fn legacy_and_resolver_answers() {
    let mut r = FastlyInspect::new();
    r.apply(InspectEvent::ReqInfosLegacy(legacy()));
    r.apply(InspectEvent::DebugResolver(debug_info()));
    assert_eq!(r.request.cwnd, 10);
    assert_eq!(r.request.rtt, 25);
    assert_eq!(r.request.delta_retrans, 1);
    assert_eq!(r.request.total_retrans, 3);
    assert_eq!(r.request.nexthop, "10.0.0.1");
    assert_eq!(r.request.client_ip, "91.64.44.52");
    assert_eq!(r.request.client_as_name, "vodafone");
    assert_eq!(r.request.client_as_number, "31334");
    assert_eq!(r.request.resolver_ip, "8.8.8.8");
    assert_eq!(r.request.resolver_as_name, "google");
    assert_eq!(r.request.resolver_as_number, "15169");
    assert_eq!(r.request.resolver_country_code, "US");
}

#[test]
fn pop_assignment_answers() {
    let mut r = FastlyInspect::new();
    r.apply(InspectEvent::PopAssignmentAc(pop_as("AMS")));
    r.apply(InspectEvent::PopAssignmentAs(pop_as("FRA")));
    assert_eq!(r.pop_assignments.ac, "AMS");
    assert_eq!(r.pop_assignments.popas, "FRA");
    assert_eq!(r.request.datacenter, "FRA");
}

#[test]
fn last_pop_as_answer_wins() {
    let mut a = FastlyInspect::new();
    a.apply(InspectEvent::ReqInfos(req_infos("LHR")));
    a.apply(InspectEvent::PopAssignmentAs(pop_as("FRA")));
    assert_eq!(a.pop_assignments.popas, "FRA");
    let mut b = FastlyInspect::new();
    b.apply(InspectEvent::PopAssignmentAs(pop_as("FRA")));
    b.apply(InspectEvent::ReqInfos(req_infos("LHR")));
    assert_eq!(b.pop_assignments.popas, "LHR");
    assert_eq!(b.request.datacenter, "FRA");
}

#[test]
fn independent_answers_commute() {
    let mut a = FastlyInspect::new();
    a.apply(InspectEvent::ReqInfosLegacy(legacy()));
    a.apply(InspectEvent::PopAssignmentAs(pop_as("FRA")));
    a.apply(InspectEvent::PerfMapConfig(PerfMapConfig { geo_ip: geo("x"), pops: vec![pop("A")] }));
    let mut b = FastlyInspect::new();
    b.apply(InspectEvent::PerfMapConfig(PerfMapConfig { geo_ip: geo("x"), pops: vec![pop("A")] }));
    b.apply(InspectEvent::PopAssignmentAs(pop_as("FRA")));
    b.apply(InspectEvent::ReqInfosLegacy(legacy()));
    assert_eq!(a.request.cwnd, b.request.cwnd);
    assert_eq!(a.request.datacenter, b.request.datacenter);
    assert_eq!(a.request.client_ip, b.request.client_ip);
    assert_eq!(a.pop_assignments.popas, b.pop_assignments.popas);
    assert_eq!(a.geoip.ci, b.geoip.ci);
    assert_eq!(a.pop_latency.keys(), b.pop_latency.keys());
}

#[test]
fn failed_probe_changes_nothing() {
    let mut r = FastlyInspect::new();
    r.apply(InspectEvent::PopAssignmentAc(pop_as("AMS")));
    assert!(r.apply(InspectEvent::Failed));
    assert_eq!(r.pop_assignments.ac, "AMS");
    assert_eq!(r.pop_latency.len(), 0);
}

#[test]
fn speed_test_is_recorded() {
    let mut r = FastlyInspect::new();
    r.apply(InspectEvent::SpeedTest(250));
    assert_eq!(r.request.speed_test_millis, Some(250));
    r.apply(InspectEvent::SpeedTest(125));
    assert_eq!(r.request.speed_test_millis, Some(125));
}

#[test]
fn latency_table_reads_back_writes() {
    let mut t = PopLatency::new();
    t.insert(s("FRA"), 12);
    t.insert(s("AMS"), 30);
    assert_eq!(t.get("FRA"), Some(12));
    t.insert(s("FRA"), 7);
    assert_eq!(t.get("FRA"), Some(7));
    assert_eq!(t.get("AMS"), Some(30));
    assert_eq!(t.len(), 2);
    assert_eq!(t.keys(), vec![s("FRA"), s("AMS")]);
}

#[test]
fn setting_an_absent_pop_changes_nothing() {
    let mut t = PopLatency::new();
    t.insert(s("FRA"), 0);
    t.set_existing("LHR", 9);
    assert_eq!(t.len(), 1);
    assert_eq!(t.get("LHR"), None);
    t.set_existing("FRA", 9);
    assert_eq!(t.get("FRA"), Some(9));
}

#[test]
fn latency_keeps_low_sixteen_bits() {
    assert_eq!(latency_millis(0), 0);
    assert_eq!(latency_millis(42), 42);
    assert_eq!(latency_millis(65535), 65535);
    assert_eq!(latency_millis(65536), 0);
    assert_eq!(latency_millis(70000), 4464);
}

#[test]
fn whole_run_is_independent_of_arrival_order() {
    fn answers() -> Vec<InspectEvent> {
        vec![
            InspectEvent::PerfMapConfig(PerfMapConfig { geo_ip: geo("berlin"), pops: vec![pop("FRA"), pop("AMS")] }),
            InspectEvent::ReqInfos(req_infos("LHR")),
            InspectEvent::ReqInfosLegacy(legacy()),
            InspectEvent::DebugResolver(debug_info()),
            InspectEvent::PopAssignmentAc(pop_as("AMS")),
            InspectEvent::Failed,
        ]
    }
    let mut a = FastlyInspect::new();
    for ev in answers() {
        a.apply(ev);
    }
    let mut b = FastlyInspect::new();
    for ev in answers().into_iter().rev() {
        b.apply(ev);
    }
    for r in [&a, &b] {
        assert_eq!(r.request.time, "Tue, 16 Nov 2021");
        assert_eq!(r.pop_assignments.popas, "LHR");
        assert_eq!(r.pop_assignments.ac, "AMS");
        assert_eq!(r.request.cwnd, 10);
        assert_eq!(r.request.resolver_country_code, "US");
        assert_eq!(r.request.fastlyserverip, "");
        assert_eq!(r.geoip.ci, "berlin");
        assert_eq!(r.pop_latency.keys(), vec![s("FRA"), s("AMS")]);
        assert_eq!(r.pop_latency.get("FRA"), Some(0));
    }
}
