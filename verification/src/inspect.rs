//! The aggregated result of an inspection run and how each answer of the
//! inspection services updates it.
use vstd::prelude::*;
use crate::latency::{self, LatencyEntries, PopLatency};
use crate::model::{
    FastlyInspectPopAs, FastlyInspectPopAssignments, FastlyInspectRequest, GeoIP, DebugInfo,
    PerfMapConfig, Pop, ReqInfos, ReqInfosLegacy,
};

verus! {

/// Result of an inspection run.
pub struct FastlyInspect {
    pub geoip: GeoIP,
    pub pop_latency: PopLatency,
    pub request: FastlyInspectRequest,
    pub pop_assignments: FastlyInspectPopAssignments,
}

/// Abstract state of an inspection run: the record with its latency table seen
/// through the table's entries.
pub struct InspectState {
    pub geoip: GeoIP,
    pub latency: LatencyEntries,
    pub request: FastlyInspectRequest,
    pub pop_assignments: FastlyInspectPopAssignments,
}

impl View for FastlyInspect {
    type V = InspectState;

    open spec fn view(&self) -> InspectState {
        InspectState {
            geoip: self.geoip,
            latency: self.pop_latency@,
            request: self.request,
            pop_assignments: self.pop_assignments,
        }
    }
}

/// An answer that the inspection run receives.
pub enum InspectEvent {
    /// The performance-map configuration arrived.
    PerfMapConfig(PerfMapConfig),
    /// The edge service echoed the request.
    ReqInfos(ReqInfos),
    /// The helper service reported the connection.
    ReqInfosLegacy(ReqInfosLegacy),
    /// The debug host reported resolver and client.
    DebugResolver(DebugInfo),
    /// The `ac` assignment probe answered.
    PopAssignmentAc(FastlyInspectPopAs),
    /// The `as` assignment probe answered.
    PopAssignmentAs(FastlyInspectPopAs),
    /// The speed test finished after this many milliseconds.
    SpeedTest(u128),
    /// A probe failed; its part of the result stays as it was.
    Failed,
}

/// The table after inserting every POP id of `pops`, in order, with latency 0.
pub open spec fn insert_pops(s: LatencyEntries, pops: Seq<Pop>) -> LatencyEntries
    decreases pops.len(),
{
    if pops.len() == 0 {
        s
    } else {
        latency::spec_insert(insert_pops(s, pops.drop_last()), pops.last().pop_id@, 0)
    }
}

/// How one event changes the state.
pub open spec fn spec_apply(s: InspectState, ev: InspectEvent) -> InspectState {
    match ev {
        InspectEvent::PerfMapConfig(cfg) => InspectState {
            geoip: cfg.geo_ip,
            latency: insert_pops(s.latency, cfg.pops@),
            ..s
        },
        InspectEvent::ReqInfos(r) => InspectState {
            request: FastlyInspectRequest {
                time: r.time,
                accept: r.accept,
                acceptlanguage: r.accept_language,
                acceptencoding: r.accept_encoding,
                host: r.host,
                useragent: r.user_agent,
                xff: r.x_forwarded_for,
                ..s.request
            },
            pop_assignments: FastlyInspectPopAssignments { popas: r.pop, ..s.pop_assignments },
            ..s
        },
        InspectEvent::ReqInfosLegacy(r) => InspectState {
            request: FastlyInspectRequest {
                cwnd: r.cwnd,
                delta_retrans: r.delta_retrans,
                nexthop: r.nexthop,
                total_retrans: r.total_retrans,
                rtt: r.rtt,
                client_ip: r.client_ip,
                client_as_name: r.client_as_name,
                client_as_number: r.client_as_number,
                ..s.request
            },
            ..s
        },
        InspectEvent::DebugResolver(d) => InspectState {
            request: FastlyInspectRequest {
                resolver_ip: d.dns_resolver_info.ip,
                resolver_as_name: d.dns_resolver_info.as_name,
                resolver_as_number: d.dns_resolver_info.as_number,
                resolver_country_code: d.dns_resolver_info.cc,
                ..s.request
            },
            ..s
        },
        InspectEvent::PopAssignmentAc(p) => InspectState {
            pop_assignments: FastlyInspectPopAssignments { ac: p.popname, ..s.pop_assignments },
            ..s
        },
        InspectEvent::PopAssignmentAs(p) => InspectState {
            request: FastlyInspectRequest { datacenter: p.popname, ..s.request },
            pop_assignments: FastlyInspectPopAssignments { popas: p.popname, ..s.pop_assignments },
            ..s
        },
        InspectEvent::SpeedTest(ms) => InspectState {
            request: FastlyInspectRequest { speed_test_millis: Some(ms), ..s.request },
            ..s
        },
        InspectEvent::Failed => s,
    }
}

/// Which probe an event answers.
pub open spec fn event_kind(ev: InspectEvent) -> int {
    match ev {
        InspectEvent::PerfMapConfig(_) => 0,
        InspectEvent::ReqInfos(_) => 1,
        InspectEvent::ReqInfosLegacy(_) => 2,
        InspectEvent::DebugResolver(_) => 3,
        InspectEvent::PopAssignmentAc(_) => 4,
        InspectEvent::PopAssignmentAs(_) => 5,
        InspectEvent::SpeedTest(_) => 6,
        InspectEvent::Failed => 7,
    }
}

/// Whether an event writes the `as` POP assignment.
pub open spec fn writes_pop_as(ev: InspectEvent) -> bool {
    ev is ReqInfos || ev is PopAssignmentAs
}

/// Two events touch disjoint parts of the state.
pub open spec fn independent(a: InspectEvent, b: InspectEvent) -> bool {
    ||| a is Failed
    ||| b is Failed
    ||| event_kind(a) != event_kind(b) && !(writes_pop_as(a) && writes_pop_as(b))
}

/// The answers of different probes may arrive in any order: applying two
/// independent answers in either order gives the same state.
pub proof fn lemma_answers_commute(s: InspectState, a: InspectEvent, b: InspectEvent)
    requires
        independent(a, b),
    ensures
        spec_apply(spec_apply(s, a), b) == spec_apply(spec_apply(s, b), a),
{
}

/// The edge echo and the `as` assignment probe both set the `as` POP
/// assignment: whichever answer arrives last decides it.
pub proof fn lemma_pop_as_last_answer_wins(s: InspectState, r: ReqInfos, p: FastlyInspectPopAs)
    ensures
        spec_apply(spec_apply(s, InspectEvent::ReqInfos(r)), InspectEvent::PopAssignmentAs(p)).pop_assignments.popas == p.popname,
        spec_apply(spec_apply(s, InspectEvent::PopAssignmentAs(p)), InspectEvent::ReqInfos(r)).pop_assignments.popas == r.pop,
{
}

/// The performance-map configuration adds every POP of the configuration to the
/// latency table with latency 0 and leaves the other entries unchanged.
pub proof fn lemma_perf_map_latencies(s: LatencyEntries, pops: Seq<Pop>)
    requires
        latency::keys_distinct(s),
    ensures
        latency::keys_distinct(insert_pops(s, pops)),
        forall|k: Seq<char>|
            #[trigger] latency::as_map(insert_pops(s, pops)).contains_key(k) <==> (
            latency::as_map(s).contains_key(k) || exists|i: int|
                0 <= i < pops.len() && pops[i].pop_id@ == k),
        forall|i: int|
            0 <= i < pops.len() ==> latency::as_map(insert_pops(s, pops))[#[trigger] pops[i].pop_id@]
                == 0,
        forall|k: Seq<char>|
            latency::as_map(s).contains_key(k) && !(exists|i: int|
                0 <= i < pops.len() && pops[i].pop_id@ == k) ==> #[trigger] latency::as_map(
                insert_pops(s, pops),
            )[k] == latency::as_map(s)[k],
    decreases pops.len(),
{
    if pops.len() > 0 {
        let prev = pops.drop_last();
        lemma_perf_map_latencies(s, prev);
        let t = insert_pops(s, prev);
        let last = pops.last().pop_id@;
        latency::lemma_insert_as_map(t, last, 0);
        latency::lemma_insert(t, last, 0);
        assert forall|k: Seq<char>|
            #[trigger] latency::as_map(insert_pops(s, pops)).contains_key(k) <==> (
            latency::as_map(s).contains_key(k) || exists|i: int|
                0 <= i < pops.len() && pops[i].pop_id@ == k) by {
            if exists|i: int| 0 <= i < pops.len() && pops[i].pop_id@ == k {
                let i = choose|i: int| 0 <= i < pops.len() && pops[i].pop_id@ == k;
                if i < prev.len() {
                    assert(prev[i] == pops[i]);
                }
            }
            if exists|i: int| 0 <= i < prev.len() && prev[i].pop_id@ == k {
                let i = choose|i: int| 0 <= i < prev.len() && prev[i].pop_id@ == k;
                assert(pops[i] == prev[i]);
            }
        }
        assert forall|i: int|
            0 <= i < pops.len() implies latency::as_map(insert_pops(s, pops))[#[trigger] pops[i].pop_id@]
                == 0 by {
            if i < prev.len() {
                assert(prev[i] == pops[i]);
                assert(latency::as_map(t)[prev[i].pop_id@] == 0);
            }
        }
        assert forall|k: Seq<char>|
            latency::as_map(s).contains_key(k) && !(exists|i: int|
                0 <= i < pops.len() && pops[i].pop_id@ == k) implies #[trigger] latency::as_map(
                insert_pops(s, pops),
            )[k] == latency::as_map(s)[k] by {
            assert(pops[pops.len() - 1].pop_id@ != k);
            assert(!(exists|i: int| 0 <= i < prev.len() && prev[i].pop_id@ == k)) by {
                if exists|i: int| 0 <= i < prev.len() && prev[i].pop_id@ == k {
                    let i = choose|i: int| 0 <= i < prev.len() && prev[i].pop_id@ == k;
                    assert(pops[i] == prev[i]);
                }
            }
        }
    } else {
    }
}

/// The state after the events of `evs`, applied in order from `s`.
pub open spec fn run(s: InspectState, evs: Seq<InspectEvent>) -> InspectState
    decreases evs.len(),
{
    if evs.len() == 0 {
        s
    } else {
        spec_apply(run(s, evs.drop_last()), evs.last())
    }
}

/// The last event of kind `k` in `evs`.
pub open spec fn last_of_kind(evs: Seq<InspectEvent>, k: int) -> Option<InspectEvent>
    decreases evs.len(),
{
    if evs.len() == 0 {
        None
    } else if event_kind(evs.last()) == k {
        Some(evs.last())
    } else {
        last_of_kind(evs.drop_last(), k)
    }
}

/// The last event of `evs` that writes the `as` POP assignment.
pub open spec fn last_pop_as_writer(evs: Seq<InspectEvent>) -> Option<InspectEvent>
    decreases evs.len(),
{
    if evs.len() == 0 {
        None
    } else if writes_pop_as(evs.last()) {
        Some(evs.last())
    } else {
        last_pop_as_writer(evs.drop_last())
    }
}

/// The POPs of every performance-map configuration in `evs`, in order.
pub open spec fn perf_map_pops(evs: Seq<InspectEvent>) -> Seq<Pop>
    decreases evs.len(),
{
    if evs.len() == 0 {
        Seq::empty()
    } else {
        match evs.last() {
            InspectEvent::PerfMapConfig(cfg) => perf_map_pops(evs.drop_last()) + cfg.pops@,
            _ => perf_map_pops(evs.drop_last()),
        }
    }
}

/// The request record after a run: each group of fields comes from the last
/// answer of the probe that writes it, the rest from `r`.
pub open spec fn request_summary(r: FastlyInspectRequest, evs: Seq<InspectEvent>) -> FastlyInspectRequest {
    let r1 = match last_of_kind(evs, 1) {
        Some(InspectEvent::ReqInfos(a)) => FastlyInspectRequest {
            time: a.time,
            accept: a.accept,
            acceptlanguage: a.accept_language,
            acceptencoding: a.accept_encoding,
            host: a.host,
            useragent: a.user_agent,
            xff: a.x_forwarded_for,
            ..r
        },
        _ => r,
    };
    let r2 = match last_of_kind(evs, 2) {
        Some(InspectEvent::ReqInfosLegacy(a)) => FastlyInspectRequest {
            cwnd: a.cwnd,
            delta_retrans: a.delta_retrans,
            nexthop: a.nexthop,
            total_retrans: a.total_retrans,
            rtt: a.rtt,
            client_ip: a.client_ip,
            client_as_name: a.client_as_name,
            client_as_number: a.client_as_number,
            ..r1
        },
        _ => r1,
    };
    let r3 = match last_of_kind(evs, 3) {
        Some(InspectEvent::DebugResolver(d)) => FastlyInspectRequest {
            resolver_ip: d.dns_resolver_info.ip,
            resolver_as_name: d.dns_resolver_info.as_name,
            resolver_as_number: d.dns_resolver_info.as_number,
            resolver_country_code: d.dns_resolver_info.cc,
            ..r2
        },
        _ => r2,
    };
    let r4 = match last_of_kind(evs, 5) {
        Some(InspectEvent::PopAssignmentAs(p)) => FastlyInspectRequest { datacenter: p.popname, ..r3 },
        _ => r3,
    };
    match last_of_kind(evs, 6) {
        Some(InspectEvent::SpeedTest(ms)) => FastlyInspectRequest { speed_test_millis: Some(ms), ..r4 },
        _ => r4,
    }
}

/// The state after a run, described without the order of arrival: the last
/// answer of each probe decides its fields, the later of the echo and the `as`
/// probe decides the `as` assignment, and every configured POP enters the
/// latency table in order.
pub open spec fn run_summary(s: InspectState, evs: Seq<InspectEvent>) -> InspectState {
    InspectState {
        geoip: match last_of_kind(evs, 0) {
            Some(InspectEvent::PerfMapConfig(cfg)) => cfg.geo_ip,
            _ => s.geoip,
        },
        latency: insert_pops(s.latency, perf_map_pops(evs)),
        request: request_summary(s.request, evs),
        pop_assignments: FastlyInspectPopAssignments {
            ac: match last_of_kind(evs, 4) {
                Some(InspectEvent::PopAssignmentAc(p)) => p.popname,
                _ => s.pop_assignments.ac,
            },
            popas: match last_pop_as_writer(evs) {
                Some(InspectEvent::ReqInfos(r)) => r.pop,
                Some(InspectEvent::PopAssignmentAs(p)) => p.popname,
                _ => s.pop_assignments.popas,
            },
        },
    }
}

/// Inserting two lists of POPs one after the other is inserting their concatenation.
pub proof fn lemma_insert_pops_append(s: LatencyEntries, a: Seq<Pop>, b: Seq<Pop>)
    ensures
        insert_pops(s, a + b) == insert_pops(insert_pops(s, a), b),
    decreases b.len(),
{
    if b.len() == 0 {
        assert(a + b =~= a);
    } else {
        assert((a + b).drop_last() =~= a + b.drop_last());
        lemma_insert_pops_append(s, a, b.drop_last());
    }
}

proof fn lemma_summary_step(s: InspectState, pre: Seq<InspectEvent>, e: InspectEvent)
    ensures
        run_summary(s, pre.push(e)) == spec_apply(run_summary(s, pre), e),
{
    let evs = pre.push(e);
    assert(evs.drop_last() =~= pre);
    assert(evs.last() == e);
    let a = run_summary(s, evs);
    let b = spec_apply(run_summary(s, pre), e);
    match e {
        InspectEvent::PerfMapConfig(cfg) => {
            lemma_insert_pops_append(s.latency, perf_map_pops(pre), cfg.pops@);
            assert(a.latency == b.latency);
            assert(a.request == b.request);
        },
        InspectEvent::ReqInfos(r) => {
            assert(a.request == b.request);
            assert(a.pop_assignments == b.pop_assignments);
        },
        InspectEvent::ReqInfosLegacy(r) => {
            assert(a.request == b.request);
        },
        InspectEvent::DebugResolver(d) => {
            assert(a.request == b.request);
        },
        InspectEvent::PopAssignmentAc(p) => {
            assert(a.request == b.request);
            assert(a.pop_assignments == b.pop_assignments);
        },
        InspectEvent::PopAssignmentAs(p) => {
            assert(a.request == b.request);
            assert(a.pop_assignments == b.pop_assignments);
        },
        InspectEvent::SpeedTest(ms) => {
            assert(a.request == b.request);
        },
        InspectEvent::Failed => {
            assert(a.request == b.request);
        },
    }
}

/// Any run ends in its summary: what a run leaves depends on which answers
/// arrived, on the last answer of each probe and on the order of the
/// configurations only.
pub proof fn lemma_run_summary(s: InspectState, evs: Seq<InspectEvent>)
    ensures
        run(s, evs) == run_summary(s, evs),
    decreases evs.len(),
{
    if evs.len() == 0 {
        assert(run_summary(s, evs).request == s.request);
        assert(run_summary(s, evs).pop_assignments == s.pop_assignments);
    } else {
        let pre = evs.drop_last();
        lemma_run_summary(s, pre);
        lemma_summary_step(s, pre, evs.last());
        assert(pre.push(evs.last()) =~= evs);
    }
}

/// No probe other than a failure answers twice in `evs`.
pub open spec fn each_probe_once(evs: Seq<InspectEvent>) -> bool {
    forall|i: int, j: int|
        0 <= i < j < evs.len() && event_kind(evs[i]) == event_kind(evs[j]) ==> evs[i] is Failed
}

/// Whether `evs` holds an event of kind `k`.
pub open spec fn has_kind(evs: Seq<InspectEvent>, k: int) -> bool {
    exists|i: int| 0 <= i < evs.len() && event_kind(evs[i]) == k
}

proof fn lemma_last_of_kind_unique(evs: Seq<InspectEvent>, k: int)
    requires
        each_probe_once(evs),
        k != 7,
    ensures
        match last_of_kind(evs, k) {
            Some(e) => evs.contains(e) && event_kind(e) == k,
            None => !has_kind(evs, k),
        },
        forall|i: int|
            0 <= i < evs.len() && event_kind(evs[i]) == k ==> last_of_kind(evs, k) == Some(evs[i]),
    decreases evs.len(),
{
    if evs.len() > 0 {
        let pre = evs.drop_last();
        assert(each_probe_once(pre)) by {
            assert forall|i: int, j: int|
                0 <= i < j < pre.len() && event_kind(pre[i]) == event_kind(pre[j]) implies pre[i] is Failed by {
                assert(pre[i] == evs[i] && pre[j] == evs[j]);
            }
        }
        lemma_last_of_kind_unique(pre, k);
        if event_kind(evs.last()) == k {
            assert(evs.contains(evs.last())) by {
                assert(evs[evs.len() - 1] == evs.last());
            }
            assert forall|i: int| 0 <= i < evs.len() && event_kind(evs[i]) == k implies last_of_kind(
                evs,
                k,
            ) == Some(evs[i]) by {
                if i < evs.len() - 1 {
                    assert(evs[i] is Failed);
                }
            }
        } else {
            if let Some(e) = last_of_kind(pre, k) {
                let j = choose|j: int| 0 <= j < pre.len() && pre[j] == e;
                assert(evs[j] == e);
            } else {
                assert(!has_kind(evs, k)) by {
                    if has_kind(evs, k) {
                        let i = choose|i: int| 0 <= i < evs.len() && event_kind(evs[i]) == k;
                        assert(pre[i] == evs[i]);
                    }
                }
            }
            assert forall|i: int| 0 <= i < evs.len() && event_kind(evs[i]) == k implies last_of_kind(
                evs,
                k,
            ) == Some(evs[i]) by {
                assert(pre[i] == evs[i]);
            }
        }
    }
}

proof fn lemma_last_pop_as_writer_single(evs: Seq<InspectEvent>)
    requires
        !(has_kind(evs, 1) && has_kind(evs, 5)),
    ensures
        last_pop_as_writer(evs) == (if has_kind(evs, 1) {
            last_of_kind(evs, 1)
        } else {
            last_of_kind(evs, 5)
        }),
    decreases evs.len(),
{
    if evs.len() > 0 {
        let pre = evs.drop_last();
        assert forall|k: int| has_kind(pre, k) implies has_kind(evs, k) by {
            let i = choose|i: int| 0 <= i < pre.len() && event_kind(pre[i]) == k;
            assert(evs[i] == pre[i]);
        }
        lemma_last_pop_as_writer_single(pre);
        let n = evs.len() - 1;
        assert(evs[n] == evs.last());
        if !writes_pop_as(evs.last()) {
            assert forall|k: int| k == 1 || k == 5 implies (has_kind(evs, k) == has_kind(pre, k)) by {
                if has_kind(evs, k) {
                    let i = choose|i: int| 0 <= i < evs.len() && event_kind(evs[i]) == k;
                    assert(pre[i] == evs[i]);
                }
            }
        }
    }
}

proof fn lemma_perf_map_pops_single(evs: Seq<InspectEvent>)
    requires
        each_probe_once(evs),
    ensures
        perf_map_pops(evs) == match last_of_kind(evs, 0) {
            Some(InspectEvent::PerfMapConfig(cfg)) => cfg.pops@,
            _ => Seq::<Pop>::empty(),
        },
    decreases evs.len(),
{
    if evs.len() > 0 {
        let pre = evs.drop_last();
        assert(each_probe_once(pre)) by {
            assert forall|i: int, j: int|
                0 <= i < j < pre.len() && event_kind(pre[i]) == event_kind(pre[j]) implies pre[i] is Failed by {
                assert(pre[i] == evs[i] && pre[j] == evs[j]);
            }
        }
        lemma_perf_map_pops_single(pre);
        lemma_last_of_kind_unique(pre, 0);
        if let InspectEvent::PerfMapConfig(cfg) = evs.last() {
            assert(last_of_kind(pre, 0) is None) by {
                if let Some(e) = last_of_kind(pre, 0) {
                    let j = choose|j: int| 0 <= j < pre.len() && pre[j] == e;
                    assert(evs[j] == e);
                    assert(evs[evs.len() - 1] == evs.last());
                }
            }
            assert(Seq::<Pop>::empty() + cfg.pops@ =~= cfg.pops@);
        }
    }
}

/// Whatever the order in which the probes answer, a run ends in the same state,
/// when each probe answers at most once: two runs over the same answers in
/// different orders agree, provided the echo and the `as` probe, the two
/// writers of the `as` assignment, did not both answer, or the same one of
/// them answered last in both runs.
pub proof fn lemma_run_order_independent(
    s: InspectState,
    evs1: Seq<InspectEvent>,
    evs2: Seq<InspectEvent>,
)
    requires
        evs1.to_multiset() == evs2.to_multiset(),
        each_probe_once(evs1),
        each_probe_once(evs2),
        !(has_kind(evs1, 1) && has_kind(evs1, 5)) || last_pop_as_writer(evs1) == last_pop_as_writer(
            evs2,
        ),
    ensures
        run(s, evs1) == run(s, evs2),
{
    evs1.to_multiset_ensures();
    evs2.to_multiset_ensures();
    assert forall|e: InspectEvent| evs1.contains(e) <==> evs2.contains(e) by {
        assert(evs1.to_multiset().count(e) == evs2.to_multiset().count(e));
        assert(evs1.contains(e) <==> evs1.to_multiset().count(e) > 0);
        assert(evs2.contains(e) <==> evs2.to_multiset().count(e) > 0);
    }
    assert forall|k: int| has_kind(evs1, k) <==> has_kind(evs2, k) by {
        if has_kind(evs1, k) {
            let i = choose|i: int| 0 <= i < evs1.len() && event_kind(evs1[i]) == k;
            assert(evs1.contains(evs1[i]));
            let j = choose|j: int| 0 <= j < evs2.len() && evs2[j] == evs1[i];
            assert(event_kind(evs2[j]) == k);
        }
        if has_kind(evs2, k) {
            let i = choose|i: int| 0 <= i < evs2.len() && event_kind(evs2[i]) == k;
            assert(evs2.contains(evs2[i]));
            let j = choose|j: int| 0 <= j < evs1.len() && evs1[j] == evs2[i];
            assert(event_kind(evs1[j]) == k);
        }
    }
    assert forall|k: int| 0 <= k < 7 implies last_of_kind(evs1, k) == last_of_kind(evs2, k) by {
        lemma_last_of_kind_unique(evs1, k);
        lemma_last_of_kind_unique(evs2, k);
        if let Some(e) = last_of_kind(evs1, k) {
            let j = choose|j: int| 0 <= j < evs2.len() && evs2[j] == e;
            assert(event_kind(evs2[j]) == k);
        } else if let Some(e) = last_of_kind(evs2, k) {
            let j = choose|j: int| 0 <= j < evs1.len() && evs1[j] == e;
            assert(event_kind(evs1[j]) == k);
        }
    }
    if !(has_kind(evs1, 1) && has_kind(evs1, 5)) {
        lemma_last_pop_as_writer_single(evs1);
        lemma_last_pop_as_writer_single(evs2);
    }
    lemma_perf_map_pops_single(evs1);
    lemma_perf_map_pops_single(evs2);
    lemma_run_summary(s, evs1);
    lemma_run_summary(s, evs2);
    assert(last_of_kind(evs1, 0) == last_of_kind(evs2, 0));
    assert(last_of_kind(evs1, 1) == last_of_kind(evs2, 1));
    assert(last_of_kind(evs1, 2) == last_of_kind(evs2, 2));
    assert(last_of_kind(evs1, 3) == last_of_kind(evs2, 3));
    assert(last_of_kind(evs1, 4) == last_of_kind(evs2, 4));
    assert(last_of_kind(evs1, 5) == last_of_kind(evs2, 5));
    assert(last_of_kind(evs1, 6) == last_of_kind(evs2, 6));
}

/// In a run where each probe answers at most once, every answer's fields end up
/// in the result whatever the order: the echo's request fields (and the `as`
/// assignment unless the `as` probe also answered), the connection report, the
/// resolver, the geolocation and POPs of the configuration, both assignment
/// probes, and the speed test; the server address is never written. From an
/// empty table, the POPs of the configuration are exactly the keys, each at 0.
pub proof fn lemma_run_takes_each_answer(s: InspectState, evs: Seq<InspectEvent>)
    requires
        each_probe_once(evs),
    ensures
        run(s, evs).request.fastlyserverip == s.request.fastlyserverip,
        forall|i: int|
            0 <= i < evs.len() ==> (#[trigger] evs[i] matches InspectEvent::ReqInfos(r) ==> {
                &&& run(s, evs).request.time == r.time
                &&& run(s, evs).request.accept == r.accept
                &&& run(s, evs).request.acceptlanguage == r.accept_language
                &&& run(s, evs).request.acceptencoding == r.accept_encoding
                &&& run(s, evs).request.host == r.host
                &&& run(s, evs).request.useragent == r.user_agent
                &&& run(s, evs).request.xff == r.x_forwarded_for
                &&& !has_kind(evs, 5) ==> run(s, evs).pop_assignments.popas == r.pop
            }),
        forall|i: int|
            0 <= i < evs.len() ==> (#[trigger] evs[i] matches InspectEvent::ReqInfosLegacy(r) ==> {
                &&& run(s, evs).request.cwnd == r.cwnd
                &&& run(s, evs).request.rtt == r.rtt
                &&& run(s, evs).request.delta_retrans == r.delta_retrans
                &&& run(s, evs).request.total_retrans == r.total_retrans
                &&& run(s, evs).request.nexthop == r.nexthop
                &&& run(s, evs).request.client_ip == r.client_ip
                &&& run(s, evs).request.client_as_name == r.client_as_name
                &&& run(s, evs).request.client_as_number == r.client_as_number
            }),
        forall|i: int|
            0 <= i < evs.len() ==> (#[trigger] evs[i] matches InspectEvent::DebugResolver(d) ==> {
                &&& run(s, evs).request.resolver_ip == d.dns_resolver_info.ip
                &&& run(s, evs).request.resolver_as_name == d.dns_resolver_info.as_name
                &&& run(s, evs).request.resolver_as_number == d.dns_resolver_info.as_number
                &&& run(s, evs).request.resolver_country_code == d.dns_resolver_info.cc
            }),
        forall|i: int|
            0 <= i < evs.len() ==> (#[trigger] evs[i] matches InspectEvent::PerfMapConfig(cfg) ==> {
                &&& run(s, evs).geoip == cfg.geo_ip
                &&& run(s, evs).latency == insert_pops(s.latency, cfg.pops@)
                &&& s.latency.len() == 0 ==> (forall|k: Seq<char>|
                    #[trigger] latency::as_map(run(s, evs).latency).contains_key(k) <==> exists|j: int|
                        0 <= j < cfg.pops@.len() && cfg.pops@[j].pop_id@ == k)
                &&& s.latency.len() == 0 ==> (forall|j: int|
                    0 <= j < cfg.pops@.len() ==> latency::as_map(run(s, evs).latency)[#[trigger] cfg.pops@[j].pop_id@] == 0)
            }),
        forall|i: int|
            0 <= i < evs.len() ==> (#[trigger] evs[i] matches InspectEvent::PopAssignmentAc(p) ==>
                run(s, evs).pop_assignments.ac == p.popname),
        forall|i: int|
            0 <= i < evs.len() ==> (#[trigger] evs[i] matches InspectEvent::PopAssignmentAs(p) ==> {
                &&& run(s, evs).request.datacenter == p.popname
                &&& !has_kind(evs, 1) ==> run(s, evs).pop_assignments.popas == p.popname
            }),
        forall|i: int|
            0 <= i < evs.len() ==> (#[trigger] evs[i] matches InspectEvent::SpeedTest(ms) ==>
                run(s, evs).request.speed_test_millis == Some(ms)),
{
    lemma_run_summary(s, evs);
    lemma_perf_map_pops_single(evs);
    lemma_last_of_kind_unique(evs, 0);
    lemma_last_of_kind_unique(evs, 1);
    lemma_last_of_kind_unique(evs, 2);
    lemma_last_of_kind_unique(evs, 3);
    lemma_last_of_kind_unique(evs, 4);
    lemma_last_of_kind_unique(evs, 5);
    lemma_last_of_kind_unique(evs, 6);
    assert forall|i: int| 0 <= i < evs.len() && #[trigger] event_kind(evs[i]) == 1 implies has_kind(evs, 1) by {}
    assert forall|i: int| 0 <= i < evs.len() && #[trigger] event_kind(evs[i]) == 5 implies has_kind(evs, 5) by {}
    if !(has_kind(evs, 1) && has_kind(evs, 5)) {
        lemma_last_pop_as_writer_single(evs);
    }
    assert forall|i: int| 0 <= i < evs.len() implies (#[trigger] evs[i] matches InspectEvent::PerfMapConfig(cfg) ==> {
        &&& s.latency.len() == 0 ==> (forall|k: Seq<char>|
            #[trigger] latency::as_map(run(s, evs).latency).contains_key(k) <==> exists|j: int|
                0 <= j < cfg.pops@.len() && cfg.pops@[j].pop_id@ == k)
        &&& s.latency.len() == 0 ==> (forall|j: int|
            0 <= j < cfg.pops@.len() ==> latency::as_map(run(s, evs).latency)[#[trigger] cfg.pops@[j].pop_id@] == 0)
    }) by {
        if let InspectEvent::PerfMapConfig(cfg) = evs[i] {
            if s.latency.len() == 0 {
                lemma_perf_map_latencies(s.latency, cfg.pops@);
                assert(latency::as_map(s.latency) =~= Map::empty());
            }
        }
    }
}

impl FastlyInspect {
    /// The state before any answer arrived: every field blank, no POP known.
    pub open spec fn is_initial(&self) -> bool {
        &&& self.geoip.is_blank()
        &&& self.pop_latency@.len() == 0
        &&& self.request.is_blank()
        &&& self.pop_assignments.is_blank()
    }

    /// A fresh inspection result.
    pub fn new() -> (r: Self)
        ensures
            r.is_initial(),
    {
        FastlyInspect {
            geoip: GeoIP::blank(),
            pop_latency: PopLatency::new(),
            request: FastlyInspectRequest::blank(),
            pop_assignments: FastlyInspectPopAssignments::blank(),
        }
    }

    /// Applies one answer; returns whether it was a failure to report.
    pub fn apply(&mut self, ev: InspectEvent) -> (failed: bool)
        ensures
            final(self)@ == spec_apply(old(self)@, ev),
            failed == (ev is Failed),
            latency::keys_distinct(final(self)@.latency),
    {
        // Reading the length brings the table's key invariant into the proof.
        let _ = self.pop_latency.len();
        match ev {
            InspectEvent::PerfMapConfig(cfg) => {
                self.geoip = cfg.geo_ip;
                let pops = cfg.pops;
                let ghost start = self.pop_latency@;
                let ghost before = *self;
                let n = pops.len();
                for i in 0..n
                    invariant
                        n == pops@.len(),
                        self.geoip == before.geoip,
                        self.request == before.request,
                        self.pop_assignments == before.pop_assignments,
                        self.pop_latency@ == insert_pops(start, pops@.take(i as int)),
                        latency::keys_distinct(self.pop_latency@),
                {
                    let id = pops[i].pop_id.clone();
                    self.pop_latency.insert(id, 0);
                    assert(pops@.take(i + 1).drop_last() =~= pops@.take(i as int));
                }
                assert(pops@.take(n as int) =~= pops@);
                false
            },
            InspectEvent::ReqInfos(r) => {
                self.pop_assignments.popas = r.pop;
                self.request.time = r.time;
                self.request.accept = r.accept;
                self.request.acceptlanguage = r.accept_language;
                self.request.acceptencoding = r.accept_encoding;
                self.request.host = r.host;
                self.request.useragent = r.user_agent;
                self.request.xff = r.x_forwarded_for;
                false
            },
            InspectEvent::ReqInfosLegacy(r) => {
                self.request.cwnd = r.cwnd;
                self.request.delta_retrans = r.delta_retrans;
                self.request.nexthop = r.nexthop;
                self.request.total_retrans = r.total_retrans;
                self.request.rtt = r.rtt;
                self.request.client_ip = r.client_ip;
                self.request.client_as_name = r.client_as_name;
                self.request.client_as_number = r.client_as_number;
                false
            },
            InspectEvent::DebugResolver(d) => {
                self.request.resolver_ip = d.dns_resolver_info.ip;
                self.request.resolver_as_name = d.dns_resolver_info.as_name;
                self.request.resolver_as_number = d.dns_resolver_info.as_number;
                self.request.resolver_country_code = d.dns_resolver_info.cc;
                false
            },
            InspectEvent::PopAssignmentAc(p) => {
                self.pop_assignments.ac = p.popname;
                false
            },
            InspectEvent::PopAssignmentAs(p) => {
                self.pop_assignments.popas = p.popname.clone();
                self.request.datacenter = p.popname;
                false
            },
            InspectEvent::SpeedTest(ms) => {
                self.request.speed_test_millis = Some(ms);
                false
            },
            InspectEvent::Failed => true,
        }
    }
}

} // verus!
