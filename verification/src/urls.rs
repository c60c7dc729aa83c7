//! Addresses of the inspection services and their parsing into URLs.
use vstd::prelude::*;
use surf::http::url::ParseError;
use surf::http::Url;
use crate::error::InspectError;
use crate::text;

verus! {

broadcast use vstd::string::group_string_axioms;

/// `url::Url`, the parsed form of an absolute URL.
#[verifier::external_type_specification]
#[verifier::external_body]
pub struct ExUrl(Url);

/// What `url::Url::parse` returns for the given characters: a function of the
/// input alone.
pub uninterp spec fn url_parse(input: Seq<char>) -> Result<Url, ParseError>;

/// Calls `url::Url::parse`. Claimed: the result is `url_parse` of the input.
#[verifier::external_body]
fn parse_url(input: &str) -> (r: Result<Url, ParseError>)
    ensures
        r == url_parse(input@),
{
    Url::parse(input)
}

/// The library's answer for an address: its parse, with a parser error kept as
/// `InvalidUrl`.
pub open spec fn spec_checked_url(address: Seq<char>) -> Result<Url, InspectError> {
    match url_parse(address) {
        Ok(u) => Ok(u),
        Err(e) => Err(InspectError::InvalidUrl(e)),
    }
}

/// Parses an address, reporting a rejected one as `InvalidUrl` with the
/// parser's reason.
pub fn checked_url(address: &str) -> (r: Result<Url, InspectError>)
    ensures
        r == spec_checked_url(address@),
{
    match parse_url(address) {
        Ok(u) => Ok(u),
        Err(e) => Err(InspectError::InvalidUrl(e)),
    }
}

/// `s` without its trailing slashes.
pub open spec fn spec_trim_trailing_slashes(s: Seq<char>) -> Seq<char>
    decreases s.len(),
{
    if s.len() > 0 && s.last() == '/' {
        spec_trim_trailing_slashes(s.drop_last())
    } else {
        s
    }
}

proof fn lemma_trim_prefix(s: Seq<char>)
    ensures
        spec_trim_trailing_slashes(s).len() <= s.len(),
        spec_trim_trailing_slashes(s) == s.take(spec_trim_trailing_slashes(s).len() as int),
        forall|i: int|
            spec_trim_trailing_slashes(s).len() <= i < s.len() ==> s[i] == '/',
        spec_trim_trailing_slashes(s).len() == 0 || spec_trim_trailing_slashes(s).last() != '/',
    decreases s.len(),
{
    if s.len() > 0 && s.last() == '/' {
        lemma_trim_prefix(s.drop_last());
        let t = spec_trim_trailing_slashes(s.drop_last());
        assert(s.drop_last().take(t.len() as int) =~= s.take(t.len() as int));
        assert forall|i: int| t.len() <= i < s.len() implies s[i] == '/' by {
            if i < s.len() - 1 {
                assert(s[i] == s.drop_last()[i]);
            }
        }
    } else {
        assert(s.take(s.len() as int) =~= s);
    }
}

/// Trimming keeps a prefix of the input that does not end with `/`, followed in
/// the input only by slashes; trimming twice is trimming once.
pub proof fn lemma_trim_trailing_slashes(s: Seq<char>)
    ensures
        s.take(spec_trim_trailing_slashes(s).len() as int) == spec_trim_trailing_slashes(s),
        forall|i: int|
            spec_trim_trailing_slashes(s).len() <= i < s.len() ==> s[i] == '/',
        spec_trim_trailing_slashes(s).len() == 0 || spec_trim_trailing_slashes(s).last() != '/',
        spec_trim_trailing_slashes(spec_trim_trailing_slashes(s)) == spec_trim_trailing_slashes(s),
{
    lemma_trim_prefix(s);
}

/// Removes every trailing `/` from a host address.
pub fn trim_trailing_slashes(s: &str) -> (r: &str)
    ensures
        r@ == spec_trim_trailing_slashes(s@),
{
    let cs = text::chars_of(s);
    let mut end = cs.len();
    proof {
        assert(cs@.take(end as int) =~= s@);
    }
    while end > 0 && cs[end - 1] == '/'
        invariant
            cs@ == s@,
            end <= cs@.len(),
            spec_trim_trailing_slashes(s@) == spec_trim_trailing_slashes(cs@.take(end as int)),
        decreases end,
    {
        assert(cs@.take(end as int).drop_last() =~= cs@.take(end - 1));
        end = end - 1;
    }
    s.substring_char(0, end)
}

/// Address of the resolver debug endpoint.
pub fn debug_resolver_address() -> (a: String)
    ensures
        a@ == "https://1636492611342-jn6tpar-9z.u.fastly-analytics.com/debug_resolver"@,
{
    text::owned("https://1636492611342-jn6tpar-9z.u.fastly-analytics.com/debug_resolver")
}

/// `host` followed by `path`.
fn joined(host: &str, path: &str) -> (a: String)
    ensures
        a@ == host@ + path@,
{
    let mut a = text::owned(host);
    a.append(path);
    a
}

/// Address of the helper service's connection report.
pub open spec fn spec_req_infos_legacy_address(host: Seq<char>) -> Seq<char> {
    host + "/req_infos"@
}

/// Address of the helper service's connection report under `host`.
pub fn req_infos_legacy_address(host: &str) -> (a: String)
    ensures
        a@ == spec_req_infos_legacy_address(host@),
        a@ == host@ + "/req_infos"@,
{
    joined(host, "/req_infos")
}

/// Address of the edge echo of the request.
pub open spec fn spec_req_infos_address(host: Seq<char>) -> Seq<char> {
    host + "/api/req_infos"@
}

/// Address of the edge echo of the request under `host`.
pub fn req_infos_address(host: &str) -> (a: String)
    ensures
        a@ == spec_req_infos_address(host@),
        a@ == host@ + "/api/req_infos"@,
{
    joined(host, "/api/req_infos")
}

/// Address of the speed-test payload.
pub open spec fn spec_speed_test_address(host: Seq<char>) -> Seq<char> {
    host + "/api/speed_test"@
}

/// Address of the speed-test payload under `host`.
pub fn speed_test_address(host: &str) -> (a: String)
    ensures
        a@ == spec_speed_test_address(host@),
        a@ == host@ + "/api/speed_test"@,
{
    joined(host, "/api/speed_test")
}

/// A service address keeps the configured host whole, port and scheme
/// included, and appends the service's path after it: the address begins with
/// the host and what follows the host is exactly the path.
pub proof fn lemma_service_addresses(host: Seq<char>)
    ensures
        spec_req_infos_address(host).take(host.len() as int) == host,
        spec_req_infos_address(host).skip(host.len() as int) == "/api/req_infos"@,
        spec_req_infos_legacy_address(host).take(host.len() as int) == host,
        spec_req_infos_legacy_address(host).skip(host.len() as int) == "/req_infos"@,
        spec_speed_test_address(host).take(host.len() as int) == host,
        spec_speed_test_address(host).skip(host.len() as int) == "/api/speed_test"@,
{
    assert(spec_req_infos_address(host).take(host.len() as int) =~= host);
    assert(spec_req_infos_address(host).skip(host.len() as int) =~= "/api/req_infos"@);
    assert(spec_req_infos_legacy_address(host).take(host.len() as int) =~= host);
    assert(spec_req_infos_legacy_address(host).skip(host.len() as int) =~= "/req_infos"@);
    assert(spec_speed_test_address(host).take(host.len() as int) =~= host);
    assert(spec_speed_test_address(host).skip(host.len() as int) =~= "/api/speed_test"@);
}

/// Address of the performance-map configuration on the generated host.
pub open spec fn spec_perf_map_config_address(dyn_host: Seq<char>) -> Seq<char> {
    "https://"@ + dyn_host + ".u.fastly-analytics.com/perfmapconfig.js?jsonp=removeme"@
}

/// Address of the performance-map configuration on the generated host `dyn_host`.
pub fn perf_map_config_address(dyn_host: &str) -> (a: String)
    ensures
        a@ == spec_perf_map_config_address(dyn_host@),
        a@ == "https://"@ + dyn_host@ + ".u.fastly-analytics.com/perfmapconfig.js?jsonp=removeme"@,
{
    let mut a = text::owned("https://");
    a.append(dyn_host);
    a.append(".u.fastly-analytics.com/perfmapconfig.js?jsonp=removeme");
    a
}

/// Address of the POP-name probe of the assignment `w`.
pub open spec fn spec_pop_as_address(w: Seq<char>) -> Seq<char> {
    "https://"@ + w
        + ".fastly-analytics.com/popname.js?jsonp=removeme&unique=16365577309317k96lvao-perfmap"@
}

/// Address of the POP-name probe of the assignment `w`.
pub fn pop_as_address(w: &str) -> (a: String)
    ensures
        a@ == spec_pop_as_address(w@),
        a@ == "https://"@ + w@
            + ".fastly-analytics.com/popname.js?jsonp=removeme&unique=16365577309317k96lvao-perfmap"@,
{
    let mut a = text::owned("https://");
    a.append(w);
    a.append(".fastly-analytics.com/popname.js?jsonp=removeme&unique=16365577309317k96lvao-perfmap");
    a
}

/// Address of the test object served by the POP `pop`, used to time the first byte.
pub open spec fn spec_pop_latency_address(pop: Seq<char>) -> Seq<char> {
    "https://"@ + pop
        + ".pops.fastly-analytics.com/test_object.svg?unique=1636811062430p1v53fsd-perfmap&popId="@
        + pop
}

/// Address of the test object served by the POP `pop`.
pub fn pop_latency_address(pop: &str) -> (a: String)
    ensures
        a@ == spec_pop_latency_address(pop@),
        a@ == "https://"@ + pop@
            + ".pops.fastly-analytics.com/test_object.svg?unique=1636811062430p1v53fsd-perfmap&popId="@
            + pop@,
{
    let mut a = text::owned("https://");
    a.append(pop);
    a.append(".pops.fastly-analytics.com/test_object.svg?unique=1636811062430p1v53fsd-perfmap&popId=");
    a.append(pop);
    a
}

/// The probe addresses put the generated host, or the POP, right after
/// `https://` and keep it whole; the latency probe names its POP a second time
/// at its very end, as the `popId` parameter.
pub proof fn lemma_probe_addresses(name: Seq<char>)
    ensures
        spec_perf_map_config_address(name).take(8) == "https://"@,
        spec_perf_map_config_address(name).subrange(8, 8 + name.len() as int) == name,
        spec_pop_latency_address(name).take(8) == "https://"@,
        spec_pop_latency_address(name).subrange(8, 8 + name.len() as int) == name,
        spec_pop_latency_address(name).skip(
            spec_pop_latency_address(name).len() - name.len(),
        ) == name,
{
    reveal_strlit("https://");
    let c = spec_perf_map_config_address(name);
    assert(c.take(8) =~= "https://"@);
    assert(c.subrange(8, 8 + name.len() as int) =~= name);
    let p = spec_pop_latency_address(name);
    assert(p.take(8) =~= "https://"@);
    assert(p.subrange(8, 8 + name.len() as int) =~= name);
    assert(p.skip(p.len() - name.len()) =~= name);
}

/// URL of the resolver debug endpoint.
pub fn debug_resolver_url() -> (r: Result<Url, InspectError>)
    ensures
        r == spec_checked_url(
            "https://1636492611342-jn6tpar-9z.u.fastly-analytics.com/debug_resolver"@,
        ),
{
    let a = debug_resolver_address();
    checked_url(a.as_str())
}

/// URL of the helper service's connection report under `host`.
pub fn req_infos_legacy_url(host: &str) -> (r: Result<Url, InspectError>)
    ensures
        r == spec_checked_url(spec_req_infos_legacy_address(host@)),
        r == spec_checked_url(host@ + "/req_infos"@),
{
    let a = req_infos_legacy_address(host);
    checked_url(a.as_str())
}

/// URL of the edge echo of the request under `host`.
pub fn req_infos_url(host: &str) -> (r: Result<Url, InspectError>)
    ensures
        r == spec_checked_url(spec_req_infos_address(host@)),
        r == spec_checked_url(host@ + "/api/req_infos"@),
{
    let a = req_infos_address(host);
    checked_url(a.as_str())
}

/// URL of the speed-test payload under `host`.
pub fn speed_test_url(host: &str) -> (r: Result<Url, InspectError>)
    ensures
        r == spec_checked_url(spec_speed_test_address(host@)),
        r == spec_checked_url(host@ + "/api/speed_test"@),
{
    let a = speed_test_address(host);
    checked_url(a.as_str())
}

/// URL of the performance-map configuration on the generated host `dyn_host`.
pub fn perf_map_config_url(dyn_host: &str) -> (r: Result<Url, InspectError>)
    ensures
        r == spec_checked_url(spec_perf_map_config_address(dyn_host@)),
{
    let a = perf_map_config_address(dyn_host);
    checked_url(a.as_str())
}

/// URL of the POP-name probe of the assignment `w`.
pub fn pop_as_url(w: &str) -> (r: Result<Url, InspectError>)
    ensures
        r == spec_checked_url(spec_pop_as_address(w@)),
{
    let a = pop_as_address(w);
    checked_url(a.as_str())
}

} // verus!
