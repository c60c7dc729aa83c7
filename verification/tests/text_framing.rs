use fastly_inspect::error::InspectError;
use fastly_inspect::jsonp::jsonp_payload;
use fastly_inspect::perfmap::{
    extend_suffix, gen_perfmaphost, i64_decimal, perfmap_host, perfmap_host_at, u64_decimal,
    LowerCaseAlphanumeric,
};
use fastly_inspect::urls::{
    checked_url, debug_resolver_address, debug_resolver_url, perf_map_config_address,
    perf_map_config_url, pop_as_address, pop_as_url, pop_latency_address, req_infos_address,
    req_infos_legacy_address, req_infos_legacy_url, req_infos_url, speed_test_address,
    speed_test_url, trim_trailing_slashes,
};
use surf::http::url::ParseError;

#[test]
fn jsonp_payload_strips_callback_and_swaps_quotes() {
    let body = b"removeme(\n{'popname': 'FRA', 'hostname': 'cache-fra1'});";
    assert_eq!(
        jsonp_payload(body),
        "\n{\"popname\": \"FRA\", \"hostname\": \"cache-fra1\"}"
    );
}

#[test]
fn jsonp_payload_without_line_break_is_empty() {
    assert_eq!(jsonp_payload(b"removeme({'a': 1});"), "");
}

#[test]
fn jsonp_payload_of_short_bodies() {
    assert_eq!(jsonp_payload(b""), "");
    assert_eq!(jsonp_payload(b"cb\n"), "");
    assert_eq!(jsonp_payload(b"cb\nx"), "");
    assert_eq!(jsonp_payload(b"cb\nxyz"), "\nx");
}

#[test]
fn jsonp_payload_reads_bytes_as_latin1() {
    assert_eq!(jsonp_payload(b"cb\n{'c': '\xe9'});"), "\n{\"c\": \"\u{e9}\"}");
}

#[test]
fn jsonp_payload_keeps_later_line_breaks() {
    assert_eq!(jsonp_payload(b"a\nb\nc\n);"), "\nb\nc\n");
}

#[test]
fn trailing_slashes_are_trimmed() {
    assert_eq!(trim_trailing_slashes("https://fastly-inspect.edgecompute.app/"), "https://fastly-inspect.edgecompute.app");
    assert_eq!(trim_trailing_slashes("https://h.example//"), "https://h.example");
    assert_eq!(trim_trailing_slashes("https://h.example/a"), "https://h.example/a");
    assert_eq!(trim_trailing_slashes("///"), "");
    assert_eq!(trim_trailing_slashes(""), "");
}

#[test]
fn trimming_twice_is_trimming_once() {
    let once = trim_trailing_slashes("http://x/y///");
    assert_eq!(trim_trailing_slashes(once), once);
}

#[test]
fn service_addresses() {
    assert_eq!(
        debug_resolver_address(),
        "https://1636492611342-jn6tpar-9z.u.fastly-analytics.com/debug_resolver"
    );
    assert_eq!(req_infos_legacy_address("https://helper.example"), "https://helper.example/req_infos");
    assert_eq!(req_infos_address("https://edge.example"), "https://edge.example/api/req_infos");
    assert_eq!(speed_test_address("https://edge.example"), "https://edge.example/api/speed_test");
    assert_eq!(
        perf_map_config_address("1636492611342abcdefgh-perfmap"),
        "https://1636492611342abcdefgh-perfmap.u.fastly-analytics.com/perfmapconfig.js?jsonp=removeme"
    );
    assert_eq!(
        pop_as_address("ac"),
        "https://ac.fastly-analytics.com/popname.js?jsonp=removeme&unique=16365577309317k96lvao-perfmap"
    );
    assert_eq!(
        pop_latency_address("FRA"),
        "https://FRA.pops.fastly-analytics.com/test_object.svg?unique=1636811062430p1v53fsd-perfmap&popId=FRA"
    );
}

#[test]
fn service_urls_parse() {
    let u = req_infos_url("https://edge.example").ok().unwrap();
    assert_eq!(u.as_str(), "https://edge.example/api/req_infos");
    let u = req_infos_legacy_url("https://helper.example").ok().unwrap();
    assert_eq!(u.as_str(), "https://helper.example/req_infos");
    let u = speed_test_url("https://edge.example").ok().unwrap();
    assert_eq!(u.as_str(), "https://edge.example/api/speed_test");
    let u = debug_resolver_url().ok().unwrap();
    assert_eq!(u.host_str(), Some("1636492611342-jn6tpar-9z.u.fastly-analytics.com"));
    let u = perf_map_config_url("1x-perfmap").ok().unwrap();
    assert_eq!(u.host_str(), Some("1x-perfmap.u.fastly-analytics.com"));
    assert_eq!(u.query(), Some("jsonp=removeme"));
    let u = pop_as_url("ac").ok().unwrap();
    assert_eq!(u.path(), "/popname.js");
}

#[test]
fn relative_host_is_an_invalid_url() {
    assert!(matches!(
        req_infos_url("edge.example"),
        Err(InspectError::InvalidUrl(ParseError::RelativeUrlWithoutBase))
    ));
    assert!(matches!(
        speed_test_url(""),
        Err(InspectError::InvalidUrl(ParseError::RelativeUrlWithoutBase))
    ));
    assert!(matches!(checked_url("https://"), Err(InspectError::InvalidUrl(ParseError::EmptyHost))));
    assert!(matches!(
        checked_url("http://[::1"),
        Err(InspectError::InvalidUrl(ParseError::InvalidIpv6Address))
    ));
    assert_eq!(checked_url("https://a.example/x").ok().unwrap().as_str(), "https://a.example/x");
}

#[test]
fn decimal_notation() {
    assert_eq!(u64_decimal(0), "0");
    assert_eq!(u64_decimal(7), "7");
    assert_eq!(u64_decimal(1000), "1000");
    assert_eq!(u64_decimal(u64::MAX), u64::MAX.to_string());
    assert_eq!(i64_decimal(-42), "-42");
    assert_eq!(i64_decimal(i64::MIN), i64::MIN.to_string());
    assert_eq!(i64_decimal(i64::MAX), i64::MAX.to_string());
    assert_eq!(i64_decimal(0), "0");
}

#[test]
fn perfmap_host_layout() {
    assert_eq!(perfmap_host(1636492611, 342, "jn6tpar9"), "1636492611342jn6tpar9-perfmap");
    assert_eq!(perfmap_host(1636492611, 5, "abcdefgh"), "16364926115abcdefgh-perfmap");
    assert_eq!(perfmap_host(1636492611, 1250, "abcdefgh"), "1636492611250abcdefgh-perfmap");
    assert_eq!(perfmap_host(-3, 0, "x"), "-30x-perfmap");
}

#[test]
fn generated_host_uses_current_time() {
    let h = gen_perfmaphost("k2j4l6m8").ok().unwrap();
    assert!(h.ends_with("k2j4l6m8-perfmap"));
    let digits = &h[..h.len() - "k2j4l6m8-perfmap".len()];
    assert!(digits.len() >= 11);
    assert!(digits.chars().all(|c| c.is_ascii_digit()));
}

#[test]
fn alphabet_draws() {
    let d = LowerCaseAlphanumeric;
    assert_eq!(d.pick(0), Some(b'a'));
    assert_eq!(d.pick(0x03ff_ffff), Some(b'a'));
    assert_eq!(d.pick(25 << 26), Some(b'z'));
    assert_eq!(d.pick(26 << 26), Some(b'0'));
    assert_eq!(d.pick(35 << 26), Some(b'9'));
    assert_eq!(d.pick((35 << 26) | 0x03ff_ffff), Some(b'9'));
    assert_eq!(d.pick(36 << 26), None);
    assert_eq!(d.pick(u32::MAX), None);
}

#[test]
fn os_draws_are_lowercase_alphanumeric() {
    let d = LowerCaseAlphanumeric;
    let mut accepted = 0;
    for _ in 0..200 {
        if let Some(b) = d.try_sample().ok().unwrap() {
            assert!(b.is_ascii_lowercase() || b.is_ascii_digit());
            accepted += 1;
        }
    }
    assert!(accepted > 0);
}

#[test]
fn host_name_from_a_clock_reading() {
    assert_eq!(
        perfmap_host_at(1636492611, 342_987_654, "abcdefgh").ok().unwrap(),
        "1636492611342abcdefgh-perfmap"
    );
    assert_eq!(perfmap_host_at(0, 999_999, "x").ok().unwrap(), "00x-perfmap");
    assert_eq!(perfmap_host_at(1636492619, 1_500_000_000, "x").ok().unwrap(), "1636492619500x-perfmap");
}

#[test]
fn unusable_clock_readings() {
    assert!(matches!(perfmap_host_at(u64::MAX, 0, "x"), Err(InspectError::ClockUnavailable)));
    assert!(matches!(
        perfmap_host_at(9_223_372_036_854_775_808, 0, "x"),
        Err(InspectError::ClockUnavailable)
    ));
    assert!(matches!(
        perfmap_host_at(9_000_000_000_000_000, 0, "x"),
        Err(InspectError::ClockUnavailable)
    ));
    assert!(matches!(
        perfmap_host_at(1636492611, 1_500_000_000, "x"),
        Err(InspectError::ClockUnavailable)
    ));
}

#[test]
fn suffix_grows_by_accepted_draws() {
    let mut s = String::from("ab");
    extend_suffix(&mut s, None);
    assert_eq!(s, "ab");
    extend_suffix(&mut s, Some(b'7'));
    assert_eq!(s, "ab7");
    let mut t = String::new();
    while t.len() < 8 {
        let before = t.len();
        LowerCaseAlphanumeric.draw_into(&mut t).ok().unwrap();
        assert!(t.len() == before || t.len() == before + 1);
    }
    assert_eq!(t.len(), 8);
    assert!(t.chars().all(|c| c.is_ascii_lowercase() || c.is_ascii_digit()));
}
