use freemkv::keydb_fetch::{
    cap_error, capped_wait, fetch, fetch_step, guard_addresses, host_of, is_blocked_ip, map_request_error,
    may_resolve, parse_target, pinned_count, read_capped, resolve_and_guard, CapError, FetchAction, FetchError, FetchEvent, GuardFault,
    IpAddress, Refusal, Reply, UrlFault, BODY_TRANSFER_BUDGET_SECS, CONNECT_TIMEOUT_SECS, MAX_BODY_BYTES,
    MAX_DNS_IN_FLIGHT, MAX_PINNED_ADDRS, READ_TIMEOUT_SECS, STALL_TIMEOUT_SECS,
};

fn v4(a: u8, b: u8, c: u8, d: u8) -> IpAddress {
    IpAddress::V4([a, b, c, d])
}

fn v6(s: [u16; 8]) -> IpAddress {
    IpAddress::V6(s)
}

fn literal(ip: &str) -> Option<IpAddress> {
    let octets: Vec<u8> = ip.split('.').filter_map(|p| p.parse().ok()).collect();
    if octets.len() == 4 {
        return Some(v4(octets[0], octets[1], octets[2], octets[3]));
    }
    let (head, tail) = ip.split_once("::")?;
    let part = |p: &str| u16::from_str_radix(p, 16).ok();
    let mut s = [0u16; 8];
    if !head.is_empty() {
        s[0] = part(head)?;
    }
    if !tail.is_empty() {
        s[7] = part(tail)?;
    }
    Some(v6(s))
}

#[test]
fn ssrf_guard_blocks_loopback_private_and_metadata() {
    assert!(is_blocked_ip(&v4(127, 0, 0, 1)));
    assert!(is_blocked_ip(&v4(10, 0, 0, 1)));
    assert!(is_blocked_ip(&v4(192, 168, 1, 50)));
    assert!(is_blocked_ip(&v4(172, 16, 0, 1)));
    assert!(is_blocked_ip(&v4(169, 254, 169, 254)));
    assert!(is_blocked_ip(&v4(100, 64, 0, 1)));
    assert!(is_blocked_ip(&v4(0, 0, 0, 0)));
    assert!(is_blocked_ip(&v6([0, 0, 0, 0, 0, 0, 0, 1])));
    assert!(is_blocked_ip(&v6([0xfd00, 0, 0, 0, 0, 0, 0, 1])));
    assert!(is_blocked_ip(&v6([0, 0, 0, 0, 0, 0xffff, 0x7f00, 1])));
}

#[test]
fn ssrf_guard_allows_public_ips() {
    assert!(!is_blocked_ip(&v4(8, 8, 8, 8)));
    assert!(!is_blocked_ip(&v4(1, 1, 1, 1)));
}

#[test]
fn every_ssrf_disjunct_blocks_on_its_own() {
    let cases: &[(&str, &str)] = &[
        ("192.0.2.1", "documentation / TEST-NET-1"),
        ("224.0.0.1", "multicast"),
        ("245.0.0.1", "reserved (>= 240), not broadcast"),
        ("100.64.0.1", "CGNAT"),
        ("198.18.0.1", "benchmarking 198.18.0.0/15 (low half)"),
        ("198.19.255.254", "benchmarking 198.18.0.0/15 (high half)"),
        ("192.0.0.1", "IETF protocol assignments 192.0.0.0/24"),
        ("0.1.2.3", "leading zero octet"),
        ("fe80::1", "IPv6 link-local"),
        ("fc00::1", "IPv6 unique-local"),
    ];
    for (ip, why) in cases {
        let parsed = literal(ip).expect("test address parses");
        assert!(
            is_blocked_ip(&parsed),
            "{ip} ({why}) must be blocked on its own"
        );
    }
}

#[test]
fn ssrf_guard_blocks_embedded_ipv4_via_6to4_and_teredo() {
    assert!(is_blocked_ip(&v6([
        0x2002, 0x7f00, 0x0001, 0, 0, 0, 0, 0
    ])));
    assert!(is_blocked_ip(&v6([
        0x2002, 0xa9fe, 0xa9fe, 0, 0, 0, 0, 0
    ])));
    assert!(is_blocked_ip(&v6([
        0x2001, 0x0000, 0, 0, 0, 0, 0x80ff, 0xfffe
    ])));
    assert!(!is_blocked_ip(&v6([
        0x2002, 0x0808, 0x0808, 0, 0, 0, 0, 0
    ])));
}

#[test]
fn ssrf_guard_blocks_nat64_wellknown_prefix() {
    assert!(is_blocked_ip(&v6([
        0x0064, 0xff9b, 0, 0, 0, 0, 0xa9fe, 0xa9fe
    ])));
    assert!(is_blocked_ip(&v6([
        0x0064, 0xff9b, 0, 0, 0, 0, 0x7f00, 0x0001
    ])));
    assert!(!is_blocked_ip(&v6([
        0x0064, 0xff9b, 0, 0, 0, 0, 0x0808, 0x0808
    ])));
}

#[test]
fn read_capped_admits_up_to_the_cap_and_rejects_past_it() {
    let body = vec![b'x'; 64];
    let got = read_capped(Some(body.clone()), 64).expect("64 <= 64");
    assert_eq!(
        got.len(),
        64,
        "a body exactly at the cap must be returned whole"
    );
    assert_eq!(got, body);

    assert_eq!(
        read_capped(Some(vec![b'x'; 63]), 64)
            .expect("63 < 64")
            .len(),
        63
    );

    assert!(
        read_capped(Some(vec![b'x'; 65]), 64).is_err(),
        "a body past the cap must be rejected"
    );
    assert!(read_capped(Some(vec![b'x'; 100_000]), 64).is_err());
    assert_eq!(read_capped(Some(Vec::new()), 64).unwrap().len(), 0);
}

#[test]
fn a_connection_that_dies_mid_body_is_not_an_invalid_keydb() {
    let too_large =
        read_capped(Some(vec![b'x'; 65]), 64).expect_err("a body past the cap is refused");
    let dropped = read_capped(None, 64).expect_err("a dead socket is a failure");
    assert!(matches!(too_large, CapError::TooLarge));
    assert!(matches!(dropped, CapError::Io));

    const URL: &str = "https://mirror.example.org/keydb.zip";
    assert!(
        matches!(cap_error(too_large, URL), FetchError::Invalid),
        "an over-large body IS a verdict about the content (E8002)"
    );
    match cap_error(dropped, URL) {
        FetchError::Connect { host } => assert_eq!(host, "mirror.example.org"),
        _ => panic!("a dropped connection must read as E8000"),
    }
}

#[test]
fn the_cgnat_clause_does_not_block_ordinary_public_addresses() {
    for ip in ["8.65.0.1", "1.100.0.1", "203.0.100.7"] {
        let parsed = literal(ip).expect("test address parses");
        assert!(
            !is_blocked_ip(&parsed),
            "{ip} is public and must not be blocked by the CGNAT clause"
        );
    }
    assert!(is_blocked_ip(&literal("100.127.255.254").unwrap()));
}

/// What becomes of a URL whose host is an address.
fn guarded(url: &str) -> Result<u16, Refusal> {
    let found = parse_target(url)
        .ok()
        .map(|(host, _)| literal(&host).into_iter().collect());
    resolve_and_guard(url, found).map(|(_, port)| port)
}

fn is_internal(r: Result<u16, Refusal>) -> bool {
    matches!(r, Err(Refusal::Guarded(GuardFault::Internal(_))))
}

#[test]
fn resolve_and_guard_rejects_internal_literals() {
    assert!(is_internal(guarded("http://127.0.0.1/keydb.zip")));
    assert!(is_internal(guarded("http://169.254.169.254/keydb.zip")));
    assert!(is_internal(guarded(&format!(
        "https://{}.{}.{}.{}/k",
        10, 0, 0, 5
    ))));
    assert!(is_internal(guarded("http://[::1]:9000/k")));
}

#[test]
fn resolve_and_guard_rejects_bad_scheme() {
    for url in ["ftp://example.com/k", "file:///etc/passwd", "not a url", ""] {
        assert_eq!(guarded(url), Err(Refusal::Url(UrlFault::Scheme)), "{url}");
    }
    assert!(matches!(parse_target("http:///k"), Err(UrlFault::NoHost)));
    assert!(matches!(
        parse_target("http://[::1/k"),
        Err(UrlFault::BadIpv6)
    ));
    assert!(matches!(
        parse_target("http://[::1]:99999/k"),
        Err(UrlFault::BadPort)
    ));
    // Without brackets, what is no port belongs to the host.
    assert_eq!(
        parse_target("http://h:99999/k").ok(),
        Some(("h:99999".to_string(), 80))
    );
}

#[test]
fn resolve_and_guard_accepts_public_literal_both_schemes() {
    assert_eq!(guarded("https://8.8.8.8/keydb.zip"), Ok(443));
    assert_eq!(guarded("http://1.1.1.1/keydb.zip"), Ok(80));
    assert_eq!(guarded("https://1.1.1.1:8443/k"), Ok(8443));
    assert_eq!(
        resolve_and_guard("https://h/k", None),
        Err(Refusal::Unresolved)
    );
    assert_eq!(
        resolve_and_guard("https://h/k", Some(Vec::new())),
        Err(Refusal::Guarded(GuardFault::NoAddress))
    );
}

#[test]
fn host_of_extracts_authority() {
    assert_eq!(host_of("https://example.org/export/k.zip"), "example.org");
    assert_eq!(host_of("http://example.org:8080/k"), "example.org:8080");
    assert_eq!(host_of("https://user@example.org/k"), "example.org");
}

#[test]
fn one_internal_address_among_many_is_enough() {
    assert!(matches!(
        guard_addresses(&vec![]),
        Err(GuardFault::NoAddress)
    ));
    assert!(guard_addresses(&vec![v4(8, 8, 8, 8), v4(1, 1, 1, 1)]).is_ok());
    match guard_addresses(&vec![v4(8, 8, 8, 8), v4(10, 0, 0, 1)]) {
        Err(GuardFault::Internal(ip)) => assert_eq!(ip, v4(10, 0, 0, 1)),
        other => panic!("{other:?}"),
    }
}

#[test]
fn a_wait_for_the_body_is_cut_to_the_idle_bound() {
    assert_eq!(capped_wait(true, 120_000, 20_000), 20_000);
    assert_eq!(capped_wait(true, 5_000, 20_000), 5_000);
    assert_eq!(capped_wait(false, 120_000, 20_000), 120_000);
    assert_eq!(STALL_TIMEOUT_SECS, 20);
    assert_eq!(BODY_TRANSFER_BUDGET_SECS, 120);
    assert_eq!(READ_TIMEOUT_SECS, 60);
    assert_eq!(CONNECT_TIMEOUT_SECS, 10);
    assert_eq!(MAX_BODY_BYTES, 64 * 1024 * 1024);
}

#[test]
fn only_so_many_are_resolved_and_pinned() {
    assert!(may_resolve(MAX_DNS_IN_FLIGHT - 1));
    assert!(!may_resolve(MAX_DNS_IN_FLIGHT));
    assert_eq!(pinned_count(3), 3);
    assert_eq!(pinned_count(99), MAX_PINNED_ADDRS);
}

#[test]
fn a_fetch_fails_with_what_went_wrong() {
    const URL: &str = "https://h.example/k";
    assert_eq!(
        fetch(URL, Reply::Body(Some(vec![1, 2]))).ok(),
        Some(vec![1, 2])
    );
    assert!(matches!(
        fetch(URL, Reply::Refused(Some(404))),
        Err(FetchError::Http { status: 404 })
    ));
    assert!(matches!(
        fetch(URL, Reply::Body(None)),
        Err(FetchError::Connect { .. })
    ));
    assert!(matches!(
        map_request_error(URL, None),
        FetchError::Connect { .. }
    ));
}

#[test]
fn a_download_asks_only_after_the_guard() {
    const URL: &str = "https://mirror.example.org:8443/keydb.zip";
    match fetch_step(URL, FetchEvent::Begin) {
        FetchAction::Resolve { host, port } => {
            assert_eq!(host, "mirror.example.org");
            assert_eq!(port, 8443);
        }
        other => panic!("{other:?}"),
    }
    let found = vec![v4(8, 8, 8, 8), v4(1, 1, 1, 1)];
    match fetch_step(URL, FetchEvent::Resolved(Some(found.clone()))) {
        FetchAction::Get { addrs, port } => {
            assert_eq!(addrs, found);
            assert_eq!(port, 8443);
        }
        other => panic!("{other:?}"),
    }
    let unreached = |a: FetchAction| match a {
        FetchAction::Finish(Err(FetchError::Connect { host })) => host,
        other => panic!("{other:?}"),
    };
    for event in [
        FetchEvent::Resolved(None),
        FetchEvent::Resolved(Some(Vec::new())),
        FetchEvent::Resolved(Some(vec![v4(8, 8, 8, 8), v4(10, 0, 0, 1)])),
        FetchEvent::Answered(Reply::Refused(None)),
        FetchEvent::Answered(Reply::Body(None)),
    ] {
        assert_eq!(unreached(fetch_step(URL, event)), "mirror.example.org:8443");
    }
    assert_eq!(unreached(fetch_step("ftp://h/k", FetchEvent::Begin)), "ftp:");
    match fetch_step(URL, FetchEvent::Answered(Reply::Body(Some(vec![7])))) {
        FetchAction::Finish(Ok(b)) => assert_eq!(b, vec![7]),
        other => panic!("{other:?}"),
    }
}
