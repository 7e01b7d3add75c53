use moltis::ssrf::{
    is_private_ip, is_ssrf_allowed, lookup_address, require_host, ssrf_check_literal,
    ssrf_check_resolved, ssrf_host, ssrf_lookup_address, ssrf_next_step, IpAddress, IpNetwork,
    SsrfError, SsrfNext,
};

fn v4(a: u8, b: u8, c: u8, d: u8) -> IpAddress {
    IpAddress::V4([a, b, c, d])
}

fn net(addr: IpAddress, prefix: u8) -> IpNetwork {
    IpNetwork::new(addr, prefix).unwrap()
}

#[test]
fn private_ipv4_ranges() {
    let cases = [
        (v4(127, 0, 0, 1), true),
        (v4(192, 168, 1, 1), true),
        (v4(10, 0, 0, 1), true),
        (v4(172, 16, 0, 1), true),
        (v4(169, 254, 1, 1), true),
        (v4(0, 0, 0, 0), true),
        (v4(100, 64, 0, 1), true),
        (v4(8, 8, 8, 8), false),
        (v4(1, 1, 1, 1), false),
    ];
    for (addr, expected) in cases {
        assert_eq!(is_private_ip(&addr), expected, "{addr:?}");
    }
}

#[test]
fn private_ipv6_ranges() {
    let cases = [
        (IpAddress::V6([0, 0, 0, 0, 0, 0, 0, 1]), true),
        (IpAddress::V6([0, 0, 0, 0, 0, 0, 0, 0]), true),
        (IpAddress::V6([0xfd00, 0, 0, 0, 0, 0, 0, 1]), true),
        (IpAddress::V6([0xfe80, 0, 0, 0, 0, 0, 0, 1]), true),
        (IpAddress::V6([0x2607, 0xf8b0, 0x4004, 0x800, 0, 0, 0, 0x200e]), false),
    ];
    for (addr, expected) in cases {
        assert_eq!(is_private_ip(&addr), expected, "{addr:?}");
    }
}

#[test]
fn private_range_edges() {
    assert!(is_private_ip(&v4(172, 31, 255, 255)));
    assert!(!is_private_ip(&v4(172, 32, 0, 0)));
    assert!(!is_private_ip(&v4(172, 15, 255, 255)));
    assert!(is_private_ip(&v4(100, 127, 255, 255)));
    assert!(!is_private_ip(&v4(100, 128, 0, 0)));
    assert!(!is_private_ip(&v4(100, 63, 0, 0)));
    assert!(is_private_ip(&v4(192, 0, 0, 8)));
    assert!(!is_private_ip(&v4(192, 0, 1, 8)));
    assert!(is_private_ip(&v4(255, 255, 255, 255)));
    assert!(!is_private_ip(&v4(255, 255, 255, 254)));
    assert!(!is_private_ip(&v4(169, 253, 1, 1)));
    assert!(is_private_ip(&IpAddress::V6([0xfc00, 0, 0, 0, 0, 0, 0, 0])));
    assert!(is_private_ip(&IpAddress::V6([0xfdff, 1, 0, 0, 0, 0, 0, 0])));
    assert!(!is_private_ip(&IpAddress::V6([0xfe00, 0, 0, 0, 0, 0, 0, 0])));
    assert!(is_private_ip(&IpAddress::V6([0xfebf, 0, 0, 0, 0, 0, 0, 0])));
    assert!(!is_private_ip(&IpAddress::V6([0xfec0, 0, 0, 0, 0, 0, 0, 0])));
    assert!(!is_private_ip(&IpAddress::V6([0, 0, 0, 0, 0, 0, 0, 2])));
}

#[test]
fn network_prefix_bounds() {
    assert!(IpNetwork::new(v4(10, 0, 0, 0), 32).is_some());
    assert!(IpNetwork::new(v4(10, 0, 0, 0), 33).is_none());
    assert!(IpNetwork::new(IpAddress::V6([0; 8]), 128).is_some());
    assert!(IpNetwork::new(IpAddress::V6([0; 8]), 129).is_none());
    let n = net(v4(192, 168, 1, 7), 24);
    assert_eq!(n.addr(), v4(192, 168, 1, 7));
    assert_eq!(n.prefix_len(), 24);
}

#[test]
fn network_contains() {
    let n = net(v4(192, 168, 1, 0), 24);
    assert!(n.contains(&v4(192, 168, 1, 1)));
    assert!(n.contains(&v4(192, 168, 1, 255)));
    assert!(!n.contains(&v4(192, 168, 2, 1)));
    assert!(!n.contains(&IpAddress::V6([0; 8])));
    let host = net(v4(10, 1, 2, 3), 32);
    assert!(host.contains(&v4(10, 1, 2, 3)));
    assert!(!host.contains(&v4(10, 1, 2, 4)));
    let all = net(v4(1, 2, 3, 4), 0);
    assert!(all.contains(&v4(255, 255, 255, 255)));
    assert!(all.contains(&v4(0, 0, 0, 0)));
    let odd = net(v4(10, 200, 0, 0), 9);
    assert!(odd.contains(&v4(10, 128, 0, 0)));
    assert!(!odd.contains(&v4(10, 127, 255, 255)));
    let ula = net(IpAddress::V6([0xfd00, 0, 0, 0, 0, 0, 0, 0]), 8);
    assert!(ula.contains(&IpAddress::V6([0xfdab, 1, 2, 3, 4, 5, 6, 7])));
    assert!(!ula.contains(&IpAddress::V6([0xfc00, 0, 0, 0, 0, 0, 0, 0])));
    assert!(!ula.contains(&v4(253, 0, 0, 0)));
}

#[test]
fn allowlist_membership() {
    let allow = vec![net(v4(192, 168, 1, 0), 24), net(IpAddress::V6([0xfe80, 0, 0, 0, 0, 0, 0, 0]), 10)];
    assert!(is_ssrf_allowed(&v4(192, 168, 1, 1), &allow));
    assert!(!is_ssrf_allowed(&v4(192, 168, 2, 1), &allow));
    assert!(is_ssrf_allowed(&IpAddress::V6([0xfe80, 0, 0, 0, 0, 0, 0, 9]), &allow));
    assert!(!is_ssrf_allowed(&v4(127, 0, 0, 1), &[]));
}

#[test]
fn blocks_localhost() {
    let url = url::Url::parse("http://127.0.0.1/secret").unwrap();
    let host = ssrf_host(&url).unwrap();
    assert_eq!(host, "127.0.0.1");
    let result = ssrf_check_literal(&host, v4(127, 0, 0, 1), &[]);
    assert!(result.is_err());
    assert!(matches!(result.unwrap_err(), SsrfError::Blocked { .. }));
}

#[test]
fn blocks_private_network() {
    let url = url::Url::parse("http://192.168.1.1/admin").unwrap();
    let host = ssrf_host(&url).unwrap();
    let result = ssrf_check_literal(&host, v4(192, 168, 1, 1), &[]);
    assert!(result.is_err());
    match result.unwrap_err() {
        SsrfError::Blocked { host, ip } => {
            assert_eq!(host, "192.168.1.1");
            assert_eq!(ip, v4(192, 168, 1, 1));
        },
        other => panic!("unexpected {other:?}"),
    }
}

#[test]
fn allowlist_permits_private() {
    let allowlist = vec![net(v4(192, 168, 1, 0), 24)];
    let url = url::Url::parse("http://192.168.1.1/api").unwrap();
    let host = ssrf_host(&url).unwrap();
    let result = ssrf_check_literal(&host, v4(192, 168, 1, 1), &allowlist);
    assert!(result.is_ok());
}

#[test]
fn public_literal_passes() {
    assert!(ssrf_check_literal("8.8.8.8", v4(8, 8, 8, 8), &[]).is_ok());
}

#[test]
fn url_without_host_is_refused() {
    let url = url::Url::parse("data:text/plain,hello").unwrap();
    assert!(matches!(ssrf_host(&url), Err(SsrfError::NoHost)));
    assert!(matches!(require_host(None), Err(SsrfError::NoHost)));
    assert_eq!(require_host(Some("example.com")).unwrap(), "example.com");
    let url = url::Url::parse("https://Example.COM:8443/x").unwrap();
    assert_eq!(ssrf_host(&url).unwrap(), "example.com");
}

#[test]
fn lookup_address_ports() {
    assert_eq!(lookup_address("example.com", None), "example.com:443");
    assert_eq!(lookup_address("example.com", Some(8080)), "example.com:8080");
    let url = url::Url::parse("http://example.com/x").unwrap();
    assert_eq!(ssrf_lookup_address(&url, "example.com"), "example.com:80");
    let url = url::Url::parse("https://example.com/x").unwrap();
    assert_eq!(ssrf_lookup_address(&url, "example.com"), "example.com:443");
    let url = url::Url::parse("https://example.com:9000/x").unwrap();
    assert_eq!(ssrf_lookup_address(&url, "example.com"), "example.com:9000");
    let url = url::Url::parse("gopher://example.com/x").unwrap();
    assert_eq!(ssrf_lookup_address(&url, "example.com"), "example.com:443");
}

#[test]
fn resolved_addresses() {
    let allow = vec![net(v4(10, 0, 0, 0), 8)];
    let r = ssrf_check_resolved("h", Err("no such host".to_string()), &allow);
    match r {
        Err(SsrfError::ResolveFailed { host, reason }) => {
            assert_eq!(host, "h");
            assert_eq!(reason, "no such host");
        },
        other => panic!("unexpected {other:?}"),
    }
    assert!(matches!(ssrf_check_resolved("h", Ok(vec![]), &allow), Err(SsrfError::NoAddresses { .. })));
    assert!(ssrf_check_resolved("h", Ok(vec![v4(8, 8, 8, 8), v4(10, 1, 1, 1)]), &allow).is_ok());
    let r = ssrf_check_resolved(
        "h",
        Ok(vec![v4(8, 8, 8, 8), v4(127, 0, 0, 1), v4(192, 168, 0, 1)]),
        &allow,
    );
    match r {
        Err(SsrfError::Blocked { host, ip }) => {
            assert_eq!(host, "h");
            assert_eq!(ip, v4(127, 0, 0, 1));
        },
        other => panic!("unexpected {other:?}"),
    }
}

#[test]
fn widening_allowlist_accepts_more() {
    let ip = v4(192, 168, 5, 5);
    let narrow: Vec<IpNetwork> = vec![];
    let wide = vec![net(v4(192, 168, 0, 0), 16)];
    assert!(ssrf_check_literal("x", ip, &narrow).is_err());
    assert!(ssrf_check_literal("x", ip, &wide).is_ok());
}

#[test]
fn refused_ranges_are_exactly_the_private_addresses() {
    let ranges = [
        net(v4(127, 0, 0, 0), 8),
        net(v4(10, 0, 0, 0), 8),
        net(v4(172, 16, 0, 0), 12),
        net(v4(192, 168, 0, 0), 16),
        net(v4(169, 254, 0, 0), 16),
        net(v4(255, 255, 255, 255), 32),
        net(v4(0, 0, 0, 0), 32),
        net(v4(100, 64, 0, 0), 10),
        net(v4(192, 0, 0, 0), 24),
        net(IpAddress::V6([0, 0, 0, 0, 0, 0, 0, 1]), 128),
        net(IpAddress::V6([0; 8]), 128),
        net(IpAddress::V6([0xfc00, 0, 0, 0, 0, 0, 0, 0]), 7),
        net(IpAddress::V6([0xfe80, 0, 0, 0, 0, 0, 0, 0]), 10),
        net(IpAddress::V6([0, 0, 0, 0, 0, 0xffff, 0x7f00, 0]), 104),
        net(IpAddress::V6([0, 0, 0, 0, 0, 0xffff, 0x0a00, 0]), 104),
        net(IpAddress::V6([0, 0, 0, 0, 0, 0xffff, 0xac10, 0]), 108),
        net(IpAddress::V6([0, 0, 0, 0, 0, 0xffff, 0xc0a8, 0]), 112),
        net(IpAddress::V6([0, 0, 0, 0, 0, 0xffff, 0xa9fe, 0]), 112),
        net(IpAddress::V6([0, 0, 0, 0, 0, 0xffff, 0xffff, 0xffff]), 128),
        net(IpAddress::V6([0, 0, 0, 0, 0, 0xffff, 0, 0]), 128),
        net(IpAddress::V6([0, 0, 0, 0, 0, 0xffff, 0x6440, 0]), 106),
        net(IpAddress::V6([0, 0, 0, 0, 0, 0xffff, 0xc000, 0]), 120),
    ];
    let samples = [
        v4(127, 3, 4, 5), v4(10, 255, 0, 1), v4(172, 20, 1, 1), v4(172, 32, 1, 1),
        v4(192, 168, 9, 9), v4(169, 254, 0, 1), v4(100, 100, 0, 1), v4(100, 128, 0, 1),
        v4(192, 0, 0, 200), v4(192, 0, 2, 1), v4(8, 8, 4, 4), v4(0, 0, 0, 1),
        IpAddress::V6([0xfc12, 0, 0, 0, 0, 0, 0, 1]), IpAddress::V6([0xfe90, 0, 0, 0, 0, 0, 0, 1]),
        IpAddress::V6([0xfec0, 0, 0, 0, 0, 0, 0, 1]), IpAddress::V6([0x2001, 0xdb8, 0, 0, 0, 0, 0, 1]),
        IpAddress::V6([0, 0, 0, 0, 0, 0xffff, 0x7f00, 1]), IpAddress::V6([0, 0, 0, 0, 0, 0xffff, 0x0808, 0x0808]),
        IpAddress::V6([0, 0, 0, 0, 0, 0xffff, 0xac1f, 1]), IpAddress::V6([0, 0, 0, 0, 0, 0xffff, 0xac20, 1]),
        IpAddress::V6([0, 0, 0, 0, 0, 0xfffe, 0x7f00, 1]), IpAddress::V6([0, 0, 0, 0, 1, 0xffff, 0x0a00, 1]),
    ];
    for ip in samples {
        let in_range = ranges.iter().any(|n| n.contains(&ip));
        assert_eq!(is_private_ip(&ip), in_range, "{ip:?}");
    }
}

#[test]
fn ipv4_mapped_addresses_are_judged_by_their_ipv4_host() {
    // ::ffff:127.0.0.1 and ::ffff:10.0.0.1 reach loopback and private hosts.
    assert!(is_private_ip(&IpAddress::V6([0, 0, 0, 0, 0, 0xffff, 0x7f00, 0x0001])));
    assert!(is_private_ip(&IpAddress::V6([0, 0, 0, 0, 0, 0xffff, 0x0a00, 0x0001])));
    assert!(is_private_ip(&IpAddress::V6([0, 0, 0, 0, 0, 0xffff, 0xc0a8, 0x0101])));
    assert!(is_private_ip(&IpAddress::V6([0, 0, 0, 0, 0, 0xffff, 0, 0])));
    // ::ffff:8.8.8.8 is public, and so is an address that is not mapped.
    assert!(!is_private_ip(&IpAddress::V6([0, 0, 0, 0, 0, 0xffff, 0x0808, 0x0808])));
    assert!(!is_private_ip(&IpAddress::V6([0, 0, 0, 0, 0, 0, 0x7f00, 0x0001])));
    let mapped = IpAddress::V6([0, 0, 0, 0, 0, 0xffff, 0x7f00, 1]);
    assert!(ssrf_check_literal("::ffff:127.0.0.1", mapped, &[]).is_err());
    let allow = vec![net(IpAddress::V6([0, 0, 0, 0, 0, 0xffff, 0x7f00, 0]), 104)];
    assert!(ssrf_check_literal("::ffff:127.0.0.1", mapped, &allow).is_ok());
}

#[test]
fn next_step_judges_literals_and_resolves_names() {
    let url = url::Url::parse("http://127.0.0.1:8080/x").unwrap();
    match ssrf_next_step(&url, "127.0.0.1", Some(v4(127, 0, 0, 1)), &[]) {
        SsrfNext::Verdict(Err(SsrfError::Blocked { host, ip })) => {
            assert_eq!(host, "127.0.0.1");
            assert_eq!(ip, v4(127, 0, 0, 1));
        },
        _ => panic!("expected a refusal"),
    }
    assert!(matches!(
        ssrf_next_step(&url, "8.8.8.8", Some(v4(8, 8, 8, 8)), &[]),
        SsrfNext::Verdict(Ok(()))
    ));
    let url = url::Url::parse("https://example.com/.well-known/oauth").unwrap();
    match ssrf_next_step(&url, "example.com", None, &[]) {
        SsrfNext::Resolve(target) => assert_eq!(target, "example.com:443"),
        _ => panic!("expected a lookup"),
    }
    let url = url::Url::parse("http://example.com:8080/").unwrap();
    match ssrf_next_step(&url, "example.com", None, &[]) {
        SsrfNext::Resolve(target) => assert_eq!(target, "example.com:8080"),
        _ => panic!("expected a lookup"),
    }
}

#[test]
fn mapped_address_admitted_by_ipv4_allowlist() {
    // ::ffff:192.168.1.1 with the allowlist 192.168.1.0/24 is accepted.
    let mapped = IpAddress::V6([0, 0, 0, 0, 0, 0xffff, 0xc0a8, 0x0101]);
    let allow = vec![net(v4(192, 168, 1, 0), 24)];
    assert!(is_ssrf_allowed(&mapped, &allow));
    assert!(ssrf_check_literal("::ffff:192.168.1.1", mapped, &allow).is_ok());
    let other = IpAddress::V6([0, 0, 0, 0, 0, 0xffff, 0xc0a8, 0x0201]);
    assert!(!is_ssrf_allowed(&other, &allow));
    assert!(ssrf_check_literal("::ffff:192.168.2.1", other, &allow).is_err());
    // An address that is not mapped is not matched against IPv4 networks.
    let compat = IpAddress::V6([0, 0, 0, 0, 0, 0, 0xc0a8, 0x0101]);
    assert!(!is_ssrf_allowed(&compat, &allow));
}
