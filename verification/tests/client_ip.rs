use nest_rs_http::{ClientIp, ClientOrigin, IpAddress};

fn v4(a: u8, b: u8, c: u8, d: u8) -> IpAddress {
    IpAddress::V4(u32::from_be_bytes([a, b, c, d]))
}

fn resolve(hops: &[Option<IpAddress>], peer: Option<IpAddress>, trusted: &[IpAddress]) -> ClientOrigin {
    ClientOrigin::resolve(hops, None, peer, trusted)
}

#[test]
fn no_peer_address_is_unknown() {
    assert_eq!(resolve(&[Some(v4(203, 0, 113, 50))], None, &[]), ClientOrigin::Unknown);
}

#[test]
fn an_untrusted_peer_ignores_forwarding_headers() {
    let origin = resolve(&[Some(v4(203, 0, 113, 50))], Some(v4(192, 0, 2, 10)), &[]);
    assert_eq!(origin, ClientOrigin::Peer(v4(192, 0, 2, 10)));
    let origin = resolve(
        &[Some(v4(203, 0, 113, 50)), Some(v4(10, 0, 0, 99))],
        Some(v4(192, 0, 2, 10)),
        &[v4(10, 0, 0, 1)],
    );
    assert_eq!(origin, ClientOrigin::Peer(v4(192, 0, 2, 10)));
}

#[test]
fn a_trusted_proxy_yields_the_rightmost_untrusted_hop() {
    let proxy = v4(10, 0, 0, 1);
    let origin = resolve(&[Some(v4(203, 0, 113, 50)), Some(v4(192, 0, 2, 1))], Some(proxy), &[proxy]);
    assert_eq!(origin, ClientOrigin::Forwarded(v4(192, 0, 2, 1)));
}

#[test]
fn a_prepended_spoofed_hop_cannot_change_the_answer() {
    let proxy = v4(10, 0, 0, 1);
    let genuine = ClientOrigin::Forwarded(v4(203, 0, 113, 50));
    assert_eq!(resolve(&[Some(v4(203, 0, 113, 50))], Some(proxy), &[proxy]), genuine);
    assert_eq!(
        resolve(&[Some(v4(1, 2, 3, 4)), Some(v4(203, 0, 113, 50))], Some(proxy), &[proxy]),
        genuine,
        "a rotating leading hop cannot mint a fresh identity",
    );
    assert_eq!(
        resolve(&[Some(v4(198, 51, 100, 7)), Some(v4(203, 0, 113, 50))], Some(proxy), &[proxy]),
        genuine,
        "a forged victim address cannot be targeted",
    );
}

#[test]
fn a_two_layer_proxy_chain_selects_the_real_client() {
    let nginx = v4(10, 0, 0, 1);
    let lb = v4(10, 0, 0, 2);
    let origin = resolve(&[Some(v4(203, 0, 113, 50)), Some(lb)], Some(nginx), &[nginx, lb]);
    assert_eq!(origin, ClientOrigin::Forwarded(v4(203, 0, 113, 50)));
    let origin = resolve(
        &[Some(v4(9, 9, 9, 9)), Some(v4(203, 0, 113, 50)), Some(lb)],
        Some(nginx),
        &[nginx, lb],
    );
    assert_eq!(origin, ClientOrigin::Forwarded(v4(203, 0, 113, 50)));
}

#[test]
fn an_unparseable_hop_is_skipped_never_used_as_a_key() {
    let proxy = v4(10, 0, 0, 1);
    let origin = resolve(&[None, Some(v4(192, 0, 2, 1))], Some(proxy), &[proxy]);
    assert_eq!(origin, ClientOrigin::Forwarded(v4(192, 0, 2, 1)));
}

#[test]
fn x_real_ip_answers_when_the_chain_does_not() {
    let proxy = v4(10, 0, 0, 1);
    let real = v4(198, 51, 100, 20);
    let origin = ClientOrigin::resolve(&[], Some(real), Some(proxy), &[proxy]);
    assert_eq!(origin, ClientOrigin::Forwarded(real));
    let origin = ClientOrigin::resolve(&[Some(v4(203, 0, 113, 50))], Some(real), Some(proxy), &[proxy]);
    assert_eq!(origin, ClientOrigin::Forwarded(v4(203, 0, 113, 50)));
    let origin = ClientOrigin::resolve(&[], Some(real), Some(v4(192, 0, 2, 10)), &[]);
    assert_eq!(origin, ClientOrigin::Peer(v4(192, 0, 2, 10)));
}

#[test]
fn an_all_trusted_chain_falls_back_to_the_outermost_hop() {
    let (a, b, c) = (v4(10, 0, 0, 1), v4(10, 0, 0, 2), v4(10, 0, 0, 3));
    let origin = resolve(&[Some(b), Some(c)], Some(a), &[a, b, c]);
    assert_eq!(origin, ClientOrigin::Forwarded(b));
}

#[test]
fn a_trusted_proxy_that_forwards_nothing_is_reported_as_such() {
    let proxy = v4(10, 0, 0, 1);
    let chains: [&[Option<IpAddress>]; 3] = [&[], &[None], &[None, None, None, None]];
    for chain in chains {
        assert_eq!(resolve(chain, Some(proxy), &[proxy]), ClientOrigin::TrustedProxy(proxy), "chain {chain:?}");
    }
}

#[test]
fn forwarded_is_set_only_by_the_forwarded_variant() {
    let ip = v4(203, 0, 113, 50);
    assert!(ClientIp::from(ClientOrigin::Forwarded(ip)).forwarded);
    assert!(!ClientIp::from(ClientOrigin::Peer(ip)).forwarded);
    assert!(!ClientIp::from(ClientOrigin::TrustedProxy(ip)).forwarded);
    assert_eq!(
        ClientIp::from(ClientOrigin::TrustedProxy(ip)).ip,
        ip,
        "an address is still reported, it is just not a client's",
    );
    assert_eq!(ClientIp::from(ClientOrigin::Unknown), ClientIp::unknown());
    assert_eq!(ClientIp::unknown().ip, IpAddress::V4(0));
}

#[test]
fn only_a_trusted_peer_makes_headers_readable() {
    let ip = v4(10, 0, 0, 1);
    assert!(ClientOrigin::Forwarded(ip).peer_is_trusted());
    assert!(ClientOrigin::TrustedProxy(ip).peer_is_trusted());
    assert!(!ClientOrigin::Peer(ip).peer_is_trusted());
    assert!(!ClientOrigin::Unknown.peer_is_trusted());
}

#[test]
fn an_ipv6_peer_is_attributed_like_any_other() {
    let peer = IpAddress::V6(0x2001_0db8_0000_0000_0000_0000_0000_0001);
    assert_eq!(resolve(&[], Some(peer), &[]), ClientOrigin::Peer(peer));
}
