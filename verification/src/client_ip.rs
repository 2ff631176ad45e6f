//! Who the request came from.
//!
//! Forwarding headers are client-authored strings, so they are believed only
//! when the **direct peer** is a declared trusted proxy. Behind one, the client
//! is the **rightmost** forwarded hop that is not itself a trusted proxy: a
//! proxy appends to the right, while a caller can only prepend.
use vstd::prelude::*;

verus! {

/// An IP address as plain values: an IPv4 address as its 32-bit number, an
/// IPv6 address as its 128-bit number.
#[derive(Clone, Copy, Debug, PartialEq, Eq, Hash, Structural)]
pub enum IpAddress {
    /// IPv4, big-endian octets as one `u32`.
    V4(u32),
    /// IPv6, big-endian segments as one `u128`.
    V6(u128),
}

/// Who a request is attributed to, and on what evidence.
#[derive(Clone, Copy, Debug, PartialEq, Eq, Hash, Structural)]
pub enum ClientOrigin {
    /// The direct transport peer, which is not a configured trusted proxy.
    Peer(IpAddress),
    /// A forwarded hop, admitted because the direct peer is a trusted proxy.
    Forwarded(IpAddress),
    /// The peer is a trusted proxy but forwarded no usable client address.
    TrustedProxy(IpAddress),
    /// No peer address at all.
    Unknown,
}

/// The rightmost hop that is present and not a trusted proxy.
pub open spec fn rightmost_untrusted(hops: Seq<Option<IpAddress>>, trusted: Seq<IpAddress>) -> Option<IpAddress>
    decreases hops.len(),
{
    if hops.len() == 0 {
        None
    } else {
        match hops.last() {
            Some(ip) => if !trusted.contains(ip) {
                Some(ip)
            } else {
                rightmost_untrusted(hops.drop_last(), trusted)
            },
            None => rightmost_untrusted(hops.drop_last(), trusted),
        }
    }
}

/// The leftmost hop that is present.
pub open spec fn outermost(hops: Seq<Option<IpAddress>>) -> Option<IpAddress>
    decreases hops.len(),
{
    if hops.len() == 0 {
        None
    } else {
        match hops[0] {
            Some(ip) => Some(ip),
            None => outermost(hops.drop_first()),
        }
    }
}

/// The resolution: no peer is `Unknown`; an untrusted peer is the client;
/// behind a trusted peer, the rightmost untrusted hop, then `X-Real-IP` when
/// it is not a proxy, then the outermost recorded hop, then the proxy itself.
pub open spec fn resolve_spec(
    hops: Seq<Option<IpAddress>>,
    real_ip: Option<IpAddress>,
    peer: Option<IpAddress>,
    trusted: Seq<IpAddress>,
) -> ClientOrigin {
    match peer {
        None => ClientOrigin::Unknown,
        Some(p) => if !trusted.contains(p) {
            ClientOrigin::Peer(p)
        } else {
            match rightmost_untrusted(hops, trusted) {
                Some(c) => ClientOrigin::Forwarded(c),
                None => match real_ip {
                    Some(ip) if !trusted.contains(ip) => ClientOrigin::Forwarded(ip),
                    _ => match outermost(hops) {
                        Some(o) => ClientOrigin::Forwarded(o),
                        None => ClientOrigin::TrustedProxy(p),
                    },
                },
            }
        },
    }
}

fn is_trusted(trusted: &[IpAddress], ip: IpAddress) -> (r: bool)
    ensures
        r == trusted@.contains(ip),
{
    let mut i: usize = 0;
    while i < trusted.len()
        invariant
            i <= trusted.len(),
            forall|j: int| 0 <= j < i ==> trusted@[j] != ip,
        decreases trusted.len() - i,
    {
        if trusted[i] == ip {
            return true;
        }
        i = i + 1;
    }
    false
}

impl ClientOrigin {
    /// Resolve the client from plain values: `hops` is the
    /// `X-Forwarded-For` chain split on `,`, each entry parsed (`None` when
    /// it is not an address, or when the header is absent); `real_ip` is a
    /// parsed `X-Real-IP`; `peer` is the transport peer.
    #[verifier::loop_isolation(false)]
    pub fn resolve(
        hops: &[Option<IpAddress>],
        real_ip: Option<IpAddress>,
        peer: Option<IpAddress>,
        trusted_proxies: &[IpAddress],
    ) -> (r: ClientOrigin)
        ensures
            r == resolve_spec(hops@, real_ip, peer, trusted_proxies@),
    {
        let p = match peer {
            None => {
                return ClientOrigin::Unknown;
            },
            Some(p) => p,
        };
        if !is_trusted(trusted_proxies, p) {
            return ClientOrigin::Peer(p);
        }
        let mut k: usize = hops.len();
        assert(hops@.take(k as int) == hops@);
        while k > 0
            invariant
                k <= hops.len(),
                rightmost_untrusted(hops@, trusted_proxies@) == rightmost_untrusted(
                    hops@.take(k as int),
                    trusted_proxies@,
                ),
            decreases k,
        {
            assert(hops@.take(k as int).drop_last() == hops@.take(k - 1));
            match hops[k - 1] {
                Some(ip) => {
                    if !is_trusted(trusted_proxies, ip) {
                        return ClientOrigin::Forwarded(ip);
                    }
                },
                None => {},
            }
            k = k - 1;
        }
        match real_ip {
            Some(ip) => {
                if !is_trusted(trusted_proxies, ip) {
                    return ClientOrigin::Forwarded(ip);
                }
            },
            None => {},
        }
        let mut j: usize = 0;
        assert(hops@.skip(0) == hops@);
        while j < hops.len()
            invariant
                j <= hops.len(),
                outermost(hops@) == outermost(hops@.skip(j as int)),
            decreases hops.len() - j,
        {
            assert(hops@.skip(j as int).drop_first() == hops@.skip(j + 1));
            match hops[j] {
                Some(ip) => {
                    return ClientOrigin::Forwarded(ip);
                },
                None => {},
            }
            j = j + 1;
        }
        ClientOrigin::TrustedProxy(p)
    }

    /// Whether the direct peer is declared infrastructure.
    pub fn peer_is_trusted(self) -> (r: bool)
        ensures
            r == (self is Forwarded || self is TrustedProxy),
    {
        match self {
            ClientOrigin::Forwarded(_) | ClientOrigin::TrustedProxy(_) => true,
            _ => false,
        }
    }
}

/// Best-effort client IP for the current request.
#[derive(Clone, Copy, Debug, PartialEq, Eq, Hash, Structural)]
pub struct ClientIp {
    /// The resolved address; `0.0.0.0` only when there was no peer at all.
    pub ip: IpAddress,
    /// `true` when a trusted proxy's forwarding header supplied the address.
    pub forwarded: bool,
}

/// The extractor's view of an origin.
pub open spec fn client_ip_of(origin: ClientOrigin) -> ClientIp {
    match origin {
        ClientOrigin::Forwarded(ip) => ClientIp { ip, forwarded: true },
        ClientOrigin::Peer(ip) => ClientIp { ip, forwarded: false },
        ClientOrigin::TrustedProxy(ip) => ClientIp { ip, forwarded: false },
        ClientOrigin::Unknown => ClientIp { ip: IpAddress::V4(0), forwarded: false },
    }
}

impl ClientIp {
    /// Last-resort default: `0.0.0.0`, `forwarded = false`.
    pub fn unknown() -> (r: Self)
        ensures
            r == (ClientIp { ip: IpAddress::V4(0), forwarded: false }),
    {
        ClientIp { ip: IpAddress::V4(0), forwarded: false }
    }
}

impl From<ClientOrigin> for ClientIp {
    fn from(origin: ClientOrigin) -> (r: Self) {
        match origin {
            ClientOrigin::Forwarded(ip) => ClientIp { ip, forwarded: true },
            ClientOrigin::Peer(ip) | ClientOrigin::TrustedProxy(ip) => ClientIp { ip, forwarded: false },
            ClientOrigin::Unknown => ClientIp::unknown(),
        }
    }
}

impl vstd::std_specs::convert::FromSpecImpl<ClientOrigin> for ClientIp {
    open spec fn obeys_from_spec() -> bool {
        true
    }

    open spec fn from_spec(origin: ClientOrigin) -> Self {
        client_ip_of(origin)
    }
}

// ── Laws ───────────────────────────────────────────────────────────────────

proof fn lemma_rightmost_prefix(pre: Seq<Option<IpAddress>>, hops: Seq<Option<IpAddress>>, trusted: Seq<IpAddress>)
    requires
        rightmost_untrusted(hops, trusted) is Some,
    ensures
        rightmost_untrusted(pre + hops, trusted) == rightmost_untrusted(hops, trusted),
    decreases hops.len(),
{
    assert(hops.len() > 0);
    assert((pre + hops).drop_last() == pre + hops.drop_last());
    assert((pre + hops).last() == hops.last());
    match hops.last() {
        Some(ip) => {
            if trusted.contains(ip) {
                lemma_rightmost_prefix(pre, hops.drop_last(), trusted);
            }
        },
        None => {
            lemma_rightmost_prefix(pre, hops.drop_last(), trusted);
        },
    }
}

/// A hop a caller prepends cannot change who the request is attributed to:
/// once the chain already holds a hop that is not a trusted proxy, any prefix
/// in front of it leaves the resolution as it was.
pub proof fn law_prepended_hops_are_ignored(
    pre: Seq<Option<IpAddress>>,
    hops: Seq<Option<IpAddress>>,
    real_ip: Option<IpAddress>,
    peer: Option<IpAddress>,
    trusted: Seq<IpAddress>,
)
    requires
        rightmost_untrusted(hops, trusted) is Some,
    ensures
        resolve_spec(pre + hops, real_ip, peer, trusted) == resolve_spec(hops, real_ip, peer, trusted),
{
    lemma_rightmost_prefix(pre, hops, trusted);
}

/// An untrusted peer is the client whatever the forwarding headers say, and
/// no peer at all is `Unknown`.
pub proof fn law_headers_need_a_trusted_peer(
    hops: Seq<Option<IpAddress>>,
    real_ip: Option<IpAddress>,
    peer: IpAddress,
    trusted: Seq<IpAddress>,
)
    requires
        !trusted.contains(peer),
    ensures
        resolve_spec(hops, real_ip, Some(peer), trusted) == ClientOrigin::Peer(peer),
        resolve_spec(hops, real_ip, None, trusted) == ClientOrigin::Unknown,
{
}

proof fn lemma_rightmost_is_a_hop(hops: Seq<Option<IpAddress>>, trusted: Seq<IpAddress>)
    ensures
        rightmost_untrusted(hops, trusted) matches Some(ip) ==> hops.contains(Some(ip)) && !trusted.contains(ip),
    decreases hops.len(),
{
    if hops.len() > 0 {
        lemma_rightmost_is_a_hop(hops.drop_last(), trusted);
        if let Some(ip) = rightmost_untrusted(hops.drop_last(), trusted) {
            let k = choose|k: int| 0 <= k < hops.drop_last().len() && hops.drop_last()[k] == Some(ip);
            assert(hops[k] == Some(ip));
        }
        assert(hops[hops.len() - 1] == hops.last());
    }
}

proof fn lemma_outermost_is_a_hop(hops: Seq<Option<IpAddress>>)
    ensures
        outermost(hops) matches Some(ip) ==> hops.contains(Some(ip)),
    decreases hops.len(),
{
    if hops.len() > 0 {
        lemma_outermost_is_a_hop(hops.drop_first());
        if let Some(ip) = outermost(hops.drop_first()) {
            let k = choose|k: int| 0 <= k < hops.drop_first().len() && hops.drop_first()[k] == Some(ip);
            assert(hops[k + 1] == Some(ip));
        }
        assert(hops[0] == hops[0]);
    }
}

/// A forwarded address is always one the headers carried, and it is only ever
/// reported behind a trusted peer: the resolution never invents an address.
pub proof fn law_forwarded_addresses_come_from_the_headers(
    hops: Seq<Option<IpAddress>>,
    real_ip: Option<IpAddress>,
    peer: Option<IpAddress>,
    trusted: Seq<IpAddress>,
)
    ensures
        resolve_spec(hops, real_ip, peer, trusted) matches ClientOrigin::Forwarded(ip) ==> (hops.contains(Some(ip)) || real_ip == Some(ip)) && (peer matches Some(p) && trusted.contains(p)),
        resolve_spec(hops, real_ip, peer, trusted) matches ClientOrigin::Peer(ip) ==> peer == Some(ip),
        resolve_spec(hops, real_ip, peer, trusted) matches ClientOrigin::TrustedProxy(ip) ==> peer == Some(ip) && trusted.contains(ip),
{
    lemma_rightmost_is_a_hop(hops, trusted);
    lemma_outermost_is_a_hop(hops);
}

/// `forwarded` is set exactly when the origin is a forwarded hop.
pub proof fn law_forwarded_flag_tracks_the_variant(origin: ClientOrigin)
    ensures
        client_ip_of(origin).forwarded <==> origin is Forwarded,
{
}

proof fn lemma_no_untrusted_hop(hops: Seq<Option<IpAddress>>, trusted: Seq<IpAddress>)
    requires
        rightmost_untrusted(hops, trusted) is None,
    ensures
        forall|i: int| 0 <= i < hops.len() ==> (#[trigger] hops[i] matches Some(h) ==> trusted.contains(h)),
    decreases hops.len(),
{
    if hops.len() > 0 {
        lemma_no_untrusted_hop(hops.drop_last(), trusted);
        assert forall|i: int| 0 <= i < hops.len() implies (#[trigger] hops[i] matches Some(h) ==> trusted.contains(h)) by {
            if i < hops.len() - 1 {
                assert(hops[i] == hops.drop_last()[i]);
            }
        }
    }
}

proof fn lemma_outermost_is_first(hops: Seq<Option<IpAddress>>)
    ensures
        outermost(hops) matches Some(o) ==> exists|k: int|
            0 <= k < hops.len() && #[trigger] hops[k] == Some(o) && (forall|j: int| 0 <= j < k ==> #[trigger] hops[j] is None),
    decreases hops.len(),
{
    if hops.len() > 0 {
        lemma_outermost_is_first(hops.drop_first());
        if hops[0] is None {
            if let Some(o) = outermost(hops.drop_first()) {
                let k = choose|k: int|
                    0 <= k < hops.drop_first().len() && #[trigger] hops.drop_first()[k] == Some(o) && (forall|j: int|
                        0 <= j < k ==> #[trigger] hops.drop_first()[j] is None);
                assert(hops[k + 1] == Some(o));
                assert forall|j: int| 0 <= j < k + 1 implies #[trigger] hops[j] is None by {
                    if j > 0 {
                        assert(hops[j] == hops.drop_first()[j - 1]);
                    }
                }
            }
        } else {
            assert(hops[0] == hops[0]);
        }
    }
}

/// Behind a trusted peer a trusted proxy's own address is reported as the
/// forwarded client only when nothing better was recorded: every hop the
/// chain carries is a trusted proxy and it is the outermost of them. An
/// `X-Real-IP` naming a trusted proxy is never taken for the client.
pub proof fn law_a_trusted_proxy_is_forwarded_only_as_the_outermost_hop(
    hops: Seq<Option<IpAddress>>,
    real_ip: Option<IpAddress>,
    peer: Option<IpAddress>,
    trusted: Seq<IpAddress>,
    ip: IpAddress,
)
    requires
        resolve_spec(hops, real_ip, peer, trusted) == ClientOrigin::Forwarded(ip),
        trusted.contains(ip),
    ensures
        forall|i: int| 0 <= i < hops.len() ==> (#[trigger] hops[i] matches Some(h) ==> trusted.contains(h)),
        exists|k: int|
            0 <= k < hops.len() && #[trigger] hops[k] == Some(ip) && (forall|j: int| 0 <= j < k ==> #[trigger] hops[j] is None),
{
    lemma_rightmost_is_a_hop(hops, trusted);
    lemma_outermost_is_first(hops);
    lemma_no_untrusted_hop(hops, trusted);
}

proof fn lemma_rightmost_at(hops: Seq<Option<IpAddress>>, trusted: Seq<IpAddress>, k: int, h: IpAddress)
    requires
        0 <= k < hops.len(),
        hops[k] == Some(h),
        !trusted.contains(h),
        forall|j: int| k < j < hops.len() ==> (#[trigger] hops[j] matches Some(x) ==> trusted.contains(x)),
    ensures
        rightmost_untrusted(hops, trusted) == Some(h),
    decreases hops.len(),
{
    if k < hops.len() - 1 {
        assert(hops.last() == hops[hops.len() - 1]);
        assert forall|j: int| k < j < hops.drop_last().len() implies (#[trigger] hops.drop_last()[j] matches Some(x)
            ==> trusted.contains(x)) by {
            assert(hops.drop_last()[j] == hops[j]);
        }
        lemma_rightmost_at(hops.drop_last(), trusted, k, h);
    }
}

proof fn lemma_all_trusted(hops: Seq<Option<IpAddress>>, trusted: Seq<IpAddress>)
    requires
        forall|i: int| 0 <= i < hops.len() ==> (#[trigger] hops[i] matches Some(h) ==> trusted.contains(h)),
    ensures
        rightmost_untrusted(hops, trusted) is None,
    decreases hops.len(),
{
    if hops.len() > 0 {
        assert(hops.last() == hops[hops.len() - 1]);
        assert forall|i: int| 0 <= i < hops.drop_last().len() implies (#[trigger] hops.drop_last()[i] matches Some(h)
            ==> trusted.contains(h)) by {
            assert(hops.drop_last()[i] == hops[i]);
        }
        lemma_all_trusted(hops.drop_last(), trusted);
    }
}

proof fn lemma_outermost_at(hops: Seq<Option<IpAddress>>, k: int)
    requires
        0 <= k <= hops.len(),
        forall|j: int| 0 <= j < k ==> #[trigger] hops[j] is None,
    ensures
        k < hops.len() && hops[k] is Some ==> outermost(hops) == hops[k],
        k == hops.len() ==> outermost(hops) is None,
    decreases k,
{
    if k > 0 {
        assert(hops[0] is None);
        assert forall|j: int| 0 <= j < k - 1 implies #[trigger] hops.drop_first()[j] is None by {
            assert(hops.drop_first()[j] == hops[j + 1]);
        }
        lemma_outermost_at(hops.drop_first(), k - 1);
        if k < hops.len() {
            assert(hops.drop_first()[k - 1] == hops[k]);
        }
    }
}

/// Behind a trusted peer the client is the rightmost recorded hop that is
/// not a trusted proxy. When every recorded hop is a trusted proxy, an
/// `X-Real-IP` that is not one is the client; failing that, the outermost
/// recorded hop; and with no hop recorded at all, the proxy itself.
pub proof fn law_behind_a_trusted_peer_the_rightmost_untrusted_hop_is_the_client(
    hops: Seq<Option<IpAddress>>,
    real_ip: Option<IpAddress>,
    peer: IpAddress,
    trusted: Seq<IpAddress>,
    k: int,
    h: IpAddress,
)
    requires
        trusted.contains(peer),
    ensures
        0 <= k < hops.len() && hops[k] == Some(h) && !trusted.contains(h) && (forall|j: int|
            k < j < hops.len() ==> (#[trigger] hops[j] matches Some(x) ==> trusted.contains(x))) ==> resolve_spec(
            hops,
            real_ip,
            Some(peer),
            trusted,
        ) == ClientOrigin::Forwarded(h),
        (forall|i: int| 0 <= i < hops.len() ==> (#[trigger] hops[i] matches Some(x) ==> trusted.contains(x)))
            && real_ip == Some(h) && !trusted.contains(h) ==> resolve_spec(hops, real_ip, Some(peer), trusted)
            == ClientOrigin::Forwarded(h),
        (forall|i: int| 0 <= i < hops.len() ==> (#[trigger] hops[i] matches Some(x) ==> trusted.contains(x)))
            && (real_ip matches Some(r) ==> trusted.contains(r)) && 0 <= k < hops.len() && hops[k] == Some(h)
            && (forall|j: int| 0 <= j < k ==> #[trigger] hops[j] is None) ==> resolve_spec(
            hops,
            real_ip,
            Some(peer),
            trusted,
        ) == ClientOrigin::Forwarded(h),
        (forall|i: int| 0 <= i < hops.len() ==> #[trigger] hops[i] is None) && (real_ip matches Some(r)
            ==> trusted.contains(r)) ==> resolve_spec(hops, real_ip, Some(peer), trusted) == ClientOrigin::TrustedProxy(
            peer,
        ),
{
    if 0 <= k < hops.len() && hops[k] == Some(h) && !trusted.contains(h) && (forall|j: int|
        k < j < hops.len() ==> (#[trigger] hops[j] matches Some(x) ==> trusted.contains(x))) {
        lemma_rightmost_at(hops, trusted, k, h);
    }
    if forall|i: int| 0 <= i < hops.len() ==> (#[trigger] hops[i] matches Some(x) ==> trusted.contains(x)) {
        lemma_all_trusted(hops, trusted);
    }
    if 0 <= k < hops.len() && (forall|j: int| 0 <= j < k ==> #[trigger] hops[j] is None) {
        lemma_outermost_at(hops, k);
    }
    if forall|i: int| 0 <= i < hops.len() ==> #[trigger] hops[i] is None {
        lemma_outermost_at(hops, hops.len() as int);
        lemma_all_trusted(hops, trusted);
    }
}

} // verus!
