//! The proxy settings, and the endpoint and the route that they lead to.

use vstd::prelude::*;

use crate::address::{ipv4_of, port_of, PortError};
use crate::text::{text_of, unless_blank};

verus! {

/// The address of the tunnel's server.
pub const SERVER_HOST: &'static str = "5.188.183.132";

/// The port of the tunnel's server.
pub const SERVER_PORT: u16 = 20443;

/// The proxy that the user set: its address as `host:port`, and its secret.
#[derive(Debug)]
pub struct ProxyConfig {
    pub addr: Option<String>,
    pub secret: Option<String>,
}

/// Only one of the proxy's address and secret is set.
#[derive(Clone, Copy, Debug, PartialEq, Eq, Structural)]
pub struct HalfConfigured;

/// Why the tunnel has no endpoint.
#[derive(Clone, Copy, Debug, PartialEq, Eq, Structural)]
pub enum TargetError {
    /// The proxy's address has no colon.
    NoPort,
    /// The proxy's host is no literal IPv4 address.
    BadHost,
    /// The proxy's port is none.
    BadPort(PortError),
}

/// An endpoint of a TCP connection.
#[derive(Clone, Copy, Debug, PartialEq, Eq)]
pub struct Target {
    pub ip: [u8; 4],
    pub port: u16,
}

impl ProxyConfig {
    /// No proxy.
    pub fn new() -> (r: ProxyConfig)
        ensures
            r.addr is None,
            r.secret is None,
    {
        ProxyConfig { addr: None, secret: None }
    }

    /// Whether both the address and the secret are set.
    pub open spec fn complete(self) -> bool {
        self.addr is Some && self.secret is Some
    }
}

/// Sets the proxy; blank text clears what it would set.
pub fn set_proxy(config: &mut ProxyConfig, addr: Option<String>, secret: Option<String>)
    ensures
        text_of(final(config).addr) == unless_blank(text_of(addr)),
        text_of(final(config).secret) == unless_blank(text_of(secret)),
{
    config.addr = crate::text::non_blank(addr);
    config.secret = crate::text::non_blank(secret);
}

/// The text of the proxy's secret, where a proxy is set; nothing where none is.
pub open spec fn secret_of(config: ProxyConfig) -> Result<Option<Seq<char>>, HalfConfigured> {
    match (text_of(config.addr), text_of(config.secret)) {
        (Some(_), Some(secret)) => Ok(Some(secret)),
        (None, None) => Ok(None),
        _ => Err(HalfConfigured),
    }
}

/// The text of the proxy's secret, where a proxy is set; nothing where none is.
pub fn proxy_secret(config: &ProxyConfig) -> (r: Result<Option<String>, HalfConfigured>)
    ensures
        match r {
            Ok(Some(secret)) => config.complete() && text_of(config.secret) == Some(secret@),
            Ok(None) => config.addr is None && config.secret is None,
            Err(_) => config.addr is Some != config.secret is Some,
        },
        match r {
            Ok(secret) => secret_of(*config) == Ok::<Option<Seq<char>>, HalfConfigured>(text_of(secret)),
            Err(e) => secret_of(*config) == Err::<Option<Seq<char>>, HalfConfigured>(e),
        },
{
    match (&config.addr, &config.secret) {
        (Some(_), Some(secret)) => Ok(Some(secret.clone())),
        (None, None) => Ok(None),
        _ => Err(HalfConfigured),
    }
}

/// Where the last colon of a text stands; nothing where it has none.
pub open spec fn last_colon(s: Seq<char>) -> Option<int>
    decreases s.len(),
{
    if s.len() == 0 {
        None
    } else if s.last() == ':' {
        Some(s.len() - 1)
    } else {
        last_colon(s.drop_last())
    }
}

/// The endpoint in a text of the form `host:port`, parted at its last colon. The
/// host is looked at before the port.
pub open spec fn target_of(s: Seq<char>) -> Result<(Seq<u8>, int), TargetError> {
    match last_colon(s) {
        None => Err(TargetError::NoPort),
        Some(at) => match ipv4_of(s.take(at)) {
            None => Err(TargetError::BadHost),
            Some(ip) => match port_of(s.skip(at + 1)) {
                Err(e) => Err(TargetError::BadPort(e)),
                Ok(port) => Ok((ip, port)),
            },
        },
    }
}

/// Where the last colon of a text stands.
fn find_last_colon(s: &[char]) -> (r: Option<usize>)
    ensures
        match r {
            Some(at) => last_colon(s@) == Some(at as int) && at < s@.len(),
            None => last_colon(s@) is None,
        },
{
    let mut i: usize = s.len();
    assert(s@.take(i as int) =~= s@);
    while i > 0
        invariant
            i <= s@.len(),
            last_colon(s@) == last_colon(s@.take(i as int)),
        decreases i,
    {
        i = i - 1;
        assert(s@.take(i + 1).drop_last() =~= s@.take(i as int));
        if s[i] == ':' {
            return Some(i);
        }
    }
    None
}

/// The endpoint in a text of the form `host:port`.
pub fn parse_target(addr: &str) -> (r: Result<Target, TargetError>)
    ensures
        match r {
            Ok(t) => target_of(addr@) == Ok::<(Seq<u8>, int), TargetError>((t.ip@, t.port as int)),
            Err(e) => target_of(addr@) == Err::<(Seq<u8>, int), TargetError>(e),
        },
{
    let chars: Vec<char> = crate::text::chars_of(addr);
    let at: usize = match find_last_colon(chars.as_slice()) {
        Some(v) => v,
        None => return Err(TargetError::NoPort),
    };
    let host: &[char] = vstd::slice::slice_subrange(chars.as_slice(), 0, at);
    assert(host@ =~= addr@.take(at as int));
    let ip: [u8; 4] = match crate::address::parse_ipv4(host) {
        Some(v) => v,
        None => return Err(TargetError::BadHost),
    };
    match crate::address::parse_port(chars.as_slice(), at + 1) {
        Ok(port) => Ok(Target { ip, port }),
        Err(e) => Err(TargetError::BadPort(e)),
    }
}

/// The tunnel's server.
pub fn server_target() -> (r: Target)
    ensures
        ipv4_of(SERVER_HOST@) == Some(r.ip@),
        r.ip@ == seq![5u8, 188u8, 183u8, 132u8],
        r.port == SERVER_PORT,
{
    let ip: [u8; 4] = [5, 188, 183, 132];
    proof {
        reveal_strlit("5.188.183.132");
        assert(ip@ =~= seq![5u8, 188u8, 183u8, 132u8]);
        assert(SERVER_HOST@ =~= crate::address::ipv4_text(ip@));
        crate::address::ipv4_reads_back(ip@);
    }
    Target { ip, port: SERVER_PORT }
}

/// The endpoint that the settings lead to: the proxy where both its address and
/// its secret are set, else the tunnel's server.
pub open spec fn endpoint(config: ProxyConfig) -> Result<(Seq<u8>, int), TargetError> {
    if config.complete() {
        target_of(config.addr->0@)
    } else {
        Ok((seq![5u8, 188u8, 183u8, 132u8], SERVER_PORT as int))
    }
}

/// The endpoint that the tunnel connects to.
pub fn tunnel_target(config: &ProxyConfig) -> (r: Result<Target, TargetError>)
    ensures
        match r {
            Ok(t) => endpoint(*config) == Ok::<(Seq<u8>, int), TargetError>((t.ip@, t.port as int)),
            Err(e) => endpoint(*config) == Err::<(Seq<u8>, int), TargetError>(e),
        },
{
    match &config.addr {
        Some(addr) if config.secret.is_some() => parse_target(addr.as_str()),
        _ => Ok(server_target()),
    }
}

/// The secret of a proxy: a key alone, or a key and the domain that the
/// connection is disguised as.
#[derive(Debug)]
pub enum ProxySecret {
    Simple([u8; 16]),
    FakeTls { key: [u8; 16], domain: String },
}

/// The name of the route that a connection with the given secret takes.
pub open spec fn route_of(secret: Option<ProxySecret>) -> Seq<char> {
    match secret {
        None => "direct"@,
        Some(ProxySecret::Simple(_)) => "obfuscated"@,
        Some(ProxySecret::FakeTls { domain, .. }) => "faketls:"@ + domain@,
    }
}

/// The name of the route that a connection with the given secret takes.
pub fn route_label(secret: &Option<ProxySecret>) -> (r: String)
    ensures
        r@ == route_of(*secret),
{
    match secret {
        None => "direct".to_owned(),
        Some(ProxySecret::Simple(_)) => "obfuscated".to_owned(),
        Some(ProxySecret::FakeTls { domain, .. }) => {
            let mut label: String = "faketls:".to_owned();
            label.append(domain.as_str());
            label
        },
    }
}

/// The key that a connection with the given secret mixes into its own keys.
pub open spec fn key_of(secret: Option<ProxySecret>) -> Option<Seq<u8>> {
    match secret {
        None => None,
        Some(ProxySecret::Simple(key)) => Some(key@),
        Some(ProxySecret::FakeTls { key, .. }) => Some(key@),
    }
}

/// The key that a connection with the given secret mixes into its own keys.
pub fn secret_key(secret: &Option<ProxySecret>) -> (r: Option<[u8; 16]>)
    ensures
        r == match *secret {
            None => None::<[u8; 16]>,
            Some(ProxySecret::Simple(key)) => Some(key),
            Some(ProxySecret::FakeTls { key, .. }) => Some(key),
        },
        key_of(*secret) == match r {
            Some(key) => Some(key@),
            None => None::<Seq<u8>>,
        },
{
    match secret {
        None => None,
        Some(ProxySecret::Simple(key)) => Some(*key),
        Some(ProxySecret::FakeTls { key, .. }) => Some(*key),
    }
}

/// A blank address or a blank secret leaves the tunnel's server as the endpoint,
/// whatever the other one is.
pub proof fn blank_settings_lead_to_server(config: ProxyConfig, addr: Option<Seq<char>>, secret: Option<Seq<char>>)
    requires
        text_of(config.addr) == unless_blank(addr),
        text_of(config.secret) == unless_blank(secret),
        addr matches Some(t) ==> crate::text::blank(t) || (secret matches Some(u) ==> crate::text::blank(u)),
    ensures
        endpoint(config) == Ok::<(Seq<u8>, int), TargetError>(
            (seq![5u8, 188u8, 183u8, 132u8], SERVER_PORT as int),
        ),
{
}

proof fn lemma_last_colon(s: Seq<char>, at: int)
    requires
        0 <= at < s.len(),
        s[at] == ':',
        forall|i: int| at < i < s.len() ==> s[i] != ':',
    ensures
        last_colon(s) == Some(at),
    decreases s.len(),
{
    if at < s.len() - 1 {
        lemma_last_colon(s.drop_last(), at);
    }
}

/// A proxy set as an address in dotted decimal form, a colon and digits up to
/// 65535, with any secret that is not blank, is the endpoint.
pub proof fn proxy_is_the_endpoint(config: ProxyConfig, ip: Seq<u8>, port: Seq<char>)
    requires
        ip.len() == 4,
        port.len() > 0,
        forall|i: int| 0 <= i < port.len() ==> crate::text::digit(#[trigger] port[i]),
        crate::address::decimal(port) <= 65535,
        config.secret is Some,
        text_of(config.addr) == Some(crate::address::ipv4_text(ip) + seq![':'] + port),
    ensures
        endpoint(config) == Ok::<(Seq<u8>, int), TargetError>((ip, crate::address::decimal(port))),
{
    let host = crate::address::ipv4_text(ip);
    let s = host + seq![':'] + port;
    assert forall|i: int| host.len() < i < s.len() implies s[i] != ':' by {
        assert(s[i] == port[i - host.len() - 1]);
    }
    lemma_last_colon(s, host.len() as int);
    assert(s.take(host.len() as int) =~= host);
    assert(s.skip(host.len() as int + 1) =~= port);
    crate::address::ipv4_reads_back(ip);
    crate::address::port_is_decimal(port);
    assert(crate::text::digit(port[0]));
}

/// The colon that parts host and port is the last one; there is none exactly
/// where the text has no colon.
pub proof fn last_colon_is_last(s: Seq<char>)
    ensures
        match last_colon(s) {
            Some(at) => 0 <= at < s.len() && s[at] == ':' && forall|i: int|
                at < i < s.len() ==> #[trigger] s[i] != ':',
            None => forall|i: int| 0 <= i < s.len() ==> #[trigger] s[i] != ':',
        },
    decreases s.len(),
{
    if s.len() > 0 && s.last() != ':' {
        last_colon_is_last(s.drop_last());
        assert forall|i: int| 0 <= i < s.len() - 1 implies s[i] == #[trigger] s.drop_last()[i] by {}
        match last_colon(s.drop_last()) {
            Some(at) => {
                assert forall|i: int| at < i < s.len() implies #[trigger] s[i] != ':' by {
                    if i < s.len() - 1 {
                        assert(s.drop_last()[i] != ':');
                    }
                }
            },
            None => {
                assert forall|i: int| 0 <= i < s.len() implies #[trigger] s[i] != ':' by {
                    if i < s.len() - 1 {
                        assert(s.drop_last()[i] != ':');
                    }
                }
            },
        }
    }
}

/// A proxy's address gives what its host and its port give, the host first; text
/// without a colon has no port.
pub proof fn address_is_host_and_port(host: Seq<char>, port: Seq<char>)
    requires
        forall|i: int| 0 <= i < port.len() ==> #[trigger] port[i] != ':',
    ensures
        target_of(port) == Err::<(Seq<u8>, int), TargetError>(TargetError::NoPort),
        target_of(host.push(':') + port) == match (ipv4_of(host), port_of(port)) {
            (None, _) => Err::<(Seq<u8>, int), TargetError>(TargetError::BadHost),
            (Some(_), Err(e)) => Err(TargetError::BadPort(e)),
            (Some(ip), Ok(n)) => Ok((ip, n)),
        },
{
    let s = host.push(':') + port;
    assert forall|i: int| host.len() < i < s.len() implies s[i] != ':' by {
        assert(s[i] == port[i - host.len() - 1]);
    }
    lemma_last_colon(s, host.len() as int);
    assert(s.take(host.len() as int) =~= host);
    assert(s.skip(host.len() as int + 1) =~= port);
    last_colon_is_last(port);
}

/// A host that is no address in dotted decimal form is refused.
pub proof fn other_hosts_are_refused(host: Seq<char>, port: Seq<char>)
    requires
        forall|i: int| 0 <= i < port.len() ==> #[trigger] port[i] != ':',
        forall|ip: Seq<u8>| ip.len() == 4 ==> #[trigger] crate::address::ipv4_text(ip) != host,
    ensures
        target_of(host.push(':') + port) == Err::<(Seq<u8>, int), TargetError>(TargetError::BadHost),
{
    address_is_host_and_port(host, port);
    if ipv4_of(host) is Some {
        crate::address::ipv4_text_is_unique(host, ipv4_of(host)->0);
    }
}

/// A proxy that was set is the one that is used, whatever its address is, and
/// whatever the lengths of address and secret: where both have a character that is
/// not white space, both are kept as they are, and the endpoint is what the
/// address gives, also where it gives an error.
pub proof fn set_proxy_is_used(config: ProxyConfig, addr: Seq<char>, secret: Seq<char>)
    requires
        text_of(config.addr) == unless_blank(Some(addr)),
        text_of(config.secret) == unless_blank(Some(secret)),
        exists|i: int| 0 <= i < addr.len() && !crate::text::white_space(#[trigger] addr[i]),
        exists|i: int| 0 <= i < secret.len() && !crate::text::white_space(#[trigger] secret[i]),
    ensures
        config.addr matches Some(t) && t@ == addr,
        config.secret matches Some(t) && t@ == secret,
        secret_of(config) == Ok::<Option<Seq<char>>, HalfConfigured>(Some(secret)),
        endpoint(config) == target_of(addr),
{
    crate::text::text_is_kept_or_cleared(addr);
    crate::text::text_is_kept_or_cleared(secret);
}

/// Without an address or without a secret the endpoint is the tunnel's server.
pub proof fn half_a_proxy_is_none(config: ProxyConfig)
    requires
        config.addr is None || config.secret is None,
    ensures
        endpoint(config) matches Ok((ip, port)) && crate::address::ipv4_of(SERVER_HOST@) == Some(ip) && port
            == SERVER_PORT,
        config.addr is None && config.secret is None ==> secret_of(config) == Ok::<
            Option<Seq<char>>,
            HalfConfigured,
        >(None),
        config.addr is Some || config.secret is Some ==> secret_of(config) is Err,
{
    let ip = seq![5u8, 188u8, 183u8, 132u8];
    reveal_strlit("5.188.183.132");
    assert(SERVER_HOST@ =~= crate::address::ipv4_text(ip));
    crate::address::ipv4_reads_back(ip);
}

/// The name of a route tells whether there is a proxy and of which sort; that of
/// a disguised one ends in the whole domain. Every proxy has its whole key mixed
/// in, and without one there is none.
pub proof fn routes_are_told_apart(key: [u8; 16], domain: String)
    ensures
        route_of(None) == "direct"@,
        route_of(Some(ProxySecret::Simple(key))) == "obfuscated"@,
        ({
            let route = route_of(Some(ProxySecret::FakeTls { key, domain }));
            &&& route.len() == domain@.len() + 8
            &&& route.take(8) == "faketls:"@
            &&& route.skip(8) == domain@
        }),
        key_of(None) is None,
        key_of(Some(ProxySecret::Simple(key))) == Some(key@),
        key_of(Some(ProxySecret::FakeTls { key, domain })) == Some(key@),
{
    reveal_strlit("faketls:");
    let route = route_of(Some(ProxySecret::FakeTls { key, domain }));
    assert(route.take(8) =~= "faketls:"@);
    assert(route.skip(8) =~= domain@);
}

} // verus!
