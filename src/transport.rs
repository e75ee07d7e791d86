//! Transport selection: the SIP transports, how a server address given by
//! the user becomes a SIP URI, the WebSocket URL, the routing probe
//! target, and the keepalive cap of connection-oriented transports.
use vstd::prelude::*;
use crate::text::{chars_of, push_chars, push_decimal, push_str, string_of, starts_with, decimal};

verus! {

/// SIP transport protocols.
#[derive(Debug, Clone, Copy, PartialEq, Eq, Structural)]
pub enum Protocol {
    Udp,
    Tcp,
    Tls,
    TlsSctp,
    Sctp,
    Ws,
    Wss,
}

pub open spec fn protocol_name(p: Protocol) -> Seq<char> {
    match p {
        Protocol::Udp => "UDP"@,
        Protocol::Tcp => "TCP"@,
        Protocol::Tls => "TLS"@,
        Protocol::TlsSctp => "TLS-SCTP"@,
        Protocol::Sctp => "SCTP"@,
        Protocol::Ws => "WS"@,
        Protocol::Wss => "WSS"@,
    }
}

/// TCP, TLS and WebSocket transports hold a connection open.
pub open spec fn connection_oriented(p: Protocol) -> bool {
    p != Protocol::Udp && p != Protocol::Sctp
}

impl Protocol {
    pub fn as_str(&self) -> (r: &'static str)
        ensures
            r@ == protocol_name(*self),
    {
        match self {
            Protocol::Udp => "UDP",
            Protocol::Tcp => "TCP",
            Protocol::Tls => "TLS",
            Protocol::TlsSctp => "TLS-SCTP",
            Protocol::Sctp => "SCTP",
            Protocol::Ws => "WS",
            Protocol::Wss => "WSS",
        }
    }

    /// TCP, TLS and WebSocket transports hold a connection open.
    pub fn is_connection_oriented(&self) -> (r: bool)
        ensures
            r == connection_oriented(*self),
    {
        match self {
            Protocol::Udp | Protocol::Sctp => false,
            _ => true,
        }
    }

    /// The refresh cap that keeps a connection alive ahead of server idle
    /// timers: 25 s on connection-oriented transports, none on datagrams.
    pub fn max_keepalive(&self) -> (r: Option<u64>)
        ensures
            connection_oriented(*self) ==> r == Some(25u64),
            !connection_oriented(*self) ==> r is None,
    {
        if self.is_connection_oriented() {
            Some(25)
        } else {
            None
        }
    }
}

/// The transport of a SIP URI: its `transport` parameter when present,
/// else TLS for a `sips:` URI, else UDP.
pub fn extract_protocol_from_uri(transport_param: Option<Protocol>, is_sips: bool) -> (r: Protocol)
    ensures
        transport_param matches Some(p) ==> r == p,
        transport_param is None && is_sips ==> r == Protocol::Tls,
        transport_param is None && !is_sips ==> r == Protocol::Udp,
{
    match transport_param {
        Some(p) => p,
        None => if is_sips {
            Protocol::Tls
        } else {
            Protocol::Udp
        },
    }
}

/// A server address as the SIP stack takes it, and the WebSocket path to
/// upgrade on (for `ws://` and `wss://` servers).
#[derive(Debug, Clone, PartialEq, Eq)]
pub struct ServerTarget {
    pub uri: String,
    pub ws_path: Option<String>,
}

/// Index of the first `/` in `s`, or its length.
pub open spec fn slash_at(s: Seq<char>) -> nat
    decreases s.len(),
{
    if s.len() == 0 {
        0
    } else if s[0] == '/' {
        0
    } else {
        1 + slash_at(s.drop_first())
    }
}

/// `ws://host[:port][/path]` and `wss://...` become
/// `sip:host[:port];transport=ws|wss` with the path kept (`/` when none);
/// a `sip:` or `sips:` URI is kept; anything else gets `sip:` in front.
pub open spec fn server_target(server: Seq<char>) -> (Seq<char>, Option<Seq<char>>) {
    if starts_with(server, "ws://"@) || starts_with(server, "wss://"@) {
        let wss = starts_with(server, "wss://"@);
        let rest = server.subrange(if wss { 6 } else { 5 }, server.len() as int);
        let k = slash_at(rest) as int;
        let authority = rest.subrange(0, k);
        let path = if k < rest.len() {
            rest.subrange(k, rest.len() as int)
        } else {
            "/"@
        };
        (
            "sip:"@ + authority + (if wss {
                ";transport=wss"@
            } else {
                ";transport=ws"@
            }),
            Some(path),
        )
    } else if starts_with(server, "sip:"@) || starts_with(server, "sips:"@) {
        (server, None)
    } else {
        ("sip:"@ + server, None)
    }
}

proof fn lemma_slash_at(s: Seq<char>, k: int)
    requires
        0 <= k <= s.len(),
        k < s.len() ==> s[k] == '/',
        forall|j: int| 0 <= j < k ==> s[j] != '/',
    ensures
        slash_at(s) == k,
    decreases k,
{
    if k > 0 {
        assert forall|j: int| 0 <= j < k - 1 implies s.drop_first()[j] != '/' by {
            assert(s.drop_first()[j] == s[j + 1]);
        }
        lemma_slash_at(s.drop_first(), k - 1);
    }
}

fn copy_range(v: &Vec<char>, from: usize, to: usize) -> (r: Vec<char>)
    requires
        from <= to <= v@.len(),
    ensures
        r@ == v@.subrange(from as int, to as int),
{
    let mut r: Vec<char> = Vec::new();
    let mut i = from;
    while i < to
        invariant
            from <= i <= to <= v@.len(),
            r@ == v@.subrange(from as int, i as int),
        decreases to - i,
    {
        r.push(v[i]);
        assert(r@ =~= v@.subrange(from as int, i + 1));
        i = i + 1;
    }
    r
}

/// Turn the server address a user typed into a SIP URI (and WebSocket path).
pub fn normalize_server(server: &str) -> (r: ServerTarget)
    ensures
        (r.uri@, match r.ws_path {
            Some(p) => Some(p@),
            None => None,
        }) == server_target(server@),
{
    let s = chars_of(server);
    let ws = crate::text::has_prefix(&s, "ws://");
    let wss = crate::text::has_prefix(&s, "wss://");
    if ws || wss {
        proof {
            reveal_strlit("ws://");
            reveal_strlit("wss://");
        }
        let skip: usize = if wss {
            6
        } else {
            5
        };
        let n = s.len();
        let ghost rest = s@.subrange(skip as int, n as int);
        let mut k = skip;
        while k < n && s[k] != '/'
            invariant
                skip <= k <= n,
                n == s@.len(),
                forall|j: int| skip <= j < k ==> s@[j] != '/',
            decreases n - k,
        {
            k = k + 1;
        }
        proof {
            assert forall|j: int| 0 <= j < k - skip implies rest[j] != '/' by {
                assert(rest[j] == s@[skip + j]);
            }
            if k < n {
                assert(rest[k - skip] == s@[k as int]);
            }
            lemma_slash_at(rest, k - skip);
        }
        let authority = copy_range(&s, skip, k);
        assert(authority@ =~= rest.subrange(0, k - skip));
        let path = if k < n {
            let p = copy_range(&s, k, n);
            assert(p@ =~= rest.subrange(k - skip, rest.len() as int));
            string_of(&p)
        } else {
            "/".to_owned()
        };
        let mut u: Vec<char> = Vec::new();
        push_str(&mut u, "sip:");
        push_chars(&mut u, &authority);
        if wss {
            push_str(&mut u, ";transport=wss");
        } else {
            push_str(&mut u, ";transport=ws");
        }
        ServerTarget { uri: string_of(&u), ws_path: Some(path) }
    } else if crate::text::has_prefix(&s, "sip:") || crate::text::has_prefix(&s, "sips:") {
        ServerTarget { uri: server.to_owned(), ws_path: None }
    } else {
        let mut u: Vec<char> = Vec::new();
        push_str(&mut u, "sip:");
        push_chars(&mut u, &s);
        ServerTarget { uri: string_of(&u), ws_path: None }
    }
}

/// An outbound proxy given without a scheme gets `sip:` in front.
pub open spec fn proxy_uri(proxy: Seq<char>) -> Seq<char> {
    if starts_with(proxy, "sip:"@) || starts_with(proxy, "sips:"@) {
        proxy
    } else {
        "sip:"@ + proxy
    }
}

pub fn normalize_proxy(proxy: &str) -> (r: String)
    ensures
        r@ == proxy_uri(proxy@),
{
    let s = chars_of(proxy);
    if crate::text::has_prefix(&s, "sip:") || crate::text::has_prefix(&s, "sips:") {
        proxy.to_owned()
    } else {
        let mut u: Vec<char> = Vec::new();
        push_str(&mut u, "sip:");
        push_chars(&mut u, &s);
        string_of(&u)
    }
}

/// The WebSocket URL: `ws` or `wss`, host, port (5060 when none), and
/// the path (`/` when none, a leading `/` added when missing).
pub open spec fn websocket_url_of(secure: bool, host: Seq<char>, port: Option<u16>, path: Option<Seq<char>>) -> Seq<char> {
    let p = match path {
        Some(x) => x,
        None => "/"@,
    };
    (if secure {
        "wss://"@
    } else {
        "ws://"@
    }) + host + seq![':'] + decimal(
        match port {
            Some(v) => v as nat,
            None => 5060,
        },
    ) + (if starts_with(p, "/"@) {
        p
    } else {
        "/"@ + p
    })
}

pub fn websocket_url(secure: bool, host: &str, port: Option<u16>, path: Option<&str>) -> (r: String)
    ensures
        r@ == websocket_url_of(
            secure,
            host@,
            port,
            match path {
                Some(x) => Some(x@),
                None => None,
            },
        ),
{
    let mut u: Vec<char> = Vec::new();
    if secure {
        push_str(&mut u, "wss://");
    } else {
        push_str(&mut u, "ws://");
    }
    push_str(&mut u, host);
    u.push(':');
    let pn: u16 = match port {
        Some(v) => v,
        None => 5060,
    };
    push_decimal(&mut u, pn as u32);
    let p = match path {
        Some(x) => chars_of(x),
        None => chars_of("/"),
    };
    if !crate::text::has_prefix(&p, "/") {
        u.push('/');
        proof {
            reveal_strlit("/");
        }
    }
    push_chars(&mut u, &p);
    let r = string_of(&u);
    assert(r@ =~= websocket_url_of(
        secure,
        host@,
        port,
        match path {
            Some(x) => Some(x@),
            None => None,
        },
    ));
    r
}

/// The address the routing probe connects to: the server as given when it
/// has a port (holds a `:`), else with `:5060` appended.
pub open spec fn probe_target_of(server: Seq<char>) -> Seq<char> {
    if exists|i: int| 0 <= i < server.len() && server[i] == ':' {
        server
    } else {
        server + ":5060"@
    }
}

pub fn probe_target(server: &str) -> (r: String)
    ensures
        r@ == probe_target_of(server@),
{
    let s = chars_of(server);
    let mut i: usize = 0;
    while i < s.len()
        invariant
            i <= s@.len(),
            s@ == server@,
            forall|j: int| 0 <= j < i ==> s@[j] != ':',
        decreases s@.len() - i,
    {
        if s[i] == ':' {
            return server.to_owned();
        }
        i = i + 1;
    }
    let mut u = s;
    push_str(&mut u, ":5060");
    string_of(&u)
}

/// How the transport layer installs the connection to the server.
#[derive(Debug, Clone, Copy, PartialEq, Eq, Structural)]
pub enum ConnectionSetup {
    /// A UDP socket installed as a listener.
    Datagram,
    /// An outbound stream connection, plus a listener stub whose external
    /// address is the connection's local endpoint (for Via and Contact).
    Stream,
}

/// Why no connection can be set up.
#[derive(Debug, Clone, Copy, PartialEq, Eq, Structural)]
pub enum TransportError {
    Unsupported(Protocol),
}

/// UDP is a listener; TCP, TLS and WebSocket transports are streams; SCTP
/// is not supported.
pub fn connection_setup(p: Protocol) -> (r: Result<ConnectionSetup, TransportError>)
    ensures
        p == Protocol::Udp ==> r == Ok::<ConnectionSetup, TransportError>(ConnectionSetup::Datagram),
        p == Protocol::Sctp ==> r == Err::<ConnectionSetup, TransportError>(TransportError::Unsupported(p)),
        connection_oriented(p) ==> r == Ok::<ConnectionSetup, TransportError>(ConnectionSetup::Stream),
{
    match p {
        Protocol::Udp => Ok(ConnectionSetup::Datagram),
        Protocol::Sctp => Err(TransportError::Unsupported(p)),
        _ => Ok(ConnectionSetup::Stream),
    }
}

/// A host name is resolved only for stream transports, and only when it is
/// not already an IP literal.
pub fn needs_dns(p: Protocol, host_is_ip: bool) -> (r: bool)
    ensures
        r == (connection_oriented(p) && !host_is_ip),
{
    p.is_connection_oriented() && !host_is_ip
}

/// One network interface as the fallback address choice sees it.
#[derive(Debug, Clone, Copy, PartialEq, Eq, Structural)]
pub struct Interface {
    pub is_loopback: bool,
    /// The IPv4 address, as its big-endian `u32`.
    pub ipv4: Option<u32>,
}

/// The first interface that is not loopback and has an IPv4 address.
pub open spec fn usable(i: Interface) -> bool {
    !i.is_loopback && i.ipv4 is Some
}

/// The local address when the routing probe fails: the IPv4 address of the
/// first non-loopback interface, if any.
pub fn first_non_loopback_ipv4(ifaces: &Vec<Interface>) -> (r: Option<u32>)
    ensures
        r is None <==> forall|j: int| 0 <= j < ifaces@.len() ==> !usable(#[trigger] ifaces@[j]),
        r matches Some(a) ==> exists|k: int|
            0 <= k < ifaces@.len() && usable(#[trigger] ifaces@[k]) && ifaces@[k].ipv4 == Some(a)
                && forall|j: int| 0 <= j < k ==> !usable(#[trigger] ifaces@[j]),
{
    let mut i: usize = 0;
    while i < ifaces.len()
        invariant
            i <= ifaces@.len(),
            forall|j: int| 0 <= j < i ==> !usable(#[trigger] ifaces@[j]),
        decreases ifaces@.len() - i,
    {
        let f = ifaces[i];
        if !f.is_loopback {
            match f.ipv4 {
                Some(a) => {
                    assert(usable(ifaces@[i as int]));
                    return Some(a);
                },
                None => {},
            }
        }
        i = i + 1;
    }
    None
}

} // verus!
