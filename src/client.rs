//! The SIP client: what `connect` settles before any I/O.
use vstd::prelude::*;
use crate::transport::{normalize_proxy, normalize_server, proxy_uri, server_target, ServerTarget};

verus! {

/// The SIP client; connecting is driven by the application around it.
pub struct SipClient;

/// The addresses a connection uses: the server URI (and WebSocket path),
/// and the outbound proxy URI when one is configured.
#[derive(Debug, Clone, PartialEq, Eq)]
pub struct ConnectPlan {
    pub server: ServerTarget,
    pub outbound_proxy: Option<String>,
}

impl SipClient {
    /// The server and proxy URIs for the addresses a user gave.
    pub fn plan(server: &str, outbound_proxy: Option<&str>) -> (r: ConnectPlan)
        ensures
            (r.server.uri@, match r.server.ws_path {
                Some(p) => Some(p@),
                None => None,
            }) == server_target(server@),
            outbound_proxy matches Some(p) ==> (r.outbound_proxy matches Some(q) && q@ == proxy_uri(
                p@,
            )),
            outbound_proxy is None ==> r.outbound_proxy is None,
    {
        let server = normalize_server(server);
        let outbound_proxy = match outbound_proxy {
            Some(p) => Some(normalize_proxy(p)),
            None => None,
        };
        ConnectPlan { server, outbound_proxy }
    }
}

} // verus!
