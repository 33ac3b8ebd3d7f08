//! The pass-through gateway: every request goes to one fixed upstream.

use vstd::prelude::*;
use vstd::string::*;

verus! {

/// Where a proxied request is sent.
pub struct UpstreamPeer {
    pub host: String,
    pub port: u16,
    pub tls: bool,
    pub sni: String,
}

/// A gateway without routing logic.
pub struct MyGateway {}

impl MyGateway {
    /// The host name that stands for the upstream until deployment fills it in.
    pub open spec fn upstream_host() -> Seq<char> {
        "PROXY_BACKEND_PLACEHOLDER"@
    }

    /// The per-request context: there is none.
    pub fn new_ctx(&self) -> (ctx: ())
        ensures
            ctx == (),
    {
    }

    /// Whether the gateway has answered the request itself. It never does:
    /// every request is passed on.
    pub fn request_filter(&self) -> (answered: bool)
        ensures
            !answered,
    {
        false
    }

    /// The upstream of every request: the one fixed host, in plain text on
    /// port 80, with the host's name as server name.
    pub fn upstream_peer(&self) -> (peer: UpstreamPeer)
        ensures
            peer.host@ == Self::upstream_host(),
            peer.port == 80,
            !peer.tls,
            peer.sni@ == Self::upstream_host(),
    {
        UpstreamPeer {
            host: String::from_str("PROXY_BACKEND_PLACEHOLDER"),
            port: 80,
            tls: false,
            sni: String::from_str("PROXY_BACKEND_PLACEHOLDER"),
        }
    }
}

} // verus!
