use vstd::prelude::*;
use vstd::string::StringExecFns;
use crate::headers::{decimal, decimal_string, insert_header, with_header};
use crate::path::{pairs_view, str_eq};

verus! {

/// How requests reach their node.
pub enum ProxyConfig {
    Direct,
    Http { credentials: Option<String> },
    Mesh { host: String, port: u16 },
}

/// Where a request goes: the scheme, host and explicit port of its URL.
pub struct Target {
    pub scheme: String,
    pub host: String,
    pub port: Option<u16>,
}

impl Target {
    pub open spec fn view(&self) -> (Seq<char>, Seq<char>, Option<u16>) {
        (self.scheme@, self.host@, self.port)
    }
}

/// The `Host` value that names a target: `host` or `host:port`.
pub open spec fn host_value(host: Seq<char>, port: Option<u16>) -> Seq<char> {
    match port {
        Some(p) => host + ":"@ + decimal(p as nat),
        None => host,
    }
}

/// The target and headers after the proxy's rewrite.
pub open spec fn proxied(
    proxy: ProxyConfig,
    target: (Seq<char>, Seq<char>, Option<u16>),
    headers: Seq<(Seq<char>, Seq<char>)>,
) -> ((Seq<char>, Seq<char>, Option<u16>), Seq<(Seq<char>, Seq<char>)>) {
    match proxy {
        ProxyConfig::Direct => (target, headers),
        ProxyConfig::Http { credentials } => match credentials {
            Some(c) => if target.0 == "http"@ {
                (target, with_header(headers, "proxy-authorization"@, c@))
            } else {
                (target, headers)
            },
            None => (target, headers),
        },
        ProxyConfig::Mesh { host, port } => (
            (target.0, host@, Some(port)),
            with_header(headers, "host"@, host_value(target.1, target.2)),
        ),
    }
}

/// Rewrites the target and headers for the proxy: credentials for a plain
/// HTTP proxy, or the sidecar's address for a mesh with the logical host kept
/// in `Host`.
pub fn apply_proxy(proxy: &ProxyConfig, target: &mut Target, headers: &mut Vec<(String, String)>)
    ensures
        (final(target)@, pairs_view(final(headers)@)) == proxied(
            *proxy,
            old(target)@,
            pairs_view(old(headers)@),
        ),
{
    match proxy {
        ProxyConfig::Direct => {},
        ProxyConfig::Http { credentials } => {
            match credentials {
                Some(c) => {
                    if str_eq(target.scheme.as_str(), "http") {
                        insert_header(headers, "proxy-authorization", c.clone());
                    }
                },
                None => {},
            }
        },
        ProxyConfig::Mesh { host, port } => {
            let value = match target.port {
                Some(p) => {
                    let with_colon = target.host.clone().concat(":");
                    with_colon.concat(decimal_string(p as u64).as_str())
                },
                None => target.host.clone(),
            };
            insert_header(headers, "host", value);
            target.host = host.clone();
            target.port = Some(*port);
        },
    }
}

} // verus!
