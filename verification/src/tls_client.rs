//! Where a client connects to: the name of the server, and the address of
//! its TLS port.

use rustls_pki_types::ServerName;
use vstd::prelude::*;
use vstd::string::StringExecFns;

verus! {

/// Why no connection can be attempted.
#[derive(Debug, PartialEq, Eq, Clone, Copy, Structural)]
pub enum ConnectError {
    /// The host is neither a DNS name nor an IP address.
    InvalidServerName,
}

/// Whether `host` names a server: a DNS name or an IP address, as
/// `rustls_pki_types::ServerName` reads them.
pub uninterp spec fn names_server(host: Seq<char>) -> bool;

/// `rustls_pki_types::ServerName::try_from(&str)`: tells whether the text
/// is accepted as a server name, which depends on the text alone.
#[verifier::external_body]
fn is_server_name(host: &str) -> (ok: bool)
    ensures
        ok == names_server(host@),
{
    ServerName::try_from(host).is_ok()
}

/// The address of the TLS port of `host`.
pub open spec fn endpoint_of(host: Seq<char>) -> Seq<char> {
    host + ":443"@
}

/// The address to connect to for `host`, given whether `host` names a
/// server.
pub fn endpoint_for(host: &str, named: bool) -> (res: Result<String, ConnectError>)
    ensures
        match res {
            Ok(address) => named && address@ == endpoint_of(host@),
            Err(e) => !named && e == ConnectError::InvalidServerName,
        },
{
    if named {
        let mut address = String::from_str(host);
        address.append(":443");
        Ok(address)
    } else {
        Err(ConnectError::InvalidServerName)
    }
}

/// The address to connect to for `host`: its TLS port, if `host` names a
/// server.
pub fn endpoint(host: &str) -> (res: Result<String, ConnectError>)
    ensures
        match res {
            Ok(address) => names_server(host@) && address@ == endpoint_of(host@),
            Err(e) => !names_server(host@) && e == ConnectError::InvalidServerName,
        },
{
    endpoint_for(host, is_server_name(host))
}

} // verus!
