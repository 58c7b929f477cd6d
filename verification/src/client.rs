//! Where a client connects to: the settings of a connection.
//!
//! The connection itself is made outside this library; here is what it is
//! made from.

use vstd::prelude::*;
use vstd::string::*;

verus! {

/// The address that names `host` and `port`: the two with a colon between.
pub open spec fn spec_socket_address(host: Seq<char>, port: Seq<char>) -> Seq<char> {
    host + ":"@ + port
}

/// The address that names `host` and `port`, as a listener or a connection
/// takes it.
pub fn socket_address(host: &str, port: &str) -> (address: String)
    ensures
        address@ == spec_socket_address(host@, port@),
{
    let mut address = host.to_owned();
    address.append(":");
    address.append(port);
    address
}

/// The settings of a connection that is secured by TLS.
pub struct MyClientService {
    pub connection_host: String,
    pub connection_port: String,
    pub cert_file_path: String,
    pub key_file_path: String,
}

impl MyClientService {
    pub fn new(
        connection_host: &str,
        connection_port: &str,
        cert_file_path: &str,
        key_file_path: &str,
    ) -> (service: Self)
        ensures
            service.connection_host@ == connection_host@,
            service.connection_port@ == connection_port@,
            service.cert_file_path@ == cert_file_path@,
            service.key_file_path@ == key_file_path@,
    {
        Self {
            connection_host: connection_host.to_owned(),
            connection_port: connection_port.to_owned(),
            cert_file_path: cert_file_path.to_owned(),
            key_file_path: key_file_path.to_owned(),
        }
    }

    /// The address to connect to.
    pub fn address(&self) -> (address: String)
        ensures
            address@ == spec_socket_address(self.connection_host@, self.connection_port@),
    {
        socket_address(self.connection_host.as_str(), self.connection_port.as_str())
    }
}

/// The settings of a connection that is not secured.
pub struct MyNonSecureClientService {
    pub connection_host: String,
    pub connection_port: String,
}

impl MyNonSecureClientService {
    pub fn new(connection_host: &str, connection_port: &str) -> (service: Self)
        ensures
            service.connection_host@ == connection_host@,
            service.connection_port@ == connection_port@,
    {
        Self {
            connection_host: connection_host.to_owned(),
            connection_port: connection_port.to_owned(),
        }
    }

    /// The address to connect to.
    pub fn address(&self) -> (address: String)
        ensures
            address@ == spec_socket_address(self.connection_host@, self.connection_port@),
    {
        socket_address(self.connection_host.as_str(), self.connection_port.as_str())
    }
}

} // verus!
