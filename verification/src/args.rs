//! The two operating modes' settings, as plain values.  The unverified
//! shell parses the command line into these and keeps its own annotated
//! copies for that purpose.

use vstd::prelude::*;

verus! {

/// Settings of the server mode: run the proxy end of the tunnel.
pub struct ProxyArgs {
    /// Listen port for the clients (all interfaces, UDP).
    pub port_client: String,
    /// This proxy's own listen port for the tunnel (all interfaces).
    pub port_server: String,
}

/// Settings of the client mode: connect to a remote proxy.
pub struct ConnectArgs {
    /// Local receiver port the tunnelled flows are delivered to (UDP).
    pub port_receiver: String,
    /// Remote proxy address (the tunnel transport).
    pub remote_address: String,
    /// Remote proxy port (the tunnel transport).
    pub remote_port: String,
}

} // verus!
