use vstd::prelude::*;

use crate::text::{decimal, decimal_string};

verus! {

/// The port a broker listens on by default.
pub const DEFAULT_PORT: u16 = 6480;

/// A broker over TCP, with TLS when a certificate is given.
#[derive(Debug, Clone)]
pub struct Tcp {
    pub host: String,
    pub port: u16,
    /// PKCS#12 file of the server's identity.
    pub cert: Option<String>,
    /// Password of the identity file.
    pub cert_password: Option<String>,
    /// Capacity of the router's ingress queue.
    pub capacity: usize,
}

/// A broker over a local socket.
#[derive(Debug, Clone)]
pub struct Unix {
    pub path: String,
    /// Capacity of the router's ingress queue.
    pub capacity: usize,
}

/// The transport a broker listens on.
#[derive(Debug, Clone)]
pub enum ServerType {
    Tcp(Tcp),
    Unix(Unix),
}

/// A broker.
#[derive(Debug, Clone)]
pub struct Server {
    pub server_type: ServerType,
}

impl Tcp {
    /// The address to bind: `host:port`.
    pub fn address(&self) -> (r: String)
        ensures
            r@ == self.host@ + seq![':'] + decimal(self.port as nat),
    {
        let mut r = self.host.clone();
        r.append(":");
        let port = decimal_string(self.port as usize);
        r.append(port.as_str());
        proof {
            reveal_strlit(":");
        }
        assert(r@ =~= self.host@ + seq![':'] + decimal(self.port as nat));
        r
    }
}

impl ServerType {
    /// Capacity of the router's ingress queue.
    pub fn capacity(&self) -> (r: usize)
        ensures
            r == match self {
                ServerType::Tcp(t) => t.capacity,
                ServerType::Unix(u) => u.capacity,
            },
    {
        match self {
            ServerType::Tcp(t) => t.capacity,
            ServerType::Unix(u) => u.capacity,
        }
    }
}

} // verus!
