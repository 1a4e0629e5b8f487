use vstd::prelude::*;

use crate::client::{PubSubClient, PubSubTcpClient, PubSubUnixClient};

verus! {

/// What a command-line client does.
#[derive(Debug, Clone, Copy, PartialEq, Eq, Structural)]
pub enum ClientType {
    Publish,
    Subscribe,
    Query,
}

/// How much the program logs.
#[derive(Debug, Clone, Copy, PartialEq, Eq, Structural)]
pub enum LogLevel {
    Trace,
    Warn,
    Info,
    Error,
    Debug,
}

/// Where a server listens, or where a client finds it.
#[derive(Debug, Clone)]
pub enum ServerType {
    /// Over TCP, with TLS when a certificate is given.
    Tcp { host: String, port: u16, cert: Option<String>, cert_password: Option<String> },
    /// Over a local socket.
    Unix { path: String },
}

/// The whole command line.
#[derive(Debug, Clone)]
pub struct Cli {
    pub command: Commands,
    /// Log level; `info` when not given.
    pub log_level: Option<LogLevel>,
    /// Capacity of the router's ingress queue; 1024 when not given.
    pub capacity: Option<usize>,
}

/// The subcommands.
#[derive(Debug, Clone)]
pub enum Commands {
    /// Run a broker.
    Server { server_type: ServerType },
    /// Run a client that publishes, subscribes or queries once.
    Client {
        server_type: ServerType,
        client_type: ClientType,
        topic: String,
        message: Option<String>,
    },
    /// Print shell completions.
    Completion { shell: String },
}

/// Capacity of the router's ingress queue when none is given.
pub const DEFAULT_CAPACITY: usize = 1024;

/// The log filter that stands for `level`.
pub open spec fn level_filter(level: Option<LogLevel>) -> Seq<char> {
    match level {
        Some(LogLevel::Trace) => "trace"@,
        Some(LogLevel::Warn) => "warn"@,
        Some(LogLevel::Info) => "info"@,
        Some(LogLevel::Error) => "error"@,
        Some(LogLevel::Debug) => "debug"@,
        None => "info"@,
    }
}

/// Returns the log filter that stands for `level`; `info` when none is given.
pub fn log_filter(level: Option<LogLevel>) -> (r: &'static str)
    ensures
        r@ == level_filter(level),
{
    match level {
        Some(LogLevel::Trace) => "trace",
        Some(LogLevel::Warn) => "warn",
        Some(LogLevel::Info) => "info",
        Some(LogLevel::Error) => "error",
        Some(LogLevel::Debug) => "debug",
        None => "info",
    }
}

impl Cli {
    /// The capacity of the router's ingress queue: the one given, else 1024.
    pub fn queue_capacity(&self) -> (r: usize)
        ensures
            r == match self.capacity {
                Some(n) => n,
                None => DEFAULT_CAPACITY,
            },
    {
        match self.capacity {
            Some(n) => n,
            None => DEFAULT_CAPACITY,
        }
    }
}

/// Where a command-line client finds its broker.
pub fn client_target(server: ServerType) -> (r: PubSubClient)
    ensures
        match (server, r) {
            (
                ServerType::Tcp { host, port, cert, cert_password },
                PubSubClient::Tcp(c),
            ) => c.server == host && c.port == port && c.cert == cert && c.cert_password
                == cert_password,
            (ServerType::Unix { path }, PubSubClient::Unix(c)) => c.path == path,
            _ => false,
        },
{
    match server {
        ServerType::Tcp { host, port, cert, cert_password } => PubSubClient::Tcp(
            PubSubTcpClient { server: host, port, cert, cert_password },
        ),
        ServerType::Unix { path } => PubSubClient::Unix(PubSubUnixClient { path }),
    }
}

} // verus!
