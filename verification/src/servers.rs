//! Endpoint descriptions of the fan-out servers.  The servers
//! themselves re-expose the summary and arbitrage streams and live in
//! the async shell; the library holds only their addresses.

use vstd::prelude::*;

verus! {

/// Endpoint of the gRPC fan-out server.
#[derive(Debug, Clone)]
pub struct GrpcServer {
    pub host: String,
    pub port: u16,
}

impl GrpcServer {
    /// A gRPC server description for the given endpoint.
    pub fn new(host: String, port: u16) -> (r: GrpcServer)
        ensures
            r.host == host,
            r.port == port,
    {
        GrpcServer { host, port }
    }
}

/// Endpoint of the REST fan-out server.
#[derive(Debug, Clone)]
pub struct RestServer {
    pub host: String,
    pub port: u16,
}

impl RestServer {
    /// A REST server description for the given endpoint.
    pub fn new(host: String, port: u16) -> (r: RestServer)
        ensures
            r.host == host,
            r.port == port,
    {
        RestServer { host, port }
    }
}

/// Endpoint and connection bound of the websocket fan-out server.
#[derive(Debug, Clone)]
pub struct WebSocketServer {
    pub host: String,
    pub port: u16,
    pub max_connections: usize,
}

impl WebSocketServer {
    /// A websocket server description for the given endpoint.
    pub fn new(host: String, port: u16, max_connections: usize) -> (r: WebSocketServer)
        ensures
            r.host == host,
            r.port == port,
            r.max_connections == max_connections,
    {
        WebSocketServer {
            host,
            port,
            max_connections,
        }
    }
}

} // verus!
