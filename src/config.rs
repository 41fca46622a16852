//! Server definitions: the named servers to connect, each reached either by
//! spawning a command or over HTTP.
use vstd::prelude::*;
use crate::keyed::{lookup, remove_key, unique_keys, upsert};
use crate::protocol::ProtocolError;

verus! {

/// How one server is reached, as configured: a command (with arguments and
/// environment) for stdio, or a URL (with headers) for HTTP.
#[derive(Clone, Debug)]
pub struct McpServerConfig {
    /// The command to spawn, for the stdio transport.
    pub command: Option<String>,
    /// The command's arguments.
    pub args: Option<Vec<String>>,
    /// Environment variables set for the command, in order.
    pub env: Option<Vec<(String, String)>>,
    /// The endpoint, for the HTTP transport.
    pub http_url: Option<String>,
    /// Headers sent with every HTTP request, in order.
    pub headers: Option<Vec<(String, String)>>,
}

/// A server definition checked for use: exactly one way to reach it.
#[derive(Debug)]
pub enum ServerSpec {
    Stdio { command: String, args: Vec<String>, env: Vec<(String, String)> },
    Http { url: String, headers: Vec<(String, String)> },
}

/// Why a server could not be connected.
#[derive(Debug)]
pub enum ConnectError {
    /// The definition names neither a command nor a URL.
    InvalidDefinition,
    /// The process could not be spawned or the endpoint reached.
    Unreachable(String),
    /// The handshake failed.
    Handshake(ProtocolError),
}

/// `o`, or the empty list where it is absent.
pub open spec fn list_or_empty<T>(o: Option<Vec<T>>, v: Vec<T>) -> bool {
    match o {
        Some(x) => v == x,
        None => v@.len() == 0,
    }
}

impl McpServerConfig {
    /// Whether the server is reached by spawning a command.
    pub fn is_stdio(&self) -> (r: bool)
        ensures
            r == self.command is Some,
    {
        self.command.is_some()
    }

    /// Whether the server is reached over HTTP.
    pub fn is_http(&self) -> (r: bool)
        ensures
            r == self.http_url is Some,
    {
        self.http_url.is_some()
    }

    /// The way to reach this server: a command where one is given (a URL
    /// beside it is then unused), else a URL; a definition with neither is
    /// refused.
    pub fn into_spec(self) -> (r: Result<ServerSpec, ConnectError>)
        ensures
            self.command matches Some(c) ==> (r matches Ok(ServerSpec::Stdio { command, args, env })
                && command == c && list_or_empty(self.args, args) && list_or_empty(self.env, env)),
            self.command is None && self.http_url is Some ==> (r matches Ok(ServerSpec::Http { url, headers })
                && url == self.http_url->Some_0 && list_or_empty(self.headers, headers)),
            self.command is None && self.http_url is None ==> (r matches Err(ConnectError::InvalidDefinition)),
    {
        match self.command {
            Some(command) => {
                let args = match self.args {
                    Some(a) => a,
                    None => Vec::new(),
                };
                let env = match self.env {
                    Some(e) => e,
                    None => Vec::new(),
                };
                Ok(ServerSpec::Stdio { command, args, env })
            },
            None => match self.http_url {
                Some(url) => {
                    let headers = match self.headers {
                        Some(h) => h,
                        None => Vec::new(),
                    };
                    Ok(ServerSpec::Http { url, headers })
                },
                None => Err(ConnectError::InvalidDefinition),
            },
        }
    }
}

/// The configured servers, by name, in the order they are to be connected.
#[derive(Clone, Debug)]
pub struct McpConfig {
    pub mcp_servers: Vec<(String, McpServerConfig)>,
}

impl McpConfig {
    /// A configuration with no servers.
    pub fn new() -> (c: McpConfig)
        ensures
            c.mcp_servers@.len() == 0,
            c.wf(),
    {
        McpConfig { mcp_servers: Vec::new() }
    }

    /// Each server name stands once.
    pub open spec fn wf(self) -> bool {
        unique_keys(self.mcp_servers@)
    }

    /// The definition of the server `name`.
    pub open spec fn server(self, name: Seq<char>) -> Option<McpServerConfig> {
        lookup(self.mcp_servers@, name)
    }

    /// Defines the server `name`, replacing any definition it had.
    pub fn add_server(&mut self, name: String, config: McpServerConfig)
        ensures
            final(self).server(name@) == Some(config),
            forall|n: Seq<char>| n != name@ ==> #[trigger] final(self).server(n) == old(self).server(n),
            old(self).wf() ==> final(self).wf(),
    {
        upsert(&mut self.mcp_servers, name, config);
    }

    /// Removes the server `name`; whether it was defined.
    pub fn remove_server(&mut self, name: &str) -> (r: bool)
        ensures
            r == old(self).server(name@) is Some,
            forall|n: Seq<char>| n != name@ ==> #[trigger] final(self).server(n) == old(self).server(n),
            old(self).wf() ==> final(self).wf() && final(self).server(name@) is None,
    {
        remove_key(&mut self.mcp_servers, name).is_some()
    }
}

} // verus!
