//! The server's settings: the filesystem root it serves, and the bind
//! addresses of its two listeners. Loading the values from disk and
//! environment is the calling layer's work.

use vstd::prelude::*;

verus! {

/// Root of the served directory tree.
#[derive(Clone, Debug)]
pub struct FileSystemConfig {
    pub root: String,
}

/// Bind address of the transport listener.
#[derive(Clone, Debug)]
pub struct TcpListenerConfig {
    pub bind: String,
}

/// Bind address of the directory-browsing listener.
#[derive(Clone, Debug)]
pub struct ServerConfig {
    pub bind: String,
}

/// Everything the server is configured with.
#[derive(Clone, Debug)]
pub struct Settings {
    pub file_system: FileSystemConfig,
    pub http_server: ServerConfig,
    pub tcp_server: TcpListenerConfig,
}

} // verus!
