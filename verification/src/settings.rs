//! The caller-facing layer's settings: where the remote service
//! listens, and the request addresses derived from it. Loading the
//! values from disk and environment is the calling layer's work; the
//! derivations are verified here.

use vstd::prelude::*;

verus! {

/// Addresses of the remote service: its HTTP host and its transport
/// endpoint.
#[derive(Clone, Debug)]
pub struct RemoteServerConfig {
    pub http: String,
    pub tcp: String,
}

/// Everything the caller-facing layer is configured with.
#[derive(Clone, Debug)]
pub struct Settings {
    pub remote_server: RemoteServerConfig,
}

impl RemoteServerConfig {
    /// Address of the directory-structure listing.
    pub fn api_load_structure(&self) -> (r: String)
        ensures
            r@ == "http://"@ + self.http@ + "/api/fs/load_structure"@,
    {
        String::from_str("http://").concat(self.http.as_str()).concat("/api/fs/load_structure")
    }

    /// Address of the single-directory listing.
    pub fn api_load_dir_content(&self) -> (r: String)
        ensures
            r@ == "http://"@ + self.http@ + "/api/fs/load_dir_content"@,
    {
        String::from_str("http://").concat(self.http.as_str()).concat("/api/fs/load_dir_content")
    }

    /// Address of the file-removal call.
    pub fn url_delete_file(&self) -> (r: String)
        ensures
            r@ == "http://"@ + self.http@ + "/api/fs/delete"@,
    {
        String::from_str("http://").concat(self.http.as_str()).concat("/api/fs/delete")
    }

    /// Address of the directory-creation call.
    pub fn url_create_dir(&self) -> (r: String)
        ensures
            r@ == "http://"@ + self.http@ + "/api/fs/create_dir"@,
    {
        String::from_str("http://").concat(self.http.as_str()).concat("/api/fs/create_dir")
    }

    /// Address of the move call.
    pub fn url_move(&self) -> (r: String)
        ensures
            r@ == "http://"@ + self.http@ + "/api/fs/move"@,
    {
        String::from_str("http://").concat(self.http.as_str()).concat("/api/fs/move")
    }
}

} // verus!
