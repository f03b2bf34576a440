//! Transport and session-admission library for a point-to-point file
//! transfer service: a length-delimited framing codec carrying typed
//! messages, a two-stage handshake (protocol switch, then the upload
//! protocol's own handshake), and an admission registry that keeps at
//! most one active writer per destination path.

use vstd::prelude::*;

pub mod admission;
pub mod api;
pub mod codec;
pub mod frame;
pub mod fs_tree;
pub mod json;
pub mod messages;
pub mod my_err;
pub mod paths;
pub mod registry;
pub mod server_config;
pub mod session;
pub mod settings;
pub mod switch;
pub mod text;
pub mod upload_client;

verus! {

/// Byte-wise equality of two byte vectors.
pub fn bytes_eq(a: &Vec<u8>, b: &Vec<u8>) -> (r: bool)
    ensures
        r == (a@ == b@),
{
    if a.len() != b.len() {
        assert(a@ != b@);
        return false;
    }
    let n = a.len();
    let mut i: usize = 0;
    while i < n
        invariant
            n == a.len() == b.len(),
            i <= n,
            forall|j: int| 0 <= j < i ==> a@[j] == b@[j],
        decreases n - i,
    {
        if a[i] != b[i] {
            return false;
        }
        i = i + 1;
    }
    assert(a@ =~= b@);
    true
}

} // verus!
