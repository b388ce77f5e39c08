//! Host endpoints: connection descriptors for container-runtime hosts.

use vstd::prelude::*;
use crate::text::{has_prefix, starts_with_spec};

verus! {

/// A connection descriptor for one container-runtime host: a local
/// socket path or a remote URL. Immutable once constructed.
pub enum HostEndpoint {
    UnixSocket(String),
    Remote(String),
}

/// Classify one configured host value: a value prefixed `unix://`
/// denotes the local socket at the path after the prefix, anything
/// else a remote URL taken verbatim.
pub fn parse_host(h: &str) -> (e: HostEndpoint)
    ensures
        starts_with_spec(h@, "unix://"@) ==> (e matches HostEndpoint::UnixSocket(p)
            && p@ == h@.skip(7)),
        !starts_with_spec(h@, "unix://"@) ==> (e matches HostEndpoint::Remote(u) && u@ == h@),
{
    if has_prefix(h, "unix://") {
        proof {
            reveal_strlit("unix://");
        }
        let n = h.unicode_len();
        let path = h.substring_char(7, n);
        proof {
            assert(path@ =~= h@.skip(7));
        }
        HostEndpoint::UnixSocket(path.to_owned())
    } else {
        HostEndpoint::Remote(h.to_owned())
    }
}

} // verus!
