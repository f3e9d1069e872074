//! IP version selection for the server's sockets.

use vstd::prelude::*;

use crate::tftp::text::str_eq;

verus! {

/// IP version mode
#[derive(Debug, Clone, Copy, PartialEq, Eq, Structural)]
pub enum IpVersion {
    Dual,
    V4,
    V6,
}

impl IpVersion {
    /// "v4" and "v6" select one family; anything else means dual stack.
    pub open spec fn spec_from_str(s: Seq<char>) -> IpVersion {
        if s == "v4"@ {
            IpVersion::V4
        } else if s == "v6"@ {
            IpVersion::V6
        } else {
            IpVersion::Dual
        }
    }

    #[allow(clippy::should_implement_trait)]
    pub fn from_str(s: &str) -> (r: Self)
        ensures
            r == Self::spec_from_str(s@),
    {
        if str_eq(s, "v4") {
            IpVersion::V4
        } else if str_eq(s, "v6") {
            IpVersion::V6
        } else {
            IpVersion::Dual
        }
    }
}

/// The family of a session socket: IPv4 for an IPv4 client, otherwise the
/// configured mode.
pub fn ip_version_for_client(client_is_ipv4: bool, configured: &str) -> (r: IpVersion)
    ensures
        r == if client_is_ipv4 {
            IpVersion::V4
        } else {
            IpVersion::spec_from_str(configured@)
        },
{
    if client_is_ipv4 {
        IpVersion::V4
    } else {
        IpVersion::from_str(configured)
    }
}

} // verus!
