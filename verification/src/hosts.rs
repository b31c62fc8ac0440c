//! Host-header classification: virtual routing sorts requests into the
//! image-serving host, the web host, or a default bucket.

use vstd::prelude::*;
use crate::strutil::str_eq;

verus! {

/// The virtual-routing bucket of a request's `Host` header.
#[derive(Debug, Clone, Copy, PartialEq, Eq, Structural)]
pub enum HostClass {
    /// The image-serving (CDN) host names.
    Image,
    /// The web-site host names.
    Web,
    /// Anything else.
    Default,
}

/// Which bucket a host name falls in.
pub open spec fn classify_host_spec(h: Seq<char>) -> HostClass {
    if h == "cdn.klappstuhl.me"@ || h == "cdn.localhost:8000"@ || h == "cdn.127.0.0.1:8000"@ {
        HostClass::Image
    } else if h == "www.klappstuhl.me"@ || h == "klappstuhl.me"@ || h == "localhost:8000"@
        || h == "127.0.0.1:8000"@ {
        HostClass::Web
    } else {
        HostClass::Default
    }
}

/// Classify a request's `Host` header value.
pub fn classify_host(host: &str) -> (r: HostClass)
    ensures
        r == classify_host_spec(host@),
{
    if str_eq(host, "cdn.klappstuhl.me") || str_eq(host, "cdn.localhost:8000")
        || str_eq(host, "cdn.127.0.0.1:8000") {
        HostClass::Image
    } else if str_eq(host, "www.klappstuhl.me") || str_eq(host, "klappstuhl.me")
        || str_eq(host, "localhost:8000") || str_eq(host, "127.0.0.1:8000") {
        HostClass::Web
    } else {
        HostClass::Default
    }
}

} // verus!
