//! Mimetype handling: sniffing a payload's type from its bytes (never
//! from a client-declared header), validating it as an image type, and
//! deriving the canonical file extension from the subtype.

use vstd::prelude::*;
use crate::strutil::{prefix_upto, suffix_after, starts_with, str_starts_with, split_after, split_before};

verus! {

/// The canonical extension of a mimetype: the segment after the first `/`
/// and before any further `/` (`image/png` gives `png`).
pub open spec fn ext_of(m: Seq<char>) -> Seq<char> {
    prefix_upto(suffix_after(m, '/'), '/')
}

/// A mimetype the ingestion pipeline accepts.
pub open spec fn is_image_mime(m: Seq<char>) -> bool {
    starts_with(m, "image/"@)
}

/// Relies on tree_magic::from_u8, which matches the bytes against the
/// shared MIME database's magic rules (the copy bundled with the crate
/// together with the one installed on the machine).  The guess depends on
/// the installed database, so nothing is promised of the returned string;
/// the callers validate it.
#[verifier::external_body]
pub(crate) fn sniff_mimetype(bytes: &Vec<u8>) -> (r: String) {
    tree_magic::from_u8(bytes.as_slice())
}

/// The validation rule: only a sniffed type starting with `image/` passes.
pub fn is_image_mimetype(m: &str) -> (r: bool)
    ensures
        r == is_image_mime(m@),
{
    str_starts_with(m, "image/")
}

/// The canonical extension of a mimetype, as an owned string.
pub fn extension_of(mimetype: &str) -> (r: String)
    ensures
        r@ == ext_of(mimetype@),
{
    let rest: String = split_after(mimetype, '/');
    split_before(rest.as_str(), '/')
}

} // verus!
