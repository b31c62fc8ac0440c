//! Dimension resolution: the display width and height of an image come
//! either from an explicit `size` request parameter (`"512"` for a square,
//! `"800x600"` for a rectangle) or, absent that, from probing the image
//! bytes' own header.

use vstd::prelude::*;
use crate::digits::{is_digits, dec_val, parse_dec, MAX_DIMENSION};
use crate::strutil::{prefix_upto, suffix_after, contains_char, find_char, split_before, split_after};

verus! {

/// Why dimensions could not be resolved.
#[derive(Clone, Copy, Debug, PartialEq, Eq, Structural)]
pub enum DimensionError {
    /// The image bytes' header did not yield a size.
    DimensionProbeFailed,
    /// The `size` parameter was not `"{N}"` or `"{W}x{H}"` with in-range
    /// numbers.
    InvalidSizeParameter,
}

/// What probing the raw bytes' header yields: the intrinsic width and
/// height, a pure function of the bytes.
pub uninterp spec fn probe_of(bytes: Seq<u8>) -> Option<(u64, u64)>;

/// Relies on imagesize::blob_size, which reads the dimensions out of the
/// format header of the byte slice alone, without decoding pixels or
/// touching anything outside the slice.
#[verifier::external_body]
fn probe_dimensions(bytes: &Vec<u8>) -> (r: Option<(u64, u64)>)
    ensures
        r == probe_of(bytes@),
{
    match imagesize::blob_size(bytes.as_slice()) {
        Ok(sz) => Some((sz.width as u64, sz.height as u64)),
        Err(_) => None,
    }
}

/// Meaning of a `size` parameter: one number `N` names the square `N`x`N`,
/// `W` and `H` separated by a single `x` name a rectangle, and nothing
/// else is recognized.
pub open spec fn parse_size_spec(s: Seq<char>) -> Option<(u64, u64)> {
    if !contains_char(s, 'x') {
        if is_digits(s) && dec_val(s) <= MAX_DIMENSION {
            Some((dec_val(s) as u64, dec_val(s) as u64))
        } else {
            None
        }
    } else {
        let w = prefix_upto(s, 'x');
        let h = suffix_after(s, 'x');
        if contains_char(h, 'x') {
            None
        } else if is_digits(w) && dec_val(w) <= MAX_DIMENSION
            && is_digits(h) && dec_val(h) <= MAX_DIMENSION {
            Some((dec_val(w) as u64, dec_val(h) as u64))
        } else {
            None
        }
    }
}

/// Parse a `size` parameter.
pub fn parse_size(s: &str) -> (r: Option<(u64, u64)>)
    ensures
        r == parse_size_spec(s@),
{
    match find_char(s, 'x') {
        None => {
            match parse_dec(s) {
                Some(v) => Some((v, v)),
                None => None,
            }
        }
        Some(i) => {
            let w: String = split_before(s, 'x');
            let h: String = split_after(s, 'x');
            match find_char(h.as_str(), 'x') {
                Some(_) => None,
                None => {
                    proof {
                        if contains_char(h@, 'x') {
                            let k = choose|k: int| 0 <= k < h@.len() && h@[k] == 'x';
                        }
                    }
                    match (parse_dec(w.as_str()), parse_dec(h.as_str())) {
                        (Some(wv), Some(hv)) => Some((wv, hv)),
                        _ => None,
                    }
                }
            }
        }
    }
}

/// Resolve the display dimensions: an explicit parameter overrides the
/// intrinsic size unconditionally; without one the bytes are probed.
pub fn resolve_dimensions(size_param: &Option<String>, image_bytes: &Vec<u8>) -> (r: Result<
    (u64, u64),
    DimensionError,
>)
    ensures
        r == resolve_spec(opt_view(size_param), image_bytes@),
{
    match size_param {
        Some(s) => {
            match parse_size(s.as_str()) {
                Some(d) => Ok(d),
                None => Err(DimensionError::InvalidSizeParameter),
            }
        }
        None => {
            match probe_dimensions(image_bytes) {
                Some(d) => Ok(d),
                None => Err(DimensionError::DimensionProbeFailed),
            }
        }
    }
}

/// The view of an optional parameter string.
pub open spec fn opt_view(o: &Option<String>) -> Option<Seq<char>> {
    match o {
        Some(s) => Some(s@),
        None => None,
    }
}

/// Meaning of dimension resolution over the parameter and the bytes.
pub open spec fn resolve_spec(size_param: Option<Seq<char>>, bytes: Seq<u8>) -> Result<
    (u64, u64),
    DimensionError,
> {
    match size_param {
        Some(s) => match parse_size_spec(s) {
            Some(d) => Ok(d),
            None => Err(DimensionError::InvalidSizeParameter),
        },
        None => match probe_of(bytes) {
            Some(d) => Ok(d),
            None => Err(DimensionError::DimensionProbeFailed),
        },
    }
}

} // verus!
