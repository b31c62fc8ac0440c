//! Verified core of a small image-hosting service.
//!
//! Clients upload image payloads, receive a short identifier, and later
//! retrieve the image under its canonical filename.  The modules here hold
//! the logic of that pipeline: mimetype validation, identifier generation,
//! canonical-URL enforcement, dimension resolution, the in-memory blob
//! store, and the HTTP-shaped bodies (HTML wrapper, JSON) that the
//! boundary layer emits.

pub mod auth;
pub mod digits;
pub mod hosts;
pub mod html;
pub mod ids;
pub mod laws;
pub mod mime;
pub mod pipeline;
pub mod size;
pub mod store;
pub mod strutil;
