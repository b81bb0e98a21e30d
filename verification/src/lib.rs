//! A verified core for a small image-hosting service: identifiers are
//! bounded integers with a fixed-width base-62 canonical encoding, a
//! registry hands out fresh identifiers and never forgets one, a recovery
//! scan rebuilds the registry from stored file names, and a router maps
//! GET/POST requests to storage paths and status/body outcomes.
//!
//! Transport framing and filesystem access stay outside the library; the
//! library computes every decision from plain values handed to it.

pub mod codec;
pub mod paths;
pub mod recovery;
pub mod registry;
pub mod router;

pub use codec::compute_bits_required;
pub use codec::compute_max_url;
pub use codec::gen_image_url;
pub use codec::index;
pub use codec::ImageUrl;
pub use codec::ImageUrlImpl;
pub use codec::OutOfRange;
pub use registry::Registry;
pub use router::Server;
pub use router::ServerInfo;
