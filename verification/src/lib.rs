//! Core logic of a URL-shortening service: the base-62 identifier codec,
//! the base-URL resolver that derives the externally visible origin of a
//! request, and the decision rules of the two HTTP handlers.

pub mod api;
pub mod ascii;
pub mod codec;
pub mod resolver;

pub use codec::base62_decode;
pub use codec::base62_encode;
pub use resolver::get_base_url;
