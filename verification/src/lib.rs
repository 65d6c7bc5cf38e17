//! Static asset serving: request-path resolution against an asset store and a
//! cache of ready-made `Content-Type` header lines.

pub mod assets;
pub mod mime_mapper;
pub mod router;
pub mod sync;
pub mod text;
