//! A static-file HTTP/1.1 server core: a startup-time cache of wire-ready
//! responses, a hashed path index, a byte-level request parser, conditional
//! request evaluation, the per-connection state machine and the shutdown
//! coordinator.
//!
//! The library computes and decides; it neither reads files nor touches
//! sockets. A caller lists the content tree, hands the listing to
//! [`builder::build_file_cache`], and then drives one
//! [`connection::ConnectionState`] per connection: it reports what it read
//! or wrote and is told what to do next.

pub mod builder;
pub mod bytes;
pub mod conditional;
pub mod connection;
pub mod dispatch;
pub mod entry;
pub mod header;
pub mod index;
pub mod laws;
pub mod mime;
pub mod path;
pub mod shutdown;
pub mod templates;

pub use mime::{get_mime_type, get_mime_type_enum, MimeType};
pub use path::sanitize_path;
