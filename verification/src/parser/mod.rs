//! Subscription parsers: URI lines and non-URI payloads into proxy nodes.
pub mod common;
pub mod helpers;
pub mod ini;
pub mod base64;
pub mod ssr;
pub mod ss;
pub mod uri;
pub mod wireguard;
pub mod socks_http;
pub mod doc;
pub mod clash;
pub mod non_uri;
