//! Profile settings that tie a profile to the routing template of one of its sources,
//! and the node list a templated export is built from.
pub mod export_token;
pub mod template_export;
pub mod template_settings;
pub mod update;
