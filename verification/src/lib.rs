use vstd::prelude::*;

pub mod aggregator;
pub mod api_checks;
pub mod core_api;
pub mod desktop;
pub mod error;
pub mod fetcher;
pub mod logging;
pub mod model;
pub mod parser;
pub mod plugin_install;
pub mod profiles;
pub mod redaction;
pub mod refresh_registry;
pub mod sanitizer;
pub mod source_service;
pub mod text;

verus! {

} // verus!
