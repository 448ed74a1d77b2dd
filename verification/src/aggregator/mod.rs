//! Merging nodes from several sources: de-duplication, name conflict resolution and
//! grouping by region.
pub mod dedupe;
pub mod free_name;
pub mod merge;
pub mod region;
pub mod types;

pub use merge::Aggregator;
pub use types::{AggregationResult, RegionGroups, SourceNodes};
