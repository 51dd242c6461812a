//! Version-aware access to Minecraft game data: version resolution and
//! ordering, feature evaluation, and the indexes built over each version's
//! data files.
pub mod archive;
pub mod cached_data;
pub mod data_source;
pub mod error;
pub mod features;
pub mod indexer;
pub mod laws;
pub mod paths;
pub mod sorting;
pub mod strmap;
pub mod structs;
pub mod text;
pub mod version;

pub use cached_data::IndexedData;
pub use error::McDataError;
pub use version::{Edition, Version};
