//! Weekly particulate-matter statistics: decoding of the provider's JSON
//! payloads, per-location min/max reduction and aggregation over locations.

pub mod reading;
pub mod json;
pub mod records;
pub mod stats;
pub mod decode;
pub mod pipeline;
