//! Core of a log-archival sink: schema normalization with unique record ids,
//! hour-granularity time partitioning, batch accumulation, collision-free
//! object naming, and backend request construction.
pub mod strutil;
pub mod time;
pub mod id;
pub mod object_key;
pub mod value;
pub mod json;
pub mod normalize;
pub mod encode;
pub mod batch;
pub mod config;
pub mod request;
