//! Host-information collector core: platform resolution, the namespace that
//! templates read, the render pipeline, and text measurement.

pub mod cpu;
pub mod dimensions;
pub mod errors;
pub mod gather;
pub mod listings;
pub mod monitors;
pub mod namespace;
pub mod patterns;
pub mod platform;
pub mod probes;
pub mod records;
pub mod release;
pub mod render;
pub mod snapshot;
pub mod temperature;
pub mod text;
