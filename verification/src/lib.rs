//! Timezone enrichment of geolocated records: a comma-separated field
//! tokenizer, a nearest-neighbour index over latitude/longitude points, a
//! resolver of UTC offsets, and the build-then-query pipeline that joins them.
//!
//! Coordinates are held as whole micro-degrees, and distance is the flat
//! Euclidean one over those numbers: an approximation that ignores the
//! curvature of the globe.

pub mod index;
pub mod numbers;
pub mod pipeline;
pub mod resolver;
pub mod tokenizer;
