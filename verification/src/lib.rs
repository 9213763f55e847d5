pub mod best;
pub mod partition;
pub mod point;
pub mod rng;
pub mod search;
