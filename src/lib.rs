//! Integer core of a Monte-Carlo path tracer: random index draws, Perlin
//! permutation tables, image-texture storage, mesh face assembly and the
//! bookkeeping that spreads a frame's pixels over workers and reassembles them.

pub mod integrator;
pub mod mesh;
pub mod perlin;
pub mod random;
pub mod raster;
pub mod schedule;
pub mod texture;
