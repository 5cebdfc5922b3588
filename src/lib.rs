//! Geometry, halo discipline and lattice constants of a learnable D2Q9
//! lattice Boltzmann kernel, with the naming of its gridded input data.

pub mod grid;
pub mod halo;
pub mod lattice;
pub mod meteo;
