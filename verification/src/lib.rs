//! Verified core of the MM3Sim marble-machine simulator: channel tables,
//! barrel sequencing, run bookkeeping and audio encoding.

pub mod layers;
pub mod wheel;
pub mod power;
pub mod instrument;
pub mod runs;
pub mod barrel;
pub mod audio;
pub mod state;
pub mod carousel;
