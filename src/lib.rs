pub mod adpcm;
pub mod container;
pub mod hvqm;
