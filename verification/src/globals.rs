//! Global symbols: the name tables of the GSI and PSI.

pub mod name_table;
pub mod gsi;
