//! The Type Stream (TPI) and the Id Stream (IPI).

pub mod check;
