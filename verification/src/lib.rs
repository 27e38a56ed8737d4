//! Implicit modelling toolkit: distance functions, computation graphs and
//! discrete scalar fields, with their index arithmetic and graph rules verified.

pub mod utils;

pub mod types;
