//! Where households and policies come from, and where results go.

pub mod colonnes;
pub mod input_adapters;
pub mod output_adapters;
