//! Arithmetization core of a STARK-style proof system.

pub mod arguments;
pub mod field;
pub mod fri_domain;
pub mod proof_item;
pub mod table;
