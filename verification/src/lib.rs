//! A one-dimensional binary cellular automaton whose transition rule is
//! genetic data: a 128-entry lookup table (the genome) maps every 7-cell
//! neighborhood to the next state of the neighborhood's center cell.
//!
//! The library holds the rule-table codec (hexadecimal and binary text
//! encodings) and the cyclic ring update engine. Rendering, argument
//! handling and frame pacing belong to the driver around it.

pub mod cell;
pub mod organism;
