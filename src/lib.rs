//! Expansion of short `nf` invocations into full `nix` command lines, and the
//! reverse transformation, with their behaviour stated as Verus contracts.

pub mod cmd;
pub mod processer;
pub mod unprocesser;
