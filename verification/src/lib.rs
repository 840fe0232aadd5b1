//! A feedforward neural-network core, verified over an abstract scalar type.
//!
//! Floating-point arithmetic cannot be reasoned about here, so every structure
//! of the engine — layer shapes, the flattened weight matrix and its indexing,
//! network topology, and the bookkeeping of the finite-difference training
//! step — is stated and proved generically over the scalar type `S`. A driver
//! instantiates `S` with its numeric type and supplies the arithmetic.

pub mod activations;
pub mod datapoint;
pub mod layer;
pub mod learndata;
pub mod network;
pub mod params;
