//! Goldilocks field arithmetic, a flat quantum-circuit IR, and circuit builders for the
//! quantum Fourier transform, Grover search, phase estimation and Shor's algorithm.

pub mod circuit;
pub mod fermat;
pub mod goldilocks;
pub mod layout;
mod modular;
pub mod quantum;

pub use quantum::{compile_to_goldilocks, Grover, Qft, Qpe, QuantumError, Shor};
