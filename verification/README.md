# sovereign_multiplicity

Goldilocks field arithmetic (p = 2^64 - 2^32 + 1), a flat quantum-circuit IR, and builders
for the quantum Fourier transform, Grover search, phase estimation and Shor's algorithm,
verified with Verus.

- `src/goldilocks.rs`: field elements and their operations, each with its exact result on any
  64-bit representative and its meaning in the field on canonical ones; the field laws
  (inverse, division undoing multiplication, and more).
- `src/fermat.rs`: Fermat's little theorem for the Goldilocks prime, from a certificate that 7
  generates the multiplicative group.
- `src/modular.rs`: the square-and-multiply step shared by `pow` and `inv`.
- `src/circuit.rs`: qubits, gates, measurements and the circuit, with its invariant.
- `src/quantum.rs`: the circuit builders, each with the exact gate list it produces, and the
  field encoding of a circuit.
- `app/`: serde and error-trait versions of the types, and the floating-point parts (the Grover
  round count, and a rotation's angle in milliradians).
