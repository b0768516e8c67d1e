//! Circuit IR: gates, qubits, measurements and the circuit itself.
//! Non-recursive: every circuit is a flat list of operations.

use vstd::prelude::*;

verus! {

/// Errors in circuit construction or execution.
#[derive(Debug, Clone, PartialEq, Eq, Structural)]
pub enum CircuitError {
    /// Qubit index out of bounds: the index, and the number of qubits of the circuit.
    QubitOutOfBounds(usize, usize),
    /// Duplicate measurement on the same qubit.
    DuplicateMeasurement(usize),
    /// Empty circuit.
    EmptyCircuit,
}

/// A single qubit identifier.
#[derive(Debug, Clone, Copy, PartialEq, Eq, Hash, Structural)]
pub struct Qubit(pub usize);

/// Single-qubit gate types.
#[derive(Debug, Clone, Copy, PartialEq, Eq, Hash, Structural)]
pub enum SingleGate {
    /// Pauli-X (NOT).
    PauliX,
    /// Pauli-Y.
    PauliY,
    /// Pauli-Z.
    PauliZ,
    /// Hadamard.
    Hadamard,
    /// T-gate (π/8 phase).
    TGate,
    /// S-gate (π/4 phase).
    SGate,
}

/// Two-qubit gate types.
#[derive(Debug, Clone, Copy, PartialEq, Eq, Hash, Structural)]
pub enum DoubleGate {
    /// Controlled-NOT.
    CNOT,
    /// Controlled-Z.
    CZ,
    /// SWAP.
    SWAP,
}

/// An angle in radians, held as the bit pattern of its IEEE 754 double (`f64::to_bits`).
///
/// Two angles are equal as doubles are: a NaN equals nothing, `0.0` equals `-0.0`, and
/// otherwise the bit patterns must agree.
#[derive(Debug, Clone, Copy)]
pub struct Angle(pub u64);

/// The exponent field of a double, all ones for infinities and NaNs.
pub const EXPONENT_MASK: u64 = 0x7FF0_0000_0000_0000u64;

/// The fraction field of a double.
pub const FRACTION_MASK: u64 = 0x000F_FFFF_FFFF_FFFFu64;

/// Every bit of a double but its sign.
pub const MAGNITUDE_MASK: u64 = 0x7FFF_FFFF_FFFF_FFFFu64;

/// The bits are those of a NaN: exponent all ones, fraction not zero.
pub open spec fn is_nan_bits(b: u64) -> bool {
    (b & EXPONENT_MASK) == EXPONENT_MASK && (b & FRACTION_MASK) != 0
}

/// Equality of two doubles given by their bits (IEEE 754 `==`).
pub open spec fn double_eq(a: u64, b: u64) -> bool {
    !is_nan_bits(a) && !is_nan_bits(b) && (a == b || (a | b) & MAGNITUDE_MASK == 0)
}

impl PartialEq for Angle {
    fn eq(&self, other: &Self) -> (r: bool) {
        let a = self.0;
        let b = other.0;
        let a_nan = (a & EXPONENT_MASK) == EXPONENT_MASK && (a & FRACTION_MASK) != 0;
        let b_nan = (b & EXPONENT_MASK) == EXPONENT_MASK && (b & FRACTION_MASK) != 0;
        !a_nan && !b_nan && (a == b || (a | b) & MAGNITUDE_MASK == 0)
    }
}

impl vstd::std_specs::cmp::PartialEqSpecImpl for Angle {
    open spec fn obeys_eq_spec() -> bool {
        true
    }

    open spec fn eq_spec(&self, other: &Angle) -> bool {
        double_eq(self.0, other.0)
    }
}

/// A gate operation in the circuit.
#[derive(Debug, Clone)]
pub enum Gate {
    /// Single-qubit gate.
    Single {
        /// Gate type.
        gate: SingleGate,
        /// Target qubit.
        target: Qubit,
    },
    /// Two-qubit gate.
    Double {
        /// Gate type.
        gate: DoubleGate,
        /// Control qubit.
        control: Qubit,
        /// Target qubit.
        target: Qubit,
    },
    /// Rotation gate (parameterized).
    Rotation {
        /// Target qubit.
        target: Qubit,
        /// Angle in radians.
        angle: Angle,
    },
}

/// Equality of gates: the same kind, on the same qubits, with equal angles (as doubles).
pub open spec fn gate_eq(g: Gate, h: Gate) -> bool {
    match (g, h) {
        (Gate::Single { gate: a, target: t }, Gate::Single { gate: b, target: u }) => a == b && t
            == u,
        (
            Gate::Double { gate: a, control: c, target: t },
            Gate::Double { gate: b, control: d, target: u },
        ) => a == b && c == d && t == u,
        (Gate::Rotation { target: t, angle: x }, Gate::Rotation { target: u, angle: y }) => t == u
            && double_eq(x.0, y.0),
        _ => false,
    }
}

impl PartialEq for Gate {
    fn eq(&self, other: &Self) -> (r: bool) {
        match (self, other) {
            (Gate::Single { gate: a, target: t }, Gate::Single { gate: b, target: u }) => *a == *b
                && *t == *u,
            (
                Gate::Double { gate: a, control: c, target: t },
                Gate::Double { gate: b, control: d, target: u },
            ) => *a == *b && *c == *d && *t == *u,
            (Gate::Rotation { target: t, angle: x }, Gate::Rotation { target: u, angle: y }) => *t
                == *u && x.eq(y),
            _ => false,
        }
    }
}

impl vstd::std_specs::cmp::PartialEqSpecImpl for Gate {
    open spec fn obeys_eq_spec() -> bool {
        true
    }

    open spec fn eq_spec(&self, other: &Gate) -> bool {
        gate_eq(*self, *other)
    }
}

/// A measurement record.
#[derive(Debug, Clone, PartialEq, Eq, Structural)]
pub struct Measurement {
    /// Qubit being measured.
    pub qubit: Qubit,
    /// Classical bit index to store result.
    pub classical_bit: usize,
}

/// A quantum circuit — non-recursive flat IR.
#[derive(Debug, Clone, PartialEq)]
pub struct Circuit {
    /// Number of qubits in the circuit.
    pub num_qubits: usize,
    /// Number of classical bits.
    pub num_classical_bits: usize,
    /// Ordered list of gate operations.
    pub gates: Vec<Gate>,
    /// Measurements to perform at the end.
    pub measurements: Vec<Measurement>,
}

/// The first qubit of `gate` (control before target) that is not below `num_qubits`, if any.
pub open spec fn out_of_bounds_qubit(gate: Gate, num_qubits: usize) -> Option<usize> {
    match gate {
        Gate::Single { target, .. } => if target.0 >= num_qubits {
            Some(target.0)
        } else {
            None
        },
        Gate::Double { control, target, .. } => if control.0 >= num_qubits {
            Some(control.0)
        } else if target.0 >= num_qubits {
            Some(target.0)
        } else {
            None
        },
        Gate::Rotation { target, .. } => if target.0 >= num_qubits {
            Some(target.0)
        } else {
            None
        },
    }
}

/// A gate is accepted by a circuit of `num_qubits` qubits exactly when every qubit it acts
/// on is below `num_qubits`; a refusal names one of its qubits that is not, and names the
/// control whenever the control is out of bounds.
pub proof fn lemma_refusal_names_an_out_of_bounds_qubit(gate: Gate, num_qubits: usize)
    ensures
        out_of_bounds_qubit(gate, num_qubits) is None <==> (match gate {
            Gate::Single { target, .. } => target.0 < num_qubits,
            Gate::Double { control, target, .. } => control.0 < num_qubits && target.0 < num_qubits,
            Gate::Rotation { target, .. } => target.0 < num_qubits,
        }),
        out_of_bounds_qubit(gate, num_qubits) matches Some(q) ==> q >= num_qubits && (match gate {
            Gate::Single { target, .. } => q == target.0,
            Gate::Double { control, target, .. } => q == control.0 || q == target.0,
            Gate::Rotation { target, .. } => q == target.0,
        }),
        gate is Double && gate->control.0 >= num_qubits ==> out_of_bounds_qubit(gate, num_qubits)
            == Some(gate->control.0),
{
}

/// Whether some measurement in `ms` is of `qubit`.
pub open spec fn measures(ms: Seq<Measurement>, qubit: Qubit) -> bool {
    exists|k: int| 0 <= k < ms.len() && (#[trigger] ms[k]).qubit == qubit
}

impl Circuit {
    /// The circuit's invariant: every gate acts on qubits of the circuit, and every
    /// measurement is of a qubit of the circuit, no qubit measured twice.
    pub open spec fn wf(&self) -> bool {
        &&& forall|k: int|
            0 <= k < self.gates@.len() ==> out_of_bounds_qubit(#[trigger] self.gates@[k], self.num_qubits)
                is None
        &&& forall|k: int|
            0 <= k < self.measurements@.len() ==> (#[trigger] self.measurements@[k]).qubit.0
                < self.num_qubits
        &&& forall|k: int, l: int|
            0 <= k < l < self.measurements@.len() ==> (#[trigger] self.measurements@[k]).qubit
                != (#[trigger] self.measurements@[l]).qubit
    }

    /// Create a new empty circuit.
    pub fn new(num_qubits: usize, num_classical_bits: usize) -> (r: Self)
        ensures
            r.num_qubits == num_qubits,
            r.num_classical_bits == num_classical_bits,
            r.gates@ == Seq::<Gate>::empty(),
            r.measurements@ == Seq::<Measurement>::empty(),
            r.wf(),
    {
        Self { num_qubits, num_classical_bits, gates: Vec::new(), measurements: Vec::new() }
    }

    /// Add a gate to the circuit: refused, with the circuit unchanged, when one of its qubits
    /// is out of bounds (the control is checked before the target).
    pub fn add_gate(&mut self, gate: Gate) -> (r: Result<(), CircuitError>)
        ensures
            match out_of_bounds_qubit(gate, old(self).num_qubits) {
                Some(q) => {
                    &&& r == Err::<(), CircuitError>(
                        CircuitError::QubitOutOfBounds(q, old(self).num_qubits),
                    )
                    &&& *final(self) == *old(self)
                },
                None => {
                    &&& r is Ok
                    &&& final(self).gates@ == old(self).gates@.push(gate)
                    &&& final(self).measurements == old(self).measurements
                    &&& final(self).num_qubits == old(self).num_qubits
                    &&& final(self).num_classical_bits == old(self).num_classical_bits
                },
            },
            old(self).wf() ==> final(self).wf(),
    {
        match &gate {
            Gate::Single { target, .. } => {
                if target.0 >= self.num_qubits {
                    return Err(CircuitError::QubitOutOfBounds(target.0, self.num_qubits));
                }
            },
            Gate::Double { control, target, .. } => {
                if control.0 >= self.num_qubits {
                    return Err(CircuitError::QubitOutOfBounds(control.0, self.num_qubits));
                }
                if target.0 >= self.num_qubits {
                    return Err(CircuitError::QubitOutOfBounds(target.0, self.num_qubits));
                }
            },
            Gate::Rotation { target, .. } => {
                if target.0 >= self.num_qubits {
                    return Err(CircuitError::QubitOutOfBounds(target.0, self.num_qubits));
                }
            },
        }
        self.gates.push(gate);
        Ok(())
    }

    /// Add a measurement: refused, with the circuit unchanged, when the qubit is out of bounds
    /// or already measured.
    pub fn add_measurement(&mut self, qubit: Qubit, classical_bit: usize) -> (r: Result<
        (),
        CircuitError,
    >)
        ensures
            qubit.0 >= old(self).num_qubits ==> r == Err::<(), CircuitError>(
                CircuitError::QubitOutOfBounds(qubit.0, old(self).num_qubits),
            ) && *final(self) == *old(self),
            qubit.0 < old(self).num_qubits && measures(old(self).measurements@, qubit) ==> r == Err::<
                (),
                CircuitError,
            >(CircuitError::DuplicateMeasurement(qubit.0)) && *final(self) == *old(self),
            qubit.0 < old(self).num_qubits && !measures(old(self).measurements@, qubit) ==> {
                &&& r is Ok
                &&& final(self).measurements@ == old(self).measurements@.push(
                    Measurement { qubit, classical_bit },
                )
                &&& final(self).gates == old(self).gates
                &&& final(self).num_qubits == old(self).num_qubits
                &&& final(self).num_classical_bits == old(self).num_classical_bits
            },
            old(self).wf() ==> final(self).wf(),
    {
        if qubit.0 >= self.num_qubits {
            return Err(CircuitError::QubitOutOfBounds(qubit.0, self.num_qubits));
        }
        let mut k: usize = 0;
        while k < self.measurements.len()
            invariant
                *self == *old(self),
                qubit.0 < self.num_qubits,
                k <= self.measurements@.len(),
                forall|l: int| 0 <= l < k ==> (#[trigger] self.measurements@[l]).qubit != qubit,
            decreases self.measurements@.len() - k,
        {
            if self.measurements[k].qubit == qubit {
                assert(self.measurements@[k as int].qubit == qubit);
                return Err(CircuitError::DuplicateMeasurement(qubit.0));
            }
            k += 1;
        }
        self.measurements.push(Measurement { qubit, classical_bit });
        Ok(())
    }

    /// Number of gates in the circuit.
    pub fn depth(&self) -> (r: usize)
        ensures
            r == self.gates@.len(),
    {
        self.gates.len()
    }

    /// Validate the circuit: `EmptyCircuit` exactly when it has neither gates nor measurements.
    pub fn validate(&self) -> (r: Result<(), CircuitError>)
        ensures
            r == (if self.gates@.len() == 0 && self.measurements@.len() == 0 {
                Err(CircuitError::EmptyCircuit)
            } else {
                Ok(())
            }),
    {
        if self.gates.is_empty() && self.measurements.is_empty() {
            return Err(CircuitError::EmptyCircuit);
        }
        Ok(())
    }
}

/// The non-recursive pass trait.
pub trait Pass {
    /// Input type for this pass.
    type Input;

    /// Output type for this pass.
    type Output;

    /// Name of this pass.
    fn name(&self) -> &'static str;

    /// Execute the pass.
    fn run(&self, input: Self::Input) -> Result<Self::Output, CircuitError>;
}

} // verus!
