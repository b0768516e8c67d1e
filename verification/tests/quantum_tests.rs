use sovereign_multiplicity::circuit::{CircuitError, DoubleGate, Gate, Measurement, Qubit, SingleGate};
use sovereign_multiplicity::goldilocks::Goldilocks;
use sovereign_multiplicity::{compile_to_goldilocks, Grover, Qft, Qpe, QuantumError, Shor};

#[test]
fn test_qft() {
    let circ = Qft::circuit(3, 0).unwrap();
    assert!(circ.depth() > 0);
    assert!(circ.validate().is_ok());
}

#[test]
fn test_grover() {
    // the number of iterations that Grover's optimal_iterations gives for 3 qubits, 1 solution
    let n = (1u64 << 3) as f64;
    let m = 1usize as f64;
    let theta = (m / n).sqrt().asin();
    let iterations = ((std::f64::consts::FRAC_PI_4 / theta).round() as usize).max(1);
    let circ = Grover::circuit(3, iterations).unwrap();
    assert!(circ.depth() > 0);
    assert!(circ.validate().is_ok());
}

#[test]
fn test_qpe() {
    let circ = Qpe::circuit(2, 2).unwrap();
    assert!(circ.depth() > 0);
}

#[test]
fn test_goldilocks_compile() {
    let circ = Qft::circuit(2, 0).unwrap();
    let rotation_values: Vec<u64> = circ
        .gates
        .iter()
        .map(|g| match g {
            Gate::Rotation { angle, .. } => (f64::from_bits(angle.0) * 1000.0) as u64,
            _ => 0,
        })
        .collect();
    let field_elements = compile_to_goldilocks(&circ, &rotation_values);
    assert!(!field_elements.is_empty());
}

#[test]
fn qft_two_qubits_exact_gates() {
    let circ = Qft::circuit(2, 0).unwrap();
    assert_eq!(circ.num_qubits, 2);
    assert_eq!(circ.num_classical_bits, 2);
    assert_eq!(circ.gates.len(), 5);
    assert_eq!(circ.gates[0], Gate::Single { gate: SingleGate::Hadamard, target: Qubit(0) });
    assert_eq!(
        circ.gates[1],
        Gate::Double { gate: DoubleGate::CNOT, control: Qubit(1), target: Qubit(0) }
    );
    match &circ.gates[2] {
        Gate::Rotation { target, angle } => {
            assert_eq!(*target, Qubit(0));
            assert_eq!(f64::from_bits(angle.0), std::f64::consts::PI / 2.0);
        }
        other => panic!("expected a rotation, got {:?}", other),
    }
    assert_eq!(circ.gates[3], Gate::Single { gate: SingleGate::Hadamard, target: Qubit(1) });
    assert_eq!(
        circ.gates[4],
        Gate::Double { gate: DoubleGate::SWAP, control: Qubit(0), target: Qubit(1) }
    );
    assert!(circ.measurements.is_empty());
}

#[test]
fn qft_depth_is_n_squared_plus_half_n() {
    for n in 0usize..=12 {
        let circ = Qft::circuit(n, 0).unwrap();
        assert_eq!(circ.depth(), n * n + n / 2);
    }
}

#[test]
fn qft_rotation_angles_match_float_division() {
    // the widest circuit the 64-bit shift allows: every angle pi / 2^k, k in 1..64
    let circ = Qft::circuit(64, 0).unwrap();
    let mut seen = 0;
    let mut i = 0usize;
    let mut j = 0usize;
    for g in &circ.gates {
        match g {
            Gate::Single { gate: SingleGate::Hadamard, target } => {
                i = target.0;
                j = i;
            }
            Gate::Double { gate: DoubleGate::CNOT, control, .. } => {
                j = control.0;
            }
            Gate::Rotation { angle, .. } => {
                let expected = std::f64::consts::PI / (1u64 << (j - i)) as f64;
                assert_eq!(angle.0, expected.to_bits());
                seen += 1;
            }
            _ => {}
        }
    }
    assert_eq!(seen, 64 * 63 / 2);
}

#[test]
fn qft_with_offset_start_lies_on_the_offset_qubits() {
    let circ = Qft::circuit(3, 2).unwrap();
    assert_eq!(circ.num_qubits, 5);
    assert_eq!(circ.num_classical_bits, 3);
    assert_eq!(circ.depth(), 3 * 3 + 3 / 2);
    for g in &circ.gates {
        let qubits: Vec<usize> = match g {
            Gate::Single { target, .. } => vec![target.0],
            Gate::Double { control, target, .. } => vec![control.0, target.0],
            Gate::Rotation { target, .. } => vec![target.0],
        };
        for q in qubits {
            assert!((2..5).contains(&q));
        }
    }
    assert_eq!(circ.gates[0], Gate::Single { gate: SingleGate::Hadamard, target: Qubit(2) });
    assert_eq!(
        circ.gates[circ.gates.len() - 1],
        Gate::Double { gate: DoubleGate::SWAP, control: Qubit(2), target: Qubit(4) }
    );
    // the same gates as at start 0, shifted
    let base = Qft::circuit(3, 0).unwrap();
    assert_eq!(base.gates.len(), circ.gates.len());
    // no qubits: an empty circuit with no qubits, whatever the start
    let empty = Qft::circuit(0, 9).unwrap();
    assert_eq!(empty.depth(), 0);
    assert_eq!(empty.num_qubits, 0);
    assert_eq!(empty.num_classical_bits, 0);
}

#[test]
fn grover_depth_and_measurements() {
    let circ = Grover::circuit(3, 2).unwrap();
    // 3 Hadamards, then 2 rounds of (CZ) + (6 + CZ + 6)
    assert_eq!(circ.depth(), 3 + 2 * (4 * 3 + 2));
    assert_eq!(circ.measurements.len(), 3);
    for (k, m) in circ.measurements.iter().enumerate() {
        assert_eq!(*m, Measurement { qubit: Qubit(k), classical_bit: k });
    }
    assert_eq!(
        circ.gates[3],
        Gate::Double { gate: DoubleGate::CZ, control: Qubit(0), target: Qubit(2) }
    );
    // a single qubit has no oracle gate
    assert_eq!(Grover::circuit(1, 5).unwrap().depth(), 1 + 5 * 4);
    assert_eq!(Grover::circuit(0, 3).unwrap().depth(), 0);
}

#[test]
fn qpe_depth_and_errors() {
    let circ = Qpe::circuit(2, 2).unwrap();
    assert_eq!(circ.num_qubits, 3);
    assert_eq!(circ.num_classical_bits, 2);
    // 2 Hadamards, 1 + 2 controlled CNOTs, 2 Hadamards
    assert_eq!(circ.depth(), 2 * 2 + (1 << 2) - 1);
    assert_eq!(
        circ.measurements,
        vec![
            Measurement { qubit: Qubit(0), classical_bit: 0 },
            Measurement { qubit: Qubit(1), classical_bit: 1 },
        ]
    );
    assert_eq!(
        Qpe::circuit(2, 5).unwrap_err(),
        QuantumError::Circuit(CircuitError::QubitOutOfBounds(5, 3))
    );
    assert_eq!(Qpe::circuit(0, 7).unwrap().depth(), 0);
    assert_eq!(Qpe::circuit(5, 0).unwrap().depth(), 2 * 5 + (1 << 5) - 1);
}

#[test]
fn shor_is_qpe_on_half_the_qubits() {
    let shor = Shor::circuit(4).unwrap();
    let qpe = Qpe::circuit(2, 2).unwrap();
    assert_eq!(shor.gates, qpe.gates);
    assert_eq!(shor.measurements, qpe.measurements);
    assert_eq!(shor.num_qubits, 3);
}

#[test]
fn compile_codes_each_gate() {
    let circ = Qft::circuit(2, 0).unwrap();
    let rotation_values: Vec<u64> = circ
        .gates
        .iter()
        .map(|g| match g {
            Gate::Rotation { angle, .. } => (f64::from_bits(angle.0) * 1000.0) as u64,
            _ => 0,
        })
        .collect();
    let codes = compile_to_goldilocks(&circ, &rotation_values);
    assert_eq!(
        codes,
        vec![Goldilocks(3), Goldilocks(100), Goldilocks(1570), Goldilocks(3), Goldilocks(102)]
    );
    // a rotation value at or above p is reduced
    let big = vec![0, 0, u64::MAX, 0, 0];
    assert_eq!(compile_to_goldilocks(&circ, &big)[2], Goldilocks(4294967294));
}

#[test]
fn circuit_error_converts_into_quantum_error() {
    let e: QuantumError = CircuitError::EmptyCircuit.into();
    assert_eq!(e, QuantumError::Circuit(CircuitError::EmptyCircuit));
}
