use sovereign_multiplicity::circuit::{Angle, Circuit, CircuitError, DoubleGate, Gate, Measurement, Qubit, SingleGate};

fn zero_angle() -> Angle {
    Angle(0)
}

#[test]
fn new_circuit_is_empty_and_invalid() {
    let c = Circuit::new(3, 2);
    assert_eq!(c.num_qubits, 3);
    assert_eq!(c.num_classical_bits, 2);
    assert_eq!(c.depth(), 0);
    assert!(c.measurements.is_empty());
    assert_eq!(c.validate(), Err(CircuitError::EmptyCircuit));
}

#[test]
fn add_gate_in_bounds_appends() {
    let mut c = Circuit::new(2, 0);
    assert_eq!(c.add_gate(Gate::Single { gate: SingleGate::Hadamard, target: Qubit(1) }), Ok(()));
    assert_eq!(
        c.add_gate(Gate::Double { gate: DoubleGate::CNOT, control: Qubit(0), target: Qubit(1) }),
        Ok(())
    );
    assert_eq!(c.add_gate(Gate::Rotation { target: Qubit(0), angle: zero_angle() }), Ok(()));
    assert_eq!(c.depth(), 3);
    assert_eq!(c.gates[0], Gate::Single { gate: SingleGate::Hadamard, target: Qubit(1) });
    assert_eq!(c.validate(), Ok(()));
}

#[test]
fn add_gate_out_of_bounds_is_refused_and_leaves_circuit_unchanged() {
    let mut c = Circuit::new(2, 0);
    assert_eq!(
        c.add_gate(Gate::Single { gate: SingleGate::PauliX, target: Qubit(2) }),
        Err(CircuitError::QubitOutOfBounds(2, 2))
    );
    // the control is checked first
    assert_eq!(
        c.add_gate(Gate::Double { gate: DoubleGate::CZ, control: Qubit(5), target: Qubit(7) }),
        Err(CircuitError::QubitOutOfBounds(5, 2))
    );
    assert_eq!(
        c.add_gate(Gate::Double { gate: DoubleGate::SWAP, control: Qubit(1), target: Qubit(7) }),
        Err(CircuitError::QubitOutOfBounds(7, 2))
    );
    assert_eq!(
        c.add_gate(Gate::Rotation { target: Qubit(3), angle: zero_angle() }),
        Err(CircuitError::QubitOutOfBounds(3, 2))
    );
    assert_eq!(c.depth(), 0);
}

#[test]
fn add_measurement_checks_bounds_and_duplicates() {
    let mut c = Circuit::new(2, 2);
    assert_eq!(c.add_measurement(Qubit(2), 0), Err(CircuitError::QubitOutOfBounds(2, 2)));
    assert_eq!(c.add_measurement(Qubit(1), 0), Ok(()));
    assert_eq!(c.add_measurement(Qubit(1), 1), Err(CircuitError::DuplicateMeasurement(1)));
    assert_eq!(c.measurements, vec![Measurement { qubit: Qubit(1), classical_bit: 0 }]);
    // a circuit with only a measurement is valid
    assert_eq!(c.validate(), Ok(()));
    assert_eq!(c.depth(), 0);
}

#[test]
fn angles_compare_as_doubles() {
    let zero = Angle(0.0f64.to_bits());
    let minus_zero = Angle((-0.0f64).to_bits());
    let nan = Angle(f64::NAN.to_bits());
    let half_pi = Angle(std::f64::consts::FRAC_PI_2.to_bits());
    assert!(zero == minus_zero);
    assert!(nan != nan);
    assert!(half_pi == half_pi);
    assert!(half_pi != zero);
    let r = |a: Angle| Gate::Rotation { target: Qubit(0), angle: a };
    assert_eq!(r(zero), r(minus_zero));
    assert_ne!(r(nan), r(nan));
    assert_ne!(r(zero), Gate::Single { gate: SingleGate::PauliZ, target: Qubit(0) });
}

#[test]
fn circuits_compare_by_fields() {
    let mut a = Circuit::new(2, 1);
    let mut b = Circuit::new(2, 1);
    assert!(a == b);
    a.add_gate(Gate::Single { gate: SingleGate::TGate, target: Qubit(0) }).unwrap();
    assert!(a != b);
    b.add_gate(Gate::Single { gate: SingleGate::TGate, target: Qubit(0) }).unwrap();
    assert!(a == b);
    assert!(a != Circuit::new(3, 1));
}
