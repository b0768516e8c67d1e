//! Quantum algorithms — QFT, Grover, Shor, QPE.
//! Every algorithm compiles to the circuit IR.

use crate::circuit::{Angle, Circuit, CircuitError, DoubleGate, Gate, Measurement, Qubit, SingleGate, measures};
use crate::goldilocks::{prime, Goldilocks};
use crate::layout::{
    grover_layout, lemma_grover_layout, lemma_measure_all_layout, lemma_qft_layout, lemma_qpe_layout,
    measures_each_in_order, qft_layout, qpe_layout,
};
use vstd::arithmetic::power2::pow2;
use vstd::prelude::*;

verus! {

/// Quantum algorithm error.
#[derive(Debug, Clone, PartialEq, Eq, Structural)]
pub enum QuantumError {
    /// A gate or measurement that the circuit refused.
    Circuit(CircuitError),
}

impl From<CircuitError> for QuantumError {
    fn from(e: CircuitError) -> (r: Self)
        ensures
            r == QuantumError::Circuit(e),
    {
        QuantumError::Circuit(e)
    }
}

impl vstd::std_specs::convert::FromSpecImpl<CircuitError> for QuantumError {
    open spec fn obeys_from_spec() -> bool {
        true
    }

    open spec fn from_spec(v: CircuitError) -> Self {
        QuantumError::Circuit(v)
    }
}

/// The bit pattern of the IEEE 754 double nearest to π (`std::f64::consts::PI`).
pub const PI_BITS: u64 = 0x400921FB54442D18u64;

/// `2^52`: one unit of the exponent field of an IEEE 754 double.
pub const EXPONENT_UNIT: u64 = 0x10_0000_0000_0000u64;

/// The angle `π / 2^k`, for `k < 64`. Dividing a normal double by a power of two below 2^64
/// that keeps it normal is exact and lowers only its exponent field, by `k`; for π the
/// exponent field is 1024, far above 63.
pub open spec fn pi_over_pow2(k: nat) -> Angle {
    Angle((PI_BITS - k * EXPONENT_UNIT) as u64)
}

/// The angle `π / 2^k` (`PI / (1u64 << k) as f64` as an IEEE double).
fn pi_over_pow2_angle(k: usize) -> (r: Angle)
    requires
        k < 64,
    ensures
        r == pi_over_pow2(k as nat),
{
    Angle(PI_BITS - (k as u64) * EXPONENT_UNIT)
}

/// A single-qubit gate on qubit `q`.
pub open spec fn single(gate: SingleGate, q: nat) -> Gate {
    Gate::Single { gate, target: Qubit(q as usize) }
}

/// A two-qubit gate with control `c` and target `t`.
pub open spec fn double(gate: DoubleGate, c: nat, t: nat) -> Gate {
    Gate::Double { gate, control: Qubit(c as usize), target: Qubit(t as usize) }
}

/// A rotation of qubit `q` by `angle`.
pub open spec fn rotation(q: nat, angle: Angle) -> Gate {
    Gate::Rotation { target: Qubit(q as usize), angle }
}

// ---------------------------------------------------------------------------------------------
// Quantum Fourier transform
// ---------------------------------------------------------------------------------------------

/// Row `i` of the QFT on qubits `s, s+1, ...`, for the partners `i+1 .. j`: for each partner
/// `j'`, a CNOT from `s+j'` onto `s+i` followed by a rotation of `s+i` by `π / 2^(j'-i)`.
pub open spec fn qft_partners(s: nat, i: nat, j: nat) -> Seq<Gate>
    decreases j,
{
    if j <= i + 1 {
        Seq::empty()
    } else {
        qft_partners(s, i, (j - 1) as nat) + seq![
            double(DoubleGate::CNOT, (s + j - 1) as nat, s + i),
            rotation(s + i, pi_over_pow2((j - 1 - i) as nat)),
        ]
    }
}

/// The first `i` rows of the QFT on `n` qubits from `s`: each row is a Hadamard on `s+row`
/// followed by that row's partners up to `n`.
pub open spec fn qft_rows(n: nat, s: nat, i: nat) -> Seq<Gate>
    decreases i,
{
    if i == 0 {
        Seq::empty()
    } else {
        qft_rows(n, s, (i - 1) as nat) + seq![single(SingleGate::Hadamard, (s + i - 1) as nat)]
            + qft_partners(s, (i - 1) as nat, n)
    }
}

/// The first `k` swaps that reverse the qubit order: `SWAP(s+k', s+n-1-k')`.
pub open spec fn qft_swaps(n: nat, s: nat, k: nat) -> Seq<Gate>
    decreases k,
{
    if k == 0 {
        Seq::empty()
    } else {
        qft_swaps(n, s, (k - 1) as nat).push(
            double(DoubleGate::SWAP, (s + k - 1) as nat, (s + n - 1 - (k - 1)) as nat),
        )
    }
}

/// The gates of the QFT circuit on `n` qubits starting at qubit `s`.
pub open spec fn qft_gates(n: nat, s: nat) -> Seq<Gate> {
    qft_rows(n, s, n) + qft_swaps(n, s, n / 2)
}

/// Quantum Fourier Transform on n qubits.
pub struct Qft;

/// Every qubit of `gate` lies in `lo .. hi`.
pub open spec fn acts_within(gate: Gate, lo: int, hi: int) -> bool {
    match gate {
        Gate::Single { target, .. } => lo <= target.0 < hi,
        Gate::Double { control, target, .. } => lo <= control.0 < hi && lo <= target.0 < hi,
        Gate::Rotation { target, .. } => lo <= target.0 < hi,
    }
}

impl Qft {
    /// Build a QFT circuit for `num_qubits` starting at qubit `start`: the circuit has
    /// `start + num_qubits` qubits (none when `num_qubits` is 0) and `num_qubits` classical
    /// bits, and every gate acts on qubits `start .. start + num_qubits`.
    ///
    /// The angle `π / 2^(j-i)` is computed with a 64-bit shift, so `num_qubits` is at most 64.
    pub fn circuit(num_qubits: usize, start: usize) -> (r: Result<Circuit, QuantumError>)
        requires
            num_qubits <= 64,
            num_qubits > 0 ==> start + num_qubits <= usize::MAX,
        ensures
            r is Ok,
            r matches Ok(c) ==> {
                &&& c.num_qubits == if num_qubits == 0 {
                    0
                } else {
                    start + num_qubits
                }
                &&& c.num_classical_bits == num_qubits
                &&& c.gates@ == qft_gates(num_qubits as nat, start as nat)
                &&& qft_layout(c.gates@, num_qubits as nat, start as nat)
                &&& c.measurements@ == Seq::<Measurement>::empty()
                &&& c.wf()
                &&& forall|k: int|
                    0 <= k < c.gates@.len() ==> acts_within(
                        #[trigger] c.gates@[k],
                        start as int,
                        start + num_qubits,
                    )
            },
    {
        let ghost n = num_qubits as nat;
        let ghost s = start as nat;
        let total = if num_qubits == 0 {
            0
        } else {
            start + num_qubits
        };
        let mut circ = Circuit::new(total, num_qubits);
        for i in 0..num_qubits
            invariant
                n == num_qubits as nat,
                s == start as nat,
                num_qubits > 0 ==> total == start + num_qubits,
                num_qubits <= 64,
                circ.num_qubits == total,
                circ.num_classical_bits == num_qubits,
                circ.measurements@ == Seq::<Measurement>::empty(),
                circ.gates@ == qft_rows(n, s, i as nat),
                circ.wf(),
                forall|k: int|
                    0 <= k < circ.gates@.len() ==> acts_within(#[trigger] circ.gates@[k], start as int, total as int),
        {
            match circ.add_gate(Gate::Single { gate: SingleGate::Hadamard, target: Qubit(start + i) }) {
                Ok(()) => {},
                Err(e) => {
                    return Err(QuantumError::Circuit(e));
                },
            }
            let ghost row_start = circ.gates@;
            assert(row_start =~= qft_rows(n, s, i as nat) + seq![single(SingleGate::Hadamard, (s + i) as nat)]);
            assert(circ.gates@ =~= row_start + qft_partners(s, i as nat, (i + 1) as nat));
            for j in (i + 1)..num_qubits
                invariant
                    n == num_qubits as nat,
                    s == start as nat,
                    num_qubits > 0 ==> total == start + num_qubits,
                    num_qubits <= 64,
                    circ.num_qubits == total,
                    circ.num_classical_bits == num_qubits,
                    circ.measurements@ == Seq::<Measurement>::empty(),
                    row_start == qft_rows(n, s, i as nat) + seq![single(SingleGate::Hadamard, (s + i) as nat)],
                    circ.gates@ == row_start + qft_partners(s, i as nat, j as nat),
                    circ.wf(),
                    i < num_qubits,
                    forall|k: int|
                        0 <= k < circ.gates@.len() ==> acts_within(#[trigger] circ.gates@[k], start as int, total as int),
            {
                let angle = pi_over_pow2_angle(j - i);
                match circ.add_gate(
                    Gate::Double { gate: DoubleGate::CNOT, control: Qubit(start + j), target: Qubit(start + i) },
                ) {
                    Ok(()) => {},
                    Err(e) => {
                        return Err(QuantumError::Circuit(e));
                    },
                }
                match circ.add_gate(Gate::Rotation { target: Qubit(start + i), angle }) {
                    Ok(()) => {},
                    Err(e) => {
                        return Err(QuantumError::Circuit(e));
                    },
                }
                assert(circ.gates@ =~= row_start + qft_partners(s, i as nat, (j + 1) as nat));
            }
            assert(circ.gates@ =~= qft_rows(n, s, (i + 1) as nat));
        }
        // Swap qubits for standard ordering
        let ghost rows = circ.gates@;
        for k in 0..(num_qubits / 2)
            invariant
                n == num_qubits as nat,
                s == start as nat,
                num_qubits > 0 ==> total == start + num_qubits,
                circ.num_qubits == total,
                circ.num_classical_bits == num_qubits,
                circ.measurements@ == Seq::<Measurement>::empty(),
                rows == qft_rows(n, s, n),
                circ.gates@ == rows + qft_swaps(n, s, k as nat),
                circ.wf(),
                forall|l: int|
                    0 <= l < circ.gates@.len() ==> acts_within(#[trigger] circ.gates@[l], start as int, total as int),
        {
            match circ.add_gate(
                Gate::Double {
                    gate: DoubleGate::SWAP,
                    control: Qubit(start + k),
                    target: Qubit(start + num_qubits - 1 - k),
                },
            ) {
                Ok(()) => {},
                Err(e) => {
                    return Err(QuantumError::Circuit(e));
                },
            }
            assert(circ.gates@ =~= rows + qft_swaps(n, s, (k + 1) as nat));
        }
        proof {
            lemma_qft_layout(num_qubits as nat, start as nat);
        }
        Ok(circ)
    }
}

/// Row `i` of the QFT has two gates for each partner `i+1 .. j`.
pub(crate) proof fn lemma_qft_partners_len(s: nat, i: nat, j: nat)
    ensures
        qft_partners(s, i, j).len() == if j <= i + 1 { 0 } else { 2 * (j - i - 1) },
    decreases j,
{
    if j > i + 1 {
        lemma_qft_partners_len(s, i, (j - 1) as nat);
    }
}

/// The first `i` rows of the QFT on `n` qubits hold `i * (2n - i)` gates.
pub(crate) proof fn lemma_qft_rows_len(n: nat, s: nat, i: nat)
    requires
        i <= n,
    ensures
        qft_rows(n, s, i).len() == i * (2 * n - i),
    decreases i,
{
    if i > 0 {
        lemma_qft_rows_len(n, s, (i - 1) as nat);
        lemma_qft_partners_len(s, (i - 1) as nat, n);
        assert(qft_partners(s, (i - 1) as nat, n).len() == 2 * (n - i));
        assert(qft_rows(n, s, i).len() == qft_rows(n, s, (i - 1) as nat).len() + 1 + qft_partners(
            s,
            (i - 1) as nat,
            n,
        ).len());
        assert((i - 1) * (2 * n - (i - 1)) + 1 + 2 * (n - i) == i * (2 * n - i)) by (nonlinear_arith)
            requires
                1 <= i <= n,
        ;
    } else {
        vstd::arithmetic::mul::lemma_mul_basics(2 * n - i);
    }
}

/// The QFT's swaps number one per pair.
pub(crate) proof fn lemma_qft_swaps_len(n: nat, s: nat, k: nat)
    ensures
        qft_swaps(n, s, k).len() == k,
    decreases k,
{
    if k > 0 {
        lemma_qft_swaps_len(n, s, (k - 1) as nat);
    }
}

/// The QFT circuit on `n` qubits has `n^2 + n/2` gates: `n` Hadamards, a CNOT and a rotation
/// for each of the `n(n-1)/2` pairs of qubits, and `n/2` swaps.
pub proof fn lemma_qft_depth(n: nat, s: nat)
    ensures
        qft_gates(n, s).len() == n * n + n / 2,
{
    lemma_qft_rows_len(n, s, n);
    lemma_qft_swaps_len(n, s, n / 2);
    assert(n * (2 * n - n) == n * n) by (nonlinear_arith);
}

// ---------------------------------------------------------------------------------------------
// Layers shared by the algorithms
// ---------------------------------------------------------------------------------------------

/// A Hadamard on each of the qubits `0 .. k`, in order.
pub open spec fn hadamard_layer(k: nat) -> Seq<Gate>
    decreases k,
{
    if k == 0 {
        Seq::empty()
    } else {
        hadamard_layer((k - 1) as nat).push(single(SingleGate::Hadamard, (k - 1) as nat))
    }
}

/// For each qubit `q` in `0 .. k`: gate `a` on `q`, then gate `b` on `q`.
pub open spec fn paired_layer(a: SingleGate, b: SingleGate, k: nat) -> Seq<Gate>
    decreases k,
{
    if k == 0 {
        Seq::empty()
    } else {
        paired_layer(a, b, (k - 1) as nat) + seq![
            single(a, (k - 1) as nat),
            single(b, (k - 1) as nat),
        ]
    }
}

/// Measurement of each qubit `q` in `0 .. k` into classical bit `q`, in order.
pub open spec fn measure_all(k: nat) -> Seq<Measurement>
    decreases k,
{
    if k == 0 {
        Seq::empty()
    } else {
        measure_all((k - 1) as nat).push(
            Measurement { qubit: Qubit((k - 1) as usize), classical_bit: (k - 1) as usize },
        )
    }
}

/// `measure_all(k)` measures qubit `l` at position `l`.
pub(crate) proof fn lemma_measure_all(k: nat)
    ensures
        measure_all(k).len() == k,
        forall|l: int|
            0 <= l < k ==> (#[trigger] measure_all(k)[l]).qubit == Qubit(l as usize) && measure_all(
                k,
            )[l].classical_bit == l as usize,
    decreases k,
{
    if k > 0 {
        lemma_measure_all((k - 1) as nat);
    }
}

/// Measure qubits `0 .. k` of `circ` into classical bits `0 .. k`; `circ` must have at least
/// `k` qubits and no measurements yet.
fn measure_each(circ: &mut Circuit, k: usize) -> (r: Result<(), QuantumError>)
    requires
        k <= old(circ).num_qubits,
        old(circ).measurements@ == Seq::<Measurement>::empty(),
        old(circ).wf(),
    ensures
        r is Ok,
        final(circ).measurements@ == measure_all(k as nat),
        final(circ).gates == old(circ).gates,
        final(circ).num_qubits == old(circ).num_qubits,
        final(circ).num_classical_bits == old(circ).num_classical_bits,
        final(circ).wf(),
{
    for i in 0..k
        invariant
            k <= circ.num_qubits,
            circ.measurements@ == measure_all(i as nat),
            circ.gates == old(circ).gates,
            circ.num_qubits == old(circ).num_qubits,
            circ.num_classical_bits == old(circ).num_classical_bits,
            circ.wf(),
    {
        proof {
            lemma_measure_all(i as nat);
            if measures(circ.measurements@, Qubit(i)) {
                let l = choose|l: int| 0 <= l < circ.measurements@.len() && (#[trigger] circ.measurements@[l]).qubit == Qubit(i);
                assert(circ.measurements@[l].qubit == Qubit(l as usize));
            }
        }
        match circ.add_measurement(Qubit(i), i) {
            Ok(()) => {},
            Err(e) => {
                return Err(QuantumError::Circuit(e));
            },
        }
    }
    Ok(())
}

// ---------------------------------------------------------------------------------------------
// Grover search
// ---------------------------------------------------------------------------------------------

/// The placeholder oracle on `n` qubits: a CZ from qubit 0 onto qubit `n - 1` when `n >= 2`.
pub open spec fn oracle_gates(n: nat) -> Seq<Gate> {
    if n >= 2 {
        seq![double(DoubleGate::CZ, 0, (n - 1) as nat)]
    } else {
        Seq::empty()
    }
}

/// The diffusion operator on `n` qubits: H then X on each qubit, the oracle's CZ, then X then H
/// on each qubit.
pub open spec fn diffusion_gates(n: nat) -> Seq<Gate> {
    paired_layer(SingleGate::Hadamard, SingleGate::PauliX, n) + oracle_gates(n) + paired_layer(
        SingleGate::PauliX,
        SingleGate::Hadamard,
        n,
    )
}

/// `k` Grover iterations on `n` qubits, each the oracle followed by the diffusion operator.
pub open spec fn grover_iterations(n: nat, k: nat) -> Seq<Gate>
    decreases k,
{
    if k == 0 {
        Seq::empty()
    } else {
        grover_iterations(n, (k - 1) as nat) + oracle_gates(n) + diffusion_gates(n)
    }
}

/// The gates of a Grover circuit: Hadamards on all qubits, then the iterations.
pub open spec fn grover_gates(n: nat, iterations: nat) -> Seq<Gate> {
    hadamard_layer(n) + grover_iterations(n, iterations)
}

/// Gate counts of the layers.
pub(crate) proof fn lemma_layer_lens(first: SingleGate, second: SingleGate, k: nat)
    ensures
        hadamard_layer(k).len() == k,
        paired_layer(first, second, k).len() == 2 * k,
    decreases k,
{
    if k > 0 {
        lemma_layer_lens(first, second, (k - 1) as nat);
    }
}

/// The number of gates of one Grover iteration on `n` qubits: `4n`, plus 2 when `n >= 2`.
pub open spec fn grover_round_len(n: nat) -> nat {
    4 * n + if n >= 2 { 2nat } else { 0nat }
}

pub(crate) proof fn lemma_grover_iterations_len(n: nat, k: nat)
    ensures
        grover_iterations(n, k).len() == k * grover_round_len(n),
    decreases k,
{
    lemma_layer_lens(SingleGate::Hadamard, SingleGate::PauliX, n);
    lemma_layer_lens(SingleGate::PauliX, SingleGate::Hadamard, n);
    if k > 0 {
        lemma_grover_iterations_len(n, (k - 1) as nat);
        assert((k - 1) * grover_round_len(n) + grover_round_len(n) == k * grover_round_len(n))
            by (nonlinear_arith);
    } else {
        vstd::arithmetic::mul::lemma_mul_basics(grover_round_len(n) as int);
    }
}

/// A Grover circuit on `n` qubits with `k` iterations has `n + k * grover_round_len(n)`
/// gates.
pub proof fn lemma_grover_depth(n: nat, k: nat)
    ensures
        grover_gates(n, k).len() == n + k * grover_round_len(n),
{
    lemma_layer_lens(SingleGate::Hadamard, SingleGate::Hadamard, n);
    lemma_grover_iterations_len(n, k);
}

/// Grover's search algorithm.
pub struct Grover;

impl Grover {
    /// Build a Grover circuit for `num_qubits` with `iterations` rounds of oracle and
    /// diffusion, then a measurement of every qubit. The round count for a given number of
    /// marked states is `optimal_iterations`, a floating-point computation made outside this
    /// library.
    pub fn circuit(num_qubits: usize, iterations: usize) -> (r: Result<Circuit, QuantumError>)
        ensures
            r is Ok,
            r matches Ok(c) ==> {
                &&& c.num_qubits == num_qubits
                &&& c.num_classical_bits == num_qubits
                &&& c.gates@ == grover_gates(num_qubits as nat, iterations as nat)
                &&& grover_layout(c.gates@, num_qubits as nat, iterations as nat)
                &&& c.measurements@ == measure_all(num_qubits as nat)
                &&& measures_each_in_order(c.measurements@, num_qubits as nat)
                &&& c.wf()
            },
    {
        let ghost n = num_qubits as nat;
        let mut circ = Circuit::new(num_qubits, num_qubits);
        // Initialize: Hadamard on all qubits
        for i in 0..num_qubits
            invariant
                n == num_qubits as nat,
                circ.num_qubits == num_qubits,
                circ.num_classical_bits == num_qubits,
                circ.measurements@ == Seq::<Measurement>::empty(),
                circ.gates@ == hadamard_layer(i as nat),
                circ.wf(),
        {
            match circ.add_gate(Gate::Single { gate: SingleGate::Hadamard, target: Qubit(i) }) {
                Ok(()) => {},
                Err(e) => {
                    return Err(QuantumError::Circuit(e));
                },
            }
        }
        // Number of Grover iterations: given.
        let ghost init = circ.gates@;
        for k in 0..iterations
            invariant
                n == num_qubits as nat,
                circ.num_qubits == num_qubits,
                circ.num_classical_bits == num_qubits,
                circ.measurements@ == Seq::<Measurement>::empty(),
                init == hadamard_layer(n),
                circ.gates@ == init + grover_iterations(n, k as nat),
                circ.wf(),
        {
            // Oracle (mark solution states) — placeholder oracle
            match Self::add_oracle(&mut circ, num_qubits) {
                Ok(()) => {},
                Err(e) => {
                    return Err(e);
                },
            }
            // Diffusion operator
            match Self::add_diffusion(&mut circ, num_qubits) {
                Ok(()) => {},
                Err(e) => {
                    return Err(e);
                },
            }
            assert(circ.gates@ =~= init + grover_iterations(n, (k + 1) as nat));
        }
        // Measure all
        match measure_each(&mut circ, num_qubits) {
            Ok(()) => {},
            Err(e) => {
                return Err(e);
            },
        }
        proof {
            lemma_grover_layout(num_qubits as nat, iterations as nat);
            lemma_measure_all_layout(num_qubits as nat);
        }
        Ok(circ)
    }

    /// Add oracle gates (placeholder — marks first solution).
    ///
    /// When `num_qubits >= 2` and the circuit has fewer than `num_qubits` qubits, the CZ is
    /// refused (on qubit 0 if the circuit has none, else on `num_qubits - 1`) and the circuit
    /// is unchanged.
    fn add_oracle(circ: &mut Circuit, num_qubits: usize) -> (r: Result<(), QuantumError>)
        ensures
            final(circ).measurements == old(circ).measurements,
            final(circ).num_qubits == old(circ).num_qubits,
            final(circ).num_classical_bits == old(circ).num_classical_bits,
            num_qubits < 2 || num_qubits <= old(circ).num_qubits ==> {
                &&& r is Ok
                &&& final(circ).gates@ == old(circ).gates@ + oracle_gates(num_qubits as nat)
            },
            num_qubits >= 2 && num_qubits > old(circ).num_qubits ==> {
                &&& r == Err::<(), QuantumError>(
                    QuantumError::Circuit(
                        CircuitError::QubitOutOfBounds(
                            if old(circ).num_qubits == 0 {
                                0
                            } else {
                                (num_qubits - 1) as usize
                            },
                            old(circ).num_qubits,
                        ),
                    ),
                )
                &&& final(circ).gates == old(circ).gates
            },
            old(circ).wf() ==> final(circ).wf(),
    {
        // Placeholder: multi-controlled Z on all qubits
        if num_qubits >= 2 {
            match circ.add_gate(
                Gate::Double { gate: DoubleGate::CZ, control: Qubit(0), target: Qubit(num_qubits - 1) },
            ) {
                Ok(()) => {},
                Err(e) => {
                    return Err(QuantumError::Circuit(e));
                },
            }
        }
        assert(circ.gates@ =~= old(circ).gates@ + oracle_gates(num_qubits as nat));
        Ok(())
    }

    /// Add diffusion operator.
    ///
    /// When the circuit has fewer than `num_qubits` qubits, the Hadamard on the first qubit
    /// past its end is refused, after the H-then-X pairs on the qubits below it were added.
    fn add_diffusion(circ: &mut Circuit, num_qubits: usize) -> (r: Result<(), QuantumError>)
        ensures
            final(circ).measurements == old(circ).measurements,
            final(circ).num_qubits == old(circ).num_qubits,
            final(circ).num_classical_bits == old(circ).num_classical_bits,
            num_qubits <= old(circ).num_qubits ==> {
                &&& r is Ok
                &&& final(circ).gates@ == old(circ).gates@ + diffusion_gates(num_qubits as nat)
            },
            num_qubits > old(circ).num_qubits ==> {
                &&& r == Err::<(), QuantumError>(
                    QuantumError::Circuit(
                        CircuitError::QubitOutOfBounds(old(circ).num_qubits, old(circ).num_qubits),
                    ),
                )
                &&& final(circ).gates@ == old(circ).gates@ + paired_layer(
                    SingleGate::Hadamard,
                    SingleGate::PauliX,
                    old(circ).num_qubits as nat,
                )
            },
            old(circ).wf() ==> final(circ).wf(),
    {
        let ghost n = num_qubits as nat;
        let ghost start = circ.gates@;
        // H on all, X on all, multi-controlled Z, X on all, H on all
        for i in 0..num_qubits
            invariant
                n == num_qubits as nat,
                i <= circ.num_qubits,
                circ.num_qubits == old(circ).num_qubits,
                circ.measurements == old(circ).measurements,
                circ.num_classical_bits == old(circ).num_classical_bits,
                start == old(circ).gates@,
                circ.gates@ == start + paired_layer(SingleGate::Hadamard, SingleGate::PauliX, i as nat),
                old(circ).wf() ==> circ.wf(),
        {
            match circ.add_gate(Gate::Single { gate: SingleGate::Hadamard, target: Qubit(i) }) {
                Ok(()) => {},
                Err(e) => {
                    return Err(QuantumError::Circuit(e));
                },
            }
            match circ.add_gate(Gate::Single { gate: SingleGate::PauliX, target: Qubit(i) }) {
                Ok(()) => {},
                Err(e) => {
                    return Err(QuantumError::Circuit(e));
                },
            }
            assert(circ.gates@ =~= start + paired_layer(SingleGate::Hadamard, SingleGate::PauliX, (i + 1) as nat));
        }
        if num_qubits >= 2 {
            match circ.add_gate(
                Gate::Double { gate: DoubleGate::CZ, control: Qubit(0), target: Qubit(num_qubits - 1) },
            ) {
                Ok(()) => {},
                Err(e) => {
                    return Err(QuantumError::Circuit(e));
                },
            }
        }
        let ghost middle = circ.gates@;
        assert(middle =~= start + paired_layer(SingleGate::Hadamard, SingleGate::PauliX, n) + oracle_gates(n));
        for i in 0..num_qubits
            invariant
                n == num_qubits as nat,
                num_qubits <= circ.num_qubits,
                circ.num_qubits == old(circ).num_qubits,
                circ.measurements == old(circ).measurements,
                circ.num_classical_bits == old(circ).num_classical_bits,
                circ.gates@ == middle + paired_layer(SingleGate::PauliX, SingleGate::Hadamard, i as nat),
                old(circ).wf() ==> circ.wf(),
        {
            match circ.add_gate(Gate::Single { gate: SingleGate::PauliX, target: Qubit(i) }) {
                Ok(()) => {},
                Err(e) => {
                    return Err(QuantumError::Circuit(e));
                },
            }
            match circ.add_gate(Gate::Single { gate: SingleGate::Hadamard, target: Qubit(i) }) {
                Ok(()) => {},
                Err(e) => {
                    return Err(QuantumError::Circuit(e));
                },
            }
            assert(circ.gates@ =~= middle + paired_layer(SingleGate::PauliX, SingleGate::Hadamard, (i + 1) as nat));
        }
        assert(circ.gates@ =~= old(circ).gates@ + diffusion_gates(n));
        Ok(())
    }
}

// ---------------------------------------------------------------------------------------------
// Quantum phase estimation and Shor's algorithm
// ---------------------------------------------------------------------------------------------

/// `k` CNOTs from qubit `c` onto qubit `t`.
pub open spec fn cnot_repeated(c: nat, t: nat, k: nat) -> Seq<Gate>
    decreases k,
{
    if k == 0 {
        Seq::empty()
    } else {
        cnot_repeated(c, t, (k - 1) as nat).push(double(DoubleGate::CNOT, c, t))
    }
}

/// The controlled powers for counting qubits `0 .. i`: `2^q` CNOTs from each counting qubit
/// `q` onto the target.
pub open spec fn controlled_powers(target: nat, i: nat) -> Seq<Gate>
    decreases i,
{
    if i == 0 {
        Seq::empty()
    } else {
        controlled_powers(target, (i - 1) as nat) + cnot_repeated(
            (i - 1) as nat,
            target,
            pow2((i - 1) as nat),
        )
    }
}

/// The gates of a phase-estimation circuit: Hadamards on the counting qubits, the controlled
/// powers onto the target, then Hadamards on the counting qubits again (standing in for the
/// inverse QFT).
pub open spec fn qpe_gates(counting: nat, target: nat) -> Seq<Gate> {
    hadamard_layer(counting) + controlled_powers(target, counting) + hadamard_layer(counting)
}

/// `k` repeated CNOTs are `k` gates.
pub(crate) proof fn lemma_cnot_repeated_len(c: nat, t: nat, k: nat)
    ensures
        cnot_repeated(c, t, k).len() == k,
    decreases k,
{
    if k > 0 {
        lemma_cnot_repeated_len(c, t, (k - 1) as nat);
    }
}

/// The controlled powers of `i` counting qubits are `2^i - 1` gates.
pub(crate) proof fn lemma_controlled_powers_len(t: nat, i: nat)
    ensures
        controlled_powers(t, i).len() + 1 == pow2(i),
    decreases i,
{
    if i == 0 {
        vstd::arithmetic::power2::lemma2_to64();
    } else {
        lemma_controlled_powers_len(t, (i - 1) as nat);
        lemma_cnot_repeated_len((i - 1) as nat, t, pow2((i - 1) as nat));
        vstd::arithmetic::power2::lemma_pow2_unfold(i);
    }
}

/// A phase-estimation circuit with `c` counting qubits has `2c + 2^c - 1` gates.
pub proof fn lemma_qpe_depth(c: nat, t: nat)
    ensures
        qpe_gates(c, t).len() + 1 == 2 * c + pow2(c),
{
    lemma_layer_lens(SingleGate::Hadamard, SingleGate::Hadamard, c);
    lemma_controlled_powers_len(t, c);
}

/// Append Hadamards on qubits `0 .. k` to `circ`, which has at least `k` qubits.
fn add_hadamards(circ: &mut Circuit, k: usize) -> (r: Result<(), QuantumError>)
    requires
        k <= old(circ).num_qubits,
        old(circ).wf(),
    ensures
        r is Ok,
        final(circ).gates@ == old(circ).gates@ + hadamard_layer(k as nat),
        final(circ).measurements == old(circ).measurements,
        final(circ).num_qubits == old(circ).num_qubits,
        final(circ).num_classical_bits == old(circ).num_classical_bits,
        final(circ).wf(),
{
    for i in 0..k
        invariant
            k <= circ.num_qubits,
            circ.gates@ == old(circ).gates@ + hadamard_layer(i as nat),
            circ.measurements == old(circ).measurements,
            circ.num_qubits == old(circ).num_qubits,
            circ.num_classical_bits == old(circ).num_classical_bits,
            circ.wf(),
    {
        match circ.add_gate(Gate::Single { gate: SingleGate::Hadamard, target: Qubit(i) }) {
            Ok(()) => {},
            Err(e) => {
                return Err(QuantumError::Circuit(e));
            },
        }
        assert(circ.gates@ =~= old(circ).gates@ + hadamard_layer((i + 1) as nat));
    }
    Ok(())
}

/// Quantum Phase Estimation.
pub struct Qpe;

impl Qpe {
    /// Build a QPE circuit on `num_counting_qubits + 1` qubits, with `num_counting_qubits`
    /// classical bits.
    ///
    /// Fails when there are counting qubits and `target_qubit` is beyond the last qubit. The
    /// power `2^i` of counting qubit `i` is a 64-bit shift, so with a valid target there are at
    /// most 64 counting qubits.
    pub fn circuit(num_counting_qubits: usize, target_qubit: usize) -> (r: Result<
        Circuit,
        QuantumError,
    >)
        requires
            num_counting_qubits < usize::MAX,
            target_qubit <= num_counting_qubits ==> num_counting_qubits <= 64,
        ensures
            r is Ok <==> (num_counting_qubits == 0 || target_qubit <= num_counting_qubits),
            r matches Ok(c) ==> {
                &&& c.num_qubits == num_counting_qubits + 1
                &&& c.num_classical_bits == num_counting_qubits
                &&& c.gates@ == qpe_gates(num_counting_qubits as nat, target_qubit as nat)
                &&& qpe_layout(c.gates@, num_counting_qubits as nat, target_qubit as nat)
                &&& c.measurements@ == measure_all(num_counting_qubits as nat)
                &&& measures_each_in_order(c.measurements@, num_counting_qubits as nat)
                &&& c.wf()
            },
            r matches Err(e) ==> e == QuantumError::Circuit(
                CircuitError::QubitOutOfBounds(target_qubit, (num_counting_qubits + 1) as usize),
            ),
    {
        let ghost nc = num_counting_qubits as nat;
        let ghost t = target_qubit as nat;
        let total = num_counting_qubits + 1;
        let mut circ = Circuit::new(total, num_counting_qubits);

        // Hadamard on counting qubits
        match add_hadamards(&mut circ, num_counting_qubits) {
            Ok(()) => {},
            Err(e) => {
                return Err(e);
            },
        }
        let ghost init = circ.gates@;

        // Controlled unitary powers
        for i in 0..num_counting_qubits
            invariant
                nc == num_counting_qubits as nat,
                t == target_qubit as nat,
                total == num_counting_qubits + 1,
                target_qubit <= num_counting_qubits ==> num_counting_qubits <= 64,
                target_qubit >= total ==> i == 0,
                circ.num_qubits == total,
                circ.num_classical_bits == num_counting_qubits,
                circ.measurements@ == Seq::<Measurement>::empty(),
                init == hadamard_layer(nc),
                circ.gates@ == init + controlled_powers(t, i as nat),
                circ.wf(),
        {
            proof {
                assert(i < 64);
                vstd::bits::lemma_u64_pow2_no_overflow(i as nat);
                vstd::arithmetic::mul::lemma_mul_basics(pow2(i as nat) as int);
                vstd::bits::lemma_u64_shl_is_mul(1, i as u64);
                assert((1u64 << i) == (1u64 << (i as u64))) by (bit_vector)
                    requires
                        i < 64,
                ;
            }
            let power = 1u64 << i;
            let ghost before = circ.gates@;
            for _k in 0..power
                invariant
                    t == target_qubit as nat,
                    total == num_counting_qubits + 1,
                    i < num_counting_qubits,
                    target_qubit >= total ==> _k == 0,
                    circ.num_qubits == total,
                    circ.num_classical_bits == num_counting_qubits,
                    circ.measurements@ == Seq::<Measurement>::empty(),
                    circ.gates@ == before + cnot_repeated(i as nat, t, _k as nat),
                    circ.wf(),
            {
                match circ.add_gate(
                    Gate::Double { gate: DoubleGate::CNOT, control: Qubit(i), target: Qubit(target_qubit) },
                ) {
                    Ok(()) => {},
                    Err(e) => {
                        return Err(QuantumError::Circuit(e));
                    },
                }
                assert(circ.gates@ =~= before + cnot_repeated(i as nat, t, (_k + 1) as nat));
            }
            assert(circ.gates@ =~= init + controlled_powers(t, (i + 1) as nat));
        }

        // Inverse QFT on counting qubits
        let _qft_circ = match Qft::circuit(num_counting_qubits, 0) {
            Ok(c) => c,
            Err(e) => {
                return Err(e);
            },
        };
        // Append gates in reverse (simplified — just add H gates)
        match add_hadamards(&mut circ, num_counting_qubits) {
            Ok(()) => {},
            Err(e) => {
                return Err(e);
            },
        }

        // Measure counting qubits
        match measure_each(&mut circ, num_counting_qubits) {
            Ok(()) => {},
            Err(e) => {
                return Err(e);
            },
        }
        proof {
            lemma_qpe_layout(num_counting_qubits as nat, target_qubit as nat);
            lemma_measure_all_layout(num_counting_qubits as nat);
        }
        Ok(circ)
    }
}

/// Shor's algorithm scaffold.
pub struct Shor;

impl Shor {
    /// Build a Shor circuit for factoring N (simplified): phase estimation with
    /// `num_qubits / 2` counting qubits and the qubit after them as target.
    pub fn circuit(num_qubits: usize) -> (r: Result<Circuit, QuantumError>)
        requires
            num_qubits / 2 <= 64,
        ensures
            r is Ok,
            r matches Ok(c) ==> {
                &&& c.num_qubits == num_qubits / 2 + 1
                &&& c.num_classical_bits == num_qubits / 2
                &&& c.gates@ == qpe_gates((num_qubits / 2) as nat, (num_qubits / 2) as nat)
                &&& qpe_layout(c.gates@, (num_qubits / 2) as nat, (num_qubits / 2) as nat)
                &&& c.measurements@ == measure_all((num_qubits / 2) as nat)
                &&& measures_each_in_order(c.measurements@, (num_qubits / 2) as nat)
                &&& c.wf()
            },
    {
        // Shor = QPE + modular exponentiation
        // Simplified: just build QPE on half the qubits
        let counting = num_qubits / 2;
        Qpe::circuit(counting, counting)
    }
}

// ---------------------------------------------------------------------------------------------
// Field encoding
// ---------------------------------------------------------------------------------------------

/// The position of a single-qubit gate type in its declaration (`PauliX` is 0).
pub open spec fn single_gate_index(gate: SingleGate) -> u64 {
    match gate {
        SingleGate::PauliX => 0,
        SingleGate::PauliY => 1,
        SingleGate::PauliZ => 2,
        SingleGate::Hadamard => 3,
        SingleGate::TGate => 4,
        SingleGate::SGate => 5,
    }
}

/// The position of a two-qubit gate type in its declaration (`CNOT` is 0).
pub open spec fn double_gate_index(gate: DoubleGate) -> u64 {
    match gate {
        DoubleGate::CNOT => 0,
        DoubleGate::CZ => 1,
        DoubleGate::SWAP => 2,
    }
}

/// The field element that encodes `gate`: a single-qubit gate by its type's position, a
/// two-qubit gate by 100 plus its type's position, a rotation by `rotation_value` reduced
/// mod `P` (the angle in milliradians).
pub open spec fn gate_code(gate: Gate, rotation_value: u64) -> u64 {
    match gate {
        Gate::Single { gate, .. } => single_gate_index(gate),
        Gate::Double { gate, .. } => (double_gate_index(gate) + 100) as u64,
        Gate::Rotation { .. } => rotation_value % Goldilocks::P,
    }
}

fn single_gate_code(gate: SingleGate) -> (r: u64)
    ensures
        r == single_gate_index(gate),
{
    match gate {
        SingleGate::PauliX => 0,
        SingleGate::PauliY => 1,
        SingleGate::PauliZ => 2,
        SingleGate::Hadamard => 3,
        SingleGate::TGate => 4,
        SingleGate::SGate => 5,
    }
}

fn double_gate_code(gate: DoubleGate) -> (r: u64)
    ensures
        r == double_gate_index(gate),
{
    match gate {
        DoubleGate::CNOT => 0,
        DoubleGate::CZ => 1,
        DoubleGate::SWAP => 2,
    }
}

/// Field codes by kind of gate: a single-qubit gate is coded by its type's position
/// (`PauliX` 0 to `SGate` 5), a two-qubit gate by 100 plus its type's position (`CNOT` 100,
/// `CZ` 101, `SWAP` 102), whatever its qubits; so distinct kinds get distinct codes.
pub proof fn lemma_gate_codes(g: Gate, v: u64)
    ensures
        gate_code(g, v) == (match g {
            Gate::Single { gate: SingleGate::PauliX, .. } => 0u64,
            Gate::Single { gate: SingleGate::PauliY, .. } => 1u64,
            Gate::Single { gate: SingleGate::PauliZ, .. } => 2u64,
            Gate::Single { gate: SingleGate::Hadamard, .. } => 3u64,
            Gate::Single { gate: SingleGate::TGate, .. } => 4u64,
            Gate::Single { gate: SingleGate::SGate, .. } => 5u64,
            Gate::Double { gate: DoubleGate::CNOT, .. } => 100u64,
            Gate::Double { gate: DoubleGate::CZ, .. } => 101u64,
            Gate::Double { gate: DoubleGate::SWAP, .. } => 102u64,
            Gate::Rotation { .. } => v % Goldilocks::P,
        }),
{
}

/// Compile a circuit to Goldilocks field representation: one element per gate, in order.
///
/// `rotation_values[k]` is what the `k`-th gate encodes to when it is a rotation: its angle
/// times 1000, truncated to an integer (a floating-point computation made outside this
/// library); entries for other gates are not read.
pub fn compile_to_goldilocks(circuit: &Circuit, rotation_values: &Vec<u64>) -> (r: Vec<Goldilocks>)
    requires
        rotation_values@.len() == circuit.gates@.len(),
    ensures
        r@.len() == circuit.gates@.len(),
        forall|k: int|
            0 <= k < r@.len() ==> (#[trigger] r@[k]).0 == gate_code(circuit.gates@[k], rotation_values@[k]),
        forall|k: int|
            0 <= k < r@.len() ==> (#[trigger] r@[k]).0 == (match circuit.gates@[k] {
                Gate::Single { gate: SingleGate::PauliX, .. } => 0u64,
                Gate::Single { gate: SingleGate::PauliY, .. } => 1u64,
                Gate::Single { gate: SingleGate::PauliZ, .. } => 2u64,
                Gate::Single { gate: SingleGate::Hadamard, .. } => 3u64,
                Gate::Single { gate: SingleGate::TGate, .. } => 4u64,
                Gate::Single { gate: SingleGate::SGate, .. } => 5u64,
                Gate::Double { gate: DoubleGate::CNOT, .. } => 100u64,
                Gate::Double { gate: DoubleGate::CZ, .. } => 101u64,
                Gate::Double { gate: DoubleGate::SWAP, .. } => 102u64,
                Gate::Rotation { .. } => rotation_values@[k] % Goldilocks::P,
            }),
{
    let mut out: Vec<Goldilocks> = Vec::new();
    let n = circuit.gates.len();
    for k in 0..n
        invariant
            n == circuit.gates@.len(),
            rotation_values@.len() == n,
            out@.len() == k,
            forall|l: int|
                0 <= l < k ==> (#[trigger] out@[l]).0 == gate_code(circuit.gates@[l], rotation_values@[l]),
    {
        let code = match &circuit.gates[k] {
            Gate::Single { gate, .. } => Goldilocks::new(single_gate_code(*gate)),
            Gate::Double { gate, .. } => Goldilocks::new(double_gate_code(*gate) + 100),
            Gate::Rotation { .. } => Goldilocks::new(rotation_values[k]),
        };
        out.push(code);
    }
    out
}

} // verus!
