//! Where each gate of the built circuits stands, stated gate by gate with explicit positions:
//! what the QFT, Grover and phase-estimation circuits are, independent of how the builders'
//! gate lists are defined.

use crate::circuit::{Angle, DoubleGate, Gate, Measurement, Qubit, SingleGate};
use crate::quantum::{
    controlled_powers, cnot_repeated, grover_gates, grover_iterations, grover_round_len,
    hadamard_layer, lemma_cnot_repeated_len, lemma_controlled_powers_len, lemma_grover_iterations_len,
    lemma_layer_lens, lemma_measure_all, lemma_qft_partners_len, measure_all, lemma_qft_rows_len, lemma_qft_swaps_len, paired_layer,
    qft_gates, qft_partners, qft_rows, qft_swaps, qpe_gates, EXPONENT_UNIT, PI_BITS,
};
use vstd::arithmetic::power2::{lemma_pow2_pos, pow2};
use vstd::prelude::*;

verus! {

// ---------------------------------------------------------------------------------------------
// Quantum Fourier transform
// ---------------------------------------------------------------------------------------------

/// Position of row `r`'s Hadamard in the QFT on `n` qubits: rows before it hold
/// `1 + 2 (n - 1 - r')` gates each.
pub open spec fn qft_row_pos(n: int, r: int) -> int {
    r * (2 * n - r)
}

/// Position, in row `r`, of the CNOT from partner `p`; the partner's rotation follows it.
pub open spec fn qft_partner_pos(n: int, r: int, p: int) -> int {
    qft_row_pos(n, r) + 2 * (p - r) - 1
}

/// Position of the `k`-th swap, after the `n * n` gates of the rows.
pub open spec fn qft_swap_pos(n: int, k: int) -> int {
    n * n + k
}

proof fn lemma_qft_partners_at(s: nat, i: nat, j: nat, p: nat)
    requires
        i < p < j,
    ensures
        qft_partners(s, i, j)[2 * (p - i) - 2] == (Gate::Double {
            gate: DoubleGate::CNOT,
            control: Qubit((s + p) as usize),
            target: Qubit((s + i) as usize),
        }),
        qft_partners(s, i, j)[2 * (p - i) - 1] == (Gate::Rotation {
            target: Qubit((s + i) as usize),
            angle: Angle((PI_BITS - (p - i) * EXPONENT_UNIT) as u64),
        }),
    decreases j,
{
    lemma_qft_partners_len(s, i, (j - 1) as nat);
    if p < j - 1 {
        lemma_qft_partners_at(s, i, (j - 1) as nat, p);
    }
}

proof fn lemma_qft_rows_prefix(n: nat, s: nat, i: nat, i2: nat)
    requires
        i <= i2 <= n,
    ensures
        qft_rows(n, s, i).len() <= qft_rows(n, s, i2).len(),
        forall|k: int| 0 <= k < qft_rows(n, s, i).len() ==> #[trigger] qft_rows(n, s, i2)[k] == qft_rows(n, s, i)[k],
    decreases i2,
{
    if i < i2 {
        lemma_qft_rows_prefix(n, s, i, (i2 - 1) as nat);
    }
}

proof fn lemma_qft_row_at(n: nat, s: nat, r: nat, p: nat)
    requires
        r < n,
    ensures
        qft_rows(n, s, n)[qft_row_pos(n as int, r as int)] == (Gate::Single {
            gate: SingleGate::Hadamard,
            target: Qubit((s + r) as usize),
        }),
        r < p < n ==> qft_rows(n, s, n)[qft_partner_pos(n as int, r as int, p as int)] == (Gate::Double {
            gate: DoubleGate::CNOT,
            control: Qubit((s + p) as usize),
            target: Qubit((s + r) as usize),
        }),
        r < p < n ==> qft_rows(n, s, n)[qft_partner_pos(n as int, r as int, p as int) + 1] == (Gate::Rotation {
            target: Qubit((s + r) as usize),
            angle: Angle((PI_BITS - (p - r) * EXPONENT_UNIT) as u64),
        }),
{
    lemma_qft_rows_len(n, s, r);
    lemma_qft_rows_len(n, s, r + 1);
    lemma_qft_partners_len(s, r, n);
    lemma_qft_rows_prefix(n, s, r + 1, n);
    let row = qft_rows(n, s, r + 1);
    assert(row == qft_rows(n, s, r) + seq![
        Gate::Single { gate: SingleGate::Hadamard, target: Qubit((s + r) as usize) },
    ] + qft_partners(s, r, n));
    assert(row[qft_row_pos(n as int, r as int)] == (Gate::Single {
        gate: SingleGate::Hadamard,
        target: Qubit((s + r) as usize),
    }));
    if r < p < n {
        lemma_qft_partners_at(s, r, n, p);
        assert(qft_partner_pos(n as int, r as int, p as int) + 1 < row.len());
    }
}

/// `g` is the QFT circuit's gate list on `n` qubits from qubit `s`, position by position.
pub open spec fn qft_layout(g: Seq<Gate>, n: nat, s: nat) -> bool {
    &&& g.len() == n * n + n / 2
    &&& forall|r: int|
            0 <= r < n ==> g[#[trigger] qft_row_pos(n as int, r)] == (Gate::Single {
                gate: SingleGate::Hadamard,
                target: Qubit((s + r) as usize),
            })
    &&& forall|r: int, p: int|
            0 <= r < p < n ==> g[#[trigger] qft_partner_pos(n as int, r, p)] == (
            Gate::Double {
                gate: DoubleGate::CNOT,
                control: Qubit((s + p) as usize),
                target: Qubit((s + r) as usize),
            }) && g[qft_partner_pos(n as int, r, p) + 1] == (Gate::Rotation {
                target: Qubit((s + r) as usize),
                angle: Angle((PI_BITS - (p - r) * EXPONENT_UNIT) as u64),
            })
    &&& forall|k: int|
            0 <= k < n / 2 ==> g[#[trigger] qft_swap_pos(n as int, k)] == (
            Gate::Double {
                gate: DoubleGate::SWAP,
                control: Qubit((s + k) as usize),
                target: Qubit((s + n - 1 - k) as usize),
            })
}

/// The QFT circuit on `n` qubits from qubit `s`, gate by gate: `n * n + n / 2` gates; row
/// `r` is a Hadamard on `s + r` followed, for each partner `p > r`, by a CNOT from `s + p`
/// onto `s + r` and a rotation of `s + r` by `π / 2^(p - r)`; the last `n / 2` gates swap
/// `s + k` with `s + n - 1 - k`, reversing the qubit order.
pub proof fn lemma_qft_layout(n: nat, s: nat)
    ensures
        qft_layout(qft_gates(n, s), n, s),
{
    lemma_qft_rows_len(n, s, n);
    lemma_qft_swaps_len(n, s, n / 2);
    assert(n * (2 * n - n) == n * n) by (nonlinear_arith);
    let rows = qft_rows(n, s, n);
    assert forall|r: int| 0 <= r < n implies qft_gates(n, s)[#[trigger] qft_row_pos(n as int, r)] == (
    Gate::Single { gate: SingleGate::Hadamard, target: Qubit((s + r) as usize) }) by {
        lemma_qft_row_at(n, s, r as nat, 0);
        lemma_qft_rows_len(n, s, (r + 1) as nat);
        lemma_qft_rows_prefix(n, s, (r + 1) as nat, n);
        assert(qft_row_pos(n as int, r) < rows.len()) by (nonlinear_arith)
            requires
                0 <= r < n,
                rows.len() == n * n,
                qft_row_pos(n as int, r) == r * (2 * n - r),
        ;
    }
    assert forall|r: int, p: int| 0 <= r < p < n implies qft_gates(n, s)[#[trigger] qft_partner_pos(
        n as int,
        r,
        p,
    )] == (Gate::Double {
        gate: DoubleGate::CNOT,
        control: Qubit((s + p) as usize),
        target: Qubit((s + r) as usize),
    }) && qft_gates(n, s)[qft_partner_pos(n as int, r, p) + 1] == (Gate::Rotation {
        target: Qubit((s + r) as usize),
        angle: Angle((PI_BITS - (p - r) * EXPONENT_UNIT) as u64),
    }) by {
        lemma_qft_row_at(n, s, r as nat, p as nat);
        lemma_qft_rows_len(n, s, (r + 1) as nat);
        lemma_qft_rows_prefix(n, s, (r + 1) as nat, n);
        assert(qft_partner_pos(n as int, r, p) + 1 < rows.len()) by (nonlinear_arith)
            requires
                0 <= r < p < n,
                rows.len() == n * n,
                qft_partner_pos(n as int, r, p) == r * (2 * n - r) + 2 * (p - r) - 1,
        ;
    }
    assert forall|k: int| 0 <= k < n / 2 implies qft_gates(n, s)[#[trigger] qft_swap_pos(n as int, k)]
        == (Gate::Double {
        gate: DoubleGate::SWAP,
        control: Qubit((s + k) as usize),
        target: Qubit((s + n - 1 - k) as usize),
    }) by {
        lemma_qft_swaps_at(n, s, (n / 2) as nat, k as nat);
    }
}

proof fn lemma_qft_swaps_at(n: nat, s: nat, j: nat, k: nat)
    requires
        k < j,
        k < n,
    ensures
        qft_swaps(n, s, j)[k as int] == (Gate::Double {
            gate: DoubleGate::SWAP,
            control: Qubit((s + k) as usize),
            target: Qubit((s + n - 1 - k) as usize),
        }),
    decreases j,
{
    lemma_qft_swaps_len(n, s, (j - 1) as nat);
    if k < j - 1 {
        lemma_qft_swaps_at(n, s, (j - 1) as nat, k);
    }
}

// ---------------------------------------------------------------------------------------------
// Layers
// ---------------------------------------------------------------------------------------------

proof fn lemma_hadamard_layer_at(k: nat, q: nat)
    requires
        q < k,
    ensures
        hadamard_layer(k)[q as int] == (Gate::Single { gate: SingleGate::Hadamard, target: Qubit(q as usize) }),
    decreases k,
{
    lemma_layer_lens(SingleGate::Hadamard, SingleGate::Hadamard, (k - 1) as nat);
    if q < k - 1 {
        lemma_hadamard_layer_at((k - 1) as nat, q);
    }
}

proof fn lemma_paired_layer_at(a: SingleGate, b: SingleGate, k: nat, q: nat)
    requires
        q < k,
    ensures
        paired_layer(a, b, k)[2 * q as int] == (Gate::Single { gate: a, target: Qubit(q as usize) }),
        paired_layer(a, b, k)[2 * q as int + 1] == (Gate::Single { gate: b, target: Qubit(q as usize) }),
    decreases k,
{
    lemma_layer_lens(a, b, (k - 1) as nat);
    if q < k - 1 {
        lemma_paired_layer_at(a, b, (k - 1) as nat, q);
    }
}

// ---------------------------------------------------------------------------------------------
// Grover search
// ---------------------------------------------------------------------------------------------

/// The number of oracle gates on `n` qubits: one CZ when `n >= 2`.
pub open spec fn oracle_len(n: int) -> int {
    if n >= 2 {
        1
    } else {
        0
    }
}

/// Position of the first gate of round `r` (its oracle CZ, when there is one).
pub open spec fn grover_round_pos(n: int, r: int) -> int {
    n + r * grover_round_len(n as nat)
}

/// Position of the diffusion's opening Hadamard on qubit `q` in round `r`; the X on `q`
/// follows it.
pub open spec fn grover_open_pos(n: int, r: int, q: int) -> int {
    grover_round_pos(n, r) + oracle_len(n) + 2 * q
}

/// Position of the diffusion's CZ in round `r`, between its two halves.
pub open spec fn grover_middle_pos(n: int, r: int) -> int {
    grover_round_pos(n, r) + oracle_len(n) + 2 * n
}

/// Position of the diffusion's closing X on qubit `q` in round `r`; the Hadamard on `q`
/// follows it.
pub open spec fn grover_close_pos(n: int, r: int, q: int) -> int {
    grover_round_pos(n, r) + 2 * oracle_len(n) + 2 * n + 2 * q
}

proof fn lemma_grover_iterations_prefix(n: nat, k: nat, k2: nat)
    requires
        k <= k2,
    ensures
        grover_iterations(n, k).len() <= grover_iterations(n, k2).len(),
        forall|x: int|
            0 <= x < grover_iterations(n, k).len() ==> #[trigger] grover_iterations(n, k2)[x]
                == grover_iterations(n, k)[x],
    decreases k2,
{
    if k < k2 {
        lemma_grover_iterations_prefix(n, k, (k2 - 1) as nat);
    }
}

/// Round `r` of the Grover iterations, gate by gate.
proof fn lemma_grover_round_at(n: nat, k: nat, r: nat, q: nat)
    requires
        r < k,
    ensures
        n >= 2 ==> grover_iterations(n, k)[(r * grover_round_len(n)) as int] == (Gate::Double {
            gate: DoubleGate::CZ,
            control: Qubit(0),
            target: Qubit((n - 1) as usize),
        }),
        n >= 2 ==> grover_iterations(n, k)[r * grover_round_len(n) + oracle_len(n as int) + 2 * n] == (
        Gate::Double { gate: DoubleGate::CZ, control: Qubit(0), target: Qubit((n - 1) as usize) }),
        q < n ==> grover_iterations(n, k)[r * grover_round_len(n) + oracle_len(n as int) + 2 * q] == (
        Gate::Single { gate: SingleGate::Hadamard, target: Qubit(q as usize) }),
        q < n ==> grover_iterations(n, k)[r * grover_round_len(n) + oracle_len(n as int) + 2 * q + 1]
            == (Gate::Single { gate: SingleGate::PauliX, target: Qubit(q as usize) }),
        q < n ==> grover_iterations(n, k)[r * grover_round_len(n) + 2 * oracle_len(n as int) + 2 * n + 2
            * q] == (Gate::Single { gate: SingleGate::PauliX, target: Qubit(q as usize) }),
        q < n ==> grover_iterations(n, k)[r * grover_round_len(n) + 2 * oracle_len(n as int) + 2 * n + 2
            * q + 1] == (Gate::Single { gate: SingleGate::Hadamard, target: Qubit(q as usize) }),
{
    let len = grover_round_len(n);
    lemma_grover_iterations_len(n, r);
    lemma_grover_iterations_len(n, r + 1);
    lemma_grover_iterations_prefix(n, r + 1, k);
    lemma_layer_lens(SingleGate::Hadamard, SingleGate::PauliX, n);
    lemma_layer_lens(SingleGate::PauliX, SingleGate::Hadamard, n);
    assert((r + 1) * len == r * len + len) by (nonlinear_arith);
    if q < n {
        lemma_paired_layer_at(SingleGate::Hadamard, SingleGate::PauliX, n, q);
        lemma_paired_layer_at(SingleGate::PauliX, SingleGate::Hadamard, n, q);
    }
}

/// `g` lists, position by position, the gates of a Grover circuit on `n` qubits with `k` rounds.
pub open spec fn grover_layout(g: Seq<Gate>, n: nat, k: nat) -> bool {
    &&& g.len() == n + k * grover_round_len(n)
    &&& forall|q: int|
            0 <= q < n ==> #[trigger] g[q] == (Gate::Single {
                gate: SingleGate::Hadamard,
                target: Qubit(q as usize),
            })
    &&& forall|r: int|
            0 <= r < k && n >= 2 ==> g[#[trigger] grover_round_pos(n as int, r)] == (
            Gate::Double { gate: DoubleGate::CZ, control: Qubit(0), target: Qubit((n - 1) as usize) })
                && g[grover_middle_pos(n as int, r)] == (Gate::Double {
                gate: DoubleGate::CZ,
                control: Qubit(0),
                target: Qubit((n - 1) as usize),
            })
    &&& forall|r: int, q: int|
            0 <= r < k && 0 <= q < n ==> g[#[trigger] grover_open_pos(n as int, r, q)]
                == (Gate::Single { gate: SingleGate::Hadamard, target: Qubit(q as usize) })
                && g[grover_open_pos(n as int, r, q) + 1] == (Gate::Single {
                gate: SingleGate::PauliX,
                target: Qubit(q as usize),
            })
    &&& forall|r: int, q: int|
            0 <= r < k && 0 <= q < n ==> g[#[trigger] grover_close_pos(n as int, r, q)]
                == (Gate::Single { gate: SingleGate::PauliX, target: Qubit(q as usize) })
                && g[grover_close_pos(n as int, r, q) + 1] == (Gate::Single {
                gate: SingleGate::Hadamard,
                target: Qubit(q as usize),
            })
}

/// The Grover circuit on `n` qubits with `k` rounds, gate by gate: Hadamards on qubits
/// `0 .. n` at positions `0 .. n`; then each round is the oracle CZ from qubit 0 onto qubit
/// `n - 1` (when `n >= 2`), and the diffusion: H then X on each qubit, the CZ again, then X
/// then H on each qubit (the closing half mirrors the opening half).
pub proof fn lemma_grover_layout(n: nat, k: nat)
    ensures
        grover_layout(grover_gates(n, k), n, k),
{
    lemma_layer_lens(SingleGate::Hadamard, SingleGate::Hadamard, n);
    lemma_grover_iterations_len(n, k);
    let h = hadamard_layer(n);
    let it = grover_iterations(n, k);
    assert(grover_gates(n, k) == h + it);
    assert forall|q: int| 0 <= q < n implies #[trigger] grover_gates(n, k)[q] == (Gate::Single {
        gate: SingleGate::Hadamard,
        target: Qubit(q as usize),
    }) by {
        lemma_hadamard_layer_at(n, q as nat);
    }
    assert forall|r: int|
        0 <= r < k && n >= 2 implies grover_gates(n, k)[#[trigger] grover_round_pos(n as int, r)] == (
    Gate::Double { gate: DoubleGate::CZ, control: Qubit(0), target: Qubit((n - 1) as usize) })
        && grover_gates(n, k)[grover_middle_pos(n as int, r)] == (Gate::Double {
        gate: DoubleGate::CZ,
        control: Qubit(0),
        target: Qubit((n - 1) as usize),
    }) by {
        lemma_grover_round_at(n, k, r as nat, 0);
        lemma_grover_round_bound(n, k, r as nat);
    }
    assert forall|r: int, q: int|
        0 <= r < k && 0 <= q < n implies grover_gates(n, k)[#[trigger] grover_open_pos(n as int, r, q)]
        == (Gate::Single { gate: SingleGate::Hadamard, target: Qubit(q as usize) })
        && grover_gates(n, k)[grover_open_pos(n as int, r, q) + 1] == (Gate::Single {
        gate: SingleGate::PauliX,
        target: Qubit(q as usize),
    }) by {
        lemma_grover_round_at(n, k, r as nat, q as nat);
        lemma_grover_round_bound(n, k, r as nat);
    }
    assert forall|r: int, q: int|
        0 <= r < k && 0 <= q < n implies grover_gates(n, k)[#[trigger] grover_close_pos(n as int, r, q)]
        == (Gate::Single { gate: SingleGate::PauliX, target: Qubit(q as usize) })
        && grover_gates(n, k)[grover_close_pos(n as int, r, q) + 1] == (Gate::Single {
        gate: SingleGate::Hadamard,
        target: Qubit(q as usize),
    }) by {
        lemma_grover_round_at(n, k, r as nat, q as nat);
        lemma_grover_round_bound(n, k, r as nat);
    }
}

/// Round `r < k` ends within the `k` rounds.
proof fn lemma_grover_round_bound(n: nat, k: nat, r: nat)
    requires
        r < k,
    ensures
        r * grover_round_len(n) + grover_round_len(n) <= k * grover_round_len(n),
        0 <= r * grover_round_len(n),
{
    let len = grover_round_len(n);
    assert(r * len + len <= k * len && 0 <= r * len) by (nonlinear_arith)
        requires
            r < k,
    ;
}

// ---------------------------------------------------------------------------------------------
// Phase estimation
// ---------------------------------------------------------------------------------------------

/// Position of the `m`-th CNOT controlled by counting qubit `q`, among `c` counting qubits:
/// counting qubit `q` controls the `2^q` gates from `c + 2^q - 1` on.
pub open spec fn qpe_power_pos(c: int, q: int, m: int) -> int {
    c + pow2(q as nat) - 1 + m
}

/// Position of the closing Hadamard on counting qubit `q`, after all controlled powers.
pub open spec fn qpe_closing_pos(c: int, q: int) -> int {
    c + pow2(c as nat) - 1 + q
}

proof fn lemma_cnot_repeated_at(c: nat, t: nat, k: nat, m: nat)
    requires
        m < k,
    ensures
        cnot_repeated(c, t, k)[m as int] == (Gate::Double {
            gate: DoubleGate::CNOT,
            control: Qubit(c as usize),
            target: Qubit(t as usize),
        }),
    decreases k,
{
    lemma_cnot_repeated_len(c, t, (k - 1) as nat);
    if m < k - 1 {
        lemma_cnot_repeated_at(c, t, (k - 1) as nat, m);
    }
}

proof fn lemma_controlled_powers_prefix(t: nat, i: nat, i2: nat)
    requires
        i <= i2,
    ensures
        controlled_powers(t, i).len() <= controlled_powers(t, i2).len(),
        forall|x: int|
            0 <= x < controlled_powers(t, i).len() ==> #[trigger] controlled_powers(t, i2)[x]
                == controlled_powers(t, i)[x],
    decreases i2,
{
    if i < i2 {
        lemma_controlled_powers_prefix(t, i, (i2 - 1) as nat);
    }
}

/// Every gate of the controlled powers of `i` counting qubits is a CNOT onto the target from
/// a counting qubit below `i`.
proof fn lemma_controlled_powers_all(t: nat, i: nat)
    ensures
        forall|x: int|
            0 <= x < controlled_powers(t, i).len() ==> (#[trigger] controlled_powers(t, i)[x] matches Gate::Double {
                gate: DoubleGate::CNOT,
                control,
                target,
            } && target == Qubit(t as usize) && control.0 < i),
    decreases i,
{
    if i > 0 {
        lemma_controlled_powers_all(t, (i - 1) as nat);
        lemma_controlled_powers_len(t, (i - 1) as nat);
        lemma_cnot_repeated_len((i - 1) as nat, t, pow2((i - 1) as nat));
        let prev = controlled_powers(t, (i - 1) as nat);
        assert forall|x: int| 0 <= x < controlled_powers(t, i).len() implies (
        #[trigger] controlled_powers(t, i)[x] matches Gate::Double {
            gate: DoubleGate::CNOT,
            control,
            target,
        } && target == Qubit(t as usize) && control.0 < i) by {
            if x >= prev.len() {
                lemma_cnot_repeated_at((i - 1) as nat, t, pow2((i - 1) as nat), (x - prev.len()) as nat);
            }
        }
    }
}

/// The `m`-th gate of counting qubit `q`'s block.
proof fn lemma_controlled_powers_at(t: nat, c: nat, q: nat, m: nat)
    requires
        q < c,
        m < pow2(q),
    ensures
        controlled_powers(t, c)[pow2(q) - 1 + m] == (Gate::Double {
            gate: DoubleGate::CNOT,
            control: Qubit(q as usize),
            target: Qubit(t as usize),
        }),
{
    lemma_controlled_powers_len(t, q);
    lemma_controlled_powers_len(t, q + 1);
    lemma_controlled_powers_prefix(t, q + 1, c);
    lemma_cnot_repeated_len(q, t, pow2(q));
    lemma_cnot_repeated_at(q, t, pow2(q), m);
}

/// `g` lists the gates of a phase-estimation circuit with `c` counting qubits onto target `t`,
/// position by position.
pub open spec fn qpe_layout(g: Seq<Gate>, c: nat, t: nat) -> bool {
    &&& g.len() == 2 * c + pow2(c) - 1
    &&& forall|q: int|
            0 <= q < c ==> #[trigger] g[q] == (Gate::Single {
                gate: SingleGate::Hadamard,
                target: Qubit(q as usize),
            })
    &&& forall|q: int, m: int|
            0 <= q < c && 0 <= m < pow2(q as nat) ==> g[#[trigger] qpe_power_pos(
                c as int,
                q,
                m,
            )] == (Gate::Double {
                gate: DoubleGate::CNOT,
                control: Qubit(q as usize),
                target: Qubit(t as usize),
            })
    &&& forall|x: int|
            c <= x < c + pow2(c) - 1 ==> (#[trigger] g[x] matches Gate::Double {
                gate: DoubleGate::CNOT,
                control,
                target,
            } && target == Qubit(t as usize) && control.0 < c)
    &&& forall|q: int|
            0 <= q < c ==> g[#[trigger] qpe_closing_pos(c as int, q)] == (Gate::Single {
                gate: SingleGate::Hadamard,
                target: Qubit(q as usize),
            })
}

/// The phase-estimation circuit with `c` counting qubits and target `t`, gate by gate:
/// `2c + 2^c - 1` gates; Hadamards on qubits `0 .. c` at positions `0 .. c`; then for each
/// counting qubit `q`, `2^q` CNOTs from `q` onto `t` (every gate between the Hadamard layers is
/// such a CNOT); then Hadamards on qubits `0 .. c` again.
pub proof fn lemma_qpe_layout(c: nat, t: nat)
    ensures
        qpe_layout(qpe_gates(c, t), c, t),
{
    lemma_layer_lens(SingleGate::Hadamard, SingleGate::Hadamard, c);
    lemma_controlled_powers_len(t, c);
    lemma_controlled_powers_all(t, c);
    let h = hadamard_layer(c);
    let cp = controlled_powers(t, c);
    assert(qpe_gates(c, t) == h + cp + h);
    assert forall|q: int| 0 <= q < c implies #[trigger] qpe_gates(c, t)[q] == (Gate::Single {
        gate: SingleGate::Hadamard,
        target: Qubit(q as usize),
    }) by {
        lemma_hadamard_layer_at(c, q as nat);
    }
    assert forall|q: int, m: int|
        0 <= q < c && 0 <= m < pow2(q as nat) implies qpe_gates(c, t)[#[trigger] qpe_power_pos(
        c as int,
        q,
        m,
    )] == (Gate::Double {
        gate: DoubleGate::CNOT,
        control: Qubit(q as usize),
        target: Qubit(t as usize),
    }) by {
        lemma_controlled_powers_at(t, c, q as nat, m as nat);
        lemma_controlled_powers_len(t, (q + 1) as nat);
        lemma_controlled_powers_prefix(t, (q + 1) as nat, c);
        vstd::arithmetic::power2::lemma_pow2_unfold((q + 1) as nat);
        assert(pow2(q as nat) - 1 + m < cp.len());
    }
    assert forall|q: int| 0 <= q < c implies qpe_gates(c, t)[#[trigger] qpe_closing_pos(c as int, q)]
        == (Gate::Single { gate: SingleGate::Hadamard, target: Qubit(q as usize) }) by {
        lemma_hadamard_layer_at(c, q as nat);
    }
}

/// `ms` measures qubit `k` into classical bit `k`, at position `k`, for each `k` in `0 .. n`.
pub open spec fn measures_each_in_order(ms: Seq<Measurement>, n: nat) -> bool {
    &&& ms.len() == n
    &&& forall|k: int|
        0 <= k < n ==> #[trigger] ms[k] == Measurement {
            qubit: Qubit(k as usize),
            classical_bit: k as usize,
        }
}

/// `measure_all(n)` measures each qubit into its own classical bit, in order.
pub proof fn lemma_measure_all_layout(n: nat)
    ensures
        measures_each_in_order(measure_all(n), n),
{
    lemma_measure_all(n);
}

} // verus!
