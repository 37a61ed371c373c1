//! Key generation: turning trapdoor material sampled by a setup ceremony
//! into a proving key and a verification key bound to one circuit.
#![allow(unused_imports)]
use vstd::prelude::*;
use crate::circuit::{Circuit, Gate, GateKind};
use crate::error::ZkError;
use crate::field::{MODULUS, fmul, mul_mod};
use crate::groth::{
    Constraint, ProvingKey, VerificationKey, constraint_of_gate, constraints_of, keys_match,
    pk_matches_circuit, constraint_in_range, scalars_reduced,
};

verus! {

/// Trapdoor material a setup ceremony samples: the secret scalars, the
/// per-signal basis elements, the public-input basis and the constraint
/// weights.
#[derive(Debug)]
pub struct Trapdoor {
    pub alpha: u64,
    pub beta: u64,
    pub gamma: u64,
    pub delta: u64,
    pub delta_inv: u64,
    pub a_basis: Vec<u64>,
    pub b_basis: Vec<u64>,
    pub ic: Vec<u64>,
    pub tau: Vec<u64>,
}

impl Trapdoor {
    /// The material fits the circuit: reduced scalars, a genuine inverse
    /// for `delta`, and one basis element per signal, public signal and
    /// constraint respectively.
    pub open spec fn wf_for(&self, c: Circuit) -> bool {
        &&& self.alpha < MODULUS
        &&& self.beta < MODULUS
        &&& self.gamma < MODULUS
        &&& self.delta < MODULUS
        &&& self.delta_inv < MODULUS
        &&& fmul(self.delta as int, self.delta_inv as int) == 1
        &&& self.a_basis@.len() == c.num_signals
        &&& self.b_basis@.len() == c.num_signals
        &&& self.ic@.len() == c.num_public
        &&& self.tau@.len() == c.gates@.len() + c.equalities@.len()
        &&& forall|i: int| 0 <= i < self.a_basis@.len() ==> (#[trigger] self.a_basis@[i]) < MODULUS
        &&& forall|i: int| 0 <= i < self.b_basis@.len() ==> (#[trigger] self.b_basis@[i]) < MODULUS
        &&& forall|i: int| 0 <= i < self.ic@.len() ==> (#[trigger] self.ic@[i]) < MODULUS
        &&& forall|i: int| 0 <= i < self.tau@.len() ==> (#[trigger] self.tau@[i]) < MODULUS
    }
}

/// Copies a scalar vector.
fn copy_scalars(v: &Vec<u64>) -> (r: Vec<u64>)
    ensures
        r@ == v@,
{
    let mut r: Vec<u64> = Vec::new();
    let mut i: usize = 0;
    while i < v.len()
        invariant
            i <= v@.len(),
            r@ =~= v@.subrange(0, i as int),
        decreases v@.len() - i,
    {
        r.push(v[i]);
        i += 1;
    }
    proof {
        assert(r@ =~= v@);
    }
    r
}

/// Builds the constraint system of a circuit: one constraint per gate in
/// order, then one per declared equality.
fn build_constraints(c: &Circuit) -> (r: Vec<Constraint>)
    ensures
        r@ == constraints_of(*c),
{
    let glen = c.gates.len();
    let mut cons: Vec<Constraint> = Vec::new();
    let mut j: usize = 0;
    while j < glen
        invariant
            j <= c.gates@.len(),
            glen == c.gates@.len(),
            cons@.len() == j,
            forall|k: int| 0 <= k < j
                ==> (#[trigger] cons@[k]) == constraint_of_gate(c.gates@[k]),
        decreases c.gates@.len() - j,
    {
        let g = c.gates[j];
        let ct = match g.kind {
            GateKind::Add(x, y) => Constraint::AddGate(x, y, g.out),
            GateKind::Mul(x, y) => Constraint::MulGate(x, y, g.out),
            GateKind::Const(v) => Constraint::ConstGate(v, g.out),
        };
        cons.push(ct);
        j += 1;
    }
    let mut q: usize = 0;
    while q < c.equalities.len()
        invariant
            q <= c.equalities@.len(),
            glen == c.gates@.len(),
            cons@.len() == glen + q,
            forall|k: int| 0 <= k < glen
                ==> (#[trigger] cons@[k]) == constraint_of_gate(c.gates@[k]),
            forall|k: int| 0 <= k < q
                ==> (#[trigger] cons@[glen + k]) == Constraint::Equal(
                    c.equalities@[k].0,
                    c.equalities@[k].1,
                ),
        decreases c.equalities@.len() - q,
    {
        let (a, b) = c.equalities[q];
        cons.push(Constraint::Equal(a, b));
        q += 1;
    }
    proof {
        assert forall|k: int| 0 <= k < cons@.len() implies cons@[k] == constraints_of(*c)[k] by {
            if k < glen as int {
                assert(constraints_of(*c)[k] == constraint_of_gate(c.gates@[k]));
            } else {
                let q2 = k - glen;
                assert(cons@[glen + q2] == Constraint::Equal(
                    c.equalities@[q2].0,
                    c.equalities@[q2].1,
                ));
                assert(constraints_of(*c)[k] == Constraint::Equal(
                    c.equalities@[q2].0,
                    c.equalities@[q2].1,
                ));
            }
        }
        assert(cons@ =~= constraints_of(*c));
    }
    cons
}

/// Derives the proving and verification keys from a circuit and trapdoor
/// material. Fails with `KeyCircuitMismatch` exactly when the material does
/// not fit the circuit; on success the two keys match each other and the
/// circuit, and satisfy their internal invariants.
pub fn setup(c: &Circuit, t: &Trapdoor) -> (res: Result<(ProvingKey, VerificationKey), ZkError>)
    requires
        c.wf(),
    ensures
        match res {
            Ok(keys) => t.wf_for(*c) && keys.0.wf() && keys.1.wf() && keys_match(keys.0, keys.1)
                && pk_matches_circuit(keys.0, *c) && keys.0.alpha == t.alpha && keys.0.beta
                == t.beta && keys.0.gamma == t.gamma && keys.0.delta == t.delta
                && keys.0.delta_inv == t.delta_inv && keys.0.a_basis@ == t.a_basis@
                && keys.0.b_basis@ == t.b_basis@ && keys.0.ic@ == t.ic@ && keys.0.tau@ == t.tau@,
            Err(e) => e == ZkError::KeyCircuitMismatch && !t.wf_for(*c),
        },
{
    if t.alpha >= MODULUS || t.beta >= MODULUS || t.gamma >= MODULUS || t.delta >= MODULUS
        || t.delta_inv >= MODULUS {
        return Err(ZkError::KeyCircuitMismatch);
    }
    if mul_mod(t.delta, t.delta_inv) != 1 {
        return Err(ZkError::KeyCircuitMismatch);
    }
    if t.a_basis.len() != c.num_signals || t.b_basis.len() != c.num_signals || t.ic.len()
        != c.num_public {
        return Err(ZkError::KeyCircuitMismatch);
    }
    if t.tau.len() < c.gates.len() {
        return Err(ZkError::KeyCircuitMismatch);
    }
    if t.tau.len() - c.gates.len() != c.equalities.len() {
        return Err(ZkError::KeyCircuitMismatch);
    }
    if !scalars_reduced(&t.a_basis) || !scalars_reduced(&t.b_basis) || !scalars_reduced(&t.ic)
        || !scalars_reduced(&t.tau) {
        return Err(ZkError::KeyCircuitMismatch);
    }
    let cons = build_constraints(c);
    proof {
        assert forall|j: int| 0 <= j < cons@.len()
            implies constraint_in_range(#[trigger] cons@[j], c.num_signals) by {
            if j < c.gates@.len() {
                assert(c.gate_ok(j));
                assert(cons@[j] == constraint_of_gate(c.gates@[j]));
            } else {
                assert(cons@[j] == Constraint::Equal(
                    c.equalities@[j - c.gates@.len()].0,
                    c.equalities@[j - c.gates@.len()].1,
                ));
            }
        }
    }
    let pk = ProvingKey {
        num_signals: c.num_signals,
        num_public: c.num_public,
        alpha: t.alpha,
        beta: t.beta,
        gamma: t.gamma,
        delta: t.delta,
        delta_inv: t.delta_inv,
        a_basis: copy_scalars(&t.a_basis),
        b_basis: copy_scalars(&t.b_basis),
        ic: copy_scalars(&t.ic),
        tau: copy_scalars(&t.tau),
        constraints: cons,
    };
    let vk = VerificationKey {
        alpha: t.alpha,
        beta: t.beta,
        gamma: t.gamma,
        delta: t.delta,
        ic: copy_scalars(&t.ic),
    };
    Ok((pk, vk))
}

} // verus!
