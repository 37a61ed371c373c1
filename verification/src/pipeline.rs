//! One synchronous request through the whole pipeline: evaluate the
//! circuit on the caller's input bindings, generate a proof under the
//! proving key, and check it against the public part of the witness.
#![allow(unused_imports)]
use vstd::prelude::*;
use crate::circuit::{Circuit, Gate, GateKind};
use crate::error::ZkError;
use crate::eval::{Binding, evaluate, spec_evaluate, all_bound};
use crate::field::{MODULUS, fmul};
use crate::groth::{
    Constraint, ProvingKey, VerificationKey, Proof, constraint_of_gate, constraints_of,
    keys_match, pk_matches_circuit, prove, verify, spec_prove, verify_spec, total_error,
    equalities_hold, satisfies, lemma_verify_characterization, lemma_round_trip,
};

verus! {

/// Decides whether the two keys came from one setup (executable form).
pub fn keys_match_exec(pk: &ProvingKey, vk: &VerificationKey) -> (b: bool)
    ensures
        b == keys_match(*pk, *vk),
{
    if vk.alpha != pk.alpha || vk.beta != pk.beta || vk.gamma != pk.gamma || vk.delta
        != pk.delta {
        return false;
    }
    if vk.ic.len() != pk.ic.len() {
        assert(vk.ic@ != pk.ic@);
        return false;
    }
    let mut i: usize = 0;
    while i < vk.ic.len()
        invariant
            i <= vk.ic@.len(),
            vk.ic@.len() == pk.ic@.len(),
            forall|k: int| 0 <= k < i ==> (#[trigger] vk.ic@[k]) == pk.ic@[k],
        decreases vk.ic@.len() - i,
    {
        if vk.ic[i] != pk.ic[i] {
            assert(vk.ic@ != pk.ic@);
            return false;
        }
        i += 1;
    }
    proof {
        assert(vk.ic@ =~= pk.ic@);
    }
    true
}

/// Decides whether the proving key was built for this circuit
/// (executable form).
pub fn pk_matches_circuit_exec(pk: &ProvingKey, c: &Circuit) -> (b: bool)
    ensures
        b == pk_matches_circuit(*pk, *c),
{
    if pk.num_signals != c.num_signals || pk.num_public != c.num_public {
        return false;
    }
    let glen = c.gates.len();
    if pk.constraints.len() < glen {
        assert(pk.constraints@ != constraints_of(*c));
        return false;
    }
    if pk.constraints.len() - glen != c.equalities.len() {
        assert(pk.constraints@ != constraints_of(*c));
        return false;
    }
    let mut j: usize = 0;
    while j < glen
        invariant
            j <= c.gates@.len(),
            glen == c.gates@.len(),
            pk.constraints@.len() == glen + c.equalities@.len(),
            forall|k: int| 0 <= k < j
                ==> (#[trigger] pk.constraints@[k]) == constraint_of_gate(c.gates@[k]),
        decreases c.gates@.len() - j,
    {
        let g = c.gates[j];
        let ct = match g.kind {
            GateKind::Add(x, y) => Constraint::AddGate(x, y, g.out),
            GateKind::Mul(x, y) => Constraint::MulGate(x, y, g.out),
            GateKind::Const(v) => Constraint::ConstGate(v, g.out),
        };
        if pk.constraints[j] != ct {
            assert(constraints_of(*c)[j as int] == constraint_of_gate(c.gates@[j as int]));
            assert(pk.constraints@ != constraints_of(*c));
            return false;
        }
        j += 1;
    }
    let clen = pk.constraints.len();
    let mut q: usize = 0;
    while q < c.equalities.len()
        invariant
            q <= c.equalities@.len(),
            glen == c.gates@.len(),
            clen == pk.constraints@.len(),
            pk.constraints@.len() == glen + c.equalities@.len(),
            forall|k: int| 0 <= k < glen
                ==> (#[trigger] pk.constraints@[k]) == constraint_of_gate(c.gates@[k]),
            forall|k: int| 0 <= k < q
                ==> (#[trigger] pk.constraints@[glen + k]) == Constraint::Equal(
                    c.equalities@[k].0,
                    c.equalities@[k].1,
                ),
        decreases c.equalities@.len() - q,
    {
        let (a, b) = c.equalities[q];
        assert(glen + q < clen);
        if pk.constraints[glen + q] != Constraint::Equal(a, b) {
            assert(constraints_of(*c)[glen + q as int] == Constraint::Equal(
                c.equalities@[q as int].0,
                c.equalities@[q as int].1,
            ));
            assert(pk.constraints@ != constraints_of(*c));
            return false;
        }
        q += 1;
    }
    proof {
        assert forall|k: int| 0 <= k < pk.constraints@.len() implies pk.constraints@[k]
            == constraints_of(*c)[k] by {
            if k < glen as int {
                assert(constraints_of(*c)[k] == constraint_of_gate(c.gates@[k]));
            } else {
                let q2 = k - glen;
                assert(pk.constraints@[glen + q2] == Constraint::Equal(
                    c.equalities@[q2].0,
                    c.equalities@[q2].1,
                ));
                assert(constraints_of(*c)[k] == Constraint::Equal(
                    c.equalities@[q2].0,
                    c.equalities@[q2].1,
                ));
            }
        }
        assert(pk.constraints@ =~= constraints_of(*c));
    }
    true
}

/// Runs one full request: evaluate, prove under the two supplied blinding
/// scalars, then verify against the public prefix of the witness. The
/// outcome characterizes the witness exactly: the proof verifies if and
/// only if the delta-scaled, tau-weighted constraint error of the
/// evaluated witness vanishes; in particular a witness satisfying the
/// whole constraint system always yields `Ok(true)`. Key material that
/// does not belong together or to the circuit is rejected up front with
/// `KeyCircuitMismatch`, and unbound inputs with `MissingInput`.
pub fn run_pipeline(
    c: &Circuit,
    pk: &ProvingKey,
    vk: &VerificationKey,
    bindings: &Vec<Binding>,
    r: u64,
    s: u64,
) -> (res: Result<bool, ZkError>)
    requires
        c.wf(),
        pk.wf(),
        vk.wf(),
        forall|i: int| 0 <= i < bindings@.len() ==> (#[trigger] bindings@[i]).value < MODULUS,
        r < MODULUS,
        s < MODULUS,
    ensures
        match res {
            Ok(ok) => {
                &&& keys_match(*pk, *vk)
                &&& pk_matches_circuit(*pk, *c)
                &&& all_bound(*c, bindings@)
                &&& ok == verify_spec(
                    *vk,
                    spec_evaluate(*c, bindings@).subrange(0, pk.num_public as int),
                    spec_prove(*pk, spec_evaluate(*c, bindings@), r, s),
                )
                &&& ok == (fmul(total_error(*pk, spec_evaluate(*c, bindings@)), pk.delta as int)
                    == 0)
                &&& (equalities_hold(*c, spec_evaluate(*c, bindings@)) ==> ok)
            },
            Err(e) => {
                ||| (e == ZkError::KeyCircuitMismatch && !(keys_match(*pk, *vk)
                    && pk_matches_circuit(*pk, *c)))
                ||| (e == ZkError::MissingInput && keys_match(*pk, *vk) && pk_matches_circuit(
                    *pk,
                    *c,
                ) && !all_bound(*c, bindings@))
            },
        },
{
    if !keys_match_exec(pk, vk) || !pk_matches_circuit_exec(pk, c) {
        return Err(ZkError::KeyCircuitMismatch);
    }
    let w = match evaluate(c, bindings) {
        Ok(w) => w,
        Err(e) => {
            return Err(e);
        },
    };
    let pf = match prove(pk, &w, r, s) {
        Ok(pf) => pf,
        Err(e) => {
            proof {
                assert(false);
            }
            return Err(e);
        },
    };
    let np = pk.num_public;
    let mut pub_in: Vec<u64> = Vec::new();
    let mut i: usize = 0;
    while i < np
        invariant
            i <= np,
            np <= w@.len(),
            pub_in@.len() == i,
            forall|k: int| 0 <= k < i ==> (#[trigger] pub_in@[k]) == w@[k],
        decreases np - i,
    {
        pub_in.push(w[i]);
        i += 1;
    }
    proof {
        assert(pub_in@ =~= w@.subrange(0, np as int));
        assert(forall|k: int| 0 <= k < pub_in@.len()
            ==> (#[trigger] pub_in@[k]) < MODULUS);
    }
    match verify(vk, &pub_in, &pf) {
        Ok(ok) => {
            proof {
                lemma_verify_characterization(*pk, *vk, w@, r, s);
                if equalities_hold(*c, w@) {
                    lemma_round_trip(*c, *pk, *vk, w@, r, s);
                }
            }
            Ok(ok)
        },
        Err(e) => {
            proof {
                assert(false);
            }
            Err(e)
        },
    }
}

} // verus!
