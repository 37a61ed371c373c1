//! The witness evaluator: walking the gates in their load-time order to
//! fill in every signal of the circuit from the caller's input bindings.
//! Evaluation is a pure function of the circuit and the bindings, which
//! makes repeated calls bit-for-bit identical.
#![allow(unused_imports)]
use vstd::prelude::*;
use crate::circuit::{Circuit, Gate, GateKind};
use crate::error::ZkError;
use crate::field::{MODULUS, fadd, fmul, p, add_mod, mul_mod};

verus! {

/// One input binding: a value for a named (index-addressed) input signal.
#[derive(Clone, Copy, Debug, PartialEq, Eq, Structural)]
pub struct Binding {
    pub signal: usize,
    pub value: u64,
}

/// The first value bound to signal `s`, if any.
pub open spec fn spec_lookup(b: Seq<Binding>, s: usize) -> Option<u64>
    decreases b.len(),
{
    if b.len() == 0 {
        None
    } else if b[0].signal == s {
        Some(b[0].value)
    } else {
        spec_lookup(b.skip(1), s)
    }
}

/// Every input signal the circuit declares is bound.
pub open spec fn all_bound(c: Circuit, b: Seq<Binding>) -> bool {
    forall|i: int| 0 <= i < c.inputs@.len()
        ==> spec_lookup(b, #[trigger] c.inputs@[i]) is Some
}

/// The witness before any gate has run: bound inputs hold their values,
/// every other signal holds zero.
pub open spec fn init_witness(c: Circuit, b: Seq<Binding>) -> Seq<u64> {
    Seq::new(c.num_signals as nat, |s: int|
        if c.inputs@.contains(s as usize) {
            match spec_lookup(b, s as usize) {
                Some(v) => v,
                None => 0u64,
            }
        } else {
            0u64
        })
}

/// The value a gate produces, given the current assignment.
pub open spec fn gate_val(k: GateKind, w: Seq<u64>) -> int {
    match k {
        GateKind::Add(x, y) => fadd(w[x as int] as int, w[y as int] as int),
        GateKind::Mul(x, y) => fmul(w[x as int] as int, w[y as int] as int),
        GateKind::Const(v) => v as int,
    }
}

/// The assignment after the first `j` gates have run, in order.
pub open spec fn eval_gates(c: Circuit, w0: Seq<u64>, j: int) -> Seq<u64>
    decreases j,
{
    if j <= 0 {
        w0
    } else {
        let w = eval_gates(c, w0, j - 1);
        w.update(c.gates@[j - 1].out as int, gate_val(c.gates@[j - 1].kind, w) as u64)
    }
}

/// The full witness: what `evaluate` returns on success.
pub open spec fn spec_evaluate(c: Circuit, b: Seq<Binding>) -> Seq<u64> {
    eval_gates(c, init_witness(c, b), c.gates@.len() as int)
}

/// The assignment is arithmetically consistent: at every row, the target
/// holds what the row computes from its two sources.
pub open spec fn gates_satisfied(c: Circuit, w: Seq<u64>) -> bool {
    forall|j: int| 0 <= j < c.gates@.len()
        ==> w[(#[trigger] c.gates@[j]).out as int] as int == gate_val(c.gates@[j].kind, w)
}

/// Running more gates never changes a signal that was already available.
proof fn lemma_eval_gates_stable(c: Circuit, w0: Seq<u64>, j: int, j2: int, s: usize)
    requires
        c.wf(),
        0 <= j <= j2 <= c.gates@.len(),
        c.available(j, s),
        s < c.num_signals,
        w0.len() == c.num_signals,
    ensures
        eval_gates(c, w0, j2)[s as int] == eval_gates(c, w0, j)[s as int],
    decreases j2 - j,
{
    lemma_eval_gates_len(c, w0, j2);
    if j2 > j {
        lemma_eval_gates_stable(c, w0, j, j2 - 1, s);
        assert(c.gate_ok(j2 - 1));
        assert(c.available(j2 - 1, s)) by {
            if !c.inputs@.contains(s) {
                let k = choose|k: int|
                    0 <= k < j && j <= c.gates@.len() && (#[trigger] c.gates@[k]).out == s;
                assert(0 <= k < j2 - 1 && (c.gates@[k]).out == s);
            }
        }
        assert(c.gates@[j2 - 1].out != s);
        lemma_eval_gates_len(c, w0, j2 - 1);
    }
}

/// Gate evaluation preserves the assignment's length.
proof fn lemma_eval_gates_len(c: Circuit, w0: Seq<u64>, j: int)
    requires
        c.wf(),
        0 <= j <= c.gates@.len(),
        w0.len() == c.num_signals,
    ensures
        eval_gates(c, w0, j).len() == w0.len(),
    decreases j,
{
    if j > 0 {
        lemma_eval_gates_len(c, w0, j - 1);
        assert(c.gate_ok(j - 1));
    }
}

/// Gate evaluation keeps every signal a reduced field element.
proof fn lemma_eval_gates_bounds(c: Circuit, w0: Seq<u64>, j: int)
    requires
        c.wf(),
        0 <= j <= c.gates@.len(),
        w0.len() == c.num_signals,
        forall|s: int| 0 <= s < w0.len() ==> (#[trigger] w0[s]) < MODULUS,
    ensures
        forall|s: int| 0 <= s < eval_gates(c, w0, j).len()
            ==> (#[trigger] eval_gates(c, w0, j)[s]) < MODULUS,
    decreases j,
{
    if j > 0 {
        lemma_eval_gates_bounds(c, w0, j - 1);
        lemma_eval_gates_len(c, w0, j - 1);
        assert(c.gate_ok(j - 1));
        let w = eval_gates(c, w0, j - 1);
        assert(gate_val(c.gates@[j - 1].kind, w) < p()) by {
            match c.gates@[j - 1].kind {
                GateKind::Add(x, y) => {
                    assert(0 <= fadd(w[x as int] as int, w[y as int] as int) < p());
                },
                GateKind::Mul(x, y) => {
                    assert(0 <= fmul(w[x as int] as int, w[y as int] as int) < p());
                },
                GateKind::Const(v) => {},
            }
        }
    }
}

/// The evaluated witness satisfies every gate equation exactly.
proof fn lemma_eval_gates_satisfied(c: Circuit, b: Seq<Binding>)
    requires
        c.wf(),
    ensures
        gates_satisfied(c, spec_evaluate(c, b)),
{
    let w0 = init_witness(c, b);
    let glen = c.gates@.len() as int;
    let wf = spec_evaluate(c, b);
    lemma_eval_gates_len(c, w0, glen);
    assert forall|j: int| 0 <= j < glen
        implies wf[(#[trigger] c.gates@[j]).out as int] as int
            == gate_val(c.gates@[j].kind, wf) by {
        assert(c.gate_ok(j));
        let g = c.gates@[j];
        let wj = eval_gates(c, w0, j);
        let wj1 = eval_gates(c, w0, j + 1);
        lemma_eval_gates_len(c, w0, j);
        assert(wj1[g.out as int] as int == gate_val(g.kind, wj));
        assert(c.available(j + 1, g.out)) by {
            assert(0 <= j < j + 1 && j + 1 <= c.gates@.len() && c.gates@[j].out == g.out);
        }
        lemma_eval_gates_stable(c, w0, j + 1, glen, g.out);
        assert(wf[g.out as int] as int == gate_val(g.kind, wj));
        assert(gate_val(g.kind, wj) == gate_val(g.kind, wf)) by {
            match g.kind {
                GateKind::Add(x, y) | GateKind::Mul(x, y) => {
                    lemma_eval_gates_stable(c, w0, j, glen, x);
                    lemma_eval_gates_stable(c, w0, j, glen, y);
                },
                GateKind::Const(v) => {},
            }
        }
    }
}

/// Input signals keep their bound values through evaluation.
proof fn lemma_eval_gates_inputs(c: Circuit, b: Seq<Binding>)
    requires
        c.wf(),
    ensures
        forall|i: int| 0 <= i < c.inputs@.len()
            ==> spec_evaluate(c, b)[(#[trigger] c.inputs@[i]) as int]
                == init_witness(c, b)[c.inputs@[i] as int],
{
    let w0 = init_witness(c, b);
    let glen = c.gates@.len() as int;
    assert forall|i: int| 0 <= i < c.inputs@.len()
        implies spec_evaluate(c, b)[(#[trigger] c.inputs@[i]) as int]
            == w0[c.inputs@[i] as int] by {
        let s = c.inputs@[i];
        assert(c.inputs@.contains(s));
        assert(c.available(0, s));
        lemma_eval_gates_stable(c, w0, 0, glen, s);
    }
}

/// Looks up the first binding for signal `s`.
fn lookup_binding(bindings: &Vec<Binding>, s: usize) -> (r: Option<u64>)
    ensures
        r == spec_lookup(bindings@, s),
{
    proof {
        assert(bindings@.skip(0) =~= bindings@);
    }
    let mut i: usize = 0;
    while i < bindings.len()
        invariant
            i <= bindings@.len(),
            spec_lookup(bindings@, s) == spec_lookup(bindings@.skip(i as int), s),
        decreases bindings@.len() - i,
    {
        if bindings[i].signal == s {
            proof {
                assert(bindings@.skip(i as int)[0] == bindings@[i as int]);
            }
            return Some(bindings[i].value);
        }
        proof {
            assert(bindings@.skip(i as int)[0] == bindings@[i as int]);
            assert(bindings@.skip(i as int).skip(1) =~= bindings@.skip(i as int + 1));
        }
        i += 1;
    }
    proof {
        assert(bindings@.skip(i as int).len() == 0);
    }
    None
}

/// Evaluates the circuit on the given input bindings, producing the full
/// witness, one reduced field element per signal. The result is a pure
/// function of the circuit and the bindings: repeated calls on the same
/// arguments return bit-for-bit identical witnesses. Fails with
/// `MissingInput` exactly when a declared input signal has no binding;
/// absent inputs are never silently given a default value.
pub fn evaluate(c: &Circuit, bindings: &Vec<Binding>) -> (r: Result<Vec<u64>, ZkError>)
    requires
        c.wf(),
        forall|i: int| 0 <= i < bindings@.len() ==> (#[trigger] bindings@[i]).value < MODULUS,
    ensures
        match r {
            Ok(w) => {
                &&& w@ == spec_evaluate(*c, bindings@)
                &&& w@.len() == c.num_signals
                &&& all_bound(*c, bindings@)
                &&& forall|s: int| 0 <= s < w@.len() ==> (#[trigger] w@[s]) < MODULUS
                &&& gates_satisfied(*c, w@)
                &&& forall|i: int| 0 <= i < c.inputs@.len()
                    ==> spec_lookup(bindings@, #[trigger] c.inputs@[i])
                        == Some(w@[c.inputs@[i] as int])
            },
            Err(e) => e == ZkError::MissingInput && !all_bound(*c, bindings@),
        },
{
    let n: usize = c.num_signals;
    let mut w: Vec<u64> = Vec::new();
    let mut t: usize = 0;
    while t < n
        invariant
            t <= n,
            w@.len() == t,
            forall|k: int| 0 <= k < t ==> (#[trigger] w@[k]) == 0u64,
        decreases n - t,
    {
        w.push(0u64);
        t += 1;
    }

    let mut i: usize = 0;
    while i < c.inputs.len()
        invariant
            i <= c.inputs@.len(),
            c.wf(),
            n == c.num_signals,
            w@.len() == n,
            forall|k: int| 0 <= k < bindings@.len()
                ==> (#[trigger] bindings@[k]).value < MODULUS,
            forall|k: int| 0 <= k < i
                ==> spec_lookup(bindings@, #[trigger] c.inputs@[k]) is Some,
            forall|s: usize| s < n
                ==> #[trigger] w@[s as int] == (if (exists|k: int|
                        0 <= k < i && (#[trigger] c.inputs@[k]) == s) {
                    spec_lookup(bindings@, s).unwrap()
                } else {
                    0u64
                }),
            forall|s: int| 0 <= s < w@.len() ==> (#[trigger] w@[s]) < MODULUS,
        decreases c.inputs@.len() - i,
    {
        let s = c.inputs[i];
        assert(s < n);
        match lookup_binding(bindings, s) {
            Some(v) => {
                proof {
                    lemma_lookup_bound(bindings@, s);
                }
                w.set(s, v);
            },
            None => {
                return Err(ZkError::MissingInput);
            },
        }
        i += 1;
    }

    proof {
        assert(w@ =~= init_witness(*c, bindings@)) by {
            assert forall|s: int| 0 <= s < n implies w@[s]
                == init_witness(*c, bindings@)[s] by {
                let su = s as usize;
                assert(w@[su as int] == (if (exists|k: int|
                        0 <= k < c.inputs@.len() && (#[trigger] c.inputs@[k]) == su) {
                    spec_lookup(bindings@, su).unwrap()
                } else {
                    0u64
                }));
                assert((exists|k: int|
                    0 <= k < c.inputs@.len() && (#[trigger] c.inputs@[k]) == su)
                    == c.inputs@.contains(su));
                if c.inputs@.contains(su) {
                    let k = choose|k: int|
                        0 <= k < c.inputs@.len() && (#[trigger] c.inputs@[k]) == su;
                    assert(spec_lookup(bindings@, c.inputs@[k]) is Some);
                }
            }
        }
    }
    let ghost w0 = init_witness(*c, bindings@);

    let mut j: usize = 0;
    while j < c.gates.len()
        invariant
            j <= c.gates@.len(),
            c.wf(),
            n == c.num_signals,
            w@.len() == n,
            w@ == eval_gates(*c, w0, j as int),
            w0 == init_witness(*c, bindings@),
            w0.len() == n,
            forall|s: int| 0 <= s < w@.len() ==> (#[trigger] w@[s]) < MODULUS,
        decreases c.gates@.len() - j,
    {
        let g = c.gates[j];
        proof {
            assert(c.gate_ok(j as int));
        }
        let val: u64 = match g.kind {
            GateKind::Add(x, y) => add_mod(w[x], w[y]),
            GateKind::Mul(x, y) => mul_mod(w[x], w[y]),
            GateKind::Const(v) => v,
        };
        proof {
            assert(val as int == gate_val(g.kind, w@));
        }
        w.set(g.out, val);
        j += 1;
    }

    proof {
        lemma_eval_gates_satisfied(*c, bindings@);
        lemma_eval_gates_inputs(*c, bindings@);
        assert forall|i2: int| 0 <= i2 < c.inputs@.len()
            implies spec_lookup(bindings@, #[trigger] c.inputs@[i2])
                == Some(w@[c.inputs@[i2] as int]) by {
            let s = c.inputs@[i2];
            assert(c.inputs@.contains(s));
            assert(w0[s as int] == spec_lookup(bindings@, s).unwrap());
        }
    }
    Ok(w)
}

/// A binding's value is a reduced field element whenever every binding's is.
proof fn lemma_lookup_bound(b: Seq<Binding>, s: usize)
    requires
        forall|i: int| 0 <= i < b.len() ==> (#[trigger] b[i]).value < MODULUS,
        spec_lookup(b, s) is Some,
    ensures
        spec_lookup(b, s).unwrap() < MODULUS,
    decreases b.len(),
{
    if b.len() > 0 && b[0].signal != s {
        assert(forall|i: int| 0 <= i < b.skip(1).len()
            ==> (#[trigger] b.skip(1)[i]).value < MODULUS);
        lemma_lookup_bound(b.skip(1), s);
    }
}

/// Evaluation is deterministic: two results of `evaluate` on one circuit
/// and one binding set are equal.
pub proof fn lemma_evaluate_deterministic(c: Circuit, b: Seq<Binding>, w1: Seq<u64>, w2: Seq<u64>)
    requires
        w1 == spec_evaluate(c, b),
        w2 == spec_evaluate(c, b),
    ensures
        w1 == w2,
{
}

} // verus!
