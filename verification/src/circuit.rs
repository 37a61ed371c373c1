//! The arithmetic circuit: a directed acyclic graph of gates over indexed
//! signals, with a structural well-formedness invariant checked once at load
//! time.
#![allow(unused_imports)]
use vstd::prelude::*;
use crate::error::ZkError;
use crate::field::MODULUS;

verus! {

/// The operation a gate performs.
#[derive(Clone, Copy, Debug, PartialEq, Eq, Structural)]
pub enum GateKind {
    /// Field addition of two operand signals.
    Add(usize, usize),
    /// Field multiplication of two operand signals.
    Mul(usize, usize),
    /// A constant field element.
    Const(u64),
}

/// One gate: an operation and the single signal it produces.
#[derive(Clone, Copy, Debug, PartialEq, Eq, Structural)]
pub struct Gate {
    pub kind: GateKind,
    pub out: usize,
}

/// An arithmetic circuit over signals `0 .. num_signals`. Signals
/// `0 .. num_public` form the public part of a witness. Every signal is
/// either a declared input or the output of exactly one gate, and gates are
/// stored in a topological order fixed at load time.
#[derive(Debug)]
pub struct Circuit {
    pub num_signals: usize,
    pub num_public: usize,
    /// Signals that must be bound by the caller before evaluation.
    pub inputs: Vec<usize>,
    /// Gates in evaluation order.
    pub gates: Vec<Gate>,
    /// Declared equalities between signals; enforced by the proof system,
    /// not by evaluation.
    pub equalities: Vec<(usize, usize)>,
}

impl Circuit {
    /// Signal `s` is an input or is produced by a gate before position `j`.
    pub open spec fn available(&self, j: int, s: usize) -> bool {
        self.inputs@.contains(s) || exists|k: int|
            0 <= k < j && j <= self.gates@.len() && (#[trigger] self.gates@[k]).out == s
    }

    /// Row `j` draws its operands from what is available at that point,
    /// and its target index is fresh.
    pub open spec fn gate_ok(&self, j: int) -> bool {
        let g = self.gates@[j];
        &&& g.out < self.num_signals
        &&& !self.available(j, g.out)
        &&& match g.kind {
            GateKind::Add(x, y) => x < self.num_signals && y < self.num_signals
                && self.available(j, x) && self.available(j, y),
            GateKind::Mul(x, y) => x < self.num_signals && y < self.num_signals
                && self.available(j, x) && self.available(j, y),
            GateKind::Const(v) => v < MODULUS,
        }
    }

    /// Structural invariant: acyclicity via topological gate order, unique
    /// producers, full coverage of the signal space, and in-range indices.
    pub open spec fn wf(&self) -> bool {
        &&& self.num_public <= self.num_signals
        &&& forall|i: int| 0 <= i < self.inputs@.len()
            ==> (#[trigger] self.inputs@[i]) < self.num_signals
        &&& forall|i: int, j: int| 0 <= i < j < self.inputs@.len()
            ==> self.inputs@[i] != self.inputs@[j]
        &&& forall|j: int| 0 <= j < self.gates@.len() ==> #[trigger] self.gate_ok(j)
        &&& forall|s: usize| s < self.num_signals
            ==> #[trigger] self.available(self.gates@.len() as int, s)
        &&& forall|i: int| 0 <= i < self.equalities@.len()
            ==> (#[trigger] self.equalities@[i]).0 < self.num_signals
                && self.equalities@[i].1 < self.num_signals
    }

    /// Decides the structural invariant; runs once at circuit load.
    pub fn validate(&self) -> (b: bool)
        ensures
            b == self.wf(),
    {
        if self.num_public > self.num_signals {
            return false;
        }
        let n: usize = self.num_signals;

        // `produced[s]` will mirror `self.available(j, s)` as gates are walked.
        let mut produced: Vec<bool> = Vec::new();
        let mut t: usize = 0;
        while t < n
            invariant
                t <= n,
                produced@.len() == t,
                forall|k: int| 0 <= k < t ==> !(#[trigger] produced@[k]),
            decreases n - t,
        {
            produced.push(false);
            t += 1;
        }

        let mut i: usize = 0;
        while i < self.inputs.len()
            invariant
                i <= self.inputs@.len(),
                produced@.len() == n,
                n == self.num_signals,
                forall|k: int| 0 <= k < i ==> (#[trigger] self.inputs@[k]) < n,
                forall|k1: int, k2: int| 0 <= k1 < k2 < i
                    ==> self.inputs@[k1] != self.inputs@[k2],
                forall|s: usize| s < n
                    ==> #[trigger] produced@[s as int] == exists|k: int|
                        0 <= k < i && (#[trigger] self.inputs@[k]) == s,
            decreases self.inputs@.len() - i,
        {
            let s = self.inputs[i];
            if s >= n {
                proof {
                    if self.wf() {
                        assert(self.inputs@[i as int] < self.num_signals);
                    }
                }
                return false;
            }
            if produced[s] {
                proof {
                    let k = choose|k: int|
                        0 <= k < i && (#[trigger] self.inputs@[k]) == s;
                    if self.wf() {
                        assert(self.inputs@[k] != self.inputs@[i as int]);
                    }
                }
                return false;
            }
            produced.set(s, true);
            i += 1;
        }

        proof {
            assert forall|s: usize| s < n implies #[trigger] produced@[s as int]
                == self.available(0, s) by {
                assert((exists|k: int|
                    0 <= k < self.inputs@.len() && (#[trigger] self.inputs@[k]) == s)
                    == self.inputs@.contains(s));
            }
        }

        let mut j: usize = 0;
        while j < self.gates.len()
            invariant
                j <= self.gates@.len(),
                produced@.len() == n,
                n == self.num_signals,
                self.num_public <= self.num_signals,
                forall|k: int| 0 <= k < self.inputs@.len()
                    ==> (#[trigger] self.inputs@[k]) < n,
                forall|k1: int, k2: int| 0 <= k1 < k2 < self.inputs@.len()
                    ==> self.inputs@[k1] != self.inputs@[k2],
                forall|k: int| 0 <= k < j ==> #[trigger] self.gate_ok(k),
                forall|s: usize| s < n
                    ==> #[trigger] produced@[s as int] == self.available(j as int, s),
            decreases self.gates@.len() - j,
        {
            let g = self.gates[j];
            let ghost jj = j as int;
            match g.kind {
                GateKind::Add(x, y) | GateKind::Mul(x, y) => {
                    if x >= n || y >= n {
                        proof {
                            if self.wf() {
                                assert(self.gate_ok(jj));
                            }
                        }
                        return false;
                    }
                    if !produced[x] || !produced[y] {
                        proof {
                            if self.wf() {
                                assert(self.gate_ok(jj));
                            }
                        }
                        return false;
                    }
                },
                GateKind::Const(v) => {
                    if v >= MODULUS {
                        proof {
                            if self.wf() {
                                assert(self.gate_ok(jj));
                            }
                        }
                        return false;
                    }
                },
            }
            if g.out >= n {
                proof {
                    if self.wf() {
                        assert(self.gate_ok(jj));
                    }
                }
                return false;
            }
            if produced[g.out] {
                proof {
                    if self.wf() {
                        assert(self.gate_ok(jj));
                    }
                }
                return false;
            }
            produced.set(g.out, true);
            proof {
                assert forall|s: usize| s < n implies #[trigger] produced@[s as int]
                    == self.available(jj + 1, s) by {
                    if s == g.out {
                        assert(self.gates@[jj].out == s);
                        assert(self.available(jj + 1, s));
                    } else {
                        assert(self.available(jj + 1, s) == self.available(jj, s)) by {
                            if self.available(jj + 1, s) && !self.inputs@.contains(s) {
                                let k = choose|k: int|
                                    0 <= k < jj + 1 && jj + 1 <= self.gates@.len()
                                        && (#[trigger] self.gates@[k]).out == s;
                                assert(k < jj);
                            }
                        }
                    }
                }
            }
            j += 1;
        }

        let mut s: usize = 0;
        while s < n
            invariant
                s <= n,
                produced@.len() == n,
                n == self.num_signals,
                self.num_public <= self.num_signals,
                forall|k: int| 0 <= k < self.inputs@.len()
                    ==> (#[trigger] self.inputs@[k]) < n,
                forall|k1: int, k2: int| 0 <= k1 < k2 < self.inputs@.len()
                    ==> self.inputs@[k1] != self.inputs@[k2],
                forall|k: int| 0 <= k < self.gates@.len() ==> #[trigger] self.gate_ok(k),
                forall|t2: usize| t2 < n
                    ==> #[trigger] produced@[t2 as int]
                        == self.available(self.gates@.len() as int, t2),
                forall|t2: usize| t2 < s
                    ==> #[trigger] self.available(self.gates@.len() as int, t2),
            decreases n - s,
        {
            if !produced[s] {
                return false;
            }
            s += 1;
        }

        let mut q: usize = 0;
        while q < self.equalities.len()
            invariant
                q <= self.equalities@.len(),
                n == self.num_signals,
                self.num_public <= self.num_signals,
                forall|k: int| 0 <= k < self.inputs@.len()
                    ==> (#[trigger] self.inputs@[k]) < n,
                forall|k1: int, k2: int| 0 <= k1 < k2 < self.inputs@.len()
                    ==> self.inputs@[k1] != self.inputs@[k2],
                forall|k: int| 0 <= k < self.gates@.len() ==> #[trigger] self.gate_ok(k),
                forall|t2: usize| t2 < n
                    ==> #[trigger] self.available(self.gates@.len() as int, t2),
                forall|k: int| 0 <= k < q
                    ==> (#[trigger] self.equalities@[k]).0 < n
                        && self.equalities@[k].1 < n,
            decreases self.equalities@.len() - q,
        {
            let (a, b) = self.equalities[q];
            if a >= n || b >= n {
                proof {
                    if self.wf() {
                        assert((self.equalities@[q as int]).0 < self.num_signals);
                        assert((self.equalities@[q as int]).1 < self.num_signals);
                    }
                }
                return false;
            }
            q += 1;
        }

        true
    }

    /// Builds a circuit from its parts, validating the structural invariant
    /// once; a malformed description is rejected here rather than per request.
    pub fn new(
        num_signals: usize,
        num_public: usize,
        inputs: Vec<usize>,
        gates: Vec<Gate>,
        equalities: Vec<(usize, usize)>,
    ) -> (r: Result<Circuit, ZkError>)
        ensures
            match r {
                Ok(c) => c.wf() && c.num_signals == num_signals && c.num_public == num_public
                    && c.inputs@ == inputs@ && c.gates@ == gates@
                    && c.equalities@ == equalities@,
                Err(e) => e == ZkError::MalformedCircuit && !(Circuit {
                    num_signals,
                    num_public,
                    inputs,
                    gates,
                    equalities,
                }).wf(),
            },
    {
        let c = Circuit { num_signals, num_public, inputs, gates, equalities };
        if c.validate() {
            Ok(c)
        } else {
            Err(ZkError::MalformedCircuit)
        }
    }
}

} // verus!
