//! The proof system: Groth16-shaped proof generation and pairing-style
//! verification over a transparent group. Group elements are scalars of the
//! field, the bilinear map is field multiplication, and the single
//! verification equation has the Groth16 shape
//! `e(A, B) = e(alpha, beta) + e(P, gamma) + e(C, delta)`.
//! Proof generation is a pure function of the proving key, the witness and
//! the two blinding scalars; it never checks satisfiability, so an
//! unsatisfying witness still yields a proof, which verification then
//! rejects whenever the tau-weighted constraint error does not vanish.
#![allow(unused_imports)]
use vstd::prelude::*;
use vstd::arithmetic::div_mod::*;
use crate::circuit::{Circuit, Gate, GateKind};
use crate::error::ZkError;
use crate::eval::gates_satisfied;
use crate::field::{
    MODULUS, p, is_fe, fadd, fsub, fmul, cong, add_mod, sub_mod, mul_mod,
    lemma_cong_eq, lemma_f_ops_cong, lemma_cong_add, lemma_cong_sub, lemma_cong_mul,
    lemma_cong_cancel,
};

verus! {

/// One rank-1 constraint over witness signals.
#[derive(Clone, Copy, Debug, PartialEq, Eq, Structural)]
pub enum Constraint {
    /// The sum of the first two signals equals the third.
    AddGate(usize, usize, usize),
    /// The product of the first two signals equals the third.
    MulGate(usize, usize, usize),
    /// The signal equals the constant.
    ConstGate(u64, usize),
    /// The two signals are equal.
    Equal(usize, usize),
}

/// The constraint induced by one gate.
pub open spec fn constraint_of_gate(g: Gate) -> Constraint {
    match g.kind {
        GateKind::Add(x, y) => Constraint::AddGate(x, y, g.out),
        GateKind::Mul(x, y) => Constraint::MulGate(x, y, g.out),
        GateKind::Const(v) => Constraint::ConstGate(v, g.out),
    }
}

/// The full constraint system of a circuit: one constraint per gate, then
/// one per declared equality.
pub open spec fn constraints_of(c: Circuit) -> Seq<Constraint> {
    c.gates@.map_values(|g: Gate| constraint_of_gate(g))
        + c.equalities@.map_values(|e: (usize, usize)| Constraint::Equal(e.0, e.1))
}

/// All signal references of the constraint lie below `n`, and any constant
/// is reduced.
pub open spec fn constraint_in_range(ct: Constraint, n: usize) -> bool {
    match ct {
        Constraint::AddGate(x, y, o) => x < n && y < n && o < n,
        Constraint::MulGate(x, y, o) => x < n && y < n && o < n,
        Constraint::ConstGate(v, o) => v < MODULUS && o < n,
        Constraint::Equal(a, b) => a < n && b < n,
    }
}

/// How far the assignment is from satisfying one constraint, as a field
/// element; zero exactly on satisfaction.
pub open spec fn constraint_err(ct: Constraint, w: Seq<u64>) -> int {
    match ct {
        Constraint::AddGate(x, y, o) => fsub(
            fadd(w[x as int] as int, w[y as int] as int),
            w[o as int] as int,
        ),
        Constraint::MulGate(x, y, o) => fsub(
            fmul(w[x as int] as int, w[y as int] as int),
            w[o as int] as int,
        ),
        Constraint::ConstGate(v, o) => fsub(v as int, w[o as int] as int),
        Constraint::Equal(a, b) => fsub(w[a as int] as int, w[b as int] as int),
    }
}

/// The tau-weighted sum of the first `k` constraint errors.
pub open spec fn error_sum(cs: Seq<Constraint>, tau: Seq<u64>, w: Seq<u64>, k: int) -> int
    decreases k,
{
    if k <= 0 {
        0
    } else {
        fadd(error_sum(cs, tau, w, k - 1), fmul(tau[k - 1] as int, constraint_err(cs[k - 1], w)))
    }
}

/// Multi-scalar multiplication: the weighted sum of the first `k` basis
/// elements.
pub open spec fn msm(coeff: Seq<u64>, basis: Seq<u64>, k: int) -> int
    decreases k,
{
    if k <= 0 {
        0
    } else {
        fadd(msm(coeff, basis, k - 1), fmul(coeff[k - 1] as int, basis[k - 1] as int))
    }
}

/// The proving key: per-signal basis elements for the two masked proof
/// points, the public-input basis, the constraint system with its tau
/// weights, and the setup scalars with the inverse of `delta`.
#[derive(Debug)]
pub struct ProvingKey {
    pub num_signals: usize,
    pub num_public: usize,
    pub alpha: u64,
    pub beta: u64,
    pub gamma: u64,
    pub delta: u64,
    pub delta_inv: u64,
    pub a_basis: Vec<u64>,
    pub b_basis: Vec<u64>,
    pub ic: Vec<u64>,
    pub tau: Vec<u64>,
    pub constraints: Vec<Constraint>,
}

impl ProvingKey {
    /// Internal invariant: consistent dimensions, reduced scalars, and a
    /// genuine inverse for `delta`.
    pub open spec fn wf(&self) -> bool {
        &&& self.num_public <= self.num_signals
        &&& self.a_basis@.len() == self.num_signals
        &&& self.b_basis@.len() == self.num_signals
        &&& self.ic@.len() == self.num_public
        &&& self.tau@.len() == self.constraints@.len()
        &&& self.alpha < MODULUS
        &&& self.beta < MODULUS
        &&& self.gamma < MODULUS
        &&& self.delta < MODULUS
        &&& self.delta_inv < MODULUS
        &&& forall|i: int| 0 <= i < self.a_basis@.len() ==> (#[trigger] self.a_basis@[i]) < MODULUS
        &&& forall|i: int| 0 <= i < self.b_basis@.len() ==> (#[trigger] self.b_basis@[i]) < MODULUS
        &&& forall|i: int| 0 <= i < self.ic@.len() ==> (#[trigger] self.ic@[i]) < MODULUS
        &&& forall|i: int| 0 <= i < self.tau@.len() ==> (#[trigger] self.tau@[i]) < MODULUS
        &&& forall|j: int| 0 <= j < self.constraints@.len()
            ==> constraint_in_range(#[trigger] self.constraints@[j], self.num_signals)
        &&& fmul(self.delta as int, self.delta_inv as int) == 1
    }
}

impl ProvingKey {
    /// Decides the internal invariant (executable form), for callers that
    /// obtained the key from outside `setup`.
    pub fn check(&self) -> (b: bool)
        ensures
            b == self.wf(),
    {
        if self.num_public > self.num_signals || self.a_basis.len() != self.num_signals
            || self.b_basis.len() != self.num_signals || self.ic.len() != self.num_public
            || self.tau.len() != self.constraints.len() {
            return false;
        }
        if self.alpha >= MODULUS || self.beta >= MODULUS || self.gamma >= MODULUS
            || self.delta >= MODULUS || self.delta_inv >= MODULUS {
            return false;
        }
        if mul_mod(self.delta, self.delta_inv) != 1 {
            return false;
        }
        if !scalars_reduced(&self.a_basis) || !scalars_reduced(&self.b_basis)
            || !scalars_reduced(&self.ic) || !scalars_reduced(&self.tau) {
            return false;
        }
        let mut j: usize = 0;
        while j < self.constraints.len()
            invariant
                j <= self.constraints@.len(),
                forall|k: int| 0 <= k < j
                    ==> constraint_in_range(#[trigger] self.constraints@[k], self.num_signals),
            decreases self.constraints@.len() - j,
        {
            let ok = match self.constraints[j] {
                Constraint::AddGate(x, y, o) => x < self.num_signals && y < self.num_signals
                    && o < self.num_signals,
                Constraint::MulGate(x, y, o) => x < self.num_signals && y < self.num_signals
                    && o < self.num_signals,
                Constraint::ConstGate(v, o) => v < MODULUS && o < self.num_signals,
                Constraint::Equal(a, b) => a < self.num_signals && b < self.num_signals,
            };
            if !ok {
                return false;
            }
            j += 1;
        }
        true
    }
}

/// Every entry is a reduced field element.
pub(crate) fn scalars_reduced(v: &Vec<u64>) -> (b: bool)
    ensures
        b == (forall|i: int| 0 <= i < v@.len() ==> (#[trigger] v@[i]) < MODULUS),
{
    let mut i: usize = 0;
    while i < v.len()
        invariant
            i <= v@.len(),
            forall|k: int| 0 <= k < i ==> (#[trigger] v@[k]) < MODULUS,
        decreases v@.len() - i,
    {
        if v[i] >= MODULUS {
            return false;
        }
        i += 1;
    }
    true
}

/// The verification key: the setup scalars and the public-input basis.
#[derive(Debug)]
pub struct VerificationKey {
    pub alpha: u64,
    pub beta: u64,
    pub gamma: u64,
    pub delta: u64,
    pub ic: Vec<u64>,
}

impl VerificationKey {
    /// Internal invariant: every scalar reduced.
    pub open spec fn wf(&self) -> bool {
        &&& self.alpha < MODULUS
        &&& self.beta < MODULUS
        &&& self.gamma < MODULUS
        &&& self.delta < MODULUS
        &&& forall|i: int| 0 <= i < self.ic@.len() ==> (#[trigger] self.ic@[i]) < MODULUS
    }
}

impl VerificationKey {
    /// Decides the internal invariant (executable form).
    pub fn check(&self) -> (b: bool)
        ensures
            b == self.wf(),
    {
        if self.alpha >= MODULUS || self.beta >= MODULUS || self.gamma >= MODULUS
            || self.delta >= MODULUS {
            return false;
        }
        scalars_reduced(&self.ic)
    }
}

/// The two keys came from one setup over one circuit.
pub open spec fn keys_match(pk: ProvingKey, vk: VerificationKey) -> bool {
    &&& vk.alpha == pk.alpha
    &&& vk.beta == pk.beta
    &&& vk.gamma == pk.gamma
    &&& vk.delta == pk.delta
    &&& vk.ic@ == pk.ic@
}

/// The proving key was built for this circuit.
pub open spec fn pk_matches_circuit(pk: ProvingKey, c: Circuit) -> bool {
    &&& pk.num_signals == c.num_signals
    &&& pk.num_public == c.num_public
    &&& pk.constraints@ == constraints_of(c)
}

/// A proof: three group elements of the transparent group.
#[derive(Clone, Copy, Debug, PartialEq, Eq, Structural)]
pub struct Proof {
    pub a: u64,
    pub b: u64,
    pub c: u64,
}

impl Proof {
    /// Each element is reduced.
    pub open spec fn wf(&self) -> bool {
        self.a < MODULUS && self.b < MODULUS && self.c < MODULUS
    }
}

/// The first proof point: `alpha + <w, a_basis> + r * delta`.
pub open spec fn point_a(pk: ProvingKey, w: Seq<u64>, r: u64) -> int {
    fadd(
        fadd(pk.alpha as int, msm(w, pk.a_basis@, pk.num_signals as int)),
        fmul(r as int, pk.delta as int),
    )
}

/// The second proof point: `beta + <w, b_basis> + s * delta`.
pub open spec fn point_b(pk: ProvingKey, w: Seq<u64>, s: u64) -> int {
    fadd(
        fadd(pk.beta as int, msm(w, pk.b_basis@, pk.num_signals as int)),
        fmul(s as int, pk.delta as int),
    )
}

/// The public-input term the prover folds into the third point.
pub open spec fn public_term(pk: ProvingKey, w: Seq<u64>) -> int {
    msm(w, pk.ic@, pk.num_public as int)
}

/// The tau-weighted error of the whole constraint system on `w`.
pub open spec fn total_error(pk: ProvingKey, w: Seq<u64>) -> int {
    error_sum(pk.constraints@, pk.tau@, w, pk.constraints@.len() as int)
}

/// The third proof point: the delta-divided balance of the verification
/// equation, shifted by the tau-weighted constraint error.
pub open spec fn point_c(pk: ProvingKey, w: Seq<u64>, r: u64, s: u64) -> int {
    let d = fsub(
        fsub(fmul(point_a(pk, w, r), point_b(pk, w, s)), fmul(pk.alpha as int, pk.beta as int)),
        fmul(public_term(pk, w), pk.gamma as int),
    );
    fsub(fmul(d, pk.delta_inv as int), total_error(pk, w))
}

/// What `prove` returns: a pure function of key, witness and blinding.
pub open spec fn spec_prove(pk: ProvingKey, w: Seq<u64>, r: u64, s: u64) -> Proof {
    Proof {
        a: point_a(pk, w, r) as u64,
        b: point_b(pk, w, s) as u64,
        c: point_c(pk, w, r, s) as u64,
    }
}

/// The single pairing-shaped check of the verifier.
pub open spec fn verify_spec(vk: VerificationKey, pub_in: Seq<u64>, pf: Proof) -> bool {
    fmul(pf.a as int, pf.b as int) == fadd(
        fmul(vk.alpha as int, vk.beta as int),
        fadd(
            fmul(msm(pub_in, vk.ic@, vk.ic@.len() as int), vk.gamma as int),
            fmul(pf.c as int, vk.delta as int),
        ),
    )
}

/// Multi-scalar multiplication over the first `k` entries.
fn msm_exec(coeff: &Vec<u64>, basis: &Vec<u64>, k: usize) -> (r: u64)
    requires
        k <= coeff@.len(),
        k <= basis@.len(),
        forall|i: int| 0 <= i < coeff@.len() ==> (#[trigger] coeff@[i]) < MODULUS,
        forall|i: int| 0 <= i < basis@.len() ==> (#[trigger] basis@[i]) < MODULUS,
    ensures
        r as int == msm(coeff@, basis@, k as int),
        r < MODULUS,
{
    let mut acc: u64 = 0;
    let mut i: usize = 0;
    while i < k
        invariant
            i <= k,
            k <= coeff@.len(),
            k <= basis@.len(),
            forall|j: int| 0 <= j < coeff@.len() ==> (#[trigger] coeff@[j]) < MODULUS,
            forall|j: int| 0 <= j < basis@.len() ==> (#[trigger] basis@[j]) < MODULUS,
            acc as int == msm(coeff@, basis@, i as int),
            acc < MODULUS,
        decreases k - i,
    {
        acc = add_mod(acc, mul_mod(coeff[i], basis[i]));
        i += 1;
    }
    acc
}

/// The error of one constraint on the assignment.
fn constraint_err_exec(ct: Constraint, w: &Vec<u64>) -> (r: u64)
    requires
        constraint_in_range(ct, w@.len() as usize),
        forall|i: int| 0 <= i < w@.len() ==> (#[trigger] w@[i]) < MODULUS,
    ensures
        r as int == constraint_err(ct, w@),
        r < MODULUS,
{
    match ct {
        Constraint::AddGate(x, y, o) => sub_mod(add_mod(w[x], w[y]), w[o]),
        Constraint::MulGate(x, y, o) => sub_mod(mul_mod(w[x], w[y]), w[o]),
        Constraint::ConstGate(v, o) => sub_mod(v, w[o]),
        Constraint::Equal(a, b) => sub_mod(w[a], w[b]),
    }
}

/// The tau-weighted error of the whole constraint system.
fn error_sum_exec(cs: &Vec<Constraint>, tau: &Vec<u64>, w: &Vec<u64>) -> (r: u64)
    requires
        tau@.len() == cs@.len(),
        forall|j: int| 0 <= j < cs@.len()
            ==> constraint_in_range(#[trigger] cs@[j], w@.len() as usize),
        forall|i: int| 0 <= i < tau@.len() ==> (#[trigger] tau@[i]) < MODULUS,
        forall|i: int| 0 <= i < w@.len() ==> (#[trigger] w@[i]) < MODULUS,
    ensures
        r as int == error_sum(cs@, tau@, w@, cs@.len() as int),
        r < MODULUS,
{
    let mut acc: u64 = 0;
    let mut j: usize = 0;
    while j < cs.len()
        invariant
            j <= cs@.len(),
            tau@.len() == cs@.len(),
            forall|k: int| 0 <= k < cs@.len()
                ==> constraint_in_range(#[trigger] cs@[k], w@.len() as usize),
            forall|i: int| 0 <= i < tau@.len() ==> (#[trigger] tau@[i]) < MODULUS,
            forall|i: int| 0 <= i < w@.len() ==> (#[trigger] w@[i]) < MODULUS,
            acc as int == error_sum(cs@, tau@, w@, j as int),
            acc < MODULUS,
        decreases cs@.len() - j,
    {
        let e = constraint_err_exec(cs[j], w);
        acc = add_mod(acc, mul_mod(tau[j], e));
        j += 1;
    }
    acc
}

/// Produces a proof from the proving key, the witness and the two blinding
/// scalars. Fails with `WitnessSizeMismatch` exactly when the witness length
/// differs from the key's declared signal count; no signal is ever read out
/// of bounds. On success the proof is a pure function of the arguments:
/// the same key, witness and blinding always give the same proof. The two
/// blinding scalars must be drawn independently from a cryptographically
/// secure source for every proof; reusing them across proofs of different
/// witnesses under one key leaks private-input information.
pub fn prove(pk: &ProvingKey, witness: &Vec<u64>, r: u64, s: u64) -> (res: Result<
    Proof,
    ZkError,
>)
    requires
        pk.wf(),
        forall|i: int| 0 <= i < witness@.len() ==> (#[trigger] witness@[i]) < MODULUS,
        r < MODULUS,
        s < MODULUS,
    ensures
        match res {
            Ok(pf) => witness@.len() == pk.num_signals && pf == spec_prove(*pk, witness@, r, s)
                && pf.wf(),
            Err(e) => e == ZkError::WitnessSizeMismatch && witness@.len() != pk.num_signals,
        },
{
    if witness.len() != pk.num_signals {
        return Err(ZkError::WitnessSizeMismatch);
    }
    let u = msm_exec(witness, &pk.a_basis, pk.num_signals);
    let a = add_mod(add_mod(pk.alpha, u), mul_mod(r, pk.delta));
    let v = msm_exec(witness, &pk.b_basis, pk.num_signals);
    let b = add_mod(add_mod(pk.beta, v), mul_mod(s, pk.delta));
    let pw = msm_exec(witness, &pk.ic, pk.num_public);
    let e = error_sum_exec(&pk.constraints, &pk.tau, witness);
    let d = sub_mod(sub_mod(mul_mod(a, b), mul_mod(pk.alpha, pk.beta)), mul_mod(pw, pk.gamma));
    let cpt = sub_mod(mul_mod(d, pk.delta_inv), e);
    Ok(Proof { a, b, c: cpt })
}

/// Checks the proof against the verification key and the ordered public
/// inputs. Fails with `PublicInputSizeMismatch` exactly when the
/// public-input count differs from the key's; `Ok(false)` is a
/// cryptographic rejection, not an error. Pure and deterministic: nothing
/// is mutated, and identical arguments always give identical results.
pub fn verify(vk: &VerificationKey, public_inputs: &Vec<u64>, pf: &Proof) -> (res: Result<
    bool,
    ZkError,
>)
    requires
        vk.wf(),
        pf.wf(),
        forall|i: int| 0 <= i < public_inputs@.len()
            ==> (#[trigger] public_inputs@[i]) < MODULUS,
    ensures
        match res {
            Ok(ok) => public_inputs@.len() == vk.ic@.len() && ok == verify_spec(
                *vk,
                public_inputs@,
                *pf,
            ),
            Err(e) => e == ZkError::PublicInputSizeMismatch && public_inputs@.len()
                != vk.ic@.len(),
        },
{
    if public_inputs.len() != vk.ic.len() {
        return Err(ZkError::PublicInputSizeMismatch);
    }
    let pv = msm_exec(public_inputs, &vk.ic, public_inputs.len());
    let lhs = mul_mod(pf.a, pf.b);
    let rhs = add_mod(
        mul_mod(vk.alpha, vk.beta),
        add_mod(mul_mod(pv, vk.gamma), mul_mod(pf.c, vk.delta)),
    );
    Ok(lhs == rhs)
}

/// The circuit's declared equalities all hold on the assignment.
pub open spec fn equalities_hold(c: Circuit, w: Seq<u64>) -> bool {
    forall|i: int| 0 <= i < c.equalities@.len()
        ==> w[(#[trigger] c.equalities@[i]).0 as int] == w[c.equalities@[i].1 as int]
}

/// The assignment satisfies the whole constraint system of the circuit.
pub open spec fn satisfies(c: Circuit, w: Seq<u64>) -> bool {
    gates_satisfied(c, w) && equalities_hold(c, w)
}

/// Two multi-scalar multiplications agree when their first `k` entries do.
proof fn lemma_msm_agree(c1: Seq<u64>, b1: Seq<u64>, c2: Seq<u64>, b2: Seq<u64>, k: int)
    requires
        forall|i: int| 0 <= i < k ==> (#[trigger] c1[i]) == c2[i],
        forall|i: int| 0 <= i < k ==> (#[trigger] b1[i]) == b2[i],
    ensures
        msm(c1, b1, k) == msm(c2, b2, k),
    decreases k,
{
    if k > 0 {
        lemma_msm_agree(c1, b1, c2, b2, k - 1);
    }
}

/// What verification decides, exactly: a freshly generated proof passes if
/// and only if the delta-scaled, tau-weighted constraint error of the
/// witness vanishes. Blinding scalars never change the outcome.
pub proof fn lemma_verify_characterization(
    pk: ProvingKey,
    vk: VerificationKey,
    w: Seq<u64>,
    r: u64,
    s: u64,
)
    requires
        pk.wf(),
        vk.wf(),
        keys_match(pk, vk),
        w.len() == pk.num_signals,
        forall|i: int| 0 <= i < w.len() ==> (#[trigger] w[i]) < MODULUS,
        r < MODULUS,
        s < MODULUS,
    ensures
        verify_spec(vk, w.subrange(0, pk.num_public as int), spec_prove(pk, w, r, s)) == (fmul(
            total_error(pk, w),
            pk.delta as int,
        ) == 0),
{
    let np = pk.num_public as int;
    let dt = pk.delta as int;
    let di = pk.delta_inv as int;
    let aa = point_a(pk, w, r);
    let bb = point_b(pk, w, s);
    let cc = point_c(pk, w, r, s);
    let x = fmul(pk.alpha as int, pk.beta as int);
    let pw = public_term(pk, w);
    let pubs = w.subrange(0, np);
    lemma_msm_agree(pubs, vk.ic@, w, pk.ic@, np);
    assert(msm(pubs, vk.ic@, vk.ic@.len() as int) == pw);
    let y = fmul(pw, pk.gamma as int);
    let ee = total_error(pk, w);
    let ed = fmul(ee, dt);
    let l = fmul(aa, bb);
    let d = fsub(fsub(l, x), y);
    let base = fmul(d, di);
    let z = fmul(cc, dt);
    let rgt = fadd(x, fadd(y, z));

    assert(is_fe(ee)) by {
        if pk.constraints@.len() as int <= 0 {
        } else {
            lemma_f_ops_cong(
                error_sum(pk.constraints@, pk.tau@, w, pk.constraints@.len() as int - 1),
                fmul(
                    pk.tau@[pk.constraints@.len() as int - 1] as int,
                    constraint_err(pk.constraints@[pk.constraints@.len() as int - 1], w),
                ),
            );
        }
    }
    lemma_f_ops_cong(aa, bb);  // is_fe(l), cong(l, aa * bb)
    lemma_f_ops_cong(ee, dt);  // is_fe(ed), cong(ed, ee * dt)
    lemma_f_ops_cong(cc, dt);  // cong(z, cc * dt), is_fe(z)
    lemma_f_ops_cong(base, ee);  // cong(cc, base - ee)  [cc == fsub(base, ee)]
    lemma_f_ops_cong(d, di);  // cong(base, d * di)
    lemma_f_ops_cong(l, x);  // cong(fsub(l, x), l - x)
    lemma_f_ops_cong(fsub(l, x), y);  // cong(d, fsub(l, x) - y)
    lemma_f_ops_cong(y, z);  // cong(fadd(y, z), y + z)
    lemma_f_ops_cong(x, fadd(y, z));  // cong(rgt, x + fadd(y, z)), is_fe(rgt)
    lemma_f_ops_cong(l, ed);  // cong(fsub(l, ed), l - ed), is_fe(fsub(l, ed))

    // z is congruent to d - ed.
    lemma_cong_mul(cc, dt, base - ee, dt);
    assert((base - ee) * dt == base * dt - ee * dt) by (nonlinear_arith);
    lemma_cong_mul(base, dt, d * di, dt);
    assert((d * di) * dt == d * (di * dt)) by (nonlinear_arith);
    assert(cong(di * dt, 1)) by {
        assert(dt * di % p() == 1);
        assert(di * dt == dt * di) by (nonlinear_arith);
        lemma_small_mod(1nat, MODULUS as nat);
    }
    lemma_cong_mul(d, di * dt, d, 1);
    assert(cong(base * dt, d));
    lemma_cong_sub(base * dt, ee * dt, d, ed);
    assert(cong(z, d - ed));

    // d is congruent to l - x - y.
    lemma_cong_sub(fsub(l, x), y, l - x, y);
    assert(cong(d, (l - x) - y));

    // Fold: the verifier's right-hand side is congruent to l - ed.
    lemma_cong_sub(d, ed, (l - x) - y, ed);
    assert(cong(z, ((l - x) - y) - ed));
    lemma_cong_add(y, z, y, ((l - x) - y) - ed);
    lemma_cong_add(x, fadd(y, z), x, y + (((l - x) - y) - ed));
    assert(x + (y + (((l - x) - y) - ed)) == l - ed);
    assert(cong(rgt, l - ed));
    lemma_cong_eq(rgt, fsub(l, ed));

    // The check passes exactly when ed vanishes.
    lemma_cong_cancel(l, ed);
    assert(verify_spec(vk, pubs, spec_prove(pk, w, r, s)) == (l == rgt));
}

/// A satisfied constraint system accumulates no weighted error.
proof fn lemma_error_sum_zero(cs: Seq<Constraint>, tau: Seq<u64>, w: Seq<u64>, k: int)
    requires
        0 <= k <= cs.len(),
        tau.len() == cs.len(),
        forall|j: int| 0 <= j < cs.len() ==> constraint_err(#[trigger] cs[j], w) == 0,
    ensures
        error_sum(cs, tau, w, k) == 0,
    decreases k,
{
    if k > 0 {
        lemma_error_sum_zero(cs, tau, w, k - 1);
        assert((tau[k - 1] as int) * 0 == 0);
        lemma_small_mod(0nat, MODULUS as nat);
    }
}

/// A witness that satisfies the circuit zeroes every single constraint
/// error.
proof fn lemma_satisfying_witness_zero_errors(c: Circuit, w: Seq<u64>)
    requires
        c.wf(),
        w.len() == c.num_signals,
        forall|i: int| 0 <= i < w.len() ==> (#[trigger] w[i]) < MODULUS,
        satisfies(c, w),
    ensures
        forall|j: int| 0 <= j < constraints_of(c).len()
            ==> constraint_err(#[trigger] constraints_of(c)[j], w) == 0,
{
    let glen = c.gates@.len() as int;
    assert forall|j: int| 0 <= j < constraints_of(c).len()
        implies constraint_err(#[trigger] constraints_of(c)[j], w) == 0 by {
        lemma_small_mod(0nat, MODULUS as nat);
        if j < glen {
            assert(constraints_of(c)[j] == constraint_of_gate(c.gates@[j]));
            assert(c.gate_ok(j));
            let g = c.gates@[j];
            assert(w[g.out as int] as int == crate::eval::gate_val(g.kind, w));
            match g.kind {
                GateKind::Add(gx, gy) => {
                    let v = fadd(w[gx as int] as int, w[gy as int] as int);
                    assert(constraint_err(constraints_of(c)[j], w) == fsub(v, v));
                },
                GateKind::Mul(gx, gy) => {
                    let v = fmul(w[gx as int] as int, w[gy as int] as int);
                    assert(constraint_err(constraints_of(c)[j], w) == fsub(v, v));
                },
                GateKind::Const(v) => {
                    assert(constraint_err(constraints_of(c)[j], w) == fsub(
                        v as int,
                        v as int,
                    ));
                },
            }
        } else {
            let q = j - glen;
            assert(constraints_of(c)[j] == Constraint::Equal(
                c.equalities@[q].0,
                c.equalities@[q].1,
            ));
            assert(w[c.equalities@[q].0 as int] == w[c.equalities@[q].1 as int]);
        }
    }
}

/// Soundness round trip: a witness that satisfies the circuit's whole
/// constraint system, proved under keys set up for that circuit, always
/// yields a proof that verification accepts, whatever blinding scalars
/// were drawn.
pub proof fn lemma_round_trip(
    c: Circuit,
    pk: ProvingKey,
    vk: VerificationKey,
    w: Seq<u64>,
    r: u64,
    s: u64,
)
    requires
        c.wf(),
        pk.wf(),
        vk.wf(),
        keys_match(pk, vk),
        pk_matches_circuit(pk, c),
        w.len() == c.num_signals,
        forall|i: int| 0 <= i < w.len() ==> (#[trigger] w[i]) < MODULUS,
        r < MODULUS,
        s < MODULUS,
        satisfies(c, w),
    ensures
        verify_spec(vk, w.subrange(0, pk.num_public as int), spec_prove(pk, w, r, s)) == true,
{
    lemma_satisfying_witness_zero_errors(c, w);
    lemma_error_sum_zero(pk.constraints@, pk.tau@, w, pk.constraints@.len() as int);
    assert(total_error(pk, w) == 0);
    assert(fmul(0, pk.delta as int) == 0) by {
        assert(0 * (pk.delta as int) == 0);
        lemma_small_mod(0nat, MODULUS as nat);
    }
    lemma_verify_characterization(pk, vk, w, r, s);
}

/// A false claim is rejected: whenever the tau-weighted constraint error of
/// the witness does not vanish under delta, verification returns false, for
/// every choice of blinding scalars.
pub proof fn lemma_nonzero_error_rejected(
    pk: ProvingKey,
    vk: VerificationKey,
    w: Seq<u64>,
    r: u64,
    s: u64,
)
    requires
        pk.wf(),
        vk.wf(),
        keys_match(pk, vk),
        w.len() == pk.num_signals,
        forall|i: int| 0 <= i < w.len() ==> (#[trigger] w[i]) < MODULUS,
        r < MODULUS,
        s < MODULUS,
        fmul(total_error(pk, w), pk.delta as int) != 0,
    ensures
        verify_spec(vk, w.subrange(0, pk.num_public as int), spec_prove(pk, w, r, s)) == false,
{
    lemma_verify_characterization(pk, vk, w, r, s);
}

/// Mutating the output signal of any gate in a witness that satisfied the
/// circuit breaks that gate's constraint: its error on the mutated witness
/// is never zero, whatever new value was written. Only the tau-weighted
/// aggregation of such errors can still vanish, on a vanishing fraction of
/// weight choices.
pub proof fn lemma_mutation_breaks_constraint(c: Circuit, w: Seq<u64>, j: int, x: u64)
    requires
        c.wf(),
        w.len() == c.num_signals,
        forall|k: int| 0 <= k < w.len() ==> (#[trigger] w[k]) < MODULUS,
        gates_satisfied(c, w),
        0 <= j < c.gates@.len(),
        x < MODULUS,
        x != w[c.gates@[j].out as int],
    ensures
        constraint_err(constraints_of(c)[j], w.update(c.gates@[j].out as int, x)) != 0,
{
    let g = c.gates@[j];
    let o = g.out as int;
    let w2 = w.update(o, x);
    assert(c.gate_ok(j));
    assert(constraints_of(c)[j] == constraint_of_gate(g));
    match g.kind {
        GateKind::Add(gx, gy) => {
            assert(gx != g.out && gy != g.out);
            assert(w2[gx as int] == w[gx as int] && w2[gy as int] == w[gy as int]);
            assert(w[o] as int == fadd(w[gx as int] as int, w[gy as int] as int));
            crate::field::lemma_fsub_nonzero(w[o] as int, x as int);
        },
        GateKind::Mul(gx, gy) => {
            assert(gx != g.out && gy != g.out);
            assert(w2[gx as int] == w[gx as int] && w2[gy as int] == w[gy as int]);
            assert(w[o] as int == fmul(w[gx as int] as int, w[gy as int] as int));
            crate::field::lemma_fsub_nonzero(w[o] as int, x as int);
        },
        GateKind::Const(v) => {
            assert(w[o] == v);
            crate::field::lemma_fsub_nonzero(v as int, x as int);
        },
    }
}

/// Mutating a single witness element before proving makes verification
/// reject, provided the mutation leaves a tau-weighted error that does not
/// vanish under delta; the excluded choices of weights are a vanishing
/// fraction of the field.
pub proof fn lemma_mutated_witness_rejected(
    pk: ProvingKey,
    vk: VerificationKey,
    w: Seq<u64>,
    i: int,
    x: u64,
    r: u64,
    s: u64,
)
    requires
        pk.wf(),
        vk.wf(),
        keys_match(pk, vk),
        w.len() == pk.num_signals,
        forall|k: int| 0 <= k < w.len() ==> (#[trigger] w[k]) < MODULUS,
        0 <= i < w.len(),
        x < MODULUS,
        r < MODULUS,
        s < MODULUS,
        fmul(total_error(pk, w.update(i, x)), pk.delta as int) != 0,
    ensures
        verify_spec(
            vk,
            w.update(i, x).subrange(0, pk.num_public as int),
            spec_prove(pk, w.update(i, x), r, s),
        ) == false,
{
    let w2 = w.update(i, x);
    assert(forall|k: int| 0 <= k < w2.len() ==> (#[trigger] w2[k]) < MODULUS);
    lemma_nonzero_error_rejected(pk, vk, w2, r, s);
}

} // verus!
