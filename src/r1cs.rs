use crate::scalar::{modulus, Scalar};
use vstd::arithmetic::div_mod::{lemma_add_mod_noop, lemma_small_mod};
use vstd::prelude::*;

verus! {

/// Whether a constraint system only records shape (key generation) or also
/// holds the values of its variables (proving).
#[derive(Clone, Copy, Debug, PartialEq, Eq, Structural)]
pub enum SynthesisMode {
    Setup,
    Prove,
}

/// Failures of constraint synthesis and of satisfiability checking.
#[derive(Clone, Copy, Debug, PartialEq, Eq, Structural)]
pub enum SynthesisError {
    /// A value was needed but the instance does not carry it.
    AssignmentMissing,
    /// A key-generation system was handed an instance that carries witness values.
    WitnessInSetup,
}

/// A variable of a rank-1 constraint system.
#[derive(Clone, Copy, Debug, PartialEq, Eq, Structural)]
pub enum Variable {
    /// The constant one.
    One,
    /// The i-th public (instance) variable.
    Instance(usize),
    /// The i-th private (witness) variable.
    Witness(usize),
}

/// One term `coeff * var` of a linear combination.
#[derive(Clone, Copy, Debug)]
pub struct Term {
    pub var: Variable,
    pub coeff: Scalar,
}

/// A rank-1 constraint `<a, v> * <b, v> = <c, v>`.
pub struct Constraint {
    pub a: Vec<Term>,
    pub b: Vec<Term>,
    pub c: Vec<Term>,
}

/// The value a variable takes under an assignment; out-of-range indices read zero.
pub open spec fn var_value(v: Variable, instance: Seq<Scalar>, witness: Seq<Scalar>) -> int {
    match v {
        Variable::One => 1,
        Variable::Instance(i) => if i < instance.len() { instance[i as int].value() as int } else { 0 },
        Variable::Witness(i) => if i < witness.len() { witness[i as int].value() as int } else { 0 },
    }
}

/// The value of a linear combination, reduced modulo the field order.
pub open spec fn lc_value(lc: Seq<Term>, instance: Seq<Scalar>, witness: Seq<Scalar>) -> int
    decreases lc.len(),
{
    if lc.len() == 0 {
        0
    } else {
        let t = lc.last();
        (lc_value(lc.drop_last(), instance, witness) + t.coeff.value() * var_value(t.var, instance, witness)) % (modulus() as int)
    }
}

/// The constraint holds under the assignment.
pub open spec fn constraint_holds(k: Constraint, instance: Seq<Scalar>, witness: Seq<Scalar>) -> bool {
    (lc_value(k.a@, instance, witness) * lc_value(k.b@, instance, witness)) % (modulus() as int)
        == lc_value(k.c@, instance, witness)
}

/// Every coefficient is canonical and every variable lies below the given counts.
pub open spec fn lc_wf(lc: Seq<Term>, num_instance: nat, num_witness: nat) -> bool {
    forall|i: int|
        0 <= i < lc.len() ==> {
            &&& (#[trigger] lc[i]).coeff.wf()
            &&& match lc[i].var {
                Variable::One => true,
                Variable::Instance(j) => j < num_instance,
                Variable::Witness(j) => j < num_witness,
            }
        }
}

/// Two linear combinations have the same variables and coefficients, term by term.
pub open spec fn lc_same_shape(l1: Seq<Term>, l2: Seq<Term>) -> bool {
    &&& l1.len() == l2.len()
    &&& forall|i: int|
        0 <= i < l1.len() ==> (#[trigger] l1[i]).var == l2[i].var && l1[i].coeff.value()
            == l2[i].coeff.value()
}

/// A single term `1 * v`.
pub open spec fn lc_is_var(lc: Seq<Term>, v: Variable) -> bool {
    lc.len() == 1 && lc[0].var == v && lc[0].coeff.value() == 1
}

/// A rank-1 constraint system: the variables allocated so far, the
/// constraints over them and, when proving, the values of the variables.
pub struct ConstraintSystem {
    pub mode: SynthesisMode,
    pub num_instance: usize,
    pub num_witness: usize,
    pub constraints: Vec<Constraint>,
    /// Values of the instance variables; empty in setup mode.
    pub instance_assignment: Vec<Scalar>,
    /// Values of the witness variables; empty in setup mode.
    pub witness_assignment: Vec<Scalar>,
}

/// A single term `1 * v` takes the value of `v`, when that value is reduced.
pub proof fn lemma_lc_is_var_value(lc: Seq<Term>, v: Variable, instance: Seq<Scalar>, witness: Seq<Scalar>)
    requires
        lc_is_var(lc, v),
        0 <= var_value(v, instance, witness) < modulus(),
    ensures
        lc_value(lc, instance, witness) == var_value(v, instance, witness),
{
    let val = var_value(v, instance, witness);
    let coeff = lc.last().coeff.value() as int;
    assert(lc.last() == lc[0]);
    assert(lc_value(lc.drop_last(), instance, witness) == 0);
    assert(coeff * val == val) by (nonlinear_arith)
        requires
            coeff == 1,
    ;
    lemma_small_mod(val as nat, modulus());
}

/// Raising the variable counts keeps a linear combination well formed.
pub proof fn lemma_lc_wf_grow(lc: Seq<Term>, ni: nat, nw: nat, ni2: nat, nw2: nat)
    requires
        lc_wf(lc, ni, nw),
        ni <= ni2,
        nw <= nw2,
    ensures
        lc_wf(lc, ni2, nw2),
{
    assert forall|i: int| 0 <= i < lc.len() implies {
        &&& (#[trigger] lc[i]).coeff.wf()
        &&& match lc[i].var {
            Variable::One => true,
            Variable::Instance(j) => j < ni2,
            Variable::Witness(j) => j < nw2,
        }
    } by {
        assert(lc_wf(lc, ni, nw));
    }
}

/// Adding a reduced term to a reduced sum reduces as the sum of both would.
proof fn lemma_reduced_step(acc: int, coeff: int, val: int)
    requires
        0 <= acc < modulus(),
    ensures
        (acc + (coeff * val) % (modulus() as int)) % (modulus() as int) == (acc + coeff * val) % (modulus() as int),
{
    let m = modulus() as int;
    lemma_small_mod(acc as nat, m as nat);
    lemma_add_mod_noop(acc, coeff * val, m);
    lemma_add_mod_noop(acc, (coeff * val) % m, m);
    vstd::arithmetic::div_mod::lemma_mod_twice(coeff * val, m);
}

impl ConstraintSystem {
    /// Constraints mention only allocated variables, coefficients and values
    /// are canonical, and the assignments match the mode.
    pub open spec fn wf(&self) -> bool {
        &&& forall|i: int|
            0 <= i < self.constraints@.len() ==> {
                &&& lc_wf((#[trigger] self.constraints@[i]).a@, self.num_instance as nat, self.num_witness as nat)
                &&& lc_wf(self.constraints@[i].b@, self.num_instance as nat, self.num_witness as nat)
                &&& lc_wf(self.constraints@[i].c@, self.num_instance as nat, self.num_witness as nat)
            }
        &&& forall|i: int| 0 <= i < self.instance_assignment@.len() ==> (#[trigger] self.instance_assignment@[i]).wf()
        &&& forall|i: int| 0 <= i < self.witness_assignment@.len() ==> (#[trigger] self.witness_assignment@[i]).wf()
        &&& match self.mode {
            SynthesisMode::Setup => self.instance_assignment@.len() == 0 && self.witness_assignment@.len() == 0,
            SynthesisMode::Prove => self.instance_assignment@.len() == self.num_instance
                && self.witness_assignment@.len() == self.num_witness,
        }
    }

    /// No variable and no constraint yet.
    pub open spec fn is_empty(&self) -> bool {
        &&& self.num_instance == 0
        &&& self.num_witness == 0
        &&& self.constraints@.len() == 0
        &&& self.instance_assignment@.len() == 0
        &&& self.witness_assignment@.len() == 0
    }

    /// Every constraint holds under the recorded assignment.
    pub open spec fn satisfied(&self) -> bool {
        forall|i: int|
            0 <= i < self.constraints@.len() ==> constraint_holds(
                #[trigger] self.constraints@[i],
                self.instance_assignment@,
                self.witness_assignment@,
            )
    }

    /// Same variable counts and the same constraints, whatever the values.
    pub open spec fn same_shape(&self, other: &ConstraintSystem) -> bool {
        &&& self.num_instance == other.num_instance
        &&& self.num_witness == other.num_witness
        &&& self.constraints@.len() == other.constraints@.len()
        &&& forall|i: int|
            0 <= i < self.constraints@.len() ==> {
                &&& lc_same_shape((#[trigger] self.constraints@[i]).a@, other.constraints@[i].a@)
                &&& lc_same_shape(self.constraints@[i].b@, other.constraints@[i].b@)
                &&& lc_same_shape(self.constraints@[i].c@, other.constraints@[i].c@)
            }
    }

    /// An empty system in the given mode.
    pub fn new(mode: SynthesisMode) -> (r: ConstraintSystem)
        ensures
            r.mode == mode,
            r.is_empty(),
            r.wf(),
    {
        ConstraintSystem {
            mode,
            num_instance: 0,
            num_witness: 0,
            constraints: Vec::new(),
            instance_assignment: Vec::new(),
            witness_assignment: Vec::new(),
        }
    }

    proof fn lemma_wf_grow(&self, ni2: nat, nw2: nat)
        requires
            self.wf(),
            self.num_instance <= ni2,
            self.num_witness <= nw2,
        ensures
            forall|i: int|
                0 <= i < self.constraints@.len() ==> {
                    &&& lc_wf((#[trigger] self.constraints@[i]).a@, ni2, nw2)
                    &&& lc_wf(self.constraints@[i].b@, ni2, nw2)
                    &&& lc_wf(self.constraints@[i].c@, ni2, nw2)
                },
    {
        assert forall|i: int| 0 <= i < self.constraints@.len() implies {
            &&& lc_wf((#[trigger] self.constraints@[i]).a@, ni2, nw2)
            &&& lc_wf(self.constraints@[i].b@, ni2, nw2)
            &&& lc_wf(self.constraints@[i].c@, ni2, nw2)
        } by {
            let k = self.constraints@[i];
            lemma_lc_wf_grow(k.a@, self.num_instance as nat, self.num_witness as nat, ni2, nw2);
            lemma_lc_wf_grow(k.b@, self.num_instance as nat, self.num_witness as nat, ni2, nw2);
            lemma_lc_wf_grow(k.c@, self.num_instance as nat, self.num_witness as nat, ni2, nw2);
        }
    }

    /// Allocates a public variable. Its value is recorded when proving.
    pub fn new_input_variable(&mut self, value: Scalar) -> (v: Variable)
        requires
            old(self).wf(),
            value.wf(),
            old(self).num_instance < usize::MAX,
        ensures
            final(self).wf(),
            v == Variable::Instance(old(self).num_instance),
            final(self).mode == old(self).mode,
            final(self).num_instance == old(self).num_instance + 1,
            final(self).num_witness == old(self).num_witness,
            final(self).constraints@ == old(self).constraints@,
            final(self).witness_assignment@ == old(self).witness_assignment@,
            final(self).instance_assignment@ == match old(self).mode {
                SynthesisMode::Setup => old(self).instance_assignment@,
                SynthesisMode::Prove => old(self).instance_assignment@.push(value),
            },
    {
        proof {
            self.lemma_wf_grow((self.num_instance + 1) as nat, self.num_witness as nat);
        }
        let v = Variable::Instance(self.num_instance);
        self.num_instance = self.num_instance + 1;
        match self.mode {
            SynthesisMode::Setup => {},
            SynthesisMode::Prove => {
                self.instance_assignment.push(value);
            },
        }
        v
    }

    /// Allocates a private variable. When proving, its value must be present
    /// and is recorded; in setup mode no value is read.
    pub fn new_witness_variable(&mut self, value: Option<Scalar>) -> (r: Result<Variable, SynthesisError>)
        requires
            old(self).wf(),
            value matches Some(x) ==> x.wf(),
            old(self).num_witness < usize::MAX,
        ensures
            final(self).wf(),
            final(self).mode == old(self).mode,
            final(self).num_instance == old(self).num_instance,
            final(self).constraints@ == old(self).constraints@,
            final(self).instance_assignment@ == old(self).instance_assignment@,
            (old(self).mode == SynthesisMode::Prove && value is None) ==> {
                &&& r == Err::<Variable, SynthesisError>(SynthesisError::AssignmentMissing)
                &&& final(self).num_witness == old(self).num_witness
                &&& final(self).witness_assignment@ == old(self).witness_assignment@
            },
            !(old(self).mode == SynthesisMode::Prove && value is None) ==> {
                &&& r == Ok::<Variable, SynthesisError>(Variable::Witness(old(self).num_witness))
                &&& final(self).num_witness == old(self).num_witness + 1
                &&& final(self).witness_assignment@ == match old(self).mode {
                    SynthesisMode::Setup => old(self).witness_assignment@,
                    SynthesisMode::Prove => old(self).witness_assignment@.push(value->0),
                }
            },
    {
        proof {
            self.lemma_wf_grow(self.num_instance as nat, (self.num_witness + 1) as nat);
        }
        match self.mode {
            SynthesisMode::Setup => {},
            SynthesisMode::Prove => {
                match value {
                    None => {
                        return Err(SynthesisError::AssignmentMissing);
                    },
                    Some(x) => {
                        self.witness_assignment.push(x);
                    },
                }
            },
        }
        let v = Variable::Witness(self.num_witness);
        self.num_witness = self.num_witness + 1;
        Ok(v)
    }

    /// Adds the constraint `a * b = c`.
    pub fn enforce_constraint(&mut self, a: Vec<Term>, b: Vec<Term>, c: Vec<Term>)
        requires
            old(self).wf(),
            lc_wf(a@, old(self).num_instance as nat, old(self).num_witness as nat),
            lc_wf(b@, old(self).num_instance as nat, old(self).num_witness as nat),
            lc_wf(c@, old(self).num_instance as nat, old(self).num_witness as nat),
        ensures
            final(self).wf(),
            final(self).mode == old(self).mode,
            final(self).num_instance == old(self).num_instance,
            final(self).num_witness == old(self).num_witness,
            final(self).instance_assignment@ == old(self).instance_assignment@,
            final(self).witness_assignment@ == old(self).witness_assignment@,
            final(self).constraints@ == old(self).constraints@.push((Constraint { a, b, c })),
    {
        self.constraints.push(Constraint { a, b, c });
    }

    /// The value of a variable under the recorded assignment.
    fn var_value_exec(&self, v: Variable) -> (r: Scalar)
        requires
            self.wf(),
            self.mode == SynthesisMode::Prove,
            match v {
                Variable::One => true,
                Variable::Instance(j) => j < self.num_instance,
                Variable::Witness(j) => j < self.num_witness,
            },
        ensures
            r.wf(),
            r.value() == var_value(v, self.instance_assignment@, self.witness_assignment@),
    {
        match v {
            Variable::One => Scalar::one(),
            Variable::Instance(j) => self.instance_assignment[j],
            Variable::Witness(j) => self.witness_assignment[j],
        }
    }

    /// The value of a linear combination under the recorded assignment.
    pub fn eval_lc(&self, lc: &Vec<Term>) -> (r: Scalar)
        requires
            self.wf(),
            self.mode == SynthesisMode::Prove,
            lc_wf(lc@, self.num_instance as nat, self.num_witness as nat),
        ensures
            r.wf(),
            r.value() == lc_value(lc@, self.instance_assignment@, self.witness_assignment@),
    {
        let mut acc = Scalar::zero();
        let mut i: usize = 0;
        assert(lc@.take(0) =~= Seq::<Term>::empty());
        while i < lc.len()
            invariant
                self.wf(),
                self.mode == SynthesisMode::Prove,
                lc_wf(lc@, self.num_instance as nat, self.num_witness as nat),
                0 <= i <= lc@.len(),
                acc.wf(),
                acc.value() == lc_value(lc@.take(i as int), self.instance_assignment@, self.witness_assignment@),
            decreases lc@.len() - i,
        {
            let t = lc[i];
            assert(lc@[i as int] == t);
            let val = self.var_value_exec(t.var);
            let prod = t.coeff.mul(&val);
            let next = acc.add(&prod);
            proof {
                let pre = lc@.take(i as int + 1);
                assert(pre.drop_last() =~= lc@.take(i as int));
                assert(pre.last() == t);
                lemma_reduced_step(
                    acc.value() as int,
                    t.coeff.value() as int,
                    var_value(t.var, self.instance_assignment@, self.witness_assignment@),
                );
            }
            acc = next;
            i = i + 1;
        }
        assert(lc@.take(lc@.len() as int) =~= lc@);
        acc
    }

    /// Whether every constraint holds. Only a proving system holds values.
    pub fn is_satisfied(&self) -> (r: Result<bool, SynthesisError>)
        requires
            self.wf(),
        ensures
            self.mode == SynthesisMode::Setup ==> r == Err::<bool, SynthesisError>(SynthesisError::AssignmentMissing),
            self.mode == SynthesisMode::Prove ==> r == Ok::<bool, SynthesisError>(self.satisfied()),
    {
        if self.mode == SynthesisMode::Setup {
            return Err(SynthesisError::AssignmentMissing);
        }
        let mut i: usize = 0;
        while i < self.constraints.len()
            invariant
                self.wf(),
                self.mode == SynthesisMode::Prove,
                0 <= i <= self.constraints@.len(),
                forall|j: int|
                    0 <= j < i ==> constraint_holds(
                        #[trigger] self.constraints@[j],
                        self.instance_assignment@,
                        self.witness_assignment@,
                    ),
            decreases self.constraints@.len() - i,
        {
            let k = &self.constraints[i];
            let a = self.eval_lc(&k.a);
            let b = self.eval_lc(&k.b);
            let c = self.eval_lc(&k.c);
            let ab = a.mul(&b);
            if !ab.equals(&c) {
                assert(!constraint_holds(self.constraints@[i as int], self.instance_assignment@, self.witness_assignment@));
                return Ok(false);
            }
            i = i + 1;
        }
        Ok(true)
    }
}

} // verus!
