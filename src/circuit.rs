use crate::r1cs::{
    lc_is_var, lemma_lc_is_var_value, Constraint, ConstraintSystem, SynthesisError, SynthesisMode, Term, Variable,
};
use crate::scalar::{modulus, Scalar};
use vstd::prelude::*;

verus! {

/// The relation `x * y = z` with secret factors `x`, `y` and public product `z`.
/// Without factors it describes only the shape used for key generation, and
/// `z` is a placeholder.
#[derive(Clone, Copy, Debug)]
pub struct MulCircuit {
    pub x: Option<Scalar>,
    pub y: Option<Scalar>,
    pub z: Scalar,
}

/// Why an instance cannot be proved.
#[derive(Clone, Copy, Debug, PartialEq, Eq, Structural)]
pub enum ProverError {
    /// A secret factor is absent.
    MissingWitness,
    /// The factors do not multiply to the public value.
    UnsatisfiableWitness,
}

/// `after` is the system that synthesizing `c` in `mode` yields from a system
/// with `ni` instance and `nw` witness variables, the constraints `ks` and the
/// assignments `inst`, `wit`.
pub open spec fn synthesized_from(
    c: MulCircuit,
    mode: SynthesisMode,
    ni: nat,
    nw: nat,
    ks: Seq<Constraint>,
    inst: Seq<Scalar>,
    wit: Seq<Scalar>,
    after: ConstraintSystem,
) -> bool {
    &&& after.mode == mode
    &&& after.num_instance == ni + 1
    &&& after.num_witness == nw + 2
    &&& after.constraints@.len() == ks.len() + 1
    &&& after.constraints@.drop_last() == ks
    &&& lc_is_var(after.constraints@.last().a@, Variable::Witness(nw as usize))
    &&& lc_is_var(after.constraints@.last().b@, Variable::Witness((nw + 1) as usize))
    &&& lc_is_var(after.constraints@.last().c@, Variable::Instance(ni as usize))
    &&& match mode {
        SynthesisMode::Setup => after.instance_assignment@ == inst && after.witness_assignment@ == wit,
        SynthesisMode::Prove => after.instance_assignment@ == inst.push(c.z)
            && after.witness_assignment@ == wit.push(c.x->0).push(c.y->0),
    }
}

/// `after` is what synthesizing `c` in `mode` yields from an empty system.
pub open spec fn synthesized_fresh(c: MulCircuit, mode: SynthesisMode, after: ConstraintSystem) -> bool {
    synthesized_from(c, mode, 0, 0, Seq::empty(), Seq::empty(), Seq::empty(), after)
}

/// Two systems hold the same variables, constraints and values.
pub open spec fn same_contents(a: ConstraintSystem, b: ConstraintSystem) -> bool {
    &&& a.mode == b.mode
    &&& a.num_instance == b.num_instance
    &&& a.num_witness == b.num_witness
    &&& a.constraints@ == b.constraints@
    &&& a.instance_assignment@ == b.instance_assignment@
    &&& a.witness_assignment@ == b.witness_assignment@
}

impl MulCircuit {
    /// All present values are canonical field elements.
    pub open spec fn wf(&self) -> bool {
        &&& self.z.wf()
        &&& (self.x matches Some(v) ==> v.wf())
        &&& (self.y matches Some(v) ==> v.wf())
    }

    /// Some secret factor is present.
    pub open spec fn has_witness(&self) -> bool {
        self.x is Some || self.y is Some
    }

    /// Both secret factors are present.
    pub open spec fn is_complete(&self) -> bool {
        self.x is Some && self.y is Some
    }

    /// The error that synthesis in `mode` reports, if any: key generation takes
    /// only a shape, proving takes both factors.
    pub open spec fn synthesis_error(&self, mode: SynthesisMode) -> Option<SynthesisError> {
        match mode {
            SynthesisMode::Setup => if self.has_witness() {
                Some(SynthesisError::WitnessInSetup)
            } else {
                None
            },
            SynthesisMode::Prove => if !self.is_complete() {
                Some(SynthesisError::AssignmentMissing)
            } else {
                None
            },
        }
    }

    /// The shape-only instance with placeholder public value `z`.
    pub fn shape(z: Scalar) -> (r: MulCircuit)
        ensures
            r == (MulCircuit { x: None, y: None, z }),
    {
        MulCircuit { x: None, y: None, z }
    }

    /// The fully assigned instance.
    pub fn new(x: Scalar, y: Scalar, z: Scalar) -> (r: MulCircuit)
        ensures
            r == (MulCircuit { x: Some(x), y: Some(y), z }),
    {
        MulCircuit { x: Some(x), y: Some(y), z }
    }

    /// Allocates witnesses for `x` and `y`, a public input for `z`, and adds
    /// the single constraint `x * y = z`. The constraint is added whether or
    /// not the values satisfy it. On an error the system is left untouched.
    pub fn generate_constraints(self, cs: &mut ConstraintSystem) -> (r: Result<(), SynthesisError>)
        requires
            old(cs).wf(),
            self.wf(),
            old(cs).num_instance < usize::MAX,
            old(cs).num_witness < usize::MAX - 1,
        ensures
            final(cs).wf(),
            match self.synthesis_error(old(cs).mode) {
                Some(e) => r == Err::<(), SynthesisError>(e) && same_contents(*final(cs), *old(cs)),
                None => r == Ok::<(), SynthesisError>(()) && synthesized_from(
                    self,
                    old(cs).mode,
                    old(cs).num_instance as nat,
                    old(cs).num_witness as nat,
                    old(cs).constraints@,
                    old(cs).instance_assignment@,
                    old(cs).witness_assignment@,
                    *final(cs),
                ),
            },
    {
        match cs.mode {
            SynthesisMode::Setup => {
                if self.x.is_some() || self.y.is_some() {
                    return Err(SynthesisError::WitnessInSetup);
                }
            },
            SynthesisMode::Prove => {
                if self.x.is_none() || self.y.is_none() {
                    return Err(SynthesisError::AssignmentMissing);
                }
            },
        }
        let ghost ks = cs.constraints@;
        let a = match cs.new_witness_variable(self.x) {
            Ok(v) => v,
            Err(e) => {
                return Err(e);
            },
        };
        let b = match cs.new_witness_variable(self.y) {
            Ok(v) => v,
            Err(e) => {
                return Err(e);
            },
        };
        let c = cs.new_input_variable(self.z);
        let one = Scalar::one();
        let ta = vec![Term { var: a, coeff: one }];
        let tb = vec![Term { var: b, coeff: one }];
        let tc = vec![Term { var: c, coeff: one }];
        cs.enforce_constraint(ta, tb, tc);
        assert(cs.constraints@.drop_last() =~= ks);
        Ok(())
    }

    /// Synthesizes this instance into a new system of the given mode.
    pub fn synthesize(&self, mode: SynthesisMode) -> (r: Result<ConstraintSystem, SynthesisError>)
        requires
            self.wf(),
        ensures
            match self.synthesis_error(mode) {
                Some(e) => r is Err && r->Err_0 == e,
                None => r is Ok && r->Ok_0.wf() && synthesized_fresh(*self, mode, r->Ok_0),
            },
    {
        let mut cs = ConstraintSystem::new(mode);
        assert(cs.instance_assignment@ =~= Seq::<Scalar>::empty());
        assert(cs.witness_assignment@ =~= Seq::<Scalar>::empty());
        match (*self).generate_constraints(&mut cs) {
            Ok(()) => {
                assert(cs.constraints@.drop_last() =~= Seq::<Constraint>::empty());
                Ok(cs)
            },
            Err(e) => Err(e),
        }
    }

    /// Whether the factors satisfy the relation, decided on the synthesized
    /// proving system. Fails when a factor is missing.
    pub fn check(&self) -> (r: Result<bool, SynthesisError>)
        requires
            self.wf(),
        ensures
            !self.is_complete() ==> r == Err::<bool, SynthesisError>(SynthesisError::AssignmentMissing),
            self.is_complete() ==> r == Ok::<bool, SynthesisError>(
                (self.x->0.value() * self.y->0.value()) % modulus() == self.z.value(),
            ),
    {
        match self.synthesize(SynthesisMode::Prove) {
            Ok(cs) => {
                proof {
                    lemma_satisfied_iff_product(*self, cs);
                }
                cs.is_satisfied()
            },
            Err(e) => Err(e),
        }
    }

    /// The satisfied proving system of this instance, ready to be handed to a
    /// prover; fails when a factor is absent or the factors do not multiply
    /// to the public value.
    pub fn proving_system(&self) -> (r: Result<ConstraintSystem, ProverError>)
        requires
            self.wf(),
        ensures
            !self.is_complete() ==> r is Err && r->Err_0 == ProverError::MissingWitness,
            self.is_complete() && (self.x->0.value() * self.y->0.value()) % modulus() != self.z.value()
                ==> r is Err && r->Err_0 == ProverError::UnsatisfiableWitness,
            self.is_complete() && (self.x->0.value() * self.y->0.value()) % modulus() == self.z.value()
                ==> r is Ok && r->Ok_0.wf() && r->Ok_0.satisfied() && synthesized_fresh(*self, SynthesisMode::Prove, r->Ok_0),
    {
        match self.synthesize(SynthesisMode::Prove) {
            Ok(cs) => {
                proof {
                    lemma_satisfied_iff_product(*self, cs);
                }
                match cs.is_satisfied() {
                    Ok(true) => Ok(cs),
                    _ => Err(ProverError::UnsatisfiableWitness),
                }
            },
            Err(_) => Err(ProverError::MissingWitness),
        }
    }
}

/// The proving system of a fully assigned instance is satisfied exactly when
/// `x * y = z` holds in the field.
pub proof fn lemma_satisfied_iff_product(c: MulCircuit, cs: ConstraintSystem)
    requires
        c.wf(),
        c.is_complete(),
        synthesized_fresh(c, SynthesisMode::Prove, cs),
    ensures
        cs.satisfied() <==> (c.x->0.value() * c.y->0.value()) % modulus() == c.z.value(),
{
    let k = cs.constraints@[0];
    let inst = cs.instance_assignment@;
    let wit = cs.witness_assignment@;
    assert(cs.constraints@.last() == k);
    lemma_lc_is_var_value(k.a@, Variable::Witness(0), inst, wit);
    lemma_lc_is_var_value(k.b@, Variable::Witness(1), inst, wit);
    lemma_lc_is_var_value(k.c@, Variable::Instance(0), inst, wit);
    if cs.satisfied() {
        assert(crate::r1cs::constraint_holds(cs.constraints@[0], inst, wit));
    }
}

/// Changing only the public value of a satisfying instance breaks every
/// proving system it synthesizes to.
pub proof fn lemma_other_public_value_unsatisfied(c: MulCircuit, z2: Scalar, cs: ConstraintSystem)
    requires
        c.wf(),
        c.is_complete(),
        z2.wf(),
        (c.x->0.value() * c.y->0.value()) % modulus() == c.z.value(),
        z2.value() != c.z.value(),
        synthesized_fresh(MulCircuit { z: z2, ..c }, SynthesisMode::Prove, cs),
    ensures
        !cs.satisfied(),
{
    lemma_satisfied_iff_product(MulCircuit { z: z2, ..c }, cs);
}

/// The key-generation system of any placeholder has the shape of the proving
/// system of any fully assigned instance.
pub proof fn lemma_setup_shape_matches_proving(
    shape: MulCircuit,
    full: MulCircuit,
    setup_cs: ConstraintSystem,
    prove_cs: ConstraintSystem,
)
    requires
        synthesized_fresh(shape, SynthesisMode::Setup, setup_cs),
        synthesized_fresh(full, SynthesisMode::Prove, prove_cs),
    ensures
        setup_cs.same_shape(&prove_cs),
{
    assert(setup_cs.constraints@[0] == setup_cs.constraints@.last());
    assert(prove_cs.constraints@[0] == prove_cs.constraints@.last());
}

} // verus!
