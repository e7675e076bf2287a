//! The prelude: built-in inductive types (Nat, Bool, Eq, And, Or, Empty, Unit)
//! and basic definitions on them.
use vstd::prelude::*;
use crate::term::{Term, MatchArm, Name, STerm, SArm, arms_view, opt_term_view, lemma_arms_view};
use crate::env::{
    GlobalEnv, InductiveDef, ConstructorDef, Definition, SGlobals, SInductive, SCtorDef, SDefinition, params_view,
    ctors_view, with_ctor_defs,
};

verus! {

/// The environment after registering an inductive type.
pub open spec fn add_inductive_spec(g: SGlobals, ind: SInductive) -> SGlobals {
    SGlobals { defs: with_ctor_defs(g.defs, ind.name, ind.constructors), inductives: g.inductives.insert(ind.name, ind) }
}

/// The environment after binding `name` to an axiom of type `ty`.
pub open spec fn add_axiom_spec(g: SGlobals, name: Seq<char>, ty: STerm) -> SGlobals {
    SGlobals { defs: g.defs.insert(name, SDefinition::Axiom { ty }), inductives: g.inductives }
}

/// The environment after binding `name` to a definition.
pub open spec fn add_def_spec(g: SGlobals, name: Seq<char>, ty: STerm, body: STerm) -> SGlobals {
    SGlobals { defs: g.defs.insert(name, SDefinition::Def { ty, body }), inductives: g.inductives }
}

pub open spec fn nat_succ_type() -> STerm {
    STerm::Pi("n"@, Box::new(STerm::Global("Nat"@)), Box::new(STerm::Global("Nat"@)))
}

pub open spec fn eq_type() -> STerm {
    STerm::Pi("A"@, Box::new(STerm::Sort(1)), Box::new(STerm::Pi("_"@, Box::new(STerm::Var(0)), Box::new(STerm::Pi("_"@, Box::new(STerm::Var(1)), Box::new(STerm::Sort(0)))))))
}

pub open spec fn eq_refl_type() -> STerm {
    STerm::Pi("A"@, Box::new(STerm::Sort(1)), Box::new(STerm::Pi("a"@, Box::new(STerm::Var(0)), Box::new(STerm::App(Box::new(STerm::App(Box::new(STerm::App(Box::new(STerm::Global("Eq"@)), Box::new(STerm::Var(1)))), Box::new(STerm::Var(0)))), Box::new(STerm::Var(0)))))))
}

pub open spec fn and_type() -> STerm {
    STerm::Pi("_"@, Box::new(STerm::Sort(0)), Box::new(STerm::Pi("_"@, Box::new(STerm::Sort(0)), Box::new(STerm::Sort(0)))))
}

pub open spec fn and_intro_type() -> STerm {
    STerm::Pi("A"@, Box::new(STerm::Sort(0)), Box::new(STerm::Pi("B"@, Box::new(STerm::Sort(0)), Box::new(STerm::Pi("_"@, Box::new(STerm::Var(1)), Box::new(STerm::Pi("_"@, Box::new(STerm::Var(1)), Box::new(STerm::App(Box::new(STerm::App(Box::new(STerm::Global("And"@)), Box::new(STerm::Var(3)))), Box::new(STerm::Var(2)))))))))))
}

pub open spec fn or_type() -> STerm {
    STerm::Pi("_"@, Box::new(STerm::Sort(0)), Box::new(STerm::Pi("_"@, Box::new(STerm::Sort(0)), Box::new(STerm::Sort(0)))))
}

pub open spec fn or_inl_type() -> STerm {
    STerm::Pi("A"@, Box::new(STerm::Sort(0)), Box::new(STerm::Pi("B"@, Box::new(STerm::Sort(0)), Box::new(STerm::Pi("_"@, Box::new(STerm::Var(1)), Box::new(STerm::App(Box::new(STerm::App(Box::new(STerm::Global("Or"@)), Box::new(STerm::Var(2)))), Box::new(STerm::Var(1)))))))))
}

pub open spec fn or_inr_type() -> STerm {
    STerm::Pi("A"@, Box::new(STerm::Sort(0)), Box::new(STerm::Pi("B"@, Box::new(STerm::Sort(0)), Box::new(STerm::Pi("_"@, Box::new(STerm::Var(0)), Box::new(STerm::App(Box::new(STerm::App(Box::new(STerm::Global("Or"@)), Box::new(STerm::Var(2)))), Box::new(STerm::Var(1)))))))))
}

pub open spec fn nat_add_type() -> STerm {
    STerm::Pi("n"@, Box::new(STerm::Global("Nat"@)), Box::new(STerm::Pi("m"@, Box::new(STerm::Global("Nat"@)), Box::new(STerm::Global("Nat"@)))))
}

pub open spec fn nat_add_body() -> STerm {
    STerm::Lam("n"@, Box::new(STerm::Global("Nat"@)), Box::new(STerm::Lam("m"@, Box::new(STerm::Global("Nat"@)), Box::new(STerm::Match { scrutinee: Box::new(STerm::Var(1)), motive: None, arms: seq![SArm { ctor: "zero"@, arity: 0, body: STerm::Var(0) }, SArm { ctor: "succ"@, arity: 1, body: STerm::App(Box::new(STerm::Global("succ"@)), Box::new(STerm::App(Box::new(STerm::App(Box::new(STerm::Global("Nat.add"@)), Box::new(STerm::Var(0)))), Box::new(STerm::Var(1))))) }] }))))
}

pub open spec fn nat_mul_type() -> STerm {
    STerm::Pi("n"@, Box::new(STerm::Global("Nat"@)), Box::new(STerm::Pi("m"@, Box::new(STerm::Global("Nat"@)), Box::new(STerm::Global("Nat"@)))))
}

pub open spec fn nat_mul_body() -> STerm {
    STerm::Lam("n"@, Box::new(STerm::Global("Nat"@)), Box::new(STerm::Lam("m"@, Box::new(STerm::Global("Nat"@)), Box::new(STerm::Match { scrutinee: Box::new(STerm::Var(1)), motive: None, arms: seq![SArm { ctor: "zero"@, arity: 0, body: STerm::Nat(0) }, SArm { ctor: "succ"@, arity: 1, body: STerm::App(Box::new(STerm::App(Box::new(STerm::Global("Nat.add"@)), Box::new(STerm::Var(1)))), Box::new(STerm::App(Box::new(STerm::App(Box::new(STerm::Global("Nat.mul"@)), Box::new(STerm::Var(0)))), Box::new(STerm::Var(1))))) }] }))))
}

pub open spec fn not_type() -> STerm {
    STerm::Pi("_"@, Box::new(STerm::Sort(0)), Box::new(STerm::Sort(0)))
}

pub open spec fn not_body() -> STerm {
    STerm::Lam("A"@, Box::new(STerm::Sort(0)), Box::new(STerm::Pi("_"@, Box::new(STerm::Var(0)), Box::new(STerm::Global("Empty"@)))))
}

pub open spec fn sorry_type() -> STerm {
    STerm::Pi("A"@, Box::new(STerm::Sort(1)), Box::new(STerm::Var(0)))
}

pub open spec fn id_type() -> STerm {
    STerm::Pi("A"@, Box::new(STerm::Sort(1)), Box::new(STerm::Pi("a"@, Box::new(STerm::Var(0)), Box::new(STerm::Var(1)))))
}

pub open spec fn id_body() -> STerm {
    STerm::Lam("A"@, Box::new(STerm::Sort(1)), Box::new(STerm::Lam("a"@, Box::new(STerm::Var(0)), Box::new(STerm::Var(0)))))
}

pub open spec fn nat_inductive() -> SInductive {
    SInductive {
        name: "Nat"@,
        params: seq![],
        ty: STerm::Sort(1),
        constructors: seq![SCtorDef { name: "zero"@, ty: STerm::Global("Nat"@) }, SCtorDef { name: "succ"@, ty: nat_succ_type() }],
    }
}

/// The environment after `define_nat`.
pub open spec fn nat_defined(g: SGlobals) -> SGlobals {
    add_axiom_spec(add_inductive_spec(g, nat_inductive()), "Nat"@, STerm::Sort(1))
}

pub open spec fn bool_inductive() -> SInductive {
    SInductive {
        name: "Bool"@,
        params: seq![],
        ty: STerm::Sort(1),
        constructors: seq![SCtorDef { name: "Bool.false"@, ty: STerm::Global("Bool"@) }, SCtorDef { name: "Bool.true"@, ty: STerm::Global("Bool"@) }],
    }
}

/// The environment after `define_bool`.
pub open spec fn bool_defined(g: SGlobals) -> SGlobals {
    add_axiom_spec(add_inductive_spec(g, bool_inductive()), "Bool"@, STerm::Sort(1))
}

pub open spec fn eq_inductive() -> SInductive {
    SInductive {
        name: "Eq"@,
        params: seq![("A"@, STerm::Sort(1))],
        ty: eq_type(),
        constructors: seq![SCtorDef { name: "Eq.refl"@, ty: eq_refl_type() }],
    }
}

/// The environment after `define_eq`.
pub open spec fn eq_defined(g: SGlobals) -> SGlobals {
    add_axiom_spec(add_inductive_spec(g, eq_inductive()), "Eq"@, eq_type())
}

pub open spec fn and_inductive() -> SInductive {
    SInductive {
        name: "And"@,
        params: seq![],
        ty: or_type(),
        constructors: seq![SCtorDef { name: "And.intro"@, ty: and_intro_type() }],
    }
}

/// The environment after `define_and`.
pub open spec fn and_defined(g: SGlobals) -> SGlobals {
    add_axiom_spec(add_inductive_spec(g, and_inductive()), "And"@, or_type())
}

pub open spec fn or_inductive() -> SInductive {
    SInductive {
        name: "Or"@,
        params: seq![],
        ty: or_type(),
        constructors: seq![SCtorDef { name: "Or.inl"@, ty: or_inl_type() }, SCtorDef { name: "Or.inr"@, ty: or_inr_type() }],
    }
}

/// The environment after `define_or`.
pub open spec fn or_defined(g: SGlobals) -> SGlobals {
    add_axiom_spec(add_inductive_spec(g, or_inductive()), "Or"@, or_type())
}

pub open spec fn empty_inductive() -> SInductive {
    SInductive {
        name: "Empty"@,
        params: seq![],
        ty: STerm::Sort(0),
        constructors: seq![],
    }
}

/// The environment after `define_empty`.
pub open spec fn empty_defined(g: SGlobals) -> SGlobals {
    add_axiom_spec(add_inductive_spec(g, empty_inductive()), "Empty"@, STerm::Sort(0))
}

pub open spec fn unit_inductive() -> SInductive {
    SInductive {
        name: "Unit"@,
        params: seq![],
        ty: STerm::Sort(0),
        constructors: seq![SCtorDef { name: "Unit.intro"@, ty: STerm::Global("Unit"@) }],
    }
}

/// The environment after `define_unit`.
pub open spec fn unit_defined(g: SGlobals) -> SGlobals {
    add_axiom_spec(add_inductive_spec(g, unit_inductive()), "Unit"@, STerm::Sort(0))
}

/// The environment after `define_basic_functions`.
pub open spec fn basic_functions_defined(g: SGlobals) -> SGlobals {
    let g1 = add_def_spec(g, "Nat.add"@, nat_add_type(), nat_add_body());
    let g2 = add_def_spec(g1, "add"@, nat_add_type(), nat_add_body());
    let g3 = add_def_spec(g2, "Nat.mul"@, nat_mul_type(), nat_mul_body());
    let g4 = add_def_spec(g3, "mul"@, nat_mul_type(), nat_mul_body());
    let g5 = add_def_spec(g4, "Not"@, not_type(), not_body());
    let g6 = add_axiom_spec(g5, "sorry"@, sorry_type());
    add_def_spec(g6, "id"@, id_type(), id_body())
}

/// The environment after `load_prelude`.
pub open spec fn prelude_loaded(g: SGlobals) -> SGlobals {
    basic_functions_defined(unit_defined(empty_defined(or_defined(and_defined(eq_defined(bool_defined(nat_defined(g))))))))
}

/// Load the built-in types and definitions into the environment.
pub fn load_prelude(env: &mut GlobalEnv)
    ensures
        final(env)@ == prelude_loaded(old(env)@),
        old(env).keys_unique() ==> final(env).keys_unique(),
{
    define_nat(env);
    define_bool(env);
    define_eq(env);
    define_and(env);
    define_or(env);
    define_empty(env);
    define_unit(env);
    define_basic_functions(env);
}

fn global(name: &str) -> (r: Term)
    ensures
        r@ == STerm::Global(name@),
{
    Term::Global(name.to_string())
}

fn pi(name: &str, a: Term, b: Term) -> (r: Term)
    ensures
        r@ == STerm::Pi(name@, Box::new(a@), Box::new(b@)),
{
    Term::Pi(name.to_string(), Box::new(a), Box::new(b))
}

fn lam(name: &str, a: Term, b: Term) -> (r: Term)
    ensures
        r@ == STerm::Lam(name@, Box::new(a@), Box::new(b@)),
{
    Term::Lam(name.to_string(), Box::new(a), Box::new(b))
}

fn app(f: Term, x: Term) -> (r: Term)
    ensures
        r@ == STerm::App(Box::new(f@), Box::new(x@)),
{
    Term::App(Box::new(f), Box::new(x))
}

fn arm(ctor: &str, arity: usize, body: Term) -> (r: MatchArm)
    ensures
        r@ == (SArm { ctor: ctor@, arity, body: body@ }),
{
    MatchArm { ctor: ctor.to_string(), arity, body }
}

fn two_arms(a: MatchArm, b: MatchArm) -> (r: Vec<MatchArm>)
    ensures
        arms_view(r@) == seq![a@, b@],
{
    let mut v: Vec<MatchArm> = Vec::new();
    v.push(a);
    v.push(b);
    proof {
        lemma_arms_view(v@);
    }
    assert(arms_view(v@) =~= seq![a@, b@]);
    v
}

fn match_on(scrutinee: Term, arms: Vec<MatchArm>) -> (r: Term)
    ensures
        r@ == (STerm::Match { scrutinee: Box::new(scrutinee@), motive: None, arms: arms_view(arms@) }),
{
    assert(opt_term_view(None) == None::<Box<STerm>>);
    Term::Match { scrutinee: Box::new(scrutinee), motive: None, arms }
}

fn ctor(name: &str, ty: Term) -> (r: ConstructorDef)
    ensures
        r@ == (SCtorDef { name: name@, ty: ty@ }),
{
    ConstructorDef { name: name.to_string(), ty }
}

/// Natural numbers: `zero` and `succ`.
fn define_nat(env: &mut GlobalEnv)
    ensures
        final(env)@ == nat_defined(old(env)@),
        old(env).keys_unique() ==> final(env).keys_unique(),
{
    let params: Vec<(Name, Term)> = Vec::new();
    assert(params_view(params@) =~= seq![]);
    let ty = Term::Sort(1);
    let mut constructors: Vec<ConstructorDef> = Vec::new();
    constructors.push(ctor("zero", global("Nat")));
    constructors.push(ctor("succ", pi("n", global("Nat"), global("Nat"))));
    assert(ctors_view(constructors@) =~= seq![SCtorDef { name: "zero"@, ty: STerm::Global("Nat"@) }, SCtorDef { name: "succ"@, ty: nat_succ_type() }]);
    let axiom_ty = Term::Sort(1);
    env.add_inductive(InductiveDef { name: "Nat".to_string(), params, ty, constructors });
    env.insert_def("Nat".to_string(), Definition::Axiom { ty: axiom_ty });
    assert(env@ =~= nat_defined(old(env)@));
}

/// Booleans: `Bool.false` and `Bool.true`.
fn define_bool(env: &mut GlobalEnv)
    ensures
        final(env)@ == bool_defined(old(env)@),
        old(env).keys_unique() ==> final(env).keys_unique(),
{
    let params: Vec<(Name, Term)> = Vec::new();
    assert(params_view(params@) =~= seq![]);
    let ty = Term::Sort(1);
    let mut constructors: Vec<ConstructorDef> = Vec::new();
    constructors.push(ctor("Bool.false", global("Bool")));
    constructors.push(ctor("Bool.true", global("Bool")));
    assert(ctors_view(constructors@) =~= seq![SCtorDef { name: "Bool.false"@, ty: STerm::Global("Bool"@) }, SCtorDef { name: "Bool.true"@, ty: STerm::Global("Bool"@) }]);
    let axiom_ty = Term::Sort(1);
    env.add_inductive(InductiveDef { name: "Bool".to_string(), params, ty, constructors });
    env.insert_def("Bool".to_string(), Definition::Axiom { ty: axiom_ty });
    assert(env@ =~= bool_defined(old(env)@));
}

/// Propositional equality with its reflexivity constructor.
fn define_eq(env: &mut GlobalEnv)
    ensures
        final(env)@ == eq_defined(old(env)@),
        old(env).keys_unique() ==> final(env).keys_unique(),
{
    let mut params: Vec<(Name, Term)> = Vec::new();
    params.push(("A".to_string(), Term::Sort(1)));
    assert(params_view(params@) =~= seq![("A"@, STerm::Sort(1))]);
    let ty = pi("A", Term::Sort(1), pi("_", Term::Var(0), pi("_", Term::Var(1), Term::Sort(0))));
    let mut constructors: Vec<ConstructorDef> = Vec::new();
    constructors.push(ctor("Eq.refl", pi(
        "A",
        Term::Sort(1),
        pi("a", Term::Var(0), app(app(app(global("Eq"), Term::Var(1)), Term::Var(0)), Term::Var(0))),
    )));
    assert(ctors_view(constructors@) =~= seq![SCtorDef { name: "Eq.refl"@, ty: eq_refl_type() }]);
    let axiom_ty = ty.clone();
    env.add_inductive(InductiveDef { name: "Eq".to_string(), params, ty, constructors });
    env.insert_def("Eq".to_string(), Definition::Axiom { ty: axiom_ty });
    assert(env@ =~= eq_defined(old(env)@));
}

/// Conjunction of two propositions.
fn define_and(env: &mut GlobalEnv)
    ensures
        final(env)@ == and_defined(old(env)@),
        old(env).keys_unique() ==> final(env).keys_unique(),
{
    let params: Vec<(Name, Term)> = Vec::new();
    assert(params_view(params@) =~= seq![]);
    let ty = pi("_", Term::Sort(0), pi("_", Term::Sort(0), Term::Sort(0)));
    let mut constructors: Vec<ConstructorDef> = Vec::new();
    constructors.push(ctor("And.intro", pi(
        "A",
        Term::Sort(0),
        pi(
            "B",
            Term::Sort(0),
            pi(
                "_",
                Term::Var(1),
                pi("_", Term::Var(1), app(app(global("And"), Term::Var(3)), Term::Var(2))),
            ),
        ),
    )));
    assert(ctors_view(constructors@) =~= seq![SCtorDef { name: "And.intro"@, ty: and_intro_type() }]);
    let axiom_ty = ty.clone();
    env.add_inductive(InductiveDef { name: "And".to_string(), params, ty, constructors });
    env.insert_def("And".to_string(), Definition::Axiom { ty: axiom_ty });
    assert(env@ =~= and_defined(old(env)@));
}

/// Disjunction of two propositions.
fn define_or(env: &mut GlobalEnv)
    ensures
        final(env)@ == or_defined(old(env)@),
        old(env).keys_unique() ==> final(env).keys_unique(),
{
    let params: Vec<(Name, Term)> = Vec::new();
    assert(params_view(params@) =~= seq![]);
    let ty = pi("_", Term::Sort(0), pi("_", Term::Sort(0), Term::Sort(0)));
    let mut constructors: Vec<ConstructorDef> = Vec::new();
    constructors.push(ctor("Or.inl", pi(
        "A",
        Term::Sort(0),
        pi(
            "B",
            Term::Sort(0),
            pi("_", Term::Var(1), app(app(global("Or"), Term::Var(2)), Term::Var(1))),
        ),
    )));
    constructors.push(ctor("Or.inr", pi(
        "A",
        Term::Sort(0),
        pi(
            "B",
            Term::Sort(0),
            pi("_", Term::Var(0), app(app(global("Or"), Term::Var(2)), Term::Var(1))),
        ),
    )));
    assert(ctors_view(constructors@) =~= seq![SCtorDef { name: "Or.inl"@, ty: or_inl_type() }, SCtorDef { name: "Or.inr"@, ty: or_inr_type() }]);
    let axiom_ty = ty.clone();
    env.add_inductive(InductiveDef { name: "Or".to_string(), params, ty, constructors });
    env.insert_def("Or".to_string(), Definition::Axiom { ty: axiom_ty });
    assert(env@ =~= or_defined(old(env)@));
}

/// The empty proposition (falsehood).
fn define_empty(env: &mut GlobalEnv)
    ensures
        final(env)@ == empty_defined(old(env)@),
        old(env).keys_unique() ==> final(env).keys_unique(),
{
    let params: Vec<(Name, Term)> = Vec::new();
    assert(params_view(params@) =~= seq![]);
    let ty = Term::Sort(0);
    let constructors: Vec<ConstructorDef> = Vec::new();
    assert(ctors_view(constructors@) =~= seq![]);
    let axiom_ty = Term::Sort(0);
    env.add_inductive(InductiveDef { name: "Empty".to_string(), params, ty, constructors });
    env.insert_def("Empty".to_string(), Definition::Axiom { ty: axiom_ty });
    assert(env@ =~= empty_defined(old(env)@));
}

/// The trivially true proposition.
fn define_unit(env: &mut GlobalEnv)
    ensures
        final(env)@ == unit_defined(old(env)@),
        old(env).keys_unique() ==> final(env).keys_unique(),
{
    let params: Vec<(Name, Term)> = Vec::new();
    assert(params_view(params@) =~= seq![]);
    let ty = Term::Sort(0);
    let mut constructors: Vec<ConstructorDef> = Vec::new();
    constructors.push(ctor("Unit.intro", global("Unit")));
    assert(ctors_view(constructors@) =~= seq![SCtorDef { name: "Unit.intro"@, ty: STerm::Global("Unit"@) }]);
    let axiom_ty = Term::Sort(0);
    env.add_inductive(InductiveDef { name: "Unit".to_string(), params, ty, constructors });
    env.insert_def("Unit".to_string(), Definition::Axiom { ty: axiom_ty });
    assert(env@ =~= unit_defined(old(env)@));
}

/// Arithmetic on naturals (also under the short names `add` and `mul`), negation,
/// the `sorry` axiom and the identity function.
fn define_basic_functions(env: &mut GlobalEnv)
    ensures
        final(env)@ == basic_functions_defined(old(env)@),
        old(env).keys_unique() ==> final(env).keys_unique(),
{
    let nat_add_type = pi("n", global("Nat"), pi("m", global("Nat"), global("Nat")));
    let nat_add_body = lam(
        "n",
        global("Nat"),
        lam(
            "m",
            global("Nat"),
            match_on(
                Term::Var(1),
                two_arms(
                    arm("zero", 0, Term::Var(0)),
                    arm(
                        "succ",
                        1,
                        app(global("succ"), app(app(global("Nat.add"), Term::Var(0)), Term::Var(1))),
                    ),
                ),
            ),
        ),
    );
    env.add_def("Nat.add".to_string(), nat_add_type, nat_add_body);
    let found = match env.lookup("Nat.add") {
        Some(def) => Some(def.clone()),
        None => None,
    };
    if let Some(def) = found {
        env.insert_def("add".to_string(), def);
    }
    let nat_mul_type = pi("n", global("Nat"), pi("m", global("Nat"), global("Nat")));
    let nat_mul_body = lam(
        "n",
        global("Nat"),
        lam(
            "m",
            global("Nat"),
            match_on(
                Term::Var(1),
                two_arms(
                    arm("zero", 0, Term::Nat(0)),
                    arm(
                        "succ",
                        1,
                        app(
                            app(global("Nat.add"), Term::Var(1)),
                            app(app(global("Nat.mul"), Term::Var(0)), Term::Var(1)),
                        ),
                    ),
                ),
            ),
        ),
    );
    env.add_def("Nat.mul".to_string(), nat_mul_type, nat_mul_body);
    let found = match env.lookup("Nat.mul") {
        Some(def) => Some(def.clone()),
        None => None,
    };
    if let Some(def) = found {
        env.insert_def("mul".to_string(), def);
    }
    let not_type = pi("_", Term::Sort(0), Term::Sort(0));
    let not_body = lam("A", Term::Sort(0), pi("_", Term::Var(0), global("Empty")));
    env.add_def("Not".to_string(), not_type, not_body);
    let sorry_type = pi("A", Term::Sort(1), Term::Var(0));
    env.add_axiom("sorry".to_string(), sorry_type);
    let id_type = pi("A", Term::Sort(1), pi("a", Term::Var(0), Term::Var(1)));
    let id_body = lam("A", Term::Sort(1), lam("a", Term::Var(0), Term::Var(0)));
    env.add_def("id".to_string(), id_type, id_body);
    assert(env@ =~= basic_functions_defined(old(env)@));
}

}
