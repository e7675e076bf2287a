use dyntp::term::{Term, MatchArm, Value};
use dyntp::env::{GlobalEnv, Definition};
use dyntp::prelude::load_prelude;
use dyntp::typecheck::{TypeCtx, TypeError, infer, check, check_def};
use dyntp::eval::{eval, quote, normalize, conv_check};
use dyntp::elaborate::{LocalCtx, elaborate_expr};
use dyntp::ast::{Expr, Pattern};
use dyntp::ast;
use dyntp::ast_helpers::{wrap_lams, wrap_pis};

fn g(n: &str) -> Term {
    Term::Global(n.to_string())
}

fn pi(n: &str, a: Term, b: Term) -> Term {
    Term::Pi(n.to_string(), Box::new(a), Box::new(b))
}

fn lam(n: &str, a: Term, b: Term) -> Term {
    Term::Lam(n.to_string(), Box::new(a), Box::new(b))
}

fn app(f: Term, x: Term) -> Term {
    Term::App(Box::new(f), Box::new(x))
}

fn prelude() -> GlobalEnv {
    let mut env = GlobalEnv::new();
    load_prelude(&mut env);
    env
}

fn ty_text(globals: &GlobalEnv, v: &Value, lvl: usize) -> String {
    quote(v, lvl, globals).to_text()
}

#[test]
fn prelude_registers_types_and_constructors() {
    let env = prelude();
    match env.lookup("Nat") {
        Some(Definition::Axiom { ty }) => assert_eq!(ty.to_text(), "Type 0"),
        _ => panic!("Nat should be an axiom"),
    }
    match env.lookup("succ") {
        Some(Definition::Constructor { inductive, ty, index }) => {
            assert_eq!(inductive, "Nat");
            assert_eq!(*index, 1);
            assert_eq!(ty.to_text(), "∀ (n : Nat), Nat");
        },
        _ => panic!("succ should be a constructor"),
    }
    match env.lookup("Eq.refl") {
        Some(Definition::Constructor { inductive, index, .. }) => {
            assert_eq!(inductive, "Eq");
            assert_eq!(*index, 0);
        },
        _ => panic!("Eq.refl should be a constructor"),
    }
    let or = env.lookup_inductive("Or").expect("Or is inductive");
    assert_eq!(or.constructors.len(), 2);
    assert_eq!(or.constructors[1].name, "Or.inr");
    assert!(env.lookup_inductive("Empty").unwrap().constructors.is_empty());
    match env.lookup("add") {
        Some(Definition::Def { ty, .. }) => assert_eq!(ty.to_text(), "∀ (n : Nat), ∀ (m : Nat), Nat"),
        _ => panic!("add should be a definition"),
    }
    match env.lookup("sorry") {
        Some(Definition::Axiom { ty }) => assert_eq!(ty.to_text(), "∀ (A : Type 0), #0"),
        _ => panic!("sorry should be an axiom"),
    }
    assert!(env.lookup("nonexistent").is_none());
}

#[test]
fn read_after_write_in_environment() {
    let mut env = GlobalEnv::new();
    env.add_axiom("p".to_string(), Term::Sort(0));
    env.add_def("x".to_string(), g("Nat"), Term::Nat(1));
    env.add_def("p".to_string(), Term::Sort(0), g("q"));
    assert_eq!(env.defs.len(), 2);
    match env.lookup("p") {
        Some(Definition::Def { body, .. }) => assert_eq!(body.to_text(), "q"),
        _ => panic!("p should now be a definition"),
    }
    match env.lookup("x") {
        Some(Definition::Def { body, .. }) => assert_eq!(body.to_text(), "1"),
        _ => panic!("x should be unchanged"),
    }
}

#[test]
fn add_inductive_numbers_constructors() {
    let mut env = GlobalEnv::new();
    env.add_inductive(dyntp::env::InductiveDef {
        name: "T".to_string(),
        params: vec![],
        ty: Term::Sort(1),
        constructors: vec![
            dyntp::env::ConstructorDef { name: "a".to_string(), ty: g("T") },
            dyntp::env::ConstructorDef { name: "b".to_string(), ty: g("T") },
        ],
    });
    match env.lookup("b") {
        Some(Definition::Constructor { inductive, index, .. }) => {
            assert_eq!(inductive, "T");
            assert_eq!(*index, 1);
        },
        _ => panic!("b should be a constructor"),
    }
    assert!(env.lookup("T").is_none());
    assert_eq!(env.lookup_inductive("T").unwrap().constructors.len(), 2);
}

#[test]
fn evaluation_of_addition_and_multiplication() {
    let env = prelude();
    let sum = app(app(g("Nat.add"), Term::Nat(2)), Term::Nat(3));
    assert_eq!(normalize(&sum, &vec![], &env).to_text(), "5");
    let prod = app(app(g("mul"), Term::Nat(3)), Term::Nat(4));
    assert_eq!(normalize(&prod, &vec![], &env).to_text(), "12");
    let succ = app(g("succ"), Term::Nat(41));
    assert_eq!(normalize(&succ, &vec![], &env).to_text(), "42");
}

#[test]
fn evaluation_of_beta_let_and_if() {
    let env = GlobalEnv::new();
    let id_app = app(lam("x", g("Nat"), Term::Var(0)), Term::Nat(7));
    assert_eq!(normalize(&id_app, &vec![], &env).to_text(), "7");
    let l = Term::Let("x".to_string(), Box::new(g("Nat")), Box::new(Term::Nat(2)), Box::new(Term::Var(0)));
    assert_eq!(normalize(&l, &vec![], &env).to_text(), "2");
    let i = Term::If(Box::new(Term::BoolLit(false)), Box::new(Term::Nat(1)), Box::new(Term::Nat(2)));
    assert_eq!(normalize(&i, &vec![], &env).to_text(), "2");
}

#[test]
fn evaluation_of_match_on_booleans() {
    let env = GlobalEnv::new();
    let m = Term::Match {
        scrutinee: Box::new(Term::BoolLit(true)),
        motive: None,
        arms: vec![
            MatchArm { ctor: "false".to_string(), arity: 0, body: Term::Nat(0) },
            MatchArm { ctor: "true".to_string(), arity: 0, body: Term::Nat(1) },
        ],
    };
    assert_eq!(normalize(&m, &vec![], &env).to_text(), "1");
}

#[test]
fn conversion_up_to_evaluation() {
    let env = prelude();
    let a = eval(&app(app(g("add"), Term::Nat(1)), Term::Nat(1)), &vec![], &env);
    let b = eval(&Term::Nat(2), &vec![], &env);
    assert!(conv_check(&a, &b, 0, &env));
    let c = eval(&Term::Nat(3), &vec![], &env);
    assert!(!conv_check(&a, &c, 0, &env));
}

#[test]
fn infer_universes_and_literals() {
    let env = prelude();
    let mut ctx = TypeCtx::new();
    let (_, ty) = infer(&Term::Sort(0), &mut ctx, &env).unwrap();
    assert_eq!(ty_text(&env, &ty, 0), "Type 0");
    let (_, ty) = infer(&Term::Nat(3), &mut ctx, &env).unwrap();
    assert_eq!(ty_text(&env, &ty, 0), "Nat");
    let (_, ty) = infer(&Term::BoolLit(true), &mut ctx, &env).unwrap();
    assert_eq!(ty_text(&env, &ty, 0), "Bool");
}

#[test]
fn infer_function_types() {
    let env = prelude();
    let mut ctx = TypeCtx::new();
    let id = lam("x", g("Nat"), Term::Var(0));
    let (_, ty) = infer(&id, &mut ctx, &env).unwrap();
    assert_eq!(ty_text(&env, &ty, 0), "∀ (x : Nat), Nat");
    assert_eq!(ctx.level(), 0);
    let (_, ty) = infer(&app(g("succ"), Term::Nat(1)), &mut ctx, &env).unwrap();
    assert_eq!(ty_text(&env, &ty, 0), "Nat");
    let (_, ty) = infer(&pi("_", g("Nat"), Term::Sort(0)), &mut ctx, &env).unwrap();
    assert_eq!(ty_text(&env, &ty, 0), "Type 0");
}

#[test]
fn universe_of_function_types() {
    let env = prelude();
    let mut ctx = TypeCtx::new();
    let over_proof = pi("u", g("Unit"), g("Nat"));
    let (_, ty) = infer(&over_proof, &mut ctx, &env).unwrap();
    assert_eq!(ty_text(&env, &ty, 0), "Prop");
    let into_prop = pi("n", g("Nat"), app(app(app(g("Eq"), g("Nat")), Term::Var(0)), Term::Var(0)));
    let (_, ty) = infer(&into_prop, &mut ctx, &env).unwrap();
    assert_eq!(ty_text(&env, &ty, 0), "Type 0");
    let big = pi("A", Term::Sort(2), Term::Var(0));
    let (_, ty) = infer(&big, &mut ctx, &env).unwrap();
    assert_eq!(ty_text(&env, &ty, 0), "Type 2");
}

#[test]
fn infer_errors() {
    let env = prelude();
    let mut ctx = TypeCtx::new();
    let e: TypeError = infer(&Term::Var(0), &mut ctx, &env).unwrap_err();
    assert_eq!(e.message, "Unbound variable index 0");
    assert_eq!(e.to_text(), "Type error: Unbound variable index 0");
    let e = infer(&g("nope"), &mut ctx, &env).unwrap_err();
    assert_eq!(e.message, "Unknown global 'nope'");
    let e = infer(&Term::Constructor("Nat".to_string(), "nada".to_string()), &mut ctx, &env).unwrap_err();
    assert_eq!(e.message, "Unknown constructor 'nada'");
    let e = infer(&pi("x", Term::Nat(1), Term::Sort(0)), &mut ctx, &env).unwrap_err();
    assert_eq!(e.message, "Expected a type (Sort), got Neutral(Neutral { head: Global(\"Nat\"), spine: [] })");
}

#[test]
fn check_reports_mismatch() {
    let env = prelude();
    let mut ctx = TypeCtx::new();
    let bool_ty = Value::global("Bool".to_string());
    let e = check(&Term::Nat(1), &bool_ty, &mut ctx, &env).unwrap_err();
    assert_eq!(e.message, "Type mismatch: expected `Bool`, got `Nat`");
    let nat_to_nat = eval(&pi("_", g("Nat"), g("Nat")), &vec![], &env);
    let wrong_lam = lam("x", g("Bool"), Term::Var(0));
    let e = check(&wrong_lam, &nat_to_nat, &mut ctx, &env).unwrap_err();
    assert_eq!(e.message, "Lambda parameter type mismatch: expected Nat, got Bool");
    let hole_lam = lam("x", Term::Meta(0), Term::Var(0));
    let elab = check(&hole_lam, &nat_to_nat, &mut ctx, &env).unwrap();
    assert_eq!(elab.to_text(), "fun (x : Nat) => #0");
}

#[test]
fn type_context_binding() {
    let mut ctx = TypeCtx::new();
    ctx.bind("x".to_string(), Value::global("Nat".to_string()));
    ctx.bind("y".to_string(), Value::global("Bool".to_string()));
    assert_eq!(ctx.level(), 2);
    assert_eq!(ctx.lookup_by_index(0).unwrap().to_text(), "Bool");
    assert_eq!(ctx.lookup_by_index(1).unwrap().to_text(), "Nat");
    assert!(ctx.lookup_by_index(2).is_none());
    assert_eq!(ctx.env().len(), 2);
    assert_eq!(ctx.env()[1].to_text(), "v1");
    ctx.unbind();
    assert_eq!(ctx.level(), 1);
    assert_eq!(ctx.lookup_by_index(0).unwrap().to_text(), "Nat");
}

#[test]
fn check_def_records_on_success() {
    let mut env = prelude();
    let r = check_def("two", &g("Nat"), &Term::Nat(2), &mut env);
    assert_eq!(r, Ok(()));
    match env.lookup("two") {
        Some(Definition::Def { body, .. }) => assert_eq!(body.to_text(), "2"),
        _ => panic!("two should be defined"),
    }
}

#[test]
fn check_def_reports_stage() {
    let mut env = prelude();
    let r = check_def("bad", &g("Bool"), &Term::Nat(2), &mut env);
    assert_eq!(r, Err("In definition 'bad': Type error: Type mismatch: expected `Bool`, got `Nat`".to_string()));
    assert!(env.lookup("bad").is_none());
    let r = check_def("worse", &g("Nope"), &Term::Nat(2), &mut env);
    assert_eq!(r, Err("In type of 'worse': Type error: Unknown global 'Nope'".to_string()));
}

#[test]
fn local_context_lookup() {
    let mut ctx = LocalCtx::new();
    ctx.bind("x".to_string());
    ctx.bind("y".to_string());
    ctx.bind("x".to_string());
    assert_eq!(ctx.lookup("x"), Some(0));
    assert_eq!(ctx.lookup("y"), Some(1));
    assert_eq!(ctx.lookup("z"), None);
    assert_eq!(ctx.depth(), 3);
    ctx.unbind();
    assert_eq!(ctx.lookup("x"), Some(1));
    ctx.unbind();
    ctx.unbind();
    ctx.unbind();
    assert_eq!(ctx.depth(), 0);
}

fn v(n: &str) -> Expr {
    Expr::Var(n.to_string())
}

#[test]
fn elaboration_resolves_names() {
    let env = prelude();
    let mut ctx = LocalCtx::new();
    let e = Expr::Lam("x".to_string(), Box::new(v("Nat")), Box::new(Expr::App(Box::new(v("f")), Box::new(v("x")))));
    let t = elaborate_expr(&e, &mut ctx, &env).unwrap();
    assert_eq!(t.to_text(), "fun (x : Nat) => f #0");
    assert_eq!(ctx.depth(), 0);
    let arrow = Expr::Arrow(Box::new(v("Nat")), Box::new(Expr::Universe(0)));
    assert_eq!(elaborate_expr(&arrow, &mut ctx, &env).unwrap().to_text(), "Nat → Type 0");
    assert_eq!(elaborate_expr(&Expr::Prop, &mut ctx, &env).unwrap().to_text(), "Prop");
    assert_eq!(elaborate_expr(&Expr::Hole, &mut ctx, &env).unwrap().to_text(), "?0");
    let paren = Expr::Paren(Box::new(Expr::Nat(3)));
    assert_eq!(elaborate_expr(&paren, &mut ctx, &env).unwrap().to_text(), "3");
}

#[test]
fn elaboration_of_match_patterns() {
    let env = prelude();
    let mut ctx = LocalCtx::new();
    let e = Expr::Match(
        Box::new(Expr::Nat(1)),
        vec![
            ast::MatchArm { pattern: Pattern::Nat(0), body: Expr::Nat(0) },
            ast::MatchArm { pattern: Pattern::Constructor("succ".to_string(), vec!["k".to_string()]), body: v("k") },
            ast::MatchArm { pattern: Pattern::Wildcard, body: Expr::BoolLit(false) },
            ast::MatchArm { pattern: Pattern::Bool(true), body: Expr::Nat(1) },
        ],
    );
    let t = elaborate_expr(&e, &mut ctx, &env).unwrap();
    assert_eq!(t.to_text(), "match 1 with | zero => 0 | succ => #0 | _ => false | true => 1");
    let bad = Expr::Match(Box::new(Expr::Nat(1)), vec![ast::MatchArm { pattern: Pattern::Nat(2), body: Expr::Nat(0) }]);
    assert_eq!(
        elaborate_expr(&bad, &mut ctx, &env).unwrap_err(),
        "Only 0 literal patterns supported in match; use Nat.succ n instead"
    );
}

#[test]
fn wrapping_parameters() {
    let params = vec![("a".to_string(), v("A")), ("b".to_string(), v("B"))];
    match wrap_lams(params, v("body")) {
        Expr::Lam(a, _, inner) => {
            assert_eq!(a, "a");
            match *inner {
                Expr::Lam(b, _, body) => {
                    assert_eq!(b, "b");
                    assert!(matches!(*body, Expr::Var(ref n) if n == "body"));
                },
                _ => panic!("expected a nested lambda"),
            }
        },
        _ => panic!("expected a lambda"),
    }
    let params = vec![("x".to_string(), v("X"))];
    assert!(matches!(wrap_pis(params, v("Y")), Expr::Pi(ref n, _, _) if n == "x"));
    assert!(matches!(wrap_pis(vec![], v("Y")), Expr::Var(ref n) if n == "Y"));
}

#[test]
fn environment_listing_is_sorted_by_name() {
    let mut env = GlobalEnv::new();
    env.add_axiom("zeta".to_string(), Term::Sort(0));
    env.add_def("alpha".to_string(), g("Nat"), Term::Nat(1));
    env.add_axiom("beta".to_string(), pi("_", g("Nat"), g("Nat")));
    env.add_axiom("alpha".to_string(), g("Bool"));
    env.add_inductive(dyntp::env::InductiveDef {
        name: "T".to_string(),
        params: vec![],
        ty: Term::Sort(1),
        constructors: vec![dyntp::env::ConstructorDef { name: "t".to_string(), ty: g("T") }],
    });
    let listing = dyntp::listing::env_listing(&env);
    assert_eq!(
        listing,
        "── Definitions ──\n  axiom alpha : Bool\n  axiom beta : Nat -> Nat\n  ctor T.t : T\n  axiom zeta : Prop\n── Inductive Types ──\n  inductive T : Type\n    | t : T\n"
    );
}
