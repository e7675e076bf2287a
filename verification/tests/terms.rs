use dyntp::term::{Term, MatchArm, Value, Closure};
use dyntp::pretty::{pretty_term, pretty_value};
use dyntp::env::GlobalEnv;

fn g(n: &str) -> Term {
    Term::Global(n.to_string())
}

fn pi(n: &str, a: Term, b: Term) -> Term {
    Term::Pi(n.to_string(), Box::new(a), Box::new(b))
}

fn lam(n: &str, a: Term, b: Term) -> Term {
    Term::Lam(n.to_string(), Box::new(a), Box::new(b))
}

fn app(f: Term, x: Term) -> Term {
    Term::App(Box::new(f), Box::new(x))
}

#[test]
fn shift_moves_free_variables_only() {
    let t = lam("x", g("Nat"), app(Term::Var(0), Term::Var(1)));
    let s = t.shift(0, 2);
    assert_eq!(s.to_text(), "fun (x : Nat) => #0 #3");
}

#[test]
fn shift_down_by_one() {
    let t = app(Term::Var(3), Term::Var(0));
    assert_eq!(t.shift(1, -1).to_text(), "#2 #0");
}

#[test]
fn subst_replaces_and_lowers() {
    let t = app(app(Term::Var(0), Term::Var(1)), Term::Var(2));
    let r = t.subst(1, &Term::Nat(7));
    assert_eq!(r.to_text(), "#0 7 #1");
}

#[test]
fn subst_under_binder_shifts_replacement() {
    let t = lam("y", g("Nat"), Term::Var(1));
    let r = t.subst(0, &Term::Var(5));
    assert_eq!(r.to_text(), "fun (y : Nat) => #6");
}

#[test]
fn subst_after_shift_gives_back_the_term() {
    let t = lam("x", g("Nat"), app(Term::Var(0), Term::Var(1)));
    let back = t.shift(0, 1).subst(0, &Term::Nat(9));
    assert_eq!(back.to_text(), t.to_text());
}

#[test]
fn display_of_universes_and_literals() {
    assert_eq!(Term::Sort(0).to_text(), "Prop");
    assert_eq!(Term::Sort(1).to_text(), "Type 0");
    assert_eq!(Term::Sort(3).to_text(), "Type 2");
    assert_eq!(Term::Nat(42).to_text(), "42");
    assert_eq!(Term::BoolLit(true).to_text(), "true");
    assert_eq!(Term::Meta(4).to_text(), "?4");
    assert_eq!(Term::Recursor("Nat".to_string()).to_text(), "Nat.rec");
    assert_eq!(Term::Constructor("Nat".to_string(), "zero".to_string()).to_text(), "zero");
}

#[test]
fn display_of_binders() {
    assert_eq!(pi("_", g("Nat"), g("Bool")).to_text(), "Nat → Bool");
    assert_eq!(pi("A", Term::Sort(1), Term::Var(0)).to_text(), "∀ (A : Type 0), #0");
    assert_eq!(lam("x", g("Nat"), Term::Var(0)).to_text(), "fun (x : Nat) => #0");
    let l = Term::Let(
        "x".to_string(),
        Box::new(g("Nat")),
        Box::new(Term::Nat(1)),
        Box::new(Term::Var(0)),
    );
    assert_eq!(l.to_text(), "let x : Nat := 1 in #0");
}

#[test]
fn display_parenthesizes_applications() {
    let t = app(lam("x", g("Nat"), Term::Var(0)), app(g("f"), Term::Nat(1)));
    assert_eq!(t.to_text(), "(fun (x : Nat) => #0) (f 1)");
}

#[test]
fn display_of_match_if_and_annotation() {
    let m = Term::Match {
        scrutinee: Box::new(Term::Var(0)),
        motive: None,
        arms: vec![
            MatchArm { ctor: "zero".to_string(), arity: 0, body: Term::Nat(0) },
            MatchArm { ctor: "succ".to_string(), arity: 1, body: Term::Var(0) },
        ],
    };
    assert_eq!(m.to_text(), "match #0 with | zero => 0 | succ => #0");
    let i = Term::If(Box::new(Term::BoolLit(true)), Box::new(Term::Nat(1)), Box::new(Term::Nat(2)));
    assert_eq!(i.to_text(), "if true then 1 else 2");
    let a = Term::Ann(Box::new(Term::Nat(1)), Box::new(g("Nat")));
    assert_eq!(a.to_text(), "(1 : Nat)");
}

#[test]
fn display_of_values() {
    assert_eq!(Value::Sort(0).to_text(), "Prop");
    assert_eq!(Value::Sort(2).to_text(), "Type 1");
    assert_eq!(Value::Nat(3).to_text(), "3");
    assert_eq!(Value::var(2).to_text(), "v2");
    assert_eq!(Value::meta(7).to_text(), "?7");
    let c = Value::Constructor("Nat".to_string(), "succ".to_string(), vec![Value::Nat(1), Value::global("x".to_string())]);
    assert_eq!(c.to_text(), "(succ 1 x)");
    let z = Value::Constructor("Nat".to_string(), "zero".to_string(), vec![]);
    assert_eq!(z.to_text(), "zero");
    let p = Value::Pi("_".to_string(), Box::new(Value::global("Nat".to_string())), Closure::new(vec![], g("Nat")));
    assert_eq!(p.to_text(), "Nat → ...");
    let q = Value::Pi("n".to_string(), Box::new(Value::global("Nat".to_string())), Closure::new(vec![], g("Nat")));
    assert_eq!(q.to_text(), "∀ (n : Nat), ...");
}

#[test]
fn pretty_uses_binder_names() {
    assert_eq!(pretty_term(&lam("x", g("Nat"), Term::Var(0))), "fun (x : Nat) => x");
    assert_eq!(pretty_term(&pi("_", g("Nat"), g("Nat"))), "Nat -> Nat");
    assert_eq!(pretty_term(&pi("A", Term::Sort(1), pi("a", Term::Var(0), Term::Var(1)))), "(A : Type) -> (a : A) -> A");
    assert_eq!(pretty_term(&Term::Sort(0)), "Prop");
    assert_eq!(pretty_term(&Term::Sort(1)), "Type");
    assert_eq!(pretty_term(&Term::Sort(2)), "Type 1");
    assert_eq!(pretty_term(&Term::Var(3)), "#3");
}

#[test]
fn pretty_parenthesizes_by_position() {
    let arrow_of_arrow = pi("_", pi("_", g("A"), g("B")), g("C"));
    assert_eq!(pretty_term(&arrow_of_arrow), "(A -> B) -> C");
    let t = app(app(g("f"), app(g("g"), Term::Nat(1))), lam("x", g("Nat"), Term::Var(0)));
    assert_eq!(pretty_term(&t), "f (g 1) (fun (x : Nat) => x)");
}

#[test]
fn pretty_match_names_arguments() {
    let m = Term::Match {
        scrutinee: Box::new(g("n")),
        motive: None,
        arms: vec![
            MatchArm { ctor: "zero".to_string(), arity: 0, body: Term::Nat(0) },
            MatchArm { ctor: "pair".to_string(), arity: 2, body: app(Term::Var(1), Term::Var(0)) },
        ],
    };
    assert_eq!(pretty_term(&m), "match n with | zero => 0 | pair x0 x1 => x0 x1 end");
}

#[test]
fn pretty_value_reads_back() {
    let globals = GlobalEnv::new();
    assert_eq!(pretty_value(&Value::Nat(5), 0, &globals), "5");
    assert_eq!(pretty_value(&Value::var(0), 1, &globals), "#0");
}
