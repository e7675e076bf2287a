use dyntp::debug::{term_debug_text, value_debug_text};
use dyntp::term::{Closure, Elim, MatchArm, Neutral, NeutralHead, Term, Value};

fn b(t: Term) -> Box<Term> {
    Box::new(t)
}

fn sample_term() -> Term {
    Term::Match {
        scrutinee: b(Term::App(b(Term::Var(0)), b(Term::Nat(7)))),
        motive: Some(b(Term::Sort(1))),
        arms: vec![
            MatchArm { ctor: "zero".to_string(), arity: 0, body: Term::BoolLit(true) },
            MatchArm {
                ctor: "succ".to_string(),
                arity: 1,
                body: Term::Let(
                    "y".to_string(),
                    b(Term::Global("Nat".to_string())),
                    b(Term::Var(0)),
                    b(Term::If(b(Term::BoolLit(false)), b(Term::Meta(3)), b(Term::Recursor("Nat".to_string())))),
                ),
            },
        ],
    }
}

#[test]
fn term_debug_matches_derived_debug() {
    let terms = vec![
        sample_term(),
        Term::Pi("x".to_string(), b(Term::Sort(0)), b(Term::Var(0))),
        Term::Lam("_".to_string(), b(Term::Constructor("Nat".to_string(), "zero".to_string())), b(Term::Nat(0))),
        Term::Ann(b(Term::Nat(1)), b(Term::Global("Nat".to_string()))),
        Term::Match { scrutinee: b(Term::Var(2)), motive: None, arms: vec![] },
    ];
    for t in &terms {
        assert_eq!(term_debug_text(t), format!("{:?}", t));
    }
    assert_eq!(
        term_debug_text(&Term::Pi("x".to_string(), b(Term::Sort(0)), b(Term::Var(0)))),
        "Pi(\"x\", Sort(0), Var(0))"
    );
}

#[test]
fn value_debug_matches_derived_debug() {
    let clo = Closure::new(vec![Value::var(1), Value::Nat(4)], sample_term());
    let stuck = Value::Neutral(Neutral {
        head: NeutralHead::Meta(2),
        spine: vec![
            Elim::App(Value::BoolLit(true)),
            Elim::Match {
                motive: Some(Value::Sort(2)),
                arms: vec![
                    ("zero".to_string(), 0, Closure::new(vec![], Term::Nat(1))),
                    ("succ".to_string(), 1, Closure::new(vec![Value::global("Nat".to_string())], Term::Var(0))),
                ],
            },
            Elim::Match { motive: None, arms: vec![] },
            Elim::If(Value::Nat(0), Value::var(0)),
        ],
    });
    let values = vec![
        stuck,
        Value::Lam("x".to_string(), Box::new(Value::Sort(0)), clo),
        Value::Pi("_".to_string(), Box::new(Value::global("Bool".to_string())), Closure::new(vec![], Term::Var(1))),
        Value::Constructor("Nat".to_string(), "succ".to_string(), vec![Value::Nat(2), Value::BoolLit(false)]),
        Value::Constructor("Unit".to_string(), "intro".to_string(), vec![]),
    ];
    for v in &values {
        assert_eq!(value_debug_text(v), format!("{:?}", v));
    }
    assert_eq!(
        value_debug_text(&Value::global("Nat".to_string())),
        "Neutral(Neutral { head: Global(\"Nat\"), spine: [] })"
    );
}

#[test]
fn names_are_quoted_with_escapes() {
    let t = Term::Global("a\"b\\c\n".to_string());
    assert_eq!(term_debug_text(&t), "Global(\"a\\\"b\\\\c\\n\")");
    assert_eq!(term_debug_text(&t), format!("{:?}", t));
}
