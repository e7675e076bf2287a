use dyntp::ast::{Command, Constructor, Expr, ProofBody, Tactic};
use dyntp::driver::{process_command, process_command_noting};
use dyntp::env::{Definition, GlobalEnv};
use dyntp::eval::eval;
use dyntp::prelude::load_prelude;
use dyntp::repl::{repl_action, InputBuffer, ParseStatus, ReplAction};
use dyntp::tactics::{run_tactics, run_tactics_noting, Goal};
use dyntp::term::Term;

fn prelude() -> GlobalEnv {
    let mut env = GlobalEnv::new();
    load_prelude(&mut env);
    env
}

fn v(n: &str) -> Expr {
    Expr::Var(n.to_string())
}

fn arrow(a: Expr, b: Expr) -> Expr {
    Expr::Arrow(Box::new(a), Box::new(b))
}

fn pi(n: &str, a: Expr, b: Expr) -> Expr {
    Expr::Pi(n.to_string(), Box::new(a), Box::new(b))
}

fn lam(n: &str, a: Expr, b: Expr) -> Expr {
    Expr::Lam(n.to_string(), Box::new(a), Box::new(b))
}

fn app(f: Expr, x: Expr) -> Expr {
    Expr::App(Box::new(f), Box::new(x))
}

#[test]
fn def_with_type_is_recorded() {
    let mut env = prelude();
    let cmd = Command::Def { name: "three".to_string(), ty: Some(v("Nat")), body: Expr::Nat(3) };
    assert_eq!(process_command(&cmd, &mut env), Ok("'three' defined : Nat".to_string()));
    match env.lookup("three") {
        Some(Definition::Def { body, .. }) => assert_eq!(body.to_text(), "3"),
        _ => panic!("three should be defined"),
    }
}

#[test]
fn def_without_type_infers_it() {
    let mut env = prelude();
    let cmd = Command::Def { name: "myid".to_string(), ty: None, body: lam("x", v("Nat"), v("x")) };
    assert_eq!(process_command(&cmd, &mut env), Ok("'myid' defined : (x : Nat) -> Nat".to_string()));
}

#[test]
fn def_with_wrong_body_keeps_the_declared_axiom() {
    let mut env = prelude();
    let cmd = Command::Def { name: "bad".to_string(), ty: Some(v("Bool")), body: Expr::Nat(3) };
    assert_eq!(
        process_command(&cmd, &mut env),
        Err("Type error: Type mismatch: expected `Bool`, got `Nat`".to_string())
    );
    assert!(matches!(env.lookup("bad"), Some(Definition::Axiom { .. })));
}

#[test]
fn theorem_by_term_and_by_tactics() {
    let mut env = prelude();
    let stmt = pi("n", v("Nat"), arrow(v("Unit"), v("Unit")));
    let by_term = Command::Theorem {
        name: "t1".to_string(),
        ty: stmt,
        body: ProofBody::Term(lam("n", v("Nat"), lam("u", v("Unit"), v("u")))),
    };
    assert_eq!(process_command(&by_term, &mut env), Ok("theorem 't1' proved : (n : Nat) -> Unit -> Unit".to_string()));
    let stmt2 = arrow(v("Unit"), v("Unit"));
    let by_tactics = Command::Theorem {
        name: "t2".to_string(),
        ty: stmt2,
        body: ProofBody::Tactic(vec![Tactic::Intro(vec!["h".to_string()]), Tactic::Assumption]),
    };
    assert_eq!(process_command(&by_tactics, &mut env), Ok("theorem 't2' proved : Unit -> Unit".to_string()));
    match env.lookup("t2") {
        Some(Definition::Def { body, .. }) => assert_eq!(body.to_text(), "fun (h : Unit) => #0"),
        _ => panic!("t2 should be recorded"),
    }
}

#[test]
fn refused_theorem_leaves_environment() {
    let mut env = prelude();
    let before = env.defs.len();
    let cmd = Command::Theorem {
        name: "wrong".to_string(),
        ty: v("Unit"),
        body: ProofBody::Term(Expr::Nat(0)),
    };
    assert_eq!(
        process_command(&cmd, &mut env),
        Err("Type error: Type mismatch: expected `Unit`, got `Nat`".to_string())
    );
    assert_eq!(env.defs.len(), before);
    assert!(env.lookup("wrong").is_none());
}

#[test]
fn axiom_and_check_and_eval() {
    let mut env = prelude();
    let cmd = Command::Axiom { name: "p".to_string(), ty: Expr::Prop };
    assert_eq!(process_command(&cmd, &mut env), Ok("axiom 'p' : Prop".to_string()));
    let check = Command::Check(app(v("succ"), Expr::Nat(1)));
    assert_eq!(process_command(&check, &mut env), Ok("succ 1 : Nat".to_string()));
    let ev = Command::Eval(app(app(v("add"), Expr::Nat(2)), Expr::Nat(2)));
    assert_eq!(process_command(&ev, &mut env), Ok("4".to_string()));
    let bad_axiom = Command::Axiom { name: "q".to_string(), ty: v("Nowhere") };
    assert_eq!(process_command(&bad_axiom, &mut env), Err("Type error: Unknown global 'Nowhere'".to_string()));
}

#[test]
fn inductive_definition() {
    let mut env = prelude();
    let cmd = Command::Inductive {
        name: "Color".to_string(),
        params: vec![],
        ty: Expr::Universe(0),
        constructors: vec![
            Constructor { name: "red".to_string(), ty: v("Color") },
            Constructor { name: "green".to_string(), ty: v("Color") },
        ],
    };
    assert_eq!(
        process_command(&cmd, &mut env),
        Ok("inductive 'Color' defined\n  | red : Color\n  | green : Color".to_string())
    );
    assert!(matches!(env.lookup("Color"), Some(Definition::Axiom { .. })));
    assert!(matches!(env.lookup("green"), Some(Definition::Constructor { index: 1, .. })));
    let print = Command::Print("Color".to_string());
    assert_eq!(process_command(&print, &mut env), Ok("axiom Color : Type".to_string()));
}

#[test]
fn inductive_with_parameter() {
    let mut env = prelude();
    let cmd = Command::Inductive {
        name: "Box".to_string(),
        params: vec![("A".to_string(), Expr::Universe(0))],
        ty: Expr::Universe(0),
        constructors: vec![Constructor { name: "mk".to_string(), ty: arrow(v("A"), v("Box")) }],
    };
    assert_eq!(process_command(&cmd, &mut env), Ok("inductive 'Box' defined\n  | mk : #0 -> Box".to_string()));
    assert_eq!(env.lookup_inductive("Box").unwrap().params.len(), 1);
}

#[test]
fn print_commands() {
    let mut env = prelude();
    assert_eq!(
        process_command(&Command::Print("succ".to_string()), &mut env),
        Ok("constructor Nat.succ : (n : Nat) -> Nat".to_string())
    );
    assert_eq!(
        process_command(&Command::Print("id".to_string()), &mut env),
        Ok("def id : (A : Type) -> (a : A) -> A :=\n  fun (A : Type) => fun (a : A) => a".to_string())
    );
    assert_eq!(
        process_command(&Command::Print("nothing".to_string()), &mut env),
        Err("Unknown name 'nothing'".to_string())
    );
}

#[test]
fn example_is_not_recorded() {
    let mut env = prelude();
    let before = env.defs.len();
    let cmd = Command::Example { ty: v("Unit"), body: ProofBody::Term(v("Unit.intro")) };
    assert_eq!(process_command(&cmd, &mut env), Ok("example : Unit ✓".to_string()));
    assert_eq!(env.defs.len(), before);
}

fn goal_of(env: &GlobalEnv, ty: Term) -> Goal {
    let tv = eval(&ty, &vec![], env);
    Goal::new(tv, ty)
}

fn tpi(n: &str, a: Term, b: Term) -> Term {
    Term::Pi(n.to_string(), Box::new(a), Box::new(b))
}

fn tg(n: &str) -> Term {
    Term::Global(n.to_string())
}

#[test]
fn tactics_intro_and_exact() {
    let env = prelude();
    let goal = goal_of(&env, tpi("x", tg("Nat"), tg("Nat")));
    let tactics = vec![Tactic::Intro(vec!["x".to_string()]), Tactic::Exact(v("x"))];
    let proof = run_tactics(&tactics, goal, &env).unwrap();
    assert_eq!(proof.to_text(), "fun (x : Nat) => #0");
}

#[test]
fn tactics_errors() {
    let env = prelude();
    let goal = goal_of(&env, tg("Nat"));
    let e = run_tactics(&[Tactic::Intro(vec!["x".to_string()])], goal, &env).unwrap_err();
    assert_eq!(e, "Cannot intro 'x': target is not a function/forall type. Target: Nat");
    let goal = goal_of(&env, tpi("x", tg("Nat"), tg("Nat")));
    let e = run_tactics(&[Tactic::Intro(vec!["x".to_string()])], goal, &env).unwrap_err();
    assert_eq!(e, "Proof incomplete. 1 unsolved goal(s):\n\nGoal 1:\n  x : Nat\n  ⊢ Nat\n");
    let goal = goal_of(&env, tg("Nat"));
    let e = run_tactics(&[], goal, &env).unwrap_err();
    assert_eq!(e, "Proof incomplete. 1 unsolved goal(s):\n\nGoal 1:\n  ⊢ Nat\n");
    let goal = goal_of(&env, tg("Nat"));
    let e = run_tactics(&[Tactic::Assumption], goal, &env).unwrap_err();
    assert_eq!(e, "No hypothesis matches the goal: Nat");
}

#[test]
fn tactics_constructors_and_admissions() {
    let env = prelude();
    let goal = goal_of(&env, app_t(app_t(tg("Or"), tg("Unit")), tg("Empty")));
    assert_eq!(run_tactics(&[Tactic::Right], goal, &env).unwrap().to_text(), "Or.inr");
    let goal = goal_of(&env, tg("Unit"));
    assert_eq!(run_tactics(&[Tactic::ConstructorTac], goal, &env).unwrap().to_text(), "Unit.intro");
    let goal = goal_of(&env, tg("Unit"));
    assert_eq!(
        run_tactics(&[Tactic::Right], goal, &env).unwrap_err(),
        "right: target does not have a second constructor"
    );
    let goal = goal_of(&env, tg("Nat"));
    assert_eq!(run_tactics(&[Tactic::Sorry], goal, &env).unwrap().to_text(), "sorry");
    let goal = goal_of(&env, tg("Nat"));
    assert_eq!(run_tactics(&[Tactic::Trivial], goal, &env).unwrap().to_text(), "zero");
    let goal = goal_of(&env, tg("Nat"));
    assert_eq!(
        run_tactics(&[Tactic::Sorry, Tactic::Refl], goal, &env).unwrap().to_text(),
        "sorry"
    );
}

fn app_t(f: Term, x: Term) -> Term {
    Term::App(Box::new(f), Box::new(x))
}

#[test]
fn tactics_have_and_show() {
    let env = prelude();
    let goal = goal_of(&env, tg("Unit"));
    let tactics = vec![
        Tactic::Have("h".to_string(), v("Unit"), Box::new(ProofBody::Term(v("Unit.intro")))),
        Tactic::Show(v("Unit")),
        Tactic::Assumption,
    ];
    let proof = run_tactics(&tactics, goal, &env).unwrap();
    assert_eq!(proof.to_text(), "fun (h : Unit) => #0");
}

#[test]
fn goal_display() {
    let env = prelude();
    let goal = goal_of(&env, tpi("_", tg("Nat"), tg("Nat")));
    assert_eq!(goal.display(&env), "  ⊢ Nat → Nat");
}

#[test]
fn refl_proves_only_equations() {
    let env = prelude();
    let eq = app_t(app_t(app_t(tg("Eq"), tg("Nat")), app_t(app_t(tg("add"), Term::Nat(1)), Term::Nat(1))), Term::Nat(2));
    let goal = goal_of(&env, eq);
    assert_eq!(run_tactics(&[Tactic::Refl], goal, &env).unwrap().to_text(), "Eq.refl");
    let wrong = app_t(app_t(app_t(tg("Eq"), tg("Nat")), Term::Nat(1)), Term::Nat(2));
    let goal = goal_of(&env, wrong);
    assert_eq!(
        run_tactics(&[Tactic::Refl], goal, &env).unwrap_err(),
        "refl: the goal is not an equation between convertible terms"
    );
    let goal = goal_of(&env, tg("Nat"));
    assert_eq!(
        run_tactics(&[Tactic::Refl], goal, &env).unwrap_err(),
        "refl: the goal is not an equation between convertible terms"
    );
    let goal = goal_of(&env, tg("Empty"));
    assert_eq!(run_tactics(&[Tactic::Simp], goal, &env).unwrap_err(), "simp: could not simplify the goal");
    let goal = goal_of(&env, tg("Empty"));
    assert_eq!(run_tactics(&[Tactic::Trivial], goal, &env).unwrap_err(), "trivial: could not solve the goal");
}

#[test]
fn wildcard_arms_match_anything() {
    let mut env = prelude();
    let wild = |scrut: Expr| Expr::Match(
        Box::new(scrut),
        vec![dyntp::ast::MatchArm { pattern: dyntp::ast::Pattern::Wildcard, body: Expr::Nat(1) }],
    );
    assert_eq!(process_command(&Command::Eval(wild(Expr::Nat(5))), &mut env), Ok("1".to_string()));
    assert_eq!(process_command(&Command::Eval(wild(Expr::Nat(0))), &mut env), Ok("1".to_string()));
    assert_eq!(process_command(&Command::Eval(wild(Expr::BoolLit(true))), &mut env), Ok("1".to_string()));
    assert_eq!(process_command(&Command::Eval(wild(v("Unit.intro"))), &mut env), Ok("1".to_string()));
    let first_wins = Expr::Match(
        Box::new(Expr::Nat(0)),
        vec![
            dyntp::ast::MatchArm { pattern: dyntp::ast::Pattern::Nat(0), body: Expr::Nat(7) },
            dyntp::ast::MatchArm { pattern: dyntp::ast::Pattern::Wildcard, body: Expr::Nat(1) },
        ],
    );
    assert_eq!(process_command(&Command::Eval(first_wins), &mut env), Ok("7".to_string()));
}

#[test]
fn session_commands() {
    assert!(matches!(repl_action(true, "  :quit \n"), ReplAction::Quit));
    assert!(matches!(repl_action(true, ":q"), ReplAction::Quit));
    assert!(matches!(repl_action(true, ":exit"), ReplAction::Quit));
    assert!(matches!(repl_action(true, ":h"), ReplAction::Help));
    assert!(matches!(repl_action(true, ":env"), ReplAction::ShowEnv));
    assert!(matches!(repl_action(false, ":quit"), ReplAction::Input));
    assert!(matches!(repl_action(true, "def x : Nat := 1"), ReplAction::Input));
}

#[test]
fn tactics_report_admissions_and_traces() {
    let env = prelude();
    let mut notes = Vec::new();
    let goal = goal_of(&env, tg("Nat"));
    assert_eq!(run_tactics_noting(&[Tactic::Sorry, Tactic::Sorry], goal, &env, &mut notes).unwrap().to_text(), "sorry");
    assert_eq!(notes, vec!["  \u{26a0} Warning: sorry used, proof is incomplete".to_string()]);

    let mut notes = Vec::new();
    let goal = goal_of(&env, tg("Nat"));
    assert!(run_tactics_noting(&[Tactic::Ring], goal, &env, &mut notes).is_ok());
    let goal = goal_of(&env, tg("Nat"));
    assert!(run_tactics_noting(&[Tactic::Rewrite(v("Nat"))], goal, &env, &mut notes).is_ok());
    let goal = goal_of(&env, tg("Nat"));
    assert!(run_tactics_noting(&[Tactic::Induction(v("Nat"))], goal, &env, &mut notes).is_ok());
    assert_eq!(
        notes,
        vec![
            "  \u{26a0} ring tactic: simplified implementation".to_string(),
            "  \u{26a0} rewrite tactic: simplified implementation".to_string(),
            "  \u{26a0} induction tactic: simplified implementation".to_string(),
        ]
    );

    let mut notes = Vec::new();
    let goal = goal_of(&env, tg("Nat"));
    let bad = Expr::Match(
        Box::new(Expr::Nat(3)),
        vec![dyntp::ast::MatchArm { pattern: dyntp::ast::Pattern::Nat(2), body: Expr::Nat(1) }],
    );
    assert_eq!(
        run_tactics_noting(&[Tactic::Induction(bad)], goal, &env, &mut notes).unwrap_err(),
        "In induction: Only 0 literal patterns supported in match; use Nat.succ n instead"
    );
    assert!(notes.is_empty());

    let mut notes = Vec::new();
    let goal = goal_of(&env, tg("Unit"));
    assert_eq!(run_tactics_noting(&[Tactic::Simp], goal, &env, &mut notes).unwrap().to_text(), "Unit.intro");
    assert_eq!(notes, vec!["  simp: normalized target to Unit".to_string()]);
}

#[test]
fn commands_report_tactic_notes() {
    let mut env = prelude();
    let mut notes = Vec::new();
    let cmd = Command::Theorem { name: "admitted".to_string(), ty: v("Nat"), body: ProofBody::Tactic(vec![Tactic::Sorry]) };
    assert_eq!(
        process_command_noting(&cmd, &mut env, &mut notes),
        Ok("theorem 'admitted' proved : Nat".to_string())
    );
    assert_eq!(notes, vec!["  \u{26a0} Warning: sorry used, proof is incomplete".to_string()]);

    let mut notes = Vec::new();
    let cmd = Command::Example { ty: v("Unit"), body: ProofBody::Term(v("Unit.intro")) };
    assert!(process_command_noting(&cmd, &mut env, &mut notes).is_ok());
    assert!(notes.is_empty());
}

#[test]
fn session_lines_are_trimmed_of_unicode_white_space() {
    assert!(matches!(repl_action(true, "\u{3000}:q\u{85}\t"), ReplAction::Quit));
    assert!(matches!(repl_action(true, "\u{a0}:env\u{2029}"), ReplAction::ShowEnv));
    assert!(matches!(repl_action(true, "\u{200b}:q"), ReplAction::Input));
    assert!(matches!(repl_action(true, ":q x"), ReplAction::Input));
}

#[test]
fn input_buffer_keeps_only_unfinished_entries() {
    let mut b = InputBuffer::new();
    assert!(b.is_empty());
    b.add_line("def x : Nat :=", true);
    b.add_line("  1", false);
    assert_eq!(b.text, "def x : Nat :=\n  1");
    assert!(!b.is_empty());
    b.settle(ParseStatus::Incomplete);
    assert_eq!(b.text, "def x : Nat :=\n  1");
    b.settle(ParseStatus::Complete);
    assert!(b.is_empty());
    b.add_line("oops", true);
    b.settle(ParseStatus::Failed);
    assert_eq!(b.text, "");
}
