//! Surface syntax: commands, expressions, patterns and tactics, as the parser
//! produces them. Expressions are elaborated into core terms before checking.
use vstd::prelude::*;

verus! {

pub type Name = String;

/// Top-level commands of the language.
#[derive(Debug)]
pub enum Command {
    /// `def name : type := body`
    Def { name: Name, ty: Option<Expr>, body: Expr },
    /// `theorem name : type := body` or `theorem name : type by tactic`
    Theorem { name: Name, ty: Expr, body: ProofBody },
    /// `axiom name : type`
    Axiom { name: Name, ty: Expr },
    /// `inductive Name : type where | ctor1 : ty1 | ctor2 : ty2`
    Inductive { name: Name, params: Vec<(Name, Expr)>, ty: Expr, constructors: Vec<Constructor> },
    /// `#check expr`
    Check(Expr),
    /// `#eval expr`
    Eval(Expr),
    /// `#print name`
    Print(Name),
    /// `example : type := body`
    Example { ty: Expr, body: ProofBody },
}

#[derive(Debug)]
pub enum ProofBody {
    /// A proof term.
    Term(Expr),
    /// A tactic proof: `by { tactic1; tactic2; ... }`
    Tactic(Vec<Tactic>),
}

#[derive(Debug)]
pub struct Constructor {
    pub name: Name,
    pub ty: Expr,
}

/// Surface expressions.
#[derive(Debug)]
pub enum Expr {
    Var(Name),
    /// `Type n`
    Universe(u32),
    Prop,
    App(Box<Expr>, Box<Expr>),
    /// `fun (x : T) => body`
    Lam(Name, Box<Expr>, Box<Expr>),
    /// `(x : A) -> B` or `forall (x : A), B`
    Pi(Name, Box<Expr>, Box<Expr>),
    /// `A -> B`
    Arrow(Box<Expr>, Box<Expr>),
    /// `let x : T := e in body`
    Let(Name, Option<Box<Expr>>, Box<Expr>, Box<Expr>),
    Nat(u64),
    BoolLit(bool),
    If(Box<Expr>, Box<Expr>, Box<Expr>),
    /// `match e with | pat1 => e1 | pat2 => e2`
    Match(Box<Expr>, Vec<MatchArm>),
    /// `_`
    Hole,
    Paren(Box<Expr>),
    /// `(e : T)`
    Ann(Box<Expr>, Box<Expr>),
}

#[derive(Debug)]
pub struct MatchArm {
    pub pattern: Pattern,
    pub body: Expr,
}

#[derive(Debug)]
pub enum Pattern {
    /// `Ctor x y z`
    Constructor(Name, Vec<Name>),
    Wildcard,
    Var(Name),
    Nat(u64),
    Bool(bool),
}

/// Tactics of proof mode.
#[derive(Debug)]
pub enum Tactic {
    Intro(Vec<Name>),
    Apply(Expr),
    Exact(Expr),
    Refl,
    Rewrite(Expr),
    Cases(Expr),
    Induction(Expr),
    Simp,
    Assumption,
    ConstructorTac,
    Left,
    Right,
    Trivial,
    Sorry,
    /// `have h : T := e` or `have h : T by { ... }`
    Have(Name, Expr, Box<ProofBody>),
    Show(Expr),
    Ring,
}

}
