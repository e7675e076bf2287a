//! Normalization by evaluation for the core calculus: terms evaluate to values,
//! values are read back to terms, and values are compared for definitional equality.
//!
//! Evaluation need not terminate (a global may unfold to itself), so every step of
//! the recursion spends one unit of a depth budget; the public entry points start
//! with the largest budget.
use vstd::prelude::*;
use crate::term::{
    DbLevel, Name, Term, STerm, SArm, MatchArm, Value, Neutral, NeutralHead, Elim, Closure, Env, SValue,
    SNeutral, SHead, SElim, SClosure, neutral_value, values_view, value_view, clo_arms_view, clo_arm_view,
    arms_view, arm_view, elims_view, clone_values, lemma_values_view, lemma_values_view_push,
    lemma_elims_view, lemma_elims_view_push, elim_view, lemma_clo_arms_view, lemma_arms_view,
};
use crate::env::{GlobalEnv, SGlobals, SDefinition, Definition};
use crate::text::str_eq;

verus! {

/// The depth budget that the public entry points start from.
pub const EVAL_FUEL: u64 = 0xffff_ffff_ffff_ffffu64;

/// The name of a wildcard arm, which matches every constructor, number and boolean.
pub open spec fn wildcard_name() -> Seq<char> {
    "_"@
}

/// The first arm, from index `i` on, whose constructor name is `a` or `b`, or
/// that is a wildcard.
pub open spec fn first_arm(arms: Seq<(Seq<char>, usize, SClosure)>, a: Seq<char>, b: Seq<char>, i: int) -> Option<int>
    decreases arms.len() - i,
{
    if i < 0 || i >= arms.len() {
        None
    } else if arms[i].0 == a || arms[i].0 == b || arms[i].0 == wildcard_name() {
        Some(i)
    } else {
        first_arm(arms, a, b, i + 1)
    }
}

/// Closures for the arms of a match, all capturing `env`.
pub open spec fn arm_closures(arms: Seq<SArm>, env: Seq<SValue>) -> Seq<(Seq<char>, usize, SClosure)> {
    Seq::new(arms.len(), |i: int| (arms[i].ctor, arms[i].arity, SClosure { env: env, body: arms[i].body }))
}

/// The environment for an arm body under quotation: fresh variables for the arm's bindings.
pub open spec fn arm_env(env: Seq<SValue>, lvl: usize, arity: usize) -> Seq<SValue> {
    env + Seq::new(arity as nat, |i: int| neutral_value(SHead::Var(lvl.wrapping_add(i as usize))))
}

pub open spec fn push_elim(n: SNeutral, e: SElim) -> SValue {
    SValue::Neutral(SNeutral { head: n.head, spine: n.spine.push(e) })
}

/// The head that stands for an application of something that is not a function.
pub open spec fn app_error_value(f: SValue, arg: SValue) -> SValue {
    SValue::Neutral(SNeutral { head: SHead::Global("error:app-non-function"@), spine: seq![SElim::App(f), SElim::App(arg)] })
}

/// If-then-else elimination.
pub open spec fn if_value(c: SValue, t: SValue, e: SValue) -> SValue {
    match c {
        SValue::BoolLit(b) => if b { t } else { e },
        SValue::Neutral(n) => push_elim(n, SElim::If(t, e)),
        _ => t,
    }
}

pub open spec fn is_succ_name(c: Seq<char>) -> bool {
    c == "succ"@ || c == "Nat.succ"@
}

/// Evaluate `t` in `env`, within `fuel` nested steps.
#[verifier::opaque]
pub open spec fn eval_f(t: STerm, env: Seq<SValue>, g: SGlobals, fuel: nat) -> Option<SValue>
    decreases fuel, 0nat,
{
    if fuel == 0 {
        None
    } else {
        let f = (fuel - 1) as nat;
        match t {
            STerm::Var(i) => if i < env.len() { Some(env[env.len() - 1 - i]) } else { Some(neutral_value(SHead::Var(0))) },
            STerm::Global(name) => if g.defs.contains_key(name) {
                match g.defs[name] {
                    SDefinition::Def { body, .. } => eval_f(body, Seq::empty(), g, f),
                    SDefinition::Constructor { inductive, .. } => Some(SValue::Constructor(inductive, name, Seq::empty())),
                    _ => Some(neutral_value(SHead::Global(name))),
                }
            } else {
                Some(neutral_value(SHead::Global(name)))
            },
            STerm::Sort(u) => Some(SValue::Sort(u)),
            STerm::Pi(n, a, b) => match eval_f(*a, env, g, f) {
                Some(av) => Some(SValue::Pi(n, Box::new(av), SClosure { env, body: *b })),
                None => None,
            },
            STerm::Lam(n, a, b) => match eval_f(*a, env, g, f) {
                Some(av) => Some(SValue::Lam(n, Box::new(av), SClosure { env, body: *b })),
                None => None,
            },
            STerm::App(fx, x) => match eval_f(*fx, env, g, f) {
                Some(fv) => match eval_f(*x, env, g, f) {
                    Some(xv) => app_f(fv, xv, g, f),
                    None => None,
                },
                None => None,
            },
            STerm::Let(_, _, v, b) => match eval_f(*v, env, g, f) {
                Some(vv) => eval_f(*b, env.push(vv), g, f),
                None => None,
            },
            STerm::Nat(n) => Some(SValue::Nat(n)),
            STerm::BoolLit(b) => Some(SValue::BoolLit(b)),
            STerm::Constructor(ind, ctor) => Some(SValue::Constructor(ind, ctor, Seq::empty())),
            STerm::Recursor(ind) => Some(neutral_value(SHead::Global(ind + ".rec"@))),
            STerm::Match { scrutinee, motive, arms } => match eval_f(*scrutinee, env, g, f) {
                Some(sv) => match motive {
                    Some(m) => match eval_f(*m, env, g, f) {
                        Some(mv) => match_f(sv, Some(mv), arm_closures(arms, env), g, f),
                        None => None,
                    },
                    None => match_f(sv, None, arm_closures(arms, env), g, f),
                },
                None => None,
            },
            STerm::If(c, x, y) => match eval_f(*c, env, g, f) {
                Some(cv) => match eval_f(*x, env, g, f) {
                    Some(xv) => match eval_f(*y, env, g, f) {
                        Some(yv) => Some(if_value(cv, xv, yv)),
                        None => None,
                    },
                    None => None,
                },
                None => None,
            },
            STerm::Meta(id) => Some(neutral_value(SHead::Meta(id))),
            STerm::Ann(e, _) => eval_f(*e, env, g, f),
        }
    }
}

/// Apply a function value to an argument.
#[verifier::opaque]
pub open spec fn app_f(fv: SValue, arg: SValue, g: SGlobals, fuel: nat) -> Option<SValue>
    decreases fuel, 0nat,
{
    if fuel == 0 {
        None
    } else {
        let f = (fuel - 1) as nat;
        match fv {
            SValue::Lam(_, _, c) => closure_f(c, arg, g, f),
            SValue::Neutral(n) => Some(push_elim(n, SElim::App(arg))),
            SValue::Constructor(ind, ctor, args) => {
                let args2 = args.push(arg);
                if is_succ_name(ctor) && args2.len() == 1 && args2[0] is Nat {
                    Some(SValue::Nat(args2[0]->Nat_0.wrapping_add(1)))
                } else {
                    Some(SValue::Constructor(ind, ctor, args2))
                }
            },
            _ => Some(app_error_value(fv, arg)),
        }
    }
}

/// Evaluate the body of a closure with one more value in its environment.
#[verifier::opaque]
pub open spec fn closure_f(c: SClosure, arg: SValue, g: SGlobals, fuel: nat) -> Option<SValue>
    decreases fuel, 0nat,
{
    if fuel == 0 {
        None
    } else {
        eval_f(c.body, c.env.push(arg), g, (fuel - 1) as nat)
    }
}

/// Match elimination.
#[verifier::opaque]
pub open spec fn match_f(sv: SValue, motive: Option<SValue>, arms: Seq<(Seq<char>, usize, SClosure)>, g: SGlobals, fuel: nat) -> Option<SValue>
    decreases fuel, 0nat,
{
    if fuel == 0 {
        None
    } else {
        let f = (fuel - 1) as nat;
        match sv {
            SValue::Constructor(_, ctor, args) => match first_arm(arms, ctor, ctor, 0) {
                Some(i) => if arms[i].0 == wildcard_name() {
                    eval_f(arms[i].2.body, arms[i].2.env, g, f)
                } else {
                    eval_f(arms[i].2.body, arms[i].2.env + args, g, f)
                },
                None => Some(sv),
            },
            SValue::Nat(n) => if n == 0 {
                match first_arm(arms, "zero"@, "Nat.zero"@, 0) {
                    Some(i) => eval_f(arms[i].2.body, arms[i].2.env, g, f),
                    None => Some(sv),
                }
            } else {
                match first_arm(arms, "succ"@, "Nat.succ"@, 0) {
                    Some(i) => if arms[i].0 == wildcard_name() {
                        eval_f(arms[i].2.body, arms[i].2.env, g, f)
                    } else {
                        eval_f(arms[i].2.body, arms[i].2.env.push(SValue::Nat((n - 1) as u64)), g, f)
                    },
                    None => Some(sv),
                }
            },
            SValue::BoolLit(b) => {
                let found = if b { first_arm(arms, "true"@, "Bool.true"@, 0) } else { first_arm(arms, "false"@, "Bool.false"@, 0) };
                match found {
                    Some(i) => eval_f(arms[i].2.body, arms[i].2.env, g, f),
                    None => Some(sv),
                }
            },
            SValue::Neutral(n) => Some(push_elim(n, SElim::Match { motive, arms })),
            _ => Some(sv),
        }
    }
}

/// Read a value back to a term at level `lvl`.
#[verifier::opaque]
pub open spec fn quote_f(v: SValue, lvl: usize, g: SGlobals, fuel: nat) -> Option<STerm>
    decreases fuel, 0nat,
{
    if fuel == 0 {
        None
    } else {
        let f = (fuel - 1) as nat;
        match v {
            SValue::Sort(u) => Some(STerm::Sort(u)),
            SValue::Lam(n, ty, c) => match quote_f(*ty, lvl, g, f) {
                Some(tt) => match closure_f(c, neutral_value(SHead::Var(lvl)), g, f) {
                    Some(bv) => match quote_f(bv, lvl.wrapping_add(1), g, f) {
                        Some(bt) => Some(STerm::Lam(n, Box::new(tt), Box::new(bt))),
                        None => None,
                    },
                    None => None,
                },
                None => None,
            },
            SValue::Pi(n, a, c) => match quote_f(*a, lvl, g, f) {
                Some(at) => match closure_f(c, neutral_value(SHead::Var(lvl)), g, f) {
                    Some(bv) => match quote_f(bv, lvl.wrapping_add(1), g, f) {
                        Some(bt) => Some(STerm::Pi(n, Box::new(at), Box::new(bt))),
                        None => None,
                    },
                    None => None,
                },
                None => None,
            },
            SValue::Nat(n) => Some(STerm::Nat(n)),
            SValue::BoolLit(b) => Some(STerm::BoolLit(b)),
            SValue::Constructor(ind, ctor, args) => quote_args_f(STerm::Constructor(ind, ctor), args, lvl, g, f),
            SValue::Neutral(n) => quote_neutral_f(n, lvl, g, f),
        }
    }
}

/// Apply `acc` to the read-back of each argument in turn.
#[verifier::opaque]
pub open spec fn quote_args_f(acc: STerm, args: Seq<SValue>, lvl: usize, g: SGlobals, fuel: nat) -> Option<STerm>
    decreases fuel, args.len() + 1,
{
    if args.len() == 0 {
        Some(acc)
    } else {
        match quote_args_f(acc, args.drop_last(), lvl, g, fuel) {
            Some(a) => match quote_f(args.last(), lvl, g, fuel) {
                Some(x) => Some(STerm::App(Box::new(a), Box::new(x))),
                None => None,
            },
            None => None,
        }
    }
}

/// The term for a neutral head at level `lvl`.
pub open spec fn head_term(h: SHead, lvl: usize) -> STerm {
    match h {
        SHead::Var(l) => STerm::Var(lvl.wrapping_sub(1).wrapping_sub(l)),
        SHead::Global(n) => STerm::Global(n),
        SHead::Meta(m) => STerm::Meta(m),
    }
}

#[verifier::opaque]
pub open spec fn quote_neutral_f(n: SNeutral, lvl: usize, g: SGlobals, fuel: nat) -> Option<STerm>
    decreases fuel, 0nat,
{
    if fuel == 0 {
        None
    } else {
        quote_spine_f(head_term(n.head, lvl), n.spine, lvl, g, (fuel - 1) as nat)
    }
}

/// Fold the eliminators of a spine onto `acc`, left to right.
#[verifier::opaque]
pub open spec fn quote_spine_f(acc: STerm, spine: Seq<SElim>, lvl: usize, g: SGlobals, fuel: nat) -> Option<STerm>
    decreases fuel, spine.len() + 1,
{
    if spine.len() == 0 {
        Some(acc)
    } else {
        match quote_spine_f(acc, spine.drop_last(), lvl, g, fuel) {
            Some(a) => quote_elim_f(a, spine.last(), lvl, g, fuel),
            None => None,
        }
    }
}

#[verifier::opaque]
pub open spec fn quote_elim_f(acc: STerm, e: SElim, lvl: usize, g: SGlobals, fuel: nat) -> Option<STerm>
    decreases fuel, 0nat,
{
    if fuel == 0 {
        None
    } else {
        let f = (fuel - 1) as nat;
        match e {
            SElim::App(v) => match quote_f(v, lvl, g, f) {
                Some(x) => Some(STerm::App(Box::new(acc), Box::new(x))),
                None => None,
            },
            SElim::Match { arms, .. } => match quote_arms_f(arms, lvl, g, f) {
                Some(ts) => Some(STerm::Match { scrutinee: Box::new(acc), motive: None, arms: ts }),
                None => None,
            },
            SElim::If(t, x) => match quote_f(t, lvl, g, f) {
                Some(tt) => match quote_f(x, lvl, g, f) {
                    Some(xt) => Some(STerm::If(Box::new(acc), Box::new(tt), Box::new(xt))),
                    None => None,
                },
                None => None,
            },
        }
    }
}

#[verifier::opaque]
pub open spec fn quote_arms_f(arms: Seq<(Seq<char>, usize, SClosure)>, lvl: usize, g: SGlobals, fuel: nat) -> Option<Seq<SArm>>
    decreases fuel, arms.len() + 1,
{
    if arms.len() == 0 {
        Some(Seq::empty())
    } else {
        match quote_arms_f(arms.drop_last(), lvl, g, fuel) {
            Some(ts) => match quote_arm_f(arms.last(), lvl, g, fuel) {
                Some(t) => Some(ts.push(t)),
                None => None,
            },
            None => None,
        }
    }
}

/// Read back one match arm: evaluate its body on fresh variables and quote the result.
#[verifier::opaque]
pub open spec fn quote_arm_f(arm: (Seq<char>, usize, SClosure), lvl: usize, g: SGlobals, fuel: nat) -> Option<SArm>
    decreases fuel, 0nat,
{
    if fuel == 0 {
        None
    } else {
        let f = (fuel - 1) as nat;
        match eval_f(arm.2.body, arm_env(arm.2.env, lvl, arm.1), g, f) {
            Some(bv) => match quote_f(bv, lvl.wrapping_add(arm.1), g, f) {
                Some(bt) => Some(SArm { ctor: arm.0, arity: arm.1, body: bt }),
                None => None,
            },
            None => None,
        }
    }
}

/// Definitional equality of two values at level `lvl`.
#[verifier::opaque]
pub open spec fn conv_f(v1: SValue, v2: SValue, lvl: usize, g: SGlobals, fuel: nat) -> bool
    decreases fuel, 0nat,
{
    if fuel == 0 {
        false
    } else {
        let f = (fuel - 1) as nat;
        let x = neutral_value(SHead::Var(lvl));
        let next = lvl.wrapping_add(1);
        match (v1, v2) {
            (SValue::Sort(u1), SValue::Sort(u2)) => u1 == u2,
            (SValue::Nat(n1), SValue::Nat(n2)) => n1 == n2,
            (SValue::BoolLit(b1), SValue::BoolLit(b2)) => b1 == b2,
            (SValue::Pi(_, a1, b1), SValue::Pi(_, a2, b2)) => conv_f(*a1, *a2, lvl, g, f) && match (closure_f(b1, x, g, f), closure_f(b2, x, g, f)) {
                (Some(r1), Some(r2)) => conv_f(r1, r2, next, g, f),
                _ => false,
            },
            (SValue::Lam(_, _, b1), SValue::Lam(_, _, b2)) => match (closure_f(b1, x, g, f), closure_f(b2, x, g, f)) {
                (Some(r1), Some(r2)) => conv_f(r1, r2, next, g, f),
                _ => false,
            },
            (SValue::Lam(_, _, c), other) => match (closure_f(c, x, g, f), app_f(other, x, g, f)) {
                (Some(r1), Some(r2)) => conv_f(r1, r2, next, g, f),
                _ => false,
            },
            (other, SValue::Lam(_, _, c)) => match (closure_f(c, x, g, f), app_f(other, x, g, f)) {
                (Some(r1), Some(r2)) => conv_f(r1, r2, next, g, f),
                _ => false,
            },
            (SValue::Constructor(i1, c1, a1), SValue::Constructor(i2, c2, a2)) =>
                i1 == i2 && c1 == c2 && a1.len() == a2.len() && conv_args_f(a1, a2, lvl, g, f),
            (SValue::Neutral(n1), SValue::Neutral(n2)) => conv_neutral_f(n1, n2, lvl, g, f),
            _ => false,
        }
    }
}

/// Pairwise definitional equality of the first `a1.len()` arguments.
#[verifier::opaque]
pub open spec fn conv_args_f(a1: Seq<SValue>, a2: Seq<SValue>, lvl: usize, g: SGlobals, fuel: nat) -> bool
    decreases fuel, a1.len() + 1,
{
    if a1.len() == 0 {
        true
    } else {
        conv_args_f(a1.drop_last(), a2, lvl, g, fuel) && conv_f(a1.last(), a2[a1.len() - 1], lvl, g, fuel)
    }
}

pub open spec fn heads_equal(h1: SHead, h2: SHead) -> bool {
    match (h1, h2) {
        (SHead::Var(l1), SHead::Var(l2)) => l1 == l2,
        (SHead::Global(n1), SHead::Global(n2)) => n1 == n2,
        (SHead::Meta(m1), SHead::Meta(m2)) => m1 == m2,
        _ => false,
    }
}

#[verifier::opaque]
pub open spec fn conv_neutral_f(n1: SNeutral, n2: SNeutral, lvl: usize, g: SGlobals, fuel: nat) -> bool
    decreases fuel, 0nat,
{
    if fuel == 0 {
        false
    } else {
        heads_equal(n1.head, n2.head) && n1.spine.len() == n2.spine.len()
            && conv_spine_f(n1.spine, n2.spine, lvl, g, (fuel - 1) as nat)
    }
}

/// Pairwise comparison of eliminators; only applications are ever considered equal.
#[verifier::opaque]
pub open spec fn conv_spine_f(s1: Seq<SElim>, s2: Seq<SElim>, lvl: usize, g: SGlobals, fuel: nat) -> bool
    decreases fuel, s1.len() + 1,
{
    if s1.len() == 0 {
        true
    } else {
        conv_spine_f(s1.drop_last(), s2, lvl, g, fuel) && match (s1.last(), s2[s1.len() - 1]) {
            (SElim::App(x), SElim::App(y)) => conv_f(x, y, lvl, g, fuel),
            _ => false,
        }
    }
}


pub open spec fn opt_value_view(o: Option<Value>) -> Option<SValue> {
    match o {
        Some(v) => Some(v@),
        None => None,
    }
}

pub open spec fn opt_term_to_spec(o: Option<Term>) -> Option<STerm> {
    match o {
        Some(t) => Some(t@),
        None => None,
    }
}

/// Index of the first arm whose constructor is named `a` or `b`, or that is a wildcard.
fn find_arm(arms: &Vec<(Name, usize, Closure)>, a: &str, b: &str) -> (r: Option<usize>)
    ensures
        match r {
            Some(i) => first_arm(clo_arms_view(arms@), a@, b@, 0) == Some(i as int) && i < arms@.len(),
            None => first_arm(clo_arms_view(arms@), a@, b@, 0) is None,
        },
{
    let ghost sa = clo_arms_view(arms@);
    proof {
        lemma_clo_arms_view(arms@);
    }
    let n = arms.len();
    let mut i: usize = 0;
    while i < n
        invariant
            n == arms@.len(),
            sa == clo_arms_view(arms@),
            sa.len() == n,
            forall|k: int| 0 <= k < n ==> #[trigger] sa[k] == clo_arm_view(arms@[k]),
            i <= n,
            first_arm(sa, a@, b@, 0) == first_arm(sa, a@, b@, i as int),
        decreases n - i,
    {
        assert(sa[i as int].0 == arms@[i as int].0@);
        if str_eq(arms[i].0.as_str(), a) || str_eq(arms[i].0.as_str(), b) || str_eq(arms[i].0.as_str(), "_") {
            return Some(i);
        }
        i = i + 1;
    }
    None
}

/// A neutral value with one more eliminator on its spine.
fn extend_spine(n: Neutral, e: Elim) -> (r: Value)
    ensures
        r@ == push_elim(n@, e@),
{
    let ghost nv = n@;
    let mut n = n;
    let ghost old_spine = n.spine@;
    n.spine.push(e);
    proof {
        lemma_elims_view_push(old_spine, e);
        assert(n@ == SNeutral { head: nv.head, spine: nv.spine.push(e@) });
    }
    let r = Value::Neutral(n);
    assert(r@ == SValue::Neutral(n@));
    r
}

/// If-then-else elimination.
pub fn do_if(cond: Value, then_val: Value, else_val: Value, _globals: &GlobalEnv) -> (r: Value)
    ensures
        r@ == if_value(cond@, then_val@, else_val@),
{
    match cond {
        Value::BoolLit(true) => then_val,
        Value::BoolLit(false) => else_val,
        Value::Neutral(n) => extend_spine(n, Elim::If(then_val, else_val)),
        _ => then_val,
    }
}

/// `env` followed by the values of `extra`.
fn append_values(env: &Vec<Value>, extra: &Vec<Value>) -> (r: Vec<Value>)
    ensures
        values_view(r@) == values_view(env@) + values_view(extra@),
{
    let mut out = clone_values(env);
    let n = extra.len();
    proof {
        lemma_values_view(extra@);
    }
    for j in 0..n
        invariant
            n == extra@.len(),
            values_view(extra@).len() == n,
            forall|k: int| 0 <= k < n ==> #[trigger] values_view(extra@)[k] == value_view(extra@[k]),
            values_view(out@) == values_view(env@) + values_view(extra@).take(j as int),
    {
        let ghost before = out@;
        let v = extra[j].clone();
        out.push(v);
        proof {
            lemma_values_view_push(before, v);
            assert(values_view(extra@).take(j + 1) =~= values_view(extra@).take(j as int).push(values_view(extra@)[j as int]));
        }
    }
    proof {
        assert(values_view(extra@).take(n as int) =~= values_view(extra@));
    }
    out
}

/// `env` with one more value.
fn push_value(env: &Vec<Value>, v: Value) -> (r: Vec<Value>)
    ensures
        values_view(r@) == values_view(env@).push(v@),
{
    let mut out = clone_values(env);
    let ghost before = out@;
    out.push(v);
    proof {
        lemma_values_view_push(before, v);
    }
    out
}

/// Evaluate `term` in `env`, within `fuel` nested steps.
#[verifier::rlimit(60)]
pub fn eval_fuel(term: &Term, env: &Env, globals: &GlobalEnv, fuel: u64) -> (r: Option<Value>)
    ensures
        opt_value_view(r) == eval_f(term@, values_view(env@), globals@, fuel as nat),
    decreases fuel, 0nat,
{
    proof {
        reveal(eval_f);
        reveal(app_f);
        reveal(closure_f);
        reveal(match_f);
        reveal(quote_f);
        reveal(quote_args_f);
        reveal(quote_neutral_f);
        reveal(quote_spine_f);
        reveal(quote_elim_f);
        reveal(quote_arms_f);
        reveal(quote_arm_f);
        reveal(conv_f);
        reveal(conv_args_f);
        reveal(conv_neutral_f);
        reveal(conv_spine_f);
    }
    if fuel == 0 {
        return None;
    }
    let f = fuel - 1;
    proof {
        lemma_values_view(env@);
    }
    let ghost sv = eval_f(term@, values_view(env@), globals@, fuel as nat);
    match term {
        Term::Var(i) => {
            if *i < env.len() {
                let r = Some(env[env.len() - 1 - *i].clone());
                assert(opt_value_view(r) == sv);
                r
            } else {
                let r = Some(Value::var(0));
                assert(opt_value_view(r) == sv);
                r
            }
        },
        Term::Global(name) => {
            match globals.lookup(name.as_str()) {
                Some(Definition::Def { body, .. }) => {
                    let empty: Vec<Value> = Vec::new();
                    assert(values_view(empty@) =~= Seq::<SValue>::empty());
                    let r = eval_fuel(body, &empty, globals, f);
                    assert(opt_value_view(r) == sv);
                    r
                },
                Some(Definition::Constructor { inductive, .. }) => {
                    let args: Vec<Value> = Vec::new();
                    assert(values_view(args@) =~= Seq::<SValue>::empty());
                    let r = Some(Value::Constructor(inductive.clone(), name.clone(), args));
                    assert(opt_value_view(r) == sv);
                    r
                },
                _ => {
                    let r = Some(Value::global(name.clone()));
                    assert(opt_value_view(r) == sv);
                    r
                },
            }
        },
        Term::Sort(u) => Some(Value::Sort(*u)),
        Term::Pi(name, a, b) => {
            let a_val = eval_fuel(a, env, globals, f)?;
            let c = Closure::new(clone_values(env), (**b).clone());
            assert(c@ == SClosure { env: values_view(env@), body: (**b)@ });
            let r = Some(Value::Pi(name.clone(), Box::new(a_val), c));
            assert(opt_value_view(r) == sv);
            r
        },
        Term::Lam(name, a, body) => {
            let a_val = eval_fuel(a, env, globals, f)?;
            let c = Closure::new(clone_values(env), (**body).clone());
            assert(c@ == SClosure { env: values_view(env@), body: (**body)@ });
            let r = Some(Value::Lam(name.clone(), Box::new(a_val), c));
            assert(opt_value_view(r) == sv);
            r
        },
        Term::App(fx, x) => {
            let f_val = eval_fuel(fx, env, globals, f)?;
            let x_val = eval_fuel(x, env, globals, f)?;
            let r = do_app_fuel(f_val, x_val, globals, f);
            assert(opt_value_view(r) == sv);
            r
        },
        Term::Let(_name, _ty, val, body) => {
            let val_v = eval_fuel(val, env, globals, f)?;
            let new_env = push_value(env, val_v);
            let r = eval_fuel(body, &new_env, globals, f);
            assert(opt_value_view(r) == sv);
            r
        },
        Term::Nat(n) => Some(Value::Nat(*n)),
        Term::BoolLit(b) => Some(Value::BoolLit(*b)),
        Term::Constructor(ind, ctor) => {
            let args: Vec<Value> = Vec::new();
            assert(values_view(args@) =~= Seq::<SValue>::empty());
            let r = Some(Value::Constructor(ind.clone(), ctor.clone(), args));
            assert(opt_value_view(r) == sv);
            r
        },
        Term::Recursor(ind) => {
            let mut name = ind.clone();
            name.append(".rec");
            let r = Some(Value::global(name));
            assert(opt_value_view(r) == sv);
            r
        },
        Term::Match { scrutinee, motive, arms } => {
            proof {
                assert(term@ == STerm::Match {
                    scrutinee: Box::new(scrutinee@),
                    motive: crate::term::opt_term_view(*motive),
                    arms: arms_view(arms@),
                });
            }
            let scrut_val = eval_fuel(scrutinee, env, globals, f)?;
            let arm_closures = make_arm_closures(arms, env);
            match motive {
                Some(m) => {
                    let mv = eval_fuel(m, env, globals, f)?;
                    let r = match_fuel(scrut_val, Some(mv), arm_closures, globals, f);
                    assert(opt_value_view(r) == sv);
                    r
                },
                None => {
                    let r = match_fuel(scrut_val, None, arm_closures, globals, f);
                    assert(opt_value_view(r) == sv);
                    r
                },
            }
        },
        Term::If(c, t, e) => {
            let c_val = eval_fuel(c, env, globals, f)?;
            let t_val = eval_fuel(t, env, globals, f)?;
            let e_val = eval_fuel(e, env, globals, f)?;
            let r = Some(do_if(c_val, t_val, e_val, globals));
            assert(opt_value_view(r) == sv);
            r
        },
        Term::Meta(id) => Some(Value::meta(*id)),
        Term::Ann(e, _ty) => eval_fuel(e, env, globals, f),
    }
}

/// Closures for the arms of a match, each capturing `env`.
fn make_arm_closures(arms: &Vec<MatchArm>, env: &Env) -> (r: Vec<(Name, usize, Closure)>)
    ensures
        clo_arms_view(r@) == arm_closures(arms_view(arms@), values_view(env@)),
{
    let mut out: Vec<(Name, usize, Closure)> = Vec::new();
    let n = arms.len();
    proof {
        lemma_arms_view(arms@);
    }
    for j in 0..n
        invariant
            n == arms@.len(),
            arms_view(arms@).len() == n,
            forall|k: int| 0 <= k < n ==> #[trigger] arms_view(arms@)[k] == arm_view(arms@[k]),
            out@.len() == j,
            forall|k: int| 0 <= k < j ==> #[trigger] clo_arm_view(out@[k])
                == arm_closures(arms_view(arms@), values_view(env@))[k],
    {
        let arm = &arms[j];
        out.push((arm.ctor.clone(), arm.arity, Closure::new(clone_values(env), arm.body.clone())));
    }
    proof {
        lemma_clo_arms_view(out@);
        assert(clo_arms_view(out@) =~= arm_closures(arms_view(arms@), values_view(env@)));
    }
    out
}

fn apply_constructor(ind: Name, ctor: Name, args: Vec<Value>, arg: Value) -> (r: Value)
    ensures
        ({
            let args2 = values_view(args@).push(arg@);
            r@ == if is_succ_name(ctor@) && args2.len() == 1 && args2[0] is Nat {
                SValue::Nat(args2[0]->Nat_0.wrapping_add(1))
            } else {
                SValue::Constructor(ind@, ctor@, args2)
            }
        }),
{
    let mut args = args;
    let ghost before = args@;
    args.push(arg);
    proof {
        lemma_values_view_push(before, arg);
        lemma_values_view(args@);
    }
    if (str_eq(ctor.as_str(), "succ") || str_eq(ctor.as_str(), "Nat.succ")) && args.len() == 1 {
        if let Value::Nat(n) = &args[0] {
            return Value::Nat(n.wrapping_add(1));
        }
    }
    Value::Constructor(ind, ctor, args)
}

fn app_error(f: Value, arg: Value) -> (r: Value)
    ensures
        r@ == app_error_value(f@, arg@),
{
    let mut spine: Vec<Elim> = Vec::new();
    let ghost fv = f@;
    let ghost av = arg@;
    spine.push(Elim::App(f));
    spine.push(Elim::App(arg));
    let name = "error:app-non-function".to_string();
    proof {
        assert(spine@ =~= seq![spine@[0], spine@[1]]);
        lemma_elims_view(spine@);
        assert(elims_view(spine@) =~= seq![SElim::App(fv), SElim::App(av)]);
    }
    let n = Neutral { head: NeutralHead::Global(name), spine };
    assert(n@ == SNeutral { head: SHead::Global("error:app-non-function"@), spine: seq![SElim::App(fv), SElim::App(av)] });
    Value::Neutral(n)
}

/// Apply a function value to an argument.
pub fn do_app_fuel(f: Value, arg: Value, globals: &GlobalEnv, fuel: u64) -> (r: Option<Value>)
    ensures
        opt_value_view(r) == app_f(f@, arg@, globals@, fuel as nat),
    decreases fuel, 0nat,
{
    proof {
        reveal(eval_f);
        reveal(app_f);
        reveal(closure_f);
        reveal(match_f);
        reveal(quote_f);
        reveal(quote_args_f);
        reveal(quote_neutral_f);
        reveal(quote_spine_f);
        reveal(quote_elim_f);
        reveal(quote_arms_f);
        reveal(quote_arm_f);
        reveal(conv_f);
        reveal(conv_args_f);
        reveal(conv_neutral_f);
        reveal(conv_spine_f);
    }
    if fuel == 0 {
        return None;
    }
    let fl = fuel - 1;
    match f {
        Value::Lam(_, _, closure) => eval_closure_fuel(&closure, arg, globals, fl),
        Value::Neutral(n) => Some(extend_spine(n, Elim::App(arg))),
        Value::Constructor(ind, ctor, args) => Some(apply_constructor(ind, ctor, args, arg)),
        _ => Some(app_error(f, arg)),
    }
}

/// Evaluate a closure's body with the argument as its newest variable.
pub fn eval_closure_fuel(closure: &Closure, arg: Value, globals: &GlobalEnv, fuel: u64) -> (r: Option<Value>)
    ensures
        opt_value_view(r) == closure_f(closure@, arg@, globals@, fuel as nat),
    decreases fuel, 0nat,
{
    proof {
        reveal(eval_f);
        reveal(app_f);
        reveal(closure_f);
        reveal(match_f);
        reveal(quote_f);
        reveal(quote_args_f);
        reveal(quote_neutral_f);
        reveal(quote_spine_f);
        reveal(quote_elim_f);
        reveal(quote_arms_f);
        reveal(quote_arm_f);
        reveal(conv_f);
        reveal(conv_args_f);
        reveal(conv_neutral_f);
        reveal(conv_spine_f);
    }
    if fuel == 0 {
        return None;
    }
    let env = push_value(&closure.env, arg);
    eval_fuel(&closure.body, &env, globals, fuel - 1)
}

/// Perform a match elimination.
pub fn match_fuel(
    scrutinee: Value,
    motive: Option<Value>,
    arms: Vec<(Name, usize, Closure)>,
    globals: &GlobalEnv,
    fuel: u64,
) -> (r: Option<Value>)
    ensures
        opt_value_view(r) == match_f(scrutinee@, opt_value_view(motive), clo_arms_view(arms@), globals@, fuel as nat),
    decreases fuel, 0nat,
{
    proof {
        reveal(eval_f);
        reveal(app_f);
        reveal(closure_f);
        reveal(match_f);
        reveal(quote_f);
        reveal(quote_args_f);
        reveal(quote_neutral_f);
        reveal(quote_spine_f);
        reveal(quote_elim_f);
        reveal(quote_arms_f);
        reveal(quote_arm_f);
        reveal(conv_f);
        reveal(conv_args_f);
        reveal(conv_neutral_f);
        reveal(conv_spine_f);
    }
    if fuel == 0 {
        return None;
    }
    let f = fuel - 1;
    proof {
        lemma_clo_arms_view(arms@);
    }
    match &scrutinee {
        Value::Constructor(_ind, ctor, ctor_args) => {
            match find_arm(&arms, ctor.as_str(), ctor.as_str()) {
                Some(i) => {
                    let closure = &arms[i].2;
                    assert(clo_arms_view(arms@)[i as int].0 == arms@[i as int].0@);
                    if str_eq(arms[i].0.as_str(), "_") {
                        eval_fuel(&closure.body, &closure.env, globals, f)
                    } else {
                        let env = append_values(&closure.env, ctor_args);
                        eval_fuel(&closure.body, &env, globals, f)
                    }
                },
                None => Some(scrutinee),
            }
        },
        Value::Nat(n) => {
            if *n == 0 {
                match find_arm(&arms, "zero", "Nat.zero") {
                    Some(i) => eval_fuel(&arms[i].2.body, &arms[i].2.env, globals, f),
                    None => Some(scrutinee),
                }
            } else {
                match find_arm(&arms, "succ", "Nat.succ") {
                    Some(i) => {
                        assert(clo_arms_view(arms@)[i as int].0 == arms@[i as int].0@);
                        if str_eq(arms[i].0.as_str(), "_") {
                            eval_fuel(&arms[i].2.body, &arms[i].2.env, globals, f)
                        } else {
                            let env = push_value(&arms[i].2.env, Value::Nat(*n - 1));
                            eval_fuel(&arms[i].2.body, &env, globals, f)
                        }
                    },
                    None => Some(scrutinee),
                }
            }
        },
        Value::BoolLit(b) => {
            let found = if *b {
                find_arm(&arms, "true", "Bool.true")
            } else {
                find_arm(&arms, "false", "Bool.false")
            };
            match found {
                Some(i) => eval_fuel(&arms[i].2.body, &arms[i].2.env, globals, f),
                None => Some(scrutinee),
            }
        },
        Value::Neutral(n) => {
            let n = n.clone();
            Some(extend_spine(n, Elim::Match { motive, arms }))
        },
        _ => Some(scrutinee),
    }
}


/// Read back a value to a term at level `lvl`.
pub fn quote_fuel(val: &Value, lvl: DbLevel, globals: &GlobalEnv, fuel: u64) -> (r: Option<Term>)
    ensures
        opt_term_to_spec(r) == quote_f(val@, lvl, globals@, fuel as nat),
    decreases fuel, 0nat,
{
    proof {
        reveal(eval_f);
        reveal(app_f);
        reveal(closure_f);
        reveal(match_f);
        reveal(quote_f);
        reveal(quote_args_f);
        reveal(quote_neutral_f);
        reveal(quote_spine_f);
        reveal(quote_elim_f);
        reveal(quote_arms_f);
        reveal(quote_arm_f);
        reveal(conv_f);
        reveal(conv_args_f);
        reveal(conv_neutral_f);
        reveal(conv_spine_f);
    }
    if fuel == 0 {
        return None;
    }
    let f = fuel - 1;
    let ghost sv = quote_f(val@, lvl, globals@, fuel as nat);
    match val {
        Value::Sort(u) => Some(Term::Sort(*u)),
        Value::Lam(name, ty, closure) => {
            let ty_term = quote_fuel(ty, lvl, globals, f)?;
            let arg = Value::var(lvl);
            let body_val = eval_closure_fuel(closure, arg, globals, f)?;
            let body_term = quote_fuel(&body_val, lvl.wrapping_add(1), globals, f)?;
            let r = Some(Term::Lam(name.clone(), Box::new(ty_term), Box::new(body_term)));
            assert(opt_term_to_spec(r) == sv);
            r
        },
        Value::Pi(name, a, closure) => {
            let a_term = quote_fuel(a, lvl, globals, f)?;
            let arg = Value::var(lvl);
            let b_val = eval_closure_fuel(closure, arg, globals, f)?;
            let b_term = quote_fuel(&b_val, lvl.wrapping_add(1), globals, f)?;
            let r = Some(Term::Pi(name.clone(), Box::new(a_term), Box::new(b_term)));
            assert(opt_term_to_spec(r) == sv);
            r
        },
        Value::Nat(n) => Some(Term::Nat(*n)),
        Value::BoolLit(b) => Some(Term::BoolLit(*b)),
        Value::Constructor(ind, ctor, args) => {
            let mut term = Term::Constructor(ind.clone(), ctor.clone());
            let ghost base = STerm::Constructor(ind@, ctor@);
            let ghost sargs = values_view(args@);
            let n = args.len();
            proof {
                lemma_values_view(args@);
                assert(sargs.take(0) =~= Seq::<SValue>::empty());
            }
            for j in 0..n
                invariant
                    n == args@.len(),
                    sargs == values_view(args@),
                    sargs.len() == n,
                    forall|k: int| 0 <= k < n ==> #[trigger] sargs[k] == value_view(args@[k]),
                    f == fuel - 1,
                    quote_f(val@, lvl, globals@, fuel as nat) == quote_args_f(base, sargs, lvl, globals@, f as nat),
                    quote_args_f(base, sargs.take(j as int), lvl, globals@, f as nat) == Some(term@),
            {
                let x = quote_fuel(&args[j], lvl, globals, f);
                proof {
                    lemma_quote_args_step(base, sargs, j as int, lvl, globals@, f as nat);
                }
                match x {
                    Some(xt) => {
                        term = Term::App(Box::new(term), Box::new(xt));
                    },
                    None => {
                        proof {
                            lemma_quote_args_none(base, sargs, j as int, lvl, globals@, f as nat);
                        }
                        return None;
                    },
                }
            }
            proof {
                assert(sargs.take(n as int) =~= sargs);
            }
            Some(term)
        },
        Value::Neutral(n) => quote_neutral_fuel(n, lvl, globals, f),
    }
}

/// Once reading back some argument fails, reading back any longer prefix fails too.
proof fn lemma_quote_args_none(acc: STerm, args: Seq<SValue>, j: int, lvl: usize, g: SGlobals, fuel: nat)
    requires
        0 <= j < args.len(),
        quote_f(args[j], lvl, g, fuel) is None,
    ensures
        quote_args_f(acc, args, lvl, g, fuel) is None,
    decreases args.len(),
{
    reveal(eval_f);
    reveal(app_f);
    reveal(closure_f);
    reveal(match_f);
    reveal(quote_f);
    reveal(quote_args_f);
    reveal(quote_neutral_f);
    reveal(quote_spine_f);
    reveal(quote_elim_f);
    reveal(quote_arms_f);
    reveal(quote_arm_f);
    reveal(conv_f);
    reveal(conv_args_f);
    reveal(conv_neutral_f);
    reveal(conv_spine_f);
    if j < args.len() - 1 {
        lemma_quote_args_none(acc, args.drop_last(), j, lvl, g, fuel);
    }
}

/// The term for a neutral head at level `lvl`.
fn quote_head(h: &NeutralHead, lvl: DbLevel) -> (r: Term)
    ensures
        r@ == head_term(crate::term::head_view(*h), lvl),
{
    match h {
        NeutralHead::Var(l) => Term::Var(lvl.wrapping_sub(1).wrapping_sub(*l)),
        NeutralHead::Global(name) => Term::Global(name.clone()),
        NeutralHead::Meta(id) => Term::Meta(*id),
    }
}

pub fn quote_neutral_fuel(n: &Neutral, lvl: DbLevel, globals: &GlobalEnv, fuel: u64) -> (r: Option<Term>)
    ensures
        opt_term_to_spec(r) == quote_neutral_f(n@, lvl, globals@, fuel as nat),
    decreases fuel, 0nat,
{
    proof {
        reveal(eval_f);
        reveal(app_f);
        reveal(closure_f);
        reveal(match_f);
        reveal(quote_f);
        reveal(quote_args_f);
        reveal(quote_neutral_f);
        reveal(quote_spine_f);
        reveal(quote_elim_f);
        reveal(quote_arms_f);
        reveal(quote_arm_f);
        reveal(conv_f);
        reveal(conv_args_f);
        reveal(conv_neutral_f);
        reveal(conv_spine_f);
    }
    if fuel == 0 {
        return None;
    }
    let f = fuel - 1;
    let mut acc = quote_head(&n.head, lvl);
    let ghost head = acc@;
    let ghost sp = elims_view(n.spine@);
    let len = n.spine.len();
    proof {
        lemma_elims_view(n.spine@);
        assert(sp.take(0) =~= Seq::<SElim>::empty());
    }
    for j in 0..len
        invariant
            len == n.spine@.len(),
            sp == elims_view(n.spine@),
            sp.len() == len,
            forall|k: int| 0 <= k < len ==> #[trigger] sp[k] == elim_view(n.spine@[k]),
            f == fuel - 1,
            quote_neutral_f(n@, lvl, globals@, fuel as nat) == quote_spine_f(head, sp, lvl, globals@, f as nat),
            quote_spine_f(head, sp.take(j as int), lvl, globals@, f as nat) == Some(acc@),
    {
        let ghost prev = acc@;
        let step = quote_elim_fuel(acc, &n.spine[j], lvl, globals, f);
        proof {
            lemma_quote_spine_step(head, sp, j as int, lvl, globals@, f as nat);
        }
        match step {
            Some(t) => {
                acc = t;
            },
            None => {
                proof {
                    lemma_quote_spine_none(head, sp, j as int, lvl, globals@, f as nat);
                }
                return None;
            },
        }
    }
    proof {
        assert(sp.take(len as int) =~= sp);
    }
    Some(acc)
}

proof fn lemma_quote_spine_none(head: STerm, spine: Seq<SElim>, j: int, lvl: usize, g: SGlobals, fuel: nat)
    requires
        0 <= j < spine.len(),
        quote_spine_f(head, spine.take(j), lvl, g, fuel) matches Some(a) && quote_elim_f(a, spine[j], lvl, g, fuel) is None,
    ensures
        quote_spine_f(head, spine, lvl, g, fuel) is None,
    decreases spine.len(),
{
    reveal(eval_f);
    reveal(app_f);
    reveal(closure_f);
    reveal(match_f);
    reveal(quote_f);
    reveal(quote_args_f);
    reveal(quote_neutral_f);
    reveal(quote_spine_f);
    reveal(quote_elim_f);
    reveal(quote_arms_f);
    reveal(quote_arm_f);
    reveal(conv_f);
    reveal(conv_args_f);
    reveal(conv_neutral_f);
    reveal(conv_spine_f);
    if j < spine.len() - 1 {
        assert(spine.drop_last().take(j) =~= spine.take(j));
        lemma_quote_spine_none(head, spine.drop_last(), j, lvl, g, fuel);
    } else {
        assert(spine.take(j) =~= spine.drop_last());
    }
}

proof fn lemma_quote_elim_unfold(acc: STerm, e: SElim, lvl: usize, g: SGlobals, fuel: nat)
    requires
        fuel > 0,
    ensures
        quote_elim_f(acc, e, lvl, g, fuel) == match e {
            SElim::App(v) => match quote_f(v, lvl, g, (fuel - 1) as nat) {
                Some(x) => Some(STerm::App(Box::new(acc), Box::new(x))),
                None => None,
            },
            SElim::Match { arms, .. } => match quote_arms_f(arms, lvl, g, (fuel - 1) as nat) {
                Some(ts) => Some(STerm::Match { scrutinee: Box::new(acc), motive: None, arms: ts }),
                None => None,
            },
            SElim::If(t, x) => match quote_f(t, lvl, g, (fuel - 1) as nat) {
                Some(tt) => match quote_f(x, lvl, g, (fuel - 1) as nat) {
                    Some(xt) => Some(STerm::If(Box::new(acc), Box::new(tt), Box::new(xt))),
                    None => None,
                },
                None => None,
            },
        },
{
    reveal(eval_f);
    reveal(app_f);
    reveal(closure_f);
    reveal(match_f);
    reveal(quote_f);
    reveal(quote_args_f);
    reveal(quote_neutral_f);
    reveal(quote_spine_f);
    reveal(quote_elim_f);
    reveal(quote_arms_f);
    reveal(quote_arm_f);
    reveal(conv_f);
    reveal(conv_args_f);
    reveal(conv_neutral_f);
    reveal(conv_spine_f);
}

proof fn lemma_quote_elim_zero(acc: STerm, e: SElim, lvl: usize, g: SGlobals)
    ensures
        quote_elim_f(acc, e, lvl, g, 0) is None,
{
    reveal(eval_f);
    reveal(app_f);
    reveal(closure_f);
    reveal(match_f);
    reveal(quote_f);
    reveal(quote_args_f);
    reveal(quote_neutral_f);
    reveal(quote_spine_f);
    reveal(quote_elim_f);
    reveal(quote_arms_f);
    reveal(quote_arm_f);
    reveal(conv_f);
    reveal(conv_args_f);
    reveal(conv_neutral_f);
    reveal(conv_spine_f);
}

/// Apply one eliminator to an already read-back head.
fn quote_elim_fuel(acc: Term, e: &Elim, lvl: DbLevel, globals: &GlobalEnv, fuel: u64) -> (r: Option<Term>)
    ensures
        opt_term_to_spec(r) == quote_elim_f(acc@, e@, lvl, globals@, fuel as nat),
    decreases fuel, 0nat,
{
    if fuel == 0 {
        proof {
            lemma_quote_elim_zero(acc@, e@, lvl, globals@);
        }
        return None;
    }
    let f = fuel - 1;
    proof {
        lemma_quote_elim_unfold(acc@, e@, lvl, globals@, fuel as nat);
    }
    match e {
        Elim::App(v) => {
            assert(e@ == SElim::App(v@));
            let x = quote_fuel(v, lvl, globals, f)?;
            let r = Some(Term::App(Box::new(acc), Box::new(x)));
            assert(opt_term_to_spec(r) == quote_elim_f(acc@, e@, lvl, globals@, fuel as nat));
            r
        },
        Elim::Match { arms, .. } => {
            assert(e@ is Match && e@->arms == clo_arms_view(arms@));
            let ghost a = acc@;
            let out = quote_clo_arms_fuel(arms, lvl, globals, f)?;
            let ghost ov = arms_view(out@);
            let t = Term::Match { scrutinee: Box::new(acc), motive: None, arms: out };
            assert(crate::term::opt_term_view(None) == None::<Box<STerm>>);
            assert(t@ == STerm::Match { scrutinee: Box::new(a), motive: None, arms: ov });
            let r = Some(t);
            assert(opt_term_to_spec(r) == quote_elim_f(a, e@, lvl, globals@, fuel as nat));
            r
        },
        Elim::If(t, x) => {
            assert(e@ == SElim::If(t@, x@));
            let tt = quote_fuel(t, lvl, globals, f)?;
            let xt = quote_fuel(x, lvl, globals, f)?;
            Some(Term::If(Box::new(acc), Box::new(tt), Box::new(xt)))
        },
    }
}

proof fn lemma_quote_arms_empty(lvl: usize, g: SGlobals, fuel: nat)
    ensures
        quote_arms_f(Seq::empty(), lvl, g, fuel) == Some(Seq::<SArm>::empty()),
{
    reveal(eval_f);
    reveal(app_f);
    reveal(closure_f);
    reveal(match_f);
    reveal(quote_f);
    reveal(quote_args_f);
    reveal(quote_neutral_f);
    reveal(quote_spine_f);
    reveal(quote_elim_f);
    reveal(quote_arms_f);
    reveal(quote_arm_f);
    reveal(conv_f);
    reveal(conv_args_f);
    reveal(conv_neutral_f);
    reveal(conv_spine_f);
}

/// Read back every arm of a stuck match.
fn quote_clo_arms_fuel(arms: &Vec<(Name, usize, Closure)>, lvl: DbLevel, globals: &GlobalEnv, fuel: u64) -> (r: Option<Vec<MatchArm>>)
    ensures
        match r {
            Some(v) => quote_arms_f(clo_arms_view(arms@), lvl, globals@, fuel as nat) == Some(arms_view(v@)),
            None => quote_arms_f(clo_arms_view(arms@), lvl, globals@, fuel as nat) is None,
        },
    decreases fuel, 1nat,
{
    let mut out: Vec<MatchArm> = Vec::new();
    let ghost sa = clo_arms_view(arms@);
    let n = arms.len();
    proof {
        lemma_clo_arms_view(arms@);
        assert(sa.take(0) =~= Seq::<(Seq<char>, usize, SClosure)>::empty());
        assert(arms_view(out@) =~= Seq::<SArm>::empty());
        lemma_quote_arms_empty(lvl, globals@, fuel as nat);
    }
    for j in 0..n
        invariant
            n == arms@.len(),
            sa == clo_arms_view(arms@),
            sa.len() == n,
            forall|k: int| 0 <= k < n ==> #[trigger] sa[k] == clo_arm_view(arms@[k]),
            quote_arms_f(sa.take(j as int), lvl, globals@, fuel as nat) == Some(arms_view(out@)),
    {
        let step = quote_arm_fuel(&arms[j], lvl, globals, fuel);
        proof {
            lemma_quote_arms_step(sa, j as int, lvl, globals@, fuel as nat);
        }
        match step {
            Some(arm) => {
                let ghost before = out@;
                out.push(arm);
                proof {
                    assert(out@.drop_last() =~= before);
                }
            },
            None => {
                proof {
                    lemma_quote_arms_none(sa, j as int, lvl, globals@, fuel as nat);
                }
                return None;
            },
        }
    }
    proof {
        assert(sa.take(n as int) =~= sa);
    }
    Some(out)
}

proof fn lemma_quote_arms_none(arms: Seq<(Seq<char>, usize, SClosure)>, j: int, lvl: usize, g: SGlobals, fuel: nat)
    requires
        0 <= j < arms.len(),
        quote_arms_f(arms.take(j), lvl, g, fuel) is Some && quote_arm_f(arms[j], lvl, g, fuel) is None,
    ensures
        quote_arms_f(arms, lvl, g, fuel) is None,
    decreases arms.len(),
{
    reveal(eval_f);
    reveal(app_f);
    reveal(closure_f);
    reveal(match_f);
    reveal(quote_f);
    reveal(quote_args_f);
    reveal(quote_neutral_f);
    reveal(quote_spine_f);
    reveal(quote_elim_f);
    reveal(quote_arms_f);
    reveal(quote_arm_f);
    reveal(conv_f);
    reveal(conv_args_f);
    reveal(conv_neutral_f);
    reveal(conv_spine_f);
    if j < arms.len() - 1 {
        assert(arms.drop_last().take(j) =~= arms.take(j));
        lemma_quote_arms_none(arms.drop_last(), j, lvl, g, fuel);
    } else {
        assert(arms.take(j) =~= arms.drop_last());
    }
}

/// Read back one arm of a stuck match on fresh variables.
fn quote_arm_fuel(arm: &(Name, usize, Closure), lvl: DbLevel, globals: &GlobalEnv, fuel: u64) -> (r: Option<MatchArm>)
    ensures
        match r {
            Some(a) => quote_arm_f(clo_arm_view(*arm), lvl, globals@, fuel as nat) == Some(a@),
            None => quote_arm_f(clo_arm_view(*arm), lvl, globals@, fuel as nat) is None,
        },
    decreases fuel, 0nat,
{
    proof {
        reveal(eval_f);
        reveal(app_f);
        reveal(closure_f);
        reveal(match_f);
        reveal(quote_f);
        reveal(quote_args_f);
        reveal(quote_neutral_f);
        reveal(quote_spine_f);
        reveal(quote_elim_f);
        reveal(quote_arms_f);
        reveal(quote_arm_f);
        reveal(conv_f);
        reveal(conv_args_f);
        reveal(conv_neutral_f);
        reveal(conv_spine_f);
    }
    if fuel == 0 {
        return None;
    }
    let f = fuel - 1;
    let (ctor, arity, closure) = arm;
    let mut env = clone_values(&closure.env);
    let ghost base = values_view(closure.env@);
    let ghost fresh = Seq::new(*arity as nat, |i: int| neutral_value(SHead::Var(lvl.wrapping_add(i as usize))));
    for i in 0..*arity
        invariant
            values_view(env@) == base + fresh.take(i as int),
            fresh.len() == *arity,
            forall|k: int| 0 <= k < *arity ==> #[trigger] fresh[k] == neutral_value(SHead::Var(lvl.wrapping_add(k as usize))),
    {
        let ghost before = env@;
        let v = Value::var(lvl.wrapping_add(i));
        env.push(v);
        proof {
            lemma_values_view_push(before, v);
            assert(fresh.take(i + 1) =~= fresh.take(i as int).push(fresh[i as int]));
        }
    }
    proof {
        assert(fresh.take(*arity as int) =~= fresh);
    }
    let body_val = eval_fuel(&closure.body, &env, globals, f)?;
    let body_term = quote_fuel(&body_val, lvl.wrapping_add(*arity), globals, f)?;
    Some(MatchArm { ctor: ctor.clone(), arity: *arity, body: body_term })
}


proof fn lemma_quote_args_step(acc: STerm, args: Seq<SValue>, j: int, lvl: usize, g: SGlobals, fuel: nat)
    requires
        0 <= j < args.len(),
    ensures
        quote_args_f(acc, args.take(j + 1), lvl, g, fuel) == match quote_args_f(acc, args.take(j), lvl, g, fuel) {
            Some(a) => match quote_f(args[j], lvl, g, fuel) {
                Some(x) => Some(STerm::App(Box::new(a), Box::new(x))),
                None => None,
            },
            None => None,
        },
{
    reveal(eval_f);
    reveal(app_f);
    reveal(closure_f);
    reveal(match_f);
    reveal(quote_f);
    reveal(quote_args_f);
    reveal(quote_neutral_f);
    reveal(quote_spine_f);
    reveal(quote_elim_f);
    reveal(quote_arms_f);
    reveal(quote_arm_f);
    reveal(conv_f);
    reveal(conv_args_f);
    reveal(conv_neutral_f);
    reveal(conv_spine_f);
    assert(args.take(j + 1).drop_last() =~= args.take(j));
    assert(args.take(j + 1).last() == args[j]);
}

proof fn lemma_quote_spine_step(acc: STerm, spine: Seq<SElim>, j: int, lvl: usize, g: SGlobals, fuel: nat)
    requires
        0 <= j < spine.len(),
    ensures
        quote_spine_f(acc, spine.take(j + 1), lvl, g, fuel) == match quote_spine_f(acc, spine.take(j), lvl, g, fuel) {
            Some(a) => quote_elim_f(a, spine[j], lvl, g, fuel),
            None => None,
        },
{
    reveal(eval_f);
    reveal(app_f);
    reveal(closure_f);
    reveal(match_f);
    reveal(quote_f);
    reveal(quote_args_f);
    reveal(quote_neutral_f);
    reveal(quote_spine_f);
    reveal(quote_elim_f);
    reveal(quote_arms_f);
    reveal(quote_arm_f);
    reveal(conv_f);
    reveal(conv_args_f);
    reveal(conv_neutral_f);
    reveal(conv_spine_f);
    assert(spine.take(j + 1).drop_last() =~= spine.take(j));
    assert(spine.take(j + 1).last() == spine[j]);
}

proof fn lemma_quote_arms_step(arms: Seq<(Seq<char>, usize, SClosure)>, j: int, lvl: usize, g: SGlobals, fuel: nat)
    requires
        0 <= j < arms.len(),
    ensures
        quote_arms_f(arms.take(j + 1), lvl, g, fuel) == match quote_arms_f(arms.take(j), lvl, g, fuel) {
            Some(ts) => match quote_arm_f(arms[j], lvl, g, fuel) {
                Some(t) => Some(ts.push(t)),
                None => None,
            },
            None => None,
        },
{
    reveal(eval_f);
    reveal(app_f);
    reveal(closure_f);
    reveal(match_f);
    reveal(quote_f);
    reveal(quote_args_f);
    reveal(quote_neutral_f);
    reveal(quote_spine_f);
    reveal(quote_elim_f);
    reveal(quote_arms_f);
    reveal(quote_arm_f);
    reveal(conv_f);
    reveal(conv_args_f);
    reveal(conv_neutral_f);
    reveal(conv_spine_f);
    assert(arms.take(j + 1).drop_last() =~= arms.take(j));
    assert(arms.take(j + 1).last() == arms[j]);
}


/// Definitional equality of two values at level `lvl`, within `fuel` nested steps.
pub fn conv_fuel(v1: &Value, v2: &Value, lvl: DbLevel, globals: &GlobalEnv, fuel: u64) -> (r: bool)
    ensures
        r == conv_f(v1@, v2@, lvl, globals@, fuel as nat),
    decreases fuel, 0nat,
{
    proof {
        reveal(eval_f);
        reveal(app_f);
        reveal(closure_f);
        reveal(match_f);
        reveal(quote_f);
        reveal(quote_args_f);
        reveal(quote_neutral_f);
        reveal(quote_spine_f);
        reveal(quote_elim_f);
        reveal(quote_arms_f);
        reveal(quote_arm_f);
        reveal(conv_f);
        reveal(conv_args_f);
        reveal(conv_neutral_f);
        reveal(conv_spine_f);
    }
    if fuel == 0 {
        return false;
    }
    let f = fuel - 1;
    let next = lvl.wrapping_add(1);
    match (v1, v2) {
        (Value::Sort(u1), Value::Sort(u2)) => *u1 == *u2,
        (Value::Nat(n1), Value::Nat(n2)) => *n1 == *n2,
        (Value::BoolLit(b1), Value::BoolLit(b2)) => *b1 == *b2,
        (Value::Pi(_, a1, b1), Value::Pi(_, a2, b2)) => {
            if !conv_fuel(a1, a2, lvl, globals, f) {
                return false;
            }
            let r1 = eval_closure_fuel(b1, Value::var(lvl), globals, f);
            let r2 = eval_closure_fuel(b2, Value::var(lvl), globals, f);
            match (r1, r2) {
                (Some(x), Some(y)) => conv_fuel(&x, &y, next, globals, f),
                _ => false,
            }
        },
        (Value::Lam(_, _, b1), Value::Lam(_, _, b2)) => {
            let r1 = eval_closure_fuel(b1, Value::var(lvl), globals, f);
            let r2 = eval_closure_fuel(b2, Value::var(lvl), globals, f);
            match (r1, r2) {
                (Some(x), Some(y)) => conv_fuel(&x, &y, next, globals, f),
                _ => false,
            }
        },
        (Value::Lam(_, _, closure), other) => {
            let body = eval_closure_fuel(closure, Value::var(lvl), globals, f);
            let other_app = do_app_fuel(other.clone(), Value::var(lvl), globals, f);
            match (body, other_app) {
                (Some(x), Some(y)) => conv_fuel(&x, &y, next, globals, f),
                _ => false,
            }
        },
        (other, Value::Lam(_, _, closure)) => {
            let body = eval_closure_fuel(closure, Value::var(lvl), globals, f);
            let other_app = do_app_fuel(other.clone(), Value::var(lvl), globals, f);
            match (body, other_app) {
                (Some(x), Some(y)) => conv_fuel(&x, &y, next, globals, f),
                _ => false,
            }
        },
        (Value::Constructor(i1, c1, a1), Value::Constructor(i2, c2, a2)) => {
            proof {
                lemma_values_view(a1@);
                lemma_values_view(a2@);
            }
            *i1 == *i2 && *c1 == *c2 && a1.len() == a2.len() && conv_args_fuel(a1, a2, lvl, globals, f)
        },
        (Value::Neutral(n1), Value::Neutral(n2)) => conv_neutral_fuel(n1, n2, lvl, globals, f),
        _ => false,
    }
}

proof fn lemma_conv_args_base(a2: Seq<SValue>, lvl: usize, g: SGlobals, fuel: nat)
    ensures
        conv_args_f(Seq::empty(), a2, lvl, g, fuel),
{
    reveal(eval_f);
    reveal(app_f);
    reveal(closure_f);
    reveal(match_f);
    reveal(quote_f);
    reveal(quote_args_f);
    reveal(quote_neutral_f);
    reveal(quote_spine_f);
    reveal(quote_elim_f);
    reveal(quote_arms_f);
    reveal(quote_arm_f);
    reveal(conv_f);
    reveal(conv_args_f);
    reveal(conv_neutral_f);
    reveal(conv_spine_f);
}

proof fn lemma_conv_args_step(a1: Seq<SValue>, a2: Seq<SValue>, j: int, lvl: usize, g: SGlobals, fuel: nat)
    requires
        0 <= j < a1.len(),
    ensures
        conv_args_f(a1.take(j + 1), a2, lvl, g, fuel) == (conv_args_f(a1.take(j), a2, lvl, g, fuel) && conv_f(a1[j], a2[j], lvl, g, fuel)),
{
    reveal(eval_f);
    reveal(app_f);
    reveal(closure_f);
    reveal(match_f);
    reveal(quote_f);
    reveal(quote_args_f);
    reveal(quote_neutral_f);
    reveal(quote_spine_f);
    reveal(quote_elim_f);
    reveal(quote_arms_f);
    reveal(quote_arm_f);
    reveal(conv_f);
    reveal(conv_args_f);
    reveal(conv_neutral_f);
    reveal(conv_spine_f);
    assert(a1.take(j + 1).drop_last() =~= a1.take(j));
    assert(a1.take(j + 1).last() == a1[j]);
}

/// Once some pair fails, every longer prefix fails.
proof fn lemma_conv_args_fail(a1: Seq<SValue>, a2: Seq<SValue>, j: int, k: int, lvl: usize, g: SGlobals, fuel: nat)
    requires
        0 <= j < k <= a1.len(),
        !conv_args_f(a1.take(j + 1), a2, lvl, g, fuel),
    ensures
        !conv_args_f(a1.take(k), a2, lvl, g, fuel),
    decreases k - j,
{
    if k > j + 1 {
        lemma_conv_args_fail(a1, a2, j, k - 1, lvl, g, fuel);
        lemma_conv_args_step(a1, a2, k - 1, lvl, g, fuel);
    }
}

/// Pairwise definitional equality of two argument lists of the same length.
fn conv_args_fuel(a1: &Vec<Value>, a2: &Vec<Value>, lvl: DbLevel, globals: &GlobalEnv, fuel: u64) -> (r: bool)
    requires
        a1@.len() == a2@.len(),
    ensures
        r == conv_args_f(values_view(a1@), values_view(a2@), lvl, globals@, fuel as nat),
    decreases fuel, 1nat,
{
    let ghost s1 = values_view(a1@);
    let ghost s2 = values_view(a2@);
    let n = a1.len();
    proof {
        lemma_values_view(a1@);
        lemma_values_view(a2@);
        lemma_conv_args_base(s2, lvl, globals@, fuel as nat);
        assert(s1.take(0) =~= Seq::<SValue>::empty());
    }
    for j in 0..n
        invariant
            n == a1@.len(),
            n == a2@.len(),
            s1 == values_view(a1@),
            s2 == values_view(a2@),
            s1.len() == n,
            s2.len() == n,
            forall|k: int| 0 <= k < n ==> #[trigger] s1[k] == value_view(a1@[k]),
            forall|k: int| 0 <= k < n ==> #[trigger] s2[k] == value_view(a2@[k]),
            conv_args_f(s1.take(j as int), s2, lvl, globals@, fuel as nat),
    {
        let ok = conv_fuel(&a1[j], &a2[j], lvl, globals, fuel);
        proof {
            lemma_conv_args_step(s1, s2, j as int, lvl, globals@, fuel as nat);
        }
        if !ok {
            proof {
                lemma_conv_args_fail(s1, s2, j as int, n as int, lvl, globals@, fuel as nat);
                assert(s1.take(n as int) =~= s1);
            }
            return false;
        }
    }
    proof {
        assert(s1.take(n as int) =~= s1);
    }
    true
}

fn heads_eq(h1: &NeutralHead, h2: &NeutralHead) -> (r: bool)
    ensures
        r == heads_equal(crate::term::head_view(*h1), crate::term::head_view(*h2)),
{
    match (h1, h2) {
        (NeutralHead::Var(l1), NeutralHead::Var(l2)) => *l1 == *l2,
        (NeutralHead::Global(n1), NeutralHead::Global(n2)) => *n1 == *n2,
        (NeutralHead::Meta(m1), NeutralHead::Meta(m2)) => *m1 == *m2,
        _ => false,
    }
}

pub fn conv_neutral_fuel(n1: &Neutral, n2: &Neutral, lvl: DbLevel, globals: &GlobalEnv, fuel: u64) -> (r: bool)
    ensures
        r == conv_neutral_f(n1@, n2@, lvl, globals@, fuel as nat),
    decreases fuel, 0nat,
{
    proof {
        reveal(eval_f);
        reveal(app_f);
        reveal(closure_f);
        reveal(match_f);
        reveal(quote_f);
        reveal(quote_args_f);
        reveal(quote_neutral_f);
        reveal(quote_spine_f);
        reveal(quote_elim_f);
        reveal(quote_arms_f);
        reveal(quote_arm_f);
        reveal(conv_f);
        reveal(conv_args_f);
        reveal(conv_neutral_f);
        reveal(conv_spine_f);
        lemma_elims_view(n1.spine@);
        lemma_elims_view(n2.spine@);
    }
    if fuel == 0 {
        return false;
    }
    if !heads_eq(&n1.head, &n2.head) || n1.spine.len() != n2.spine.len() {
        return false;
    }
    conv_spine_fuel(&n1.spine, &n2.spine, lvl, globals, fuel - 1)
}

proof fn lemma_conv_spine_base(s2: Seq<SElim>, lvl: usize, g: SGlobals, fuel: nat)
    ensures
        conv_spine_f(Seq::empty(), s2, lvl, g, fuel),
{
    reveal(eval_f);
    reveal(app_f);
    reveal(closure_f);
    reveal(match_f);
    reveal(quote_f);
    reveal(quote_args_f);
    reveal(quote_neutral_f);
    reveal(quote_spine_f);
    reveal(quote_elim_f);
    reveal(quote_arms_f);
    reveal(quote_arm_f);
    reveal(conv_f);
    reveal(conv_args_f);
    reveal(conv_neutral_f);
    reveal(conv_spine_f);
}

pub open spec fn elim_pair_conv(e1: SElim, e2: SElim, lvl: usize, g: SGlobals, fuel: nat) -> bool {
    match (e1, e2) {
        (SElim::App(x), SElim::App(y)) => conv_f(x, y, lvl, g, fuel),
        _ => false,
    }
}

proof fn lemma_conv_spine_step(s1: Seq<SElim>, s2: Seq<SElim>, j: int, lvl: usize, g: SGlobals, fuel: nat)
    requires
        0 <= j < s1.len(),
    ensures
        conv_spine_f(s1.take(j + 1), s2, lvl, g, fuel) == (conv_spine_f(s1.take(j), s2, lvl, g, fuel) && elim_pair_conv(s1[j], s2[j], lvl, g, fuel)),
{
    reveal(eval_f);
    reveal(app_f);
    reveal(closure_f);
    reveal(match_f);
    reveal(quote_f);
    reveal(quote_args_f);
    reveal(quote_neutral_f);
    reveal(quote_spine_f);
    reveal(quote_elim_f);
    reveal(quote_arms_f);
    reveal(quote_arm_f);
    reveal(conv_f);
    reveal(conv_args_f);
    reveal(conv_neutral_f);
    reveal(conv_spine_f);
    assert(s1.take(j + 1).drop_last() =~= s1.take(j));
    assert(s1.take(j + 1).last() == s1[j]);
}

proof fn lemma_conv_spine_fail(s1: Seq<SElim>, s2: Seq<SElim>, j: int, k: int, lvl: usize, g: SGlobals, fuel: nat)
    requires
        0 <= j < k <= s1.len(),
        !conv_spine_f(s1.take(j + 1), s2, lvl, g, fuel),
    ensures
        !conv_spine_f(s1.take(k), s2, lvl, g, fuel),
    decreases k - j,
{
    if k > j + 1 {
        lemma_conv_spine_fail(s1, s2, j, k - 1, lvl, g, fuel);
        lemma_conv_spine_step(s1, s2, k - 1, lvl, g, fuel);
    }
}

fn conv_spine_fuel(s1: &Vec<Elim>, s2: &Vec<Elim>, lvl: DbLevel, globals: &GlobalEnv, fuel: u64) -> (r: bool)
    requires
        s1@.len() == s2@.len(),
    ensures
        r == conv_spine_f(elims_view(s1@), elims_view(s2@), lvl, globals@, fuel as nat),
    decreases fuel, 1nat,
{
    let ghost e1 = elims_view(s1@);
    let ghost e2 = elims_view(s2@);
    let n = s1.len();
    proof {
        lemma_elims_view(s1@);
        lemma_elims_view(s2@);
        lemma_conv_spine_base(e2, lvl, globals@, fuel as nat);
        assert(e1.take(0) =~= Seq::<SElim>::empty());
    }
    for j in 0..n
        invariant
            n == s1@.len(),
            n == s2@.len(),
            e1 == elims_view(s1@),
            e2 == elims_view(s2@),
            e1.len() == n,
            e2.len() == n,
            forall|k: int| 0 <= k < n ==> #[trigger] e1[k] == elim_view(s1@[k]),
            forall|k: int| 0 <= k < n ==> #[trigger] e2[k] == elim_view(s2@[k]),
            conv_spine_f(e1.take(j as int), e2, lvl, globals@, fuel as nat),
    {
        let ok = match (&s1[j], &s2[j]) {
            (Elim::App(x), Elim::App(y)) => conv_fuel(x, y, lvl, globals, fuel),
            _ => false,
        };
        proof {
            lemma_conv_spine_step(e1, e2, j as int, lvl, globals@, fuel as nat);
        }
        if !ok {
            proof {
                lemma_conv_spine_fail(e1, e2, j as int, n as int, lvl, globals@, fuel as nat);
                assert(e1.take(n as int) =~= e1);
            }
            return false;
        }
    }
    proof {
        assert(e1.take(n as int) =~= e1);
    }
    true
}


/// The name that stands for a result that exceeded the depth budget.
pub open spec fn depth_exceeded_name() -> Seq<char> {
    "error:evaluation-depth-exceeded"@
}

/// What `eval` returns: the value of `t`, or a stuck marker if the depth budget ran out.
pub open spec fn eval_value(t: STerm, env: Seq<SValue>, g: SGlobals) -> SValue {
    match eval_f(t, env, g, EVAL_FUEL as nat) {
        Some(v) => v,
        None => neutral_value(SHead::Global(depth_exceeded_name())),
    }
}

pub open spec fn app_value(f: SValue, arg: SValue, g: SGlobals) -> SValue {
    match app_f(f, arg, g, EVAL_FUEL as nat) {
        Some(v) => v,
        None => neutral_value(SHead::Global(depth_exceeded_name())),
    }
}

pub open spec fn closure_value(c: SClosure, arg: SValue, g: SGlobals) -> SValue {
    match closure_f(c, arg, g, EVAL_FUEL as nat) {
        Some(v) => v,
        None => neutral_value(SHead::Global(depth_exceeded_name())),
    }
}

/// What `quote` returns: the read-back of `v` at level `lvl`, or a marker global.
pub open spec fn quote_term(v: SValue, lvl: usize, g: SGlobals) -> STerm {
    match quote_f(v, lvl, g, EVAL_FUEL as nat) {
        Some(t) => t,
        None => STerm::Global(depth_exceeded_name()),
    }
}

/// What `normalize` returns: read back the value of `t` at the depth of `env`.
pub open spec fn normal_form(t: STerm, env: Seq<SValue>, g: SGlobals) -> STerm {
    quote_term(eval_value(t, env, g), env.len() as usize, g)
}

/// What `conv_check` returns.
pub open spec fn convertible(v1: SValue, v2: SValue, lvl: usize, g: SGlobals) -> bool {
    conv_f(v1, v2, lvl, g, EVAL_FUEL as nat)
}

fn depth_exceeded() -> (r: Value)
    ensures
        r@ == neutral_value(SHead::Global(depth_exceeded_name())),
{
    Value::global("error:evaluation-depth-exceeded".to_string())
}

/// Evaluate a term to a value in the given environment.
pub fn eval(term: &Term, env: &Env, globals: &GlobalEnv) -> (r: Value)
    ensures
        r@ == eval_value(term@, values_view(env@), globals@),
{
    match eval_fuel(term, env, globals, EVAL_FUEL) {
        Some(v) => v,
        None => depth_exceeded(),
    }
}

/// Apply a function value to an argument.
pub fn do_app(f: Value, arg: Value, globals: &GlobalEnv) -> (r: Value)
    ensures
        r@ == app_value(f@, arg@, globals@),
{
    match do_app_fuel(f, arg, globals, EVAL_FUEL) {
        Some(v) => v,
        None => depth_exceeded(),
    }
}

/// Evaluate a closure with a given argument.
pub fn eval_closure(closure: &Closure, arg: Value, globals: &GlobalEnv) -> (r: Value)
    ensures
        r@ == closure_value(closure@, arg@, globals@),
{
    match eval_closure_fuel(closure, arg, globals, EVAL_FUEL) {
        Some(v) => v,
        None => depth_exceeded(),
    }
}

/// Read back a value to a term at a given level.
pub fn quote(val: &Value, lvl: DbLevel, globals: &GlobalEnv) -> (r: Term)
    ensures
        r@ == quote_term(val@, lvl, globals@),
{
    match quote_fuel(val, lvl, globals, EVAL_FUEL) {
        Some(t) => t,
        None => Term::Global("error:evaluation-depth-exceeded".to_string()),
    }
}

/// Normalize a term fully.
pub fn normalize(term: &Term, env: &Env, globals: &GlobalEnv) -> (r: Term)
    ensures
        r@ == normal_form(term@, values_view(env@), globals@),
{
    let val = eval(term, env, globals);
    let lvl = env.len();
    proof {
        lemma_values_view(env@);
    }
    quote(&val, lvl, globals)
}

/// Check whether two values are definitionally equal.
pub fn conv_check(v1: &Value, v2: &Value, lvl: DbLevel, globals: &GlobalEnv) -> (r: bool)
    ensures
        r == convertible(v1@, v2@, lvl, globals@),
{
    conv_fuel(v1, v2, lvl, globals, EVAL_FUEL)
}

}

verus! {

/// Definitional equality is symmetric, at every depth budget.
pub proof fn lemma_conv_symmetric(v1: SValue, v2: SValue, lvl: usize, g: SGlobals, fuel: nat)
    ensures
        conv_f(v1, v2, lvl, g, fuel) == conv_f(v2, v1, lvl, g, fuel),
    decreases fuel, 0nat,
{
    reveal(conv_f);
    reveal(conv_args_f);
    reveal(conv_neutral_f);
    reveal(conv_spine_f);
    if fuel > 0 {
        let f = (fuel - 1) as nat;
        let x = neutral_value(SHead::Var(lvl));
        let next = lvl.wrapping_add(1);
        match (v1, v2) {
            (SValue::Pi(_, a1, b1), SValue::Pi(_, a2, b2)) => {
                lemma_conv_symmetric(*a1, *a2, lvl, g, f);
                match (closure_f(b1, x, g, f), closure_f(b2, x, g, f)) {
                    (Some(r1), Some(r2)) => lemma_conv_symmetric(r1, r2, next, g, f),
                    _ => {},
                }
            },
            (SValue::Lam(_, _, b1), SValue::Lam(_, _, b2)) => {
                match (closure_f(b1, x, g, f), closure_f(b2, x, g, f)) {
                    (Some(r1), Some(r2)) => lemma_conv_symmetric(r1, r2, next, g, f),
                    _ => {},
                }
            },
            (SValue::Constructor(_, _, a1), SValue::Constructor(_, _, a2)) => {
                if a1.len() == a2.len() {
                    lemma_conv_args_symmetric(a1, a2, lvl, g, f);
                }
            },
            (SValue::Neutral(n1), SValue::Neutral(n2)) => {
                lemma_conv_neutral_symmetric(n1, n2, lvl, g, f);
            },
            _ => {},
        }
    }
}

proof fn lemma_conv_args_prefix(a: Seq<SValue>, b: Seq<SValue>, lvl: usize, g: SGlobals, fuel: nat)
    requires
        b.len() >= a.len(),
    ensures
        conv_args_f(a, b, lvl, g, fuel) == conv_args_f(a, b.subrange(0, a.len() as int), lvl, g, fuel),
    decreases a.len(),
{
    reveal(conv_f);
    reveal(conv_args_f);
    reveal(conv_neutral_f);
    reveal(conv_f);
    reveal(conv_args_f);
    reveal(conv_neutral_f);
    reveal(conv_spine_f);
    if a.len() > 0 {
        let p = a.drop_last();
        lemma_conv_args_prefix(p, b, lvl, g, fuel);
        let bt = b.subrange(0, a.len() as int);
        lemma_conv_args_prefix(p, bt, lvl, g, fuel);
        assert(bt.subrange(0, p.len() as int) =~= b.subrange(0, p.len() as int));
    }
}

proof fn lemma_conv_args_symmetric(a1: Seq<SValue>, a2: Seq<SValue>, lvl: usize, g: SGlobals, fuel: nat)
    requires
        a1.len() == a2.len(),
    ensures
        conv_args_f(a1, a2, lvl, g, fuel) == conv_args_f(a2, a1, lvl, g, fuel),
    decreases fuel, a1.len() + 1,
{
    reveal(conv_f);
    reveal(conv_args_f);
    reveal(conv_neutral_f);
    reveal(conv_spine_f);
    if a1.len() > 0 {
        let p1 = a1.drop_last();
        let p2 = a2.drop_last();
        lemma_conv_args_prefix(p1, a2, lvl, g, fuel);
        lemma_conv_args_prefix(p2, a1, lvl, g, fuel);
        assert(a2.subrange(0, p1.len() as int) =~= p2);
        assert(a1.subrange(0, p2.len() as int) =~= p1);
        lemma_conv_args_symmetric(p1, p2, lvl, g, fuel);
        lemma_conv_symmetric(a1.last(), a2.last(), lvl, g, fuel);
    }
}

proof fn lemma_conv_neutral_symmetric(n1: SNeutral, n2: SNeutral, lvl: usize, g: SGlobals, fuel: nat)
    ensures
        conv_neutral_f(n1, n2, lvl, g, fuel) == conv_neutral_f(n2, n1, lvl, g, fuel),
    decreases fuel, 0nat,
{
    reveal(conv_f);
    reveal(conv_args_f);
    reveal(conv_neutral_f);
    reveal(conv_spine_f);
    if fuel > 0 && n1.spine.len() == n2.spine.len() {
        lemma_conv_spine_symmetric(n1.spine, n2.spine, lvl, g, (fuel - 1) as nat);
    }
}

proof fn lemma_conv_spine_prefix(a: Seq<SElim>, b: Seq<SElim>, lvl: usize, g: SGlobals, fuel: nat)
    requires
        b.len() >= a.len(),
    ensures
        conv_spine_f(a, b, lvl, g, fuel) == conv_spine_f(a, b.subrange(0, a.len() as int), lvl, g, fuel),
    decreases a.len(),
{
    reveal(conv_f);
    reveal(conv_args_f);
    reveal(conv_neutral_f);
    reveal(conv_spine_f);
    if a.len() > 0 {
        let p = a.drop_last();
        lemma_conv_spine_prefix(p, b, lvl, g, fuel);
        let bt = b.subrange(0, a.len() as int);
        lemma_conv_spine_prefix(p, bt, lvl, g, fuel);
        assert(bt.subrange(0, p.len() as int) =~= b.subrange(0, p.len() as int));
    }
}

proof fn lemma_conv_spine_symmetric(s1: Seq<SElim>, s2: Seq<SElim>, lvl: usize, g: SGlobals, fuel: nat)
    requires
        s1.len() == s2.len(),
    ensures
        conv_spine_f(s1, s2, lvl, g, fuel) == conv_spine_f(s2, s1, lvl, g, fuel),
    decreases fuel, s1.len() + 1,
{
    reveal(conv_f);
    reveal(conv_args_f);
    reveal(conv_neutral_f);
    reveal(conv_spine_f);
    if s1.len() > 0 {
        let p1 = s1.drop_last();
        let p2 = s2.drop_last();
        lemma_conv_spine_prefix(p1, s2, lvl, g, fuel);
        lemma_conv_spine_prefix(p2, s1, lvl, g, fuel);
        assert(s2.subrange(0, p1.len() as int) =~= p2);
        assert(s1.subrange(0, p2.len() as int) =~= p1);
        lemma_conv_spine_symmetric(p1, p2, lvl, g, fuel);
        match (s1.last(), s2.last()) {
            (SElim::App(x), SElim::App(y)) => lemma_conv_symmetric(x, y, lvl, g, fuel),
            _ => {},
        }
    }
}

/// `conv_check` is symmetric.
pub proof fn lemma_convertible_symmetric(v1: SValue, v2: SValue, lvl: usize, g: SGlobals)
    ensures
        convertible(v1, v2, lvl, g) == convertible(v2, v1, lvl, g),
{
    lemma_conv_symmetric(v1, v2, lvl, g, EVAL_FUEL as nat);
}

}

verus! {

/// Beta reduction: an applied lambda evaluates to its body in the environment
/// extended by the argument's value. The budget the body gets is three steps
/// less than the application's (one for the application, one for the lambda,
/// one for entering its closure); the lambda's domain must evaluate within its
/// own share.
pub proof fn lemma_eval_beta(x: Seq<char>, dom: STerm, body: STerm, arg: STerm, env: Seq<SValue>, g: SGlobals, fuel: nat, argv: SValue)
    requires
        fuel >= 3,
        eval_f(dom, env, g, (fuel - 2) as nat) is Some,
        eval_f(arg, env, g, (fuel - 1) as nat) == Some(argv),
    ensures
        eval_f(STerm::App(Box::new(STerm::Lam(x, Box::new(dom), Box::new(body))), Box::new(arg)), env, g, fuel)
            == eval_f(body, env.push(argv), g, (fuel - 3) as nat),
{
    reveal(eval_f);
    reveal(app_f);
    reveal(closure_f);
    reveal(match_f);
    let f = (fuel - 1) as nat;
    let av = eval_f(dom, env, g, (f - 1) as nat)->0;
    let c = SClosure { env, body };
    let lamv = SValue::Lam(x, Box::new(av), c);
    assert(eval_f(STerm::Lam(x, Box::new(dom), Box::new(body)), env, g, f) == Some(lamv));
    assert(app_f(lamv, argv, g, f) == closure_f(c, argv, g, (f - 1) as nat));
    assert(closure_f(c, argv, g, (f - 1) as nat) == eval_f(body, env.push(argv), g, (fuel - 3) as nat));
}

/// A `let` evaluates its body in the environment extended by the bound value,
/// with one step less of budget.
pub proof fn lemma_eval_let(x: Seq<char>, ty: STerm, val: STerm, body: STerm, env: Seq<SValue>, g: SGlobals, fuel: nat, v: SValue)
    requires
        fuel >= 1,
        eval_f(val, env, g, (fuel - 1) as nat) == Some(v),
    ensures
        eval_f(STerm::Let(x, Box::new(ty), Box::new(val), Box::new(body)), env, g, fuel)
            == eval_f(body, env.push(v), g, (fuel - 1) as nat),
{
    reveal(eval_f);
    reveal(app_f);
    reveal(closure_f);
    reveal(match_f);
}

}

verus! {

/// More budget never changes a finished evaluation.
pub proof fn lemma_eval_budget_mono(t: STerm, env: Seq<SValue>, g: SGlobals, f1: nat, f2: nat)
    requires
        f1 <= f2,
        eval_f(t, env, g, f1) is Some,
    ensures
        eval_f(t, env, g, f2) == eval_f(t, env, g, f1),
    decreases f1, 0nat,
{
    reveal(eval_f);
    reveal(app_f);
    reveal(closure_f);
    reveal(match_f);
    let p1 = (f1 - 1) as nat;
    let p2 = (f2 - 1) as nat;
    match t {
        STerm::Global(name) => {
            if g.defs.contains_key(name) {
                if let SDefinition::Def { body, .. } = g.defs[name] {
                    lemma_eval_budget_mono(body, Seq::empty(), g, p1, p2);
                }
            }
        },
        STerm::Pi(_, a, _) => lemma_eval_budget_mono(*a, env, g, p1, p2),
        STerm::Lam(_, a, _) => lemma_eval_budget_mono(*a, env, g, p1, p2),
        STerm::App(fx, x) => {
            lemma_eval_budget_mono(*fx, env, g, p1, p2);
            lemma_eval_budget_mono(*x, env, g, p1, p2);
            let fv = eval_f(*fx, env, g, p1)->0;
            let xv = eval_f(*x, env, g, p1)->0;
            lemma_app_budget_mono(fv, xv, g, p1, p2);
        },
        STerm::Let(_, _, v, b) => {
            lemma_eval_budget_mono(*v, env, g, p1, p2);
            let vv = eval_f(*v, env, g, p1)->0;
            lemma_eval_budget_mono(*b, env.push(vv), g, p1, p2);
        },
        STerm::Match { scrutinee, motive, arms } => {
            lemma_eval_budget_mono(*scrutinee, env, g, p1, p2);
            let sv = eval_f(*scrutinee, env, g, p1)->0;
            match motive {
                Some(m) => {
                    lemma_eval_budget_mono(*m, env, g, p1, p2);
                    let mv = eval_f(*m, env, g, p1)->0;
                    lemma_match_budget_mono(sv, Some(mv), arm_closures(arms, env), g, p1, p2);
                },
                None => lemma_match_budget_mono(sv, None, arm_closures(arms, env), g, p1, p2),
            }
        },
        STerm::If(c, x, y) => {
            lemma_eval_budget_mono(*c, env, g, p1, p2);
            lemma_eval_budget_mono(*x, env, g, p1, p2);
            lemma_eval_budget_mono(*y, env, g, p1, p2);
        },
        STerm::Ann(e, _) => lemma_eval_budget_mono(*e, env, g, p1, p2),
        _ => {},
    }
}

/// More budget never changes a finished application.
pub proof fn lemma_app_budget_mono(fv: SValue, arg: SValue, g: SGlobals, f1: nat, f2: nat)
    requires
        f1 <= f2,
        app_f(fv, arg, g, f1) is Some,
    ensures
        app_f(fv, arg, g, f2) == app_f(fv, arg, g, f1),
    decreases f1, 0nat,
{
    reveal(eval_f);
    reveal(app_f);
    reveal(closure_f);
    reveal(match_f);
    if let SValue::Lam(_, _, c) = fv {
        lemma_closure_budget_mono(c, arg, g, (f1 - 1) as nat, (f2 - 1) as nat);
    }
}

/// More budget never changes a finished closure evaluation.
pub proof fn lemma_closure_budget_mono(c: SClosure, arg: SValue, g: SGlobals, f1: nat, f2: nat)
    requires
        f1 <= f2,
        closure_f(c, arg, g, f1) is Some,
    ensures
        closure_f(c, arg, g, f2) == closure_f(c, arg, g, f1),
    decreases f1, 0nat,
{
    reveal(eval_f);
    reveal(app_f);
    reveal(closure_f);
    reveal(match_f);
    lemma_eval_budget_mono(c.body, c.env.push(arg), g, (f1 - 1) as nat, (f2 - 1) as nat);
}

/// More budget never changes a finished match.
pub proof fn lemma_match_budget_mono(
    sv: SValue,
    motive: Option<SValue>,
    arms: Seq<(Seq<char>, usize, SClosure)>,
    g: SGlobals,
    f1: nat,
    f2: nat,
)
    requires
        f1 <= f2,
        match_f(sv, motive, arms, g, f1) is Some,
    ensures
        match_f(sv, motive, arms, g, f2) == match_f(sv, motive, arms, g, f1),
    decreases f1, 0nat,
{
    reveal(eval_f);
    reveal(app_f);
    reveal(closure_f);
    reveal(match_f);
    let p1 = (f1 - 1) as nat;
    let p2 = (f2 - 1) as nat;
    match sv {
        SValue::Constructor(_, ctor, args) => {
            if let Some(i) = first_arm(arms, ctor, ctor, 0) {
                if arms[i].0 == wildcard_name() {
                    lemma_eval_budget_mono(arms[i].2.body, arms[i].2.env, g, p1, p2);
                } else {
                    lemma_eval_budget_mono(arms[i].2.body, arms[i].2.env + args, g, p1, p2);
                }
            }
        },
        SValue::Nat(n) => {
            if n == 0 {
                if let Some(i) = first_arm(arms, "zero"@, "Nat.zero"@, 0) {
                    lemma_eval_budget_mono(arms[i].2.body, arms[i].2.env, g, p1, p2);
                }
            } else {
                if let Some(i) = first_arm(arms, "succ"@, "Nat.succ"@, 0) {
                    if arms[i].0 == wildcard_name() {
                        lemma_eval_budget_mono(arms[i].2.body, arms[i].2.env, g, p1, p2);
                    } else {
                        lemma_eval_budget_mono(arms[i].2.body, arms[i].2.env.push(SValue::Nat((n - 1) as u64)), g, p1, p2);
                    }
                }
            }
        },
        SValue::BoolLit(b) => {
            let found = if b { first_arm(arms, "true"@, "Bool.true"@, 0) } else { first_arm(arms, "false"@, "Bool.false"@, 0) };
            if let Some(i) = found {
                lemma_eval_budget_mono(arms[i].2.body, arms[i].2.env, g, p1, p2);
            }
        },
        _ => {},
    }
}

}

verus! {

/// Beta reduction: when evaluating an applied lambda finishes, its value is
/// the value of the body in the environment extended by the argument's value.
pub proof fn lemma_eval_value_beta(x: Seq<char>, dom: STerm, body: STerm, arg: STerm, env: Seq<SValue>, g: SGlobals)
    requires
        eval_f(STerm::App(Box::new(STerm::Lam(x, Box::new(dom), Box::new(body))), Box::new(arg)), env, g, EVAL_FUEL as nat) is Some,
    ensures
        eval_value(STerm::App(Box::new(STerm::Lam(x, Box::new(dom), Box::new(body))), Box::new(arg)), env, g)
            == eval_value(body, env.push(eval_value(arg, env, g)), g),
{
    let fuel = EVAL_FUEL as nat;
    let lam = STerm::Lam(x, Box::new(dom), Box::new(body));
    let t = STerm::App(Box::new(lam), Box::new(arg));
    reveal(eval_f);
    reveal(app_f);
    reveal(closure_f);
    reveal(match_f);
    assert(eval_f(lam, env, g, (fuel - 1) as nat) is Some);
    assert(eval_f(dom, env, g, (fuel - 2) as nat) is Some);
    assert(eval_f(arg, env, g, (fuel - 1) as nat) is Some);
    let argv = eval_f(arg, env, g, (fuel - 1) as nat)->0;
    lemma_eval_beta(x, dom, body, arg, env, g, fuel, argv);
    lemma_eval_budget_mono(arg, env, g, (fuel - 1) as nat, fuel);
    lemma_eval_budget_mono(body, env.push(argv), g, (fuel - 3) as nat, fuel);
}

/// When evaluating a `let` finishes, its value is the value of the body in the
/// environment extended by the bound value.
pub proof fn lemma_eval_value_let(x: Seq<char>, ty: STerm, val: STerm, body: STerm, env: Seq<SValue>, g: SGlobals)
    requires
        eval_f(STerm::Let(x, Box::new(ty), Box::new(val), Box::new(body)), env, g, EVAL_FUEL as nat) is Some,
    ensures
        eval_value(STerm::Let(x, Box::new(ty), Box::new(val), Box::new(body)), env, g)
            == eval_value(body, env.push(eval_value(val, env, g)), g),
{
    let fuel = EVAL_FUEL as nat;
    reveal(eval_f);
    reveal(app_f);
    reveal(closure_f);
    reveal(match_f);
    assert(eval_f(val, env, g, (fuel - 1) as nat) is Some);
    let v = eval_f(val, env, g, (fuel - 1) as nat)->0;
    lemma_eval_let(x, ty, val, body, env, g, fuel, v);
    lemma_eval_budget_mono(val, env, g, (fuel - 1) as nat, fuel);
    lemma_eval_budget_mono(body, env.push(v), g, (fuel - 1) as nat, fuel);
}

}

verus! {

/// Two function types are convertible only if their domains are: whatever the
/// codomains, `conv(Π(x : A1). B1, Π(y : A2). B2)` implies `conv(A1, A2)` with
/// the budget that is left after one step.
pub proof fn lemma_conv_pi_domains(
    x: Seq<char>,
    a1: SValue,
    b1: SClosure,
    y: Seq<char>,
    a2: SValue,
    b2: SClosure,
    lvl: usize,
    g: SGlobals,
    fuel: nat,
)
    requires
        conv_f(SValue::Pi(x, Box::new(a1), b1), SValue::Pi(y, Box::new(a2), b2), lvl, g, fuel),
    ensures
        fuel > 0,
        conv_f(a1, a2, lvl, g, (fuel - 1) as nat),
{
    reveal(conv_f);
    reveal(conv_args_f);
    reveal(conv_neutral_f);
    reveal(conv_spine_f);
}

/// `conv_check` on two function types: they are convertible only if their
/// domains are convertible.
pub proof fn lemma_convertible_pi_domains(
    x: Seq<char>,
    a1: SValue,
    b1: SClosure,
    y: Seq<char>,
    a2: SValue,
    b2: SClosure,
    lvl: usize,
    g: SGlobals,
)
    requires
        convertible(SValue::Pi(x, Box::new(a1), b1), SValue::Pi(y, Box::new(a2), b2), lvl, g),
    ensures
        conv_f(a1, a2, lvl, g, (EVAL_FUEL - 1) as nat),
{
    lemma_conv_pi_domains(x, a1, b1, y, a2, b2, lvl, g, EVAL_FUEL as nat);
}

/// Two stuck terms are convertible only if they have the same head and the
/// same number of eliminators: different type constants (such as `Nat` and
/// `Bool`) are never convertible.
pub proof fn lemma_conv_neutral_heads(n1: SNeutral, n2: SNeutral, lvl: usize, g: SGlobals, fuel: nat)
    requires
        conv_f(SValue::Neutral(n1), SValue::Neutral(n2), lvl, g, fuel),
    ensures
        n1.head == n2.head,
        n1.spine.len() == n2.spine.len(),
{
    reveal(conv_f);
    reveal(conv_args_f);
    reveal(conv_neutral_f);
    reveal(conv_spine_f);
    assert(fuel > 0);
    let f = (fuel - 1) as nat;
    assert(conv_neutral_f(n1, n2, lvl, g, f));
    assert(f > 0);
    assert(heads_equal(n1.head, n2.head));
    match (n1.head, n2.head) {
        (SHead::Var(_), SHead::Var(_)) => {},
        (SHead::Global(_), SHead::Global(_)) => {},
        (SHead::Meta(_), SHead::Meta(_)) => {},
        _ => {},
    }
}

/// If-then-else on a literal condition takes the matching branch: when the
/// evaluation finishes, `if true then t else e` has the value of `t`, and
/// `if false then t else e` the value of `e`, with one step less of budget.
pub proof fn lemma_eval_if_literal(b: bool, t: STerm, e: STerm, env: Seq<SValue>, g: SGlobals, fuel: nat)
    requires
        eval_f(STerm::If(Box::new(STerm::BoolLit(b)), Box::new(t), Box::new(e)), env, g, fuel) is Some,
    ensures
        eval_f(STerm::If(Box::new(STerm::BoolLit(b)), Box::new(t), Box::new(e)), env, g, fuel)
            == eval_f(if b { t } else { e }, env, g, (fuel - 1) as nat),
{
    reveal(eval_f);
    reveal(app_f);
    reveal(closure_f);
    reveal(match_f);
    let f = (fuel - 1) as nat;
    assert(fuel > 0);
    assert(eval_f(STerm::BoolLit(b), env, g, f) == Some(SValue::BoolLit(b)));
    assert(eval_f(t, env, g, f) is Some);
    assert(eval_f(e, env, g, f) is Some);
    let xv = eval_f(t, env, g, f)->0;
    let yv = eval_f(e, env, g, f)->0;
    assert(if_value(SValue::BoolLit(b), xv, yv) == if b { xv } else { yv });
}

/// If-then-else on a literal condition, without a budget: when the evaluation
/// finishes, `if true then t else e` evaluates as `t` does and `if false then t
/// else e` as `e` does.
pub proof fn lemma_eval_value_if_literal(b: bool, t: STerm, e: STerm, env: Seq<SValue>, g: SGlobals)
    requires
        eval_f(STerm::If(Box::new(STerm::BoolLit(b)), Box::new(t), Box::new(e)), env, g, EVAL_FUEL as nat) is Some,
    ensures
        eval_value(STerm::If(Box::new(STerm::BoolLit(b)), Box::new(t), Box::new(e)), env, g)
            == eval_value(if b { t } else { e }, env, g),
{
    let fuel = EVAL_FUEL as nat;
    reveal(eval_f);
    reveal(app_f);
    reveal(closure_f);
    reveal(match_f);
    lemma_eval_if_literal(b, t, e, env, g, fuel);
    let chosen = if b { t } else { e };
    assert(eval_f(chosen, env, g, (fuel - 1) as nat) is Some);
    lemma_eval_budget_mono(chosen, env, g, (fuel - 1) as nat, fuel);
}


/// Pairwise conversion of arguments relates each argument to the one at the
/// same position.
proof fn lemma_conv_args_pointwise(a1: Seq<SValue>, a2: Seq<SValue>, lvl: usize, g: SGlobals, fuel: nat)
    requires
        conv_args_f(a1, a2, lvl, g, fuel),
    ensures
        forall|k: int| 0 <= k < a1.len() ==> conv_f(#[trigger] a1[k], a2[k], lvl, g, fuel),
    decreases a1.len(),
{
    reveal(conv_f);
    reveal(conv_args_f);
    reveal(conv_neutral_f);
    reveal(conv_spine_f);
    if a1.len() > 0 {
        lemma_conv_args_pointwise(a1.drop_last(), a2, lvl, g, fuel);
        assert forall|k: int| 0 <= k < a1.len() implies conv_f(#[trigger] a1[k], a2[k], lvl, g, fuel) by {
            if k < a1.len() - 1 {
                assert(a1.drop_last()[k] == a1[k]);
            }
        }
    }
}

/// What convertibility says of two values that are not functions: universes,
/// numbers and booleans are convertible only if equal; function types only if
/// their domains are and their codomains are at a fresh variable; constructor
/// applications only if they name the same constructor of the same type and
/// their arguments are pairwise convertible; stuck terms only if they have the
/// same head and as many eliminators; values of different kinds never.
pub proof fn lemma_conv_structure(v1: SValue, v2: SValue, lvl: usize, g: SGlobals, fuel: nat)
    requires
        conv_f(v1, v2, lvl, g, fuel),
        !(v1 is Lam),
        !(v2 is Lam),
    ensures
        fuel > 0,
        match (v1, v2) {
            (SValue::Sort(u1), SValue::Sort(u2)) => u1 == u2,
            (SValue::Nat(n1), SValue::Nat(n2)) => n1 == n2,
            (SValue::BoolLit(b1), SValue::BoolLit(b2)) => b1 == b2,
            (SValue::Pi(_, a1, b1), SValue::Pi(_, a2, b2)) => {
                let f = (fuel - 1) as nat;
                let x = neutral_value(SHead::Var(lvl));
                conv_f(*a1, *a2, lvl, g, f) && closure_f(b1, x, g, f) is Some && closure_f(b2, x, g, f) is Some
                    && conv_f(closure_f(b1, x, g, f)->Some_0, closure_f(b2, x, g, f)->Some_0, lvl.wrapping_add(1), g, f)
            },
            (SValue::Constructor(i1, c1, a1), SValue::Constructor(i2, c2, a2)) => i1 == i2 && c1 == c2 && a1.len() == a2.len()
                && forall|k: int| 0 <= k < a1.len() ==> conv_f(#[trigger] a1[k], a2[k], lvl, g, (fuel - 1) as nat),
            (SValue::Neutral(n1), SValue::Neutral(n2)) => n1.head == n2.head && n1.spine.len() == n2.spine.len(),
            _ => false,
        },
{
    reveal(conv_f);
    reveal(conv_args_f);
    reveal(conv_neutral_f);
    reveal(conv_spine_f);
    assert(fuel > 0);
    match (v1, v2) {
        (SValue::Constructor(i1, c1, a1), SValue::Constructor(i2, c2, a2)) => {
            lemma_conv_args_pointwise(a1, a2, lvl, g, (fuel - 1) as nat);
        },
        (SValue::Neutral(n1), SValue::Neutral(n2)) => {
            lemma_conv_neutral_heads(n1, n2, lvl, g, fuel);
        },
        _ => {},
    }
}


/// If-then-else decides by the value of its condition: a condition that
/// evaluates to a boolean selects the matching branch, and one that is stuck
/// leaves the conditional stuck with both branches evaluated.
pub proof fn lemma_eval_if_condition(c: STerm, t: STerm, e: STerm, env: Seq<SValue>, g: SGlobals, fuel: nat)
    requires
        eval_f(STerm::If(Box::new(c), Box::new(t), Box::new(e)), env, g, fuel) is Some,
    ensures
        fuel > 0,
        eval_f(c, env, g, (fuel - 1) as nat) is Some,
        eval_f(c, env, g, (fuel - 1) as nat)->Some_0 is BoolLit ==> eval_f(STerm::If(Box::new(c), Box::new(t), Box::new(e)), env, g, fuel)
            == eval_f(if eval_f(c, env, g, (fuel - 1) as nat)->Some_0->BoolLit_0 { t } else { e }, env, g, (fuel - 1) as nat),
        eval_f(c, env, g, (fuel - 1) as nat)->Some_0 is Neutral ==> eval_f(STerm::If(Box::new(c), Box::new(t), Box::new(e)), env, g, fuel)
            == Some(push_elim(
                eval_f(c, env, g, (fuel - 1) as nat)->Some_0->Neutral_0,
                SElim::If(eval_f(t, env, g, (fuel - 1) as nat)->Some_0, eval_f(e, env, g, (fuel - 1) as nat)->Some_0),
            )),
{
    reveal(eval_f);
    reveal(app_f);
    reveal(closure_f);
    reveal(match_f);
    let f = (fuel - 1) as nat;
    assert(fuel > 0);
    assert(eval_f(c, env, g, f) is Some);
    assert(eval_f(t, env, g, f) is Some);
    assert(eval_f(e, env, g, f) is Some);
}

}
