//! Tactic engine: runs proof tactics on goals to build proof terms.
use vstd::prelude::*;
use crate::ast::{Tactic, ProofBody, Expr};
use crate::term::{Term, Value, NeutralHead, Elim, Name, STerm, SValue, SHead, SElim, neutral_value, values_view};
use crate::env::{GlobalEnv, SGlobals, SCtorDef};
use crate::eval::{eval, eval_closure, quote, conv_check, eval_value, closure_value, quote_term, convertible, normalize, normal_form};
use crate::elaborate::{LocalCtx, elaborate_expr, elab_f, names_view};
use crate::show::{term_text, write_term};
use crate::text::{push_str, push_decimal, decimal, str_eq};

verus! {

/// A proof goal.
#[derive(Debug)]
pub struct Goal {
    /// Hypotheses: name, type as a term, type as a value.
    pub hyps: Vec<(Name, Term, Value)>,
    /// The type to inhabit.
    pub target: Value,
    /// The target as a term, for display.
    pub target_term: Term,
    /// The number of variables in scope.
    pub level: usize,
}

pub type SHyp = (Seq<char>, STerm, SValue);

pub struct SGoal {
    pub hyps: Seq<SHyp>,
    pub target: SValue,
    pub target_term: STerm,
    pub level: usize,
}

pub open spec fn hyps_view(hs: Seq<(Name, Term, Value)>) -> Seq<SHyp> {
    hs.map_values(|h: (Name, Term, Value)| (h.0@, h.1@, h.2@))
}

impl View for Goal {
    type V = SGoal;

    open spec fn view(&self) -> SGoal {
        SGoal { hyps: hyps_view(self.hyps@), target: self.target@, target_term: self.target_term@, level: self.level }
    }
}

/// The names of the hypotheses, in order.
pub open spec fn hyp_names(hs: Seq<SHyp>) -> Seq<Seq<char>> {
    hs.map_values(|h: SHyp| h.0)
}

/// The hypotheses, one per line, then the target.
pub open spec fn hyps_text(hs: Seq<SHyp>) -> Seq<char>
    decreases hs.len(),
{
    if hs.len() == 0 {
        Seq::empty()
    } else {
        hyps_text(hs.drop_last()) + "  "@ + hs.last().0 + " : "@ + term_text(hs.last().1) + "\n"@
    }
}

pub open spec fn goal_text(g: SGoal) -> Seq<char> {
    hyps_text(g.hyps) + "  ⊢ "@ + term_text(g.target_term)
}

/// What a tactic leaves: a finished proof term, or new goals whose first proof
/// proves the goal.
pub enum Combiner {
    /// The proof of the first sub-goal proves the goal.
    First,
}

impl Combiner {
    /// Combine the proofs of the sub-goals into a proof of the goal.
    pub fn apply(&self, terms: &Vec<Term>) -> (r: Term)
        requires
            terms@.len() > 0,
        ensures
            r@ == terms@[0]@,
    {
        terms[0].clone()
    }
}

/// The result of executing a tactic.
pub enum TacticResult {
    Complete(Term),
    SubGoals { goals: Vec<Goal>, combine: Combiner },
}

pub enum STacticResult {
    Complete(STerm),
    SubGoals(Seq<SGoal>),
}

pub open spec fn goals_view(gs: Seq<Goal>) -> Seq<SGoal> {
    gs.map_values(|g: Goal| g@)
}

impl View for TacticResult {
    type V = STacticResult;

    open spec fn view(&self) -> STacticResult {
        match self {
            TacticResult::Complete(t) => STacticResult::Complete(t@),
            TacticResult::SubGoals { goals, .. } => STacticResult::SubGoals(goals_view(goals@)),
        }
    }
}

pub open spec fn sorry_term() -> STerm {
    STerm::Global("sorry"@)
}

pub open spec fn refl_term() -> STerm {
    STerm::Global("Eq.refl"@)
}

/// Names joined by single spaces.
pub open spec fn join_spaced(ns: Seq<Seq<char>>) -> Seq<char>
    decreases ns.len(),
{
    if ns.len() == 0 {
        Seq::empty()
    } else if ns.len() == 1 {
        ns[0]
    } else {
        join_spaced(ns.drop_last()) + " "@ + ns.last()
    }
}

/// The short text by which a tactic is named in messages.
pub open spec fn tactic_text(t: Tactic) -> Seq<char> {
    match t {
        Tactic::Intro(names) => "intro "@ + join_spaced(names_view(names@)),
        Tactic::Apply(_) => "apply ..."@,
        Tactic::Exact(_) => "exact ..."@,
        Tactic::Refl => "refl"@,
        Tactic::Rewrite(_) => "rewrite [...]"@,
        Tactic::Cases(_) => "cases ..."@,
        Tactic::Induction(_) => "induction ..."@,
        Tactic::Simp => "simp"@,
        Tactic::Assumption => "assumption"@,
        Tactic::ConstructorTac => "constructor"@,
        Tactic::Left => "left"@,
        Tactic::Right => "right"@,
        Tactic::Trivial => "trivial"@,
        Tactic::Sorry => "sorry"@,
        Tactic::Have(n, _, _) => "have "@ + n@ + " ..."@,
        Tactic::Show(_) => "show ..."@,
        Tactic::Ring => "ring"@,
    }
}

/// One `intro` step on a goal whose `target` holds the current target.
pub open spec fn intro_step(g: SGoal, name: Seq<char>, gl: SGlobals) -> Result<SGoal, Seq<char>> {
    match g.target {
        SValue::Pi(_, param_ty, ret) => Ok(SGoal {
            hyps: g.hyps.push((name, quote_term(*param_ty, g.level, gl), *param_ty)),
            target: closure_value(ret, neutral_value(SHead::Var(g.level)), gl),
            target_term: g.target_term,
            level: g.level.wrapping_add(1),
        }),
        _ => Err(
            "Cannot intro '"@ + name + "': target is not a function/forall type. Target: "@ + term_text(
                quote_term(g.target, g.level, gl),
            ),
        ),
    }
}

/// `intro` over a list of names, in order.
pub open spec fn intro_names(names: Seq<Seq<char>>, g: SGoal, gl: SGlobals) -> Result<SGoal, Seq<char>>
    decreases names.len(),
{
    if names.len() == 0 {
        Ok(g)
    } else {
        match intro_names(names.drop_last(), g, gl) {
            Err(e) => Err(e),
            Ok(g1) => intro_step(g1, names.last(), gl),
        }
    }
}

/// The index of the last hypothesis whose type is convertible with the target,
/// searching the first `n` hypotheses.
pub open spec fn last_matching_hyp(hs: Seq<SHyp>, n: nat, target: SValue, level: usize, gl: SGlobals) -> Option<nat>
    decreases n,
{
    if n == 0 {
        None
    } else if convertible(hs[n - 1].2, target, level, gl) {
        Some((n - 1) as nat)
    } else {
        last_matching_hyp(hs, (n - 1) as nat, target, level, gl)
    }
}

pub open spec fn assumption_spec(g: SGoal, gl: SGlobals) -> Result<STacticResult, Seq<char>> {
    match last_matching_hyp(g.hyps, g.hyps.len(), g.target, g.level, gl) {
        Some(i) => Ok(STacticResult::Complete(STerm::Var((g.hyps.len() - 1 - i) as usize))),
        None => Err("No hypothesis matches the goal: "@ + term_text(g.target_term)),
    }
}

/// The constructors of the inductive type the target is an application of.
pub open spec fn target_constructors(g: SGoal, gl: SGlobals) -> Option<Seq<SCtorDef>> {
    match g.target {
        SValue::Neutral(n) => match n.head {
            SHead::Global(ty) => if gl.inductives.contains_key(ty) {
                Some(gl.inductives[ty].constructors)
            } else {
                None
            },
            _ => None,
        },
        _ => None,
    }
}

pub open spec fn constructor_spec(g: SGoal, gl: SGlobals) -> Result<STacticResult, Seq<char>> {
    match target_constructors(g, gl) {
        Some(cs) => if cs.len() > 0 {
            Ok(STacticResult::Complete(STerm::Global(cs[0].name)))
        } else {
            Err("constructor: target is not an inductive type"@)
        },
        None => Err("constructor: target is not an inductive type"@),
    }
}

pub open spec fn right_spec(g: SGoal, gl: SGlobals) -> Result<STacticResult, Seq<char>> {
    match target_constructors(g, gl) {
        Some(cs) => if cs.len() >= 2 {
            Ok(STacticResult::Complete(STerm::Global(cs[1].name)))
        } else {
            Err("right: target does not have a second constructor"@)
        },
        None => Err("right: target does not have a second constructor"@),
    }
}

/// The two sides of an equation `Eq A a b` that the target is, if it is one.
pub open spec fn equation_sides(t: SValue) -> Option<(SValue, SValue)> {
    match t {
        SValue::Neutral(n) => if n.head == SHead::Global("Eq"@) && n.spine.len() == 3 {
            match (n.spine[0], n.spine[1], n.spine[2]) {
                (SElim::App(_), SElim::App(a), SElim::App(b)) => Some((a, b)),
                _ => None,
            }
        } else {
            None
        },
        _ => None,
    }
}

pub open spec fn refl_msg() -> Seq<char> {
    "refl: the goal is not an equation between convertible terms"@
}

/// `refl` proves `Eq A a b` when `a` and `b` are convertible.
pub open spec fn refl_spec(g: SGoal, gl: SGlobals) -> Result<STacticResult, Seq<char>> {
    match equation_sides(g.target) {
        Some((a, b)) => if convertible(a, b, g.level, gl) {
            Ok(STacticResult::Complete(refl_term()))
        } else {
            Err(refl_msg())
        },
        None => Err(refl_msg()),
    }
}

/// `trivial`: reflexivity, else an assumption, else a constructor.
pub open spec fn trivial_spec(g: SGoal, gl: SGlobals) -> Result<STacticResult, Seq<char>> {
    match refl_spec(g, gl) {
        Ok(r) => Ok(r),
        Err(_) => match assumption_spec(g, gl) {
            Ok(r) => Ok(r),
            Err(_) => match constructor_spec(g, gl) {
                Ok(r) => Ok(r),
                Err(_) => Err("trivial: could not solve the goal"@),
            },
        },
    }
}

/// Elaborate an expression with the hypotheses in scope; an error is reported
/// after `label`.
pub open spec fn elab_in_goal(e: Expr, g: SGoal, label: Seq<char>) -> Result<STerm, Seq<char>> {
    match elab_f(e, hyp_names(g.hyps)).0 {
        Ok(t) => Ok(t),
        Err(m) => Err(label + m),
    }
}

/// What each tactic does to a goal.
pub open spec fn execute_spec(t: Tactic, g: SGoal, gl: SGlobals) -> Result<STacticResult, Seq<char>> {
    match t {
        Tactic::Intro(names) => match intro_names(names_view(names@), g, gl) {
            Err(e) => Err(e),
            Ok(g2) => Ok(STacticResult::SubGoals(seq![SGoal { target_term: quote_term(g2.target, g2.level, gl), ..g2 }])),
        },
        Tactic::Apply(e) => match elab_in_goal(e, g, "In apply: "@) {
            Err(m) => Err(m),
            Ok(term) => Ok(STacticResult::Complete(term)),
        },
        Tactic::Exact(e) => match elab_in_goal(e, g, "In exact: "@) {
            Err(m) => Err(m),
            Ok(term) => Ok(STacticResult::Complete(term)),
        },
        Tactic::Refl => refl_spec(g, gl),
        Tactic::Assumption => assumption_spec(g, gl),
        Tactic::Sorry => Ok(STacticResult::Complete(sorry_term())),
        Tactic::Trivial => trivial_spec(g, gl),
        Tactic::Cases(e) => match elab_in_goal(e, g, "In cases: "@) {
            Err(m) => Err(m),
            Ok(_) => Ok(STacticResult::Complete(sorry_term())),
        },
        Tactic::Induction(e) => match elab_in_goal(e, g, "In induction: "@) {
            Err(m) => Err(m),
            Ok(_) => Ok(STacticResult::Complete(sorry_term())),
        },
        Tactic::Rewrite(_) => Ok(STacticResult::Complete(sorry_term())),
        Tactic::Simp => match trivial_spec(g, gl) {
            Ok(r) => Ok(r),
            Err(_) => Err("simp: could not simplify the goal"@),
        },
        Tactic::ConstructorTac => constructor_spec(g, gl),
        Tactic::Left => constructor_spec(g, gl),
        Tactic::Right => right_spec(g, gl),
        Tactic::Have(name, ty_expr, _) => match elab_in_goal(ty_expr, g, "In have type: "@) {
            Err(m) => Err(m),
            Ok(ty) => Ok(STacticResult::SubGoals(seq![SGoal {
                hyps: g.hyps.push((name@, ty, eval_value(ty, Seq::empty(), gl))),
                level: g.level.wrapping_add(1),
                ..g
            }])),
        },
        Tactic::Show(_) => Ok(STacticResult::SubGoals(seq![g])),
        Tactic::Ring => Ok(STacticResult::Complete(sorry_term())),
    }
}

/// The proof term wrapped in one lambda per hypothesis, the first hypothesis outermost.
pub open spec fn wrap_hyps(hs: Seq<SHyp>, t: STerm) -> STerm
    decreases hs.len(),
{
    if hs.len() == 0 {
        t
    } else {
        wrap_hyps(hs.drop_last(), STerm::Lam(hs.last().0, Box::new(hs.last().1), Box::new(t)))
    }
}

pub open spec fn no_more_goals_msg(t: Tactic) -> Seq<char> {
    "No more goals to solve, but tactic '"@ + tactic_text(t) + "' was given"@
}

/// The listing of unsolved goals, numbered from `first`.
pub open spec fn goals_list_text(gs: Seq<SGoal>, first: nat) -> Seq<char>
    decreases gs.len(),
{
    if gs.len() == 0 {
        Seq::empty()
    } else {
        goals_list_text(gs.drop_last(), first) + "\nGoal "@ + decimal(first + gs.len()) + ":\n"@ + goal_text(gs.last()) + "\n"@
    }
}

pub open spec fn incomplete_msg(gs: Seq<SGoal>) -> Seq<char> {
    "Proof incomplete. "@ + decimal(gs.len()) + " unsolved goal(s):\n"@ + goals_list_text(gs, 0)
}

/// Running the tactics from position `idx` on the goal list `goals`.
#[verifier::opaque]
pub open spec fn run_loop(tacs: Seq<Tactic>, idx: int, goals: Seq<SGoal>, gl: SGlobals) -> Result<STerm, Seq<char>>
    decreases tacs.len() - idx, 2nat,
{
    if idx < 0 || idx >= tacs.len() {
        if goals.len() == 0 {
            Err("No proof term produced"@)
        } else {
            Err(incomplete_msg(goals))
        }
    } else if goals.len() == 0 {
        Err(no_more_goals_msg(tacs[idx]))
    } else {
        let cur = goals[0];
        let rest = goals.drop_first();
        match execute_spec(tacs[idx], cur, gl) {
            Err(e) => Err(e),
            Ok(STacticResult::Complete(t)) => if rest.len() == 0 {
                Ok(wrap_hyps(cur.hyps, t))
            } else {
                finish_spec(t, cur, tacs, idx + 1, rest, gl)
            },
            Ok(STacticResult::SubGoals(new_goals)) => run_loop(tacs, idx + 1, new_goals + rest, gl),
        }
    }
}

/// After the first goal is closed: the remaining tactics must prove the next goal.
#[verifier::opaque]
pub open spec fn finish_spec(t: STerm, cur: SGoal, tacs: Seq<Tactic>, start: int, rest: Seq<SGoal>, gl: SGlobals) -> Result<STerm, Seq<char>>
    decreases tacs.len() - start, 3nat,
{
    if rest.len() == 0 {
        Ok(wrap_hyps(cur.hyps, t))
    } else {
        match run_loop(tacs, start, seq![rest[0]], gl) {
            Err(e) => Err(e),
            Ok(_) => Ok(wrap_hyps(cur.hyps, t)),
        }
    }
}

/// The warning given when `sorry` admits a goal.
pub open spec fn sorry_note() -> Seq<char> {
    "  ⚠ Warning: sorry used, proof is incomplete"@
}


/// The trace of `simp`: the normal form of the target, in raw form.
pub open spec fn simp_note(g: SGoal, gl: SGlobals) -> Seq<char> {
    "  simp: normalized target to "@ + term_text(normal_form(g.target_term, Seq::empty(), gl))
}

/// The notices that running a tactic on a goal gives, in order.
pub open spec fn tactic_notes(t: Tactic, g: SGoal, gl: SGlobals) -> Seq<Seq<char>> {
    match t {
        Tactic::Sorry => seq![sorry_note()],
        Tactic::Induction(e) => match elab_in_goal(e, g, "In induction: "@) {
            Err(_) => Seq::empty(),
            Ok(_) => seq!["  ⚠ induction tactic: simplified implementation"@],
        },
        Tactic::Rewrite(_) => seq!["  ⚠ rewrite tactic: simplified implementation"@],
        Tactic::Ring => seq!["  ⚠ ring tactic: simplified implementation"@],
        Tactic::Simp => seq![simp_note(g, gl)],
        _ => Seq::empty(),
    }
}

/// The notices given while running the tactics from position `idx` on the goal
/// list `goals`: those of each tactic that runs, in the order in which they run.
#[verifier::opaque]
pub open spec fn run_notes(tacs: Seq<Tactic>, idx: int, goals: Seq<SGoal>, gl: SGlobals) -> Seq<Seq<char>>
    decreases tacs.len() - idx, 2nat,
{
    if idx < 0 || idx >= tacs.len() || goals.len() == 0 {
        Seq::empty()
    } else {
        let cur = goals[0];
        let rest = goals.drop_first();
        let n = tactic_notes(tacs[idx], cur, gl);
        match execute_spec(tacs[idx], cur, gl) {
            Err(_) => n,
            Ok(STacticResult::Complete(t)) => n + finish_notes(tacs, idx + 1, rest, gl),
            Ok(STacticResult::SubGoals(new_goals)) => n + run_notes(tacs, idx + 1, new_goals + rest, gl),
        }
    }
}

/// The notices given once the first goal is closed, while the next goal is proved.
#[verifier::opaque]
pub open spec fn finish_notes(tacs: Seq<Tactic>, start: int, rest: Seq<SGoal>, gl: SGlobals) -> Seq<Seq<char>>
    decreases tacs.len() - start, 3nat,
{
    if rest.len() == 0 {
        Seq::empty()
    } else {
        run_notes(tacs, start, seq![rest[0]], gl)
    }
}

/// The texts of a list of strings.
pub open spec fn texts_view(v: Seq<String>) -> Seq<Seq<char>> {
    v.map_values(|s: String| s@)
}

}

verus! {

pub open spec fn tactic_result_view(r: Result<TacticResult, String>) -> Result<STacticResult, Seq<char>> {
    match r {
        Ok(t) => Ok(t@),
        Err(m) => Err(m@),
    }
}

pub open spec fn proof_result_view(r: Result<Term, String>) -> Result<STerm, Seq<char>> {
    match r {
        Ok(t) => Ok(t@),
        Err(m) => Err(m@),
    }
}

fn clone_hyps(hs: &Vec<(Name, Term, Value)>) -> (r: Vec<(Name, Term, Value)>)
    ensures
        hyps_view(r@) == hyps_view(hs@),
{
    let mut r: Vec<(Name, Term, Value)> = Vec::new();
    let mut i: usize = 0;
    while i < hs.len()
        invariant
            i <= hs@.len(),
            r@.len() == i,
            forall|j: int| 0 <= j < i ==> #[trigger] r@[j].0@ == hs@[j].0@ && r@[j].1@ == hs@[j].1@ && r@[j].2@ == hs@[j].2@,
        decreases hs@.len() - i,
    {
        let h = &hs[i];
        r.push((h.0.clone(), h.1.clone(), h.2.clone()));
        i = i + 1;
    }
    assert(hyps_view(r@) =~= hyps_view(hs@));
    r
}

impl Clone for Goal {
    fn clone(&self) -> (r: Self)
        ensures
            r@ == self@,
    {
        Goal {
            hyps: clone_hyps(&self.hyps),
            target: self.target.clone(),
            target_term: self.target_term.clone(),
            level: self.level,
        }
    }
}

/// A goal as a single-element list.
fn single_goal(g: Goal) -> (r: Vec<Goal>)
    ensures
        goals_view(r@) == seq![g@],
{
    let mut v: Vec<Goal> = Vec::new();
    v.push(g);
    assert(goals_view(v@) =~= seq![g@]);
    v
}

impl Goal {
    pub fn new(target: Value, target_term: Term) -> (r: Self)
        ensures
            r@ == (SGoal { hyps: Seq::empty(), target: target@, target_term: target_term@, level: 0 }),
    {
        let r = Goal { hyps: Vec::new(), target, target_term, level: 0 };
        assert(hyps_view(r.hyps@) =~= Seq::<SHyp>::empty());
        r
    }

    /// The hypotheses, one per line, followed by the target.
    pub fn display(&self, _globals: &GlobalEnv) -> (r: String)
        ensures
            r@ == goal_text(self@),
    {
        let ghost hv = hyps_view(self.hyps@);
        let mut s = String::new();
        assert(hv.subrange(0, 0) =~= Seq::<SHyp>::empty());
        let n = self.hyps.len();
        let mut i: usize = 0;
        while i < n
            invariant
                n == self.hyps@.len(),
                hv == hyps_view(self.hyps@),
                i <= n,
                s@ == hyps_text(hv.subrange(0, i as int)),
            decreases n - i,
        {
            let h = &self.hyps[i];
            push_str(&mut s, "  ");
            push_str(&mut s, h.0.as_str());
            push_str(&mut s, " : ");
            write_term(&h.1, &mut s);
            push_str(&mut s, "\n");
            proof {
                let pre = hv.subrange(0, i + 1);
                assert(pre.drop_last() =~= hv.subrange(0, i as int));
                assert(pre.last() == hv[i as int]);
                assert(s@ =~= hyps_text(pre));
            }
            i = i + 1;
        }
        assert(hv.subrange(0, n as int) =~= hv);
        push_str(&mut s, "  ⊢ ");
        write_term(&self.target_term, &mut s);
        s
    }
}

/// A name-resolution context with the goal's hypotheses bound, in order.
fn hyp_ctx(goal: &Goal) -> (r: LocalCtx)
    ensures
        r@ == hyp_names(goal@.hyps),
{
    let ghost hv = goal@.hyps;
    let mut ctx = LocalCtx::new();
    let mut i: usize = 0;
    while i < goal.hyps.len()
        invariant
            i <= goal.hyps@.len(),
            hv == hyps_view(goal.hyps@),
            ctx@ == hyp_names(hv.subrange(0, i as int)),
        decreases goal.hyps@.len() - i,
    {
        ctx.bind(goal.hyps[i].0.clone());
        i = i + 1;
        assert(ctx@ =~= hyp_names(hv.subrange(0, i as int)));
    }
    assert(hv.subrange(0, goal.hyps@.len() as int) =~= hv);
    ctx
}

fn prefixed(prefix: &str, m: &String) -> (r: String)
    ensures
        r@ == prefix@ + m@,
{
    let mut s = String::new();
    push_str(&mut s, prefix);
    push_str(&mut s, m.as_str());
    assert(s@ =~= prefix@ + m@);
    s
}

/// Elaborate `expr` with the goal's hypotheses in scope.
fn elaborate_in_goal(expr: &Expr, goal: &Goal, label: &str, globals: &GlobalEnv) -> (r: Result<Term, String>)
    ensures
        proof_result_view(r) == elab_in_goal(*expr, goal@, label@),
{
    let mut ctx = hyp_ctx(goal);
    match elaborate_expr(expr, &mut ctx, globals) {
        Ok(t) => Ok(t),
        Err(m) => Err(prefixed(label, &m)),
    }
}

/// Once `intro` fails on a prefix of the names, it fails on all of them.
proof fn lemma_intro_err_extends(names: Seq<Seq<char>>, i: int, g: SGoal, gl: SGlobals)
    requires
        0 <= i <= names.len(),
        intro_names(names.subrange(0, i), g, gl) is Err,
    ensures
        intro_names(names, g, gl) == intro_names(names.subrange(0, i), g, gl),
    decreases names.len(),
{
    if i == names.len() {
        assert(names.subrange(0, i) =~= names);
    } else {
        let pre = names.drop_last();
        assert(pre.subrange(0, i) =~= names.subrange(0, i));
        lemma_intro_err_extends(pre, i, g, gl);
    }
}

/// `intro x y z`: introduce hypotheses from a dependent function type.
fn tactic_intro(names: &Vec<Name>, goal: &Goal, globals: &GlobalEnv) -> (r: Result<TacticResult, String>)
    ensures
        tactic_result_view(r) == execute_spec(Tactic::Intro(*names), goal@, globals@),
{
    let ghost gl = globals@;
    let ghost nv = names_view(names@);
    let mut new_goal = goal.clone();
    let mut target = goal.target.clone();
    assert(nv.subrange(0, 0) =~= Seq::<Seq<char>>::empty());
    let n = names.len();
    let mut i: usize = 0;
    while i < n
        invariant
            n == names@.len(),
            nv == names_view(names@),
            gl == globals@,
            i <= n,
            new_goal@.target == goal@.target,
            new_goal@.target_term == goal@.target_term,
            intro_names(nv.subrange(0, i as int), goal@, gl) == Ok::<SGoal, Seq<char>>(
                SGoal { hyps: new_goal@.hyps, target: target@, target_term: goal@.target_term, level: new_goal.level },
            ),
        decreases n - i,
    {
        let ghost pre = nv.subrange(0, i + 1);
        proof {
            assert(pre.drop_last() =~= nv.subrange(0, i as int));
            assert(pre.last() == names@[i as int]@);
        }
        let next = match &target {
            Value::Pi(_, param_ty, ret_closure) => {
                let param_ty_term = quote(param_ty, new_goal.level, globals);
                let ghost old_hyps = new_goal.hyps@;
                new_goal.hyps.push((names[i].clone(), param_ty_term, (**param_ty).clone()));
                assert(hyps_view(new_goal.hyps@) =~= hyps_view(old_hyps).push((names@[i as int]@, param_ty_term@, param_ty@)));
                let arg = Value::var(new_goal.level);
                let t = eval_closure(ret_closure, arg, globals);
                new_goal.level = new_goal.level.wrapping_add(1);
                t
            },
            _ => {
                let q = quote(&target, new_goal.level, globals);
                let mut s = "Cannot intro '".to_string();
                push_str(&mut s, names[i].as_str());
                push_str(&mut s, "': target is not a function/forall type. Target: ");
                write_term(&q, &mut s);
                proof {
                    lemma_intro_err_extends(nv, i + 1, goal@, gl);
                    assert(s@ =~= "Cannot intro '"@ + names@[i as int]@ + "': target is not a function/forall type. Target: "@
                        + term_text(q@));
                }
                return Err(s);
            },
        };
        target = next;
        i = i + 1;
    }
    assert(nv.subrange(0, n as int) =~= nv);
    let target_term = quote(&target, new_goal.level, globals);
    new_goal.target = target;
    new_goal.target_term = target_term;
    Ok(TacticResult::SubGoals { goals: single_goal(new_goal), combine: Combiner::First })
}

/// `exact e`: the expression is the proof.
fn tactic_exact(expr: &Expr, goal: &Goal, globals: &GlobalEnv) -> (r: Result<TacticResult, String>)
    ensures
        tactic_result_view(r) == execute_spec(Tactic::Exact(*expr), goal@, globals@),
{
    match elaborate_in_goal(expr, goal, "In exact: ", globals) {
        Ok(term) => Ok(TacticResult::Complete(term)),
        Err(m) => Err(m),
    }
}

/// `apply e`: the expression is used as the proof.
fn tactic_apply(expr: &Expr, goal: &Goal, globals: &GlobalEnv) -> (r: Result<TacticResult, String>)
    ensures
        tactic_result_view(r) == execute_spec(Tactic::Apply(*expr), goal@, globals@),
{
    match elaborate_in_goal(expr, goal, "In apply: ", globals) {
        Ok(term) => Ok(TacticResult::Complete(term)),
        Err(m) => Err(m),
    }
}

/// `refl`: prove an equation `Eq A a b` between convertible `a` and `b`.
fn tactic_refl(goal: &Goal, globals: &GlobalEnv) -> (r: Result<TacticResult, String>)
    ensures
        tactic_result_view(r) == refl_spec(goal@, globals@),
{
    if let Value::Neutral(n) = &goal.target {
        assert(goal@.target == SValue::Neutral(n@));
        assert(n@.head == crate::term::head_view(n.head));
        proof {
            crate::term::lemma_elims_view(n.spine@);
        }
        if let NeutralHead::Global(h) = &n.head {
            if str_eq(h.as_str(), "Eq") && n.spine.len() == 3 {
                if let (Elim::App(_), Elim::App(a), Elim::App(b)) = (&n.spine[0], &n.spine[1], &n.spine[2]) {
                    if conv_check(a, b, goal.level, globals) {
                        return Ok(TacticResult::Complete(Term::Global("Eq.refl".to_string())));
                    }
                }
            }
        }
    }
    Err("refl: the goal is not an equation between convertible terms".to_string())
}

/// `assumption`: the most recent hypothesis whose type is the target.
fn tactic_assumption(goal: &Goal, globals: &GlobalEnv) -> (r: Result<TacticResult, String>)
    ensures
        tactic_result_view(r) == assumption_spec(goal@, globals@),
{
    let ghost hv = goal@.hyps;
    let n = goal.hyps.len();
    let mut j: usize = n;
    while j > 0
        invariant
            j <= n,
            n == goal.hyps@.len(),
            hv == hyps_view(goal.hyps@),
            last_matching_hyp(hv, n as nat, goal@.target, goal.level, globals@) == last_matching_hyp(
                hv,
                j as nat,
                goal@.target,
                goal.level,
                globals@,
            ),
        decreases j,
    {
        j = j - 1;
        assert(hv[j as int].2 == goal.hyps@[j as int].2@);
        if conv_check(&goal.hyps[j].2, &goal.target, goal.level, globals) {
            return Ok(TacticResult::Complete(Term::Var(n - 1 - j)));
        }
    }
    let mut s = "No hypothesis matches the goal: ".to_string();
    write_term(&goal.target_term, &mut s);
    Err(s)
}

/// Record a notice.
fn add_note(notes: &mut Vec<String>, note: String)
    ensures
        texts_view(final(notes)@) == texts_view(old(notes)@) + seq![note@],
{
    let ghost before = notes@;
    notes.push(note);
    assert(texts_view(notes@) =~= texts_view(before) + seq![note@]);
}

/// `sorry`: admit the goal, with a warning.
fn tactic_sorry(goal: &Goal, globals: &GlobalEnv, notes: &mut Vec<String>) -> (r: Result<TacticResult, String>)
    ensures
        tactic_result_view(r) == Ok::<STacticResult, Seq<char>>(STacticResult::Complete(sorry_term())),
        texts_view(final(notes)@) == texts_view(old(notes)@) + tactic_notes(Tactic::Sorry, goal@, globals@),
{
    add_note(notes, "  ⚠ Warning: sorry used, proof is incomplete".to_string());
    Ok(TacticResult::Complete(Term::Global("sorry".to_string())))
}

/// `trivial`: reflexivity, else an assumption, else a constructor.
fn tactic_trivial(goal: &Goal, globals: &GlobalEnv) -> (r: Result<TacticResult, String>)
    ensures
        tactic_result_view(r) == execute_spec(Tactic::Trivial, goal@, globals@),
{
    if let Ok(r) = tactic_refl(goal, globals) {
        return Ok(r);
    }
    if let Ok(r) = tactic_assumption(goal, globals) {
        return Ok(r);
    }
    if let Ok(r) = tactic_constructor(goal, globals) {
        return Ok(r);
    }
    Err("trivial: could not solve the goal".to_string())
}

/// `cases e`: the expression must elaborate; the goal is admitted.
fn tactic_cases(expr: &Expr, goal: &Goal, globals: &GlobalEnv) -> (r: Result<TacticResult, String>)
    ensures
        tactic_result_view(r) == execute_spec(Tactic::Cases(*expr), goal@, globals@),
{
    match elaborate_in_goal(expr, goal, "In cases: ", globals) {
        Ok(_) => Ok(TacticResult::Complete(Term::Global("sorry".to_string()))),
        Err(m) => Err(m),
    }
}

/// `induction e`: the expression must elaborate; the goal is admitted, with a notice.
fn tactic_induction(expr: &Expr, goal: &Goal, globals: &GlobalEnv, notes: &mut Vec<String>) -> (r: Result<TacticResult, String>)
    ensures
        tactic_result_view(r) == execute_spec(Tactic::Induction(*expr), goal@, globals@),
        texts_view(final(notes)@) == texts_view(old(notes)@) + tactic_notes(Tactic::Induction(*expr), goal@, globals@),
{
    match elaborate_in_goal(expr, goal, "In induction: ", globals) {
        Ok(_) => {
            add_note(notes, "  ⚠ induction tactic: simplified implementation".to_string());
            Ok(TacticResult::Complete(Term::Global("sorry".to_string())))
        },
        Err(m) => {
            assert(texts_view(notes@) + Seq::<Seq<char>>::empty() =~= texts_view(notes@));
            Err(m)
        },
    }
}

/// `rewrite [e]`: the goal is admitted, with a notice.
fn tactic_rewrite(expr: &Expr, goal: &Goal, globals: &GlobalEnv, notes: &mut Vec<String>) -> (r: Result<TacticResult, String>)
    ensures
        tactic_result_view(r) == Ok::<STacticResult, Seq<char>>(STacticResult::Complete(sorry_term())),
        texts_view(final(notes)@) == texts_view(old(notes)@) + tactic_notes(Tactic::Rewrite(*expr), goal@, globals@),
{
    add_note(notes, "  ⚠ rewrite tactic: simplified implementation".to_string());
    Ok(TacticResult::Complete(Term::Global("sorry".to_string())))
}

/// `simp`: traces the normal form of the target, then reflexivity, else `trivial`.
fn tactic_simp(goal: &Goal, globals: &GlobalEnv, notes: &mut Vec<String>) -> (r: Result<TacticResult, String>)
    ensures
        tactic_result_view(r) == execute_spec(Tactic::Simp, goal@, globals@),
        texts_view(final(notes)@) == texts_view(old(notes)@) + tactic_notes(Tactic::Simp, goal@, globals@),
{
    let empty: Vec<Value> = Vec::new();
    let normalized = normalize(&goal.target_term, &empty, globals);
    assert(values_view(empty@) =~= Seq::<SValue>::empty());
    let mut trace = "  simp: normalized target to ".to_string();
    write_term(&normalized, &mut trace);
    add_note(notes, trace);
    if let Ok(r) = tactic_refl(goal, globals) {
        return Ok(r);
    }
    if let Ok(r) = tactic_trivial(goal, globals) {
        return Ok(r);
    }
    Err("simp: could not simplify the goal".to_string())
}

/// `constructor`: the first constructor of the target's inductive type.
fn tactic_constructor(goal: &Goal, globals: &GlobalEnv) -> (r: Result<TacticResult, String>)
    ensures
        tactic_result_view(r) == constructor_spec(goal@, globals@),
{
    match &goal.target {
        Value::Neutral(n) => {
            assert(goal@.target == SValue::Neutral(n@));
            assert(n@.head == crate::term::head_view(n.head));
            if let NeutralHead::Global(ind_name) = &n.head {
                if let Some(ind) = globals.lookup_inductive(ind_name.as_str()) {
                    if ind.constructors.len() > 0 {
                        assert(ind@.constructors[0] == ind.constructors@[0]@);
                        return Ok(TacticResult::Complete(Term::Global(ind.constructors[0].name.clone())));
                    }
                }
            }
        },
        _ => {},
    }
    Err("constructor: target is not an inductive type".to_string())
}

/// `left`: the first constructor.
fn tactic_left(goal: &Goal, globals: &GlobalEnv) -> (r: Result<TacticResult, String>)
    ensures
        tactic_result_view(r) == constructor_spec(goal@, globals@),
{
    tactic_constructor(goal, globals)
}

/// `right`: the second constructor of the target's inductive type.
fn tactic_right(goal: &Goal, globals: &GlobalEnv) -> (r: Result<TacticResult, String>)
    ensures
        tactic_result_view(r) == right_spec(goal@, globals@),
{
    match &goal.target {
        Value::Neutral(n) => {
            assert(goal@.target == SValue::Neutral(n@));
            assert(n@.head == crate::term::head_view(n.head));
            if let NeutralHead::Global(ind_name) = &n.head {
                if let Some(ind) = globals.lookup_inductive(ind_name.as_str()) {
                    if ind.constructors.len() >= 2 {
                        assert(ind@.constructors[1] == ind.constructors@[1]@);
                        return Ok(TacticResult::Complete(Term::Global(ind.constructors[1].name.clone())));
                    }
                }
            }
        },
        _ => {},
    }
    Err("right: target does not have a second constructor".to_string())
}

/// `have h : T`: a new goal with the hypothesis `h : T` added.
fn tactic_have(name: &Name, ty_expr: &Expr, _body: &ProofBody, goal: &Goal, globals: &GlobalEnv) -> (r: Result<TacticResult, String>)
    ensures
        tactic_result_view(r) == execute_spec(Tactic::Have(*name, *ty_expr, Box::new(*_body)), goal@, globals@),
{
    let ty_term = match elaborate_in_goal(ty_expr, goal, "In have type: ", globals) {
        Ok(t) => t,
        Err(m) => return Err(m),
    };
    let ty_val = eval(&ty_term, &Vec::new(), globals);
    let mut new_goal = goal.clone();
    let ghost old_hyps = new_goal.hyps@;
    new_goal.hyps.push((name.clone(), ty_term.clone(), ty_val));
    assert(hyps_view(new_goal.hyps@) =~= hyps_view(old_hyps).push((name@, ty_term@, ty_val@)));
    new_goal.level = new_goal.level.wrapping_add(1);
    Ok(TacticResult::SubGoals { goals: single_goal(new_goal), combine: Combiner::First })
}

/// `show T`: continue with the same goal.
fn tactic_show(_expr: &Expr, goal: &Goal, _globals: &GlobalEnv) -> (r: Result<TacticResult, String>)
    ensures
        tactic_result_view(r) == Ok::<STacticResult, Seq<char>>(STacticResult::SubGoals(seq![goal@])),
{
    Ok(TacticResult::SubGoals { goals: single_goal(goal.clone()), combine: Combiner::First })
}

/// `ring`: the goal is admitted, with a notice.
fn tactic_ring(goal: &Goal, globals: &GlobalEnv, notes: &mut Vec<String>) -> (r: Result<TacticResult, String>)
    ensures
        tactic_result_view(r) == Ok::<STacticResult, Seq<char>>(STacticResult::Complete(sorry_term())),
        texts_view(final(notes)@) == texts_view(old(notes)@) + tactic_notes(Tactic::Ring, goal@, globals@),
{
    add_note(notes, "  ⚠ ring tactic: simplified implementation".to_string());
    Ok(TacticResult::Complete(Term::Global("sorry".to_string())))
}

/// Execute one tactic on a goal.
fn execute_tactic(tactic: &Tactic, goal: &Goal, globals: &GlobalEnv, notes: &mut Vec<String>) -> (r: Result<TacticResult, String>)
    ensures
        tactic_result_view(r) == execute_spec(*tactic, goal@, globals@),
        texts_view(final(notes)@) == texts_view(old(notes)@) + tactic_notes(*tactic, goal@, globals@),
{
    assert(texts_view(notes@) =~= texts_view(notes@) + Seq::<Seq<char>>::empty());
    let r = match tactic {
        Tactic::Intro(names) => tactic_intro(names, goal, globals),
        Tactic::Apply(expr) => tactic_apply(expr, goal, globals),
        Tactic::Exact(expr) => tactic_exact(expr, goal, globals),
        Tactic::Refl => tactic_refl(goal, globals),
        Tactic::Assumption => tactic_assumption(goal, globals),
        Tactic::Sorry => tactic_sorry(goal, globals, notes),
        Tactic::Trivial => tactic_trivial(goal, globals),
        Tactic::Cases(expr) => tactic_cases(expr, goal, globals),
        Tactic::Induction(expr) => tactic_induction(expr, goal, globals, notes),
        Tactic::Rewrite(expr) => tactic_rewrite(expr, goal, globals, notes),
        Tactic::Simp => tactic_simp(goal, globals, notes),
        Tactic::ConstructorTac => tactic_constructor(goal, globals),
        Tactic::Left => tactic_left(goal, globals),
        Tactic::Right => tactic_right(goal, globals),
        Tactic::Have(name, ty_expr, body) => tactic_have(name, ty_expr, body, goal, globals),
        Tactic::Show(expr) => tactic_show(expr, goal, globals),
        Tactic::Ring => tactic_ring(goal, globals, notes),
    };
    r
}

/// The short text by which a tactic is named in messages.
fn format_tactic(tactic: &Tactic) -> (r: String)
    ensures
        r@ == tactic_text(*tactic),
{
    match tactic {
        Tactic::Intro(names) => {
            let mut s = "intro ".to_string();
            let ghost nv = names_view(names@);
            let n = names.len();
            let mut i: usize = 0;
            while i < n
                invariant
                    n == names@.len(),
                    nv == names_view(names@),
                    i <= n,
                    s@ == "intro "@ + join_spaced(nv.subrange(0, i as int)),
                decreases n - i,
            {
                if i > 0 {
                    push_str(&mut s, " ");
                }
                push_str(&mut s, names[i].as_str());
                proof {
                    let pre = nv.subrange(0, i + 1);
                    assert(pre.drop_last() =~= nv.subrange(0, i as int));
                    assert(pre.last() == names@[i as int]@);
                    if i == 0 {
                        assert(nv.subrange(0, 0) =~= Seq::<Seq<char>>::empty());
                    }
                    assert(s@ =~= "intro "@ + join_spaced(pre));
                }
                i = i + 1;
            }
            assert(nv.subrange(0, n as int) =~= nv);
            s
        },
        Tactic::Apply(_) => "apply ...".to_string(),
        Tactic::Exact(_) => "exact ...".to_string(),
        Tactic::Refl => "refl".to_string(),
        Tactic::Rewrite(_) => "rewrite [...]".to_string(),
        Tactic::Cases(_) => "cases ...".to_string(),
        Tactic::Induction(_) => "induction ...".to_string(),
        Tactic::Simp => "simp".to_string(),
        Tactic::Assumption => "assumption".to_string(),
        Tactic::ConstructorTac => "constructor".to_string(),
        Tactic::Left => "left".to_string(),
        Tactic::Right => "right".to_string(),
        Tactic::Trivial => "trivial".to_string(),
        Tactic::Sorry => "sorry".to_string(),
        Tactic::Have(n, _, _) => {
            let mut s = "have ".to_string();
            push_str(&mut s, n.as_str());
            push_str(&mut s, " ...");
            s
        },
        Tactic::Show(_) => "show ...".to_string(),
        Tactic::Ring => "ring".to_string(),
    }
}

/// Every tactic that leaves sub-goals leaves exactly one.
pub proof fn lemma_single_subgoal(t: Tactic, g: SGoal, gl: SGlobals)
    ensures
        execute_spec(t, g, gl) matches Ok(STacticResult::SubGoals(gs)) ==> gs.len() == 1,
{
}

/// Wrap a proof term in one lambda per hypothesis of the goal.
fn wrap_proof_term(term: Term, goal: &Goal) -> (r: Term)
    ensures
        r@ == wrap_hyps(goal@.hyps, term@),
{
    let ghost hv = goal@.hyps;
    let mut result = term;
    let mut j: usize = goal.hyps.len();
    assert(hv.subrange(0, j as int) =~= hv);
    while j > 0
        invariant
            j <= goal.hyps@.len(),
            hv == hyps_view(goal.hyps@),
            wrap_hyps(hv, term@) == wrap_hyps(hv.subrange(0, j as int), result@),
        decreases j,
    {
        j = j - 1;
        let h = &goal.hyps[j];
        proof {
            let pre = hv.subrange(0, j + 1);
            assert(pre.drop_last() =~= hv.subrange(0, j as int));
            assert(pre.last() == hv[j as int]);
        }
        result = Term::Lam(h.0.clone(), Box::new(h.1.clone()), Box::new(result));
    }
    result
}

}

verus! {

/// The message listing the unsolved goals.
fn incomplete_message(goals: &Vec<Goal>, globals: &GlobalEnv) -> (r: String)
    ensures
        r@ == incomplete_msg(goals_view(goals@)),
{
    let ghost gv = goals_view(goals@);
    let mut s = "Proof incomplete. ".to_string();
    push_decimal(&mut s, goals.len() as u64);
    push_str(&mut s, " unsolved goal(s):\n");
    let ghost head = s@;
    assert(gv.subrange(0, 0) =~= Seq::<SGoal>::empty());
    assert(head + Seq::<char>::empty() =~= head);
    let n = goals.len();
    let mut i: usize = 0;
    while i < n
        invariant
            n == goals@.len(),
            gv == goals_view(goals@),
            i <= n,
            s@ == head + goals_list_text(gv.subrange(0, i as int), 0),
        decreases n - i,
    {
        push_str(&mut s, "\nGoal ");
        push_decimal(&mut s, (i + 1) as u64);
        push_str(&mut s, ":\n");
        let d = goals[i].display(globals);
        push_str(&mut s, d.as_str());
        push_str(&mut s, "\n");
        proof {
            let pre = gv.subrange(0, i + 1);
            assert(pre.drop_last() =~= gv.subrange(0, i as int));
            assert(pre.last() == goals@[i as int]@);
            assert(s@ =~= head + goals_list_text(pre, 0));
        }
        i = i + 1;
    }
    assert(gv.subrange(0, n as int) =~= gv);
    s
}

/// Run the tactics from position `start` on a single goal.
fn run_tactics_from(tactics: &[Tactic], start: usize, goal: Goal, globals: &GlobalEnv, notes: &mut Vec<String>) -> (r: Result<Term, String>)
    requires
        start <= tactics@.len(),
    ensures
        proof_result_view(r) == run_loop(tactics@, start as int, seq![goal@], globals@),
        texts_view(final(notes)@) == texts_view(old(notes)@) + run_notes(tactics@, start as int, seq![goal@], globals@),
    decreases tactics@.len() - start, 2nat,
{
    let ghost notes0 = texts_view(notes@);
    let ghost tv = tactics@;
    let ghost gl = globals@;
    let ghost g0 = goal@;
    let mut goals: Vec<Goal> = single_goal(goal);
    let n = tactics.len();
    let mut idx: usize = start;
    while idx < n
        invariant
            n == tactics@.len(),
            tv == tactics@,
            gl == globals@,
            start <= idx <= n,
            g0 == goal@,
            run_loop(tv, start as int, seq![g0], gl) == run_loop(tv, idx as int, goals_view(goals@), gl),
            notes0 == texts_view(old(notes)@),
            notes0 + run_notes(tv, start as int, seq![g0], gl) == texts_view(notes@) + run_notes(tv, idx as int, goals_view(goals@), gl),
        decreases n - idx,
    {
        proof {
            reveal(run_loop);
            reveal(finish_spec);
            reveal(run_notes);
            reveal(finish_notes);
        }
        if goals.len() == 0 {
            let mut s = "No more goals to solve, but tactic '".to_string();
            let t = format_tactic(&tactics[idx]);
            push_str(&mut s, t.as_str());
            push_str(&mut s, "' was given");
            assert(s@ =~= no_more_goals_msg(tactics@[idx as int]));
            assert(texts_view(notes@) + Seq::<Seq<char>>::empty() =~= texts_view(notes@));
            return Err(s);
        }
        let ghost before = goals@;
        let current_goal = goals.remove(0);
        assert(goals_view(goals@) =~= goals_view(before).drop_first());
        let ghost notes_before = texts_view(notes@);
        let result = match execute_tactic(&tactics[idx], &current_goal, globals, notes) {
            Ok(r) => r,
            Err(e) => {
                assert(notes_before + run_notes(tv, idx as int, goals_view(before), gl) =~= texts_view(notes@));
                return Err(e);
            },
        };
        let ghost tn = tactic_notes(tactics@[idx as int], current_goal@, gl);
        assert(texts_view(notes@) == notes_before + tn);
        match result {
            TacticResult::Complete(term) => {
                if goals.len() == 0 {
                    proof {
                        reveal(finish_notes);
                        reveal(run_notes);
                        assert(finish_notes(tv, idx + 1, goals_view(goals@), gl) == Seq::<Seq<char>>::empty());
                        assert(texts_view(notes@) =~= notes_before + tn + Seq::<Seq<char>>::empty());
                    }
                    return Ok(wrap_proof_term(term, &current_goal));
                }
                let ghost rest = goals_view(goals@);
                assert(current_goal@ == goals_view(before)[0]);
                assert(run_loop(tv, idx as int, goals_view(before), gl) == finish_spec(term@, current_goal@, tv, idx + 1, rest, gl));
                assert(run_notes(tv, idx as int, goals_view(before), gl) == tn + finish_notes(tv, idx + 1, rest, gl));
                let r = finish_remaining(term, &current_goal, tactics, idx + 1, goals, globals, notes);
                assert(texts_view(notes@) =~= notes_before + (tn + finish_notes(tv, idx + 1, rest, gl)));
                return r;
            },
            TacticResult::SubGoals { goals: new_goals, combine } => {
                proof {
                    lemma_single_subgoal(tactics@[idx as int], current_goal@, gl);
                }
                // A tactic that left no sub-goals would close the goal with the
                // combination of no proofs; every tactic here leaves exactly one.
                if new_goals.len() == 0 {
                    let term = combine.apply(&Vec::new());
                    if goals.len() == 0 {
                        return Ok(wrap_proof_term(term, &current_goal));
                    }
                    return finish_remaining(term, &current_goal, tactics, idx + 1, goals, globals, notes);
                }
                let ghost ng = goals_view(new_goals@);
                let ghost rest = goals_view(goals@);
                let mut all_goals = new_goals;
                all_goals.append(&mut goals);
                goals = all_goals;
                assert(goals_view(goals@) =~= ng + rest);
                assert(run_notes(tv, idx as int, goals_view(before), gl) == tn + run_notes(tv, idx + 1, ng + rest, gl));
                assert(notes_before + (tn + run_notes(tv, idx + 1, ng + rest, gl))
                    =~= texts_view(notes@) + run_notes(tv, idx + 1, goals_view(goals@), gl));
            },
        }
        idx = idx + 1;
    }
    proof {
        reveal(run_loop);
        reveal(run_notes);
        assert(texts_view(notes@) + Seq::<Seq<char>>::empty() =~= texts_view(notes@));
    }
    if goals.len() == 0 {
        Err("No proof term produced".to_string())
    } else {
        Err(incomplete_message(&goals, globals))
    }
}

/// Once the first goal is closed, the remaining tactics must prove the next goal.
fn finish_remaining(
    first_term: Term,
    first_goal: &Goal,
    tactics: &[Tactic],
    start: usize,
    remaining_goals: Vec<Goal>,
    globals: &GlobalEnv,
    notes: &mut Vec<String>,
) -> (r: Result<Term, String>)
    requires
        start <= tactics@.len(),
    ensures
        proof_result_view(r) == finish_spec(first_term@, first_goal@, tactics@, start as int, goals_view(remaining_goals@), globals@),
        texts_view(final(notes)@) == texts_view(old(notes)@) + finish_notes(tactics@, start as int, goals_view(remaining_goals@), globals@),
    decreases tactics@.len() - start, 3nat,
{
    proof {
        reveal(run_loop);
        reveal(finish_spec);
        reveal(finish_notes);
        assert(texts_view(notes@) + Seq::<Seq<char>>::empty() =~= texts_view(notes@));
    }
    if remaining_goals.len() == 0 && start >= tactics.len() {
        return Ok(wrap_proof_term(first_term, first_goal));
    }
    if remaining_goals.len() == 0 {
        return Ok(wrap_proof_term(first_term, first_goal));
    }
    let next = remaining_goals[0].clone();
    proof {
        reveal(finish_notes);
        reveal(run_notes);
        assert(goals_view(remaining_goals@)[0] == next@);
        assert(finish_notes(tactics@, start as int, goals_view(remaining_goals@), globals@)
            == run_notes(tactics@, start as int, seq![next@], globals@));
    }
    match run_tactics_from(tactics, start, next, globals, notes) {
        Ok(_) => {},
        Err(e) => return Err(e),
    }
    Ok(wrap_proof_term(first_term, first_goal))
}

/// Execute a sequence of tactics to prove a goal.
pub fn run_tactics(tactics: &[Tactic], goal: Goal, globals: &GlobalEnv) -> (r: Result<Term, String>)
    ensures
        proof_result_view(r) == run_loop(tactics@, 0, seq![goal@], globals@),
{
    let mut notes: Vec<String> = Vec::new();
    run_tactics_from(tactics, 0, goal, globals, &mut notes)
}

/// Execute a sequence of tactics to prove a goal, adding to `notes` the warnings
/// and traces that the tactics give as they run (an admitted goal, the
/// simplifier's normal form).
pub fn run_tactics_noting(tactics: &[Tactic], goal: Goal, globals: &GlobalEnv, notes: &mut Vec<String>) -> (r: Result<Term, String>)
    ensures
        proof_result_view(r) == run_loop(tactics@, 0, seq![goal@], globals@),
        texts_view(final(notes)@) == texts_view(old(notes)@) + run_notes(tactics@, 0, seq![goal@], globals@),
{
    run_tactics_from(tactics, 0, goal, globals, notes)
}

}

verus! {

/// Once the goals are closed the proof is fixed: tactics given after the ones
/// that produced it are never run, so they change neither the proof nor the
/// notices given.
pub proof fn lemma_extra_tactics_ignored(tacs: Seq<Tactic>, extra: Seq<Tactic>, idx: int, goals: Seq<SGoal>, gl: SGlobals)
    requires
        run_loop(tacs, idx, goals, gl) is Ok,
    ensures
        run_loop(tacs + extra, idx, goals, gl) == run_loop(tacs, idx, goals, gl),
        run_notes(tacs + extra, idx, goals, gl) == run_notes(tacs, idx, goals, gl),
    decreases tacs.len() - idx, 2nat,
{
    reveal(run_loop);
    reveal(finish_spec);
    reveal(run_notes);
    reveal(finish_notes);
    let all = tacs + extra;
    assert(0 <= idx < tacs.len());
    assert(all[idx] == tacs[idx]);
    let cur = goals[0];
    let rest = goals.drop_first();
    match execute_spec(tacs[idx], cur, gl) {
        Err(_) => {},
        Ok(STacticResult::Complete(t)) => {
            if rest.len() > 0 {
                lemma_extra_tactics_ignored_finish(t, cur, tacs, extra, idx + 1, rest, gl);
            }
        },
        Ok(STacticResult::SubGoals(new_goals)) => {
            lemma_extra_tactics_ignored(tacs, extra, idx + 1, new_goals + rest, gl);
        },
    }
}

proof fn lemma_extra_tactics_ignored_finish(
    t: STerm,
    cur: SGoal,
    tacs: Seq<Tactic>,
    extra: Seq<Tactic>,
    start: int,
    rest: Seq<SGoal>,
    gl: SGlobals,
)
    requires
        finish_spec(t, cur, tacs, start, rest, gl) is Ok,
    ensures
        finish_spec(t, cur, tacs + extra, start, rest, gl) == finish_spec(t, cur, tacs, start, rest, gl),
        finish_notes(tacs + extra, start, rest, gl) == finish_notes(tacs, start, rest, gl),
    decreases tacs.len() - start, 3nat,
{
    reveal(run_loop);
    reveal(finish_spec);
    reveal(run_notes);
    reveal(finish_notes);
    if rest.len() > 0 {
        lemma_extra_tactics_ignored(tacs, extra, start, seq![rest[0]], gl);
    }
}

}

verus! {

/// `sorry` admits any goal, with a warning: a tactic list that starts with it
/// proves a single goal, and that warning is the only notice given.
pub proof fn lemma_sorry_admits_with_warning(tacs: Seq<Tactic>, goal: SGoal, gl: SGlobals)
    requires
        tacs.len() > 0,
        tacs[0] is Sorry,
    ensures
        run_loop(tacs, 0, seq![goal], gl) == Ok::<STerm, Seq<char>>(wrap_hyps(goal.hyps, sorry_term())),
        run_notes(tacs, 0, seq![goal], gl) == seq![sorry_note()],
{
    reveal(run_loop);
    reveal(run_notes);
    reveal(finish_notes);
    assert(seq![goal].drop_first() =~= Seq::<SGoal>::empty());
    assert(tactic_notes(tacs[0], goal, gl) == seq![sorry_note()]);
    assert(finish_notes(tacs, 1, Seq::<SGoal>::empty(), gl) == Seq::<Seq<char>>::empty());
    assert(seq![sorry_note()] + Seq::<Seq<char>>::empty() =~= seq![sorry_note()]);
}

}

verus! {

/// The search for a hypothesis finds the latest one among the first `n` whose
/// type is convertible with the target, and none exists when it finds nothing.
proof fn lemma_last_matching_hyp(hs: Seq<SHyp>, n: nat, target: SValue, level: usize, gl: SGlobals)
    requires
        n <= hs.len(),
    ensures
        match last_matching_hyp(hs, n, target, level, gl) {
            Some(k) => k < n && convertible(hs[k as int].2, target, level, gl)
                && forall|j: int| k < j < n ==> !convertible(#[trigger] hs[j].2, target, level, gl),
            None => forall|j: int| 0 <= j < n ==> !convertible(#[trigger] hs[j].2, target, level, gl),
        },
    decreases n,
{
    if n > 0 {
        lemma_last_matching_hyp(hs, (n - 1) as nat, target, level, gl);
    }
}

/// `assumption` closes the goal with the variable of a hypothesis whose type is
/// convertible with the target: the de Bruijn index `i` it returns names the
/// hypothesis `i` binders out from the latest, and no later hypothesis matches.
/// It fails exactly when no hypothesis matches.
pub proof fn lemma_assumption_uses_matching_hyp(g: SGoal, gl: SGlobals)
    requires
        g.hyps.len() <= usize::MAX,
    ensures
        match execute_spec(Tactic::Assumption, g, gl) {
            Ok(STacticResult::Complete(STerm::Var(i))) => i < g.hyps.len()
                && convertible(g.hyps[g.hyps.len() - 1 - i].2, g.target, g.level, gl)
                && forall|j: int| 0 <= j < i ==> !convertible(#[trigger] g.hyps[g.hyps.len() - 1 - j].2, g.target, g.level, gl),
            Ok(_) => false,
            Err(_) => forall|k: int| 0 <= k < g.hyps.len() ==> !convertible(#[trigger] g.hyps[k].2, g.target, g.level, gl),
        },
{
    lemma_last_matching_hyp(g.hyps, g.hyps.len(), g.target, g.level, gl);
    match last_matching_hyp(g.hyps, g.hyps.len(), g.target, g.level, gl) {
        Some(k) => {
            let i = (g.hyps.len() - 1 - k) as usize;
            assert(g.hyps.len() - 1 - i == k);
            assert forall|j: int| 0 <= j < i implies !convertible(#[trigger] g.hyps[g.hyps.len() - 1 - j].2, g.target, g.level, gl) by {
                assert(k < g.hyps.len() - 1 - j);
            }
        },
        None => {},
    }
}


/// `refl` proves only equations between convertible sides: when it succeeds the
/// target is `Eq A a b` with `a` and `b` convertible at the goal's level, and
/// the proof is `Eq.refl`; every such goal is proved.
pub proof fn lemma_refl_proves_equations(g: SGoal, gl: SGlobals)
    ensures
        execute_spec(Tactic::Refl, g, gl) is Ok <==> {
            &&& g.target is Neutral
            &&& g.target->Neutral_0.head == SHead::Global("Eq"@)
            &&& g.target->Neutral_0.spine.len() == 3
            &&& g.target->Neutral_0.spine[0] is App
            &&& g.target->Neutral_0.spine[1] is App
            &&& g.target->Neutral_0.spine[2] is App
            &&& convertible(
                g.target->Neutral_0.spine[1]->App_0,
                g.target->Neutral_0.spine[2]->App_0,
                g.level,
                gl,
            )
        },
        execute_spec(Tactic::Refl, g, gl) is Ok ==> execute_spec(Tactic::Refl, g, gl)
            == Ok::<STacticResult, Seq<char>>(STacticResult::Complete(STerm::Global("Eq.refl"@))),
{
}

/// `intro x` on a function type `Π(_ : A). B` adds the hypothesis `x : A` as the
/// latest, leaves `B` at a fresh variable of the goal's level as the target, and
/// raises the level by one; on any other target it fails.
pub proof fn lemma_intro_one(names: Vec<Name>, g: SGoal, gl: SGlobals)
    requires
        names@.len() == 1,
    ensures
        execute_spec(Tactic::Intro(names), g, gl) is Ok <==> g.target is Pi,
        g.target is Pi ==> (execute_spec(Tactic::Intro(names), g, gl) matches Ok(STacticResult::SubGoals(gs)) && gs.len() == 1 && {
            let g2 = gs[0];
            &&& g2.hyps.len() == g.hyps.len() + 1
            &&& g2.hyps.drop_last() == g.hyps
            &&& g2.hyps.last().0 == names@[0]@
            &&& g2.hyps.last().2 == *(g.target->Pi_1)
            &&& g2.target == closure_value(g.target->Pi_2, neutral_value(SHead::Var(g.level)), gl)
            &&& g2.level == g.level.wrapping_add(1)
        }),
{
    let ns = names_view(names@);
    assert(ns.drop_last() =~= Seq::<Seq<char>>::empty());
    assert(ns.last() == names@[0]@);
    assert(intro_names(ns.drop_last(), g, gl) == Ok::<SGoal, Seq<char>>(g));
    if g.target is Pi {
        let g2 = intro_step(g, ns.last(), gl)->Ok_0;
        assert(g2.hyps.drop_last() =~= g.hyps);
    }
}

}
