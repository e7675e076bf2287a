//! Driver: processes top-level commands by elaborating, type checking,
//! evaluating and recording them in the global environment.
use vstd::prelude::*;
use crate::ast::{self, Command, ProofBody, Expr};
use crate::term::{Term, Name, STerm};
use crate::env::{
    GlobalEnv, InductiveDef, ConstructorDef, Definition, SGlobals, SInductive, SCtorDef, SDefinition, params_view,
    ctors_view, clone_params, clone_ctors,
};
use crate::elaborate::{LocalCtx, elaborate_expr, elab_f};
use crate::eval::{eval, quote, eval_value, quote_term};
use crate::typecheck::{TypeCtx, infer, check, infer_f, check_f, type_error_text};
use crate::tactics::{Goal, SGoal, run_tactics_noting, run_loop, run_notes, texts_view};
use crate::pretty::{pretty_term, pp_text};
use crate::prelude::{add_axiom_spec, add_def_spec, add_inductive_spec};
use crate::text::push_str;

verus! {

pub type Outcome = (Result<Seq<char>, Seq<char>>, SGlobals);

/// How a term is shown in messages.
pub open spec fn pretty_text(t: STerm) -> Seq<char> {
    pp_text(t, Seq::empty())
}

/// The type a definition gets: the declared one, or else the inferred type of its body.
pub open spec fn def_type_outcome(declared: Option<STerm>, body: STerm, g: SGlobals) -> Result<STerm, Seq<char>> {
    match declared {
        Some(t) => Ok(t),
        None => match infer_f(body, Seq::empty(), g).0 {
            Err(e) => Err(type_error_text(e)),
            Ok((_, tv)) => Ok(quote_term(tv, 0, g)),
        },
    }
}

/// `def name : ty := body`. A declared type is first recorded as an axiom so that
/// the body may refer to the name; the definition replaces it once the body checks.
pub open spec fn def_outcome(name: Seq<char>, ty: Option<Expr>, body: Expr, g: SGlobals) -> Outcome {
    let (rt, c1, g1): (Result<Option<STerm>, Seq<char>>, Seq<Seq<char>>, SGlobals) = match ty {
        Some(te) => {
            let (r, c) = elab_f(te, Seq::empty());
            match r {
                Err(m) => (Err(m), c, g),
                Ok(t) => (Ok(Some(t)), c, add_axiom_spec(g, name, t)),
            }
        },
        None => (Ok(None), Seq::empty(), g),
    };
    match rt {
        Err(m) => (Err(m), g1),
        Ok(declared) => match elab_f(body, c1).0 {
            Err(m) => (Err(m), g1),
            Ok(bt) => match def_type_outcome(declared, bt, g1) {
                Err(m) => (Err(m), g1),
                Ok(tt) => match check_f(bt, eval_value(tt, Seq::empty(), g1), Seq::empty(), g1).0 {
                    Err(e) => (Err(type_error_text(e)), g1),
                    Ok(_) => (Ok("'"@ + name + "' defined : "@ + pretty_text(tt)), add_def_spec(g1, name, tt, bt)),
                },
            },
        },
    }
}

/// The proof term a proof body gives for a statement, elaborated in context `c`.
pub open spec fn proof_outcome(body: ProofBody, ty_term: STerm, c: Seq<Seq<char>>, g: SGlobals) -> Result<STerm, Seq<char>> {
    let ty_val = eval_value(ty_term, Seq::empty(), g);
    match body {
        ProofBody::Term(e) => match elab_f(e, c).0 {
            Err(m) => Err(m),
            Ok(t) => match check_f(t, ty_val, Seq::empty(), g).0 {
                Err(er) => Err(type_error_text(er)),
                Ok(_) => Ok(t),
            },
        },
        ProofBody::Tactic(tacs) => run_loop(
            tacs@,
            0,
            seq![SGoal { hyps: Seq::empty(), target: ty_val, target_term: ty_term, level: 0 }],
            g,
        ),
    }
}

/// `theorem name : ty := proof`: the proof is recorded as the definition of the name.
pub open spec fn theorem_outcome(name: Seq<char>, ty: Expr, body: ProofBody, g: SGlobals) -> Outcome {
    let (rt, c) = elab_f(ty, Seq::empty());
    match rt {
        Err(m) => (Err(m), g),
        Ok(tt) => match proof_outcome(body, tt, c, g) {
            Err(m) => (Err(m), g),
            Ok(p) => (Ok("theorem '"@ + name + "' proved : "@ + pretty_text(tt)), add_def_spec(g, name, tt, p)),
        },
    }
}

/// `axiom name : ty`: the type must be well formed.
pub open spec fn axiom_outcome(name: Seq<char>, ty: Expr, g: SGlobals) -> Outcome {
    match elab_f(ty, Seq::empty()).0 {
        Err(m) => (Err(m), g),
        Ok(tt) => match infer_f(tt, Seq::empty(), g).0 {
            Err(e) => (Err(type_error_text(e)), g),
            Ok(_) => (Ok("axiom '"@ + name + "' : "@ + pretty_text(tt)), add_axiom_spec(g, name, tt)),
        },
    }
}

/// The parameters of an inductive type, each elaborated with the earlier ones bound.
pub open spec fn params_outcome(ps: Seq<(Name, Expr)>, c: Seq<Seq<char>>) -> (Result<Seq<(Seq<char>, STerm)>, Seq<char>>, Seq<Seq<char>>)
    decreases ps.len(),
{
    if ps.len() == 0 {
        (Ok(Seq::empty()), c)
    } else {
        let (r, c1) = params_outcome(ps.drop_last(), c);
        match r {
            Err(m) => (Err(m), c1),
            Ok(es) => {
                let (rt, c2) = elab_f(ps.last().1, c1);
                match rt {
                    Err(m) => (Err(m), c2),
                    Ok(t) => (Ok(es.push((ps.last().0@, t))), c2.push(ps.last().0@)),
                }
            },
        }
    }
}

/// The constructors of an inductive type, elaborated in order.
pub open spec fn ctors_outcome(cs: Seq<ast::Constructor>, c: Seq<Seq<char>>) -> (Result<Seq<SCtorDef>, Seq<char>>, Seq<Seq<char>>)
    decreases cs.len(),
{
    if cs.len() == 0 {
        (Ok(Seq::empty()), c)
    } else {
        let (r, c1) = ctors_outcome(cs.drop_last(), c);
        match r {
            Err(m) => (Err(m), c1),
            Ok(es) => {
                let (rt, c2) = elab_f(cs.last().ty, c1);
                match rt {
                    Err(m) => (Err(m), c2),
                    Ok(t) => (Ok(es.push(SCtorDef { name: cs.last().name@, ty: t })), c2),
                }
            },
        }
    }
}

/// The report of a new inductive type: one line per constructor.
pub open spec fn ctor_lines(cs: Seq<SCtorDef>) -> Seq<char>
    decreases cs.len(),
{
    if cs.len() == 0 {
        Seq::empty()
    } else {
        ctor_lines(cs.drop_last()) + "\n  | "@ + cs.last().name + " : "@ + pretty_text(cs.last().ty)
    }
}

/// The environment after registering an inductive type: its name as an axiom, then
/// its constructors and the type itself.
pub open spec fn inductive_registered(g: SGlobals, name: Seq<char>, ps: Seq<(Seq<char>, STerm)>, ty: STerm, cs: Seq<SCtorDef>) -> SGlobals {
    add_inductive_spec(add_axiom_spec(g, name, ty), SInductive { name, params: ps, ty, constructors: cs })
}

/// `inductive name params : ty where | c : ty ...`
pub open spec fn inductive_outcome(name: Seq<char>, ps: Seq<(Name, Expr)>, ty: Expr, cs: Seq<ast::Constructor>, g: SGlobals) -> Outcome {
    let (rp, c1) = params_outcome(ps, Seq::empty());
    match rp {
        Err(m) => (Err(m), g),
        Ok(eps) => {
            let (rt, c2) = elab_f(ty, c1);
            match rt {
                Err(m) => (Err(m), g),
                Ok(tt) => match ctors_outcome(cs, c2).0 {
                    Err(m) => (Err(m), g),
                    Ok(ecs) => (
                        Ok("inductive '"@ + name + "' defined"@ + ctor_lines(ecs)),
                        inductive_registered(g, name, eps, tt, ecs),
                    ),
                },
            }
        },
    }
}

/// `#check e`: the elaborated term and its inferred type.
pub open spec fn check_outcome(e: Expr, g: SGlobals) -> Result<Seq<char>, Seq<char>> {
    match elab_f(e, Seq::empty()).0 {
        Err(m) => Err(m),
        Ok(t) => match infer_f(t, Seq::empty(), g).0 {
            Err(er) => Err(type_error_text(er)),
            Ok((elab, tv)) => Ok(pretty_text(elab) + " : "@ + pretty_text(quote_term(tv, 0, g))),
        },
    }
}

/// `#eval e`: the normal form of the term.
pub open spec fn eval_outcome(e: Expr, g: SGlobals) -> Result<Seq<char>, Seq<char>> {
    match elab_f(e, Seq::empty()).0 {
        Err(m) => Err(m),
        Ok(t) => Ok(pretty_text(quote_term(eval_value(t, Seq::empty(), g), 0, g))),
    }
}

/// `#print name`.
pub open spec fn print_outcome(name: Seq<char>, g: SGlobals) -> Result<Seq<char>, Seq<char>> {
    if g.defs.contains_key(name) {
        match g.defs[name] {
            SDefinition::Def { ty, body } => Ok("def "@ + name + " : "@ + pretty_text(ty) + " :=\n  "@ + pretty_text(body)),
            SDefinition::Axiom { ty } => Ok("axiom "@ + name + " : "@ + pretty_text(ty)),
            SDefinition::Constructor { inductive, ty, .. } => Ok("constructor "@ + inductive + "."@ + name + " : "@ + pretty_text(ty)),
            SDefinition::Recursor { inductive, ty } => Ok("recursor "@ + inductive + ".rec : "@ + pretty_text(ty)),
        }
    } else if g.inductives.contains_key(name) {
        Ok("inductive "@ + name + " : "@ + pretty_text(g.inductives[name].ty) + ctor_lines(g.inductives[name].constructors))
    } else {
        Err("Unknown name '"@ + name + "'"@)
    }
}

/// `example : ty := proof`: checked but not recorded.
pub open spec fn example_outcome(ty: Expr, body: ProofBody, g: SGlobals) -> Result<Seq<char>, Seq<char>> {
    let (rt, c) = elab_f(ty, Seq::empty());
    match rt {
        Err(m) => Err(m),
        Ok(tt) => match proof_outcome(body, tt, c, g) {
            Err(m) => Err(m),
            Ok(_) => Ok("example : "@ + pretty_text(tt) + " ✓"@),
        },
    }
}

/// The notices that proving a statement gives: those of the tactics that run.
pub open spec fn proof_notes(body: ProofBody, ty_term: STerm, g: SGlobals) -> Seq<Seq<char>> {
    match body {
        ProofBody::Term(_) => Seq::empty(),
        ProofBody::Tactic(tacs) => run_notes(
            tacs@,
            0,
            seq![SGoal { hyps: Seq::empty(), target: eval_value(ty_term, Seq::empty(), g), target_term: ty_term, level: 0 }],
            g,
        ),
    }
}

/// The notices of a theorem or an example: none unless its statement elaborates.
pub open spec fn statement_notes(ty: Expr, body: ProofBody, g: SGlobals) -> Seq<Seq<char>> {
    match elab_f(ty, Seq::empty()).0 {
        Err(_) => Seq::empty(),
        Ok(tt) => proof_notes(body, tt, g),
    }
}

/// The notices (warnings and traces) that processing a command gives.
pub open spec fn command_notes(cmd: Command, g: SGlobals) -> Seq<Seq<char>> {
    match cmd {
        Command::Theorem { ty, body, .. } => statement_notes(ty, body, g),
        Command::Example { ty, body } => statement_notes(ty, body, g),
        _ => Seq::empty(),
    }
}

/// What processing a command reports, and the environment it leaves.
pub open spec fn command_outcome(cmd: Command, g: SGlobals) -> Outcome {
    match cmd {
        Command::Def { name, ty, body } => def_outcome(name@, ty, body, g),
        Command::Theorem { name, ty, body } => theorem_outcome(name@, ty, body, g),
        Command::Axiom { name, ty } => axiom_outcome(name@, ty, g),
        Command::Inductive { name, params, ty, constructors } => inductive_outcome(name@, params@, ty, constructors@, g),
        Command::Check(e) => (check_outcome(e, g), g),
        Command::Eval(e) => (eval_outcome(e, g), g),
        Command::Print(name) => (print_outcome(name@, g), g),
        Command::Example { ty, body } => (example_outcome(ty, body, g), g),
    }
}

}

verus! {

pub open spec fn msg_view(r: Result<String, String>) -> Result<Seq<char>, Seq<char>> {
    match r {
        Ok(s) => Ok(s@),
        Err(s) => Err(s@),
    }
}

fn join3(a: &str, b: &str, c: &str) -> (r: String)
    ensures
        r@ == a@ + b@ + c@,
{
    let mut s = String::new();
    push_str(&mut s, a);
    push_str(&mut s, b);
    push_str(&mut s, c);
    assert(s@ =~= a@ + b@ + c@);
    s
}

/// The proof term of a theorem or example: a checked term, or the result of the tactics.
fn prove(
    body: &ProofBody,
    ty_term: &Term,
    ty_val: &crate::term::Value,
    ctx: &mut LocalCtx,
    globals: &GlobalEnv,
    notes: &mut Vec<String>,
) -> (r: Result<Term, String>)
    requires
        ty_val@ == eval_value(ty_term@, Seq::empty(), globals@),
    ensures
        crate::tactics::proof_result_view(r) == proof_outcome(*body, ty_term@, old(ctx)@, globals@),
        texts_view(final(notes)@) == texts_view(old(notes)@) + proof_notes(*body, ty_term@, globals@),
{
    assert(texts_view(notes@) + Seq::<Seq<char>>::empty() =~= texts_view(notes@));
    match body {
        ProofBody::Term(expr) => {
            let term = match elaborate_expr(expr, ctx, globals) {
                Ok(t) => t,
                Err(m) => return Err(m),
            };
            let mut tc_ctx = TypeCtx::new();
            match check(&term, ty_val, &mut tc_ctx, globals) {
                Ok(_) => {},
                Err(e) => return Err(e.to_text()),
            }
            Ok(term)
        },
        ProofBody::Tactic(tactics) => {
            let goal = Goal::new(ty_val.clone(), ty_term.clone());
            assert(goal@ == SGoal { hyps: Seq::empty(), target: ty_val@, target_term: ty_term@, level: 0 });
            run_tactics_noting(tactics.as_slice(), goal, globals, notes)
        },
    }
}

fn process_def(name: &str, ty: &Option<Expr>, body: &Expr, globals: &mut GlobalEnv) -> (r: Result<String, String>)
    ensures
        msg_view(r) == def_outcome(name@, *ty, *body, old(globals)@).0,
        final(globals)@ == def_outcome(name@, *ty, *body, old(globals)@).1,
        old(globals).keys_unique() ==> final(globals).keys_unique(),
{
    let mut ctx = LocalCtx::new();
    let ty_term: Option<Term> = match ty {
        Some(ty_expr) => {
            let t = match elaborate_expr(ty_expr, &mut ctx, globals) {
                Ok(t) => t,
                Err(m) => return Err(m),
            };
            globals.add_axiom(name.to_string(), t.clone());
            assert(globals@ =~= add_axiom_spec(old(globals)@, name@, t@));
            Some(t)
        },
        None => None,
    };
    let ghost g1 = globals@;
    let body_term = match elaborate_expr(body, &mut ctx, globals) {
        Ok(t) => t,
        Err(m) => return Err(m),
    };
    let ty_term = match ty_term {
        Some(t) => t,
        None => {
            let mut tc_ctx = TypeCtx::new();
            let (_, ty_val) = match infer(&body_term, &mut tc_ctx, globals) {
                Ok(p) => p,
                Err(e) => return Err(e.to_text()),
            };
            quote(&ty_val, 0, globals)
        },
    };
    let mut tc_ctx = TypeCtx::new();
    let ty_val = eval(&ty_term, &Vec::new(), globals);
    match check(&body_term, &ty_val, &mut tc_ctx, globals) {
        Ok(_) => {},
        Err(e) => return Err(e.to_text()),
    }
    let pretty = pretty_term(&ty_term);
    globals.add_def(name.to_string(), ty_term, body_term);
    assert(globals@ =~= def_outcome(name@, *ty, *body, old(globals)@).1);
    Ok(join3("'", name, "' defined : ").concat(pretty.as_str()))
}

fn process_theorem(name: &str, ty_expr: &Expr, body: &ProofBody, globals: &mut GlobalEnv, notes: &mut Vec<String>) -> (r: Result<String, String>)
    ensures
        msg_view(r) == theorem_outcome(name@, *ty_expr, *body, old(globals)@).0,
        final(globals)@ == theorem_outcome(name@, *ty_expr, *body, old(globals)@).1,
        old(globals).keys_unique() ==> final(globals).keys_unique(),
        texts_view(final(notes)@) == texts_view(old(notes)@) + statement_notes(*ty_expr, *body, old(globals)@),
{
    assert(texts_view(notes@) + Seq::<Seq<char>>::empty() =~= texts_view(notes@));
    let mut ctx = LocalCtx::new();
    let ty_term = match elaborate_expr(ty_expr, &mut ctx, globals) {
        Ok(t) => t,
        Err(m) => return Err(m),
    };
    let ty_val = eval(&ty_term, &Vec::new(), globals);
    let proof_term = match prove(body, &ty_term, &ty_val, &mut ctx, globals, notes) {
        Ok(t) => t,
        Err(m) => return Err(m),
    };
    let pretty = pretty_term(&ty_term);
    globals.add_def(name.to_string(), ty_term, proof_term);
    assert(globals@ =~= theorem_outcome(name@, *ty_expr, *body, old(globals)@).1);
    Ok(join3("theorem '", name, "' proved : ").concat(pretty.as_str()))
}

fn process_axiom(name: &str, ty_expr: &Expr, globals: &mut GlobalEnv) -> (r: Result<String, String>)
    ensures
        msg_view(r) == axiom_outcome(name@, *ty_expr, old(globals)@).0,
        final(globals)@ == axiom_outcome(name@, *ty_expr, old(globals)@).1,
        old(globals).keys_unique() ==> final(globals).keys_unique(),
{
    let mut ctx = LocalCtx::new();
    let ty_term = match elaborate_expr(ty_expr, &mut ctx, globals) {
        Ok(t) => t,
        Err(m) => return Err(m),
    };
    let mut tc_ctx = TypeCtx::new();
    match infer(&ty_term, &mut tc_ctx, globals) {
        Ok(_) => {},
        Err(e) => return Err(e.to_text()),
    }
    let pretty = pretty_term(&ty_term);
    globals.add_axiom(name.to_string(), ty_term);
    assert(globals@ =~= axiom_outcome(name@, *ty_expr, old(globals)@).1);
    Ok(join3("axiom '", name, "' : ").concat(pretty.as_str()))
}

/// Once a prefix of the parameters fails, elaborating all of them fails the same way.
proof fn lemma_params_err_extends(ps: Seq<(Name, Expr)>, i: int, c: Seq<Seq<char>>)
    requires
        0 <= i <= ps.len(),
        params_outcome(ps.subrange(0, i), c).0 is Err,
    ensures
        params_outcome(ps, c) == params_outcome(ps.subrange(0, i), c),
    decreases ps.len(),
{
    if i == ps.len() {
        assert(ps.subrange(0, i) =~= ps);
    } else {
        let pre = ps.drop_last();
        assert(pre.subrange(0, i) =~= ps.subrange(0, i));
        lemma_params_err_extends(pre, i, c);
    }
}

/// Once a prefix of the constructors fails, elaborating all of them fails the same way.
proof fn lemma_ctors_err_extends(cs: Seq<ast::Constructor>, i: int, c: Seq<Seq<char>>)
    requires
        0 <= i <= cs.len(),
        ctors_outcome(cs.subrange(0, i), c).0 is Err,
    ensures
        ctors_outcome(cs, c) == ctors_outcome(cs.subrange(0, i), c),
    decreases cs.len(),
{
    if i == cs.len() {
        assert(cs.subrange(0, i) =~= cs);
    } else {
        let pre = cs.drop_last();
        assert(pre.subrange(0, i) =~= cs.subrange(0, i));
        lemma_ctors_err_extends(pre, i, c);
    }
}

/// Append one line per constructor.
fn push_ctor_lines(cs: &Vec<ConstructorDef>, out: &mut String)
    ensures
        final(out)@ == old(out)@ + ctor_lines(ctors_view(cs@)),
{
    let ghost o0 = out@;
    let ghost cv = ctors_view(cs@);
    assert(cv.subrange(0, 0) =~= Seq::<SCtorDef>::empty());
    assert(o0 + Seq::<char>::empty() =~= o0);
    let n = cs.len();
    let mut i: usize = 0;
    while i < n
        invariant
            n == cs@.len(),
            cv == ctors_view(cs@),
            i <= n,
            out@ == o0 + ctor_lines(cv.subrange(0, i as int)),
        decreases n - i,
    {
        push_str(out, "\n  | ");
        push_str(out, cs[i].name.as_str());
        push_str(out, " : ");
        let p = pretty_term(&cs[i].ty);
        push_str(out, p.as_str());
        proof {
            let pre = cv.subrange(0, i + 1);
            assert(pre.drop_last() =~= cv.subrange(0, i as int));
            assert(pre.last() == cs@[i as int]@);
            assert(out@ =~= o0 + ctor_lines(pre));
        }
        i = i + 1;
    }
    assert(cv.subrange(0, n as int) =~= cv);
}

/// Register an inductive type: its name as an axiom of its type, then the type itself.
fn env_add_inductive(globals: &mut GlobalEnv, name: &str, params: &Vec<(Name, Term)>, ty: &Term, ctors: &Vec<ConstructorDef>)
    ensures
        final(globals)@ == inductive_registered(old(globals)@, name@, params_view(params@), ty@, ctors_view(ctors@)),
        old(globals).keys_unique() ==> final(globals).keys_unique(),
{
    globals.insert_def(name.to_string(), Definition::Axiom { ty: ty.clone() });
    let ind = InductiveDef {
        name: name.to_string(),
        params: clone_params(params),
        ty: ty.clone(),
        constructors: clone_ctors(ctors),
    };
    globals.add_inductive(ind);
    assert(globals@ =~= inductive_registered(old(globals)@, name@, params_view(params@), ty@, ctors_view(ctors@)));
}

fn process_inductive(
    name: &str,
    params: &Vec<(Name, Expr)>,
    ty_expr: &Expr,
    ctors: &Vec<ast::Constructor>,
    globals: &mut GlobalEnv,
) -> (r: Result<String, String>)
    ensures
        msg_view(r) == inductive_outcome(name@, params@, *ty_expr, ctors@, old(globals)@).0,
        final(globals)@ == inductive_outcome(name@, params@, *ty_expr, ctors@, old(globals)@).1,
        old(globals).keys_unique() ==> final(globals).keys_unique(),
{
    let mut ctx = LocalCtx::new();
    let ghost c0 = ctx@;
    let mut elab_params: Vec<(Name, Term)> = Vec::new();
    assert(params@.subrange(0, 0) =~= Seq::<(Name, Expr)>::empty());
    assert(params_view(elab_params@) =~= Seq::<(Seq<char>, STerm)>::empty());
    let np = params.len();
    let mut i: usize = 0;
    while i < np
        invariant
            np == params@.len(),
            i <= np,
            c0 == Seq::<Seq<char>>::empty(),
            globals@ == old(globals)@,
            params_outcome(params@.subrange(0, i as int), c0) == (
                Ok::<Seq<(Seq<char>, STerm)>, Seq<char>>(params_view(elab_params@)),
                ctx@,
            ),
        decreases np - i,
    {
        let ghost pre = params@.subrange(0, i + 1);
        proof {
            assert(pre.drop_last() =~= params@.subrange(0, i as int));
            assert(pre.last() == params@[i as int]);
        }
        let p = &params[i];
        let pty_term = match elaborate_expr(&p.1, &mut ctx, globals) {
            Ok(t) => t,
            Err(m) => {
                proof {
                    lemma_params_err_extends(params@, i + 1, c0);
                }
                return Err(m);
            },
        };
        ctx.bind(p.0.clone());
        let ghost old_elab = elab_params@;
        elab_params.push((p.0.clone(), pty_term));
        assert(params_view(elab_params@) =~= params_view(old_elab).push((p.0@, pty_term@)));
        i = i + 1;
    }
    assert(params@.subrange(0, np as int) =~= params@);
    let ghost c1 = ctx@;
    let ty_term = match elaborate_expr(ty_expr, &mut ctx, globals) {
        Ok(t) => t,
        Err(m) => return Err(m),
    };
    let ghost c2 = ctx@;
    let mut elab_ctors: Vec<ConstructorDef> = Vec::new();
    assert(ctors@.subrange(0, 0) =~= Seq::<ast::Constructor>::empty());
    assert(ctors_view(elab_ctors@) =~= Seq::<SCtorDef>::empty());
    let nc = ctors.len();
    let mut j: usize = 0;
    while j < nc
        invariant
            nc == ctors@.len(),
            j <= nc,
            globals@ == old(globals)@,
            c0 == Seq::<Seq<char>>::empty(),
            params_outcome(params@, c0) == (Ok::<Seq<(Seq<char>, STerm)>, Seq<char>>(params_view(elab_params@)), c1),
            elab_f(*ty_expr, c1) == (Ok::<STerm, Seq<char>>(ty_term@), c2),
            ctors_outcome(ctors@.subrange(0, j as int), c2) == (Ok::<Seq<SCtorDef>, Seq<char>>(ctors_view(elab_ctors@)), ctx@),
        decreases nc - j,
    {
        let ghost pre = ctors@.subrange(0, j + 1);
        proof {
            assert(pre.drop_last() =~= ctors@.subrange(0, j as int));
            assert(pre.last() == ctors@[j as int]);
        }
        let ctor = &ctors[j];
        let ctor_ty = match elaborate_expr(&ctor.ty, &mut ctx, globals) {
            Ok(t) => t,
            Err(m) => {
                proof {
                    lemma_ctors_err_extends(ctors@, j + 1, c2);
                }
                return Err(m);
            },
        };
        let ghost old_elab = elab_ctors@;
        elab_ctors.push(ConstructorDef { name: ctor.name.clone(), ty: ctor_ty });
        assert(ctors_view(elab_ctors@) =~= ctors_view(old_elab).push(SCtorDef { name: ctor.name@, ty: ctor_ty@ }));
        j = j + 1;
    }
    assert(ctors@.subrange(0, nc as int) =~= ctors@);
    let mut k: usize = 0;
    while k < np
        decreases np - k,
    {
        ctx.unbind();
        k = k + 1;
    }
    env_add_inductive(globals, name, &elab_params, &ty_term, &elab_ctors);
    let mut msg = join3("inductive '", name, "' defined");
    push_ctor_lines(&elab_ctors, &mut msg);
    Ok(msg)
}

fn process_check(expr: &Expr, globals: &GlobalEnv) -> (r: Result<String, String>)
    ensures
        msg_view(r) == check_outcome(*expr, globals@),
{
    let mut ctx = LocalCtx::new();
    let term = match elaborate_expr(expr, &mut ctx, globals) {
        Ok(t) => t,
        Err(m) => return Err(m),
    };
    let mut tc_ctx = TypeCtx::new();
    let (elab, ty_val) = match infer(&term, &mut tc_ctx, globals) {
        Ok(p) => p,
        Err(e) => return Err(e.to_text()),
    };
    let ty_term = quote(&ty_val, 0, globals);
    let a = pretty_term(&elab);
    let b = pretty_term(&ty_term);
    Ok(join3(a.as_str(), " : ", b.as_str()))
}

fn process_eval(expr: &Expr, globals: &GlobalEnv) -> (r: Result<String, String>)
    ensures
        msg_view(r) == eval_outcome(*expr, globals@),
{
    let mut ctx = LocalCtx::new();
    let term = match elaborate_expr(expr, &mut ctx, globals) {
        Ok(t) => t,
        Err(m) => return Err(m),
    };
    let val = eval(&term, &Vec::new(), globals);
    let result = quote(&val, 0, globals);
    Ok(pretty_term(&result))
}

fn process_print(name: &str, globals: &GlobalEnv) -> (r: Result<String, String>)
    ensures
        msg_view(r) == print_outcome(name@, globals@),
{
    match globals.lookup(name) {
        Some(Definition::Def { ty, body }) => {
            let mut s = join3("def ", name, " : ");
            push_str(&mut s, pretty_term(ty).as_str());
            push_str(&mut s, " :=\n  ");
            push_str(&mut s, pretty_term(body).as_str());
            Ok(s)
        },
        Some(Definition::Axiom { ty }) => Ok(join3("axiom ", name, " : ").concat(pretty_term(ty).as_str())),
        Some(Definition::Constructor { inductive, ty, .. }) => {
            let mut s = join3("constructor ", inductive.as_str(), ".");
            push_str(&mut s, name);
            push_str(&mut s, " : ");
            push_str(&mut s, pretty_term(ty).as_str());
            Ok(s)
        },
        Some(Definition::Recursor { inductive, ty }) => Ok(
            join3("recursor ", inductive.as_str(), ".rec : ").concat(pretty_term(ty).as_str()),
        ),
        None => match globals.lookup_inductive(name) {
            Some(ind) => {
                let mut s = join3("inductive ", name, " : ");
                push_str(&mut s, pretty_term(&ind.ty).as_str());
                push_ctor_lines(&ind.constructors, &mut s);
                Ok(s)
            },
            None => Err(join3("Unknown name '", name, "'")),
        },
    }
}

fn process_example(ty_expr: &Expr, body: &ProofBody, globals: &GlobalEnv, notes: &mut Vec<String>) -> (r: Result<String, String>)
    ensures
        msg_view(r) == example_outcome(*ty_expr, *body, globals@),
        texts_view(final(notes)@) == texts_view(old(notes)@) + statement_notes(*ty_expr, *body, globals@),
{
    assert(texts_view(notes@) + Seq::<Seq<char>>::empty() =~= texts_view(notes@));
    let mut ctx = LocalCtx::new();
    let ty_term = match elaborate_expr(ty_expr, &mut ctx, globals) {
        Ok(t) => t,
        Err(m) => return Err(m),
    };
    let ty_val = eval(&ty_term, &Vec::new(), globals);
    match prove(body, &ty_term, &ty_val, &mut ctx, globals, notes) {
        Ok(_) => {},
        Err(m) => return Err(m),
    }
    Ok(join3("example : ", pretty_term(&ty_term).as_str(), " ✓"))
}

/// Process a single command: the message it reports, with the environment updated.
pub fn process_command(cmd: &Command, globals: &mut GlobalEnv) -> (r: Result<String, String>)
    ensures
        msg_view(r) == command_outcome(*cmd, old(globals)@).0,
        final(globals)@ == command_outcome(*cmd, old(globals)@).1,
        old(globals).keys_unique() ==> final(globals).keys_unique(),
{
    let mut notes: Vec<String> = Vec::new();
    process_command_noting(cmd, globals, &mut notes)
}

/// Process a single command as `process_command` does, adding to `notes` the
/// warnings and traces that its tactics give (an admitted goal, the simplifier's
/// normal form), in the order in which they arise.
pub fn process_command_noting(cmd: &Command, globals: &mut GlobalEnv, notes: &mut Vec<String>) -> (r: Result<String, String>)
    ensures
        msg_view(r) == command_outcome(*cmd, old(globals)@).0,
        final(globals)@ == command_outcome(*cmd, old(globals)@).1,
        old(globals).keys_unique() ==> final(globals).keys_unique(),
        texts_view(final(notes)@) == texts_view(old(notes)@) + command_notes(*cmd, old(globals)@),
{
    assert(texts_view(notes@) + Seq::<Seq<char>>::empty() =~= texts_view(notes@));
    match cmd {
        Command::Def { name, ty, body } => process_def(name.as_str(), ty, body, globals),
        Command::Theorem { name, ty, body } => process_theorem(name.as_str(), ty, body, globals, notes),
        Command::Axiom { name, ty } => process_axiom(name.as_str(), ty, globals),
        Command::Inductive { name, params, ty, constructors } => process_inductive(name.as_str(), params, ty, constructors, globals),
        Command::Check(expr) => process_check(expr, globals),
        Command::Eval(expr) => process_eval(expr, globals),
        Command::Print(name) => process_print(name.as_str(), globals),
        Command::Example { ty, body } => process_example(ty, body, globals, notes),
    }
}

}

verus! {

/// Queries (`#check`, `#eval`, `#print`, `example`) never change the environment.
pub proof fn lemma_queries_keep_env(cmd: Command, g: SGlobals)
    requires
        cmd is Check || cmd is Eval || cmd is Print || cmd is Example,
    ensures
        command_outcome(cmd, g).1 == g,
{
}

/// A refused theorem, axiom or inductive type leaves the environment unchanged.
pub proof fn lemma_refused_command_keeps_env(cmd: Command, g: SGlobals)
    requires
        cmd is Theorem || cmd is Axiom || cmd is Inductive,
        command_outcome(cmd, g).0 is Err,
    ensures
        command_outcome(cmd, g).1 == g,
{
}

/// An accepted definition or theorem binds its name to a definition, and only that
/// name changes.
pub proof fn lemma_accepted_definition_recorded(cmd: Command, g: SGlobals, other: Seq<char>)
    requires
        cmd is Def || cmd is Theorem,
        command_outcome(cmd, g).0 is Ok,
    ensures
        ({
            let name = if cmd is Def { cmd->Def_name@ } else { cmd->Theorem_name@ };
            let g2 = command_outcome(cmd, g).1;
            &&& g2.defs.contains_key(name)
            &&& g2.defs[name] is Def
            &&& g2.inductives == g.inductives
            &&& (other != name && g.defs.contains_key(other) ==> g2.defs.contains_key(other) && g2.defs[other] == g.defs[other])
        }),
{
}

}
