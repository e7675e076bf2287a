//! Pretty printer for core terms: renders bound variables by their binder names.
use vstd::prelude::*;
use crate::term::{Term, MatchArm, Value, DbLevel, STerm, SArm, arms_view, lemma_arms_view};
use crate::env::GlobalEnv;
use crate::eval::{quote, quote_term};
use crate::elaborate::names_view;
use crate::show::parens;
use crate::text::{push_str, push_decimal, decimal, str_eq};

verus! {

/// Names `x0 x1 ... x(n-1)` separated by spaces.
pub open spec fn arg_names_text(n: nat) -> Seq<char>
    decreases n,
{
    if n == 0 {
        Seq::empty()
    } else if n == 1 {
        "x"@ + decimal(0)
    } else {
        arg_names_text((n - 1) as nat) + " "@ + ("x"@ + decimal((n - 1) as nat))
    }
}

/// The names `x0`, ..., `x(n-1)` that match arms bind.
pub open spec fn arg_names(n: nat) -> Seq<Seq<char>> {
    Seq::new(n, |i: int| "x"@ + decimal(i as nat))
}

/// The rendering of a term in a context of binder names (the innermost last).
#[verifier::opaque]
pub open spec fn pp_text(t: STerm, ctx: Seq<Seq<char>>) -> Seq<char>
    decreases t,
{
    match t {
        STerm::Var(i) => if i < ctx.len() { ctx[ctx.len() - 1 - i] } else { "#"@ + decimal(i as nat) },
        STerm::Global(n) => n,
        STerm::Sort(u) => if u == 0 {
            "Prop"@
        } else if u == 1 {
            "Type"@
        } else {
            "Type "@ + decimal((u - 1) as nat)
        },
        STerm::Pi(name, a, b) => if name == "_"@ {
            let a_str = match *a {
                STerm::Lam(..) | STerm::Pi(..) | STerm::Let(..) | STerm::If(..) => parens(pp_text(*a, ctx)),
                _ => pp_text(*a, ctx),
            };
            a_str + " -> "@ + pp_text(*b, ctx.push("_"@))
        } else {
            "("@ + name + " : "@ + pp_text(*a, ctx) + ") -> "@ + pp_text(*b, ctx.push(name))
        },
        STerm::Lam(name, a, body) => "fun ("@ + name + " : "@ + pp_text(*a, ctx) + ") => "@ + pp_text(*body, ctx.push(name)),
        STerm::App(f, x) => {
            let f_str = match *f {
                STerm::Lam(..) | STerm::Pi(..) | STerm::Let(..) => parens(pp_text(*f, ctx)),
                _ => pp_text(*f, ctx),
            };
            let x_str = match *x {
                STerm::App(..) | STerm::Lam(..) | STerm::Pi(..) | STerm::Let(..) | STerm::If(..) => parens(pp_text(*x, ctx)),
                _ => pp_text(*x, ctx),
            };
            f_str + " "@ + x_str
        },
        STerm::Let(name, ty, val, body) => "let "@ + name + " : "@ + pp_text(*ty, ctx) + " := "@ + pp_text(*val, ctx) + " in "@
            + pp_text(*body, ctx.push(name)),
        STerm::Nat(n) => decimal(n as nat),
        STerm::BoolLit(b) => if b { "true"@ } else { "false"@ },
        STerm::Constructor(_, c) => c,
        STerm::Recursor(i) => i + ".rec"@,
        STerm::Match { scrutinee, arms, .. } => "match "@ + pp_text(*scrutinee, ctx) + " with"@ + pp_arms_text(arms, ctx) + " end"@,
        STerm::If(c, x, y) => "if "@ + pp_text(*c, ctx) + " then "@ + pp_text(*x, ctx) + " else "@ + pp_text(*y, ctx),
        STerm::Meta(m) => "?"@ + decimal(m as nat),
        STerm::Ann(e, ty) => parens(pp_text(*e, ctx) + " : "@ + pp_text(*ty, ctx)),
    }
}

/// Each arm as ` | C x0 ... => body`, the body rendered with the argument names bound.
#[verifier::opaque]
pub open spec fn pp_arms_text(arms: Seq<SArm>, ctx: Seq<Seq<char>>) -> Seq<char>
    decreases arms,
{
    if arms.len() == 0 {
        Seq::empty()
    } else {
        let a = arms[arms.len() - 1];
        let body = pp_text(a.body, ctx + arg_names(a.arity as nat));
        pp_arms_text(arms.subrange(0, arms.len() - 1), ctx) + (if a.arity > 0 {
            " | "@ + a.ctor + " "@ + arg_names_text(a.arity as nat) + " => "@ + body
        } else {
            " | "@ + a.ctor + " => "@ + body
        })
    }
}

fn arg_name_string(i: usize) -> (r: String)
    ensures
        r@ == "x"@ + decimal(i as nat),
{
    let mut s = "x".to_string();
    push_decimal(&mut s, i as u64);
    s
}

/// Append `t` in parentheses.
fn pp_parens(term: &Term, ctx: &mut Vec<String>, out: &mut String)
    ensures
        final(out)@ == old(out)@ + parens(pp_text(term@, names_view(old(ctx)@))),
        final(ctx)@ == old(ctx)@,
    decreases term, 1nat,
{
    push_str(out, "(");
    pp(term, ctx, out);
    push_str(out, ")");
    assert(out@ =~= old(out)@ + parens(pp_text(term@, names_view(old(ctx)@))));
}

/// Append `term` in function position (parenthesized when it is a binder).
fn pp_func(term: &Term, ctx: &mut Vec<String>, out: &mut String)
    ensures
        final(out)@ == old(out)@ + (match term@ {
            STerm::Lam(..) | STerm::Pi(..) | STerm::Let(..) => parens(pp_text(term@, names_view(old(ctx)@))),
            _ => pp_text(term@, names_view(old(ctx)@)),
        }),
        final(ctx)@ == old(ctx)@,
    decreases term, 2nat,
{
    match term {
        Term::Lam(..) | Term::Pi(..) | Term::Let(..) => pp_parens(term, ctx, out),
        _ => pp(term, ctx, out),
    }
}

/// Append `term` at application level (parenthesized when it is a binder or a conditional).
fn pp_app(term: &Term, ctx: &mut Vec<String>, out: &mut String)
    ensures
        final(out)@ == old(out)@ + (match term@ {
            STerm::Lam(..) | STerm::Pi(..) | STerm::Let(..) | STerm::If(..) => parens(pp_text(term@, names_view(old(ctx)@))),
            _ => pp_text(term@, names_view(old(ctx)@)),
        }),
        final(ctx)@ == old(ctx)@,
    decreases term, 2nat,
{
    match term {
        Term::Lam(..) | Term::Pi(..) | Term::Let(..) | Term::If(..) => pp_parens(term, ctx, out),
        _ => pp(term, ctx, out),
    }
}

/// Append `term` in argument position (parenthesized unless it is atomic).
fn pp_atom(term: &Term, ctx: &mut Vec<String>, out: &mut String)
    ensures
        final(out)@ == old(out)@ + (match term@ {
            STerm::App(..) | STerm::Lam(..) | STerm::Pi(..) | STerm::Let(..) | STerm::If(..) => parens(
                pp_text(term@, names_view(old(ctx)@)),
            ),
            _ => pp_text(term@, names_view(old(ctx)@)),
        }),
        final(ctx)@ == old(ctx)@,
    decreases term, 2nat,
{
    match term {
        Term::App(..) | Term::Lam(..) | Term::Pi(..) | Term::Let(..) | Term::If(..) => pp_parens(term, ctx, out),
        _ => pp(term, ctx, out),
    }
}

/// Append `body` rendered with `name` bound.
fn pp_under(name: &String, body: &Term, ctx: &mut Vec<String>, out: &mut String)
    ensures
        final(out)@ == old(out)@ + pp_text(body@, names_view(old(ctx)@).push(name@)),
        final(ctx)@ == old(ctx)@,
    decreases body, 1nat,
{
    let ghost c0 = ctx@;
    ctx.push(name.clone());
    assert(names_view(ctx@) =~= names_view(c0).push(name@));
    pp(body, ctx, out);
    ctx.pop();
    assert(ctx@ =~= c0);
}

/// Append the rendering of `term` with the binder names `ctx` in scope.
fn pp(term: &Term, ctx: &mut Vec<String>, out: &mut String)
    ensures
        final(out)@ == old(out)@ + pp_text(term@, names_view(old(ctx)@)),
        final(ctx)@ == old(ctx)@,
    decreases term, 0nat,
{
    let ghost o0 = out@;
    let ghost cv = names_view(ctx@);
    match term {
        Term::Var(i) => {
            if *i < ctx.len() {
                let n = ctx.len();
                assert(cv[n - 1 - *i] == ctx@[n - 1 - *i]@);
                push_str(out, ctx[n - 1 - *i].as_str());
            } else {
                push_str(out, "#");
                push_decimal(out, *i as u64);
            }
            proof { reveal(pp_text); reveal(pp_arms_text); }
            assert(out@ =~= o0 + pp_text(term@, cv));
        },
        Term::Global(n) => {
            push_str(out, n.as_str());
            proof { reveal(pp_text); reveal(pp_arms_text); }
            assert(out@ =~= o0 + pp_text(term@, cv));
        },
        Term::Sort(u) => {
            if *u == 0 {
                push_str(out, "Prop");
            } else if *u == 1 {
                push_str(out, "Type");
            } else {
                push_str(out, "Type ");
                push_decimal(out, (*u - 1) as u64);
            }
            proof { reveal(pp_text); reveal(pp_arms_text); }
            assert(out@ =~= o0 + pp_text(term@, cv));
        },
        Term::Pi(name, a, b) => {
            if str_eq(name.as_str(), "_") {
                pp_app(a, ctx, out);
                push_str(out, " -> ");
                let under = "_".to_string();
                pp_under(&under, b, ctx, out);
            } else {
                push_str(out, "(");
                push_str(out, name.as_str());
                push_str(out, " : ");
                pp(a, ctx, out);
                push_str(out, ") -> ");
                pp_under(name, b, ctx, out);
            }
            proof { reveal(pp_text); reveal(pp_arms_text); }
            assert(out@ =~= o0 + pp_text(term@, cv));
        },
        Term::Lam(name, a, body) => {
            push_str(out, "fun (");
            push_str(out, name.as_str());
            push_str(out, " : ");
            pp(a, ctx, out);
            push_str(out, ") => ");
            pp_under(name, body, ctx, out);
            proof { reveal(pp_text); reveal(pp_arms_text); }
            assert(out@ =~= o0 + pp_text(term@, cv));
        },
        Term::App(f, x) => {
            pp_func(f, ctx, out);
            push_str(out, " ");
            pp_atom(x, ctx, out);
            proof { reveal(pp_text); reveal(pp_arms_text); }
            assert(out@ =~= o0 + pp_text(term@, cv));
        },
        Term::Let(name, ty, val, body) => {
            push_str(out, "let ");
            push_str(out, name.as_str());
            push_str(out, " : ");
            pp(ty, ctx, out);
            push_str(out, " := ");
            pp(val, ctx, out);
            push_str(out, " in ");
            pp_under(name, body, ctx, out);
            proof { reveal(pp_text); reveal(pp_arms_text); }
            assert(out@ =~= o0 + pp_text(term@, cv));
        },
        Term::Nat(n) => {
            push_decimal(out, *n);
            proof { reveal(pp_text); reveal(pp_arms_text); }
            assert(out@ =~= o0 + pp_text(term@, cv));
        },
        Term::BoolLit(b) => {
            if *b {
                push_str(out, "true");
            } else {
                push_str(out, "false");
            }
            proof { reveal(pp_text); reveal(pp_arms_text); }
            assert(out@ =~= o0 + pp_text(term@, cv));
        },
        Term::Constructor(_, ctor) => {
            push_str(out, ctor.as_str());
            proof { reveal(pp_text); reveal(pp_arms_text); }
            assert(out@ =~= o0 + pp_text(term@, cv));
        },
        Term::Recursor(ind) => {
            push_str(out, ind.as_str());
            push_str(out, ".rec");
            proof { reveal(pp_text); reveal(pp_arms_text); }
            assert(out@ =~= o0 + pp_text(term@, cv));
        },
        Term::Match { scrutinee, arms, .. } => {
            push_str(out, "match ");
            pp(scrutinee, ctx, out);
            push_str(out, " with");
            pp_arms(arms, ctx, out);
            push_str(out, " end");
            proof { reveal(pp_text); reveal(pp_arms_text); }
            assert(out@ =~= o0 + pp_text(term@, cv));
        },
        Term::If(c, t, e) => {
            push_str(out, "if ");
            pp(c, ctx, out);
            push_str(out, " then ");
            pp(t, ctx, out);
            push_str(out, " else ");
            pp(e, ctx, out);
            proof { reveal(pp_text); reveal(pp_arms_text); }
            assert(out@ =~= o0 + pp_text(term@, cv));
        },
        Term::Meta(id) => {
            push_str(out, "?");
            push_decimal(out, *id as u64);
            proof { reveal(pp_text); reveal(pp_arms_text); }
            assert(out@ =~= o0 + pp_text(term@, cv));
        },
        Term::Ann(e, ty) => {
            push_str(out, "(");
            pp(e, ctx, out);
            push_str(out, " : ");
            pp(ty, ctx, out);
            push_str(out, ")");
            proof { reveal(pp_text); reveal(pp_arms_text); }
            assert(out@ =~= o0 + pp_text(term@, cv));
        },
    }
}

/// Append the arms of a match, each with its argument names bound.
fn pp_arms(arms: &Vec<MatchArm>, ctx: &mut Vec<String>, out: &mut String)
    ensures
        final(out)@ == old(out)@ + pp_arms_text(arms_view(arms@), names_view(old(ctx)@)),
        final(ctx)@ == old(ctx)@,
    decreases arms, 1nat,
{
    let ghost o0 = out@;
    let ghost c0 = ctx@;
    let ghost av = arms_view(arms@);
    proof {
        lemma_arms_view(arms@);
        reveal(pp_text);
        reveal(pp_arms_text);
        assert(av.subrange(0, 0) =~= Seq::<SArm>::empty());
        assert(o0 + Seq::<char>::empty() =~= o0);
    }
    let n = arms.len();
    let mut i: usize = 0;
    while i < n
        invariant
            n == arms@.len(),
            i <= n,
            av == arms_view(arms@),
            av.len() == n,
            forall|j: int| 0 <= j < n ==> #[trigger] av[j] == arms@[j]@,
            ctx@ == c0,
            out@ == o0 + pp_arms_text(av.subrange(0, i as int), names_view(c0)),
        decreases n - i,
    {
        let arm = &arms[i];
        assert(decreases_to!(*arms => arms@[i as int]));
        let ghost before = out@;
        let mut arg_names_vec: Vec<String> = Vec::new();
        let mut k: usize = 0;
        while k < arm.arity
            invariant
                k <= arm.arity,
                names_view(arg_names_vec@) == arg_names(k as nat),
                ctx@ == c0 + arg_names_vec@,
            decreases arm.arity - k,
        {
            let nm = arg_name_string(k);
            let ghost old_v = arg_names_vec@;
            arg_names_vec.push(nm.clone());
            ctx.push(nm);
            assert(names_view(arg_names_vec@) =~= names_view(old_v).push(nm@));
            assert(arg_names((k + 1) as nat) =~= arg_names(k as nat).push("x"@ + decimal(k as nat)));
            k = k + 1;
            assert(names_view(arg_names_vec@) =~= arg_names(k as nat));
            assert(ctx@ =~= c0 + arg_names_vec@);
        }
        assert(names_view(ctx@) =~= names_view(c0) + arg_names(arm.arity as nat));
        let mut body_text = String::new();
        pp(&arm.body, ctx, &mut body_text);
        let mut k2: usize = 0;
        while k2 < arm.arity
            invariant
                k2 <= arm.arity,
                arg_names_vec@.len() == arm.arity,
                ctx@ == c0 + arg_names_vec@.subrange(0, arm.arity - k2),
            decreases arm.arity - k2,
        {
            ctx.pop();
            k2 = k2 + 1;
            assert(ctx@ =~= c0 + arg_names_vec@.subrange(0, arm.arity - k2));
        }
        assert(ctx@ =~= c0);
        push_str(out, " | ");
        push_str(out, arm.ctor.as_str());
        if arm.arity > 0 {
            push_str(out, " ");
            join_arg_names(&arg_names_vec, out);
        }
        push_str(out, " => ");
        push_str(out, body_text.as_str());
        proof {
            let pre = av.subrange(0, i + 1);
            assert(pre.subrange(0, pre.len() - 1) =~= av.subrange(0, i as int));
            assert(pre[pre.len() - 1] == av[i as int]);
            reveal(pp_text);
            reveal(pp_arms_text);
            assert(out@ =~= o0 + pp_arms_text(pre, names_view(c0)));
        }
        i = i + 1;
    }
    assert(av.subrange(0, n as int) =~= av);
}

/// Append the names separated by single spaces.
fn join_arg_names(names: &Vec<String>, out: &mut String)
    requires
        names@.len() > 0,
        names_view(names@) == arg_names(names@.len()),
    ensures
        final(out)@ == old(out)@ + arg_names_text(names@.len()),
{
    let ghost o0 = out@;
    assert(names_view(names@)[0] == names@[0]@);
    push_str(out, names[0].as_str());
    assert(arg_names(names@.len())[0] == "x"@ + decimal(0));
    assert(out@ =~= o0 + arg_names_text(1));
    let n = names.len();
    let mut i: usize = 1;
    while i < n
        invariant
            n == names@.len(),
            1 <= i <= n,
            names_view(names@) == arg_names(n as nat),
            out@ == o0 + arg_names_text(i as nat),
        decreases n - i,
    {
        assert(names_view(names@)[i as int] == names@[i as int]@);
        push_str(out, " ");
        push_str(out, names[i].as_str());
        i = i + 1;
        assert(out@ =~= o0 + arg_names_text(i as nat));
    }
}

/// Render a core term with human-readable variable names.
pub fn pretty_term(term: &Term) -> (r: String)
    ensures
        r@ == pp_text(term@, Seq::empty()),
{
    let mut ctx: Vec<String> = Vec::new();
    let mut out = String::new();
    assert(names_view(ctx@) =~= Seq::<Seq<char>>::empty());
    pp(term, &mut ctx, &mut out);
    assert(Seq::<char>::empty() + pp_text(term@, Seq::empty()) =~= pp_text(term@, Seq::empty()));
    out
}

/// Render a value by reading it back at level `lvl`.
pub fn pretty_value(val: &Value, lvl: DbLevel, globals: &GlobalEnv) -> (r: String)
    ensures
        r@ == pp_text(quote_term(val@, lvl, globals@), Seq::empty()),
{
    let term = quote(val, lvl, globals);
    pretty_term(&term)
}

}
