//! Building nested binders from parameter lists.
use vstd::prelude::*;
use crate::ast::{Expr, Name};

verus! {

/// `fun (x1 : T1) => ... => fun (xn : Tn) => body`.
pub open spec fn wrap_lams_spec(params: Seq<(Name, Expr)>, body: Expr) -> Expr
    decreases params.len(),
{
    if params.len() == 0 {
        body
    } else {
        Expr::Lam(params[0].0, Box::new(params[0].1), Box::new(wrap_lams_spec(params.drop_first(), body)))
    }
}

/// `(x1 : T1) -> ... -> (xn : Tn) -> body`.
pub open spec fn wrap_pis_spec(params: Seq<(Name, Expr)>, body: Expr) -> Expr
    decreases params.len(),
{
    if params.len() == 0 {
        body
    } else {
        Expr::Pi(params[0].0, Box::new(params[0].1), Box::new(wrap_pis_spec(params.drop_first(), body)))
    }
}

proof fn lemma_wrap_lams_push(s: Seq<(Name, Expr)>, p: (Name, Expr), body: Expr)
    ensures
        wrap_lams_spec(s.push(p), body) == wrap_lams_spec(s, Expr::Lam(p.0, Box::new(p.1), Box::new(body))),
    decreases s.len(),
{
    if s.len() > 0 {
        assert(s.push(p).drop_first() =~= s.drop_first().push(p));
        lemma_wrap_lams_push(s.drop_first(), p, body);
        assert(s.push(p)[0] == s[0]);
        assert(wrap_lams_spec(s.push(p), body) == Expr::Lam(s[0].0, Box::new(s[0].1), Box::new(wrap_lams_spec(s.drop_first().push(p), body))));
    } else {
        assert(s.push(p).drop_first() =~= s);
        assert(s.push(p)[0] == p);
        assert(wrap_lams_spec(s.push(p), body) == Expr::Lam(p.0, Box::new(p.1), Box::new(wrap_lams_spec(s, body))));
    }
}

proof fn lemma_wrap_pis_push(s: Seq<(Name, Expr)>, p: (Name, Expr), body: Expr)
    ensures
        wrap_pis_spec(s.push(p), body) == wrap_pis_spec(s, Expr::Pi(p.0, Box::new(p.1), Box::new(body))),
    decreases s.len(),
{
    if s.len() > 0 {
        assert(s.push(p).drop_first() =~= s.drop_first().push(p));
        lemma_wrap_pis_push(s.drop_first(), p, body);
        assert(s.push(p)[0] == s[0]);
        assert(wrap_pis_spec(s.push(p), body) == Expr::Pi(s[0].0, Box::new(s[0].1), Box::new(wrap_pis_spec(s.drop_first().push(p), body))));
    } else {
        assert(s.push(p).drop_first() =~= s);
        assert(s.push(p)[0] == p);
        assert(wrap_pis_spec(s.push(p), body) == Expr::Pi(p.0, Box::new(p.1), Box::new(wrap_pis_spec(s, body))));
    }
}

/// Wrap `body` in one lambda per parameter, the first parameter outermost.
pub fn wrap_lams(params: Vec<(Name, Expr)>, body: Expr) -> (r: Expr)
    ensures
        r == wrap_lams_spec(params@, body),
{
    let ghost all = params@;
    let mut params = params;
    let mut acc = body;
    while params.len() > 0
        invariant
            wrap_lams_spec(all, body) == wrap_lams_spec(params@, acc),
        decreases params@.len(),
    {
        let ghost before = params@;
        let (name, ty) = params.pop().unwrap();
        proof {
            assert(before == params@.push((name, ty)));
            lemma_wrap_lams_push(params@, (name, ty), acc);
        }
        acc = Expr::Lam(name, Box::new(ty), Box::new(acc));
    }
    acc
}

/// Wrap `body` in one dependent function type per parameter, the first parameter outermost.
pub fn wrap_pis(params: Vec<(Name, Expr)>, body: Expr) -> (r: Expr)
    ensures
        r == wrap_pis_spec(params@, body),
{
    let ghost all = params@;
    let mut params = params;
    let mut acc = body;
    while params.len() > 0
        invariant
            wrap_pis_spec(all, body) == wrap_pis_spec(params@, acc),
        decreases params@.len(),
    {
        let ghost before = params@;
        let (name, ty) = params.pop().unwrap();
        proof {
            assert(before == params@.push((name, ty)));
            lemma_wrap_pis_push(params@, (name, ty), acc);
        }
        acc = Expr::Pi(name, Box::new(ty), Box::new(acc));
    }
    acc
}

}
