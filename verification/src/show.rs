//! Plain-text rendering of core terms with raw de Bruijn indices, as used in
//! error messages and goal displays.
use vstd::prelude::*;
use crate::term::{
    Term, MatchArm, STerm, SArm, arms_view, lemma_arms_view, Value, Neutral, NeutralHead, Elim, SValue, SNeutral, SHead,
    SElim, values_view, elims_view, lemma_values_view, lemma_elims_view,
};
use crate::text::{push_str, push_decimal, decimal, str_eq};

verus! {

pub open spec fn parens(s: Seq<char>) -> Seq<char> {
    "("@ + s + ")"@
}

pub open spec fn bool_text(b: bool) -> Seq<char> {
    if b { "true"@ } else { "false"@ }
}

/// The text of a term: variables as `#i`, universes as `Prop` / `Type n`,
/// anonymous binders as arrows, named binders as `∀ (x : A), B`.
#[verifier::opaque]
pub open spec fn term_text(t: STerm) -> Seq<char>
    decreases t,
{
    match t {
        STerm::Var(i) => "#"@ + decimal(i as nat),
        STerm::Global(n) => n,
        STerm::Sort(u) => if u == 0 { "Prop"@ } else { "Type "@ + decimal((u - 1) as nat) },
        STerm::Pi(n, a, b) => if n == "_"@ {
            term_text(*a) + " → "@ + term_text(*b)
        } else {
            "∀ ("@ + n + " : "@ + term_text(*a) + "), "@ + term_text(*b)
        },
        STerm::Lam(n, a, b) => "fun ("@ + n + " : "@ + term_text(*a) + ") => "@ + term_text(*b),
        STerm::App(f, x) => {
            let fs = match *f {
                STerm::Lam(..) | STerm::Pi(..) => parens(term_text(*f)),
                _ => term_text(*f),
            };
            let xs = match *x {
                STerm::App(..) | STerm::Lam(..) | STerm::Pi(..) => parens(term_text(*x)),
                _ => term_text(*x),
            };
            fs + " "@ + xs
        },
        STerm::Let(n, ty, v, b) => "let "@ + n + " : "@ + term_text(*ty) + " := "@ + term_text(*v) + " in "@ + term_text(*b),
        STerm::Nat(n) => decimal(n as nat),
        STerm::BoolLit(b) => bool_text(b),
        STerm::Constructor(_, c) => c,
        STerm::Recursor(i) => i + ".rec"@,
        STerm::Match { scrutinee, arms, .. } => "match "@ + term_text(*scrutinee) + " with"@ + arms_text(arms),
        STerm::If(c, x, y) => "if "@ + term_text(*c) + " then "@ + term_text(*x) + " else "@ + term_text(*y),
        STerm::Meta(m) => "?"@ + decimal(m as nat),
        STerm::Ann(e, ty) => parens(term_text(*e) + " : "@ + term_text(*ty)),
    }
}

/// Each arm rendered as ` | C => body`, in order.
#[verifier::opaque]
pub open spec fn arms_text(arms: Seq<SArm>) -> Seq<char>
    decreases arms,
{
    if arms.len() == 0 {
        Seq::empty()
    } else {
        let prefix = arms.subrange(0, arms.len() - 1);
        let a = arms[arms.len() - 1];
        arms_text(prefix) + " | "@ + a.ctor + " => "@ + term_text(a.body)
    }
}

/// Append `t` in parentheses.
fn write_parens(t: &Term, s: &mut String)
    ensures
        final(s)@ == old(s)@ + parens(term_text(t@)),
    decreases t, 1nat,
{
    push_str(s, "(");
    write_term(t, s);
    push_str(s, ")");
    assert(final(s)@ =~= old(s)@ + parens(term_text(t@)));
}

fn write_arms(arms: &Vec<MatchArm>, s: &mut String)
    ensures
        final(s)@ == old(s)@ + arms_text(arms_view(arms@)),
    decreases arms, 0nat,
{
    let ghost s0 = s@;
    proof {
        lemma_arms_view(arms@);
        reveal(arms_text);
        assert(arms_view(arms@).subrange(0, 0) =~= Seq::<SArm>::empty());
        assert(s0 + Seq::<char>::empty() =~= s0);
    }
    let n = arms.len();
    let mut i: usize = 0;
    while i < n
        invariant
            n == arms@.len(),
            i <= n,
            arms_view(arms@).len() == n,
            forall|j: int| 0 <= j < n ==> #[trigger] arms_view(arms@)[j] == arms@[j]@,
            s@ == s0 + arms_text(arms_view(arms@).subrange(0, i as int)),
        decreases n - i,
    {
        let a = &arms[i];
        assert(decreases_to!(*arms => arms@[i as int]));
        push_str(s, " | ");
        push_str(s, a.ctor.as_str());
        push_str(s, " => ");
        write_term(&a.body, s);
        proof {
            let av = arms_view(arms@);
            let pre = av.subrange(0, i + 1);
            assert(pre.subrange(0, pre.len() - 1) =~= av.subrange(0, i as int));
            assert(pre[pre.len() - 1] == av[i as int]);
            assert(av[i as int] == arms@[i as int]@);
            reveal(arms_text);
            reveal(term_text);
            assert(arms_text(pre) == arms_text(av.subrange(0, i as int)) + " | "@ + a.ctor@ + " => "@ + term_text(a.body@));
            assert(s@ =~= s0 + arms_text(pre));
        }
        i = i + 1;
    }
    assert(arms_view(arms@).subrange(0, n as int) =~= arms_view(arms@));
}

/// Append the text of `t` to `s`.
pub fn write_term(t: &Term, s: &mut String)
    ensures
        final(s)@ == old(s)@ + term_text(t@),
    decreases t, 0nat,
{
    let ghost s0 = s@;
    match t {
        Term::Var(i) => {
            push_str(s, "#");
            push_decimal(s, *i as u64);
            proof { reveal(term_text); reveal(arms_text); }
            assert(s@ =~= s0 + term_text(t@));
        },
        Term::Global(n) => {
            push_str(s, n.as_str());
            proof { reveal(term_text); reveal(arms_text); }
            assert(s@ =~= s0 + term_text(t@));
        },
        Term::Sort(u) => {
            if *u == 0 {
                push_str(s, "Prop");
            } else {
                push_str(s, "Type ");
                push_decimal(s, (*u - 1) as u64);
            }
            proof { reveal(term_text); reveal(arms_text); }
            assert(s@ =~= s0 + term_text(t@));
        },
        Term::Pi(n, a, b) => {
            if str_eq(n.as_str(), "_") {
                write_term(a, s);
                push_str(s, " → ");
                write_term(b, s);
            } else {
                push_str(s, "∀ (");
                push_str(s, n.as_str());
                push_str(s, " : ");
                write_term(a, s);
                push_str(s, "), ");
                write_term(b, s);
            }
            proof { reveal(term_text); reveal(arms_text); }
            assert(s@ =~= s0 + term_text(t@));
        },
        Term::Lam(n, a, b) => {
            push_str(s, "fun (");
            push_str(s, n.as_str());
            push_str(s, " : ");
            write_term(a, s);
            push_str(s, ") => ");
            write_term(b, s);
            proof { reveal(term_text); reveal(arms_text); }
            assert(s@ =~= s0 + term_text(t@));
        },
        Term::App(f, x) => {
            match &**f {
                Term::Lam(..) | Term::Pi(..) => write_parens(f, s),
                _ => write_term(f, s),
            }
            push_str(s, " ");
            match &**x {
                Term::App(..) | Term::Lam(..) | Term::Pi(..) => write_parens(x, s),
                _ => write_term(x, s),
            }
            proof { reveal(term_text); reveal(arms_text); }
            assert(s@ =~= s0 + term_text(t@));
        },
        Term::Let(n, ty, v, b) => {
            push_str(s, "let ");
            push_str(s, n.as_str());
            push_str(s, " : ");
            write_term(ty, s);
            push_str(s, " := ");
            write_term(v, s);
            push_str(s, " in ");
            write_term(b, s);
            proof { reveal(term_text); reveal(arms_text); }
            assert(s@ =~= s0 + term_text(t@));
        },
        Term::Nat(n) => {
            push_decimal(s, *n);
            proof { reveal(term_text); reveal(arms_text); }
            assert(s@ =~= s0 + term_text(t@));
        },
        Term::BoolLit(b) => {
            if *b {
                push_str(s, "true");
            } else {
                push_str(s, "false");
            }
            proof { reveal(term_text); reveal(arms_text); }
            assert(s@ =~= s0 + term_text(t@));
        },
        Term::Constructor(_, c) => {
            push_str(s, c.as_str());
            proof { reveal(term_text); reveal(arms_text); }
            assert(s@ =~= s0 + term_text(t@));
        },
        Term::Recursor(i) => {
            push_str(s, i.as_str());
            push_str(s, ".rec");
            proof { reveal(term_text); reveal(arms_text); }
            assert(s@ =~= s0 + term_text(t@));
        },
        Term::Match { scrutinee, arms, .. } => {
            push_str(s, "match ");
            write_term(scrutinee, s);
            push_str(s, " with");
            write_arms(arms, s);
            proof { reveal(term_text); reveal(arms_text); }
            assert(s@ =~= s0 + term_text(t@));
        },
        Term::If(c, x, y) => {
            push_str(s, "if ");
            write_term(c, s);
            push_str(s, " then ");
            write_term(x, s);
            push_str(s, " else ");
            write_term(y, s);
            proof { reveal(term_text); reveal(arms_text); }
            assert(s@ =~= s0 + term_text(t@));
        },
        Term::Meta(m) => {
            push_str(s, "?");
            push_decimal(s, *m as u64);
            proof { reveal(term_text); reveal(arms_text); }
            assert(s@ =~= s0 + term_text(t@));
        },
        Term::Ann(e, ty) => {
            push_str(s, "(");
            write_term(e, s);
            push_str(s, " : ");
            write_term(ty, s);
            push_str(s, ")");
            proof { reveal(term_text); reveal(arms_text); }
            assert(s@ =~= s0 + term_text(t@));
        },
    }
}

impl Term {
    /// The text of this term (its `Display` form).
    pub fn to_text(&self) -> (r: String)
        ensures
            r@ == term_text(self@),
    {
        let mut s = String::new();
        write_term(self, &mut s);
        assert(Seq::<char>::empty() + term_text(self@) =~= term_text(self@));
        s
    }
}


/// The text of a value: binders show their domain only, stuck terms show
/// their head and eliminators.
#[verifier::opaque]
pub open spec fn value_text(v: SValue) -> Seq<char>
    decreases v,
{
    match v {
        SValue::Neutral(n) => neutral_text(n),
        SValue::Sort(u) => if u == 0 { "Prop"@ } else { "Type "@ + decimal((u - 1) as nat) },
        SValue::Lam(name, ty, _) => "fun ("@ + name + " : "@ + value_text(*ty) + ") => ..."@,
        SValue::Pi(name, a, _) => if name == "_"@ {
            value_text(*a) + " → ..."@
        } else {
            "∀ ("@ + name + " : "@ + value_text(*a) + "), ..."@
        },
        SValue::Nat(n) => decimal(n as nat),
        SValue::BoolLit(b) => bool_text(b),
        SValue::Constructor(_, c, args) => if args.len() == 0 { c } else { "("@ + c + args_text(args) + ")"@ },
    }
}

/// Each argument preceded by a space.
#[verifier::opaque]
pub open spec fn args_text(args: Seq<SValue>) -> Seq<char>
    decreases args,
{
    if args.len() == 0 {
        Seq::empty()
    } else {
        args_text(args.subrange(0, args.len() - 1)) + " "@ + value_text(args[args.len() - 1])
    }
}

pub open spec fn head_text(h: SHead) -> Seq<char> {
    match h {
        SHead::Var(l) => "v"@ + decimal(l as nat),
        SHead::Global(n) => n,
        SHead::Meta(m) => "?"@ + decimal(m as nat),
    }
}

/// The head followed by its eliminators.
#[verifier::opaque]
pub open spec fn neutral_text(n: SNeutral) -> Seq<char>
    decreases n,
{
    head_text(n.head) + spine_text(n.spine)
}

#[verifier::opaque]
pub open spec fn spine_text(spine: Seq<SElim>) -> Seq<char>
    decreases spine,
{
    if spine.len() == 0 {
        Seq::empty()
    } else {
        spine_text(spine.subrange(0, spine.len() - 1)) + match spine[spine.len() - 1] {
            SElim::App(v) => " "@ + value_text(v),
            SElim::Match { .. } => " .match{...}"@,
            SElim::If(_, _) => " .if{...}"@,
        }
    }
}

fn write_decimal_usize(s: &mut String, n: usize)
    ensures
        final(s)@ == old(s)@ + decimal(n as nat),
{
    push_decimal(s, n as u64);
}

/// Append the text of a value.
pub fn write_value(v: &Value, s: &mut String)
    ensures
        final(s)@ == old(s)@ + value_text(v@),
    decreases v, 2nat,
{
    let ghost s0 = s@;
    match v {
        Value::Neutral(n) => {
            write_neutral(n, s);
            proof { reveal(value_text); reveal(args_text); reveal(neutral_text); reveal(spine_text); }
            assert(v@ == SValue::Neutral(n@));
            assert(s@ =~= s0 + value_text(v@));
        },
        Value::Sort(u) => {
            if *u == 0 {
                push_str(s, "Prop");
            } else {
                push_str(s, "Type ");
                push_decimal(s, (*u - 1) as u64);
            }
            proof { reveal(value_text); reveal(args_text); reveal(neutral_text); reveal(spine_text); }
            assert(s@ =~= s0 + value_text(v@));
        },
        Value::Lam(name, ty, _) => {
            push_str(s, "fun (");
            push_str(s, name.as_str());
            push_str(s, " : ");
            write_value(ty, s);
            push_str(s, ") => ...");
            proof { reveal(value_text); reveal(args_text); reveal(neutral_text); reveal(spine_text); }
            assert(s@ =~= s0 + value_text(v@));
        },
        Value::Pi(name, a, _) => {
            if str_eq(name.as_str(), "_") {
                write_value(a, s);
                push_str(s, " → ...");
            } else {
                push_str(s, "∀ (");
                push_str(s, name.as_str());
                push_str(s, " : ");
                write_value(a, s);
                push_str(s, "), ...");
            }
            proof { reveal(value_text); reveal(args_text); reveal(neutral_text); reveal(spine_text); }
            assert(s@ =~= s0 + value_text(v@));
        },
        Value::Nat(n) => {
            push_decimal(s, *n);
            proof { reveal(value_text); reveal(args_text); reveal(neutral_text); reveal(spine_text); }
            assert(s@ =~= s0 + value_text(v@));
        },
        Value::BoolLit(b) => {
            if *b {
                push_str(s, "true");
            } else {
                push_str(s, "false");
            }
            proof { reveal(value_text); reveal(args_text); reveal(neutral_text); reveal(spine_text); }
            assert(s@ =~= s0 + value_text(v@));
        },
        Value::Constructor(ind, c, args) => {
            proof {
                lemma_values_view(args@);
            }
            assert(v@ == SValue::Constructor(ind@, c@, values_view(args@)));
            if args.len() == 0 {
                push_str(s, c.as_str());
            } else {
                push_str(s, "(");
                push_str(s, c.as_str());
                write_args(args, s);
                push_str(s, ")");
            }
            proof { reveal(value_text); reveal(args_text); reveal(neutral_text); reveal(spine_text); }
            assert(s@ =~= s0 + value_text(v@));
        },
    }
}

fn write_args(args: &Vec<Value>, s: &mut String)
    ensures
        final(s)@ == old(s)@ + args_text(values_view(args@)),
    decreases args, 1nat,
{
    let ghost s0 = s@;
    let ghost av = values_view(args@);
    proof {
        lemma_values_view(args@);
        reveal(args_text);
        assert(av.subrange(0, 0) =~= Seq::<SValue>::empty());
        assert(s0 + Seq::<char>::empty() =~= s0);
    }
    let n = args.len();
    let mut i: usize = 0;
    while i < n
        invariant
            n == args@.len(),
            i <= n,
            av == values_view(args@),
            av.len() == n,
            forall|j: int| 0 <= j < n ==> #[trigger] av[j] == args@[j]@,
            s@ == s0 + args_text(av.subrange(0, i as int)),
        decreases n - i,
    {
        assert(decreases_to!(*args => args@[i as int]));
        push_str(s, " ");
        write_value(&args[i], s);
        proof {
            let pre = av.subrange(0, i + 1);
            assert(pre.subrange(0, pre.len() - 1) =~= av.subrange(0, i as int));
            assert(pre[pre.len() - 1] == av[i as int]);
            reveal(value_text);
            reveal(args_text);
            reveal(neutral_text);
            reveal(spine_text);
            assert(s@ =~= s0 + args_text(pre));
        }
        i = i + 1;
    }
    assert(av.subrange(0, n as int) =~= av);
}

/// Append the text of a neutral term.
pub fn write_neutral(n: &Neutral, s: &mut String)
    ensures
        final(s)@ == old(s)@ + neutral_text(n@),
    decreases n, 1nat,
{
    let ghost s0 = s@;
    match &n.head {
        NeutralHead::Var(l) => {
            push_str(s, "v");
            write_decimal_usize(s, *l);
        },
        NeutralHead::Global(g) => push_str(s, g.as_str()),
        NeutralHead::Meta(m) => {
            push_str(s, "?");
            write_decimal_usize(s, *m);
        },
    }
    assert(s@ =~= s0 + head_text(n@.head));
    let ghost s1 = s@;
    let ghost ev = elims_view(n.spine@);
    proof {
        lemma_elims_view(n.spine@);
        reveal(spine_text);
        assert(ev.subrange(0, 0) =~= Seq::<SElim>::empty());
        assert(s1 + Seq::<char>::empty() =~= s1);
    }
    let len = n.spine.len();
    let mut i: usize = 0;
    while i < len
        invariant
            len == n.spine@.len(),
            i <= len,
            ev == elims_view(n.spine@),
            ev.len() == len,
            forall|j: int| 0 <= j < len ==> #[trigger] ev[j] == n.spine@[j]@,
            s@ == s1 + spine_text(ev.subrange(0, i as int)),
        decreases len - i,
    {
        assert(decreases_to!(n.spine => n.spine@[i as int]));
        match &n.spine[i] {
            Elim::App(v) => {
                push_str(s, " ");
                write_value(v, s);
            },
            Elim::Match { .. } => push_str(s, " .match{...}"),
            Elim::If(_, _) => push_str(s, " .if{...}"),
        }
        proof {
            let pre = ev.subrange(0, i + 1);
            assert(pre.subrange(0, pre.len() - 1) =~= ev.subrange(0, i as int));
            assert(pre[pre.len() - 1] == ev[i as int]);
            reveal(value_text);
            reveal(args_text);
            reveal(neutral_text);
            reveal(spine_text);
            assert(s@ =~= s1 + spine_text(pre));
        }
        i = i + 1;
    }
    assert(ev.subrange(0, len as int) =~= ev);
    proof {
        reveal(value_text);
        reveal(args_text);
        reveal(neutral_text);
        reveal(spine_text);
    }
    assert(s@ =~= s0 + neutral_text(n@));
}

impl Value {
    /// The text of this value (its `Display` form).
    pub fn to_text(&self) -> (r: String)
        ensures
            r@ == value_text(self@),
    {
        let mut s = String::new();
        write_value(self, &mut s);
        assert(Seq::<char>::empty() + value_text(self@) =~= value_text(self@));
        s
    }
}

impl Neutral {
    /// The text of this neutral term (its `Display` form).
    pub fn to_text(&self) -> (r: String)
        ensures
            r@ == neutral_text(self@),
    {
        let mut s = String::new();
        write_neutral(self, &mut s);
        assert(Seq::<char>::empty() + neutral_text(self@) =~= neutral_text(self@));
        s
    }
}

}
