//! The structural (`Debug`) rendering of core terms and values: every
//! constructor by its name, with its fields in order, names quoted.
use vstd::prelude::*;
use crate::term::{
    Term, MatchArm, STerm, SArm, arms_view, opt_term_view, lemma_arms_view, Value, Neutral, NeutralHead, Elim, Closure, Name, SValue,
    SNeutral, SHead, SElim, SClosure, values_view, elims_view, clo_arms_view, clo_arm_view, lemma_values_view, lemma_elims_view,
    lemma_clo_arms_view,
};
use crate::text::{push_str, push_decimal, decimal};
use crate::show::bool_text;
use crate::eval::opt_value_view;

verus! {

/// The name for what std's `Debug` of a string slice writes: the text in double
/// quotes, with some characters escaped.
pub uninterp spec fn quoted(s: Seq<char>) -> Seq<char>;

/// Printable ASCII other than the quotes and the backslash: characters that
/// the `Debug` form of a string keeps as they are.
pub open spec fn plain_ascii(s: Seq<char>) -> bool {
    forall|i: int|
        0 <= i < s.len() ==> {
            let c = #[trigger] s[i];
            0x20 <= (c as u32) && (c as u32) <= 0x7e && c != '"' && c != '\\' && c != '\''
        }
}

/// `<str as Debug>::fmt` of std, through `format!("{:?}", s)`: the text in
/// double quotes. Its result is a function of the text alone, named `quoted`;
/// a text of printable ASCII without quotes or backslashes is kept as it is,
/// since only quotes, backslashes, control and non-printable characters are
/// escaped. What an escape looks like is not stated.
#[verifier::external_body]
fn debug_str(s: &str) -> (r: String)
    ensures
        r@ == quoted(s@),
        plain_ascii(s@) ==> r@ == "\""@ + s@ + "\""@,
{
    format!("{:?}", s)
}

/// `", "` before every item but the first.
pub open spec fn sep(k: int) -> Seq<char> {
    if k == 0 { Seq::empty() } else { ", "@ }
}

/// A tuple-like constructor: its name and opening bracket, then its fields.
pub open spec fn paren1(open: Seq<char>, a: Seq<char>) -> Seq<char> {
    open + a + ")"@
}

pub open spec fn paren2(open: Seq<char>, a: Seq<char>, b: Seq<char>) -> Seq<char> {
    open + a + ", "@ + b + ")"@
}

pub open spec fn paren3(open: Seq<char>, a: Seq<char>, b: Seq<char>, c: Seq<char>) -> Seq<char> {
    open + a + ", "@ + b + ", "@ + c + ")"@
}

/// The `Debug` text of a term.
#[verifier::opaque]
pub open spec fn term_debug(t: STerm) -> Seq<char>
    decreases t,
{
    match t {
        STerm::Var(i) => paren1("Var("@, decimal(i as nat)),
        STerm::Global(n) => paren1("Global("@, quoted(n)),
        STerm::Sort(u) => paren1("Sort("@, decimal(u as nat)),
        STerm::Pi(n, a, b) => paren3("Pi("@, quoted(n), term_debug(*a), term_debug(*b)),
        STerm::Lam(n, a, b) => paren3("Lam("@, quoted(n), term_debug(*a), term_debug(*b)),
        STerm::App(f, x) => paren2("App("@, term_debug(*f), term_debug(*x)),
        STerm::Let(n, ty, v, b) => "Let("@ + quoted(n) + ", "@ + term_debug(*ty) + ", "@ + term_debug(*v) + ", "@
            + term_debug(*b) + ")"@,
        STerm::Nat(n) => paren1("Nat("@, decimal(n as nat)),
        STerm::BoolLit(b) => paren1("BoolLit("@, bool_text(b)),
        STerm::Constructor(i, c) => paren2("Constructor("@, quoted(i), quoted(c)),
        STerm::Recursor(i) => paren1("Recursor("@, quoted(i)),
        STerm::Match { scrutinee, motive, arms } => "Match { scrutinee: "@ + term_debug(*scrutinee) + ", motive: "@
            + motive_debug(motive) + ", arms: ["@ + term_arms_debug(arms) + "] }"@,
        STerm::If(c, x, y) => paren3("If("@, term_debug(*c), term_debug(*x), term_debug(*y)),
        STerm::Meta(m) => paren1("Meta("@, decimal(m as nat)),
        STerm::Ann(e, ty) => paren2("Ann("@, term_debug(*e), term_debug(*ty)),
    }
}

/// The motive of a match term, if any.
#[verifier::opaque]
pub open spec fn motive_debug(m: Option<Box<STerm>>) -> Seq<char>
    decreases m,
{
    match m {
        Some(t) => paren1("Some("@, term_debug(*t)),
        None => "None"@,
    }
}

/// The arms of a match term, separated by commas.
#[verifier::opaque]
pub open spec fn term_arms_debug(arms: Seq<SArm>) -> Seq<char>
    decreases arms,
{
    if arms.len() == 0 {
        Seq::empty()
    } else {
        let a = arms[arms.len() - 1];
        term_arms_debug(arms.subrange(0, arms.len() - 1)) + sep(arms.len() - 1) + "MatchArm { ctor: "@ + quoted(a.ctor)
            + ", arity: "@ + decimal(a.arity as nat) + ", body: "@ + term_debug(a.body) + " }"@
    }
}

/// The `Debug` text of a value.
#[verifier::opaque]
pub open spec fn value_debug(v: SValue) -> Seq<char>
    decreases v,
{
    match v {
        SValue::Neutral(n) => paren1("Neutral("@, neutral_debug(n)),
        SValue::Sort(u) => paren1("Sort("@, decimal(u as nat)),
        SValue::Lam(n, a, c) => paren3("Lam("@, quoted(n), value_debug(*a), closure_debug(c)),
        SValue::Pi(n, a, c) => paren3("Pi("@, quoted(n), value_debug(*a), closure_debug(c)),
        SValue::Nat(n) => paren1("Nat("@, decimal(n as nat)),
        SValue::BoolLit(b) => paren1("BoolLit("@, bool_text(b)),
        SValue::Constructor(i, c, args) => paren3("Constructor("@, quoted(i), quoted(c), "["@ + values_debug(args) + "]"@),
    }
}

/// A list of values, separated by commas.
#[verifier::opaque]
pub open spec fn values_debug(vs: Seq<SValue>) -> Seq<char>
    decreases vs,
{
    if vs.len() == 0 {
        Seq::empty()
    } else {
        values_debug(vs.subrange(0, vs.len() - 1)) + sep(vs.len() - 1) + value_debug(vs[vs.len() - 1])
    }
}

pub open spec fn head_debug(h: SHead) -> Seq<char> {
    match h {
        SHead::Var(l) => paren1("Var("@, decimal(l as nat)),
        SHead::Global(n) => paren1("Global("@, quoted(n)),
        SHead::Meta(m) => paren1("Meta("@, decimal(m as nat)),
    }
}

/// The `Debug` text of a neutral term.
#[verifier::opaque]
pub open spec fn neutral_debug(n: SNeutral) -> Seq<char>
    decreases n,
{
    "Neutral { head: "@ + head_debug(n.head) + ", spine: ["@ + elims_debug(n.spine) + "] }"@
}

/// A list of eliminators, separated by commas.
#[verifier::opaque]
pub open spec fn elims_debug(es: Seq<SElim>) -> Seq<char>
    decreases es,
{
    if es.len() == 0 {
        Seq::empty()
    } else {
        elims_debug(es.subrange(0, es.len() - 1)) + sep(es.len() - 1) + elim_debug(es[es.len() - 1])
    }
}

/// The `Debug` text of an eliminator.
#[verifier::opaque]
pub open spec fn elim_debug(e: SElim) -> Seq<char>
    decreases e,
{
    match e {
        SElim::App(v) => paren1("App("@, value_debug(v)),
        SElim::Match { motive, arms } => "Match { motive: "@ + value_motive_debug(motive) + ", arms: ["@
            + clo_arms_debug(arms) + "] }"@,
        SElim::If(t, e) => paren2("If("@, value_debug(t), value_debug(e)),
    }
}

/// The motive of a stuck match, if any.
#[verifier::opaque]
pub open spec fn value_motive_debug(m: Option<SValue>) -> Seq<char>
    decreases m,
{
    match m {
        Some(v) => paren1("Some("@, value_debug(v)),
        None => "None"@,
    }
}

/// The `Debug` text of a closure.
#[verifier::opaque]
pub open spec fn closure_debug(c: SClosure) -> Seq<char>
    decreases c,
{
    "Closure { env: ["@ + values_debug(c.env) + "], body: "@ + term_debug(c.body) + " }"@
}

/// The arms of a stuck match, each a tuple of name, arity and closure.
#[verifier::opaque]
pub open spec fn clo_arms_debug(arms: Seq<(Seq<char>, usize, SClosure)>) -> Seq<char>
    decreases arms,
{
    if arms.len() == 0 {
        Seq::empty()
    } else {
        let a = arms[arms.len() - 1];
        clo_arms_debug(arms.subrange(0, arms.len() - 1)) + sep(arms.len() - 1) + "("@ + quoted(a.0) + ", "@
            + decimal(a.1 as nat) + ", "@ + closure_debug(a.2) + ")"@
    }
}


/// Append the `Debug` form of a name: the name in double quotes.
fn write_quoted(s: &mut String, n: &str)
    ensures
        final(s)@ == old(s)@ + quoted(n@),
{
    let q = debug_str(n);
    push_str(s, q.as_str());
}

/// Append the `Debug` text of a term.
#[verifier::spinoff_prover]
pub fn write_term_debug(t: &Term, s: &mut String)
    ensures
        final(s)@ == old(s)@ + term_debug(t@),
    decreases t, 0nat,
{
    let ghost s0 = s@;
    match t {
        Term::Var(i) => {
            push_str(s, "Var(");
            push_decimal(s, *i as u64);
            push_str(s, ")");
            assert(s@ =~= s0 + term_debug(t@)) by {
                reveal(term_debug);
                reveal(term_arms_debug);
                reveal(motive_debug);
            }
        },
        Term::Global(n) => {
            push_str(s, "Global(");
            write_quoted(s, n.as_str());
            push_str(s, ")");
            assert(s@ =~= s0 + term_debug(t@)) by {
                reveal(term_debug);
                reveal(term_arms_debug);
                reveal(motive_debug);
            }
        },
        Term::Sort(u) => {
            push_str(s, "Sort(");
            push_decimal(s, *u as u64);
            push_str(s, ")");
            assert(s@ =~= s0 + term_debug(t@)) by {
                reveal(term_debug);
                reveal(term_arms_debug);
                reveal(motive_debug);
            }
        },
        Term::Pi(n, a, b) => {
            push_str(s, "Pi(");
            write_quoted(s, n.as_str());
            push_str(s, ", ");
            write_term_debug(a, s);
            push_str(s, ", ");
            write_term_debug(b, s);
            push_str(s, ")");
            assert(s@ =~= s0 + term_debug(t@)) by {
                reveal(term_debug);
                reveal(term_arms_debug);
                reveal(motive_debug);
            }
        },
        Term::Lam(n, a, b) => {
            push_str(s, "Lam(");
            write_quoted(s, n.as_str());
            push_str(s, ", ");
            write_term_debug(a, s);
            push_str(s, ", ");
            write_term_debug(b, s);
            push_str(s, ")");
            assert(s@ =~= s0 + term_debug(t@)) by {
                reveal(term_debug);
                reveal(term_arms_debug);
                reveal(motive_debug);
            }
        },
        Term::App(f, x) => {
            push_str(s, "App(");
            write_term_debug(f, s);
            push_str(s, ", ");
            write_term_debug(x, s);
            push_str(s, ")");
            assert(s@ =~= s0 + term_debug(t@)) by {
                reveal(term_debug);
                reveal(term_arms_debug);
                reveal(motive_debug);
            }
        },
        Term::Let(n, ty, v, b) => {
            push_str(s, "Let(");
            write_quoted(s, n.as_str());
            push_str(s, ", ");
            write_term_debug(ty, s);
            push_str(s, ", ");
            write_term_debug(v, s);
            push_str(s, ", ");
            write_term_debug(b, s);
            push_str(s, ")");
            assert(s@ =~= s0 + term_debug(t@)) by {
                reveal(term_debug);
                reveal(term_arms_debug);
                reveal(motive_debug);
            }
        },
        Term::Nat(n) => {
            push_str(s, "Nat(");
            push_decimal(s, *n);
            push_str(s, ")");
            assert(s@ =~= s0 + term_debug(t@)) by {
                reveal(term_debug);
                reveal(term_arms_debug);
                reveal(motive_debug);
            }
        },
        Term::BoolLit(b) => {
            push_str(s, "BoolLit(");
            if *b { push_str(s, "true"); } else { push_str(s, "false"); }
            push_str(s, ")");
            assert(s@ =~= s0 + term_debug(t@)) by {
                reveal(term_debug);
                reveal(term_arms_debug);
                reveal(motive_debug);
            }
        },
        Term::Constructor(i, c) => {
            push_str(s, "Constructor(");
            write_quoted(s, i.as_str());
            push_str(s, ", ");
            write_quoted(s, c.as_str());
            push_str(s, ")");
            assert(s@ =~= s0 + term_debug(t@)) by {
                reveal(term_debug);
                reveal(term_arms_debug);
                reveal(motive_debug);
            }
        },
        Term::Recursor(i) => {
            push_str(s, "Recursor(");
            write_quoted(s, i.as_str());
            push_str(s, ")");
            assert(s@ =~= s0 + term_debug(t@)) by {
                reveal(term_debug);
                reveal(term_arms_debug);
                reveal(motive_debug);
            }
        },
        Term::Match { scrutinee, motive, arms } => {
            push_str(s, "Match { scrutinee: ");
            write_term_debug(scrutinee, s);
            push_str(s, ", motive: ");
            write_motive_debug(motive, s);
            push_str(s, ", arms: [");
            write_term_arms_debug(arms, s);
            push_str(s, "] }");
            assert(s@ =~= s0 + term_debug(t@)) by {
                reveal(term_debug);
                reveal(term_arms_debug);
                reveal(motive_debug);
            }
        },
        Term::If(c, x, y) => {
            push_str(s, "If(");
            write_term_debug(c, s);
            push_str(s, ", ");
            write_term_debug(x, s);
            push_str(s, ", ");
            write_term_debug(y, s);
            push_str(s, ")");
            assert(s@ =~= s0 + term_debug(t@)) by {
                reveal(term_debug);
                reveal(term_arms_debug);
                reveal(motive_debug);
            }
        },
        Term::Meta(m) => {
            push_str(s, "Meta(");
            push_decimal(s, *m as u64);
            push_str(s, ")");
            assert(s@ =~= s0 + term_debug(t@)) by {
                reveal(term_debug);
                reveal(term_arms_debug);
                reveal(motive_debug);
            }
        },
        Term::Ann(e, ty) => {
            push_str(s, "Ann(");
            write_term_debug(e, s);
            push_str(s, ", ");
            write_term_debug(ty, s);
            push_str(s, ")");
            assert(s@ =~= s0 + term_debug(t@)) by {
                reveal(term_debug);
                reveal(term_arms_debug);
                reveal(motive_debug);
            }
        },
    }
}

fn write_motive_debug(motive: &Option<Box<Term>>, s: &mut String)
    ensures
        final(s)@ == old(s)@ + motive_debug(opt_term_view(*motive)),
    decreases motive, 0nat,
{
    let ghost s0 = s@;
    match motive {
        Some(m) => {
            push_str(s, "Some(");
            write_term_debug(m, s);
            push_str(s, ")");
        },
        None => push_str(s, "None"),
    }
    assert(s@ =~= s0 + motive_debug(opt_term_view(*motive))) by {
        reveal(term_debug);
        reveal(term_arms_debug);
        reveal(motive_debug);
    }
}

fn write_term_arms_debug(arms: &Vec<MatchArm>, s: &mut String)
    ensures
        final(s)@ == old(s)@ + term_arms_debug(arms_view(arms@)),
    decreases arms, 0nat,
{
    let ghost s0 = s@;
    let ghost av = arms_view(arms@);
    proof {
        lemma_arms_view(arms@);
        reveal(term_arms_debug);
        reveal(term_debug);
        reveal(motive_debug);
        assert(av.subrange(0, 0) =~= Seq::<SArm>::empty());
        assert(s0 + Seq::<char>::empty() =~= s0);
    }
    let n = arms.len();
    let mut i: usize = 0;
    while i < n
        invariant
            n == arms@.len(),
            i <= n,
            av == arms_view(arms@),
            av.len() == n,
            forall|j: int| 0 <= j < n ==> #[trigger] av[j] == arms@[j]@,
            s@ == s0 + term_arms_debug(av.subrange(0, i as int)),
        decreases n - i,
    {
        let a = &arms[i];
        assert(decreases_to!(*arms => arms@[i as int]));
        if i > 0 {
            push_str(s, ", ");
        }
        assert(s@ =~= s0 + term_arms_debug(av.subrange(0, i as int)) + sep(i as int));
        let ghost s1 = s@;
        push_str(s, "MatchArm { ctor: ");
        write_quoted(s, a.ctor.as_str());
        push_str(s, ", arity: ");
        push_decimal(s, a.arity as u64);
        push_str(s, ", body: ");
        write_term_debug(&a.body, s);
        push_str(s, " }");
        proof {
            let pre = av.subrange(0, i + 1);
            assert(pre.subrange(0, pre.len() - 1) =~= av.subrange(0, i as int));
            assert(pre[pre.len() - 1] == av[i as int]);
            assert(av[i as int] == a@);
            let item = "MatchArm { ctor: "@ + quoted(a.ctor@) + ", arity: "@ + decimal(a.arity as nat) + ", body: "@
                + term_debug(a.body@) + " }"@;
            assert(s@ =~= s1 + item);
            reveal(term_arms_debug);
            reveal(term_debug);
            reveal(motive_debug);
            assert(term_arms_debug(pre) =~= term_arms_debug(av.subrange(0, i as int)) + sep(i as int) + item);
            assert(s@ =~= s0 + term_arms_debug(pre));
        }
        i = i + 1;
    }
    assert(av.subrange(0, n as int) =~= av);
}


/// Append the `Debug` text of a value.
pub fn write_value_debug(v: &Value, s: &mut String)
    ensures
        final(s)@ == old(s)@ + value_debug(v@),
    decreases v, 0nat,
{
    let ghost s0 = s@;
    match v {
        Value::Neutral(n) => {
            push_str(s, "Neutral(");
            write_neutral_debug(n, s);
            push_str(s, ")");
            assert(s@ =~= s0 + value_debug(v@)) by {
                reveal(value_debug);
                reveal(values_debug);
                reveal(neutral_debug);
                reveal(elims_debug);
                reveal(elim_debug);
                reveal(value_motive_debug);
                reveal(closure_debug);
                reveal(clo_arms_debug);
            }
        },
        Value::Sort(u) => {
            push_str(s, "Sort(");
            push_decimal(s, *u as u64);
            push_str(s, ")");
            assert(s@ =~= s0 + value_debug(v@)) by {
                reveal(value_debug);
                reveal(values_debug);
                reveal(neutral_debug);
                reveal(elims_debug);
                reveal(elim_debug);
                reveal(value_motive_debug);
                reveal(closure_debug);
                reveal(clo_arms_debug);
            }
        },
        Value::Lam(n, a, c) => {
            push_str(s, "Lam(");
            write_quoted(s, n.as_str());
            push_str(s, ", ");
            write_value_debug(a, s);
            push_str(s, ", ");
            write_closure_debug(c, s);
            push_str(s, ")");
            assert(s@ =~= s0 + value_debug(v@)) by {
                reveal(value_debug);
                reveal(values_debug);
                reveal(neutral_debug);
                reveal(elims_debug);
                reveal(elim_debug);
                reveal(value_motive_debug);
                reveal(closure_debug);
                reveal(clo_arms_debug);
            }
        },
        Value::Pi(n, a, c) => {
            push_str(s, "Pi(");
            write_quoted(s, n.as_str());
            push_str(s, ", ");
            write_value_debug(a, s);
            push_str(s, ", ");
            write_closure_debug(c, s);
            push_str(s, ")");
            assert(s@ =~= s0 + value_debug(v@)) by {
                reveal(value_debug);
                reveal(values_debug);
                reveal(neutral_debug);
                reveal(elims_debug);
                reveal(elim_debug);
                reveal(value_motive_debug);
                reveal(closure_debug);
                reveal(clo_arms_debug);
            }
        },
        Value::Nat(n) => {
            push_str(s, "Nat(");
            push_decimal(s, *n);
            push_str(s, ")");
            assert(s@ =~= s0 + value_debug(v@)) by {
                reveal(value_debug);
                reveal(values_debug);
                reveal(neutral_debug);
                reveal(elims_debug);
                reveal(elim_debug);
                reveal(value_motive_debug);
                reveal(closure_debug);
                reveal(clo_arms_debug);
            }
        },
        Value::BoolLit(b) => {
            push_str(s, "BoolLit(");
            if *b { push_str(s, "true"); } else { push_str(s, "false"); }
            push_str(s, ")");
            assert(s@ =~= s0 + value_debug(v@)) by {
                reveal(value_debug);
                reveal(values_debug);
                reveal(neutral_debug);
                reveal(elims_debug);
                reveal(elim_debug);
                reveal(value_motive_debug);
                reveal(closure_debug);
                reveal(clo_arms_debug);
            }
        },
        Value::Constructor(i, c, args) => {
            proof { lemma_values_view(args@); }
            push_str(s, "Constructor(");
            write_quoted(s, i.as_str());
            push_str(s, ", ");
            write_quoted(s, c.as_str());
            push_str(s, ", ");
            push_str(s, "[");
            write_values_debug(args, s);
            push_str(s, "]");
            push_str(s, ")");
            assert(s@ =~= s0 + value_debug(v@)) by {
                reveal(value_debug);
                reveal(values_debug);
                reveal(neutral_debug);
                reveal(elims_debug);
                reveal(elim_debug);
                reveal(value_motive_debug);
                reveal(closure_debug);
                reveal(clo_arms_debug);
            }
        },
    }
}

fn write_values_debug(xs: &Vec<Value>, s: &mut String)
    ensures
        final(s)@ == old(s)@ + values_debug(values_view(xs@)),
    decreases xs, 0nat,
{
    let ghost s0 = s@;
    let ghost xv = values_view(xs@);
    proof {
        lemma_values_view(xs@);
        assert(xv.subrange(0, 0) =~= Seq::<SValue>::empty());
        assert(s0 + Seq::<char>::empty() =~= s0);
    }
    assert(s@ == s0 + values_debug(xv.subrange(0, 0))) by {
        reveal(value_debug);
        reveal(values_debug);
        reveal(neutral_debug);
        reveal(elims_debug);
        reveal(elim_debug);
        reveal(value_motive_debug);
        reveal(closure_debug);
        reveal(clo_arms_debug);
    }
    let n = xs.len();
    let mut i: usize = 0;
    while i < n
        invariant
            n == xs@.len(),
            i <= n,
            xv == values_view(xs@),
            xv.len() == n,
            forall|j: int| 0 <= j < n ==> #[trigger] xv[j] == xs@[j]@,
            s@ == s0 + values_debug(xv.subrange(0, i as int)),
        decreases n - i,
    {
        assert(decreases_to!(*xs => xs@[i as int]));
        if i > 0 {
            push_str(s, ", ");
        }
        let ghost s1 = s@;
        assert(s1 == s0 + values_debug(xv.subrange(0, i as int)) + sep(i as int));
        write_value_debug(&xs[i], s);
        proof {
            let pre = xv.subrange(0, i + 1);
            assert(pre.subrange(0, pre.len() - 1) =~= xv.subrange(0, i as int));
            assert(pre[pre.len() - 1] == xv[i as int]);
            assert(s@ =~= s1 + value_debug(xv[i as int]));
            assert(values_debug(pre) =~= values_debug(xv.subrange(0, i as int)) + sep(i as int) + value_debug(xv[i as int])) by {
                reveal(value_debug);
        reveal(values_debug);
        reveal(neutral_debug);
        reveal(elims_debug);
        reveal(elim_debug);
        reveal(value_motive_debug);
        reveal(closure_debug);
        reveal(clo_arms_debug);
            }
        }
        i = i + 1;
    }
    assert(xv.subrange(0, n as int) =~= xv);
}

/// Append the `Debug` text of a neutral term.
pub fn write_neutral_debug(n: &Neutral, s: &mut String)
    ensures
        final(s)@ == old(s)@ + neutral_debug(n@),
    decreases n, 0nat,
{
    let ghost s0 = s@;
    push_str(s, "Neutral { head: ");
    match &n.head {
        NeutralHead::Var(l) => {
            push_str(s, "Var(");
            push_decimal(s, *l as u64);
            push_str(s, ")");
        },
        NeutralHead::Global(g) => {
            push_str(s, "Global(");
            write_quoted(s, g.as_str());
            push_str(s, ")");
        },
        NeutralHead::Meta(m) => {
            push_str(s, "Meta(");
            push_decimal(s, *m as u64);
            push_str(s, ")");
        },
    }
    push_str(s, ", spine: [");
    proof { lemma_elims_view(n.spine@); }
    write_elims_debug(&n.spine, s);
    push_str(s, "] }");
    assert(s@ =~= s0 + neutral_debug(n@)) by {
        reveal(value_debug);
        reveal(values_debug);
        reveal(neutral_debug);
        reveal(elims_debug);
        reveal(elim_debug);
        reveal(value_motive_debug);
        reveal(closure_debug);
        reveal(clo_arms_debug);
    }
}

fn write_elims_debug(xs: &Vec<Elim>, s: &mut String)
    ensures
        final(s)@ == old(s)@ + elims_debug(elims_view(xs@)),
    decreases xs, 0nat,
{
    let ghost s0 = s@;
    let ghost xv = elims_view(xs@);
    proof {
        lemma_elims_view(xs@);
        assert(xv.subrange(0, 0) =~= Seq::<SElim>::empty());
        assert(s0 + Seq::<char>::empty() =~= s0);
    }
    assert(s@ == s0 + elims_debug(xv.subrange(0, 0))) by {
        reveal(value_debug);
        reveal(values_debug);
        reveal(neutral_debug);
        reveal(elims_debug);
        reveal(elim_debug);
        reveal(value_motive_debug);
        reveal(closure_debug);
        reveal(clo_arms_debug);
    }
    let n = xs.len();
    let mut i: usize = 0;
    while i < n
        invariant
            n == xs@.len(),
            i <= n,
            xv == elims_view(xs@),
            xv.len() == n,
            forall|j: int| 0 <= j < n ==> #[trigger] xv[j] == xs@[j]@,
            s@ == s0 + elims_debug(xv.subrange(0, i as int)),
        decreases n - i,
    {
        assert(decreases_to!(*xs => xs@[i as int]));
        if i > 0 {
            push_str(s, ", ");
        }
        let ghost s1 = s@;
        assert(s1 == s0 + elims_debug(xv.subrange(0, i as int)) + sep(i as int));
        write_elim_debug(&xs[i], s);
        proof {
            let pre = xv.subrange(0, i + 1);
            assert(pre.subrange(0, pre.len() - 1) =~= xv.subrange(0, i as int));
            assert(pre[pre.len() - 1] == xv[i as int]);
            assert(s@ =~= s1 + elim_debug(xv[i as int]));
            assert(elims_debug(pre) =~= elims_debug(xv.subrange(0, i as int)) + sep(i as int) + elim_debug(xv[i as int])) by {
                reveal(value_debug);
        reveal(values_debug);
        reveal(neutral_debug);
        reveal(elims_debug);
        reveal(elim_debug);
        reveal(value_motive_debug);
        reveal(closure_debug);
        reveal(clo_arms_debug);
            }
        }
        i = i + 1;
    }
    assert(xv.subrange(0, n as int) =~= xv);
}

#[verifier::spinoff_prover]
fn write_elim_debug(e: &Elim, s: &mut String)
    ensures
        final(s)@ == old(s)@ + elim_debug(e@),
    decreases e, 0nat,
{
    let ghost s0 = s@;
    match e {
        Elim::App(v) => {
            push_str(s, "App(");
            write_value_debug(v, s);
            push_str(s, ")");
            assert(s@ =~= s0 + elim_debug(e@)) by {
                reveal(value_debug);
                reveal(values_debug);
                reveal(neutral_debug);
                reveal(elims_debug);
                reveal(elim_debug);
                reveal(value_motive_debug);
                reveal(closure_debug);
                reveal(clo_arms_debug);
            }
        },
        Elim::Match { motive, arms } => {
            proof { lemma_clo_arms_view(arms@); }
            push_str(s, "Match { motive: ");
            write_value_motive_debug(motive, s);
            push_str(s, ", arms: [");
            write_clo_arms_debug(arms, s);
            push_str(s, "] }");
            assert(s@ =~= s0 + elim_debug(e@)) by {
                reveal(value_debug);
                reveal(values_debug);
                reveal(neutral_debug);
                reveal(elims_debug);
                reveal(elim_debug);
                reveal(value_motive_debug);
                reveal(closure_debug);
                reveal(clo_arms_debug);
            }
        },
        Elim::If(t, e2) => {
            push_str(s, "If(");
            write_value_debug(t, s);
            push_str(s, ", ");
            write_value_debug(e2, s);
            push_str(s, ")");
            assert(s@ =~= s0 + elim_debug(e@)) by {
                reveal(value_debug);
                reveal(values_debug);
                reveal(neutral_debug);
                reveal(elims_debug);
                reveal(elim_debug);
                reveal(value_motive_debug);
                reveal(closure_debug);
                reveal(clo_arms_debug);
            }
        },
    }
}

fn write_value_motive_debug(m: &Option<Value>, s: &mut String)
    ensures
        final(s)@ == old(s)@ + value_motive_debug(opt_value_view(*m)),
    decreases m, 0nat,
{
    let ghost s0 = s@;
    match m {
        Some(v) => {
            push_str(s, "Some(");
            write_value_debug(v, s);
            push_str(s, ")");
        },
        None => push_str(s, "None"),
    }
    assert(s@ =~= s0 + value_motive_debug(opt_value_view(*m))) by {
        reveal(value_debug);
        reveal(values_debug);
        reveal(neutral_debug);
        reveal(elims_debug);
        reveal(elim_debug);
        reveal(value_motive_debug);
        reveal(closure_debug);
        reveal(clo_arms_debug);
    }
}

/// Append the `Debug` text of a closure.
pub fn write_closure_debug(c: &Closure, s: &mut String)
    ensures
        final(s)@ == old(s)@ + closure_debug(c@),
    decreases c, 0nat,
{
    let ghost s0 = s@;
    proof { lemma_values_view(c.env@); }
    push_str(s, "Closure { env: [");
    write_values_debug(&c.env, s);
    push_str(s, "], body: ");
    write_term_debug(&c.body, s);
    push_str(s, " }");
    assert(s@ =~= s0 + closure_debug(c@)) by {
        reveal(value_debug);
        reveal(values_debug);
        reveal(neutral_debug);
        reveal(elims_debug);
        reveal(elim_debug);
        reveal(value_motive_debug);
        reveal(closure_debug);
        reveal(clo_arms_debug);
    }
}

fn write_clo_arms_debug(xs: &Vec<(Name, usize, Closure)>, s: &mut String)
    ensures
        final(s)@ == old(s)@ + clo_arms_debug(clo_arms_view(xs@)),
    decreases xs, 0nat,
{
    let ghost s0 = s@;
    let ghost xv = clo_arms_view(xs@);
    proof {
        lemma_clo_arms_view(xs@);
        assert(xv.subrange(0, 0) =~= Seq::<(Seq<char>, usize, SClosure)>::empty());
        assert(s0 + Seq::<char>::empty() =~= s0);
    }
    assert(s@ == s0 + clo_arms_debug(xv.subrange(0, 0))) by {
        reveal(value_debug);
        reveal(values_debug);
        reveal(neutral_debug);
        reveal(elims_debug);
        reveal(elim_debug);
        reveal(value_motive_debug);
        reveal(closure_debug);
        reveal(clo_arms_debug);
    }
    let n = xs.len();
    let mut i: usize = 0;
    while i < n
        invariant
            n == xs@.len(),
            i <= n,
            xv == clo_arms_view(xs@),
            xv.len() == n,
            forall|j: int| 0 <= j < n ==> #[trigger] xv[j] == clo_arm_view(xs@[j]),
            s@ == s0 + clo_arms_debug(xv.subrange(0, i as int)),
        decreases n - i,
    {
        assert(decreases_to!(*xs => xs@[i as int]));
        if i > 0 {
            push_str(s, ", ");
        }
        let ghost s1 = s@;
        assert(s1 == s0 + clo_arms_debug(xv.subrange(0, i as int)) + sep(i as int));
        let a = &xs[i];
        push_str(s, "(");
        write_quoted(s, a.0.as_str());
        push_str(s, ", ");
        push_decimal(s, a.1 as u64);
        push_str(s, ", ");
        write_closure_debug(&a.2, s);
        push_str(s, ")");
        proof {
            let pre = xv.subrange(0, i + 1);
            assert(pre.subrange(0, pre.len() - 1) =~= xv.subrange(0, i as int));
            assert(pre[pre.len() - 1] == xv[i as int]);
            assert(s@ =~= s1 + "("@ + quoted(xv[i as int].0) + ", "@ + decimal(xv[i as int].1 as nat) + ", "@ + closure_debug(xv[i as int].2) + ")"@);
            assert(clo_arms_debug(pre) =~= clo_arms_debug(xv.subrange(0, i as int)) + sep(i as int) + "("@ + quoted(xv[i as int].0) + ", "@ + decimal(xv[i as int].1 as nat) + ", "@ + closure_debug(xv[i as int].2) + ")"@) by {
                reveal(value_debug);
        reveal(values_debug);
        reveal(neutral_debug);
        reveal(elims_debug);
        reveal(elim_debug);
        reveal(value_motive_debug);
        reveal(closure_debug);
        reveal(clo_arms_debug);
            }
        }
        i = i + 1;
    }
    assert(xv.subrange(0, n as int) =~= xv);
}


/// The `Debug` text of a value, as a new string.
pub fn value_debug_text(v: &Value) -> (r: String)
    ensures
        r@ == value_debug(v@),
{
    let mut s = String::new();
    write_value_debug(v, &mut s);
    assert(Seq::<char>::empty() + value_debug(v@) =~= value_debug(v@));
    s
}

/// The `Debug` text of a term, as a new string.
pub fn term_debug_text(t: &Term) -> (r: String)
    ensures
        r@ == term_debug(t@),
{
    let mut s = String::new();
    write_term_debug(t, &mut s);
    assert(Seq::<char>::empty() + term_debug(t@) =~= term_debug(t@));
    s
}

}
