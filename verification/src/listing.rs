//! The listing of an environment: every definition and every inductive type,
//! in the order of their names.
use vstd::prelude::*;
use crate::term::{Name, STerm};
use crate::env::{
    GlobalEnv, Definition, InductiveDef, SDefinition, SInductive, SCtorDef, SGlobals, ctors_view, assoc_map,
    lemma_assoc_map_later,
};
use crate::pretty::{pretty_term, pp_text};
use crate::text::push_str;

verus! {

/// `a` comes strictly before `b` when their characters are compared one by one
/// by code point, a proper prefix coming first.
pub open spec fn name_before(a: Seq<char>, b: Seq<char>) -> bool
    decreases a.len(),
{
    if a.len() == 0 {
        b.len() > 0
    } else if b.len() == 0 {
        false
    } else if a[0] < b[0] {
        true
    } else if a[0] == b[0] {
        name_before(a.drop_first(), b.drop_first())
    } else {
        false
    }
}

pub proof fn lemma_before_irreflexive(a: Seq<char>)
    ensures
        !name_before(a, a),
    decreases a.len(),
{
    if a.len() > 0 {
        lemma_before_irreflexive(a.drop_first());
    }
}

pub proof fn lemma_before_transitive(a: Seq<char>, b: Seq<char>, c: Seq<char>)
    requires
        name_before(a, b),
        name_before(b, c),
    ensures
        name_before(a, c),
    decreases a.len(),
{
    if a.len() > 0 && b.len() > 0 && c.len() > 0 && a[0] == b[0] && b[0] == c[0] {
        lemma_before_transitive(a.drop_first(), b.drop_first(), c.drop_first());
    }
}

pub proof fn lemma_before_total(a: Seq<char>, b: Seq<char>)
    requires
        a != b,
    ensures
        name_before(a, b) || name_before(b, a),
    decreases a.len(),
{
    if a.len() > 0 && b.len() > 0 && a[0] == b[0] {
        if a.drop_first() == b.drop_first() {
            assert(a =~= seq![a[0]] + a.drop_first());
            assert(b =~= seq![b[0]] + b.drop_first());
        }
        lemma_before_total(a.drop_first(), b.drop_first());
    } else if a.len() > 0 && b.len() > 0 {
        assert(a[0] != b[0]);
    } else if a.len() == 0 && b.len() == 0 {
        assert(a =~= b);
    }
}

/// Strictly increasing in the name order.
pub open spec fn sorted_strictly(s: Seq<Seq<char>>) -> bool {
    forall|i: int, j: int| 0 <= i < j < s.len() ==> name_before(s[i], s[j])
}

/// The names of a finite set in increasing order.
pub open spec fn sorted_names(keys: Set<Seq<char>>) -> Seq<Seq<char>> {
    choose|s: Seq<Seq<char>>| sorted_strictly(s) && forall|k: Seq<char>| #[trigger] keys.contains(k) <==> s.contains(k)
}

/// Two increasing sequences with the same elements are equal.
pub proof fn lemma_sorted_unique(s1: Seq<Seq<char>>, s2: Seq<Seq<char>>)
    requires
        sorted_strictly(s1),
        sorted_strictly(s2),
        forall|k: Seq<char>| s1.contains(k) <==> s2.contains(k),
    ensures
        s1 == s2,
    decreases s1.len(),
{
    if s1.len() == 0 {
        if s2.len() > 0 {
            assert(s2.contains(s2[0]));
        }
        assert(s1 =~= s2);
    } else {
        assert(s1.contains(s1[0]));
        assert(s2.len() > 0);
        assert(s2.contains(s2[0]));
        let k = choose|k: int| 0 <= k < s2.len() && s2[k] == s1[0];
        let m = choose|m: int| 0 <= m < s1.len() && s1[m] == s2[0];
        if k > 0 {
            if m == 0 {
                lemma_before_irreflexive(s2[0]);
            } else {
                lemma_before_transitive(s1[0], s1[m], s1[0]);
                lemma_before_irreflexive(s1[0]);
            }
        }
        assert(s1[0] == s2[0]);
        let t1 = s1.drop_first();
        let t2 = s2.drop_first();
        assert forall|x: Seq<char>| t1.contains(x) <==> t2.contains(x) by {
            if t1.contains(x) {
                let a = choose|a: int| 0 <= a < t1.len() && t1[a] == x;
                assert(s1[a + 1] == x);
                assert(name_before(s1[0], x));
                if x == s1[0] {
                    lemma_before_irreflexive(x);
                }
                assert(s1.contains(x));
                let b = choose|b: int| 0 <= b < s2.len() && s2[b] == x;
                assert(b != 0);
                assert(t2[b - 1] == x);
            }
            if t2.contains(x) {
                let a = choose|a: int| 0 <= a < t2.len() && t2[a] == x;
                assert(s2[a + 1] == x);
                assert(name_before(s2[0], x));
                if x == s2[0] {
                    lemma_before_irreflexive(x);
                }
                assert(s2.contains(x));
                let b = choose|b: int| 0 <= b < s1.len() && s1[b] == x;
                assert(b != 0);
                assert(t1[b - 1] == x);
            }
        }
        lemma_sorted_unique(t1, t2);
        assert(s1 =~= seq![s1[0]] + t1);
        assert(s2 =~= seq![s2[0]] + t2);
    }
}

/// The characters of a string, in order.
fn chars_of(s: &str) -> (r: Vec<char>)
    ensures
        r@ == s@,
{
    let mut r: Vec<char> = Vec::new();
    for c in it: s.chars()
        invariant
            r@ == it.seq().take(it.index() as int),
    {
        r.push(c);
    }
    r
}

/// Compare two names in the name order.
fn before(a: &Vec<char>, b: &Vec<char>) -> (r: bool)
    ensures
        r == name_before(a@, b@),
{
    let mut i: usize = 0;
    assert(a@.skip(0) =~= a@);
    assert(b@.skip(0) =~= b@);
    while i < a.len() && i < b.len()
        invariant
            i <= a@.len(),
            i <= b@.len(),
            name_before(a@, b@) == name_before(a@.skip(i as int), b@.skip(i as int)),
        decreases a@.len() - i,
    {
        let x = a[i];
        let y = b[i];
        assert(a@.skip(i as int)[0] == a@[i as int]);
        assert(b@.skip(i as int)[0] == b@[i as int]);
        if x < y {
            return true;
        }
        if x > y {
            return false;
        }
        assert(a@.skip(i as int).drop_first() =~= a@.skip(i + 1));
        assert(b@.skip(i as int).drop_first() =~= b@.skip(i + 1));
        i = i + 1;
    }
    i == a.len() && i < b.len()
}

/// Entry `i` is the last one with its name.
pub open spec fn last_entry<V>(s: Seq<(Name, V)>, i: int) -> bool {
    forall|j: int| i < j < s.len() ==> s[j].0@ != s[i].0@
}

fn is_last<V>(s: &Vec<(Name, V)>, i: usize) -> (r: bool)
    requires
        i < s@.len(),
    ensures
        r == last_entry(s@, i as int),
{
    let n = s.len();
    let mut j = i + 1;
    while j < n
        invariant
            n == s@.len(),
            i < j <= n,
            forall|k: int| i < k < j ==> s@[k].0@ != s@[i as int].0@,
        decreases n - j,
    {
        if crate::text::str_eq(s[j].0.as_str(), s[i].0.as_str()) {
            return false;
        }
        j = j + 1;
    }
    true
}

/// A key bound in an association list has a last entry.
proof fn lemma_key_has_last_entry<V: View>(s: Seq<(Name, V)>, k: Seq<char>)
    requires
        assoc_map(s).contains_key(k),
    ensures
        exists|i: int| 0 <= i < s.len() && s[i].0@ == k && last_entry(s, i),
    decreases s.len(),
{
    if s.len() > 0 {
        if s.last().0@ == k {
            assert(last_entry(s, s.len() - 1));
        } else {
            lemma_key_has_last_entry(s.drop_last(), k);
            let d = s.drop_last();
            let i = choose|i: int| 0 <= i < d.len() && d[i].0@ == k && last_entry(d, i);
            assert forall|j: int| i < j < s.len() implies s[j].0@ != s[i].0@ by {
                if j < d.len() {
                    assert(d[j] == s[j]);
                }
            }
            assert(last_entry(s, i));
        }
    }
}

pub open spec fn entry_names(es: Seq<(Vec<char>, usize)>) -> Seq<Seq<char>> {
    es.map_values(|e: (Vec<char>, usize)| e.0@)
}

/// The last entry of each name, ordered by name: the name's characters and the
/// entry's position.
fn sorted_last_entries<V: View>(s: &Vec<(Name, V)>) -> (r: Vec<(Vec<char>, usize)>)
    ensures
        entry_names(r@) == sorted_names(assoc_map(s@).dom()),
        forall|k: int| 0 <= k < r@.len() ==> {
            &&& #[trigger] r@[k].1 < s@.len()
            &&& r@[k].0@ == s@[r@[k].1 as int].0@
            &&& last_entry(s@, r@[k].1 as int)
        },
{
    let mut es: Vec<(Vec<char>, usize)> = Vec::new();
    let n = s.len();
    let mut i: usize = 0;
    while i < n
        invariant
            n == s@.len(),
            i <= n,
            forall|k: int| 0 <= k < es@.len() ==> {
                &&& #[trigger] es@[k].1 < i
                &&& es@[k].0@ == s@[es@[k].1 as int].0@
                &&& last_entry(s@, es@[k].1 as int)
            },
            sorted_strictly(entry_names(es@)),
            forall|j: int| 0 <= j < i && last_entry(s@, j) ==> exists|k: int| 0 <= k < es@.len() && #[trigger] es@[k].1 == j,
        decreases n - i,
    {
        if is_last(s, i) {
            let name = chars_of(s[i].0.as_str());
            let ghost old_es = es@;
            let mut p: usize = 0;
            while p < es.len() && !before(&name, &es[p].0)
                invariant
                    p <= es@.len(),
                    es@ == old_es,
                    forall|k: int| 0 <= k < p ==> !name_before(name@, #[trigger] entry_names(es@)[k]),
                decreases es@.len() - p,
            {
                p = p + 1;
            }
            proof {
                let names = entry_names(old_es);
                assert forall|k: int| 0 <= k < p implies name_before(#[trigger] names[k], name@) by {
                    assert(old_es[k].1 < i);
                    assert(names[k] != name@);
                    lemma_before_total(names[k], name@);
                }
                if p < names.len() {
                    assert forall|j: int| p <= j < names.len() implies name_before(name@, #[trigger] names[j]) by {
                        if j > p {
                            lemma_before_transitive(name@, names[p as int], names[j]);
                        }
                    }
                }
            }
            es.insert(p, (name, i));
            proof {
                let names = entry_names(old_es);
                assert(entry_names(es@) =~= names.insert(p as int, name@));
                assert forall|j: int| 0 <= j < i + 1 && last_entry(s@, j) implies exists|k: int| 0 <= k < es@.len() && #[trigger] es@[k].1 == j by {
                    if j == i {
                        assert(es@[p as int].1 == j);
                    } else {
                        let k = choose|k: int| 0 <= k < old_es.len() && old_es[k].1 == j;
                        if k < p {
                            assert(es@[k].1 == j);
                        } else {
                            assert(es@[k + 1].1 == j);
                        }
                    }
                }
            }
        }
        i = i + 1;
    }
    proof {
        let names = entry_names(es@);
        let dom = assoc_map(s@).dom();
        assert forall|k: Seq<char>| #[trigger] dom.contains(k) <==> names.contains(k) by {
            if dom.contains(k) {
                lemma_key_has_last_entry(s@, k);
                let j = choose|j: int| 0 <= j < s@.len() && s@[j].0@ == k && last_entry(s@, j);
                let e = choose|e: int| 0 <= e < es@.len() && es@[e].1 == j;
                assert(names[e] == k);
            }
            if names.contains(k) {
                let e = choose|e: int| 0 <= e < names.len() && names[e] == k;
                lemma_assoc_map_later(s@, es@[e].1 as int);
            }
        }
        assert(sorted_strictly(names) && forall|k: Seq<char>| #[trigger] dom.contains(k) <==> names.contains(k));
        let s2 = sorted_names(dom);
        assert(sorted_strictly(s2) && forall|k: Seq<char>| #[trigger] dom.contains(k) <==> s2.contains(k));
        assert forall|k: Seq<char>| names.contains(k) <==> s2.contains(k) by {
            assert(dom.contains(k) <==> names.contains(k));
            assert(dom.contains(k) <==> s2.contains(k));
        }
        lemma_sorted_unique(names, s2);
    }
    es
}


pub open spec fn shown(t: STerm) -> Seq<char> {
    pp_text(t, Seq::empty())
}

/// The line that lists one definition.
pub open spec fn def_line(name: Seq<char>, d: SDefinition) -> Seq<char> {
    match d {
        SDefinition::Def { ty, .. } => "  def "@ + name + " : "@ + shown(ty) + "\n"@,
        SDefinition::Axiom { ty } => "  axiom "@ + name + " : "@ + shown(ty) + "\n"@,
        SDefinition::Constructor { inductive, ty, .. } => "  ctor "@ + inductive + "."@ + name + " : "@ + shown(ty) + "\n"@,
        SDefinition::Recursor { inductive, ty } => "  rec "@ + inductive + ".rec : "@ + shown(ty) + "\n"@,
    }
}

pub open spec fn def_lines(names: Seq<Seq<char>>, defs: Map<Seq<char>, SDefinition>) -> Seq<char>
    decreases names.len(),
{
    if names.len() == 0 {
        Seq::empty()
    } else {
        def_lines(names.drop_last(), defs) + def_line(names.last(), defs[names.last()])
    }
}

pub open spec fn ctor_entry_lines(cs: Seq<SCtorDef>) -> Seq<char>
    decreases cs.len(),
{
    if cs.len() == 0 {
        Seq::empty()
    } else {
        ctor_entry_lines(cs.drop_last()) + "    | "@ + cs.last().name + " : "@ + shown(cs.last().ty) + "\n"@
    }
}

/// The lines that list one inductive type and its constructors.
pub open spec fn inductive_lines(name: Seq<char>, ind: SInductive) -> Seq<char> {
    "  inductive "@ + name + " : "@ + shown(ind.ty) + "\n"@ + ctor_entry_lines(ind.constructors)
}

pub open spec fn inductives_lines(names: Seq<Seq<char>>, inds: Map<Seq<char>, SInductive>) -> Seq<char>
    decreases names.len(),
{
    if names.len() == 0 {
        Seq::empty()
    } else {
        inductives_lines(names.drop_last(), inds) + inductive_lines(names.last(), inds[names.last()])
    }
}

/// The listing: definitions by name, then inductive types by name.
pub open spec fn env_listing_text(g: SGlobals) -> Seq<char> {
    "── Definitions ──\n"@ + def_lines(sorted_names(g.defs.dom()), g.defs) + "── Inductive Types ──\n"@ + inductives_lines(
        sorted_names(g.inductives.dom()),
        g.inductives,
    )
}

fn push_def_line(name: &str, d: &Definition, s: &mut String)
    ensures
        final(s)@ == old(s)@ + def_line(name@, d@),
{
    match d {
        Definition::Def { .. } => {
            push_str(s, "  def ");
            push_str(s, name);
            push_str(s, " : ");
        },
        Definition::Axiom { .. } => {
            push_str(s, "  axiom ");
            push_str(s, name);
            push_str(s, " : ");
        },
        Definition::Constructor { inductive, .. } => {
            push_str(s, "  ctor ");
            push_str(s, inductive.as_str());
            push_str(s, ".");
            push_str(s, name);
            push_str(s, " : ");
        },
        Definition::Recursor { inductive, .. } => {
            push_str(s, "  rec ");
            push_str(s, inductive.as_str());
            push_str(s, ".rec : ");
        },
    }
    let p = pretty_term(d.get_type());
    push_str(s, p.as_str());
    push_str(s, "\n");
    assert(s@ =~= old(s)@ + def_line(name@, d@));
}

fn push_inductive_lines(name: &str, ind: &InductiveDef, s: &mut String)
    ensures
        final(s)@ == old(s)@ + inductive_lines(name@, ind@),
{
    let ghost s0 = s@;
    push_str(s, "  inductive ");
    push_str(s, name);
    push_str(s, " : ");
    push_str(s, pretty_term(&ind.ty).as_str());
    push_str(s, "\n");
    let ghost s1 = s@;
    let ghost cv = ctors_view(ind.constructors@);
    assert(cv.subrange(0, 0) =~= Seq::<SCtorDef>::empty());
    assert(s1 + Seq::<char>::empty() =~= s1);
    let n = ind.constructors.len();
    let mut i: usize = 0;
    while i < n
        invariant
            n == ind.constructors@.len(),
            cv == ctors_view(ind.constructors@),
            i <= n,
            s@ == s1 + ctor_entry_lines(cv.subrange(0, i as int)),
        decreases n - i,
    {
        let c = &ind.constructors[i];
        push_str(s, "    | ");
        push_str(s, c.name.as_str());
        push_str(s, " : ");
        push_str(s, pretty_term(&c.ty).as_str());
        push_str(s, "\n");
        proof {
            let pre = cv.subrange(0, i + 1);
            assert(pre.drop_last() =~= cv.subrange(0, i as int));
            assert(pre.last() == c@);
            assert(s@ =~= s1 + ctor_entry_lines(pre));
        }
        i = i + 1;
    }
    assert(cv.subrange(0, n as int) =~= cv);
    assert(s@ =~= s0 + inductive_lines(name@, ind@));
}

/// List the environment: its definitions and its inductive types, each in the
/// order of their names.
pub fn env_listing(globals: &GlobalEnv) -> (r: String)
    ensures
        r@ == env_listing_text(globals@),
{
    let mut s = "── Definitions ──\n".to_string();
    let ghost head = s@;
    let es = sorted_last_entries(&globals.defs);
    let ghost names = entry_names(es@);
    let ghost defs = globals@.defs;
    assert(names.subrange(0, 0) =~= Seq::<Seq<char>>::empty());
    assert(head + Seq::<char>::empty() =~= head);
    let n = es.len();
    let mut k: usize = 0;
    while k < n
        invariant
            n == es@.len(),
            k <= n,
            names == entry_names(es@),
            defs == globals@.defs,
            defs == assoc_map(globals.defs@),
            forall|j: int| 0 <= j < es@.len() ==> {
                &&& #[trigger] es@[j].1 < globals.defs@.len()
                &&& es@[j].0@ == globals.defs@[es@[j].1 as int].0@
                &&& last_entry(globals.defs@, es@[j].1 as int)
            },
            s@ == head + def_lines(names.subrange(0, k as int), defs),
        decreases n - k,
    {
        let idx = es[k].1;
        assert(es@[k as int].1 == idx);
        let entry = &globals.defs[idx];
        proof {
            lemma_assoc_map_later(globals.defs@, idx as int);
        }
        push_def_line(entry.0.as_str(), &entry.1, &mut s);
        proof {
            let pre = names.subrange(0, k + 1);
            assert(pre.drop_last() =~= names.subrange(0, k as int));
            assert(pre.last() == entry.0@);
            assert(s@ =~= head + def_lines(pre, defs));
        }
        k = k + 1;
    }
    assert(names.subrange(0, n as int) =~= names);
    push_str(&mut s, "── Inductive Types ──\n");
    let ghost head2 = s@;
    let is = sorted_last_entries(&globals.inductives);
    let ghost inames = entry_names(is@);
    let ghost inds = globals@.inductives;
    assert(inames.subrange(0, 0) =~= Seq::<Seq<char>>::empty());
    assert(head2 + Seq::<char>::empty() =~= head2);
    let m = is.len();
    let mut k2: usize = 0;
    while k2 < m
        invariant
            m == is@.len(),
            k2 <= m,
            inames == entry_names(is@),
            inds == globals@.inductives,
            inds == assoc_map(globals.inductives@),
            forall|j: int| 0 <= j < is@.len() ==> {
                &&& #[trigger] is@[j].1 < globals.inductives@.len()
                &&& is@[j].0@ == globals.inductives@[is@[j].1 as int].0@
                &&& last_entry(globals.inductives@, is@[j].1 as int)
            },
            s@ == head2 + inductives_lines(inames.subrange(0, k2 as int), inds),
        decreases m - k2,
    {
        let idx = is[k2].1;
        assert(is@[k2 as int].1 == idx);
        let entry = &globals.inductives[idx];
        proof {
            lemma_assoc_map_later(globals.inductives@, idx as int);
        }
        push_inductive_lines(entry.0.as_str(), &entry.1, &mut s);
        proof {
            let pre = inames.subrange(0, k2 + 1);
            assert(pre.drop_last() =~= inames.subrange(0, k2 as int));
            assert(pre.last() == entry.0@);
            assert(s@ =~= head2 + inductives_lines(pre, inds));
        }
        k2 = k2 + 1;
    }
    assert(inames.subrange(0, m as int) =~= inames);
    s
}

}
