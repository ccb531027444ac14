//! The canonical ordering step of the molecule-formation engine: a
//! stable sort of atoms by element symbol, specified by a recursive
//! insertion sort over sequences and implemented by a verified
//! insertion sort over vectors.

use vstd::prelude::*;

use crate::atoms::Atom;
use crate::atoms::sym;
use crate::order::lex_le;
use crate::order::lemma_lex_le_refl;
use crate::order::lemma_lex_le_total;
use crate::order::lemma_lex_le_trans;
use crate::order::str_le;

verus! {

/// The sum of the valence-electron counts of a sequence of atoms.
pub open spec fn total_electrons_of<'a>(s: Seq<Atom<'a>>) -> nat
    decreases s.len(),
{
    if s.len() == 0 {
        0
    } else {
        s[0].valence_electrons as nat + total_electrons_of(s.drop_first())
    }
}

/// The atoms appear in ascending lexicographic order of their symbols.
pub open spec fn sorted_by_sym<'a>(s: Seq<Atom<'a>>) -> bool {
    forall|i: int, j: int|
        0 <= i < j < s.len() ==> lex_le(sym(#[trigger] s[i]), sym(#[trigger] s[j]))
}

/// The subsequence of atoms whose symbol is `k`, in their original order.
pub open spec fn sym_filter<'a>(s: Seq<Atom<'a>>, k: Seq<char>) -> Seq<Atom<'a>> {
    s.filter(|a: Atom<'a>| sym(a) == k)
}

/// Where a stable insertion puts `a` into `s`: after every leading
/// atom whose symbol comes no later than `a`'s.
pub open spec fn insert_pos<'a>(a: Atom<'a>, s: Seq<Atom<'a>>) -> nat
    decreases s.len(),
{
    if s.len() == 0 {
        0
    } else if lex_le(sym(s[0]), sym(a)) {
        1 + insert_pos(a, s.drop_first())
    } else {
        0
    }
}

/// One step of the sort: insert `a` into `s` at its stable position.
pub open spec fn insert_sorted<'a>(a: Atom<'a>, s: Seq<Atom<'a>>) -> Seq<Atom<'a>> {
    s.insert(insert_pos(a, s) as int, a)
}

/// The engine's sort: a stable insertion sort by element symbol.
pub open spec fn sort_spec<'a>(s: Seq<Atom<'a>>) -> Seq<Atom<'a>>
    decreases s.len(),
{
    if s.len() == 0 {
        Seq::empty()
    } else {
        insert_sorted(s.last(), sort_spec(s.drop_last()))
    }
}

proof fn lemma_insert_pos_props<'a>(a: Atom<'a>, s: Seq<Atom<'a>>)
    ensures
        insert_pos(a, s) <= s.len(),
        forall|j: int| 0 <= j < insert_pos(a, s) ==> lex_le(sym(#[trigger] s[j]), sym(a)),
        insert_pos(a, s) < s.len() ==> !lex_le(sym(s[insert_pos(a, s) as int]), sym(a)),
    decreases s.len(),
{
    if s.len() > 0 && lex_le(sym(s[0]), sym(a)) {
        lemma_insert_pos_props(a, s.drop_first());
        let k = insert_pos(a, s);
        assert forall|j: int| 0 <= j < k implies lex_le(sym(#[trigger] s[j]), sym(a)) by {
            if j > 0 {
                assert(s.drop_first()[j - 1] == s[j]);
            }
        }
        if k < s.len() {
            assert(s.drop_first()[k - 1] == s[k as int]);
        }
    }
}

proof fn lemma_insert_pos_unique<'a>(a: Atom<'a>, s: Seq<Atom<'a>>, k: int)
    requires
        0 <= k <= s.len(),
        forall|j: int| 0 <= j < k ==> lex_le(sym(#[trigger] s[j]), sym(a)),
        k < s.len() ==> !lex_le(sym(s[k]), sym(a)),
    ensures
        insert_pos(a, s) == k,
    decreases s.len(),
{
    if s.len() == 0 {
    } else if lex_le(sym(s[0]), sym(a)) {
        assert(k != 0);
        assert forall|j: int| 0 <= j < k - 1 implies lex_le(
            sym(#[trigger] s.drop_first()[j]),
            sym(a),
        ) by {
            assert(s.drop_first()[j] == s[j + 1]);
        }
        if k - 1 < s.drop_first().len() {
            assert(s.drop_first()[k - 1] == s[k]);
        }
        lemma_insert_pos_unique(a, s.drop_first(), k - 1);
    } else {
        assert(k == 0) by {
            if k > 0 {
                assert(lex_le(sym(s[0]), sym(a)));
            }
        }
    }
}

proof fn lemma_total_add<'a>(x: Seq<Atom<'a>>, y: Seq<Atom<'a>>)
    ensures
        total_electrons_of(x + y) == total_electrons_of(x) + total_electrons_of(y),
    decreases x.len(),
{
    if x.len() == 0 {
        assert(x + y =~= y);
    } else {
        assert((x + y).drop_first() =~= x.drop_first() + y);
        assert((x + y)[0] == x[0]);
        lemma_total_add(x.drop_first(), y);
    }
}

proof fn lemma_total_singleton<'a>(a: Atom<'a>)
    ensures
        total_electrons_of(seq![a]) == a.valence_electrons as nat,
{
    assert(seq![a].drop_first() =~= Seq::<Atom<'a>>::empty());
    assert(total_electrons_of(Seq::<Atom<'a>>::empty()) == 0);
    assert(seq![a][0] == a);
}

/// The electron total splits at any cut point.
proof fn lemma_total_split<'a>(s: Seq<Atom<'a>>, i: int)
    requires
        0 <= i <= s.len(),
    ensures
        total_electrons_of(s) == total_electrons_of(s.take(i)) + total_electrons_of(s.skip(i)),
{
    assert(s =~= s.take(i) + s.skip(i));
    lemma_total_add(s.take(i), s.skip(i));
}

proof fn lemma_total_insert<'a>(a: Atom<'a>, s: Seq<Atom<'a>>, k: int)
    requires
        0 <= k <= s.len(),
    ensures
        total_electrons_of(s.insert(k, a)) == total_electrons_of(s) + a.valence_electrons,
{
    assert(s.insert(k, a) =~= (s.subrange(0, k) + seq![a]) + s.subrange(k, s.len() as int));
    lemma_total_add(s.subrange(0, k) + seq![a], s.subrange(k, s.len() as int));
    lemma_total_add(s.subrange(0, k), seq![a]);
    lemma_total_singleton(a);
    assert(s =~= s.subrange(0, k) + s.subrange(k, s.len() as int));
    lemma_total_add(s.subrange(0, k), s.subrange(k, s.len() as int));
}

proof fn lemma_sorted_insert<'a>(a: Atom<'a>, s: Seq<Atom<'a>>)
    requires
        sorted_by_sym(s),
    ensures
        sorted_by_sym(insert_sorted(a, s)),
{
    lemma_insert_pos_props(a, s);
    let k = insert_pos(a, s) as int;
    s.insert_ensures(k, a);
    let t = insert_sorted(a, s);
    assert forall|i: int, j: int|
        0 <= i < j < t.len() implies lex_le(sym(#[trigger] t[i]), sym(#[trigger] t[j])) by {
        if j < k {
            assert(t[i] == s[i] && t[j] == s[j]);
        } else if i < k && j == k {
            assert(t[i] == s[i] && t[j] == a);
        } else if i < k && j > k {
            assert(t[i] == s[i] && t[j] == s[j - 1]);
            if i < j - 1 {
                assert(lex_le(sym(s[i]), sym(s[j - 1])));
            } else {
                lemma_lex_le_refl(sym(s[i]));
            }
        } else if i == k {
            assert(t[i] == a && t[j] == s[j - 1]);
            assert(k <= j - 1 < s.len());
            assert(!lex_le(sym(s[k]), sym(a)));
            lemma_lex_le_total(sym(s[k]), sym(a));
            if k < j - 1 {
                lemma_lex_le_trans(sym(a), sym(s[k]), sym(s[j - 1]));
            }
        } else {
            assert(t[i] == s[i - 1] && t[j] == s[j - 1]);
        }
    }
}

proof fn lemma_sym_filter_empty<'a>(s: Seq<Atom<'a>>, k: Seq<char>)
    requires
        forall|i: int| 0 <= i < s.len() ==> sym(#[trigger] s[i]) != k,
    ensures
        sym_filter(s, k) == Seq::<Atom<'a>>::empty(),
    decreases s.len(),
{
    reveal(Seq::filter);
    if s.len() > 0 {
        assert(sym(s.last()) != k);
        lemma_sym_filter_empty(s.drop_last(), k);
    }
}

proof fn lemma_sym_filter_singleton<'a>(a: Atom<'a>, k: Seq<char>)
    ensures
        sym(a) == k ==> sym_filter(seq![a], k) == seq![a],
        sym(a) != k ==> sym_filter(seq![a], k) == Seq::<Atom<'a>>::empty(),
{
    reveal(Seq::filter);
    let pred = |x: Atom<'a>| sym(x) == k;
    assert(seq![a].drop_last() =~= Seq::<Atom<'a>>::empty());
    assert(Seq::<Atom<'a>>::empty().filter(pred) == Seq::<Atom<'a>>::empty());
    assert(seq![a].last() == a);
    if pred(a) {
        assert(seq![a].filter(pred) =~= Seq::<Atom<'a>>::empty().filter(pred).push(a));
    }
}

/// A stable insertion appends `a` to the atoms that share its symbol
/// and leaves every other symbol's subsequence unchanged.
proof fn lemma_filter_insert<'a>(a: Atom<'a>, s: Seq<Atom<'a>>, k: Seq<char>)
    requires
        sorted_by_sym(s),
    ensures
        sym(a) == k ==> sym_filter(insert_sorted(a, s), k) == sym_filter(s, k).push(a),
        sym(a) != k ==> sym_filter(insert_sorted(a, s), k) == sym_filter(s, k),
{
    let pred = |x: Atom<'a>| sym(x) == k;
    lemma_insert_pos_props(a, s);
    let p = insert_pos(a, s) as int;
    let front = s.subrange(0, p);
    let back = s.subrange(p, s.len() as int);
    assert(s.insert(p, a) =~= (front + seq![a]) + back);
    Seq::filter_distributes_over_add(front + seq![a], back, pred);
    Seq::filter_distributes_over_add(front, seq![a], pred);
    assert(s =~= front + back);
    Seq::filter_distributes_over_add(front, back, pred);
    lemma_sym_filter_singleton(a, k);
    if sym(a) == k {
        // No atom at or beyond the insertion point shares the symbol.
        assert forall|i: int| 0 <= i < back.len() implies sym(#[trigger] back[i]) != k by {
            assert(back[i] == s[p + i]);
            if sym(s[p + i]) == k {
                assert(p < s.len());
                lemma_lex_le_refl(sym(s[p + i]));
                if p < p + i {
                    lemma_lex_le_trans(sym(s[p]), sym(s[p + i]), sym(a));
                }
                assert(lex_le(sym(s[p]), sym(a)));
            }
        }
        lemma_sym_filter_empty(back, k);
        assert(sym_filter(insert_sorted(a, s), k) =~= sym_filter(s, k).push(a));
    } else {
        assert(sym_filter(insert_sorted(a, s), k) =~= sym_filter(s, k));
    }
}

proof fn lemma_sort_spec_props<'a>(s: Seq<Atom<'a>>)
    ensures
        sorted_by_sym(sort_spec(s)),
        sort_spec(s).len() == s.len(),
        total_electrons_of(sort_spec(s)) == total_electrons_of(s),
    decreases s.len(),
{
    if s.len() > 0 {
        let t = s.drop_last();
        lemma_sort_spec_props(t);
        lemma_insert_pos_props(s.last(), sort_spec(t));
        lemma_sorted_insert(s.last(), sort_spec(t));
        lemma_total_insert(s.last(), sort_spec(t), insert_pos(s.last(), sort_spec(t)) as int);
        sort_spec(t).insert_ensures(insert_pos(s.last(), sort_spec(t)) as int, s.last());
        assert(s =~= t + seq![s.last()]);
        lemma_total_add(t, seq![s.last()]);
        lemma_total_singleton(s.last());
    }
}

proof fn lemma_sort_spec_stable<'a>(s: Seq<Atom<'a>>)
    ensures
        forall|k: Seq<char>| #[trigger] sym_filter(sort_spec(s), k) == sym_filter(s, k),
    decreases s.len(),
{
    if s.len() == 0 {
        assert(sort_spec(s) =~= s);
    } else {
        let t = s.drop_last();
        lemma_sort_spec_stable(t);
        lemma_sort_spec_props(t);
        assert forall|k: Seq<char>| #[trigger] sym_filter(sort_spec(s), k) == sym_filter(
            s,
            k,
        ) by {
            reveal(Seq::filter);
            lemma_filter_insert(s.last(), sort_spec(t), k);
            if sym(s.last()) == k {
                assert(sym_filter(s, k) == sym_filter(t, k).push(s.last()));
            } else {
                assert(sym_filter(s, k) == sym_filter(t, k));
            }
        }
    }
}

/// Electron conservation: the sort neither adds nor removes valence
/// electrons; the total over the sorted sequence equals the total over
/// the input.
pub proof fn lemma_electron_conservation<'a>(s: Seq<Atom<'a>>)
    ensures
        total_electrons_of(sort_spec(s)) == total_electrons_of(s),
{
    lemma_sort_spec_props(s);
}

/// Length conservation: the sort keeps every atom; the output has
/// exactly as many atoms as the input.
pub proof fn lemma_length_conservation<'a>(s: Seq<Atom<'a>>)
    ensures
        sort_spec(s).len() == s.len(),
{
    lemma_sort_spec_props(s);
}

/// Ordering: the sorted sequence is ascending by symbol, and for every
/// symbol the atoms carrying it appear in their original relative
/// order (the sort is stable).
pub proof fn lemma_sort_ordering<'a>(s: Seq<Atom<'a>>)
    ensures
        sorted_by_sym(sort_spec(s)),
        forall|k: Seq<char>| #[trigger] sym_filter(sort_spec(s), k) == sym_filter(s, k),
{
    lemma_sort_spec_props(s);
    lemma_sort_spec_stable(s);
}

proof fn lemma_sorted_sort_identity<'a>(s: Seq<Atom<'a>>)
    requires
        sorted_by_sym(s),
    ensures
        sort_spec(s) == s,
    decreases s.len(),
{
    if s.len() > 0 {
        let t = s.drop_last();
        assert(sorted_by_sym(t)) by {
            assert forall|i: int, j: int|
                0 <= i < j < t.len() implies lex_le(sym(#[trigger] t[i]), sym(#[trigger] t[j])) by {
                assert(t[i] == s[i] && t[j] == s[j]);
            }
        }
        lemma_sorted_sort_identity(t);
        assert forall|j: int| 0 <= j < t.len() implies lex_le(
            sym(#[trigger] t[j]),
            sym(s.last()),
        ) by {
            assert(t[j] == s[j]);
            assert(lex_le(sym(s[j]), sym(s[s.len() - 1])));
        }
        lemma_insert_pos_unique(s.last(), t, t.len() as int);
        assert(t.insert(t.len() as int, s.last()) =~= s);
    }
}

/// Idempotent re-sort: a sequence that is already sorted comes back
/// unchanged, so sorting twice is the same as sorting once.
pub proof fn lemma_sort_idempotent<'a>(s: Seq<Atom<'a>>)
    ensures
        sorted_by_sym(s) ==> sort_spec(s) == s,
        sort_spec(sort_spec(s)) == sort_spec(s),
{
    if sorted_by_sym(s) {
        lemma_sorted_sort_identity(s);
    }
    lemma_sort_spec_props(s);
    lemma_sorted_sort_identity(sort_spec(s));
}

/// Sums the valence electrons of a slice of atoms.
pub fn calculate_total_electrons<'a>(atoms: &[Atom<'a>]) -> (total: usize)
    requires
        total_electrons_of(atoms@) <= usize::MAX,
    ensures
        total == total_electrons_of(atoms@),
{
    let ghost s = atoms@;
    let mut total: usize = 0;
    let mut i: usize = 0;
    while i < atoms.len()
        invariant
            i <= s.len(),
            atoms@ == s,
            total_electrons_of(s) <= usize::MAX,
            total == total_electrons_of(s.take(i as int)),
        decreases s.len() - i,
    {
        proof {
            lemma_total_split(s, i as int + 1);
            assert(s.take(i as int + 1) =~= s.take(i as int) + seq![s[i as int]]);
            lemma_total_add(s.take(i as int), seq![s[i as int]]);
            lemma_total_singleton(s[i as int]);
        }
        total = total + (atoms[i].valence_electrons as usize);
        i = i + 1;
    }
    proof {
        assert(s.take(s.len() as int) =~= s);
    }
    total
}

/// Inserts `a` into the sorted vector `v` at its stable position.
fn insert_atom<'a>(v: &mut Vec<Atom<'a>>, a: Atom<'a>)
    ensures
        final(v)@ == insert_sorted(a, old(v)@),
{
    let mut k: usize = 0;
    while k < v.len() && str_le(v[k].atom, a.atom)
        invariant
            k <= v@.len(),
            v@ == old(v)@,
            forall|j: int| 0 <= j < k ==> lex_le(sym(#[trigger] v@[j]), sym(a)),
        decreases v@.len() - k,
    {
        k = k + 1;
    }
    proof {
        lemma_insert_pos_unique(a, v@, k as int);
    }
    v.insert(k, a);
}

/// The engine's sort step: stably sorts the atoms in ascending
/// lexicographic order of their element symbols.
pub fn sort_atoms<'a>(atoms: &mut Vec<Atom<'a>>)
    ensures
        final(atoms)@ == sort_spec(old(atoms)@),
{
    let ghost s = atoms@;
    let mut out: Vec<Atom<'a>> = Vec::new();
    let mut i: usize = 0;
    while i < atoms.len()
        invariant
            i <= s.len(),
            atoms@ == s,
            out@ == sort_spec(s.take(i as int)),
        decreases s.len() - i,
    {
        let a = atoms[i];
        insert_atom(&mut out, a);
        proof {
            assert(s.take(i as int + 1).drop_last() =~= s.take(i as int));
            assert(s.take(i as int + 1).last() == s[i as int]);
        }
        i = i + 1;
    }
    proof {
        assert(s.take(s.len() as int) =~= s);
    }
    *atoms = out;
}

} // verus!
