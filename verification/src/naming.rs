//! Name synthesis: after sorting, maximal runs of atoms sharing a
//! symbol each contribute one fragment — a numeric prefix word for the
//! run length joined to a lowercase element word for the symbol, with
//! a single leading space. Run lengths above ten and symbols outside
//! the catalog contribute empty words.

use vstd::prelude::*;
use vstd::string::StringExecFns;

use crate::atoms::Atom;
use crate::atoms::sym;
use crate::order::str_eq;

verus! {

/// The numeric prefix word for a run length; empty outside one to ten.
pub open spec fn prefix_word(n: int) -> Seq<char> {
    if n == 1 {
        "mono"@
    } else if n == 2 {
        "di"@
    } else if n == 3 {
        "tri"@
    } else if n == 4 {
        "tetra"@
    } else if n == 5 {
        "penta"@
    } else if n == 6 {
        "hexa"@
    } else if n == 7 {
        "hepta"@
    } else if n == 8 {
        "octa"@
    } else if n == 9 {
        "nona"@
    } else if n == 10 {
        "deca"@
    } else {
        Seq::empty()
    }
}

/// The lowercase element word for a symbol; empty for symbols outside
/// the catalog.
pub open spec fn element_word(k: Seq<char>) -> Seq<char> {
    if k == "H"@ {
        "hydrogen"@
    } else if k == "He"@ {
        "helium"@
    } else if k == "Li"@ {
        "lithium"@
    } else if k == "O"@ {
        "oxide"@
    } else {
        Seq::empty()
    }
}

/// One name fragment: a leading space, the prefix word for the run
/// length, and the element word for the symbol.
pub open spec fn fragment(n: int, k: Seq<char>) -> Seq<char> {
    " "@ + prefix_word(n) + element_word(k)
}

/// The length of the leading run of atoms whose symbol is `k`.
pub open spec fn run_len<'a>(s: Seq<Atom<'a>>, k: Seq<char>) -> nat
    decreases s.len(),
{
    if s.len() == 0 {
        0
    } else if sym(s[0]) == k {
        1 + run_len(s.drop_first(), k)
    } else {
        0
    }
}

proof fn lemma_run_len_le<'a>(s: Seq<Atom<'a>>, k: Seq<char>)
    ensures
        run_len(s, k) <= s.len(),
    decreases s.len(),
{
    if s.len() > 0 && sym(s[0]) == k {
        lemma_run_len_le(s.drop_first(), k);
    }
}

/// The molecule name of a (sorted) sequence of atoms: one fragment per
/// maximal run of equal symbols, in run order.
pub open spec fn name_of<'a>(s: Seq<Atom<'a>>) -> Seq<char>
    decreases s.len(),
    via name_of_decreases
{
    if s.len() == 0 {
        Seq::empty()
    } else {
        let n = run_len(s, sym(s[0]));
        fragment(n as int, sym(s[0])) + name_of(s.skip(n as int))
    }
}

#[via_fn]
proof fn name_of_decreases<'a>(s: Seq<Atom<'a>>) {
    if s.len() > 0 {
        lemma_run_len_le(s, sym(s[0]));
        assert(run_len(s, sym(s[0])) >= 1);
    }
}

/// The leading run is exactly `c` long when the first `c` atoms carry
/// the symbol and the atom after them (if any) does not.
proof fn lemma_run_len_is<'a>(s: Seq<Atom<'a>>, k: Seq<char>, c: int)
    requires
        0 <= c <= s.len(),
        forall|m: int| 0 <= m < c ==> sym(#[trigger] s[m]) == k,
        c < s.len() ==> sym(s[c]) != k,
    ensures
        run_len(s, k) == c,
    decreases c,
{
    if c == 0 {
    } else {
        assert(sym(s[0]) == k);
        assert forall|m: int| 0 <= m < c - 1 implies sym(#[trigger] s.drop_first()[m]) == k by {
            assert(s.drop_first()[m] == s[m + 1]);
        }
        if c - 1 < s.drop_first().len() {
            assert(s.drop_first()[c - 1] == s[c]);
        }
        lemma_run_len_is(s.drop_first(), k, c - 1);
    }
}

/// Joins the numeric prefix word for `num` with the element word for
/// `atom_name` into one naming unit.
pub fn match_it(num: usize, atom_name: &str) -> (r: String)
    ensures
        r@ == prefix_word(num as int) + element_word(atom_name@),
{
    let prefix: &str = if num == 1 {
        "mono"
    } else if num == 2 {
        "di"
    } else if num == 3 {
        "tri"
    } else if num == 4 {
        "tetra"
    } else if num == 5 {
        "penta"
    } else if num == 6 {
        "hexa"
    } else if num == 7 {
        "hepta"
    } else if num == 8 {
        "octa"
    } else if num == 9 {
        "nona"
    } else if num == 10 {
        "deca"
    } else {
        ""
    };
    proof {
        reveal_strlit("");
        assert(prefix@ == prefix_word(num as int));
    }
    let element: &str = if str_eq(atom_name, "H") {
        "hydrogen"
    } else if str_eq(atom_name, "He") {
        "helium"
    } else if str_eq(atom_name, "Li") {
        "lithium"
    } else if str_eq(atom_name, "O") {
        "oxide"
    } else {
        ""
    };
    proof {
        assert(element@ == element_word(atom_name@));
    }
    let mut r = String::from_str(prefix);
    r.append(element);
    r
}

/// Builds the molecule name of a sorted sequence of atoms: walks the
/// maximal runs of equal symbols and appends one fragment per run.
pub fn synthesize_name<'a>(atoms: &Vec<Atom<'a>>) -> (r: String)
    ensures
        r@ == name_of(atoms@),
{
    let ghost s = atoms@;
    let mut name = String::new();
    proof {
        assert(s.skip(0) =~= s);
        assert(name@ + name_of(s) =~= name_of(s));
    }
    let mut i: usize = 0;
    while i < atoms.len()
        invariant
            i <= s.len(),
            atoms@ == s,
            name@ + name_of(s.skip(i as int)) == name_of(s),
        decreases s.len() - i,
    {
        let symbol = atoms[i].atom;
        let mut j: usize = i + 1;
        while j < atoms.len() && str_eq(atoms[j].atom, symbol)
            invariant
                i < j <= s.len(),
                atoms@ == s,
                symbol@ == sym(s[i as int]),
                forall|m: int| i <= m < j ==> sym(#[trigger] s[m]) == symbol@,
            decreases s.len() - j,
        {
            j = j + 1;
        }
        let ghost run = s.skip(i as int);
        proof {
            assert forall|m: int| 0 <= m < j - i implies sym(#[trigger] run[m]) == symbol@ by {
                assert(run[m] == s[i + m]);
            }
            if j < s.len() {
                assert(run[j - i] == s[j as int]);
            }
            lemma_run_len_is(run, symbol@, j - i);
            assert(run[0] == s[i as int]);
        }
        let ghost before = name@;
        name.append(" ");
        let unit = match_it(j - i, symbol);
        name.append(unit.as_str());
        proof {
            assert(run.skip(j - i) =~= s.skip(j as int));
            assert(name_of(run) == fragment(j - i, symbol@) + name_of(s.skip(j as int)));
            assert(name@ =~= before + fragment(j - i, symbol@));
            assert(name@ + name_of(s.skip(j as int)) =~= before + name_of(run));
        }
        i = j;
    }
    proof {
        assert(s.skip(s.len() as int) =~= Seq::<Atom<'a>>::empty());
        assert(name_of(s.skip(s.len() as int)) == Seq::<char>::empty());
        assert(name@ + Seq::<char>::empty() =~= name@);
    }
    name
}

} // verus!
