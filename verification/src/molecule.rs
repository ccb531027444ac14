//! The molecule-formation engine: tally the valence electrons, gate on
//! the simplified octet rule, sort the atoms canonically, and — when
//! the rule is satisfied — synthesize the molecule's name.

use vstd::prelude::*;

use crate::atoms::Atom;
use crate::naming::name_of;
use crate::naming::synthesize_name;
use crate::sorting::calculate_total_electrons;
use crate::sorting::lemma_electron_conservation;
use crate::sorting::lemma_length_conservation;
use crate::sorting::lemma_sort_ordering;
use crate::sorting::sort_atoms;
use crate::sorting::sort_spec;
use crate::sorting::sorted_by_sym;
use crate::sorting::sym_filter;
use crate::sorting::total_electrons_of;

verus! {

/// What both outcomes of the engine guarantee about their atoms and
/// electron total: the output is the canonical (stable symbol-sorted)
/// ordering of the input, so it is sorted, keeps every atom, keeps the
/// relative order of atoms sharing a symbol, and carries the input's
/// electron total.
pub open spec fn canonical_output<'a>(
    input: Seq<Atom<'a>>,
    out: Seq<Atom<'a>>,
    total: usize,
) -> bool {
    &&& out == sort_spec(input)
    &&& total == total_electrons_of(input)
    &&& sorted_by_sym(out)
    &&& out.len() == input.len()
    &&& total_electrons_of(out) == total_electrons_of(input)
    &&& forall|k: Seq<char>| #[trigger] sym_filter(out, k) == sym_filter(input, k)
}

/// A successfully formed molecule: its atoms in canonical order, its
/// synthesized name, and the total valence-electron count.
#[derive(Debug)]
pub struct Molecule<'a> {
    pub atoms: Vec<Atom<'a>>,
    pub name: String,
    pub total_electrons: usize,
}

/// A rejected combination: the atoms in canonical order and the total
/// valence-electron count, with no name.
#[derive(Debug)]
pub struct Trash<'a> {
    pub atoms: Vec<Atom<'a>>,
    pub total_electrons: usize,
}

/// Attempts to combine `atoms` into a molecule. The total valence
/// electron count decides: a multiple of eight (the simplified octet
/// rule; zero included, so an empty input forms an empty molecule)
/// forms a `Molecule`, anything else is returned as `Trash`. Either
/// way the atoms come back stably sorted by element symbol with their
/// electron total.
pub fn create_molecule<'a>(atoms: Vec<Atom<'a>>) -> (r: Result<Molecule<'a>, Trash<'a>>)
    requires
        total_electrons_of(atoms@) <= usize::MAX,
    ensures
        match r {
            Ok(m) => {
                &&& total_electrons_of(atoms@) % 8 == 0
                &&& canonical_output(atoms@, m.atoms@, m.total_electrons)
                &&& m.name@ == name_of(sort_spec(atoms@))
            },
            Err(t) => {
                &&& total_electrons_of(atoms@) % 8 != 0
                &&& canonical_output(atoms@, t.atoms@, t.total_electrons)
            },
        },
{
    let total_electrons = calculate_total_electrons(atoms.as_slice());
    let can_form_molecule = total_electrons % 8 == 0;
    let mut atoms = atoms;
    proof {
        lemma_sort_ordering(atoms@);
        lemma_length_conservation(atoms@);
        lemma_electron_conservation(atoms@);
    }
    sort_atoms(&mut atoms);
    if can_form_molecule {
        let name = synthesize_name(&atoms);
        Ok(Molecule { atoms, name, total_electrons })
    } else {
        Err(Trash { atoms, total_electrons })
    }
}

} // verus!
