use molecules::atoms::{helium, hydrogen, lithium, oxygen, Atom, ElementState, MatterState, Vec2};
use molecules::create_molecule;
use molecules::match_it;
use molecules::str_eq;
use molecules::str_le;

fn custom_atom(symbol: &'static str, valence: u32, x: i32) -> Atom<'static> {
    Atom {
        pos: Vec2::new(x, 0),
        name: symbol,
        atom: symbol,
        num: 1,
        valence_electrons: valence,
        protons: 1,
        neutrons: 0,
        matter_state: MatterState::Gas,
        element_state: ElementState::Nonmetall,
    }
}

fn symbols<'a>(atoms: &'a [Atom<'a>]) -> Vec<&'a str> {
    atoms.iter().map(|a| a.atom).collect()
}

#[test]
fn water_forms_a_molecule() {
    let atoms = vec![hydrogen(), hydrogen(), oxygen()];
    match create_molecule(atoms) {
        Ok(m) => {
            assert_eq!(m.total_electrons, 8);
            assert_eq!(symbols(&m.atoms), vec!["H", "H", "O"]);
            assert_eq!(m.name, " dihydrogen monooxide");
        }
        Err(_) => panic!("water must satisfy the octet rule"),
    }
}

#[test]
fn single_hydrogen_is_rejected() {
    let atoms = vec![hydrogen()];
    match create_molecule(atoms) {
        Ok(_) => panic!("one electron does not satisfy the octet rule"),
        Err(t) => {
            assert_eq!(t.total_electrons, 1);
            assert_eq!(t.atoms.len(), 1);
            assert_eq!(t.atoms[0].atom, "H");
        }
    }
}

#[test]
fn empty_input_forms_an_empty_molecule() {
    let atoms: Vec<Atom> = Vec::new();
    match create_molecule(atoms) {
        Ok(m) => {
            assert_eq!(m.total_electrons, 0);
            assert!(m.atoms.is_empty());
            assert_eq!(m.name, "");
        }
        Err(_) => panic!("an empty input has total zero and is eligible"),
    }
}

#[test]
fn four_hydrogens_are_rejected() {
    let atoms = vec![hydrogen(), hydrogen(), hydrogen(), hydrogen()];
    match create_molecule(atoms) {
        Ok(_) => panic!("four electrons do not satisfy the octet rule"),
        Err(t) => {
            assert_eq!(t.total_electrons, 4);
            assert_eq!(t.atoms.len(), 4);
        }
    }
}

#[test]
fn eight_hydrogens_form_octahydrogen() {
    let atoms = vec![hydrogen(); 8];
    match create_molecule(atoms) {
        Ok(m) => {
            assert_eq!(m.total_electrons, 8);
            assert_eq!(symbols(&m.atoms), vec!["H"; 8]);
            assert_eq!(m.name, " octahydrogen");
        }
        Err(_) => panic!("eight electrons satisfy the octet rule"),
    }
}

#[test]
fn atoms_are_sorted_by_symbol() {
    let atoms = vec![oxygen(), lithium(), hydrogen(), helium(), hydrogen()];
    // total = 6 + 1 + 1 + 2 + 1 = 11, so this is rejected, but still sorted
    match create_molecule(atoms) {
        Ok(_) => panic!("eleven electrons do not satisfy the octet rule"),
        Err(t) => {
            assert_eq!(t.total_electrons, 11);
            assert_eq!(symbols(&t.atoms), vec!["H", "H", "He", "Li", "O"]);
        }
    }
}

#[test]
fn equal_symbols_keep_their_input_order() {
    let first = custom_atom("H", 1, 1);
    let second = custom_atom("H", 1, 2);
    let third = custom_atom("H", 1, 3);
    let atoms = vec![second, custom_atom("O", 6, 9), first, third];
    match create_molecule(atoms) {
        Ok(_) => panic!("nine electrons do not satisfy the octet rule"),
        Err(t) => {
            assert_eq!(symbols(&t.atoms), vec!["H", "H", "H", "O"]);
            // the three hydrogens keep their relative input order
            assert_eq!(t.atoms[0].pos.x, 2);
            assert_eq!(t.atoms[1].pos.x, 1);
            assert_eq!(t.atoms[2].pos.x, 3);
        }
    }
}

#[test]
fn electron_total_is_conserved_in_the_output() {
    let atoms = vec![oxygen(), oxygen(), helium(), lithium(), hydrogen()];
    // total = 6 + 6 + 2 + 1 + 1 = 16 -> molecule
    match create_molecule(atoms) {
        Ok(m) => {
            let output_sum: u32 = m.atoms.iter().map(|a| a.valence_electrons).sum();
            assert_eq!(m.total_electrons, 16);
            assert_eq!(output_sum as usize, m.total_electrons);
            assert_eq!(m.atoms.len(), 5);
        }
        Err(_) => panic!("sixteen electrons satisfy the octet rule"),
    }
}

#[test]
fn sorting_an_already_sorted_sequence_changes_nothing() {
    let atoms = vec![
        custom_atom("H", 1, 10),
        custom_atom("H", 1, 20),
        custom_atom("He", 2, 30),
        custom_atom("O", 6, 40),
    ];
    // total = 10 -> rejected, output is the sorted sequence
    let sorted = match create_molecule(atoms) {
        Ok(_) => panic!("ten electrons do not satisfy the octet rule"),
        Err(t) => t.atoms,
    };
    assert_eq!(symbols(&sorted), vec!["H", "H", "He", "O"]);
    let positions: Vec<i32> = sorted.iter().map(|a| a.pos.x).collect();
    // feed the already-sorted output through the engine again
    let resorted = match create_molecule(sorted) {
        Ok(_) => panic!("the total is still ten"),
        Err(t) => t.atoms,
    };
    assert_eq!(symbols(&resorted), vec!["H", "H", "He", "O"]);
    let repositions: Vec<i32> = resorted.iter().map(|a| a.pos.x).collect();
    assert_eq!(positions, repositions);
}

#[test]
fn unknown_symbols_contribute_an_empty_element_word() {
    let atoms = vec![custom_atom("X", 4, 0), custom_atom("X", 4, 1)];
    // total = 8 -> molecule; run of two unknown atoms -> " di" + ""
    match create_molecule(atoms) {
        Ok(m) => {
            assert_eq!(m.total_electrons, 8);
            assert_eq!(m.name, " di");
        }
        Err(_) => panic!("eight electrons satisfy the octet rule"),
    }
}

#[test]
fn runs_longer_than_ten_get_an_empty_prefix() {
    let atoms = vec![hydrogen(); 16];
    match create_molecule(atoms) {
        Ok(m) => {
            assert_eq!(m.total_electrons, 16);
            assert_eq!(m.name, " hydrogen");
        }
        Err(_) => panic!("sixteen electrons satisfy the octet rule"),
    }
}

#[test]
fn match_it_joins_prefix_and_element_words() {
    assert_eq!(match_it(1, "H"), "monohydrogen");
    assert_eq!(match_it(2, "He"), "dihelium");
    assert_eq!(match_it(3, "Li"), "trilithium");
    assert_eq!(match_it(4, "O"), "tetraoxide");
    assert_eq!(match_it(5, "H"), "pentahydrogen");
    assert_eq!(match_it(6, "H"), "hexahydrogen");
    assert_eq!(match_it(7, "H"), "heptahydrogen");
    assert_eq!(match_it(8, "H"), "octahydrogen");
    assert_eq!(match_it(9, "H"), "nonahydrogen");
    assert_eq!(match_it(10, "H"), "decahydrogen");
    assert_eq!(match_it(11, "H"), "hydrogen");
    assert_eq!(match_it(0, "O"), "oxide");
    assert_eq!(match_it(2, "Xe"), "di");
}

#[test]
fn string_order_is_lexicographic() {
    assert!(str_le("H", "H"));
    assert!(str_le("H", "He"));
    assert!(!str_le("He", "H"));
    assert!(str_le("He", "Li"));
    assert!(str_le("Li", "O"));
    assert!(str_le("", "H"));
    assert!(!str_le("H", ""));
}

#[test]
fn string_equality_compares_characters() {
    assert!(str_eq("He", "He"));
    assert!(!str_eq("He", "H"));
    assert!(!str_eq("H", "He"));
    assert!(!str_eq("H", "O"));
    assert!(str_eq("", ""));
}

#[test]
fn catalog_atoms_carry_their_element_data() {
    let h = hydrogen();
    assert_eq!(h.name, "Hydrogen");
    assert_eq!(h.atom, "H");
    assert_eq!(h.num, 1);
    assert_eq!(h.valence_electrons, 1);
    assert_eq!(h.protons, 1);
    assert_eq!(h.neutrons, 0);
    assert_eq!(h.matter_state, MatterState::Gas);
    assert_eq!(h.element_state, ElementState::Nonmetall);
    let he = helium();
    assert_eq!(he.atom, "He");
    assert_eq!(he.valence_electrons, 2);
    let li = lithium();
    assert_eq!(li.atom, "Li");
    assert_eq!(li.matter_state, MatterState::Solid);
    assert_eq!(li.element_state, ElementState::Metall);
    let o = oxygen();
    assert_eq!(o.atom, "O");
    assert_eq!(o.valence_electrons, 6);
}

#[test]
fn vec2_holds_its_coordinates() {
    let v = Vec2::new(-3, 7);
    assert_eq!(v.x, -3);
    assert_eq!(v.y, 7);
}
