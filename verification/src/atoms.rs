//! Atoms: immutable value records describing an element, plus a small
//! catalog of named elements (hydrogen, helium, lithium, oxygen).

use vstd::prelude::*;

verus! {

/// A two-dimensional position. It is part of an atom's identity but
/// plays no role in molecule formation.
#[derive(Clone, Copy, Debug)]
pub struct Vec2 {
    pub x: i32,
    pub y: i32,
}

impl Vec2 {
    pub fn new(x: i32, y: i32) -> (v: Vec2)
        ensures
            v.x == x,
            v.y == y,
    {
        Vec2 { x, y }
    }
}

/// The state of matter of an element at room temperature.
#[derive(Clone, Copy, Debug, PartialEq, Eq, Structural)]
pub enum MatterState {
    Gas,
    Liquid,
    Solid,
}

/// The broad class of an element.
#[derive(Clone, Copy, Debug, PartialEq, Eq, Structural)]
pub enum ElementState {
    Metall,
    Metalloid,
    Nonmetall,
}

/// An immutable element record. The molecule-formation engine reads
/// only `atom` (the element symbol) and `valence_electrons`; the other
/// fields ride along unchanged.
#[derive(Clone, Copy, Debug)]
pub struct Atom<'a> {
    pub pos: Vec2,
    pub name: &'a str,
    pub atom: &'a str,
    pub num: u32,
    pub valence_electrons: u32,
    pub protons: u32,
    pub neutrons: u32,
    pub matter_state: MatterState,
    pub element_state: ElementState,
}

/// The element symbol of an atom, as a character sequence.
pub open spec fn sym<'a>(a: Atom<'a>) -> Seq<char> {
    a.atom@
}

/// The hydrogen atom of the catalog.
pub fn hydrogen() -> (a: Atom<'static>)
    ensures
        a.name@ == "Hydrogen"@,
        a.atom@ == "H"@,
        a.num == 1,
        a.valence_electrons == 1,
        a.protons == 1,
        a.neutrons == 0,
        a.matter_state == MatterState::Gas,
        a.element_state == ElementState::Nonmetall,
        a.pos.x == 0 && a.pos.y == 0,
{
    Atom {
        pos: Vec2::new(0, 0),
        name: "Hydrogen",
        atom: "H",
        num: 1,
        valence_electrons: 1,
        protons: 1,
        neutrons: 0,
        matter_state: MatterState::Gas,
        element_state: ElementState::Nonmetall,
    }
}

/// The helium atom of the catalog.
pub fn helium() -> (a: Atom<'static>)
    ensures
        a.name@ == "Helium"@,
        a.atom@ == "He"@,
        a.num == 2,
        a.valence_electrons == 2,
        a.protons == 2,
        a.neutrons == 2,
        a.matter_state == MatterState::Gas,
        a.element_state == ElementState::Nonmetall,
        a.pos.x == 0 && a.pos.y == 0,
{
    Atom {
        pos: Vec2::new(0, 0),
        name: "Helium",
        atom: "He",
        num: 2,
        valence_electrons: 2,
        protons: 2,
        neutrons: 2,
        matter_state: MatterState::Gas,
        element_state: ElementState::Nonmetall,
    }
}

/// The lithium atom of the catalog.
pub fn lithium() -> (a: Atom<'static>)
    ensures
        a.name@ == "Lithium"@,
        a.atom@ == "Li"@,
        a.num == 3,
        a.valence_electrons == 1,
        a.protons == 3,
        a.neutrons == 4,
        a.matter_state == MatterState::Solid,
        a.element_state == ElementState::Metall,
        a.pos.x == 0 && a.pos.y == 0,
{
    Atom {
        pos: Vec2::new(0, 0),
        name: "Lithium",
        atom: "Li",
        num: 3,
        valence_electrons: 1,
        protons: 3,
        neutrons: 4,
        matter_state: MatterState::Solid,
        element_state: ElementState::Metall,
    }
}

/// The oxygen atom of the catalog.
pub fn oxygen() -> (a: Atom<'static>)
    ensures
        a.name@ == "Oxygen"@,
        a.atom@ == "O"@,
        a.num == 8,
        a.valence_electrons == 6,
        a.protons == 8,
        a.neutrons == 8,
        a.matter_state == MatterState::Gas,
        a.element_state == ElementState::Nonmetall,
        a.pos.x == 0 && a.pos.y == 0,
{
    Atom {
        pos: Vec2::new(0, 0),
        name: "Oxygen",
        atom: "O",
        num: 8,
        valence_electrons: 6,
        protons: 8,
        neutrons: 8,
        matter_state: MatterState::Gas,
        element_state: ElementState::Nonmetall,
    }
}

} // verus!
