use vstd::prelude::*;

verus! {

/// A player's character: a display name and three attributes, each a byte.
#[derive(Clone, Debug)]
pub struct Character {
    pub name: String,
    pub strength: u8,
    pub dexterity: u8,
    pub hitpoints: u8,
}

/// What the character-creation form submits.
#[derive(Clone, Debug)]
pub struct CharacterForm {
    pub name: String,
}

/// The mathematical value of a character: its name as characters.
pub struct CharacterView {
    pub name: Seq<char>,
    pub strength: u8,
    pub dexterity: u8,
    pub hitpoints: u8,
}

impl View for Character {
    type V = CharacterView;

    open spec fn view(&self) -> CharacterView {
        CharacterView {
            name: self.name@,
            strength: self.strength,
            dexterity: self.dexterity,
            hitpoints: self.hitpoints,
        }
    }
}

impl Character {
    /// A character with the given name and attributes.
    pub fn new(name: String, strength: u8, dexterity: u8, hitpoints: u8) -> (r: Character)
        ensures
            r.name@ == name@,
            r.strength == strength,
            r.dexterity == dexterity,
            r.hitpoints == hitpoints,
    {
        Character { name, strength, dexterity, hitpoints }
    }

    /// An independent copy of this character.
    pub fn duplicate(&self) -> (r: Character)
        ensures
            r@ == self@,
    {
        Character {
            name: self.name.clone(),
            strength: self.strength,
            dexterity: self.dexterity,
            hitpoints: self.hitpoints,
        }
    }

    /// This character with its hitpoints replaced.
    pub fn with_hitpoints(&self, hitpoints: u8) -> (r: Character)
        ensures
            r@ == (CharacterView { hitpoints, ..self@ }),
    {
        Character {
            name: self.name.clone(),
            strength: self.strength,
            dexterity: self.dexterity,
            hitpoints,
        }
    }
}

impl CharacterForm {
    /// A form that submits the given name.
    pub fn new(name: String) -> (r: CharacterForm)
        ensures
            r.name@ == name@,
    {
        CharacterForm { name }
    }
}

} // verus!
