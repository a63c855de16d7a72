use vstd::prelude::*;
use vstd::string::StringExecFns;
use crate::character::{Character, CharacterView};

verus! {

/// The damage of one blow: attacker's strength, less the defender's
/// dexterity, plus the random term, in the integers.
pub open spec fn spec_damage(strength: u8, dexterity: u8, roll: i8) -> int {
    strength as int - dexterity as int + roll as int
}

/// "{attacker} missed {defender}"
pub open spec fn missed_message(attacker: Seq<char>, defender: Seq<char>) -> Seq<char> {
    attacker + " missed "@ + defender
}

/// "{attacker} hits {defender}"
pub open spec fn hit_message(attacker: Seq<char>, defender: Seq<char>) -> Seq<char> {
    attacker + " hits "@ + defender
}

/// "{attacker} hits {defender}. {defender} is slain!"
pub open spec fn slain_message(attacker: Seq<char>, defender: Seq<char>) -> Seq<char> {
    hit_message(attacker, defender) + ". "@ + defender + " is slain!"@
}

/// The message that one attack produces.
pub open spec fn attack_message(a: CharacterView, d: CharacterView, roll: i8) -> Seq<char> {
    let damage = spec_damage(a.strength, d.dexterity, roll);
    if damage < 1 {
        missed_message(a.name, d.name)
    } else if d.hitpoints as int - damage < 1 {
        slain_message(a.name, d.name)
    } else {
        hit_message(a.name, d.name)
    }
}

/// The defender after one attack: `None` when it is slain.
pub open spec fn defender_after(a: CharacterView, d: CharacterView, roll: i8) -> Option<
    CharacterView,
> {
    let damage = spec_damage(a.strength, d.dexterity, roll);
    if damage < 1 {
        Some(d)
    } else if d.hitpoints as int - damage < 1 {
        None
    } else {
        Some(CharacterView { hitpoints: (d.hitpoints as int - damage) as u8, ..d })
    }
}

/// The view of a character that may be absent.
pub open spec fn option_view(c: Option<Character>) -> Option<CharacterView> {
    match c {
        Some(c) => Some(c@),
        None => None,
    }
}

/// Computes the damage of one blow in a signed domain wide enough that
/// the subtraction of the unsigned attributes cannot wrap.
pub fn damage(strength: u8, dexterity: u8, roll: i8) -> (r: i16)
    ensures
        r as int == spec_damage(strength, dexterity, roll),
{
    strength as i16 - dexterity as i16 + roll as i16
}

/// Resolves one attack of `attacker` on `defender`, with `roll` as the
/// random term: the message to show, and the defender afterwards (`None`
/// when it is slain).
pub fn resolve(attacker: &Character, defender: &Character, roll: i8) -> (r: (String, Option<
    Character,
>))
    ensures
        r.0@ == attack_message(attacker@, defender@, roll),
        option_view(r.1) == defender_after(attacker@, defender@, roll),
{
    let damage = damage(attacker.strength, defender.dexterity, roll);
    let mut message = attacker.name.clone();
    if damage < 1 {
        message.append(" missed ");
        message.append(defender.name.as_str());
        (message, Some(defender.duplicate()))
    } else if defender.hitpoints as i16 - damage < 1 {
        message.append(" hits ");
        message.append(defender.name.as_str());
        message.append(". ");
        message.append(defender.name.as_str());
        message.append(" is slain!");
        (message, None)
    } else {
        message.append(" hits ");
        message.append(defender.name.as_str());
        let hitpoints = (defender.hitpoints as i16 - damage) as u8;
        (message, Some(defender.with_hitpoints(hitpoints)))
    }
}

} // verus!
