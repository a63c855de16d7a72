use vstd::prelude::*;
use crate::character::CharacterView;
use crate::combat::{attack_message, defender_after, missed_message, spec_damage};
use crate::roster::{
    after_attack, attack_error, has_id, ids_unique, index_of, lookup, AttackError, EntryView,
};

verus! {

proof fn lemma_index_of_unique(s: Seq<EntryView>, id: Seq<char>)
    requires
        ids_unique(s),
        has_id(s, id),
    ensures
        0 <= index_of(s, id) < s.len(),
        s[index_of(s, id)].0 == id,
        forall|j: int| 0 <= j < s.len() && j != index_of(s, id) ==> #[trigger] s[j].0 != id,
{
    let i = index_of(s, id);
    assert forall|j: int| 0 <= j < s.len() && j != i implies #[trigger] s[j].0 != id by {
        assert(s[i].0 != s[j].0);
    }
}

/// A blow whose damage is below one misses: the defender comes out
/// unchanged and the message says the attacker missed.
pub proof fn lemma_miss_leaves_defender(a: CharacterView, d: CharacterView, roll: i8)
    requires
        spec_damage(a.strength, d.dexterity, roll) < 1,
    ensures
        defender_after(a, d, roll) == Some(d),
        attack_message(a, d, roll) == missed_message(a.name, d.name),
{
}

/// An attack whose damage is below one leaves the whole roster as it was.
pub proof fn lemma_miss_leaves_roster(
    s: Seq<EntryView>,
    attacker: Seq<char>,
    target: Seq<char>,
    roll: i8,
)
    requires
        ids_unique(s),
        attack_error(s, attacker, target) is None,
        spec_damage(
            lookup(s, attacker)->0.strength,
            lookup(s, target)->0.dexterity,
            roll,
        ) < 1,
    ensures
        after_attack(s, attacker, target, roll) == s,
{
    lemma_index_of_unique(s, target);
    let i = index_of(s, target);
    assert(s.update(i, (target, s[i].1)) =~= s);
}

/// An attack that wounds without slaying keeps the target in the roster,
/// with its hitpoints lowered by exactly the damage, and keeps the number
/// of characters.
pub proof fn lemma_wound_keeps_target(
    s: Seq<EntryView>,
    attacker: Seq<char>,
    target: Seq<char>,
    roll: i8,
)
    requires
        ids_unique(s),
        attack_error(s, attacker, target) is None,
        spec_damage(lookup(s, attacker)->0.strength, lookup(s, target)->0.dexterity, roll) >= 1,
        lookup(s, target)->0.hitpoints - spec_damage(
            lookup(s, attacker)->0.strength,
            lookup(s, target)->0.dexterity,
            roll,
        ) >= 1,
    ensures
        ids_unique(after_attack(s, attacker, target, roll)),
        after_attack(s, attacker, target, roll).len() == s.len(),
        has_id(after_attack(s, attacker, target, roll), target),
        lookup(after_attack(s, attacker, target, roll), target)->0.hitpoints == lookup(
            s,
            target,
        )->0.hitpoints - spec_damage(
            lookup(s, attacker)->0.strength,
            lookup(s, target)->0.dexterity,
            roll,
        ),
{
    lemma_index_of_unique(s, target);
    let i = index_of(s, target);
    let t = after_attack(s, attacker, target, roll);
    assert(t[i].0 == target);
    assert(ids_unique(t)) by {
        assert forall|j: int, k: int|
            0 <= j < t.len() && 0 <= k < t.len() && j != k implies #[trigger] t[j].0
            != #[trigger] t[k].0 by {
            if j != i && k != i {
                assert(s[j].0 != s[k].0);
            }
        }
    }
    lemma_index_of_unique(t, target);
}

/// A slain target is gone: the roster no longer holds it, and a later
/// attack on it fails because the target is unknown.
pub proof fn lemma_slain_is_gone(
    s: Seq<EntryView>,
    attacker: Seq<char>,
    target: Seq<char>,
    roll: i8,
    later_attacker: Seq<char>,
)
    requires
        ids_unique(s),
        attack_error(s, attacker, target) is None,
        defender_after(lookup(s, attacker)->0, lookup(s, target)->0, roll) is None,
        has_id(after_attack(s, attacker, target, roll), later_attacker),
    ensures
        ids_unique(after_attack(s, attacker, target, roll)),
        !has_id(after_attack(s, attacker, target, roll), target),
        lookup(after_attack(s, attacker, target, roll), target) is None,
        attack_error(after_attack(s, attacker, target, roll), later_attacker, target) == Some(
            AttackError::UnknownTarget,
        ),
{
    lemma_index_of_unique(s, target);
    let i = index_of(s, target);
    let t = after_attack(s, attacker, target, roll);
    assert(t =~= s.remove(i));
    assert(!has_id(t, target)) by {
        if has_id(t, target) {
            let j = choose|j: int| 0 <= j < t.len() && #[trigger] t[j].0 == target;
            if j < i {
                assert(s[j].0 == target);
            } else {
                assert(s[j + 1].0 == target);
            }
        }
    }
    assert(ids_unique(t)) by {
        assert forall|j: int, k: int|
            0 <= j < t.len() && 0 <= k < t.len() && j != k implies #[trigger] t[j].0
            != #[trigger] t[k].0 by {
            let jj = if j < i { j } else { j + 1 };
            let kk = if k < i { k } else { k + 1 };
            assert(s[jj].0 != s[kk].0);
        }
    }
}

/// A character just added under a fresh identifier is listed exactly once,
/// under that identifier, with the name and attributes it was given.
pub proof fn lemma_created_listed_once(s: Seq<EntryView>, id: Seq<char>, c: CharacterView)
    requires
        ids_unique(s),
        !has_id(s, id),
    ensures
        ids_unique(s.push((id, c))),
        lookup(s.push((id, c)), id) == Some(c),
        s.push((id, c))[s.len() as int] == (id, c),
        forall|j: int| 0 <= j < s.len() ==> #[trigger] s.push((id, c))[j].0 != id,
{
    let t = s.push((id, c));
    assert(ids_unique(t)) by {
        assert forall|j: int, k: int|
            0 <= j < t.len() && 0 <= k < t.len() && j != k implies #[trigger] t[j].0
            != #[trigger] t[k].0 by {
            if j < s.len() && k < s.len() {
                assert(s[j].0 != s[k].0);
            } else if j < s.len() {
                assert(s[j].0 == t[j].0);
            } else {
                assert(s[k].0 == t[k].0);
            }
        }
    }
    assert(t[s.len() as int].0 == id);
    lemma_index_of_unique(t, id);
}

/// One change of the roster, as the roster's operations make it: a
/// creation under an identifier with a character, or an attack with a
/// random term.
pub enum Step {
    Create(Seq<char>, CharacterView),
    Attack(Seq<char>, Seq<char>, i8),
}

/// The roster after one step: a creation under a taken identifier and an
/// attack that meets an error leave it as it was (as `Roster::create_with`
/// and `Roster::attack_with` do).
pub open spec fn step(s: Seq<EntryView>, e: Step) -> Seq<EntryView> {
    match e {
        Step::Create(id, c) => if has_id(s, id) {
            s
        } else {
            s.push((id, c))
        },
        Step::Attack(a, t, roll) => if attack_error(s, a, t) is None {
            after_attack(s, a, t, roll)
        } else {
            s
        },
    }
}

/// The roster after a history of steps, first to last.
pub open spec fn replay(s: Seq<EntryView>, steps: Seq<Step>) -> Seq<EntryView>
    decreases steps.len(),
{
    if steps.len() == 0 {
        s
    } else {
        replay(step(s, steps[0]), steps.drop_first())
    }
}

/// Whether a step adds a character.
pub open spec fn is_birth(s: Seq<EntryView>, e: Step) -> bool {
    match e {
        Step::Create(id, _) => !has_id(s, id),
        Step::Attack(_, _, _) => false,
    }
}

/// Whether a step slays a character.
pub open spec fn is_death(s: Seq<EntryView>, e: Step) -> bool {
    match e {
        Step::Create(_, _) => false,
        Step::Attack(a, t, roll) => attack_error(s, a, t) is None && defender_after(
            lookup(s, a)->0,
            lookup(s, t)->0,
            roll,
        ) is None,
    }
}

/// How many characters a history adds.
pub open spec fn births(s: Seq<EntryView>, steps: Seq<Step>) -> nat
    decreases steps.len(),
{
    if steps.len() == 0 {
        0
    } else {
        (if is_birth(s, steps[0]) { 1nat } else { 0nat }) + births(
            step(s, steps[0]),
            steps.drop_first(),
        )
    }
}

/// How many characters a history slays.
pub open spec fn deaths(s: Seq<EntryView>, steps: Seq<Step>) -> nat
    decreases steps.len(),
{
    if steps.len() == 0 {
        0
    } else {
        (if is_death(s, steps[0]) { 1nat } else { 0nat }) + deaths(
            step(s, steps[0]),
            steps.drop_first(),
        )
    }
}

/// An attack keeps identifiers unique and brings in no identifier that
/// was not there before.
proof fn lemma_attack_keeps_ids(s: Seq<EntryView>, a: Seq<char>, t: Seq<char>, roll: i8)
    requires
        ids_unique(s),
        attack_error(s, a, t) is None,
    ensures
        ids_unique(after_attack(s, a, t, roll)),
        forall|j: int|
            0 <= j < after_attack(s, a, t, roll).len() ==> has_id(
                s,
                #[trigger] after_attack(s, a, t, roll)[j].0,
            ),
{
    lemma_index_of_unique(s, t);
    let i = index_of(s, t);
    let r = after_attack(s, a, t, roll);
    let src = |j: int|
        if r.len() == s.len() {
            j
        } else if j < i {
            j
        } else {
            j + 1
        };
    assert forall|j: int| 0 <= j < r.len() implies #[trigger] r[j].0 == s[src(j)].0 && 0 <= src(
        j,
    ) < s.len() by {}
    assert forall|j: int| 0 <= j < r.len() implies has_id(s, #[trigger] r[j].0) by {
        assert(s[src(j)].0 == r[j].0);
    }
    assert forall|j: int, k: int|
        0 <= j < r.len() && 0 <= k < r.len() && j != k implies #[trigger] r[j].0
        != #[trigger] r[k].0 by {
        assert(s[src(j)].0 != s[src(k)].0);
    }
}

/// One step keeps identifiers unique, and keeps an absent identifier
/// absent unless the step creates a character under it.
proof fn lemma_step_keeps_absent(s: Seq<EntryView>, e: Step, id: Seq<char>)
    requires
        ids_unique(s),
    ensures
        ids_unique(step(s, e)),
        !has_id(s, id) && !(e matches Step::Create(c, _) && c == id) ==> !has_id(step(s, e), id),
{
    match e {
        Step::Create(c, v) => {
            if !has_id(s, c) {
                lemma_created_listed_once(s, c, v);
                if !has_id(s, id) && c != id && has_id(step(s, e), id) {
                    let j = choose|j: int|
                        0 <= j < step(s, e).len() && #[trigger] step(s, e)[j].0 == id;
                    assert(s[j].0 == id);
                }
            }
        },
        Step::Attack(a, t, roll) => {
            if attack_error(s, a, t) is None {
                lemma_attack_keeps_ids(s, a, t, roll);
                if !has_id(s, id) && has_id(step(s, e), id) {
                    let j = choose|j: int|
                        0 <= j < step(s, e).len() && #[trigger] step(s, e)[j].0 == id;
                    assert(has_id(s, after_attack(s, a, t, roll)[j].0));
                }
            }
        },
    }
}

/// An identifier that the roster does not hold stays absent through any
/// history that creates nothing under it.
proof fn lemma_absent_stays_absent(s: Seq<EntryView>, steps: Seq<Step>, id: Seq<char>)
    requires
        ids_unique(s),
        !has_id(s, id),
        forall|k: int| 0 <= k < steps.len() ==> !(#[trigger] steps[k] matches Step::Create(c, _) && c == id),
    ensures
        ids_unique(replay(s, steps)),
        !has_id(replay(s, steps), id),
    decreases steps.len(),
{
    if steps.len() > 0 {
        assert(!(steps[0] matches Step::Create(c, _) && c == id));
        lemma_step_keeps_absent(s, steps[0], id);
        let rest = steps.drop_first();
        assert forall|k: int| 0 <= k < rest.len() implies !(#[trigger] rest[k] matches Step::Create(
            c,
            _,
        ) && c == id) by {
            assert(rest[k] == steps[k + 1]);
        }
        lemma_absent_stays_absent(step(s, steps[0]), rest, id);
    }
}

/// A slain character never comes back: after the attack that slays it and
/// any later history of creations and attacks that creates nothing under
/// its identifier, the roster does not hold it, and an attack on it by a
/// character of the roster fails because the target is unknown.
pub proof fn lemma_slain_never_returns(
    s: Seq<EntryView>,
    attacker: Seq<char>,
    target: Seq<char>,
    roll: i8,
    later: Seq<Step>,
    later_attacker: Seq<char>,
)
    requires
        ids_unique(s),
        attack_error(s, attacker, target) is None,
        defender_after(lookup(s, attacker)->0, lookup(s, target)->0, roll) is None,
        forall|k: int|
            0 <= k < later.len() ==> !(#[trigger] later[k] matches Step::Create(c, _) && c == target),
    ensures
        !has_id(replay(after_attack(s, attacker, target, roll), later), target),
        lookup(replay(after_attack(s, attacker, target, roll), later), target) is None,
        has_id(replay(after_attack(s, attacker, target, roll), later), later_attacker) ==> attack_error(
            replay(after_attack(s, attacker, target, roll), later),
            later_attacker,
            target,
        ) == Some(AttackError::UnknownTarget),
{
    lemma_attack_keeps_ids(s, attacker, target, roll);
    lemma_index_of_unique(s, target);
    let i = index_of(s, target);
    let t = after_attack(s, attacker, target, roll);
    assert(!has_id(t, target)) by {
        if has_id(t, target) {
            let j = choose|j: int| 0 <= j < t.len() && #[trigger] t[j].0 == target;
            if j < i {
                assert(s[j].0 == target);
            } else {
                assert(s[j + 1].0 == target);
            }
        }
    }
    lemma_absent_stays_absent(t, later, target);
}

/// The number of characters after a history is the number before, plus
/// the characters the history added, less those it slew.
pub proof fn lemma_count_after_history(s: Seq<EntryView>, steps: Seq<Step>)
    ensures
        replay(s, steps).len() + deaths(s, steps) == s.len() + births(s, steps),
    decreases steps.len(),
{
    if steps.len() > 0 {
        let e = steps[0];
        match e {
            Step::Create(_, _) => {},
            Step::Attack(a, t, roll) => {
                if attack_error(s, a, t) is None {
                    let i = index_of(s, t);
                    assert(0 <= i < s.len() && s[i].0 == t);
                }
            },
        }
        lemma_count_after_history(step(s, e), steps.drop_first());
    }
}

} // verus!
