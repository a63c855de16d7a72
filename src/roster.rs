use vstd::prelude::*;
use crate::character::{Character, CharacterView};
use crate::combat::{attack_message, defender_after, option_view, resolve};

verus! {

/// One entry of a roster: an identifier and the character it names.
pub type EntryView = (Seq<char>, CharacterView);

/// No identifier occurs twice.
pub open spec fn ids_unique(s: Seq<EntryView>) -> bool {
    forall|i: int, j: int|
        0 <= i < s.len() && 0 <= j < s.len() && i != j ==> #[trigger] s[i].0 != #[trigger] s[j].0
}

/// Some entry carries the identifier `id`.
pub open spec fn has_id(s: Seq<EntryView>, id: Seq<char>) -> bool {
    exists|i: int| 0 <= i < s.len() && #[trigger] s[i].0 == id
}

/// The position of the entry that carries `id`, where there is one.
pub open spec fn index_of(s: Seq<EntryView>, id: Seq<char>) -> int {
    choose|i: int| 0 <= i < s.len() && #[trigger] s[i].0 == id
}

/// The character that `id` names, if any.
pub open spec fn lookup(s: Seq<EntryView>, id: Seq<char>) -> Option<CharacterView> {
    if has_id(s, id) {
        Some(s[index_of(s, id)].1)
    } else {
        None
    }
}

/// The roster after `id` was wounded by `amount`: the entry is removed when
/// its hitpoints would drop below one, else its hitpoints drop by `amount`.
pub open spec fn damaged(s: Seq<EntryView>, id: Seq<char>, amount: int) -> Seq<EntryView> {
    let i = index_of(s, id);
    let c = s[i].1;
    if c.hitpoints as int - amount < 1 {
        s.remove(i)
    } else {
        s.update(i, (id, CharacterView { hitpoints: (c.hitpoints as int - amount) as u8, ..c }))
    }
}

/// The roster after the character `attacker` attacked `target` with `roll`
/// as the random term.
pub open spec fn after_attack(s: Seq<EntryView>, attacker: Seq<char>, target: Seq<char>, roll: i8) -> Seq<
    EntryView,
> {
    let i = index_of(s, target);
    match defender_after(lookup(s, attacker)->0, s[i].1, roll) {
        Some(d) => s.update(i, (target, d)),
        None => s.remove(i),
    }
}

/// How many identifiers `create` draws before it gives up.
pub const ID_DRAWS: u32 = 8;

/// Why an attack could not take place.
#[derive(Clone, Copy, Debug, PartialEq, Eq)]
pub enum AttackError {
    /// The attacking identifier names no character.
    UnknownAttacker,
    /// A character attacked itself.
    SelfTarget,
    /// The target identifier names no character.
    UnknownTarget,
}

/// The error that an attack of `attacker` on `target` meets, if any.
pub open spec fn attack_error(s: Seq<EntryView>, attacker: Seq<char>, target: Seq<char>) -> Option<
    AttackError,
> {
    if !has_id(s, attacker) {
        Some(AttackError::UnknownAttacker)
    } else if attacker == target {
        Some(AttackError::SelfTarget)
    } else if !has_id(s, target) {
        Some(AttackError::UnknownTarget)
    } else {
        None
    }
}

/// The table of all characters, each under an identifier of its own, in
/// the order of their creation.
///
/// The entries sit in a `Vec` with unique identifiers rather than in a hash
/// map: the identifiers are strings, and for `String` keys vstd's hash-map
/// specification proves nothing about a lookup, whereas here every lookup,
/// insertion and removal is proved; the roster also lists in a stable order.
pub struct Roster {
    entries: Vec<(String, Character)>,
}

impl View for Roster {
    type V = Seq<EntryView>;

    closed spec fn view(&self) -> Seq<EntryView> {
        self.entries@.map_values(|e: (String, Character)| (e.0@, e.1@))
    }
}

proof fn lemma_index_of(s: Seq<EntryView>, i: int)
    requires
        ids_unique(s),
        0 <= i < s.len(),
    ensures
        has_id(s, s[i].0),
        index_of(s, s[i].0) == i,
{
    assert(s[i].0 == s[i].0);
}

impl Roster {
    /// Identifiers are unique.
    pub open spec fn wf(&self) -> bool {
        ids_unique(self@)
    }

    /// An empty roster.
    pub fn new() -> (r: Roster)
        ensures
            r.wf(),
            r@ == Seq::<EntryView>::empty(),
    {
        let r = Roster { entries: Vec::new() };
        assert(r@ =~= Seq::<EntryView>::empty());
        r
    }

    /// The number of characters.
    pub fn len(&self) -> (r: usize)
        ensures
            r == self@.len(),
    {
        self.entries.len()
    }

    /// The position of the entry that carries `id`.
    fn find(&self, id: &String) -> (r: Option<usize>)
        requires
            self.wf(),
        ensures
            match r {
                Some(i) => i < self@.len() && self@[i as int].0 == id@ && index_of(self@, id@) == i,
                None => !has_id(self@, id@),
            },
    {
        let mut i: usize = 0;
        while i < self.entries.len()
            invariant
                self.wf(),
                i <= self@.len(),
                forall|k: int| 0 <= k < i ==> #[trigger] self@[k].0 != id@,
            decreases self.entries.len() - i,
        {
            if self.entries[i].0 == *id {
                proof {
                    lemma_index_of(self@, i as int);
                }
                return Some(i);
            }
            i = i + 1;
        }
        None
    }

    /// Whether `id` names a character.
    pub fn contains(&self, id: &String) -> (r: bool)
        requires
            self.wf(),
        ensures
            r == has_id(self@, id@),
    {
        self.find(id).is_some()
    }

    /// Adds a character under `id` with the given name and attributes,
    /// unless `id` is already taken; says whether it was added.
    pub fn create_with(
        &mut self,
        id: String,
        name: &String,
        strength: u8,
        dexterity: u8,
        hitpoints: u8,
    ) -> (r: bool)
        requires
            old(self).wf(),
        ensures
            final(self).wf(),
            r == !has_id(old(self)@, id@),
            r ==> final(self)@ == old(self)@.push(
                (id@, CharacterView { name: name@, strength, dexterity, hitpoints }),
            ),
            !r ==> final(self)@ == old(self)@,
    {
        if self.contains(&id) {
            return false;
        }
        let ghost before = self@;
        let c = Character::new(name.clone(), strength, dexterity, hitpoints);
        self.entries.push((id, c));
        assert(self@ =~= before.push(
            (id@, CharacterView { name: name@, strength, dexterity, hitpoints }),
        ));
        true
    }

    /// Wounds the character under `id` by `amount`: removes it when its
    /// hitpoints would drop below one, else lowers its hitpoints by
    /// `amount`. Returns `None` when `id` names no character, else whether
    /// the character was slain.
    pub fn apply_damage(&mut self, id: &String, amount: u16) -> (r: Option<bool>)
        requires
            old(self).wf(),
        ensures
            final(self).wf(),
            r is None <==> !has_id(old(self)@, id@),
            r is None ==> final(self)@ == old(self)@,
            r is Some ==> final(self)@ == damaged(old(self)@, id@, amount as int),
            r == Some(true) <==> has_id(old(self)@, id@) && lookup(old(self)@, id@)->0.hitpoints
                - amount < 1,
    {
        let ghost before = self@;
        match self.find(id) {
            None => None,
            Some(i) => {
                let hitpoints = self.entries[i].1.hitpoints;
                if amount >= hitpoints as u16 {
                    self.entries.remove(i);
                    assert(self@ =~= damaged(before, id@, amount as int));
                    
                    Some(true)
                } else {
                    let c = self.entries[i].1.with_hitpoints((hitpoints as u16 - amount) as u8);
                    self.entries.set(i, (id.clone(), c));
                    assert(self@ =~= damaged(before, id@, amount as int));
                    Some(false)
                }
            }
        }
    }

    /// The character under `attacker_id` attacks the one under `target_id`,
    /// with `roll` as the random term. On success the target is wounded or
    /// removed as the combat rule says, and the message is returned.
    pub fn attack_with(&mut self, attacker_id: &String, target_id: &String, roll: i8) -> (r: Result<
        String,
        AttackError,
    >)
        requires
            old(self).wf(),
        ensures
            final(self).wf(),
            match r {
                Ok(message) => {
                    &&& attack_error(old(self)@, attacker_id@, target_id@) is None
                    &&& message@ == attack_message(
                        lookup(old(self)@, attacker_id@)->0,
                        lookup(old(self)@, target_id@)->0,
                        roll,
                    )
                    &&& final(self)@ == after_attack(old(self)@, attacker_id@, target_id@, roll)
                },
                Err(e) => {
                    &&& attack_error(old(self)@, attacker_id@, target_id@) == Some(e)
                    &&& final(self)@ == old(self)@
                },
            },
    {
        let ghost before = self@;
        let ai = match self.find(attacker_id) {
            None => return Err(AttackError::UnknownAttacker),
            Some(ai) => ai,
        };
        if *attacker_id == *target_id {
            return Err(AttackError::SelfTarget);
        }
        let ti = match self.find(target_id) {
            None => return Err(AttackError::UnknownTarget),
            Some(ti) => ti,
        };
        let (message, after) = resolve(&self.entries[ai].1, &self.entries[ti].1, roll);
        match after {
            Some(d) => {
                self.entries.set(ti, (target_id.clone(), d));
            },
            None => {
                self.entries.remove(ti);
            },
        }
        assert(self@ =~= after_attack(before, attacker_id@, target_id@, roll));
        Ok(message)
    }

    /// As `attack_with`, with the random term drawn uniformly from the
    /// signed bytes.
    pub fn attack(&mut self, attacker_id: &String, target_id: &String) -> (r: Result<
        String,
        AttackError,
    >)
        requires
            old(self).wf(),
        ensures
            final(self).wf(),
            match r {
                Ok(message) => {
                    &&& attack_error(old(self)@, attacker_id@, target_id@) is None
                    &&& exists|roll: i8|
                        {
                            &&& message@ == attack_message(
                                lookup(old(self)@, attacker_id@)->0,
                                lookup(old(self)@, target_id@)->0,
                                roll,
                            )
                            &&& final(self)@ == after_attack(
                                old(self)@,
                                attacker_id@,
                                target_id@,
                                roll,
                            )
                        }
                },
                Err(e) => {
                    &&& attack_error(old(self)@, attacker_id@, target_id@) == Some(e)
                    &&& final(self)@ == old(self)@
                },
            },
    {
        let roll: i8 = rand::random::<i8>();
        self.attack_with(attacker_id, target_id, roll)
    }

    /// Creates a character named `name` with random attributes under a
    /// random identifier that no character holds yet, and returns that
    /// identifier. Draws are repeated while they hit a taken identifier;
    /// `None`, with the roster unchanged, when every draw did, which cannot
    /// happen on an empty roster.
    pub fn create(&mut self, name: &String) -> (r: Option<String>)
        requires
            old(self).wf(),
        ensures
            final(self).wf(),
            match r {
                Some(id) => {
                    &&& !has_id(old(self)@, id@)
                    &&& exists|strength: u8, dexterity: u8, hitpoints: u8|
                        final(self)@ == old(self)@.push(
                            (id@, CharacterView { name: name@, strength, dexterity, hitpoints }),
                        )
                },
                None => final(self)@ == old(self)@,
            },
            old(self)@.len() == 0 ==> r is Some,
    {
        let mut attempts: u32 = 0;
        while attempts < ID_DRAWS
            invariant
                self.wf(),
                self@ == old(self)@,
                attempts > 0 ==> old(self)@.len() > 0,
            decreases ID_DRAWS - attempts,
        {
            let id = rand::random::<u64>().to_string();
            let strength: u8 = rand::random::<u8>();
            let dexterity: u8 = rand::random::<u8>();
            let hitpoints: u8 = rand::random::<u8>();
            if self.create_with(id.clone(), name, strength, dexterity, hitpoints) {
                return Some(id);
            }
            attempts = attempts + 1;
        }
        None
    }

    /// A snapshot of every entry, in roster order.
    pub fn list(&self) -> (r: Vec<(String, Character)>)
        ensures
            r@.map_values(|e: (String, Character)| (e.0@, e.1@)) == self@,
    {
        let mut out: Vec<(String, Character)> = Vec::new();
        let mut i: usize = 0;
        while i < self.entries.len()
            invariant
                i <= self.entries@.len(),
                out@.map_values(|e: (String, Character)| (e.0@, e.1@)) =~= self@.take(i as int),
            decreases self.entries.len() - i,
        {
            let e = &self.entries[i];
            out.push((e.0.clone(), e.1.duplicate()));
            assert(self@.take(i + 1) =~= self@.take(i as int).push(self@[i as int]));
            i = i + 1;
        }
        assert(self@.take(i as int) =~= self@);
        out
    }

    /// A copy of the character that `id` names, or `None`.
    pub fn get(&self, id: &String) -> (r: Option<Character>)
        requires
            self.wf(),
        ensures
            option_view(r) == lookup(self@, id@),
    {
        match self.find(id) {
            Some(i) => Some(self.entries[i].1.duplicate()),
            None => None,
        }
    }
}

} // verus!
