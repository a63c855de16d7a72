use vstd::prelude::*;
use vstd::string::StringExecFns;
use crate::roster::{AttackError, Roster, attack_error, after_attack, lookup};
use crate::combat::attack_message;

verus! {

/// The name of the cookie that holds the current player's character
/// identifier.
pub const SESSION_COOKIE: &'static str = "character_id";

/// A page that a request is sent on to.
#[derive(Clone, Copy, Debug, PartialEq, Eq)]
pub enum Page {
    /// The character-creation form.
    New,
    /// The roster and the last message.
    Game,
}

/// What a request is answered with.
#[derive(Clone, Debug)]
pub enum Reply {
    /// Send the browser on to a page, with a one-shot message to show
    /// there (none when empty).
    Redirect(Page, String),
    /// The thing asked for does not exist.
    NotFound,
}

impl Page {
    /// The path of the page.
    pub fn path(&self) -> (r: &'static str)
        ensures
            r@ == (match self {
                Page::New => "/new"@,
                Page::Game => "/game"@,
            }),
    {
        match self {
            Page::New => "/new",
            Page::Game => "/game",
        }
    }
}

/// Where the front page sends a visitor: to the game when the visitor
/// carries a session, else to character creation.
pub fn landing(session: &Option<String>) -> (r: Page)
    ensures
        r == (if session is Some {
            Page::Game
        } else {
            Page::New
        }),
{
    match session {
        Some(_) => Page::Game,
        None => Page::New,
    }
}

/// The message to show on the game page: the one left by the previous
/// action, or nothing.
pub fn flash_text(flash: Option<String>) -> (r: String)
    ensures
        r@ == (match flash {
            Some(m) => m@,
            None => Seq::<char>::empty(),
        }),
{
    match flash {
        Some(m) => m,
        None => String::new(),
    }
}

/// The player of `session` attacks the character `target`. A visitor
/// without a session has no attacker, as one whose character is gone.
pub fn attack_as(roster: &mut Roster, session: &Option<String>, target: &String) -> (r: Result<
    String,
    AttackError,
>)
    requires
        old(roster).wf(),
    ensures
        final(roster).wf(),
        match session {
            None => r == Err::<String, AttackError>(AttackError::UnknownAttacker) && final(roster)@
                == old(roster)@,
            Some(id) => match r {
                Ok(message) => {
                    &&& attack_error(old(roster)@, id@, target@) is None
                    &&& exists|roll: i8|
                        {
                            &&& message@ == attack_message(
                                lookup(old(roster)@, id@)->0,
                                lookup(old(roster)@, target@)->0,
                                roll,
                            )
                            &&& final(roster)@ == after_attack(old(roster)@, id@, target@, roll)
                        }
                },
                Err(e) => {
                    &&& attack_error(old(roster)@, id@, target@) == Some(e)
                    &&& final(roster)@ == old(roster)@
                },
            },
        },
{
    match session {
        None => Err(AttackError::UnknownAttacker),
        Some(id) => roster.attack(id, target),
    }
}

/// The message shown when a character attacks itself.
pub open spec fn self_attack_message() -> Seq<char> {
    "You cannot attack yourself"@
}

/// How an attack is answered: its message on the game page; a visitor
/// without a living character to creation; a self-attack refused with a
/// message; an unknown target as not found.
pub fn attack_reply(outcome: Result<String, AttackError>) -> (r: Reply)
    ensures
        match outcome {
            Ok(m) => r matches Reply::Redirect(p, f) && p == Page::Game && f@ == m@,
            Err(AttackError::UnknownAttacker) => r matches Reply::Redirect(p, f) && p == Page::New
                && f@.len() == 0,
            Err(AttackError::SelfTarget) => r matches Reply::Redirect(p, f) && p == Page::Game
                && f@ == self_attack_message(),
            Err(AttackError::UnknownTarget) => r is NotFound,
        },
{
    match outcome {
        Ok(m) => Reply::Redirect(Page::Game, m),
        Err(AttackError::UnknownAttacker) => Reply::Redirect(Page::New, String::new()),
        Err(AttackError::SelfTarget) => Reply::Redirect(
            Page::Game,
            String::from_str("You cannot attack yourself"),
        ),
        Err(AttackError::UnknownTarget) => Reply::NotFound,
    }
}

} // verus!
