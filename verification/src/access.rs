//! How a repository is opened: with which credentials, and with a lock or
//! without.

use vstd::prelude::*;
use crate::errors::{ErrorText, MapacheError};

verus! {

/// How many passwords are asked for before an opening is given up.
pub const MAX_PASSWORD_RETRIES: u32 = 3;

/// What has just happened while a repository is being opened.
#[derive(Debug)]
pub enum OpenEvent {
    /// Credentials were looked for in the file and in the environment; true where
    /// there were any.
    LookedUp(bool),
    /// Credentials were typed in.
    Prompted,
    /// No credentials could be asked for, and why.
    PromptFailed(String),
    /// The repository was opened.
    Opened,
    /// The repository could not be opened.
    Failed(MapacheError),
}

/// What is to be done next.
#[derive(Debug)]
pub enum OpenAction {
    /// Ask for credentials; where `again` is set, say first that the last ones were
    /// not right.
    Prompt {
        /// Whether credentials were asked for before.
        again: bool,
    },
    /// Try to open the repository with the credentials at hand.
    TryOpen,
    /// The repository is open.
    Done,
    /// The opening has failed.
    GiveUp(MapacheError),
}

/// An opening under way.
#[derive(Debug, Copy, Clone, PartialEq, Eq, Structural)]
pub struct Opening {
    /// Whether the credentials come from the file or the environment.
    pub provided: bool,
    /// How many typed credentials were refused.
    pub refused: u32,
}

impl Opening {
    /// Whether the next refusal leads to another question.
    pub open spec fn may_ask_again(self) -> bool {
        !self.provided && self.refused + 1 < MAX_PASSWORD_RETRIES
    }

    /// The opening after an event.
    pub open spec fn moved(self, event: OpenEvent) -> Opening {
        match event {
            OpenEvent::LookedUp(found) => Opening { provided: found, refused: 0 },
            OpenEvent::Failed(e) => if e is Auth && self.may_ask_again() {
                Opening { refused: (self.refused + 1) as u32, ..self }
            } else {
                self
            },
            _ => self,
        }
    }

    /// What is done after an event. Credentials from the file or the environment
    /// are tried once; typed ones are asked for again where they are refused, and
    /// only then.
    pub open spec fn answer(self, event: OpenEvent, action: OpenAction) -> bool {
        match event {
            OpenEvent::LookedUp(found) => if found {
                action is TryOpen
            } else {
                action == OpenAction::Prompt { again: false }
            },
            OpenEvent::Prompted => action is TryOpen,
            OpenEvent::PromptFailed(s) => action matches OpenAction::GiveUp(MapacheError::Auth(t)) && t.says(s@),
            OpenEvent::Opened => action is Done,
            OpenEvent::Failed(e) => if e is Auth && self.may_ask_again() {
                action == OpenAction::Prompt { again: true }
            } else {
                action == OpenAction::GiveUp(e)
            },
        }
    }

    /// An opening that has not begun.
    pub fn new() -> (r: Opening)
        ensures
            r == (Opening { provided: false, refused: 0 }),
    {
        Opening { provided: false, refused: 0 }
    }

    /// Takes note of an event and says what to do next.
    pub fn step(&mut self, event: OpenEvent) -> (r: OpenAction)
        ensures
            *final(self) == old(self).moved(event),
            old(self).answer(event, r),
    {
        match event {
            OpenEvent::LookedUp(found) => {
                self.provided = found;
                self.refused = 0;
                if found {
                    OpenAction::TryOpen
                } else {
                    OpenAction::Prompt { again: false }
                }
            },
            OpenEvent::Prompted => OpenAction::TryOpen,
            OpenEvent::PromptFailed(s) => OpenAction::GiveUp(MapacheError::Auth(ErrorText::plain(s))),
            OpenEvent::Opened => OpenAction::Done,
            OpenEvent::Failed(e) => {
                if !self.provided && e.is_auth() && self.refused < MAX_PASSWORD_RETRIES - 1 {
                    self.refused = self.refused + 1;
                    OpenAction::Prompt { again: true }
                } else {
                    OpenAction::GiveUp(e)
                }
            },
        }
    }
}

// ---------------------------------------------------------------------------
// Whole openings
// ---------------------------------------------------------------------------

/// What an attempt to open a repository can come to.
pub enum Attempt {
    /// It was opened.
    Opened,
    /// The credentials were refused.
    Refused,
    /// Something else went wrong.
    Broken,
}

/// The event that an attempt gives rise to.
pub open spec fn event_of(a: Attempt, e: MapacheError) -> OpenEvent {
    match a {
        Attempt::Opened => OpenEvent::Opened,
        _ => OpenEvent::Failed(e),
    }
}

/// Whether an error is one that an attempt can come to.
pub open spec fn fits(a: Attempt, e: MapacheError) -> bool {
    match a {
        Attempt::Opened => true,
        Attempt::Refused => e is Auth,
        Attempt::Broken => !(e is Auth),
    }
}

/// How many attempts are made, if they come to what `results` says, one after the
/// other.
pub open spec fn attempts_made(o: Opening, results: Seq<Attempt>) -> nat
    decreases results.len(),
{
    if results.len() == 0 {
        0
    } else if results[0] is Refused && o.may_ask_again() {
        1 + attempts_made(Opening { refused: (o.refused + 1) as u32, ..o }, results.skip(1))
    } else {
        1
    }
}

/// An attempt is followed by another one exactly where it was refused and the
/// opening may ask again.
pub proof fn law_only_refusals_are_retried(o: Opening, a: Attempt, e: MapacheError, action: OpenAction)
    requires
        fits(a, e),
        o.answer(event_of(a, e), action),
    ensures
        action is Prompt <==> a is Refused && o.may_ask_again(),
        action is Prompt ==> o.moved(event_of(a, e)) == (Opening { refused: (o.refused + 1) as u32, ..o }),
        a is Opened <==> action is Done,
        !(action is Prompt) && !(a is Opened) ==> action == OpenAction::GiveUp(e),
{
}

/// With credentials from the file or the environment there is one attempt.
pub proof fn law_provided_credentials_are_tried_once(o: Opening, results: Seq<Attempt>)
    requires
        o.provided,
        results.len() > 0,
    ensures
        attempts_made(o, results) == 1,
{
}

/// However they turn out, no more than three attempts are made with typed
/// credentials; and another one follows only where all before it were refused.
pub proof fn law_three_attempts_at_most(results: Seq<Attempt>)
    ensures
        ({
            let o = Opening { provided: false, refused: 0 };
            let n = attempts_made(o, results);
            &&& n <= MAX_PASSWORD_RETRIES
            &&& n <= results.len()
            &&& forall|i: int| 0 <= i < n - 1 ==> (#[trigger] results[i]) is Refused
            &&& n < MAX_PASSWORD_RETRIES && n < results.len() ==> n > 0 && !(results[n - 1] is Refused)
        }),
{
    lemma_attempts(Opening { provided: false, refused: 0 }, results);
}

proof fn lemma_attempts(o: Opening, results: Seq<Attempt>)
    requires
        !o.provided,
        o.refused < MAX_PASSWORD_RETRIES,
    ensures
        ({
            let n = attempts_made(o, results);
            &&& n + o.refused <= MAX_PASSWORD_RETRIES
            &&& n <= results.len()
            &&& forall|i: int| 0 <= i < n - 1 ==> (#[trigger] results[i]) is Refused
            &&& n + o.refused < MAX_PASSWORD_RETRIES && n < results.len() ==> n > 0 && !(results[n - 1] is Refused)
        }),
    decreases results.len(),
{
    if results.len() > 0 && results[0] is Refused && o.may_ask_again() {
        let rest = results.skip(1);
        let next = Opening { refused: (o.refused + 1) as u32, ..o };
        lemma_attempts(next, rest);
        let n = attempts_made(o, results);
        assert forall|i: int| 0 <= i < n - 1 implies (#[trigger] results[i]) is Refused by {
            if i > 0 {
                assert(rest[i - 1] is Refused);
            }
        }
        if n - 1 > 0 {
            assert(rest[n - 2] == results[n - 1]);
        }
    }
}

// ---------------------------------------------------------------------------
// Locks
// ---------------------------------------------------------------------------

/// How a command wants its repository.
#[derive(Debug, Copy, Clone, PartialEq, Eq, Structural)]
pub struct Needs {
    /// Whether nothing is to be written.
    pub dry_backend: bool,
    /// Whether no other command may hold a lock.
    pub exclusive_lock: bool,
}

/// What has just happened while a command works on a repository.
#[derive(Debug, Copy, Clone, PartialEq, Eq, Structural)]
pub enum SessionEvent {
    /// The command was called.
    Called,
    /// The repository was opened, with the lock that was asked for.
    Opened,
    /// The repository could not be opened.
    NotOpened,
    /// The command has ended, well or not.
    Ended,
    /// The lock was released.
    Unlocked,
}

/// What is to be done next.
#[derive(Debug, Copy, Clone, PartialEq, Eq, Structural)]
pub enum SessionAction {
    /// Open the repository.
    Open {
        /// Whether to acquire a lock.
        locked: bool,
    },
    /// Let the command do its work.
    Work {
        /// Whether there is a lock to hand to it.
        locked: bool,
    },
    /// Release the lock.
    Unlock,
    /// Hand back what the command came to.
    Finish,
}

/// What is done after an event: unless `no_lock` is set, the repository is opened
/// with a lock, which is released when the command has ended.
pub open spec fn session_answer(no_lock: bool, event: SessionEvent) -> SessionAction {
    match event {
        SessionEvent::Called => SessionAction::Open { locked: !no_lock },
        SessionEvent::Opened => SessionAction::Work { locked: !no_lock },
        SessionEvent::NotOpened => SessionAction::Finish,
        SessionEvent::Ended => if no_lock {
            SessionAction::Finish
        } else {
            SessionAction::Unlock
        },
        SessionEvent::Unlocked => SessionAction::Finish,
    }
}

/// Says what to do next in a command that works on a repository.
pub fn session_step(no_lock: bool, event: SessionEvent) -> (r: SessionAction)
    ensures
        r == session_answer(no_lock, event),
{
    match event {
        SessionEvent::Called => SessionAction::Open { locked: !no_lock },
        SessionEvent::Opened => SessionAction::Work { locked: !no_lock },
        SessionEvent::NotOpened => SessionAction::Finish,
        SessionEvent::Ended => {
            if no_lock {
                SessionAction::Finish
            } else {
                SessionAction::Unlock
            }
        },
        SessionEvent::Unlocked => SessionAction::Finish,
    }
}

/// The event that an action gives rise to, where `opens` tells whether the
/// repository can be opened.
pub open spec fn session_event(action: SessionAction, opens: bool) -> SessionEvent {
    match action {
        SessionAction::Open { locked } => if opens {
            SessionEvent::Opened
        } else {
            SessionEvent::NotOpened
        },
        SessionAction::Work { locked } => SessionEvent::Ended,
        SessionAction::Unlock => SessionEvent::Unlocked,
        SessionAction::Finish => SessionEvent::Unlocked,
    }
}

/// The actions from an event on, `n` of them at most.
pub open spec fn session(no_lock: bool, opens: bool, event: SessionEvent, n: nat) -> Seq<SessionAction>
    decreases n,
{
    if n == 0 {
        Seq::empty()
    } else {
        let action = session_answer(no_lock, event);
        if action is Finish {
            seq![action]
        } else {
            seq![action] + session(no_lock, opens, session_event(action, opens), (n - 1) as nat)
        }
    }
}

/// A lock that was acquired is released when the command has ended, once and
/// whatever the command came to; without a lock there is nothing to release; and
/// where the repository was not opened, nothing is done with it.
pub proof fn law_lock_is_released(no_lock: bool, opens: bool)
    ensures
        session(no_lock, opens, SessionEvent::Called, 4) == (if !opens {
            seq![SessionAction::Open { locked: !no_lock }, SessionAction::Finish]
        } else if no_lock {
            seq![
                SessionAction::Open { locked: false },
                SessionAction::Work { locked: false },
                SessionAction::Finish,
            ]
        } else {
            seq![
                SessionAction::Open { locked: true },
                SessionAction::Work { locked: true },
                SessionAction::Unlock,
                SessionAction::Finish,
            ]
        }),
{
    reveal_with_fuel(session, 5);
}

/// What follows each event: credentials that were found are tried without a question,
/// else they are asked for, for the first time; typed ones are tried; a question that
/// cannot be asked ends the opening, as if the credentials had been refused; and only
/// where the credentials come from is noted, and how many were refused.
pub proof fn law_what_follows_each_event(o: Opening, s: String, action: OpenAction)
    ensures
        o.answer(OpenEvent::LookedUp(true), action) <==> action is TryOpen,
        o.answer(OpenEvent::LookedUp(false), action) <==> action == (OpenAction::Prompt { again: false }),
        o.answer(OpenEvent::Prompted, action) <==> action is TryOpen,
        o.answer(OpenEvent::PromptFailed(s), action) <==> (action matches OpenAction::GiveUp(MapacheError::Auth(t))
            && t.inner@ == s@ && t.shown@ == s@),
        o.answer(OpenEvent::Opened, action) <==> action is Done,
        o.moved(OpenEvent::LookedUp(true)) == (Opening { provided: true, refused: 0 }),
        o.moved(OpenEvent::LookedUp(false)) == (Opening { provided: false, refused: 0 }),
        o.moved(OpenEvent::Prompted) == o,
        o.moved(OpenEvent::PromptFailed(s)) == o,
        o.moved(OpenEvent::Opened) == o,
{
}

/// After a refusal there is another question exactly where the credentials were typed
/// in and this was the first or the second time; any other failure is final, whatever
/// was refused before.
pub proof fn law_two_refusals_are_forgiven(o: Opening, e: MapacheError, action: OpenAction)
    requires
        o.answer(OpenEvent::Failed(e), action),
    ensures
        action is Prompt <==> e is Auth && !o.provided && o.refused < 2,
        action is Prompt ==> action == (OpenAction::Prompt { again: true }) && o.moved(OpenEvent::Failed(e)) == (Opening {
            provided: o.provided,
            refused: (o.refused + 1) as u32,
        }),
        !(action is Prompt) ==> action == OpenAction::GiveUp(e) && o.moved(OpenEvent::Failed(e)) == o,
{
}

} // verus!
