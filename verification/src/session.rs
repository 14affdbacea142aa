//! The mathematical model of a printer session: what it has still to ask of
//! its host, how it reacts to the host's reports, and what a whole command
//! looks like on the link.

use crate::language::Language;
use crate::protocol::{
    byte_delays, bytes_written, delays_taken, lemma_cut_short_counts, lemma_paced_concat,
    lemma_paced_counts, lemma_paced_first, paced, select_frame, Action, Event, BYTE_DELAY, INIT,
    RESET,
};
use vstd::prelude::*;

verus! {

/// A session as contracts see it.
pub struct Session {
    /// The language in which text is rendered.
    pub language: Language,
    /// Whether the printer has been brought into its configured state.
    pub ready: bool,
    /// What the host has still to do for the command in progress, in order.
    /// Empty when no command is in progress.
    pub script: Seq<Action>,
    /// The language that becomes active when the command in progress
    /// completes, if the command selects one.
    pub staged: Option<Language>,
}

/// What has happened once a host has carried a session's command to its end.
pub struct Run<E> {
    /// The actions that the host performed, in order.
    pub trace: Seq<Action>,
    /// The session afterwards.
    pub end: Session,
    /// What the command's caller is told.
    pub result: Result<(), E>,
}

impl Session {
    /// No command is in progress.
    pub open spec fn idle(self) -> bool {
        self.script.len() == 0
    }

    /// The session is configured and waits for a command.
    pub open spec fn at_rest(self) -> bool {
        self.ready && self.idle()
    }

    /// The action that the host has to perform next.
    pub open spec fn pending(self) -> Option<Action> {
        if self.idle() {
            None
        } else {
            Some(self.script[0])
        }
    }

    /// A session under construction: the language is the default one, and
    /// the printer is being reset once and then configured.
    pub open spec fn starting() -> Session {
        Session {
            language: Language::Default,
            ready: false,
            script: paced(RESET@ + INIT@),
            staged: None,
        }
    }

    /// The session once it has taken up the command that sends `bytes`.
    pub open spec fn load(self, bytes: Seq<u8>) -> Session {
        Session { script: paced(bytes), staged: None, ..self }
    }

    /// The session once it has taken up the command that selects `language`.
    pub open spec fn select(self, language: Language) -> Session {
        Session { script: paced(select_frame(language)), staged: Some(language), ..self }
    }

    /// Whether `event` reports on the pending action: a transport answer on a
    /// write, an elapsed delay on a delay.
    pub open spec fn answered_by<E>(self, event: Event<E>) -> bool {
        match (self.pending(), event) {
            (Some(Action::Write(_)), Event::Written(_)) => true,
            (Some(Action::Delay(_)), Event::Delayed) => true,
            _ => false,
        }
    }

    /// The session after its command has completed: it is configured, and a
    /// staged language has become the active one.
    pub open spec fn completed(self) -> Session {
        Session {
            language: match self.staged {
                Some(language) => language,
                None => self.language,
            },
            ready: true,
            script: Seq::empty(),
            staged: None,
        }
    }

    /// The session after its command has been given up: nothing is pending
    /// any more, and language and readiness are what they were.
    pub open spec fn aborted(self) -> Session {
        Session { script: Seq::empty(), staged: None, ..self }
    }

    /// The session after the pending action has succeeded.
    pub open spec fn advanced(self) -> Session {
        if self.script.len() <= 1 {
            self.completed()
        } else {
            Session { script: self.script.drop_first(), ..self }
        }
    }

    /// The session after the host has reported `event`. A refused write ends
    /// the command at once; any other answer to the pending action moves on
    /// to the next one; an event that answers nothing is disregarded.
    pub open spec fn after<E>(self, event: Event<E>) -> Session {
        if !self.answered_by(event) {
            self
        } else if event matches Event::Written(Err(_)) {
            self.aborted()
        } else {
            self.advanced()
        }
    }

    /// What the host is told on reporting `event`: the transport's own error
    /// when the pending write was refused, success otherwise.
    pub open spec fn verdict<E>(self, event: Event<E>) -> Result<(), E> {
        match event {
            Event::Written(Err(e)) if self.answered_by(event) => Err(e),
            _ => Ok(()),
        }
    }

    /// What happens when a host carries the command in progress to its end.
    /// As long as an action is pending, the host performs it and reports the
    /// outcome; it stops when nothing is pending any more, or as soon as a
    /// report is answered with an error.
    ///
    /// The transport is described by `fault`, see [`Session::report`].
    pub open spec fn run<E>(self, fault: Option<(nat, E)>) -> Run<E>
        decreases self.script.len(),
    {
        match self.pending() {
            None => Run { trace: Seq::empty(), end: self, result: Ok(()) },
            Some(action) => {
                let event = Session::report(action, fault);
                match self.verdict(event) {
                    Err(e) => Run { trace: seq![action], end: self.after(event), result: Err(e) },
                    Ok(_) => {
                        let rest = self.after(event).run(Session::worn(action, fault));
                        Run { trace: seq![action] + rest.trace, ..rest }
                    },
                }
            },
        }
    }

    /// The host's report on `action`. The timer always lets a delay elapse.
    /// The transport accepts every byte when `fault` is `None`; with
    /// `Some((k, e))` it accepts `k` bytes and refuses the one after them
    /// with the error `e`.
    pub open spec fn report<E>(action: Action, fault: Option<(nat, E)>) -> Event<E> {
        match (action, fault) {
            (Action::Write(_), Some((k, e))) if k == 0 => Event::Written(Err(e)),
            (Action::Write(_), _) => Event::Written(Ok(())),
            (Action::Delay(_), _) => Event::Delayed,
        }
    }

    /// The description of the transport once the host has performed
    /// `action`: every accepted byte brings the refusal one byte closer.
    pub open spec fn worn<E>(action: Action, fault: Option<(nat, E)>) -> Option<(nat, E)> {
        match (action, fault) {
            (Action::Write(_), Some((k, e))) if k > 0 => Some(((k - 1) as nat, e)),
            _ => fault,
        }
    }
}

/// A command that sends `bytes` over a transport that accepts them all:
/// the host writes every byte in order, takes one delay after each, and the
/// command completes.
pub proof fn lemma_run_to_completion<E>(s: Session, bytes: Seq<u8>)
    requires
        s.script == paced(bytes),
        bytes.len() > 0,
    ensures
        s.run::<E>(None).trace == paced(bytes),
        s.run::<E>(None).end == s.completed(),
        s.run::<E>(None).result == Ok::<(), E>(()),
    decreases bytes.len(),
{
    reveal_with_fuel(Session::run, 3);
    lemma_paced_first(bytes);
    let rest = bytes.drop_first();
    let s1 = s.after(Event::<E>::Written(Ok(())));
    assert(s1.script =~= seq![Action::Delay(BYTE_DELAY)] + paced(rest));
    let s2 = s1.after(Event::<E>::Delayed);
    if rest.len() == 0 {
        assert(s2 == s.completed());
        assert(s.run::<E>(None).trace =~= paced(bytes));
    } else {
        assert(s2.script =~= paced(rest));
        lemma_run_to_completion::<E>(s2, rest);
        assert(s.run::<E>(None).trace =~= paced(bytes));
    }
}

/// A command that sends `bytes` over a transport that refuses the byte after
/// the first `k`: the host writes those `k` bytes with their delays, attempts
/// the next byte, and stops there. The error comes back as the transport gave
/// it, and the command is given up.
pub proof fn lemma_run_to_fault<E>(s: Session, bytes: Seq<u8>, k: nat, e: E)
    requires
        s.script == paced(bytes),
        k < bytes.len(),
    ensures
        s.run(Some((k, e))).trace == paced(bytes.take(k as int)).push(Action::Write(bytes[k as int])),
        s.run(Some((k, e))).end == s.aborted(),
        s.run(Some((k, e))).result == Err::<(), E>(e),
    decreases k,
{
    reveal_with_fuel(Session::run, 3);
    lemma_paced_first(bytes);
    if k == 0 {
        assert(s.run(Some((k, e))).trace =~= paced(bytes.take(0)).push(Action::Write(bytes[0])));
    } else {
        let rest = bytes.drop_first();
        let s1 = s.after(Event::<E>::Written(Ok(())));
        assert(s1.script =~= seq![Action::Delay(BYTE_DELAY)] + paced(rest));
        let s2 = s1.after(Event::<E>::Delayed);
        assert(s2.script =~= paced(rest));
        let j = (k - 1) as nat;
        lemma_run_to_fault(s2, rest, j, e);
        assert(rest.take(j as int) =~= bytes.take(k as int).drop_first());
        lemma_paced_first(bytes.take(k as int));
        assert(s.run(Some((k, e))).trace =~= paced(bytes.take(k as int)).push(
            Action::Write(bytes[k as int]),
        ));
    }
}

/// Pacing. A session at rest that takes up the sending of `bytes`, over a
/// transport that accepts every byte, has the host write each byte and then
/// take its delay, byte after byte. Exactly these bytes are written, in
/// their order, and exactly as many delays are taken, each of `BYTE_DELAY`
/// microseconds. The command then reports success and leaves the session at
/// rest with its language unchanged.
pub proof fn lemma_sending_is_paced<E>(s: Session, bytes: Seq<u8>)
    requires
        s.at_rest(),
    ensures
        s.load(bytes).run::<E>(None).trace == paced(bytes),
        bytes_written(s.load(bytes).run::<E>(None).trace) == bytes,
        delays_taken(s.load(bytes).run::<E>(None).trace) == byte_delays(bytes.len()),
        s.load(bytes).run::<E>(None).result == Ok::<(), E>(()),
        s.load(bytes).run::<E>(None).end.at_rest(),
        s.load(bytes).run::<E>(None).end.language == s.language,
        s.load(bytes).run::<E>(None).end.staged is None,
{
    if bytes.len() > 0 {
        lemma_run_to_completion::<E>(s.load(bytes), bytes);
    }
    lemma_paced_counts(bytes);
}

/// Failing fast. When the transport accepts `k` of the bytes and refuses the
/// next one, the host writes those `k` bytes, each with its delay, attempts
/// the refused byte, and does nothing after it: no delay for that byte, and
/// none of the bytes behind it. The transport's error is reported as it
/// came, and the session is at rest again with its language unchanged.
pub proof fn lemma_sending_fails_fast<E>(s: Session, bytes: Seq<u8>, k: nat, e: E)
    requires
        s.at_rest(),
        k < bytes.len(),
    ensures
        s.load(bytes).run(Some((k, e))).trace == paced(bytes.take(k as int)).push(
            Action::Write(bytes[k as int]),
        ),
        bytes_written(s.load(bytes).run(Some((k, e))).trace) == bytes.take(k as int + 1),
        delays_taken(s.load(bytes).run(Some((k, e))).trace) == byte_delays(k),
        s.load(bytes).run(Some((k, e))).result == Err::<(), E>(e),
        s.load(bytes).run(Some((k, e))).end.at_rest(),
        s.load(bytes).run(Some((k, e))).end.language == s.language,
        s.load(bytes).run(Some((k, e))).end.staged is None,
{
    lemma_run_to_fault(s.load(bytes), bytes, k, e);
    lemma_cut_short_counts(bytes, k);
}

/// Construction. Over a transport that accepts every byte, a new session has
/// the host send the reset command once and the configuration command once
/// after it, and is then ready and at rest in the default language.
pub proof fn lemma_construction<E>()
    ensures
        Session::starting().run::<E>(None).trace == paced(RESET@) + paced(INIT@),
        bytes_written(Session::starting().run::<E>(None).trace) == RESET@ + INIT@,
        Session::starting().run::<E>(None).result == Ok::<(), E>(()),
        Session::starting().run::<E>(None).end.at_rest(),
        Session::starting().run::<E>(None).end.language == Language::Default,
        Session::starting().run::<E>(None).end.staged is None,
{
    lemma_run_to_completion::<E>(Session::starting(), RESET@ + INIT@);
    lemma_paced_concat(RESET@, INIT@);
    lemma_paced_counts(RESET@ + INIT@);
}

/// Failed construction. When the transport refuses one of the bytes of the
/// reset and configuration commands, construction reports the transport's
/// error and the session never becomes ready.
pub proof fn lemma_construction_fails<E>(k: nat, e: E)
    requires
        k < RESET@.len() + INIT@.len(),
    ensures
        Session::starting().run(Some((k, e))).trace == paced((RESET@ + INIT@).take(k as int)).push(
            Action::Write((RESET@ + INIT@)[k as int]),
        ),
        Session::starting().run(Some((k, e))).result == Err::<(), E>(e),
        !Session::starting().run(Some((k, e))).end.ready,
        Session::starting().run(Some((k, e))).end.idle(),
{
    lemma_run_to_fault(Session::starting(), RESET@ + INIT@, k, e);
}

/// Selecting a language. Over a transport that accepts every byte, the host
/// sends the three bytes of the select command, paced, and the session's
/// language is then the selected one.
pub proof fn lemma_select_language<E>(s: Session, language: Language)
    requires
        s.at_rest(),
    ensures
        s.select(language).run::<E>(None).trace == paced(seq![0x1Bu8, 0x52u8, language.wire()]),
        s.select(language).run::<E>(None).result == Ok::<(), E>(()),
        s.select(language).run::<E>(None).end.at_rest(),
        s.select(language).run::<E>(None).end.language == language,
        s.select(language).run::<E>(None).end.staged is None,
{
    lemma_run_to_completion::<E>(s.select(language), select_frame(language));
}

/// A failed selection. When the transport refuses one of the three bytes of
/// the select command, the error is reported and the session's language is
/// the one it had before.
pub proof fn lemma_select_language_fails<E>(s: Session, language: Language, k: nat, e: E)
    requires
        s.at_rest(),
        k < 3,
    ensures
        s.select(language).run(Some((k, e))).trace == paced(
            select_frame(language).take(k as int),
        ).push(Action::Write(select_frame(language)[k as int])),
        s.select(language).run(Some((k, e))).result == Err::<(), E>(e),
        s.select(language).run(Some((k, e))).end.at_rest(),
        s.select(language).run(Some((k, e))).end.language == s.language,
        s.select(language).run(Some((k, e))).end.staged is None,
{
    lemma_run_to_fault(s.select(language), select_frame(language), k, e);
}

/// Language round trip. Selecting Swedish and then the default language
/// sends the two select commands in that order and ends in the default
/// language.
pub proof fn lemma_language_round_trip<E>(s: Session)
    requires
        s.at_rest(),
    ensures
        ({
            let there = s.select(Language::Swedish).run::<E>(None);
            let back = there.end.select(Language::Default).run::<E>(None);
            &&& there.trace == paced(seq![0x1Bu8, 0x52u8, 0x05u8])
            &&& there.result == Ok::<(), E>(())
            &&& there.end.language == Language::Swedish
            &&& back.trace == paced(seq![0x1Bu8, 0x52u8, 0x00u8])
            &&& back.result == Ok::<(), E>(())
            &&& back.end.language == Language::Default
            &&& back.end.at_rest()
        }),
{
    lemma_select_language::<E>(s, Language::Swedish);
    let there = s.select(Language::Swedish).run::<E>(None);
    lemma_select_language::<E>(there.end, Language::Default);
}

} // verus!
