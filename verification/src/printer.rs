//! The printer session: it takes commands, hands out the actions that carry
//! them over the link one at a time, and keeps track of the active language.

use crate::language::Language;
use crate::protocol::{paced, rendered, select_frame, Action, Event, BYTE_DELAY, INIT, RESET};
use crate::session::Session;
use vstd::prelude::*;
use vstd::slice::slice_to_vec;

verus! {

/// A session with one thermal printer.
///
/// The session performs no input or output. A command such as
/// [`print`](ThermalPrinter::print) only records what has to go over the
/// link. The host then asks for the [`pending`](ThermalPrinter::pending)
/// action, performs it, and reports the outcome to
/// [`step`](ThermalPrinter::step), until nothing is pending or `step` hands
/// back the transport's error.
pub struct ThermalPrinter {
    lang: Language,
    ready: bool,
    /// Bytes of the command in progress.
    frame: Vec<u8>,
    /// How many bytes of `frame` have been written and followed by their delay.
    sent: usize,
    /// Whether `frame[sent]` has been written and its delay is still owed.
    delaying: bool,
    staged: Option<Language>,
}

impl View for ThermalPrinter {
    type V = Session;

    closed spec fn view(&self) -> Session {
        Session {
            language: self.lang,
            ready: self.ready,
            script: paced(self.frame@).skip(
                2 * self.sent + if self.delaying {
                    1int
                } else {
                    0int
                },
            ),
            staged: self.staged,
        }
    }
}

impl ThermalPrinter {
    #[verifier::type_invariant]
    spec fn inv(self) -> bool {
        &&& self.sent <= self.frame.len()
        &&& self.delaying ==> self.sent < self.frame.len()
    }

    /// Starts a session. The language is the default one, and the command
    /// that resets and then configures the printer is in progress; the
    /// session is ready once that command has completed.
    pub fn new() -> (printer: Self)
        ensures
            printer@ == Session::starting(),
    {
        let mut frame = slice_to_vec(&RESET);
        frame.extend_from_slice(&INIT);
        assert(frame@ =~= RESET@ + INIT@);
        let printer = ThermalPrinter {
            lang: Language::Default,
            ready: false,
            frame,
            sent: 0,
            delaying: false,
            staged: None,
        };
        assert(printer@.script =~= paced(RESET@ + INIT@));
        printer
    }

    /// The language in which text is rendered.
    pub fn language(&self) -> (language: Language)
        ensures
            language == self@.language,
    {
        self.lang
    }

    /// Whether the printer has been brought into its configured state.
    pub fn is_ready(&self) -> (ready: bool)
        ensures
            ready == self@.ready,
    {
        self.ready
    }

    /// Whether no command is in progress.
    pub fn is_idle(&self) -> (idle: bool)
        ensures
            idle == self@.idle(),
    {
        proof {
            use_type_invariant(self);
        }
        self.sent == self.frame.len()
    }

    /// The action that the host has to perform next, if a command is in
    /// progress.
    pub fn pending(&self) -> (action: Option<Action>)
        ensures
            action == self@.pending(),
    {
        proof {
            use_type_invariant(self);
        }
        if self.sent == self.frame.len() {
            None
        } else if self.delaying {
            Some(Action::Delay(BYTE_DELAY))
        } else {
            Some(Action::Write(self.frame[self.sent]))
        }
    }

    /// Takes the host's report on the pending action.
    ///
    /// An accepted write makes the byte's delay pending; an elapsed delay
    /// makes the next byte pending or, after the last byte, completes the
    /// command. A refused write ends the command at once: nothing stays
    /// pending, the byte's delay included, and the transport's error is
    /// handed back as it came. An event that does not answer the pending
    /// action changes nothing.
    pub fn step<E>(&mut self, event: Event<E>) -> (result: Result<(), E>)
        ensures
            final(self)@ == old(self)@.after(event),
            result == old(self)@.verdict(event),
    {
        proof {
            use_type_invariant(&*self);
        }
        if self.sent == self.frame.len() {
            return Ok(());
        }
        match event {
            Event::Written(outcome) => {
                if self.delaying {
                    return Ok(());
                }
                match outcome {
                    Ok(()) => {
                        self.delaying = true;
                        assert(self@.script =~= old(self)@.script.drop_first());
                        Ok(())
                    },
                    Err(e) => {
                        *self = ThermalPrinter {
                            lang: self.lang,
                            ready: self.ready,
                            frame: Vec::new(),
                            sent: 0,
                            delaying: false,
                            staged: None,
                        };
                        assert(self@.script =~= Seq::empty());
                        Err(e)
                    },
                }
            },
            Event::Delayed => {
                if !self.delaying {
                    return Ok(());
                }
                if self.sent + 1 == self.frame.len() {
                    let lang = match self.staged {
                        Some(lang) => lang,
                        None => self.lang,
                    };
                    *self = ThermalPrinter {
                        lang,
                        ready: true,
                        frame: Vec::new(),
                        sent: 0,
                        delaying: false,
                        staged: None,
                    };
                    assert(self@.script =~= Seq::empty());
                } else {
                    self.sent += 1;
                    self.delaying = false;
                    assert(self@.script =~= old(self)@.script.drop_first());
                }
                Ok(())
            },
        }
    }

    /// Takes up the command whose bytes are `frame`.
    fn begin(&mut self, frame: Vec<u8>, staged: Option<Language>)
        requires
            old(self)@.idle(),
        ensures
            final(self)@ == (Session { script: paced(frame@), staged, ..old(self)@ }),
    {
        *self = ThermalPrinter {
            lang: self.lang,
            ready: self.ready,
            frame,
            sent: 0,
            delaying: false,
            staged,
        };
        assert(self@.script =~= paced(frame@));
    }

    /// Takes up the sending of `data`: every byte in order, each followed by
    /// its delay.
    pub fn write(&mut self, data: &[u8])
        requires
            old(self)@.at_rest(),
        ensures
            final(self)@ == old(self)@.load(data@),
    {
        self.begin(slice_to_vec(data), None);
    }

    /// Takes up the command that restores the printer's factory defaults.
    /// The session's language stays what it was.
    pub fn reset(&mut self)
        requires
            old(self)@.at_rest(),
        ensures
            final(self)@ == old(self)@.load(RESET@),
    {
        self.begin(slice_to_vec(&RESET), None);
    }

    /// Takes up the reset of the printer followed by its configuration, as
    /// one command. The session's language stays what it was.
    pub fn init(&mut self)
        requires
            old(self)@.at_rest(),
        ensures
            final(self)@ == old(self)@.load(RESET@ + INIT@),
    {
        let mut frame = slice_to_vec(&RESET);
        frame.extend_from_slice(&INIT);
        assert(frame@ =~= RESET@ + INIT@);
        self.begin(frame, None);
    }

    /// Takes up the command that selects `language` on the printer. The
    /// session's language changes when the command completes, and not at all
    /// if the transport refuses one of its bytes.
    pub fn set_language(&mut self, language: Language)
        requires
            old(self)@.at_rest(),
        ensures
            final(self)@ == old(self)@.select(language),
    {
        let mut frame: Vec<u8> = Vec::new();
        frame.push(0x1B);
        frame.push(0x52);
        frame.push(language.wire_value());
        assert(frame@ =~= select_frame(language));
        self.begin(frame, Some(language));
    }

    /// Takes up the printing of `text`: one byte per character, translated
    /// for the session's language as it is now.
    pub fn print(&mut self, text: &str)
        requires
            old(self)@.at_rest(),
        ensures
            final(self)@ == old(self)@.load(rendered(old(self)@.language, text@)),
    {
        let language = self.lang;
        let mut frame: Vec<u8> = Vec::new();
        for c in chars: text.chars()
            invariant
                chars.seq() == text@,
                frame@ == rendered(language, text@.take(chars.index())),
        {
            let code = language.encode(c) as u32;
            frame.push((code % 256) as u8);
            assert(frame@ =~= rendered(language, text@.take(chars.index() + 1)));
        }
        assert(text@.take(text@.len() as int) =~= text@);
        self.begin(frame, None);
    }
}

} // verus!
