//! The wire protocol: command frames, the rendering of text into bytes, and
//! the pacing that every byte on the link is subject to.

use crate::language::Language;
use vstd::prelude::*;

verus! {

/// Microseconds the link must stay silent after each byte. The printer has no
/// flow control at the link's fixed 19200 baud; the gap keeps its receive
/// buffer from overrunning.
pub const BYTE_DELAY: u16 = 573;

/// Command that restores the printer's factory defaults.
pub const RESET: [u8; 2] = [0x1B, 0x40];

/// Command that configures the printer's fixed parameters.
pub const INIT: [u8; 9] = [0x1B, 0x13, 0x04, 0x08, 0x10, 0x14, 0x18, 0x1C, 0x00];

/// One thing a session asks its host to do.
#[derive(Clone, Copy, Debug, PartialEq, Eq, Structural)]
pub enum Action {
    /// Write this single byte to the transport.
    Write(u8),
    /// Block the caller for this many microseconds.
    Delay(u16),
}

/// What the host reports after performing an [`Action`].
#[derive(Debug)]
pub enum Event<E> {
    /// The transport's answer to the write of one byte.
    Written(Result<(), E>),
    /// The delay has elapsed.
    Delayed,
}

/// The actions that send `bytes` over the link: each byte is written and then
/// followed by its own delay, the last byte included.
pub open spec fn paced(bytes: Seq<u8>) -> Seq<Action> {
    Seq::new(
        2 * bytes.len(),
        |i: int|
            if i % 2 == 0 {
                Action::Write(bytes[i / 2])
            } else {
                Action::Delay(BYTE_DELAY)
            },
    )
}

/// The command that makes the printer render with `language`.
pub open spec fn select_frame(language: Language) -> Seq<u8> {
    seq![0x1Bu8, 0x52u8, language.wire()]
}

/// The byte that carries the character `c`: its code point, cut down to the
/// low eight bits.
pub open spec fn low_byte(c: char) -> u8 {
    (c as u32 % 256) as u8
}

/// The bytes that print `text` in `language`: one per character, each
/// character translated first.
pub open spec fn rendered(language: Language, text: Seq<char>) -> Seq<u8> {
    Seq::new(text.len(), |i: int| low_byte(language.encoded(text[i])))
}

/// Pacing two byte strings one after the other is pacing their concatenation.
pub proof fn lemma_paced_concat(a: Seq<u8>, b: Seq<u8>)
    ensures
        paced(a + b) == paced(a) + paced(b),
{
    assert(paced(a + b) =~= paced(a) + paced(b));
}

/// Pacing starts with the first byte and its delay, then goes on with the
/// rest.
pub proof fn lemma_paced_first(bytes: Seq<u8>)
    requires
        bytes.len() > 0,
    ensures
        paced(bytes) == seq![Action::Write(bytes[0]), Action::Delay(BYTE_DELAY)] + paced(
            bytes.drop_first(),
        ),
{
    assert(paced(bytes) =~= seq![Action::Write(bytes[0]), Action::Delay(BYTE_DELAY)] + paced(
        bytes.drop_first(),
    ));
}

/// The bytes that the actions of `trace` write, in the order of the writes.
pub open spec fn bytes_written(trace: Seq<Action>) -> Seq<u8>
    decreases trace.len(),
{
    if trace.len() == 0 {
        Seq::empty()
    } else {
        match trace.last() {
            Action::Write(byte) => bytes_written(trace.drop_last()).push(byte),
            Action::Delay(_) => bytes_written(trace.drop_last()),
        }
    }
}

/// The lengths of the delays among the actions of `trace`, in their order.
pub open spec fn delays_taken(trace: Seq<Action>) -> Seq<u16>
    decreases trace.len(),
{
    if trace.len() == 0 {
        Seq::empty()
    } else {
        match trace.last() {
            Action::Write(_) => delays_taken(trace.drop_last()),
            Action::Delay(us) => delays_taken(trace.drop_last()).push(us),
        }
    }
}

/// `count` delays of `BYTE_DELAY` microseconds each.
pub open spec fn byte_delays(count: nat) -> Seq<u16> {
    Seq::new(count, |i: int| BYTE_DELAY)
}

/// The actions that send `bytes` write exactly `bytes`, and take exactly one
/// delay of `BYTE_DELAY` microseconds for each of them.
pub proof fn lemma_paced_counts(bytes: Seq<u8>)
    ensures
        bytes_written(paced(bytes)) == bytes,
        delays_taken(paced(bytes)) == byte_delays(bytes.len()),
    decreases bytes.len(),
{
    if bytes.len() > 0 {
        let head = bytes.drop_last();
        let all = paced(bytes);
        let but_delay = all.drop_last();
        assert(all.last() == Action::Delay(BYTE_DELAY));
        assert(but_delay.last() == Action::Write(bytes.last()));
        assert(but_delay.drop_last() =~= paced(head));
        lemma_paced_counts(head);
        assert(bytes_written(all) == bytes_written(but_delay));
        assert(delays_taken(but_delay) == delays_taken(paced(head)));
        assert(head.push(bytes.last()) =~= bytes);
        assert(byte_delays(head.len()).push(BYTE_DELAY) =~= byte_delays(bytes.len()));
    }
}

/// The actions of a sending that the transport cuts short after `k` bytes
/// write those `k` bytes and the refused one, and take `k` delays.
pub proof fn lemma_cut_short_counts(bytes: Seq<u8>, k: nat)
    requires
        k < bytes.len(),
    ensures
        bytes_written(paced(bytes.take(k as int)).push(Action::Write(bytes[k as int])))
            == bytes.take(k as int + 1),
        delays_taken(paced(bytes.take(k as int)).push(Action::Write(bytes[k as int])))
            == byte_delays(k),
{
    let trace = paced(bytes.take(k as int)).push(Action::Write(bytes[k as int]));
    assert(trace.drop_last() =~= paced(bytes.take(k as int)));
    lemma_paced_counts(bytes.take(k as int));
    assert(bytes.take(k as int).push(bytes[k as int]) =~= bytes.take(k as int + 1));
}

} // verus!
