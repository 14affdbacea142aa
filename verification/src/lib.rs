//! Protocol core of a driver for serial thermal receipt printers.
//!
//! The printer sits on a byte-oriented serial link without flow control.
//! Every byte that goes to it must be followed by a fixed silence, text must
//! be translated into the printer's 8-bit character set, and the printer
//! must be reset and configured before anything else is sent.
//!
//! This crate decides all of that and performs none of it. A
//! [`ThermalPrinter`] takes commands and hands out, one at a time, the
//! [`Action`]s that carry them over the link. The host owns the transport
//! and the timer: it asks for the pending action, writes the byte or waits,
//! and reports the outcome as an [`Event`]. When the transport refuses a
//! byte, the command ends there and the transport's error goes back to the
//! host unchanged.
//!
//! * [`language`]: the printer languages and the translation of characters.
//! * [`protocol`]: command frames, pacing, and the rendering of text.
//! * [`session`]: the model of a session that the contracts are stated over,
//!   and what is proved of whole commands.
//! * [`printer`]: the session itself.

pub mod language;
pub mod printer;
pub mod protocol;
pub mod session;

pub use language::Language;
pub use printer::ThermalPrinter;
pub use protocol::{Action, Event};
