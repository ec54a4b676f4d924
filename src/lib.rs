//! Transmit side of a UART emulated on one GPIO line.
//!
//! The library holds the parts of a bit-banged 8-N-1 transmitter that decide
//! something: the bit period for a baud rate, the framing of each byte, the
//! per-bit transmit state machine, the decoding of a hex payload and the
//! classification of line errors. The caller owns the line and the clock: it
//! performs each action that the state machine asks for and hands back what
//! happened.

mod error;
mod engine;
mod frame;
mod input;

pub use error::{open_failure, OpenStage, UartError, EBUSY};
pub use frame::{frame_bit, frame_bits, wire_levels};
pub use engine::{bit_period_ns, Action, Event, SoftUart, TxSession, SETTLE_NS};
pub use input::get_data;
