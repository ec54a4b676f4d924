use vstd::prelude::*;
use crate::error::UartError;
use crate::frame::{frame_bit, frame_levels, payload_levels};

verus! {

/// How long the line is held idle after the last stop bit before it is
/// released, in nanoseconds.
pub const SETTLE_NS: u64 = 100_000_000;

/// Duration of one bit slot at `baud` bits per second, truncated to whole
/// nanoseconds.
pub open spec fn bit_period_spec(baud: u32) -> u64 {
    (1_000_000_000int / (baud as int)) as u64
}

/// Duration of one bit slot at `baud` bits per second, in nanoseconds.
pub fn bit_period_ns(baud: u32) -> (r: u64)
    requires
        baud > 0,
    ensures
        r == 1_000_000_000int / (baud as int),
        r == bit_period_spec(baud),
{
    1_000_000_000u64 / (baud as u64)
}

/// The timing discipline of a software UART: the bit period is fixed once,
/// from the baud rate, for the life of the engine.
pub struct SoftUart {
    bit_delay_ns: u64,
}

impl SoftUart {
    pub closed spec fn period(&self) -> u64 {
        self.bit_delay_ns
    }

    /// An engine for `baud` bits per second.
    pub fn new(baud: u32) -> (r: SoftUart)
        requires
            baud > 0,
        ensures
            r.period() == bit_period_spec(baud),
    {
        SoftUart { bit_delay_ns: bit_period_ns(baud) }
    }

    /// The bit period of this engine, in nanoseconds.
    pub fn bit_delay_ns(&self) -> (r: u64)
        ensures
            r == self.period(),
    {
        self.bit_delay_ns
    }

    /// A transmission of `data`, ready to ask for its first level.
    pub fn tx_bytes(&self, data: Vec<u8>) -> (r: TxSession)
        ensures
            r.wf(),
            r@ == SessionView::start(data@, self.period()),
    {
        TxSession { payload: data, bit_delay_ns: self.bit_delay_ns, byte: 0, bit: 0, holding: false, fault: false }
    }
}

/// What the caller must do next for a transmission.
#[derive(Debug, Clone, Copy, PartialEq, Eq, Structural)]
pub enum Action {
    /// Set the line to this level now, then report `Driven` or `DriveFailed`.
    Drive(bool),
    /// Wait: report `Elapsed` with the nanoseconds since the line was last set.
    Hold(u64),
    /// The payload was sent and the line settled idle: release the line.
    Release,
    /// The session is over with this error: release the line.
    Abort(UartError),
}

/// What the caller observed while doing an `Action`.
#[derive(Debug, Clone, Copy, PartialEq, Eq, Structural)]
pub enum Event {
    /// The line took the level that was asked for.
    Driven,
    /// The line-level write failed.
    DriveFailed,
    /// This many nanoseconds have passed since the line was last set.
    Elapsed(u64),
}

/// The abstract state of a transmission. Slots `0 .. 10 * n` carry the frames
/// of the `n` payload bytes; slot `10 * n` is the idle level held while the
/// line settles; the session has released once `slot == 10 * n + 1`.
pub ghost struct SessionView {
    pub payload: Seq<u8>,
    pub period: u64,
    pub slot: int,
    pub holding: bool,
    pub fault: bool,
}

/// Level of slot `k` of a transmission of `p`.
pub open spec fn slot_level(p: Seq<u8>, k: int) -> bool {
    if k < 10 * p.len() {
        payload_levels(p)[k]
    } else {
        true
    }
}

/// How long slot `k` of a transmission of `p` is held.
pub open spec fn slot_hold(p: Seq<u8>, period: u64, k: int) -> u64 {
    if k < 10 * p.len() {
        period
    } else {
        SETTLE_NS
    }
}

impl SessionView {
    pub open spec fn start(p: Seq<u8>, period: u64) -> SessionView {
        SessionView { payload: p, period, slot: 0, holding: false, fault: false }
    }

    /// The last slot, the settle interval, has been held.
    pub open spec fn finished(self) -> bool {
        self.slot >= 10 * self.payload.len() + 1
    }

    pub open spec fn action(self) -> Action {
        if self.fault {
            Action::Abort(UartError::TransmissionFault)
        } else if self.finished() {
            Action::Release
        } else if !self.holding {
            Action::Drive(slot_level(self.payload, self.slot))
        } else {
            Action::Hold(slot_hold(self.payload, self.period, self.slot))
        }
    }

    /// The state after `e`. A failed write ends the session; a hold ends once
    /// the elapsed time reaches the slot's duration; an event that does not
    /// answer the pending action changes nothing.
    pub open spec fn step(self, e: Event) -> SessionView {
        if self.fault || self.finished() {
            self
        } else if !self.holding {
            match e {
                Event::Driven => SessionView { holding: true, ..self },
                Event::DriveFailed => SessionView { fault: true, ..self },
                Event::Elapsed(_) => self,
            }
        } else {
            match e {
                Event::Elapsed(t) => if t >= slot_hold(self.payload, self.period, self.slot) {
                    SessionView { slot: self.slot + 1, holding: false, ..self }
                } else {
                    self
                },
                _ => self,
            }
        }
    }

    /// The state after each of `events` in turn.
    pub open spec fn run(self, events: Seq<Event>) -> SessionView
        decreases events.len(),
    {
        if events.len() == 0 {
            self
        } else {
            self.step(events[0]).run(events.drop_first())
        }
    }
}

/// Every level that a transmission of `p` puts on the line, in order: the
/// frames of the payload, then the idle level held while the line settles.
pub open spec fn wire_schedule(p: Seq<u8>) -> Seq<bool> {
    payload_levels(p).push(true)
}

/// How many levels of the schedule have been put on the line in state `s`.
pub open spec fn levels_done(s: SessionView) -> int {
    if s.holding {
        s.slot + 1
    } else {
        s.slot
    }
}

/// The states that a session can be in.
pub open spec fn reachable_shape(s: SessionView) -> bool {
    &&& 0 <= s.slot <= 10 * s.payload.len() + 1
    &&& s.finished() ==> !s.holding
}

/// The levels that the line took along the events `events` from state `s`:
/// one for each `Driven` that answers a `Drive`.
pub open spec fn levels_sent(s: SessionView, events: Seq<Event>) -> Seq<bool>
    decreases events.len(),
{
    if events.len() == 0 {
        Seq::empty()
    } else {
        let head = match s.action() {
            Action::Drive(l) => if events[0] == Event::Driven {
                seq![l]
            } else {
                Seq::empty()
            },
            _ => Seq::empty(),
        };
        head + levels_sent(s.step(events[0]), events.drop_first())
    }
}

/// Whatever the caller reports, the levels that a session puts on the line
/// continue the schedule from where the session stood: they are the next
/// levels of the frames of the payload, then the idle level, and nothing else.
pub proof fn lemma_levels_follow_schedule(s: SessionView, events: Seq<Event>)
    requires
        reachable_shape(s),
    ensures
        reachable_shape(s.run(events)),
        levels_done(s) <= levels_done(s.run(events)),
        levels_sent(s, events) == wire_schedule(s.payload).subrange(
            levels_done(s),
            levels_done(s.run(events)),
        ),
        s.run(events).payload == s.payload,
    decreases events.len(),
{
    let w = wire_schedule(s.payload);
    if events.len() > 0 {
        let t = s.step(events[0]);
        lemma_levels_follow_schedule(t, events.drop_first());
        let u = t.run(events.drop_first());
        assert(s.run(events) == u);
        let rest = levels_sent(t, events.drop_first());
        if !s.fault && !s.finished() && !s.holding && events[0] == Event::Driven {
            assert(w[s.slot] == slot_level(s.payload, s.slot));
            assert(levels_sent(s, events) =~= w.subrange(levels_done(s), levels_done(u)));
        } else {
            assert(levels_done(t) == levels_done(s));
            assert(levels_sent(s, events) =~= rest);
        }
    } else {
        assert(levels_sent(s, events) =~= w.subrange(levels_done(s), levels_done(s)));
    }
}

/// A transmission that reaches `Release` has put on the line exactly the
/// frames of its payload, `10 * n` levels for `n` bytes, and then one idle
/// level; before that, what it has put on the line is a prefix of that.
pub proof fn lemma_transmission_sends_frames(p: Seq<u8>, period: u64, events: Seq<Event>)
    ensures
        levels_sent(SessionView::start(p, period), events).len() <= 10 * p.len() + 1,
        levels_sent(SessionView::start(p, period), events) == wire_schedule(p).take(
            levels_sent(SessionView::start(p, period), events).len() as int,
        ),
        SessionView::start(p, period).run(events).action() == Action::Release ==> levels_sent(
            SessionView::start(p, period),
            events,
        ) == payload_levels(p).push(true),
        wire_schedule(p).len() == 10 * p.len() + 1,
{
    let s = SessionView::start(p, period);
    lemma_levels_follow_schedule(s, events);
    let t = s.run(events);
    assert(wire_schedule(p).subrange(0, levels_done(t)) =~= wire_schedule(p).take(levels_done(t)));
    if t.action() == Action::Release {
        assert(wire_schedule(p).take(levels_done(t)) =~= wire_schedule(p));
    }
}

/// Transmitting an empty payload puts no start, data or stop bit on the line:
/// at most one level is set, and it is the idle level.
pub proof fn lemma_empty_payload_stays_idle(period: u64, events: Seq<Event>)
    ensures
        levels_sent(SessionView::start(Seq::empty(), period), events).len() <= 1,
        forall|i: int|
            0 <= i < levels_sent(SessionView::start(Seq::empty(), period), events).len()
                ==> #[trigger] levels_sent(SessionView::start(Seq::empty(), period), events)[i],
{
    lemma_transmission_sends_frames(Seq::empty(), period, events);
    crate::frame::lemma_empty_payload_is_silent();
}

/// Each level of a frame is held for one bit period: while it is held the
/// session asks to wait out the engine's period, and it moves to the next
/// slot only on a report that at least that much time has passed.
pub proof fn lemma_each_level_held_one_period(s: SessionView, e: Event)
    requires
        !s.fault,
        s.holding,
        0 <= s.slot < 10 * s.payload.len(),
    ensures
        s.action() == Action::Hold(s.period),
        s.step(e).slot != s.slot ==> (e matches Event::Elapsed(t) && t >= s.period),
        s.step(e).slot != s.slot ==> s.step(e).slot == s.slot + 1,
{
}

/// A session in a fault stays there: it takes in no further event and only
/// asks to abort with a transmission fault.
pub proof fn lemma_fault_is_final(s: SessionView, events: Seq<Event>)
    requires
        s.fault,
    ensures
        s.run(events) == s,
        levels_sent(s, events) == Seq::<bool>::empty(),
        s.action() == Action::Abort(UartError::TransmissionFault),
    decreases events.len(),
{
    if events.len() > 0 {
        lemma_fault_is_final(s.step(events[0]), events.drop_first());
        assert(levels_sent(s, events) =~= Seq::<bool>::empty());
    }
}

/// A failed line write ends the session at once: whatever the caller reports
/// afterwards, no further level of that byte or of a later one is put on the
/// line, and the session reports a transmission fault.
pub proof fn lemma_failed_write_aborts(s: SessionView, events: Seq<Event>)
    requires
        s.action() is Drive,
    ensures
        s.step(Event::DriveFailed).fault,
        s.step(Event::DriveFailed).run(events).action() == Action::Abort(UartError::TransmissionFault),
        levels_sent(s.step(Event::DriveFailed), events) == Seq::<bool>::empty(),
{
    lemma_fault_is_final(s.step(Event::DriveFailed), events);
}

/// One transmission of a payload: which slot is on the line and whether its
/// level has been set. The line itself belongs to the caller.
pub struct TxSession {
    payload: Vec<u8>,
    bit_delay_ns: u64,
    byte: usize,
    bit: usize,
    holding: bool,
    fault: bool,
}

impl View for TxSession {
    type V = SessionView;

    closed spec fn view(&self) -> SessionView {
        SessionView {
            payload: self.payload@,
            period: self.bit_delay_ns,
            slot: 10 * self.byte + self.bit,
            holding: self.holding,
            fault: self.fault,
        }
    }
}

impl TxSession {
    pub closed spec fn wf(&self) -> bool {
        &&& self.byte <= self.payload.len()
        &&& self.byte < self.payload.len() ==> self.bit < 10
        &&& self.byte == self.payload.len() ==> self.bit <= 1
    }

    /// The action that the caller must perform next.
    pub fn next_action(&self) -> (r: Action)
        requires
            self.wf(),
        ensures
            r == self@.action(),
    {
        if self.fault {
            Action::Abort(UartError::TransmissionFault)
        } else if self.byte == self.payload.len() && self.bit == 1 {
            Action::Release
        } else if !self.holding {
            Action::Drive(self.level())
        } else {
            Action::Hold(self.hold())
        }
    }

    /// Level of the current slot.
    fn level(&self) -> (r: bool)
        requires
            self.wf(),
            !self@.finished(),
        ensures
            r == slot_level(self@.payload, self@.slot),
    {
        proof {
            self.lemma_slot_position();
        }
        if self.byte < self.payload.len() {
            frame_bit(self.payload[self.byte], self.bit)
        } else {
            true
        }
    }

    /// Duration of the current slot.
    fn hold(&self) -> (r: u64)
        requires
            self.wf(),
        ensures
            r == slot_hold(self@.payload, self@.period, self@.slot),
    {
        if self.byte < self.payload.len() {
            self.bit_delay_ns
        } else {
            SETTLE_NS
        }
    }

    proof fn lemma_slot_position(&self)
        requires
            self.wf(),
        ensures
            self.byte < self.payload.len() ==> 10 * self.byte + self.bit < 10 * self.payload.len()
                && payload_levels(self.payload@)[10 * self.byte + self.bit]
                == frame_levels(self.payload@[self.byte as int])[self.bit as int],
            self.byte == self.payload.len() ==> 10 * self.byte + self.bit >= 10 * self.payload.len(),
    {
        if self.byte < self.payload.len() {
            vstd::arithmetic::div_mod::lemma_fundamental_div_mod_converse(
                10 * self.byte + self.bit,
                10,
                self.byte as int,
                self.bit as int,
            );
        }
    }

    /// Takes in what the caller observed while performing the pending action.
    pub fn on_event(&mut self, e: Event)
        requires
            old(self).wf(),
        ensures
            final(self).wf(),
            final(self)@ == old(self)@.step(e),
    {
        if self.fault || (self.byte == self.payload.len() && self.bit == 1) {
            return;
        }
        if !self.holding {
            match e {
                Event::Driven => {
                    self.holding = true;
                },
                Event::DriveFailed => {
                    self.fault = true;
                },
                Event::Elapsed(_) => {},
            }
        } else {
            match e {
                Event::Elapsed(t) => {
                    if t >= self.hold() {
                        if self.byte < self.payload.len() && self.bit == 9 {
                            self.byte = self.byte + 1;
                            self.bit = 0;
                        } else {
                            self.bit = self.bit + 1;
                        }
                        self.holding = false;
                    }
                },
                _ => {},
            }
        }
    }
}

} // verus!
