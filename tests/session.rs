use soft_uart_tx::{Action, Event, SoftUart, TxSession, UartError, SETTLE_NS};

/// Runs a session with a line that never fails and a clock that always
/// reports the full hold, and records every action asked for.
fn clean_run(mut s: TxSession) -> Vec<Action> {
    let mut actions = Vec::new();
    loop {
        let a = s.next_action();
        actions.push(a);
        match a {
            Action::Drive(_) => s.on_event(Event::Driven),
            Action::Hold(ns) => s.on_event(Event::Elapsed(ns)),
            Action::Release | Action::Abort(_) => return actions,
        }
    }
}

fn driven(actions: &[Action]) -> Vec<bool> {
    actions
        .iter()
        .filter_map(|a| match a {
            Action::Drive(l) => Some(*l),
            _ => None,
        })
        .collect()
}

#[test]
fn engine_keeps_its_bit_period() {
    assert_eq!(SoftUart::new(9600).bit_delay_ns(), 104_166);
}

#[test]
fn round_trip_of_0x55_at_9600() {
    let uart = SoftUart::new(9600);
    let actions = clean_run(uart.tx_bytes(vec![0x55]));
    let mut expected = Vec::new();
    for level in [false, true, false, true, false, true, false, true, false, true] {
        expected.push(Action::Drive(level));
        expected.push(Action::Hold(104_166));
    }
    expected.push(Action::Drive(true));
    expected.push(Action::Hold(SETTLE_NS));
    expected.push(Action::Release);
    assert_eq!(actions, expected);
}

#[test]
fn empty_payload_only_settles_idle() {
    let uart = SoftUart::new(9600);
    let actions = clean_run(uart.tx_bytes(Vec::new()));
    assert_eq!(
        actions,
        vec![Action::Drive(true), Action::Hold(SETTLE_NS), Action::Release]
    );
}

#[test]
fn ten_levels_per_byte_then_idle() {
    let uart = SoftUart::new(115_200);
    let payload = vec![0xB5, 0x62, 0x06, 0x01];
    let levels = driven(&clean_run(uart.tx_bytes(payload.clone())));
    assert_eq!(levels.len(), 10 * payload.len() + 1);
    assert_eq!(levels[..40].to_vec(), soft_uart_tx::wire_levels(&payload));
    assert!(levels[40]);
}

#[test]
fn hold_lasts_until_the_period_has_elapsed() {
    let uart = SoftUart::new(9600);
    let mut s = uart.tx_bytes(vec![0x00]);
    assert_eq!(s.next_action(), Action::Drive(false));
    s.on_event(Event::Driven);
    assert_eq!(s.next_action(), Action::Hold(104_166));
    s.on_event(Event::Elapsed(0));
    assert_eq!(s.next_action(), Action::Hold(104_166));
    s.on_event(Event::Elapsed(104_165));
    assert_eq!(s.next_action(), Action::Hold(104_166));
    s.on_event(Event::Elapsed(104_166));
    assert_eq!(s.next_action(), Action::Drive(false));
}

#[test]
fn stray_events_change_nothing() {
    let uart = SoftUart::new(9600);
    let mut s = uart.tx_bytes(vec![0xFF]);
    s.on_event(Event::Elapsed(1_000_000_000));
    assert_eq!(s.next_action(), Action::Drive(false));
    s.on_event(Event::Driven);
    s.on_event(Event::Driven);
    assert_eq!(s.next_action(), Action::Hold(104_166));
}

#[test]
fn write_failure_on_data_bit_three_aborts() {
    let uart = SoftUart::new(9600);
    let mut s = uart.tx_bytes(vec![0xB5, 0x62]);
    // start bit and data bits 0, 1, 2
    for expected in [false, true, false, true] {
        assert_eq!(s.next_action(), Action::Drive(expected));
        s.on_event(Event::Driven);
        s.on_event(Event::Elapsed(104_166));
    }
    // data bit 3 of 0xB5 is 0
    assert_eq!(s.next_action(), Action::Drive(false));
    s.on_event(Event::DriveFailed);
    let abort = Action::Abort(UartError::TransmissionFault);
    assert_eq!(s.next_action(), abort);
    for e in [Event::Driven, Event::Elapsed(u64::MAX), Event::DriveFailed, Event::Driven] {
        s.on_event(e);
        assert_eq!(s.next_action(), abort);
    }
}

#[test]
fn write_failure_on_settle_aborts() {
    let uart = SoftUart::new(9600);
    let mut s = uart.tx_bytes(Vec::new());
    assert_eq!(s.next_action(), Action::Drive(true));
    s.on_event(Event::DriveFailed);
    assert_eq!(s.next_action(), Action::Abort(UartError::TransmissionFault));
}

#[test]
fn released_session_stays_released() {
    let uart = SoftUart::new(9600);
    let mut s = uart.tx_bytes(Vec::new());
    let _ = clean_run_borrowed(&mut s);
    s.on_event(Event::DriveFailed);
    assert_eq!(s.next_action(), Action::Release);
}

fn clean_run_borrowed(s: &mut TxSession) -> usize {
    let mut n = 0;
    loop {
        n += 1;
        match s.next_action() {
            Action::Drive(_) => s.on_event(Event::Driven),
            Action::Hold(ns) => s.on_event(Event::Elapsed(ns)),
            Action::Release | Action::Abort(_) => return n,
        }
    }
}
