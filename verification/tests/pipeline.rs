use calc_os::channel::EventChannel;
use calc_os::display::Display;
use calc_os::hardware::{Hardware, Key, KeypadDriver};
use calc_os::keypad::Keypad;
use calc_os::scanner::{ScanCommand, ScanEvent, Scanner};
use calc_os::session::{service, start};
use calc_os::system::System;

/// Runs one pass of the scanner over the cells that are held down at `now`,
/// and delivers what it sends to the keypad, offering again while the channel
/// is full and a reader takes a key.
fn scan_pass(scanner: &mut Scanner, keypad: &mut Keypad, held: &[(usize, usize)], now: u64) {
    let mut driven = None;
    loop {
        let event = match scanner.command() {
            ScanCommand::ReadClock => ScanEvent::Clock(now),
            ScanCommand::RaiseRow(row) => {
                driven = Some(row);
                ScanEvent::Done
            }
            ScanCommand::ReadColumn(col) => {
                ScanEvent::Level(held.contains(&(driven.unwrap(), col)))
            }
            ScanCommand::LowerRow(_) => {
                driven = None;
                ScanEvent::Done
            }
            ScanCommand::Send(msg) => {
                assert!(keypad.deliver(msg), "the channel is full");
                ScanEvent::Done
            }
            ScanCommand::Stop => panic!("the scan has stopped"),
        };
        if scanner.advance(event) == ScanCommand::ReadClock {
            return;
        }
    }
}

#[test]
fn presses_travel_from_the_matrix_to_the_line() {
    let mut scanner = Scanner::new(0);
    let mut hw = Hardware {
        display: Display::new(),
        keypad: Keypad::new(EventChannel::new(2)),
        system: System::new(),
    };
    let mut session = start(&mut hw);
    let entry = hw.display.commits();

    // (3, 1) is held for a few passes, then released.
    for now in [100, 105, 110, 115] {
        scan_pass(&mut scanner, &mut hw.keypad, &[(3, 1)], now);
    }
    scan_pass(&mut scanner, &mut hw.keypad, &[], 120);
    assert_eq!(service(&mut hw, &mut session, usize::MAX), vec![Key::D0]);
    assert_eq!(session.text(), "D0");

    // (2, 0) follows.
    for now in [300, 305, 310] {
        scan_pass(&mut scanner, &mut hw.keypad, &[(2, 0)], now);
    }
    assert_eq!(service(&mut hw, &mut session, usize::MAX), vec![Key::D1]);
    assert_eq!(session.text(), "D0D1");
    assert_eq!(hw.display.commits(), entry + 2);

    // (3, 4) is Fn.
    scan_pass(&mut scanner, &mut hw.keypad, &[(3, 4)], 500);
    assert_eq!(service(&mut hw, &mut session, usize::MAX), vec![Key::Fn]);
    assert_eq!(session.text(), "");
    // Fn leads back to drawing: a refresh cycle and a commit.
    assert_eq!(hw.display.refreshes(), 2);
    assert_eq!(hw.display.commits(), entry + 3);
}

#[test]
fn a_bouncing_contact_types_its_key_once() {
    let mut scanner = Scanner::new(0);
    let mut keypad = Keypad::new(EventChannel::new(4));
    // The contact of (0, 2) chatters for 40 ms as it closes.
    let mut now = 200;
    let mut closed = true;
    while now < 240 {
        let held: &[(usize, usize)] = if closed { &[(0, 2)] } else { &[] };
        scan_pass(&mut scanner, &mut keypad, held, now);
        closed = !closed;
        now += 4;
    }
    assert_eq!(keypad.read_key(), Some(Key::D9));
    assert_eq!(keypad.read_key(), None);
}

#[test]
fn two_keys_pressed_one_after_the_other_arrive_in_that_order() {
    let mut scanner = Scanner::new(0);
    let mut keypad = Keypad::new(EventChannel::new(4));
    scan_pass(&mut scanner, &mut keypad, &[(2, 1)], 100);
    scan_pass(&mut scanner, &mut keypad, &[(2, 2)], 110);
    scan_pass(&mut scanner, &mut keypad, &[], 120);
    assert_eq!(keypad.read_key(), Some(Key::D2));
    assert_eq!(keypad.read_key(), Some(Key::D3));
    assert_eq!(keypad.read_key(), None);
}

#[test]
fn a_key_read_within_a_time_is_read_at_once() {
    let mut keypad = Keypad::new(EventChannel::new(1));
    assert_eq!(keypad.read_key_within(1000), None);
    assert!(keypad.deliver(0x0001_0000));
    assert_eq!(keypad.read_key_within(0), Some(Key::D4));
    assert_eq!(keypad.read_key_within(u64::MAX), None);
}
