use calc_os::channel::EventChannel;
use calc_os::grid::encode;
use calc_os::hardware::{Key, KeypadDriver};
use calc_os::keypad::{wait_step, Keypad, WaitStep};

#[test]
fn read_key_decodes_the_next_message() {
    let mut keypad = Keypad::new(EventChannel::new(4));
    assert!(keypad.deliver(encode(2, 1).unwrap()));
    assert!(keypad.deliver(encode(2, 2).unwrap()));
    assert_eq!(keypad.read_key(), Some(Key::D2));
    assert_eq!(keypad.read_key(), Some(Key::D3));
    assert_eq!(keypad.read_key(), None);
}

#[test]
fn a_key_is_never_reported_twice() {
    let mut keypad = Keypad::new(EventChannel::new(4));
    assert!(keypad.deliver(encode(0, 3).unwrap()));
    assert_eq!(keypad.waiting(), 1);
    assert_eq!(keypad.read_key(), Some(Key::Backspace));
    assert_eq!(keypad.waiting(), 0);
    assert_eq!(keypad.read_key(), None);
    assert_eq!(keypad.read_key(), None);
}

#[test]
fn read_key_on_an_empty_channel_is_nothing() {
    let mut keypad = Keypad::new(EventChannel::new(1));
    assert_eq!(keypad.read_key(), None);
}

#[test]
fn wait_for_key_reports_and_does_not_consume() {
    let mut keypad = Keypad::new(EventChannel::new(2));
    assert!(!keypad.wait_for_key(0));
    assert!(!keypad.wait_for_key(u64::MAX));
    assert!(keypad.deliver(encode(3, 3).unwrap()));
    assert!(keypad.wait_for_key(0));
    assert!(keypad.wait_for_key(1000));
    assert_eq!(keypad.waiting(), 1);
    assert_eq!(keypad.read_key(), Some(Key::Eq));
    assert!(!keypad.wait_for_key(1000));
}

#[test]
fn a_keypad_takes_over_what_its_channel_holds() {
    let mut channel = EventChannel::new(3);
    assert!(channel.try_send(encode(1, 4).unwrap()));
    assert!(channel.try_send(encode(0, 4).unwrap()));
    let mut keypad = Keypad::new(channel);
    assert_eq!(keypad.waiting(), 2);
    assert_eq!(keypad.read_key(), Some(Key::Sub));
    assert_eq!(keypad.read_key(), Some(Key::Dot));
}

#[test]
fn a_full_keypad_turns_a_press_away() {
    let mut keypad = Keypad::new(EventChannel::new(1));
    assert!(keypad.deliver(encode(3, 1).unwrap()));
    assert!(!keypad.deliver(encode(2, 0).unwrap()));
    assert_eq!(keypad.read_key(), Some(Key::D0));
    assert_eq!(keypad.read_key(), None);
    assert!(keypad.deliver(encode(2, 0).unwrap()));
    assert_eq!(keypad.read_key(), Some(Key::D1));
}

#[test]
fn polling_reports_a_message_that_waits() {
    assert_eq!(wait_step(0, 10, true), WaitStep::Ready);
    assert_eq!(wait_step(9, 10, true), WaitStep::Ready);
    assert_eq!(wait_step(u64::MAX - 1, u64::MAX, true), WaitStep::Ready);
}

#[test]
fn polling_reports_a_message_that_waits_even_with_no_time_left() {
    assert_eq!(wait_step(0, 0, true), WaitStep::Ready);
    assert_eq!(wait_step(10, 10, true), WaitStep::Ready);
    assert_eq!(wait_step(11, 10, true), WaitStep::Ready);
    assert_eq!(wait_step(u64::MAX, u64::MAX, true), WaitStep::Ready);
}

#[test]
fn polling_looks_again_while_there_is_time() {
    assert_eq!(wait_step(0, 10, false), WaitStep::Poll);
    assert_eq!(wait_step(9, 10, false), WaitStep::Poll);
    assert_eq!(wait_step(0, u64::MAX, false), WaitStep::Poll);
}

#[test]
fn polling_gives_up_when_the_time_is_over_and_nothing_waits() {
    assert_eq!(wait_step(10, 10, false), WaitStep::TimedOut);
    assert_eq!(wait_step(11, 10, false), WaitStep::TimedOut);
    assert_eq!(wait_step(0, 0, false), WaitStep::TimedOut);
    assert_eq!(wait_step(u64::MAX, u64::MAX, false), WaitStep::TimedOut);
}

#[test]
fn polling_agrees_with_the_keypad_that_does_not_wait() {
    let mut keypad = Keypad::new(EventChannel::new(1));
    assert_eq!(wait_step(0, 0, false) == WaitStep::Ready, keypad.wait_for_key(0));
    assert!(keypad.deliver(encode(0, 0).unwrap()));
    assert_eq!(wait_step(0, 0, true) == WaitStep::Ready, keypad.wait_for_key(0));
    assert!(keypad.wait_for_key(0));
}

#[test]
fn the_keypad_remembers_for_how_long_it_was_asked_to_wait() {
    let mut keypad = Keypad::new(EventChannel::new(2));
    assert_eq!(keypad.last_wait(), None);
    keypad.wait_for_key(250);
    assert_eq!(keypad.last_wait(), Some(250));
    assert!(keypad.deliver(encode(0, 0).unwrap()));
    keypad.read_key();
    assert_eq!(keypad.last_wait(), Some(250));
    keypad.read_key_within(7);
    assert_eq!(keypad.last_wait(), Some(7));
}
