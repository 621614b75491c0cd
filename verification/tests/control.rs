use ambient_brightness::control::Command;
use ambient_brightness::control::CommandQueue;
use ambient_brightness::control::decode_command;
use ambient_brightness::control::encode_command;
use ambient_brightness::control::opcode_has_amount;
use ambient_brightness::control::should_retry;

#[test]
fn commands_encode_to_their_wire_bytes() {
    assert_eq!(encode_command(&Command::Idle), vec![0]);
    assert_eq!(encode_command(&Command::Active), vec![1]);
    assert_eq!(encode_command(&Command::Increase(10)), vec![2, 10]);
    assert_eq!(encode_command(&Command::Decrease(3)), vec![3, 3]);
    // A negative amount travels as its two's-complement byte.
    assert_eq!(encode_command(&Command::Increase(-10)), vec![2, 246]);
}

#[test]
fn wire_bytes_decode_back_to_their_command() {
    for command in [
        Command::Idle,
        Command::Active,
        Command::Increase(10),
        Command::Increase(-10),
        Command::Decrease(3),
        Command::Decrease(-128),
        Command::Increase(127),
    ] {
        let bytes = encode_command(&command);
        let amount = if bytes.len() == 2 { bytes[1] as i8 } else { 0 };
        assert_eq!(decode_command(bytes[0], amount), Some(command));
    }
}

#[test]
fn only_offset_opcodes_carry_an_amount() {
    assert!(!opcode_has_amount(0));
    assert!(!opcode_has_amount(1));
    assert!(opcode_has_amount(2));
    assert!(opcode_has_amount(3));
    assert!(!opcode_has_amount(4));
    assert!(!opcode_has_amount(255));
}

#[test]
fn unknown_opcodes_are_ignored() {
    assert_eq!(decode_command(4, 0), None);
    assert_eq!(decode_command(200, 5), None);
}

#[test]
fn queue_backpressure_drops_nothing() {
    let mut queue = CommandQueue::new();

    // The first command goes in.
    assert_eq!(queue.try_send(Command::Idle), None);

    // A second command before the scheduler drains the first is refused
    // and handed back intact; the first stays in flight.
    let refused = queue.try_send(Command::Increase(10));
    assert_eq!(refused, Some(Command::Increase(10)));

    // The scheduler drains the first command, then the refused one goes
    // through: neither was lost.
    assert_eq!(queue.try_recv(), Some(Command::Idle));
    assert_eq!(queue.try_send(refused.unwrap()), None);
    assert_eq!(queue.try_recv(), Some(Command::Increase(10)));
    assert_eq!(queue.try_recv(), None);
}

#[test]
fn only_interrupted_calls_are_retried_within_the_budget() {
    assert!(should_retry(true, 0));
    assert!(should_retry(true, 2));
    assert!(!should_retry(true, 3));
    assert!(!should_retry(false, 0));
}
