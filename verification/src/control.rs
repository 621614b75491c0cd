//! The local control protocol and the command hand-off queue.
//!
//! A client sends one command per connection: a single opcode byte, followed
//! for the two offset commands by one signed amount byte. Decoded commands
//! travel from the control channel to the scheduler through a capacity-one
//! queue, so at most one command is ever in flight and none is dropped.

use vstd::prelude::*;

verus! {

/// A decoded control message.
#[derive(Clone, Copy, Debug, PartialEq, Eq, Structural)]
pub enum Command {
    /// Enter dimmed mode: the ambient percentage is quartered.
    Idle,
    /// Leave dimmed mode.
    Active,
    /// Raise the screen offset by the given amount.
    Increase(i8),
    /// Lower the screen offset by the given amount.
    Decrease(i8),
}

/// Opcode byte that encodes [`Command::Idle`].
pub const OPCODE_IDLE: u8 = 0;

/// Opcode byte that encodes [`Command::Active`].
pub const OPCODE_ACTIVE: u8 = 1;

/// Opcode byte that encodes [`Command::Increase`].
pub const OPCODE_INCREASE: u8 = 2;

/// Opcode byte that encodes [`Command::Decrease`].
pub const OPCODE_DECREASE: u8 = 3;

/// The command a given opcode and amount byte stand for; `None` for an
/// unknown opcode, which the channel ignores rather than treats as an error.
pub open spec fn decode_spec(opcode: u8, amount: i8) -> Option<Command> {
    if opcode == OPCODE_IDLE {
        Some(Command::Idle)
    } else if opcode == OPCODE_ACTIVE {
        Some(Command::Active)
    } else if opcode == OPCODE_INCREASE {
        Some(Command::Increase(amount))
    } else if opcode == OPCODE_DECREASE {
        Some(Command::Decrease(amount))
    } else {
        None
    }
}

/// The bytes that carry a command on the wire.
pub open spec fn encode_spec(c: Command) -> Seq<u8> {
    match c {
        Command::Idle => seq![OPCODE_IDLE],
        Command::Active => seq![OPCODE_ACTIVE],
        Command::Increase(amount) => seq![OPCODE_INCREASE, amount as u8],
        Command::Decrease(amount) => seq![OPCODE_DECREASE, amount as u8],
    }
}

/// Whether this opcode is followed by one signed amount byte.
pub fn opcode_has_amount(opcode: u8) -> (b: bool)
    ensures
        b == (opcode == OPCODE_INCREASE || opcode == OPCODE_DECREASE),
{
    opcode == OPCODE_INCREASE || opcode == OPCODE_DECREASE
}

/// Decode one message. The amount byte is meaningful only for the opcodes
/// that carry one; callers pass the byte they read, or any value otherwise.
pub fn decode_command(opcode: u8, amount: i8) -> (r: Option<Command>)
    ensures
        r == decode_spec(opcode, amount),
{
    if opcode == OPCODE_IDLE {
        Some(Command::Idle)
    } else if opcode == OPCODE_ACTIVE {
        Some(Command::Active)
    } else if opcode == OPCODE_INCREASE {
        Some(Command::Increase(amount))
    } else if opcode == OPCODE_DECREASE {
        Some(Command::Decrease(amount))
    } else {
        None
    }
}

/// Encode one command as the bytes a client writes to the socket.
pub fn encode_command(c: &Command) -> (r: Vec<u8>)
    ensures
        r@ == encode_spec(*c),
{
    let mut bytes: Vec<u8> = Vec::new();
    match c {
        Command::Idle => {
            bytes.push(OPCODE_IDLE);
        },
        Command::Active => {
            bytes.push(OPCODE_ACTIVE);
        },
        Command::Increase(amount) => {
            bytes.push(OPCODE_INCREASE);
            bytes.push(*amount as u8);
        },
        Command::Decrease(amount) => {
            bytes.push(OPCODE_DECREASE);
            bytes.push(*amount as u8);
        },
    }
    proof {
        assert(bytes@ =~= encode_spec(*c));
    }
    bytes
}

/// How many times a transient, interrupted call is tried again before the
/// channel gives up on it.
pub const MAX_RETRY_ATTEMPTS: u32 = 3;

/// The fixed delay between retries of a transient, interrupted call, in
/// milliseconds.
pub const RETRY_DELAY_MS: u64 = 100;

/// Whether a failed call is tried again: only interrupted calls are, and
/// only while fewer than [`MAX_RETRY_ATTEMPTS`] retries have been spent.
/// Every other failure is fatal to the channel.
pub fn should_retry(interrupted: bool, retries_spent: u32) -> (r: bool)
    ensures
        r == (interrupted && retries_spent < MAX_RETRY_ATTEMPTS),
{
    interrupted && retries_spent < MAX_RETRY_ATTEMPTS
}

/// What offering a command to the queue does: an empty queue takes it; a
/// full queue stays as it was and hands the command back. The first part of
/// the pair is the queue afterwards, the second the refused command.
pub open spec fn offer_spec(q: Option<Command>, c: Command) -> (Option<Command>, Option<
    Command,
>) {
    match q {
        None => (Some(c), None),
        Some(held) => (Some(held), Some(c)),
    }
}

/// The capacity-one hand-off queue between the control channel and the
/// scheduler: at most one command is in flight, and a command is never
/// dropped — an offer against a full queue hands the command back so the
/// sender can block and try again once the scheduler has drained the slot.
pub struct CommandQueue {
    slot: Option<Command>,
}

impl CommandQueue {
    /// The command in flight, if any.
    pub closed spec fn contents(&self) -> Option<Command> {
        self.slot
    }

    /// An empty queue.
    pub fn new() -> (r: Self)
        ensures
            r.contents() == None::<Command>,
    {
        CommandQueue { slot: None }
    }

    /// Offer a command. An empty queue takes it; a full queue stays as it
    /// was and hands the command back, so nothing is ever dropped.
    pub fn try_send(&mut self, c: Command) -> (rejected: Option<Command>)
        ensures
            (final(self).contents(), rejected) == offer_spec(old(self).contents(), c),
    {
        match self.slot {
            None => {
                self.slot = Some(c);
                None
            },
            Some(_) => Some(c),
        }
    }

    /// Drain the queue: the command in flight comes out and the slot is
    /// empty afterwards.
    pub fn try_recv(&mut self) -> (r: Option<Command>)
        ensures
            r == old(self).contents(),
            final(self).contents() == None::<Command>,
    {
        let r = self.slot;
        self.slot = None;
        r
    }
}

/// Backpressure of the hand-off queue: a second command offered before the
/// first is drained is refused and comes back intact while the first stays
/// in flight, and once the scheduler drains the first, the refused command
/// goes through — no command is lost on either path.
pub proof fn lemma_queue_backpressure(first: Command, second: Command)
    ensures
        ({
            let (after_first, refused_first) = offer_spec(None::<Command>, first);
            let (after_second, refused_second) = offer_spec(after_first, second);
            &&& refused_first == None::<Command>
            &&& after_second == Some(first)
            &&& refused_second == Some(second)
            &&& offer_spec(None::<Command>, second) == (Some(second), None::<Command>)
        }),
{
}

/// A command encoded on the wire decodes back to itself: the protocol loses
/// nothing.
pub proof fn lemma_encode_decode(c: Command)
    ensures
        ({
            let bytes = encode_spec(c);
            let amount = if bytes.len() == 2 {
                bytes[1] as i8
            } else {
                0i8
            };
            decode_spec(bytes[0], amount) == Some(c)
        }),
{
    match c {
        Command::Increase(amount) => {
            assert(amount as u8 as i8 == amount) by (bit_vector);
        },
        Command::Decrease(amount) => {
            assert(amount as u8 as i8 == amount) by (bit_vector);
        },
        _ => {},
    }
}

} // verus!
