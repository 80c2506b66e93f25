//! The expander device: its register map, its cached state, and every
//! operation as a verified transcript function.
//!
//! Each operation receives the transport's replies so far and returns the
//! exact list of bus commands it issues together with a [`Progress`] value:
//! [`Progress::Pending`] when the last logged command still needs its
//! reply, [`Progress::Complete`] when the operation has finished.  The
//! companion `spec` functions state, reply by reply, which commands are
//! issued and what comes back.

use crate::pin::{Bank, Compare, Feature, Mode, Pin, State};
use crate::transport::{
    all_ok, has_reply, progress_of, reply_ok, run_script, Cmd, Error, Progress, Reply, Session,
    Step, Stop,
};
use vstd::prelude::*;

verus! {

pub const IODIRA: u8 = 0x00;

pub const IODIRB: u8 = 0x01;

pub const GPINTENA: u8 = 0x04;

pub const GPINTENB: u8 = 0x05;

pub const DEFVALA: u8 = 0x06;

pub const DEFVALB: u8 = 0x07;

pub const INTCONA: u8 = 0x08;

pub const INTCONB: u8 = 0x09;

pub const IOCON: u8 = 0x0A;

pub const GPPUA: u8 = 0x0C;

pub const GPPUB: u8 = 0x0D;

pub const INTFA: u8 = 0x0E;

pub const INTFB: u8 = 0x0F;

pub const INTCAPA: u8 = 0x10;

pub const INTCAPB: u8 = 0x11;

pub const GPIOA: u8 = 0x12;

pub const GPIOB: u8 = 0x13;

pub const OLATA: u8 = 0x14;

pub const OLATB: u8 = 0x15;

/// Bit position of the mirror flag inside the shared IOCON register.
pub const IOCON_MIRROR_BIT: u8 = 6;

/// Bit position of the interrupt-polarity flag inside IOCON.
pub const IOCON_INTPOL_BIT: u8 = 1;

/// The byte with one bit set or cleared: the whole point of the register
/// codec, since the hardware is byte-granular but operations are
/// pin-granular.
pub open spec fn spec_change_bit(bitmap: u8, bit: u8, value: bool) -> u8 {
    if value {
        bitmap | (1u8 << bit)
    } else {
        bitmap & !(1u8 << bit)
    }
}

/// Whether the given bit of a byte is set.
pub open spec fn bit_set(byte: u8, bit: u8) -> bool {
    byte & (1u8 << bit) != 0
}

/// Position of the highest set bit of a non-zero byte.
pub open spec fn spec_floor_log2(v: u8) -> u8 {
    if v >= 128 {
        7
    } else if v >= 64 {
        6
    } else if v >= 32 {
        5
    } else if v >= 16 {
        4
    } else if v >= 8 {
        3
    } else if v >= 4 {
        2
    } else if v >= 2 {
        1
    } else {
        0
    }
}

pub open spec fn iodir_reg(bank: Bank) -> u8 {
    match bank {
        Bank::A => IODIRA,
        Bank::B => IODIRB,
    }
}

pub open spec fn gppu_reg(bank: Bank) -> u8 {
    match bank {
        Bank::A => GPPUA,
        Bank::B => GPPUB,
    }
}

pub open spec fn gpio_reg(bank: Bank) -> u8 {
    match bank {
        Bank::A => GPIOA,
        Bank::B => GPIOB,
    }
}

pub open spec fn olat_reg(bank: Bank) -> u8 {
    match bank {
        Bank::A => OLATA,
        Bank::B => OLATB,
    }
}

pub open spec fn gpinten_reg(bank: Bank) -> u8 {
    match bank {
        Bank::A => GPINTENA,
        Bank::B => GPINTENB,
    }
}

pub open spec fn intcon_reg(bank: Bank) -> u8 {
    match bank {
        Bank::A => INTCONA,
        Bank::B => INTCONB,
    }
}

pub open spec fn defval_reg(bank: Bank) -> u8 {
    match bank {
        Bank::A => DEFVALA,
        Bank::B => DEFVALB,
    }
}

pub open spec fn intf_reg(bank: Bank) -> u8 {
    match bank {
        Bank::A => INTFA,
        Bank::B => INTFB,
    }
}

pub open spec fn intcap_reg(bank: Bank) -> u8 {
    match bank {
        Bank::A => INTCAPA,
        Bank::B => INTCAPB,
    }
}

// ---------------------------------------------------------------------------
// Read-modify-write: the single mutation primitive.  With a known current
// value it issues exactly one write; otherwise one read, then one write of
// the byte with the pin's bit changed.
// ---------------------------------------------------------------------------

/// Commands a read-modify-write of `reg` issues, starting at reply `k`.
pub open spec fn rmw_cmds(
    reg: u8,
    bit: u8,
    value: bool,
    cur: Option<u8>,
    replies: Seq<Reply>,
    k: int,
) -> Seq<Cmd> {
    match cur {
        Some(c) => seq![Cmd::WriteReg(reg, spec_change_bit(c, bit, value))],
        None => if !reply_ok(replies, k) {
            seq![Cmd::ReadReg(reg)]
        } else {
            seq![
                Cmd::ReadReg(reg),
                Cmd::WriteReg(reg, spec_change_bit(replies[k].value, bit, value)),
            ]
        },
    }
}

/// Replies a read-modify-write consumes, starting at reply `k`.
pub open spec fn rmw_used(cur: Option<u8>, replies: Seq<Reply>, k: int) -> int {
    match cur {
        Some(_) => if has_reply(replies, k) {
            1int
        } else {
            0int
        },
        None => if !has_reply(replies, k) {
            0int
        } else if !replies[k].ok {
            1int
        } else if !has_reply(replies, k + 1) {
            1int
        } else {
            2int
        },
    }
}

/// How a read-modify-write ends: starved, faulted, or done with the byte
/// that was written.
pub open spec fn rmw_step(bit: u8, value: bool, cur: Option<u8>, replies: Seq<Reply>, k: int) -> Step<
    u8,
> {
    match cur {
        Some(c) => if !has_reply(replies, k) {
            Step::Starved
        } else if !replies[k].ok {
            Step::Fault
        } else {
            Step::Done(spec_change_bit(c, bit, value))
        },
        None => if !has_reply(replies, k) {
            Step::Starved
        } else if !replies[k].ok {
            Step::Fault
        } else if !has_reply(replies, k + 1) {
            Step::Starved
        } else if !replies[k + 1].ok {
            Step::Fault
        } else {
            Step::Done(spec_change_bit(replies[k].value, bit, value))
        },
    }
}

// ---------------------------------------------------------------------------
// Interrupt capture: read a bank's interrupt-flag byte and, when a pin
// fired, the captured value.
// ---------------------------------------------------------------------------

/// The pin reported for an interrupt-flag byte: the highest set bit, taken
/// as a bank A pin of that index.
pub open spec fn pin_for_bit(bit: u8) -> Pin {
    Pin { pin: bit, orig: bit, shift: 0, bank: Bank::A }
}

/// Commands an interrupt-register read of `bank` issues, starting at `k`:
/// the flag byte, and the capture byte only when a pin fired.
pub open spec fn irr_cmds(bank: Bank, replies: Seq<Reply>, k: int) -> Seq<Cmd> {
    if !reply_ok(replies, k) || replies[k].value == 0 {
        seq![Cmd::ReadReg(intf_reg(bank))]
    } else {
        seq![Cmd::ReadReg(intf_reg(bank)), Cmd::ReadReg(intcap_reg(bank))]
    }
}

/// Replies an interrupt-register read consumes, starting at `k`.
pub open spec fn irr_used(replies: Seq<Reply>, k: int) -> int {
    if !has_reply(replies, k) {
        0int
    } else if !replies[k].ok || replies[k].value == 0 {
        1int
    } else if !has_reply(replies, k + 1) {
        1int
    } else {
        2int
    }
}

/// How an interrupt-register read ends.  A zero flag byte means no pending
/// interrupt.  Otherwise the reported pin is the highest set flag bit (if
/// several pins fired at once only that one is reported), and its level is
/// that pin's bit of the capture byte.
pub open spec fn irr_step(replies: Seq<Reply>, k: int) -> Step<Option<(Pin, State)>> {
    if !has_reply(replies, k) {
        Step::Starved
    } else if !replies[k].ok {
        Step::Fault
    } else if replies[k].value == 0 {
        Step::Done(None)
    } else if !has_reply(replies, k + 1) {
        Step::Starved
    } else if !replies[k + 1].ok {
        Step::Fault
    } else {
        Step::Done(
            Some(
                (
                    pin_for_bit(spec_floor_log2(replies[k].value)),
                    if bit_set(replies[k + 1].value, spec_floor_log2(replies[k].value)) {
                        State::High
                    } else {
                        State::Low
                    },
                ),
            ),
        )
    }
}

// ---------------------------------------------------------------------------
// Interrupt clearing: poll both banks' flag bytes, and force a clear by
// reading both GPIO registers when the flags will not settle.
// ---------------------------------------------------------------------------

/// Commands one poll round issues, starting at `k`: the bank A flag byte;
/// bank B's only when A's is non-zero; and a pause when both are non-zero.
pub open spec fn ponce_cmds(replies: Seq<Reply>, k: int) -> Seq<Cmd> {
    if !reply_ok(replies, k) || replies[k].value == 0 {
        seq![Cmd::ReadReg(INTFA)]
    } else if !reply_ok(replies, k + 1) || replies[k + 1].value == 0 {
        seq![Cmd::ReadReg(INTFA), Cmd::ReadReg(INTFB)]
    } else {
        seq![Cmd::ReadReg(INTFA), Cmd::ReadReg(INTFB), Cmd::Pause(500)]
    }
}

/// Replies one poll round consumes, starting at `k`.
pub open spec fn ponce_used(replies: Seq<Reply>, k: int) -> int {
    if !has_reply(replies, k) {
        0int
    } else if !replies[k].ok || replies[k].value == 0 {
        1int
    } else if !has_reply(replies, k + 1) {
        1int
    } else {
        2int
    }
}

/// How one poll round ends: done with `true` when either bank's flag byte
/// read zero, done with `false` when both were non-zero.
pub open spec fn ponce_step(replies: Seq<Reply>, k: int) -> Step<bool> {
    if !has_reply(replies, k) {
        Step::Starved
    } else if !replies[k].ok {
        Step::Fault
    } else if replies[k].value == 0 {
        Step::Done(true)
    } else if !has_reply(replies, k + 1) {
        Step::Starved
    } else if !replies[k + 1].ok {
        Step::Fault
    } else if replies[k + 1].value == 0 {
        Step::Done(true)
    } else {
        Step::Done(false)
    }
}

/// Commands of up to three poll rounds, each entered only when the one
/// before found both flag bytes non-zero.
pub open spec fn poll3_cmds(replies: Seq<Reply>, k: int) -> Seq<Cmd> {
    ponce_cmds(replies, k) + (match ponce_step(replies, k) {
        Step::Done(false) => {
            let k1 = k + ponce_used(replies, k);
            ponce_cmds(replies, k1) + (match ponce_step(replies, k1) {
                Step::Done(false) => ponce_cmds(replies, k1 + ponce_used(replies, k1)),
                _ => Seq::<Cmd>::empty(),
            })
        },
        _ => Seq::<Cmd>::empty(),
    })
}

/// Replies up to three poll rounds consume.
pub open spec fn poll3_used(replies: Seq<Reply>, k: int) -> int {
    ponce_used(replies, k) + (match ponce_step(replies, k) {
        Step::Done(false) => {
            let k1 = k + ponce_used(replies, k);
            ponce_used(replies, k1) + (match ponce_step(replies, k1) {
                Step::Done(false) => ponce_used(replies, k1 + ponce_used(replies, k1)),
                _ => 0int,
            })
        },
        _ => 0int,
    })
}

/// How up to three poll rounds end: done with `true` as soon as a round
/// sees a zero flag byte, done with `false` when all three rounds found
/// both bytes non-zero.
pub open spec fn poll3_step(replies: Seq<Reply>, k: int) -> Step<bool> {
    match ponce_step(replies, k) {
        Step::Done(false) => {
            let k1 = k + ponce_used(replies, k);
            match ponce_step(replies, k1) {
                Step::Done(false) => ponce_step(replies, k1 + ponce_used(replies, k1)),
                s => s,
            }
        },
        s => s,
    }
}

/// Commands of the forced clear: read GPIO A, then GPIO B.
pub open spec fn force_cmds(replies: Seq<Reply>, k: int) -> Seq<Cmd> {
    if !reply_ok(replies, k) {
        seq![Cmd::ReadReg(GPIOA)]
    } else {
        seq![Cmd::ReadReg(GPIOA), Cmd::ReadReg(GPIOB)]
    }
}

/// How the forced clear ends.
pub open spec fn force_step(replies: Seq<Reply>, k: int) -> Step<()> {
    if !has_reply(replies, k) {
        Step::Starved
    } else if !replies[k].ok {
        Step::Fault
    } else if !has_reply(replies, k + 1) {
        Step::Starved
    } else if !replies[k + 1].ok {
        Step::Fault
    } else {
        Step::Done(())
    }
}

/// Commands of the whole retry-then-force tail of `clear_interrupts`,
/// entered once a flag byte was seen non-zero.
pub open spec fn clear_tail_cmds(replies: Seq<Reply>, k: int) -> Seq<Cmd> {
    poll3_cmds(replies, k) + (match poll3_step(replies, k) {
        Step::Done(false) => force_cmds(replies, k + poll3_used(replies, k)),
        _ => Seq::<Cmd>::empty(),
    })
}

/// Outcome of the retry-then-force tail: success when a poll round saw a
/// zero flag byte; the distinguished forced-clear error when all three
/// rounds were exhausted and both GPIO reads went through.
pub open spec fn clear_tail_outcome(replies: Seq<Reply>, k: int) -> Progress<Result<(), Error>> {
    match poll3_step(replies, k) {
        Step::Starved => Progress::Pending,
        Step::Fault => Progress::Complete(Err(Error::Transport)),
        Step::Done(true) => Progress::Complete(Ok(())),
        Step::Done(false) => match force_step(replies, k + poll3_used(replies, k)) {
            Step::Starved => Progress::Pending,
            Step::Fault => Progress::Complete(Err(Error::Transport)),
            Step::Done(_) => Progress::Complete(Err(Error::InterruptsForcedClear)),
        },
    }
}

// ---------------------------------------------------------------------------
// Fixed scripts.
// ---------------------------------------------------------------------------

/// The reset sequence: both direction registers to all-input, outputs off,
/// pull-ups off, the shared configuration register cleared, every
/// interrupt register cleared, then both GPIO registers read to discharge
/// any latched interrupt.
pub open spec fn reset_script() -> Seq<Cmd> {
    seq![
        Cmd::WriteReg(IODIRA, 0xFF),
        Cmd::WriteReg(IODIRB, 0xFF),
        Cmd::WriteReg(GPIOA, 0x00),
        Cmd::WriteReg(GPIOB, 0x00),
        Cmd::WriteReg(GPPUA, 0x00),
        Cmd::WriteReg(GPPUB, 0x00),
        Cmd::WriteReg(IOCON, 0x00),
        Cmd::WriteReg(GPINTENA, 0x00),
        Cmd::WriteReg(GPINTENB, 0x00),
        Cmd::WriteReg(INTCONA, 0x00),
        Cmd::WriteReg(INTCONB, 0x00),
        Cmd::WriteReg(DEFVALA, 0x00),
        Cmd::WriteReg(DEFVALB, 0x00),
        Cmd::ReadReg(GPIOA),
        Cmd::ReadReg(GPIOB),
    ]
}

/// The construction sequence: read both direction registers, then run the
/// full reset.
pub open spec fn construct_script() -> Seq<Cmd> {
    seq![Cmd::ReadReg(IODIRA), Cmd::ReadReg(IODIRB)] + reset_script()
}

// ---------------------------------------------------------------------------
// Bit-codec laws.
// ---------------------------------------------------------------------------

/// Setting a bit that is already set, or clearing a bit that is already
/// clear, changes nothing more: changing the same bit to the same value
/// twice equals changing it once.
pub proof fn lemma_change_bit_idempotent(bitmap: u8, bit: u8, value: bool)
    ensures
        spec_change_bit(spec_change_bit(bitmap, bit, value), bit, value) == spec_change_bit(
            bitmap,
            bit,
            value,
        ),
{
    let m = 1u8 << bit;
    assert((bitmap | m) | m == bitmap | m) by (bit_vector);
    assert((bitmap & !m) & !m == bitmap & !m) by (bit_vector);
}

/// Changing one bit gives that bit the requested value and leaves the
/// other seven exactly as they were.
pub proof fn lemma_change_bit_effect(bitmap: u8, bit: u8, value: bool, j: u8)
    requires
        bit < 8,
        j < 8,
    ensures
        bit_set(spec_change_bit(bitmap, bit, value), bit) == value,
        j != bit ==> bit_set(spec_change_bit(bitmap, bit, value), j) == bit_set(bitmap, j),
{
    assert((bitmap | (1u8 << bit)) & (1u8 << bit) != 0) by (bit_vector)
        requires
            bit < 8,
    ;
    assert((bitmap & !(1u8 << bit)) & (1u8 << bit) == 0) by (bit_vector)
        requires
            bit < 8,
    ;
    assert(j != bit ==> ((bitmap | (1u8 << bit)) & (1u8 << j) == bitmap & (1u8 << j))) by (
    bit_vector)
        requires
            bit < 8,
            j < 8,
    ;
    assert(j != bit ==> ((bitmap & !(1u8 << bit)) & (1u8 << j) == bitmap & (1u8 << j))) by (
    bit_vector)
        requires
            bit < 8,
            j < 8,
    ;
}

/// With a known current value, a read-modify-write issues no read at all:
/// its transcript is exactly one write of the changed byte.
pub proof fn lemma_known_current_write_only(
    reg: u8,
    bit: u8,
    value: bool,
    c: u8,
    replies: Seq<Reply>,
    k: int,
)
    ensures
        rmw_cmds(reg, bit, value, Some(c), replies, k) == seq![
            Cmd::WriteReg(reg, spec_change_bit(c, bit, value)),
        ],
{
}

// ---------------------------------------------------------------------------
// Executable helpers.
// ---------------------------------------------------------------------------

/// One byte with one bit forced to the given value.
fn set_bit_in(bitmap: u8, bit: u8, value: bool) -> (r: u8)
    requires
        bit < 8,
    ensures
        r == spec_change_bit(bitmap, bit, value),
{
    if value {
        bitmap | (1u8 << bit)
    } else {
        bitmap & !(1u8 << bit)
    }
}

/// Position of the highest set bit of a non-zero byte.
pub fn floor_log2(v: u8) -> (r: u8)
    ensures
        r == spec_floor_log2(v),
        r < 8,
{
    if v >= 128 {
        7
    } else if v >= 64 {
        6
    } else if v >= 32 {
        5
    } else if v >= 16 {
        4
    } else if v >= 8 {
        3
    } else if v >= 4 {
        2
    } else if v >= 2 {
        1
    } else {
        0
    }
}

/// Run one read-modify-write against the session.
fn do_rmw(
    sess: &mut Session,
    replies: &Vec<Reply>,
    reg: u8,
    bit: u8,
    value: bool,
    cur: Option<u8>,
) -> (r: Result<u8, Stop>)
    requires
        bit < 8,
        old(sess).idx <= replies@.len(),
    ensures
        final(sess).idx <= replies@.len(),
        final(sess).cmds@ == old(sess).cmds@ + rmw_cmds(
            reg,
            bit,
            value,
            cur,
            replies@,
            old(sess).idx as int,
        ),
        final(sess).idx == old(sess).idx + rmw_used(cur, replies@, old(sess).idx as int),
        ({
            let s = rmw_step(bit, value, cur, replies@, old(sess).idx as int);
            match r {
                Ok(b) => s == Step::Done(b),
                Err(Stop::Fault) => s is Fault,
                Err(Stop::Starved) => s is Starved,
            }
        }),
{
    let ghost c0 = sess.cmds@;
    let ghost k = sess.idx as int;
    let cur_value: u8;
    match cur {
        Some(c) => {
            cur_value = c;
        },
        None => {
            match sess.read(replies, reg) {
                Ok(v) => {
                    cur_value = v;
                },
                Err(e) => {
                    proof {
                        assert(sess.cmds@ =~= c0 + rmw_cmds(reg, bit, value, cur, replies@, k));
                    }
                    return Err(e);
                },
            }
        },
    }
    let new_value = set_bit_in(cur_value, bit, value);
    let r = sess.write(replies, reg, new_value);
    proof {
        assert(sess.cmds@ =~= c0 + rmw_cmds(reg, bit, value, cur, replies@, k));
    }
    match r {
        Ok(_) => Ok(new_value),
        Err(e) => Err(e),
    }
}

/// Run one interrupt-register read against the session.
fn do_irr(sess: &mut Session, replies: &Vec<Reply>, bank: Bank) -> (r: Result<
    Option<(Pin, State)>,
    Stop,
>)
    requires
        old(sess).idx <= replies@.len(),
    ensures
        final(sess).idx <= replies@.len(),
        final(sess).cmds@ == old(sess).cmds@ + irr_cmds(bank, replies@, old(sess).idx as int),
        final(sess).idx == old(sess).idx + irr_used(replies@, old(sess).idx as int),
        ({
            let s = irr_step(replies@, old(sess).idx as int);
            match r {
                Ok(o) => s == Step::Done(o),
                Err(Stop::Fault) => s is Fault,
                Err(Stop::Starved) => s is Starved,
            }
        }),
{
    let ghost c0 = sess.cmds@;
    let ghost k = sess.idx as int;
    let reg = match bank {
        Bank::A => INTFA,
        Bank::B => INTFB,
    };
    let cap_reg = match bank {
        Bank::A => INTCAPA,
        Bank::B => INTCAPB,
    };
    let intf = match sess.read(replies, reg) {
        Ok(v) => v,
        Err(e) => {
            proof {
                assert(sess.cmds@ =~= c0 + irr_cmds(bank, replies@, k));
            }
            return Err(e);
        },
    };
    if intf == 0 {
        proof {
            assert(sess.cmds@ =~= c0 + irr_cmds(bank, replies@, k));
        }
        return Ok(None);
    }
    let cap = match sess.read(replies, cap_reg) {
        Ok(v) => v,
        Err(e) => {
            proof {
                assert(sess.cmds@ =~= c0 + irr_cmds(bank, replies@, k));
            }
            return Err(e);
        },
    };
    proof {
        assert(sess.cmds@ =~= c0 + irr_cmds(bank, replies@, k));
    }
    let bit = floor_log2(intf);
    if let Some(pin) = Pin::new(bit) {
        let level = State::from_bool(cap & (1u8 << bit) != 0);
        Ok(Some((pin, level)))
    } else {
        proof {
            assert(false);
        }
        Ok(None)
    }
}

/// Run one poll round of the interrupt-clear loop against the session.
fn poll_once(sess: &mut Session, replies: &Vec<Reply>) -> (r: Result<bool, Stop>)
    requires
        old(sess).idx <= replies@.len(),
    ensures
        final(sess).idx <= replies@.len(),
        final(sess).cmds@ == old(sess).cmds@ + ponce_cmds(replies@, old(sess).idx as int),
        final(sess).idx == old(sess).idx + ponce_used(replies@, old(sess).idx as int),
        ({
            let s = ponce_step(replies@, old(sess).idx as int);
            match r {
                Ok(b) => s == Step::Done(b),
                Err(Stop::Fault) => s is Fault,
                Err(Stop::Starved) => s is Starved,
            }
        }),
{
    let ghost c0 = sess.cmds@;
    let ghost k = sess.idx as int;
    let a = match sess.read(replies, INTFA) {
        Ok(v) => v,
        Err(e) => {
            proof {
                assert(sess.cmds@ =~= c0 + ponce_cmds(replies@, k));
            }
            return Err(e);
        },
    };
    if a == 0 {
        proof {
            assert(sess.cmds@ =~= c0 + ponce_cmds(replies@, k));
        }
        return Ok(true);
    }
    let b = match sess.read(replies, INTFB) {
        Ok(v) => v,
        Err(e) => {
            proof {
                assert(sess.cmds@ =~= c0 + ponce_cmds(replies@, k));
            }
            return Err(e);
        },
    };
    if b == 0 {
        proof {
            assert(sess.cmds@ =~= c0 + ponce_cmds(replies@, k));
        }
        return Ok(true);
    }
    sess.pause(500);
    proof {
        assert(sess.cmds@ =~= c0 + ponce_cmds(replies@, k));
    }
    Ok(false)
}

/// Run the retry-then-force tail of `clear_interrupts` against the
/// session.
fn do_clear_tail(sess: &mut Session, replies: &Vec<Reply>) -> (r: Progress<Result<(), Error>>)
    requires
        old(sess).idx <= replies@.len(),
    ensures
        final(sess).idx <= replies@.len(),
        final(sess).cmds@ == old(sess).cmds@ + clear_tail_cmds(replies@, old(sess).idx as int),
        r == clear_tail_outcome(replies@, old(sess).idx as int),
{
    let ghost c0 = sess.cmds@;
    let ghost k = sess.idx as int;
    match poll_once(sess, replies) {
        Err(Stop::Starved) => {
            proof {
                assert(sess.cmds@ =~= c0 + clear_tail_cmds(replies@, k));
            }
            return Progress::Pending;
        },
        Err(Stop::Fault) => {
            proof {
                assert(sess.cmds@ =~= c0 + clear_tail_cmds(replies@, k));
            }
            return Progress::Complete(Err(Error::Transport));
        },
        Ok(true) => {
            proof {
                assert(sess.cmds@ =~= c0 + clear_tail_cmds(replies@, k));
            }
            return Progress::Complete(Ok(()));
        },
        Ok(false) => {},
    }
    match poll_once(sess, replies) {
        Err(Stop::Starved) => {
            proof {
                assert(sess.cmds@ =~= c0 + clear_tail_cmds(replies@, k));
            }
            return Progress::Pending;
        },
        Err(Stop::Fault) => {
            proof {
                assert(sess.cmds@ =~= c0 + clear_tail_cmds(replies@, k));
            }
            return Progress::Complete(Err(Error::Transport));
        },
        Ok(true) => {
            proof {
                assert(sess.cmds@ =~= c0 + clear_tail_cmds(replies@, k));
            }
            return Progress::Complete(Ok(()));
        },
        Ok(false) => {},
    }
    match poll_once(sess, replies) {
        Err(Stop::Starved) => {
            proof {
                assert(sess.cmds@ =~= c0 + clear_tail_cmds(replies@, k));
            }
            return Progress::Pending;
        },
        Err(Stop::Fault) => {
            proof {
                assert(sess.cmds@ =~= c0 + clear_tail_cmds(replies@, k));
            }
            return Progress::Complete(Err(Error::Transport));
        },
        Ok(true) => {
            proof {
                assert(sess.cmds@ =~= c0 + clear_tail_cmds(replies@, k));
            }
            return Progress::Complete(Ok(()));
        },
        Ok(false) => {},
    }
    match sess.read(replies, GPIOA) {
        Ok(_) => {},
        Err(Stop::Starved) => {
            proof {
                assert(sess.cmds@ =~= c0 + clear_tail_cmds(replies@, k));
            }
            return Progress::Pending;
        },
        Err(Stop::Fault) => {
            proof {
                assert(sess.cmds@ =~= c0 + clear_tail_cmds(replies@, k));
            }
            return Progress::Complete(Err(Error::Transport));
        },
    }
    match sess.read(replies, GPIOB) {
        Ok(_) => {},
        Err(Stop::Starved) => {
            proof {
                assert(sess.cmds@ =~= c0 + clear_tail_cmds(replies@, k));
            }
            return Progress::Pending;
        },
        Err(Stop::Fault) => {
            proof {
                assert(sess.cmds@ =~= c0 + clear_tail_cmds(replies@, k));
            }
            return Progress::Complete(Err(Error::Transport));
        },
    }
    proof {
        assert(sess.cmds@ =~= c0 + clear_tail_cmds(replies@, k));
    }
    Progress::Complete(Err(Error::InterruptsForcedClear))
}

// ---------------------------------------------------------------------------
// The device.
// ---------------------------------------------------------------------------

/// The expander's cached state.  The hardware registers stay authoritative;
/// the cache only spares a bus round-trip when an operation's mode guard is
/// checked.
#[derive(Clone, Copy, Debug, PartialEq, Eq)]
pub struct MCP23017 {
    /// Cached sixteen-bit direction word: bank A in the low byte, bank B in
    /// the high byte; a set bit means the pin is an input.  Updated only by
    /// a successful `pin_mode`.
    pub direction: u16,
    /// Whether interrupt mirroring was switched on by the last successful
    /// `config_system_interrupt`.
    pub mirrored: Feature,
}

impl MCP23017 {
    /// A byte with one pin's bit set or cleared, all other bits untouched.
    pub fn change_bit(bitmap: u8, pin: &Pin, value: bool) -> (r: u8)
        requires
            pin.wf(),
        ensures
            r == spec_change_bit(bitmap, pin.pin, value),
    {
        set_bit_in(bitmap, pin.pin, value)
    }

    /// Construct the device: read both direction registers, run the full
    /// reset, and start with every pin recorded as an input and mirroring
    /// off.
    pub fn new(replies: &Vec<Reply>) -> (r: (Vec<Cmd>, Progress<Result<MCP23017, Error>>))
        ensures
            ({
                let r0 = replies@;
                let s = construct_script();
                let n = s.len() as int;
                if all_ok(r0, 0, n) {
                    &&& r.0@ == s
                    &&& r.1 == Progress::<Result<MCP23017, Error>>::Complete(
                        Ok(MCP23017 { direction: 0xFFFF, mirrored: Feature::Off }),
                    )
                } else if r0.len() < n && all_ok(r0, 0, r0.len() as int) {
                    &&& r.0@ == s.take(r0.len() as int + 1)
                    &&& r.1 == Progress::<Result<MCP23017, Error>>::Pending
                } else {
                    let j = r.0@.len() - 1;
                    &&& 0 <= j < n
                    &&& all_ok(r0, 0, j)
                    &&& has_reply(r0, j)
                    &&& !r0[j].ok
                    &&& r.0@ == s.take(j + 1)
                    &&& r.1 == Progress::<Result<MCP23017, Error>>::Complete(Err(Error::Transport))
                }
            }),
    {
        let mut script: Vec<Cmd> = Vec::new();
        script.push(Cmd::ReadReg(IODIRA));
        script.push(Cmd::ReadReg(IODIRB));
        push_reset_script(&mut script);
        proof {
            assert(script@ =~= construct_script());
        }
        let mut sess = Session::new();
        let r = run_script(&mut sess, replies, &script);
        proof {
            let s = construct_script();
            let r0 = replies@;
            match r {
                Ok(_) => {
                    assert(sess.cmds@ =~= s);
                },
                Err(Stop::Fault) => {
                    assert(!reply_ok(r0, sess.idx - 1));
                    assert(sess.cmds@ =~= s.take(sess.idx as int));
                },
                Err(Stop::Starved) => {
                    assert(!reply_ok(r0, r0.len() as int));
                    assert(sess.cmds@ =~= s.take(r0.len() as int + 1));
                },
            }
        }
        let outcome = match r {
            Ok(_) => Progress::Complete(Ok(MCP23017 { direction: 0xFFFF, mirrored: Feature::Off })),
            Err(Stop::Fault) => Progress::Complete(Err(Error::Transport)),
            Err(Stop::Starved) => Progress::Pending,
        };
        (sess.cmds, outcome)
    }

    /// The single mutation primitive: change one pin's bit inside a
    /// register.  With a known current value no read is issued at all —
    /// the transcript is exactly one write of the changed byte; without
    /// one, the register is read first.  Returns the byte that was
    /// written.
    pub fn read_and_change_pin(
        &self,
        register: u8,
        pin: &Pin,
        value: bool,
        cur_value: Option<u8>,
        replies: &Vec<Reply>,
    ) -> (r: (Vec<Cmd>, Progress<Result<u8, Error>>))
        requires
            pin.wf(),
        ensures
            r.0@ == rmw_cmds(register, pin.pin, value, cur_value, replies@, 0),
            r.1 == progress_of(rmw_step(pin.pin, value, cur_value, replies@, 0)),
    {
        let mut sess = Session::new();
        let r = do_rmw(&mut sess, replies, register, pin.pin, value, cur_value);
        let outcome = match r {
            Ok(b) => Progress::Complete(Ok(b)),
            Err(Stop::Fault) => Progress::Complete(Err(Error::Transport)),
            Err(Stop::Starved) => Progress::Pending,
        };
        (sess.cmds, outcome)
    }

    /// Set the pull-up resistor of one pin.  One read-modify-write of the
    /// bank's pull-up register; the written byte is returned shifted into
    /// the pin's bank position of a sixteen-bit word (the other bank's
    /// half is left zero for the caller to combine).
    pub fn pull_up(&self, pin: &Pin, value: State, replies: &Vec<Reply>) -> (r: (
        Vec<Cmd>,
        Progress<Result<u16, Error>>,
    ))
        requires
            pin.wf(),
        ensures
            r.0@ == rmw_cmds(gppu_reg(pin.bank), pin.pin, value.spec_as_bool(), None, replies@, 0),
            ({
                let s = rmw_step(pin.pin, value.spec_as_bool(), None, replies@, 0);
                match s {
                    Step::Starved => r.1 == Progress::<Result<u16, Error>>::Pending,
                    Step::Fault => r.1 == Progress::<Result<u16, Error>>::Complete(
                        Err(Error::Transport),
                    ),
                    Step::Done(b) => r.1 == Progress::<Result<u16, Error>>::Complete(
                        Ok(((b as u16) << pin.shift) as u16),
                    ),
                }
            }),
    {
        let reg = match pin.bank {
            Bank::A => GPPUA,
            Bank::B => GPPUB,
        };
        let mut sess = Session::new();
        let r = do_rmw(&mut sess, replies, reg, pin.pin, value.as_bool(), None);
        let outcome = match r {
            Ok(b) => Progress::Complete(Ok((b as u16) << pin.shift)),
            Err(Stop::Fault) => Progress::Complete(Err(Error::Transport)),
            Err(Stop::Starved) => Progress::Pending,
        };
        (sess.cmds, outcome)
    }

    /// Set one pin to input or output.  One read-modify-write of the
    /// bank's direction register; on success the cached direction word is
    /// updated with the written byte and returned.
    pub fn pin_mode(&mut self, pin: &Pin, mode: Mode, replies: &Vec<Reply>) -> (r: (
        Vec<Cmd>,
        Progress<Result<u16, Error>>,
    ))
        requires
            pin.wf(),
        ensures
            r.0@ == rmw_cmds(iodir_reg(pin.bank), pin.pin, mode.spec_as_bool(), None, replies@, 0),
            final(self).mirrored == old(self).mirrored,
            ({
                let s = rmw_step(pin.pin, mode.spec_as_bool(), None, replies@, 0);
                match s {
                    Step::Starved => final(self).direction == old(self).direction && r.1
                        == Progress::<Result<u16, Error>>::Pending,
                    Step::Fault => final(self).direction == old(self).direction && r.1
                        == Progress::<Result<u16, Error>>::Complete(Err(Error::Transport)),
                    Step::Done(b) => final(self).direction == pin.spec_apply_u16(
                        old(self).direction,
                        b,
                    ) && r.1 == Progress::<Result<u16, Error>>::Complete(
                        Ok(final(self).direction),
                    ),
                }
            }),
    {
        let reg = match pin.bank {
            Bank::A => IODIRA,
            Bank::B => IODIRB,
        };
        let mut sess = Session::new();
        let r = do_rmw(&mut sess, replies, reg, pin.pin, mode.as_bool(), None);
        let outcome = match r {
            Ok(b) => {
                self.direction = pin.apply_u16(self.direction, b);
                Progress::Complete(Ok(self.direction))
            },
            Err(Stop::Fault) => Progress::Complete(Err(Error::Transport)),
            Err(Stop::Starved) => Progress::Pending,
        };
        (sess.cmds, outcome)
    }

    /// Drive one pin's output latch high or low.  The call is refused with
    /// `WrongMode` when the cached direction word records the pin as an
    /// input (its direction bit is set), without a bus round-trip: only a
    /// pin configured as an output may be driven.  Otherwise the bank's
    /// output latch is read first as a best-effort known-current value (a
    /// failed latch
    /// read is tolerated and falls back to a read inside the
    /// read-modify-write), then the bank's GPIO register is written.
    pub fn output(&self, pin: &Pin, value: State, replies: &Vec<Reply>) -> (r: (
        Vec<Cmd>,
        Progress<Result<u8, Error>>,
    ))
        requires
            pin.wf(),
        ensures
            ({
                let r0 = replies@;
                let olat = olat_reg(pin.bank);
                let gpio = gpio_reg(pin.bank);
                if pin.spec_mode(self.direction) is Input {
                    &&& r.0@ == Seq::<Cmd>::empty()
                    &&& r.1 == Progress::<Result<u8, Error>>::Complete(
                        Err(Error::WrongMode(*pin)),
                    )
                } else if !has_reply(r0, 0) {
                    &&& r.0@ == seq![Cmd::ReadReg(olat)]
                    &&& r.1 == Progress::<Result<u8, Error>>::Pending
                } else {
                    let cur: Option<u8> = if r0[0].ok {
                        Some(r0[0].value)
                    } else {
                        None
                    };
                    &&& r.0@ == seq![Cmd::ReadReg(olat)] + rmw_cmds(
                        gpio,
                        pin.pin,
                        value.spec_as_bool(),
                        cur,
                        r0,
                        1,
                    )
                    &&& r.1 == progress_of(rmw_step(pin.pin, value.spec_as_bool(), cur, r0, 1))
                }
            }),
    {
        if matches!(pin.mode(self.direction), Mode::Input) {
            return (Vec::new(), Progress::Complete(Err(Error::WrongMode(*pin))));
        }
        let olat = match pin.bank {
            Bank::A => OLATA,
            Bank::B => OLATB,
        };
        let gpio = match pin.bank {
            Bank::A => GPIOA,
            Bank::B => GPIOB,
        };
        let mut sess = Session::new();
        let cur: Option<u8> = match sess.read(replies, olat) {
            Ok(v) => Some(v),
            Err(Stop::Fault) => None,
            Err(Stop::Starved) => {
                return (sess.cmds, Progress::Pending);
            },
        };
        let r = do_rmw(&mut sess, replies, gpio, pin.pin, value.as_bool(), cur);
        let outcome = match r {
            Ok(b) => Progress::Complete(Ok(b)),
            Err(Stop::Fault) => Progress::Complete(Err(Error::Transport)),
            Err(Stop::Starved) => Progress::Pending,
        };
        (sess.cmds, outcome)
    }

    /// Read one pin's level.  The call is refused with `WrongMode` when
    /// the pin is not recorded as an input; otherwise the bank's GPIO
    /// register is read once and the pin's bit extracted.
    pub fn input(&self, pin: &Pin, replies: &Vec<Reply>) -> (r: (
        Vec<Cmd>,
        Progress<Result<State, Error>>,
    ))
        requires
            pin.wf(),
        ensures
            ({
                let r0 = replies@;
                let gpio = gpio_reg(pin.bank);
                if pin.spec_mode(self.direction) is Output {
                    &&& r.0@ == Seq::<Cmd>::empty()
                    &&& r.1 == Progress::<Result<State, Error>>::Complete(
                        Err(Error::WrongMode(*pin)),
                    )
                } else if !has_reply(r0, 0) {
                    &&& r.0@ == seq![Cmd::ReadReg(gpio)]
                    &&& r.1 == Progress::<Result<State, Error>>::Pending
                } else if !r0[0].ok {
                    &&& r.0@ == seq![Cmd::ReadReg(gpio)]
                    &&& r.1 == Progress::<Result<State, Error>>::Complete(Err(Error::Transport))
                } else {
                    &&& r.0@ == seq![Cmd::ReadReg(gpio)]
                    &&& r.1 == Progress::<Result<State, Error>>::Complete(
                        Ok(
                            if bit_set(r0[0].value, pin.pin) {
                                State::High
                            } else {
                                State::Low
                            },
                        ),
                    )
                }
            }),
    {
        if matches!(pin.mode(self.direction), Mode::Output) {
            return (Vec::new(), Progress::Complete(Err(Error::WrongMode(*pin))));
        }
        self.read_gpio_bit(pin, replies)
    }

    /// Read one pin's level with no mode guard at all, for the cases where
    /// the check must be bypassed.
    pub fn current_val(&self, pin: &Pin, replies: &Vec<Reply>) -> (r: (
        Vec<Cmd>,
        Progress<Result<State, Error>>,
    ))
        requires
            pin.wf(),
        ensures
            ({
                let r0 = replies@;
                let gpio = gpio_reg(pin.bank);
                if !has_reply(r0, 0) {
                    &&& r.0@ == seq![Cmd::ReadReg(gpio)]
                    &&& r.1 == Progress::<Result<State, Error>>::Pending
                } else if !r0[0].ok {
                    &&& r.0@ == seq![Cmd::ReadReg(gpio)]
                    &&& r.1 == Progress::<Result<State, Error>>::Complete(Err(Error::Transport))
                } else {
                    &&& r.0@ == seq![Cmd::ReadReg(gpio)]
                    &&& r.1 == Progress::<Result<State, Error>>::Complete(
                        Ok(
                            if bit_set(r0[0].value, pin.pin) {
                                State::High
                            } else {
                                State::Low
                            },
                        ),
                    )
                }
            }),
    {
        self.read_gpio_bit(pin, replies)
    }

    /// Shared body of `input` and `current_val`: one GPIO read and a bit
    /// extraction.
    fn read_gpio_bit(&self, pin: &Pin, replies: &Vec<Reply>) -> (r: (
        Vec<Cmd>,
        Progress<Result<State, Error>>,
    ))
        requires
            pin.wf(),
        ensures
            ({
                let r0 = replies@;
                let gpio = gpio_reg(pin.bank);
                if !has_reply(r0, 0) {
                    &&& r.0@ == seq![Cmd::ReadReg(gpio)]
                    &&& r.1 == Progress::<Result<State, Error>>::Pending
                } else if !r0[0].ok {
                    &&& r.0@ == seq![Cmd::ReadReg(gpio)]
                    &&& r.1 == Progress::<Result<State, Error>>::Complete(Err(Error::Transport))
                } else {
                    &&& r.0@ == seq![Cmd::ReadReg(gpio)]
                    &&& r.1 == Progress::<Result<State, Error>>::Complete(
                        Ok(
                            if bit_set(r0[0].value, pin.pin) {
                                State::High
                            } else {
                                State::Low
                            },
                        ),
                    )
                }
            }),
    {
        let gpio = match pin.bank {
            Bank::A => GPIOA,
            Bank::B => GPIOB,
        };
        let mut sess = Session::new();
        let outcome = match sess.read(replies, gpio) {
            Ok(v) => Progress::Complete(Ok(State::from_bool(v & (1u8 << pin.pin) != 0))),
            Err(Stop::Fault) => Progress::Complete(Err(Error::Transport)),
            Err(Stop::Starved) => Progress::Pending,
        };
        (sess.cmds, outcome)
    }

    /// Configure the shared system-interrupt settings: one read of the
    /// shared IOCON register, then one write with the mirror and polarity
    /// bits changed.  On success the mirror setting is cached.
    pub fn config_system_interrupt(
        &mut self,
        mirror: Feature,
        intpol: State,
        replies: &Vec<Reply>,
    ) -> (r: (Vec<Cmd>, Progress<Result<(), Error>>))
        ensures
            final(self).direction == old(self).direction,
            ({
                let r0 = replies@;
                if !has_reply(r0, 0) {
                    &&& r.0@ == seq![Cmd::ReadReg(IOCON)]
                    &&& r.1 == Progress::<Result<(), Error>>::Pending
                    &&& *final(self) == *old(self)
                } else if !r0[0].ok {
                    &&& r.0@ == seq![Cmd::ReadReg(IOCON)]
                    &&& r.1 == Progress::<Result<(), Error>>::Complete(Err(Error::Transport))
                    &&& *final(self) == *old(self)
                } else {
                    let nb = spec_change_bit(
                        spec_change_bit(r0[0].value, IOCON_MIRROR_BIT, mirror.spec_as_bool()),
                        IOCON_INTPOL_BIT,
                        intpol.spec_as_bool(),
                    );
                    &&& r.0@ == seq![Cmd::ReadReg(IOCON), Cmd::WriteReg(IOCON, nb)]
                    &&& (if !has_reply(r0, 1) {
                        r.1 == Progress::<Result<(), Error>>::Pending && *final(self) == *old(self)
                    } else if !r0[1].ok {
                        r.1 == Progress::<Result<(), Error>>::Complete(Err(Error::Transport))
                            && *final(self) == *old(self)
                    } else {
                        r.1 == Progress::<Result<(), Error>>::Complete(Ok(())) && final(self).mirrored == mirror
                    })
                }
            }),
    {
        let mut sess = Session::new();
        let cur = match sess.read(replies, IOCON) {
            Ok(v) => v,
            Err(Stop::Fault) => {
                return (sess.cmds, Progress::Complete(Err(Error::Transport)));
            },
            Err(Stop::Starved) => {
                return (sess.cmds, Progress::Pending);
            },
        };
        let with_mirror = set_bit_in(cur, IOCON_MIRROR_BIT, mirror.as_bool());
        let with_intpol = set_bit_in(with_mirror, IOCON_INTPOL_BIT, intpol.as_bool());
        let outcome = match sess.write(replies, IOCON, with_intpol) {
            Ok(_) => {
                self.mirrored = mirror;
                Progress::Complete(Ok(()))
            },
            Err(Stop::Fault) => Progress::Complete(Err(Error::Transport)),
            Err(Stop::Starved) => Progress::Pending,
        };
        (sess.cmds, outcome)
    }

    /// Configure one pin's interrupt-on-change behaviour.  The call is
    /// refused with `WrongMode` when the cached direction word records the
    /// pin as an output (its direction bit is clear), without a bus
    /// round-trip: interrupt-on-change watches input pins.  Otherwise
    /// three independent read-modify-writes run in order on the bank's
    /// registers: the
    /// interrupt enable, the compare mode, and the default comparison
    /// value (written whether or not the compare mode needs it, defaulting
    /// to low).  No atomicity across the three is provided.
    pub fn config_pin_interrupt(
        &self,
        pin: &Pin,
        enabled: Feature,
        compare_mode: Compare,
        defval: Option<State>,
        replies: &Vec<Reply>,
    ) -> (r: (Vec<Cmd>, Progress<Result<(), Error>>))
        requires
            pin.wf(),
        ensures
            ({
                let r0 = replies@;
                let v1 = enabled.spec_as_bool();
                let v2 = compare_mode.spec_as_bool();
                let v3 = (match defval {
                    Some(s) => s,
                    None => State::Low,
                }).spec_as_bool();
                if pin.spec_mode(self.direction) is Output {
                    &&& r.0@ == Seq::<Cmd>::empty()
                    &&& r.1 == Progress::<Result<(), Error>>::Complete(
                        Err(Error::WrongMode(*pin)),
                    )
                } else {
                    let c1 = rmw_cmds(gpinten_reg(pin.bank), pin.pin, v1, None, r0, 0);
                    let u1 = rmw_used(None, r0, 0);
                    match rmw_step(pin.pin, v1, None, r0, 0) {
                        Step::Starved => r.0@ == c1 && r.1 == Progress::<Result<(), Error>>::Pending,
                        Step::Fault => r.0@ == c1 && r.1 == Progress::<Result<(), Error>>::Complete(
                            Err(Error::Transport),
                        ),
                        Step::Done(_) => {
                            let c2 = rmw_cmds(intcon_reg(pin.bank), pin.pin, v2, None, r0, u1);
                            let u2 = rmw_used(None, r0, u1);
                            match rmw_step(pin.pin, v2, None, r0, u1) {
                                Step::Starved => r.0@ == c1 + c2 && r.1 == Progress::<
                                    Result<(), Error>,
                                >::Pending,
                                Step::Fault => r.0@ == c1 + c2 && r.1 == Progress::<
                                    Result<(), Error>,
                                >::Complete(Err(Error::Transport)),
                                Step::Done(_) => {
                                    let c3 = rmw_cmds(
                                        defval_reg(pin.bank),
                                        pin.pin,
                                        v3,
                                        None,
                                        r0,
                                        u1 + u2,
                                    );
                                    &&& r.0@ == c1 + c2 + c3
                                    &&& r.1 == (match rmw_step(pin.pin, v3, None, r0, u1 + u2) {
                                        Step::Starved => Progress::<Result<(), Error>>::Pending,
                                        Step::Fault => Progress::<Result<(), Error>>::Complete(
                                            Err(Error::Transport),
                                        ),
                                        Step::Done(_) => Progress::<Result<(), Error>>::Complete(
                                            Ok(()),
                                        ),
                                    })
                                },
                            }
                        },
                    }
                }
            }),
    {
        if matches!(pin.mode(self.direction), Mode::Output) {
            return (Vec::new(), Progress::Complete(Err(Error::WrongMode(*pin))));
        }
        let en_reg = match pin.bank {
            Bank::A => GPINTENA,
            Bank::B => GPINTENB,
        };
        let con_reg = match pin.bank {
            Bank::A => INTCONA,
            Bank::B => INTCONB,
        };
        let def_reg = match pin.bank {
            Bank::A => DEFVALA,
            Bank::B => DEFVALB,
        };
        let def_state = match defval {
            Some(s) => s,
            None => State::Low,
        };
        let mut sess = Session::new();
        match do_rmw(&mut sess, replies, en_reg, pin.pin, enabled.as_bool(), None) {
            Ok(_) => {},
            Err(Stop::Fault) => {
                return (sess.cmds, Progress::Complete(Err(Error::Transport)));
            },
            Err(Stop::Starved) => {
                return (sess.cmds, Progress::Pending);
            },
        }
        match do_rmw(&mut sess, replies, con_reg, pin.pin, compare_mode.as_bool(), None) {
            Ok(_) => {},
            Err(Stop::Fault) => {
                return (sess.cmds, Progress::Complete(Err(Error::Transport)));
            },
            Err(Stop::Starved) => {
                return (sess.cmds, Progress::Pending);
            },
        }
        match do_rmw(&mut sess, replies, def_reg, pin.pin, def_state.as_bool(), None) {
            Ok(_) => {},
            Err(Stop::Fault) => {
                return (sess.cmds, Progress::Complete(Err(Error::Transport)));
            },
            Err(Stop::Starved) => {
                return (sess.cmds, Progress::Pending);
            },
        }
        (sess.cmds, Progress::Complete(Ok(())))
    }

    /// Read one bank's interrupt state: the interrupt-flag byte, and when
    /// a pin fired, the captured level of the reported pin.  The reported
    /// pin is the highest set flag bit; simultaneous interrupts below it
    /// are not reported.
    pub fn read_interrupt_register(&self, port: Bank, replies: &Vec<Reply>) -> (r: (
        Vec<Cmd>,
        Progress<Result<Option<(Pin, State)>, Error>>,
    ))
        ensures
            r.0@ == irr_cmds(port, replies@, 0),
            r.1 == progress_of(irr_step(replies@, 0)),
    {
        let mut sess = Session::new();
        let r = do_irr(&mut sess, replies, port);
        let outcome = match r {
            Ok(o) => Progress::Complete(Ok(o)),
            Err(Stop::Fault) => Progress::Complete(Err(Error::Transport)),
            Err(Stop::Starved) => Progress::Pending,
        };
        (sess.cmds, outcome)
    }

    /// Service an interrupt.  With mirroring off only the requested bank
    /// is read and its errors propagate.  With mirroring on, bank A is
    /// read first; only when it reports nothing is bank B read, and a
    /// failed bank B read is swallowed as "no interrupt" rather than
    /// masking bank A's empty result.
    pub fn read_interrupt(&self, port: Bank, replies: &Vec<Reply>) -> (r: (
        Vec<Cmd>,
        Progress<Result<Option<(Pin, State)>, Error>>,
    ))
        ensures
            ({
                let r0 = replies@;
                if self.mirrored is On {
                    let cA = irr_cmds(Bank::A, r0, 0);
                    let uA = irr_used(r0, 0);
                    match irr_step(r0, 0) {
                        Step::Starved => r.0@ == cA && r.1 == Progress::<
                            Result<Option<(Pin, State)>, Error>,
                        >::Pending,
                        Step::Fault => r.0@ == cA && r.1 == Progress::<
                            Result<Option<(Pin, State)>, Error>,
                        >::Complete(Err(Error::Transport)),
                        Step::Done(o) => match o {
                            Some(ps) => r.0@ == cA && r.1 == Progress::<
                                Result<Option<(Pin, State)>, Error>,
                            >::Complete(Ok(Some(ps))),
                            None => {
                                let cB = irr_cmds(Bank::B, r0, uA);
                                &&& r.0@ == cA + cB
                                &&& r.1 == (match irr_step(r0, uA) {
                                    Step::Starved => Progress::<
                                        Result<Option<(Pin, State)>, Error>,
                                    >::Pending,
                                    Step::Fault => Progress::<
                                        Result<Option<(Pin, State)>, Error>,
                                    >::Complete(Ok(None)),
                                    Step::Done(o2) => Progress::<
                                        Result<Option<(Pin, State)>, Error>,
                                    >::Complete(Ok(o2)),
                                })
                            },
                        },
                    }
                } else {
                    r.0@ == irr_cmds(port, r0, 0) && r.1 == progress_of(irr_step(r0, 0))
                }
            }),
    {
        match self.mirrored {
            Feature::On => {
                let mut sess = Session::new();
                match do_irr(&mut sess, replies, Bank::A) {
                    Ok(Some(ps)) => (sess.cmds, Progress::Complete(Ok(Some(ps)))),
                    Ok(None) => {
                        let outcome = match do_irr(&mut sess, replies, Bank::B) {
                            Ok(o2) => Progress::Complete(Ok(o2)),
                            Err(Stop::Fault) => Progress::Complete(Ok(None)),
                            Err(Stop::Starved) => Progress::Pending,
                        };
                        (sess.cmds, outcome)
                    },
                    Err(Stop::Fault) => (sess.cmds, Progress::Complete(Err(Error::Transport))),
                    Err(Stop::Starved) => (sess.cmds, Progress::Pending),
                }
            },
            Feature::Off => self.read_interrupt_register(port, replies),
        }
    }

    /// Clear pending interrupts.  Both banks' flag bytes are checked; if
    /// neither is pending the call succeeds at once.  Otherwise the flags
    /// are polled up to three times, half a second apart, succeeding as
    /// soon as either bank reads zero.  When all three rounds find both
    /// banks still pending, both GPIO registers are read — the hardware
    /// clears the flags as a side effect — and the distinguished
    /// `InterruptsForcedClear` error reports that the condition did not
    /// resolve normally.
    pub fn clear_interrupts(&self, replies: &Vec<Reply>) -> (r: (
        Vec<Cmd>,
        Progress<Result<(), Error>>,
    ))
        ensures
            ({
                let r0 = replies@;
                if !has_reply(r0, 0) {
                    &&& r.0@ == seq![Cmd::ReadReg(INTFA)]
                    &&& r.1 == Progress::<Result<(), Error>>::Pending
                } else if !r0[0].ok {
                    &&& r.0@ == seq![Cmd::ReadReg(INTFA)]
                    &&& r.1 == Progress::<Result<(), Error>>::Complete(Err(Error::Transport))
                } else if r0[0].value == 0 {
                    if !has_reply(r0, 1) {
                        &&& r.0@ == seq![Cmd::ReadReg(INTFA), Cmd::ReadReg(INTFB)]
                        &&& r.1 == Progress::<Result<(), Error>>::Pending
                    } else if !r0[1].ok {
                        &&& r.0@ == seq![Cmd::ReadReg(INTFA), Cmd::ReadReg(INTFB)]
                        &&& r.1 == Progress::<Result<(), Error>>::Complete(Err(Error::Transport))
                    } else if r0[1].value == 0 {
                        &&& r.0@ == seq![Cmd::ReadReg(INTFA), Cmd::ReadReg(INTFB)]
                        &&& r.1 == Progress::<Result<(), Error>>::Complete(Ok(()))
                    } else {
                        &&& r.0@ == seq![Cmd::ReadReg(INTFA), Cmd::ReadReg(INTFB)]
                            + clear_tail_cmds(r0, 2)
                        &&& r.1 == clear_tail_outcome(r0, 2)
                    }
                } else {
                    &&& r.0@ == seq![Cmd::ReadReg(INTFA)] + clear_tail_cmds(r0, 1)
                    &&& r.1 == clear_tail_outcome(r0, 1)
                }
            }),
    {
        let mut sess = Session::new();
        let a = match sess.read(replies, INTFA) {
            Ok(v) => v,
            Err(Stop::Fault) => {
                return (sess.cmds, Progress::Complete(Err(Error::Transport)));
            },
            Err(Stop::Starved) => {
                return (sess.cmds, Progress::Pending);
            },
        };
        if a == 0 {
            let b = match sess.read(replies, INTFB) {
                Ok(v) => v,
                Err(Stop::Fault) => {
                    return (sess.cmds, Progress::Complete(Err(Error::Transport)));
                },
                Err(Stop::Starved) => {
                    return (sess.cmds, Progress::Pending);
                },
            };
            if b == 0 {
                return (sess.cmds, Progress::Complete(Ok(())));
            }
        }
        let outcome = do_clear_tail(&mut sess, replies);
        (sess.cmds, outcome)
    }

    /// Reset the whole chip to its hardware defaults and discharge any
    /// latched interrupt: the fixed write sequence of `reset_script`, then
    /// two GPIO reads.  The first failing transaction aborts the rest of
    /// the sequence; a partial reset is possible and reported.
    pub fn reset(&self, replies: &Vec<Reply>) -> (r: (Vec<Cmd>, Progress<Result<(), Error>>))
        ensures
            ({
                let r0 = replies@;
                let s = reset_script();
                let n = s.len() as int;
                if all_ok(r0, 0, n) {
                    &&& r.0@ == s
                    &&& r.1 == Progress::<Result<(), Error>>::Complete(Ok(()))
                } else if r0.len() < n && all_ok(r0, 0, r0.len() as int) {
                    &&& r.0@ == s.take(r0.len() as int + 1)
                    &&& r.1 == Progress::<Result<(), Error>>::Pending
                } else {
                    let j = r.0@.len() - 1;
                    &&& 0 <= j < n
                    &&& all_ok(r0, 0, j)
                    &&& has_reply(r0, j)
                    &&& !r0[j].ok
                    &&& r.0@ == s.take(j + 1)
                    &&& r.1 == Progress::<Result<(), Error>>::Complete(Err(Error::Transport))
                }
            }),
    {
        let mut script: Vec<Cmd> = Vec::new();
        push_reset_script(&mut script);
        proof {
            assert(script@ =~= reset_script());
        }
        let mut sess = Session::new();
        let r = run_script(&mut sess, replies, &script);
        proof {
            let s = reset_script();
            let r0 = replies@;
            match r {
                Ok(_) => {
                    assert(sess.cmds@ =~= s);
                },
                Err(Stop::Fault) => {
                    assert(!reply_ok(r0, sess.idx - 1));
                    assert(sess.cmds@ =~= s.take(sess.idx as int));
                },
                Err(Stop::Starved) => {
                    assert(!reply_ok(r0, r0.len() as int));
                    assert(sess.cmds@ =~= s.take(r0.len() as int + 1));
                },
            }
        }
        let outcome = match r {
            Ok(_) => Progress::Complete(Ok(())),
            Err(Stop::Fault) => Progress::Complete(Err(Error::Transport)),
            Err(Stop::Starved) => Progress::Pending,
        };
        (sess.cmds, outcome)
    }
}

/// Append the fixed reset sequence to a command list.
fn push_reset_script(script: &mut Vec<Cmd>)
    ensures
        final(script)@ == old(script)@ + reset_script(),
{
    script.push(Cmd::WriteReg(IODIRA, 0xFF));
    script.push(Cmd::WriteReg(IODIRB, 0xFF));
    script.push(Cmd::WriteReg(GPIOA, 0x00));
    script.push(Cmd::WriteReg(GPIOB, 0x00));
    script.push(Cmd::WriteReg(GPPUA, 0x00));
    script.push(Cmd::WriteReg(GPPUB, 0x00));
    script.push(Cmd::WriteReg(IOCON, 0x00));
    script.push(Cmd::WriteReg(GPINTENA, 0x00));
    script.push(Cmd::WriteReg(GPINTENB, 0x00));
    script.push(Cmd::WriteReg(INTCONA, 0x00));
    script.push(Cmd::WriteReg(INTCONB, 0x00));
    script.push(Cmd::WriteReg(DEFVALA, 0x00));
    script.push(Cmd::WriteReg(DEFVALB, 0x00));
    script.push(Cmd::ReadReg(GPIOA));
    script.push(Cmd::ReadReg(GPIOB));
    proof {
        assert(script@ =~= old(script)@ + reset_script());
    }
}

} // verus!
