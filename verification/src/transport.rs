//! The bus transcript model: the commands an operation asks of the
//! transport, the replies the transport gave, and a session that walks the
//! replies while logging the commands.

use crate::pin::Pin;
use vstd::prelude::*;

verus! {

/// One request to the byte-oriented bus transport, or a pause the caller is
/// asked to take between retries.
#[derive(Clone, Copy, Debug, PartialEq, Eq, Structural)]
pub enum Cmd {
    /// Read one byte from the register at this address.
    ReadReg(u8),
    /// Write the byte to the register at this address.
    WriteReg(u8, u8),
    /// Wait this many milliseconds before the next command.
    Pause(u64),
}

/// The transport's answer to one read or write.  `ok` is false when the bus
/// transaction failed; `value` is the byte a successful read returned and
/// is ignored for writes.
#[derive(Clone, Copy, Debug, PartialEq, Eq, Structural)]
pub struct Reply {
    pub ok: bool,
    pub value: u8,
}

/// What an operation failed with.
#[derive(Clone, Copy, Debug, PartialEq, Eq)]
pub enum Error {
    /// A bus transaction failed.
    Transport,
    /// The cached direction word said the pin was in the wrong mode for the
    /// requested operation; carries the offending pin.
    WrongMode(Pin),
    /// The interrupt flags would not settle and were force-cleared by
    /// reading both GPIO registers.
    InterruptsForcedClear,
}

/// How far an operation got on the replies it was given: either it still
/// needs the last logged command answered, or it finished with a result.
#[derive(Clone, Copy, Debug, PartialEq, Eq)]
pub enum Progress<T> {
    /// More replies are needed; perform the first unanswered command and
    /// run the operation again with its reply appended.
    Pending,
    Complete(T),
}

/// The three ways a stretch of transactions can end, used by the
/// specification functions that describe each operation's transcript.
#[derive(Clone, Copy, Debug, PartialEq, Eq)]
pub enum Step<T> {
    /// The replies ran out before the stretch was answered.
    Starved,
    /// A transaction in the stretch failed.
    Fault,
    /// Every transaction succeeded, with this result.
    Done(T),
}

/// Why a session call could not produce a value: the reply said the
/// transaction failed, or there was no reply yet.
#[derive(Clone, Copy, Debug, PartialEq, Eq)]
pub enum Stop {
    Fault,
    Starved,
}

/// The reply at position `i` exists.
pub open spec fn has_reply(replies: Seq<Reply>, i: int) -> bool {
    0 <= i < replies.len()
}

/// The reply at position `i` exists and reports success.
pub open spec fn reply_ok(replies: Seq<Reply>, i: int) -> bool {
    has_reply(replies, i) && replies[i].ok
}

/// All `n` replies from position `k` on exist and report success.
pub open spec fn all_ok(replies: Seq<Reply>, k: int, n: int) -> bool {
    forall|j: int| k <= j < k + n ==> #[trigger] reply_ok(replies, j)
}

/// Map the end of a stretch of transactions onto an operation's outcome:
/// starved means the caller must supply more replies, a fault is a
/// transport error, and a finished stretch carries its result.
pub open spec fn progress_of<T>(s: Step<T>) -> Progress<Result<T, Error>> {
    match s {
        Step::Starved => Progress::Pending,
        Step::Fault => Progress::Complete(Err(Error::Transport)),
        Step::Done(t) => Progress::Complete(Ok(t)),
    }
}

/// A walk over the replies: `idx` counts the replies consumed so far, and
/// `cmds` logs every command issued, including the one a starved call was
/// about to have answered.
pub struct Session {
    pub idx: usize,
    pub cmds: Vec<Cmd>,
}

impl Session {
    pub fn new() -> (s: Session)
        ensures
            s.idx == 0,
            s.cmds@ == Seq::<Cmd>::empty(),
    {
        Session { idx: 0, cmds: Vec::new() }
    }

    /// Issue a register read.  The command is always logged; the reply at
    /// the cursor decides whether a byte comes back.
    pub fn read(&mut self, replies: &Vec<Reply>, reg: u8) -> (r: Result<u8, Stop>)
        ensures
            final(self).cmds@ == old(self).cmds@.push(Cmd::ReadReg(reg)),
            ({
                let k = old(self).idx as int;
                match r {
                    Ok(v) => reply_ok(replies@, k) && v == replies@[k].value && final(self).idx
                        == old(self).idx + 1,
                    Err(Stop::Fault) => has_reply(replies@, k) && !replies@[k].ok && final(self).idx == old(self).idx + 1,
                    Err(Stop::Starved) => !has_reply(replies@, k) && final(self).idx == old(
                        self,
                    ).idx,
                }
            }),
    {
        self.cmds.push(Cmd::ReadReg(reg));
        if self.idx < replies.len() {
            let rep = replies[self.idx];
            self.idx = self.idx + 1;
            if rep.ok {
                Ok(rep.value)
            } else {
                Err(Stop::Fault)
            }
        } else {
            Err(Stop::Starved)
        }
    }

    /// Issue a register write.  The command is always logged; the reply at
    /// the cursor decides whether it is acknowledged.
    pub fn write(&mut self, replies: &Vec<Reply>, reg: u8, value: u8) -> (r: Result<(), Stop>)
        ensures
            final(self).cmds@ == old(self).cmds@.push(Cmd::WriteReg(reg, value)),
            ({
                let k = old(self).idx as int;
                match r {
                    Ok(_) => reply_ok(replies@, k) && final(self).idx == old(self).idx + 1,
                    Err(Stop::Fault) => has_reply(replies@, k) && !replies@[k].ok && final(self).idx == old(self).idx + 1,
                    Err(Stop::Starved) => !has_reply(replies@, k) && final(self).idx == old(
                        self,
                    ).idx,
                }
            }),
    {
        self.cmds.push(Cmd::WriteReg(reg, value));
        if self.idx < replies.len() {
            let rep = replies[self.idx];
            self.idx = self.idx + 1;
            if rep.ok {
                Ok(())
            } else {
                Err(Stop::Fault)
            }
        } else {
            Err(Stop::Starved)
        }
    }

    /// Ask the caller to pause.  No reply answers a pause, so the cursor
    /// stays where it is.
    pub fn pause(&mut self, millis: u64)
        ensures
            final(self).cmds@ == old(self).cmds@.push(Cmd::Pause(millis)),
            final(self).idx == old(self).idx,
    {
        self.cmds.push(Cmd::Pause(millis));
    }
}

/// Run a fixed list of reads and writes (no pauses) in order, stopping at
/// the first failed or missing reply.
pub(crate) fn run_script(sess: &mut Session, replies: &Vec<Reply>, script: &Vec<Cmd>) -> (r: Result<
    (),
    Stop,
>)
    requires
        old(sess).idx <= replies@.len(),
        forall|j: int| 0 <= j < script@.len() ==> !(#[trigger] script@[j] is Pause),
    ensures
        ({
            let s = script@;
            let r0 = replies@;
            let k = old(sess).idx as int;
            let n = s.len() as int;
            match r {
                Ok(_) => {
                    &&& all_ok(r0, k, n)
                    &&& final(sess).cmds@ == old(sess).cmds@ + s
                    &&& final(sess).idx == k + n
                },
                Err(Stop::Fault) => ({
                    let j = final(sess).idx - k - 1;
                    &&& 0 <= j < n
                    &&& all_ok(r0, k, j)
                    &&& has_reply(r0, k + j)
                    &&& !r0[k + j].ok
                    &&& final(sess).cmds@ == old(sess).cmds@ + s.take(j + 1)
                }),
                Err(Stop::Starved) => ({
                    let j = r0.len() - k;
                    &&& 0 <= j < n
                    &&& all_ok(r0, k, j)
                    &&& final(sess).idx == r0.len()
                    &&& final(sess).cmds@ == old(sess).cmds@ + s.take(j + 1)
                }),
            }
        }),
        final(sess).idx <= replies@.len(),
{
    let mut i: usize = 0;
    while i < script.len()
        invariant
            0 <= i <= script@.len(),
            sess.idx == old(sess).idx + i,
            sess.idx <= replies@.len(),
            all_ok(replies@, old(sess).idx as int, i as int),
            sess.cmds@ == old(sess).cmds@ + script@.take(i as int),
            forall|j: int| 0 <= j < script@.len() ==> !(#[trigger] script@[j] is Pause),
        decreases script@.len() - i,
    {
        let c = script[i];
        proof {
            assert(script@.take(i + 1) == script@.take(i as int).push(script@[i as int]));
        }
        match c {
            Cmd::ReadReg(rg) => {
                match sess.read(replies, rg) {
                    Ok(_) => {},
                    Err(e) => {
                        return Err(e);
                    },
                }
            },
            Cmd::WriteReg(rg, v) => {
                match sess.write(replies, rg, v) {
                    Ok(_) => {},
                    Err(e) => {
                        return Err(e);
                    },
                }
            },
            Cmd::Pause(_) => {
                proof {
                    assert(false);
                }
            },
        }
        i = i + 1;
        proof {
            assert(all_ok(replies@, old(sess).idx as int, i as int));
        }
    }
    proof {
        assert(script@.take(script@.len() as int) == script@);
    }
    Ok(())
}

} // verus!
