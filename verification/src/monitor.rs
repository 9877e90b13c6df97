//! The emulator's interactive snapshot monitor: line-based textual
//! commands, replies read up to the prompt terminator `(qemu) `.

use crate::text::ends_with_bytes;
use vstd::prelude::*;

verus! {

/// The prompt that terminates every monitor reply.
pub open spec fn spec_prompt() -> Seq<u8> {
    seq![
        '(' as u8,
        'q' as u8,
        'e' as u8,
        'm' as u8,
        'u' as u8,
        ')' as u8,
        ' ' as u8,
    ]
}

/// The prompt as bytes.
pub fn prompt_bytes() -> (v: Vec<u8>)
    ensures
        v@ == spec_prompt(),
{
    let mut v: Vec<u8> = Vec::new();
    v.push('(' as u8);
    v.push('q' as u8);
    v.push('e' as u8);
    v.push('m' as u8);
    v.push('u' as u8);
    v.push(')' as u8);
    v.push(' ' as u8);
    proof {
        assert(v@ =~= spec_prompt());
    }
    v
}

/// The line that saves the running state under `tag`.
pub open spec fn spec_savevm_line(tag: Seq<char>) -> Seq<char> {
    "savevm "@ + tag + "\n"@
}

/// The line that restores the state saved under `tag`.
pub open spec fn spec_loadvm_line(tag: Seq<char>) -> Seq<char> {
    "loadvm "@ + tag + "\n"@
}

/// Build the `savevm` command line for `tag`.
pub fn savevm_command(tag: &str) -> (cmd: String)
    ensures
        cmd@ == spec_savevm_line(tag@),
{
    let mut cmd = "savevm ".to_owned();
    cmd.append(tag);
    cmd.append("\n");
    cmd
}

/// Build the `loadvm` command line for `tag`.
pub fn loadvm_command(tag: &str) -> (cmd: String)
    ensures
        cmd@ == spec_loadvm_line(tag@),
{
    let mut cmd = "loadvm ".to_owned();
    cmd.append(tag);
    cmd.append("\n");
    cmd
}

/// A monitor reply is complete once it ends with the prompt.
pub open spec fn spec_reply_complete(reply: Seq<u8>) -> bool {
    reply.len() >= spec_prompt().len() && reply.subrange(
        reply.len() - spec_prompt().len(),
        reply.len() as int,
    ) == spec_prompt()
}

/// Assembles one monitor reply from successive reads; the reply is complete
/// once it ends with the prompt terminator.
pub struct MonitorReader {
    reply: Vec<u8>,
}

impl MonitorReader {
    /// The reply bytes collected so far.
    pub closed spec fn view(&self) -> Seq<u8> {
        self.reply@
    }

    pub fn new() -> (r: Self)
        ensures
            r@ == Seq::<u8>::empty(),
    {
        MonitorReader { reply: Vec::new() }
    }

    /// Take in the bytes of one read; reports whether the reply now ends
    /// with the prompt.
    pub fn feed(&mut self, chunk: &[u8]) -> (complete: bool)
        requires
            old(self)@.len() + chunk@.len() <= usize::MAX,
        ensures
            final(self)@ == old(self)@ + chunk@,
            complete == spec_reply_complete(final(self)@),
    {
        let mut i: usize = 0;
        while i < chunk.len()
            invariant
                i <= chunk@.len(),
                old(self)@.len() + chunk@.len() <= usize::MAX,
                self.reply@ == old(self)@ + chunk@.subrange(0, i as int),
            decreases chunk@.len() - i,
        {
            let b = chunk[i];
            self.reply.push(b);
            i = i + 1;
            proof {
                assert(self.reply@ =~= old(self)@ + chunk@.subrange(0, i as int));
            }
        }
        proof {
            assert(self.reply@ =~= old(self)@ + chunk@);
        }
        self.is_complete()
    }

    /// Whether the collected bytes end with the prompt.
    pub fn is_complete(&self) -> (complete: bool)
        ensures
            complete == spec_reply_complete(self@),
    {
        let prompt = prompt_bytes();
        ends_with_bytes(self.reply.as_slice(), prompt.as_slice())
    }

    /// The collected reply.
    pub fn into_reply(self) -> (reply: Vec<u8>)
        ensures
            reply@ == self@,
    {
        self.reply
    }
}

} // verus!
