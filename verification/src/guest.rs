//! The guest-side counterpart: its configuration and the fixed frames it
//! exchanges with the host.
//!
//! The in-guest program opens the virtio-serial port, announces readiness,
//! receives one input per iteration, hands it to the subcommand under
//! test, and sends one completion frame back.

use vstd::prelude::*;

verus! {

/// Configuration of the in-guest program.
#[derive(Debug)]
pub struct Args {
    /// Path to the serial port device to connect to.
    pub socket: String,
    /// Path to the input file to be overwritten each iteration.
    pub input_file: String,
    /// Send the kernel log back to the host on termination.
    pub dmesg: bool,
    /// Sleep after termination, so that the snapshot is not exited.
    pub block_until_snapshot: bool,
    /// Command to run after receiving input.
    pub command_with_args: Vec<String>,
}

/// The readiness announcement sent once after boot.
pub open spec fn spec_ready_message() -> Seq<u8> {
    "Snapshot me!"@.map_values(|c: char| c as u8)
}

/// The plain completion message sent when no kernel log is wanted.
pub open spec fn spec_restore_message() -> Seq<u8> {
    "Restore me!"@.map_values(|c: char| c as u8)
}

/// The readiness announcement as bytes.
pub fn ready_message() -> (r: Vec<u8>)
    ensures
        r@ == spec_ready_message(),
{
    proof {
        reveal_strlit("Snapshot me!");
    }
    let mut r: Vec<u8> = Vec::new();
    r.push('S' as u8);
    r.push('n' as u8);
    r.push('a' as u8);
    r.push('p' as u8);
    r.push('s' as u8);
    r.push('h' as u8);
    r.push('o' as u8);
    r.push('t' as u8);
    r.push(' ' as u8);
    r.push('m' as u8);
    r.push('e' as u8);
    r.push('!' as u8);
    proof {
        assert(r@ =~= spec_ready_message());
    }
    r
}

/// The plain completion message as bytes.
pub fn restore_message() -> (r: Vec<u8>)
    ensures
        r@ == spec_restore_message(),
{
    proof {
        reveal_strlit("Restore me!");
    }
    let mut r: Vec<u8> = Vec::new();
    r.push('R' as u8);
    r.push('e' as u8);
    r.push('s' as u8);
    r.push('t' as u8);
    r.push('o' as u8);
    r.push('r' as u8);
    r.push('e' as u8);
    r.push(' ' as u8);
    r.push('m' as u8);
    r.push('e' as u8);
    r.push('!' as u8);
    proof {
        assert(r@ =~= spec_restore_message());
    }
    r
}

/// What the guest sends as its completion frame: the kernel log when it
/// was asked for one, the plain completion message otherwise.
pub fn completion_message(dmesg: bool, kernel_log: Vec<u8>) -> (r: Vec<u8>)
    ensures
        dmesg ==> r == kernel_log,
        !dmesg ==> r@ == spec_restore_message(),
{
    if dmesg {
        kernel_log
    } else {
        restore_message()
    }
}

} // verus!
