//! Preparation of one emulator instance: endpoint paths derived from the
//! base port and instance id, the copy-on-write overlay rewrite of the disk
//! argument, and the extra emulator arguments that expose the shared-memory
//! segment, the guest-control port and the interactive monitor.
//!
//! Everything here is pure bookkeeping over the argument vector; spawning
//! the emulator, allocating the segment and connecting the sockets sit with
//! the caller.

use crate::text::{find_char_from, find_str, lemma_decimal_injective, replace_str, spec_decimal,
    spec_first_char_from, spec_first_match, spec_first_match_from, spec_replace, u64_to_decimal};
use vstd::prelude::*;

verus! {

/// The guest-control socket path for a derived port.
pub open spec fn spec_guest_socket_path(port: u16) -> Seq<char> {
    "/tmp/aflControl-"@ + spec_decimal(port as int)
}

/// The monitor socket path for a derived port.
pub open spec fn spec_monitor_socket_path(port: u16) -> Seq<char> {
    "/tmp/monitor-"@ + spec_decimal(port as int)
}

/// The emulator stderr capture path for a derived port.
pub open spec fn spec_stderr_path(port: u16) -> Seq<char> {
    "/tmp/qemu-out-"@ + spec_decimal(port as int)
}

/// The private disk-overlay path for an instance.
pub open spec fn spec_overlay_path(instance_id: u16) -> Seq<char> {
    "/tmp/root_instance_"@ + spec_decimal(instance_id as int) + ".qcow2"@
}

/// Build the guest-control socket path.
pub fn guest_socket_path(port: u16) -> (r: String)
    ensures
        r@ == spec_guest_socket_path(port),
{
    let mut s = "/tmp/aflControl-".to_owned();
    let d = u64_to_decimal(port as u64);
    s.append(d.as_str());
    s
}

/// Build the monitor socket path.
pub fn monitor_socket_path(port: u16) -> (r: String)
    ensures
        r@ == spec_monitor_socket_path(port),
{
    let mut s = "/tmp/monitor-".to_owned();
    let d = u64_to_decimal(port as u64);
    s.append(d.as_str());
    s
}

/// Build the stderr capture path.
pub fn stderr_path(port: u16) -> (r: String)
    ensures
        r@ == spec_stderr_path(port),
{
    let mut s = "/tmp/qemu-out-".to_owned();
    let d = u64_to_decimal(port as u64);
    s.append(d.as_str());
    s
}

/// Build the disk-overlay path.
pub fn overlay_path(instance_id: u16) -> (r: String)
    ensures
        r@ == spec_overlay_path(instance_id),
{
    let mut s = "/tmp/root_instance_".to_owned();
    let d = u64_to_decimal(instance_id as u64);
    s.append(d.as_str());
    s.append(".qcow2");
    s
}

/// The backing file named by a drive argument: the characters between
/// `file=` and the next comma (or the end), where a first `file=` occurs
/// and names at least one character.
pub open spec fn spec_backing_file(arg: Seq<char>) -> Option<Seq<char>> {
    match spec_first_match(arg, "file="@) {
        Option::None => Option::None,
        Option::Some(i) => {
            let start = i + "file="@.len();
            let end = match spec_first_char_from(arg, ',', start) {
                Option::Some(j) => j,
                Option::None => arg.len() as int,
            };
            if start < end {
                Option::Some(arg.subrange(start, end))
            } else {
                Option::None
            }
        },
    }
}

/// A found first match lies in range and matches.
proof fn lemma_first_match_in_range(haystack: Seq<char>, needle: Seq<char>, i: int, j: int)
    requires
        spec_first_match_from(haystack, needle, i) == Some(j),
        0 <= i,
    ensures
        i <= j,
        j + needle.len() <= haystack.len(),
    decreases haystack.len() + 1 - i,
{
    if !(i + needle.len() > haystack.len()) {
        if haystack.subrange(i, i + needle.len()) == needle {
        } else {
            lemma_first_match_in_range(haystack, needle, i + 1, j);
        }
    }
}

/// A found first character lies in range.
proof fn lemma_first_char_in_range(s: Seq<char>, c: char, i: int, j: int)
    requires
        spec_first_char_from(s, c, i) == Some(j),
        0 <= i,
    ensures
        i <= j < s.len(),
    decreases s.len() - i,
{
    if i < s.len() {
        if s[i] == c {
        } else {
            lemma_first_char_in_range(s, c, i + 1, j);
        }
    }
}

/// Extract the backing file named by a drive argument.
pub fn backing_file(arg: &str) -> (r: Option<String>)
    ensures
        match r {
            Option::Some(p) => spec_backing_file(arg@) == Option::Some(p@),
            Option::None => spec_backing_file(arg@) is None,
        },
{
    proof {
        reveal_strlit("file=");
    }
    let alen = arg.unicode_len();
    match find_str(arg, "file=") {
        Option::None => Option::None,
        Option::Some(i) => {
            proof {
                lemma_first_match_in_range(arg@, "file="@, 0, i as int);
            }
            let start = i + 5;
            let end = match find_char_from(arg, ',', start) {
                Option::Some(j) => {
                    proof {
                        lemma_first_char_in_range(arg@, ',', start as int, j as int);
                    }
                    j
                },
                Option::None => arg.unicode_len(),
            };
            if start < end {
                Option::Some(arg.substring_char(start, end).to_owned())
            } else {
                Option::None
            }
        },
    }
}

/// The character sequences of an argument vector.
pub open spec fn spec_views(cmds: Seq<String>) -> Seq<Seq<char>> {
    cmds.map_values(|c: String| c@)
}

/// The first position of the `-drive` flag, from `i` on.
pub open spec fn spec_drive_index_from(cmds: Seq<Seq<char>>, i: int) -> Option<int>
    decreases cmds.len() - i,
{
    if i < 0 || i >= cmds.len() {
        Option::None
    } else if cmds[i] == "-drive"@ {
        Option::Some(i)
    } else {
        spec_drive_index_from(cmds, i + 1)
    }
}

/// The first position of the `-drive` flag.
pub open spec fn spec_drive_index(cmds: Seq<Seq<char>>) -> Option<int> {
    spec_drive_index_from(cmds, 0)
}

/// Find the `-drive` flag in the argument vector.
pub fn drive_index(cmds: &Vec<String>) -> (r: Option<usize>)
    ensures
        match r {
            Option::Some(i) => spec_drive_index(spec_views(cmds@)) == Option::Some(i as int) && i
                < cmds@.len(),
            Option::None => spec_drive_index(spec_views(cmds@)) is None,
        },
{
    let ghost views = spec_views(cmds@);
    let flag = "-drive".to_owned();
    let n = cmds.len();
    let mut i: usize = 0;
    while i < n
        invariant
            i <= n,
            n == cmds@.len(),
            views == spec_views(cmds@),
            flag@ == "-drive"@,
            spec_drive_index(views) == spec_drive_index_from(views, i as int),
        decreases n - i,
    {
        proof {
            assert(views[i as int] == cmds@[i as int]@);
        }
        let candidate = &cmds[i];
        if candidate.eq(&flag) {
            return Option::Some(i);
        }
        i = i + 1;
    }
    Option::None
}

/// The arguments that expose the shared-memory segment to the guest as a
/// host-backed memory device.
pub open spec fn spec_shm_args(size: u64, shm_id: Seq<char>) -> Seq<Seq<char>> {
    seq![
        "-device"@,
        "ivshmem-plain,memdev=hostmem,master=on"@,
        "-object"@,
        "memory-backend-file,size="@ + spec_decimal(size as int) + ",share=on,mem-path=/dev/shm"@
            + shm_id + ",id=hostmem"@,
    ]
}

/// The arguments that create the virtio-serial guest-control port backed by
/// the guest-control socket.
pub open spec fn spec_serial_args(port: u16) -> Seq<Seq<char>> {
    seq![
        "-device"@,
        "virtio-serial"@,
        "-chardev"@,
        "socket,path="@ + spec_guest_socket_path(port) + ",server=on,wait=off,id=aflControl"@,
        "-device"@,
        "virtserialport,chardev=aflControl,name=aflControl"@,
    ]
}

/// The arguments that place the interactive monitor on the monitor socket.
pub open spec fn spec_monitor_args(port: u16) -> Seq<Seq<char>> {
    seq!["-monitor"@, "unix:"@ + spec_monitor_socket_path(port) + ",server=on,wait=off"@]
}

/// Build the shared-memory device arguments.
pub fn shm_args(size: u64, shm_id: &str) -> (r: Vec<String>)
    ensures
        spec_views(r@) == spec_shm_args(size, shm_id@),
{
    let mut v: Vec<String> = Vec::new();
    v.push("-device".to_owned());
    v.push("ivshmem-plain,memdev=hostmem,master=on".to_owned());
    v.push("-object".to_owned());
    let mut arg = "memory-backend-file,size=".to_owned();
    let d = u64_to_decimal(size);
    arg.append(d.as_str());
    arg.append(",share=on,mem-path=/dev/shm");
    arg.append(shm_id);
    arg.append(",id=hostmem");
    v.push(arg);
    proof {
        assert(spec_views(v@) =~= spec_shm_args(size, shm_id@));
    }
    v
}

/// Build the guest-control port arguments.
pub fn serial_args(port: u16) -> (r: Vec<String>)
    ensures
        spec_views(r@) == spec_serial_args(port),
{
    let mut v: Vec<String> = Vec::new();
    v.push("-device".to_owned());
    v.push("virtio-serial".to_owned());
    v.push("-chardev".to_owned());
    let mut arg = "socket,path=".to_owned();
    let p = guest_socket_path(port);
    arg.append(p.as_str());
    arg.append(",server=on,wait=off,id=aflControl");
    v.push(arg);
    v.push("-device".to_owned());
    v.push("virtserialport,chardev=aflControl,name=aflControl".to_owned());
    proof {
        assert(spec_views(v@) =~= spec_serial_args(port));
    }
    v
}

/// Build the monitor arguments.
pub fn monitor_args(port: u16) -> (r: Vec<String>)
    ensures
        spec_views(r@) == spec_monitor_args(port),
{
    let mut v: Vec<String> = Vec::new();
    v.push("-monitor".to_owned());
    let mut arg = "unix:".to_owned();
    let p = monitor_socket_path(port);
    arg.append(p.as_str());
    arg.append(",server=on,wait=off");
    v.push(arg);
    proof {
        assert(spec_views(v@) =~= spec_monitor_args(port));
    }
    v
}

/// Every argument with the backing path replaced by the overlay path.
pub open spec fn spec_rewritten(cmds: Seq<Seq<char>>, from: Seq<char>, to: Seq<char>) -> Seq<
    Seq<char>,
> {
    cmds.map_values(|c: Seq<char>| spec_replace(c, from, to))
}

/// Everything the caller needs to spawn and later tear down one instance:
/// the fully-expanded argument vector and the paths derived for it.
#[derive(Debug)]
pub struct InstancePlan {
    /// The full emulator argument vector, binary first.
    pub command: Vec<String>,
    /// The guest-control socket path; removed again at teardown.
    pub guest_socket_path: String,
    /// The monitor socket path; removed again at teardown.
    pub monitor_socket_path: String,
    /// Where the emulator's standard error is captured.
    pub stderr_path: String,
    /// The instance's private copy-on-write disk overlay.
    pub overlay_path: String,
    /// The original backing file named by the drive argument.
    pub backing_path: String,
}

impl InstancePlan {
    /// The paths that teardown must remove: the two endpoint files and the
    /// disk overlay, exactly those derived at construction.
    pub fn cleanup_paths(&self) -> (r: Vec<String>)
        ensures
            r@.len() == 3,
            r@[0]@ == self.guest_socket_path@,
            r@[1]@ == self.monitor_socket_path@,
            r@[2]@ == self.overlay_path@,
    {
        let mut v: Vec<String> = Vec::new();
        v.push(self.guest_socket_path.clone());
        v.push(self.monitor_socket_path.clone());
        v.push(self.overlay_path.clone());
        v
    }
}

/// Why an argument vector cannot be prepared.
#[derive(PartialEq, Eq, Structural, Clone, Copy, Debug)]
pub enum PlanError {
    /// The command file is not a JSON array of strings.
    InvalidJson,
    /// No `-drive` flag occurs.
    MissingDrive,
    /// The `-drive` flag is the last argument.
    MissingDriveValue,
    /// The drive argument names no backing file.
    MissingBackingFile,
}

/// Prepare one instance's command line.
///
/// The backing file of the drive argument is rewritten everywhere to the
/// instance's private overlay, and the shared-memory, guest-control and
/// monitor arguments are appended, in that order. Fails exactly when the
/// argument vector has no `-drive` flag, when that flag is last, or when
/// the argument after it names no backing file.
pub fn prepare_instance(
    commands: &Vec<String>,
    shm_size: u64,
    base_port: u16,
    instance_id: u16,
    shm_id: &str,
) -> (r: Result<InstancePlan, PlanError>)
    requires
        base_port + instance_id <= u16::MAX,
    ensures
        ({
            let views = spec_views(commands@);
            let port = (base_port + instance_id) as u16;
            match r {
                Result::Ok(plan) => {
                    &&& spec_drive_index(views) matches Option::Some(d)
                    &&& d + 1 < views.len()
                    &&& spec_backing_file(views[d + 1]) matches Option::Some(backing)
                    &&& plan.backing_path@ == backing
                    &&& plan.overlay_path@ == spec_overlay_path(instance_id)
                    &&& plan.guest_socket_path@ == spec_guest_socket_path(port)
                    &&& plan.monitor_socket_path@ == spec_monitor_socket_path(port)
                    &&& plan.stderr_path@ == spec_stderr_path(port)
                    &&& spec_views(plan.command@) == spec_rewritten(
                        views,
                        backing,
                        spec_overlay_path(instance_id),
                    ) + spec_shm_args(shm_size, shm_id@) + spec_serial_args(port)
                        + spec_monitor_args(port)
                },
                Result::Err(e) => {
                    &&& (e == PlanError::MissingDrive || e == PlanError::MissingDriveValue || e
                        == PlanError::MissingBackingFile)
                    &&& (e == PlanError::MissingDrive <==> spec_drive_index(views) is None)
                    &&& (e == PlanError::MissingDriveValue <==> (spec_drive_index(views)
                        matches Option::Some(d) && d + 1 >= views.len()))
                    &&& (e == PlanError::MissingBackingFile <==> (spec_drive_index(views)
                        matches Option::Some(d) && d + 1 < views.len() && spec_backing_file(
                        views[d + 1],
                    ) is None))
                },
            }
        }),
{
    let ghost views = spec_views(commands@);
    let port = base_port + instance_id;
    let d = match drive_index(commands) {
        Option::None => {
            return Result::Err(PlanError::MissingDrive);
        },
        Option::Some(d) => d,
    };
    let total = commands.len();
    if d >= total - 1 {
        return Result::Err(PlanError::MissingDriveValue);
    }
    let drive_arg = &commands[d + 1];
    let backing = match backing_file(drive_arg.as_str()) {
        Option::None => {
            proof {
                assert(views[d + 1] == commands@[d + 1]@);
            }
            return Result::Err(PlanError::MissingBackingFile);
        },
        Option::Some(b) => b,
    };
    proof {
        assert(views[d + 1] == commands@[d + 1]@);
    }
    let overlay = overlay_path(instance_id);
    proof {
        lemma_backing_nonempty(commands@[d + 1]@);
    }
    let n = commands.len();
    let mut command: Vec<String> = Vec::new();
    let mut i: usize = 0;
    while i < n
        invariant
            i <= n,
            n == commands@.len(),
            views == spec_views(commands@),
            command@.len() == i,
            backing@.len() > 0,
            forall|k: int|
                0 <= k < i ==> command@[k]@ == spec_replace(views[k], backing@, overlay@),
        decreases n - i,
    {
        let original = &commands[i];
        let rewritten = replace_str(original.as_str(), backing.as_str(), overlay.as_str());
        command.push(rewritten);
        proof {
            assert(views[i as int] == commands@[i as int]@);
        }
        i = i + 1;
    }
    proof {
        assert(spec_views(command@) =~= spec_rewritten(views, backing@, overlay@));
    }
    let ghost rewritten_views = spec_views(command@);
    let mut extra = shm_args(shm_size, shm_id);
    command.append(&mut extra);
    proof {
        assert(spec_views(command@) =~= rewritten_views + spec_shm_args(shm_size, shm_id@));
    }
    let ghost with_shm = spec_views(command@);
    let mut extra = serial_args(port);
    command.append(&mut extra);
    proof {
        assert(spec_views(command@) =~= with_shm + spec_serial_args(port));
    }
    let ghost with_serial = spec_views(command@);
    let mut extra = monitor_args(port);
    command.append(&mut extra);
    proof {
        assert(spec_views(command@) =~= with_serial + spec_monitor_args(port));
        assert(spec_views(command@) =~= spec_rewritten(views, backing@, overlay@) + spec_shm_args(
            shm_size,
            shm_id@,
        ) + spec_serial_args(port) + spec_monitor_args(port));
    }
    Result::Ok(
        InstancePlan {
            command,
            guest_socket_path: guest_socket_path(port),
            monitor_socket_path: monitor_socket_path(port),
            stderr_path: stderr_path(port),
            overlay_path: overlay,
            backing_path: backing,
        },
    )
}


/// Whether a text parses as a JSON array of strings, and as which one.
pub uninterp spec fn spec_json_string_array(s: Seq<char>) -> Option<Seq<Seq<char>>>;

/// Relies on `serde_json::from_str::<Vec<String>>`: whether the text
/// parses as a JSON array of strings, and which, depend on the characters
/// alone.
#[verifier::external_body]
fn parse_command_json(s: &str) -> (r: Option<Vec<String>>)
    ensures
        match r {
            Option::Some(v) => spec_json_string_array(s@) == Option::Some(spec_views(v@)),
            Option::None => spec_json_string_array(s@) is None,
        },
{
    serde_json::from_str::<Vec<String>>(s).ok()
}

/// Prepare one instance's command line from the JSON text of the command
/// file. Fails with `InvalidJson` exactly when the text is no JSON array
/// of strings, and otherwise as `prepare_instance` does on the parsed
/// vector.
pub fn prepare_instance_from_json(
    json_text: &str,
    shm_size: u64,
    base_port: u16,
    instance_id: u16,
    shm_id: &str,
) -> (r: Result<InstancePlan, PlanError>)
    requires
        base_port + instance_id <= u16::MAX,
    ensures
        spec_json_string_array(json_text@) is None <==> r == Result::<
            InstancePlan,
            PlanError,
        >::Err(PlanError::InvalidJson),
        spec_json_string_array(json_text@) matches Option::Some(views) ==> ({
            let port = (base_port + instance_id) as u16;
            match r {
                Result::Ok(plan) => {
                    &&& spec_drive_index(views) matches Option::Some(d)
                    &&& d + 1 < views.len()
                    &&& spec_backing_file(views[d + 1]) matches Option::Some(backing)
                    &&& plan.backing_path@ == backing
                    &&& plan.overlay_path@ == spec_overlay_path(instance_id)
                    &&& plan.guest_socket_path@ == spec_guest_socket_path(port)
                    &&& plan.monitor_socket_path@ == spec_monitor_socket_path(port)
                    &&& plan.stderr_path@ == spec_stderr_path(port)
                    &&& spec_views(plan.command@) == spec_rewritten(
                        views,
                        backing,
                        spec_overlay_path(instance_id),
                    ) + spec_shm_args(shm_size, shm_id@) + spec_serial_args(port)
                        + spec_monitor_args(port)
                },
                Result::Err(e) => {
                    &&& (e == PlanError::MissingDrive <==> spec_drive_index(views) is None)
                    &&& (e == PlanError::MissingDriveValue <==> (spec_drive_index(views)
                        matches Option::Some(d) && d + 1 >= views.len()))
                    &&& (e == PlanError::MissingBackingFile <==> (spec_drive_index(views)
                        matches Option::Some(d) && d + 1 < views.len() && spec_backing_file(
                        views[d + 1],
                    ) is None))
                    &&& e != PlanError::InvalidJson
                },
            }
        }),
{
    match parse_command_json(json_text) {
        Option::None => Result::Err(PlanError::InvalidJson),
        Option::Some(commands) => prepare_instance(
            &commands,
            shm_size,
            base_port,
            instance_id,
            shm_id,
        ),
    }
}

/// Endpoint files never collide between instances: distinct derived ports
/// give distinct guest-control, monitor and stderr paths, and distinct
/// instance ids give distinct overlay paths.
pub proof fn lemma_endpoint_paths_unique(a: u16, b: u16)
    requires
        a != b,
    ensures
        spec_guest_socket_path(a) != spec_guest_socket_path(b),
        spec_monitor_socket_path(a) != spec_monitor_socket_path(b),
        spec_stderr_path(a) != spec_stderr_path(b),
        spec_overlay_path(a) != spec_overlay_path(b),
{
    let da = spec_decimal(a as int);
    let db = spec_decimal(b as int);
    if da == db {
        lemma_decimal_injective(a as int, b as int);
    }
    assert(da != db);
    lemma_affix_keeps_distinct("/tmp/aflControl-"@, da, db, Seq::empty());
    lemma_affix_keeps_distinct("/tmp/monitor-"@, da, db, Seq::empty());
    lemma_affix_keeps_distinct("/tmp/qemu-out-"@, da, db, Seq::empty());
    lemma_affix_keeps_distinct("/tmp/root_instance_"@, da, db, ".qcow2"@);
}

/// Wrapping two distinct middles in one prefix and suffix keeps them
/// distinct.
proof fn lemma_affix_keeps_distinct(
    prefix: Seq<char>,
    middle_a: Seq<char>,
    middle_b: Seq<char>,
    suffix: Seq<char>,
)
    requires
        middle_a != middle_b,
    ensures
        prefix + middle_a + suffix != prefix + middle_b + suffix,
{
    if prefix + middle_a + suffix == prefix + middle_b + suffix {
        assert((prefix + middle_a + suffix).len() == prefix.len() + middle_a.len()
            + suffix.len());
        assert((prefix + middle_b + suffix).len() == prefix.len() + middle_b.len()
            + suffix.len());
        assert(middle_a.len() == middle_b.len());
        assert(middle_a =~= middle_b) by {
            assert(forall|t: int|
                0 <= t < middle_a.len() ==> middle_a[t] == (prefix + middle_a + suffix)[
                    prefix.len() + t
                ] && middle_b[t] == (prefix + middle_b + suffix)[prefix.len() + t]);
        }
    }
}

/// An extracted backing file is never empty.
proof fn lemma_backing_nonempty(arg: Seq<char>)
    requires
        spec_backing_file(arg) is Some,
    ensures
        spec_backing_file(arg)->Some_0.len() > 0,
{
    let i = spec_first_match(arg, "file="@)->Some_0;
    lemma_first_match_in_range(arg, "file="@, 0, i);
    let start = i + "file="@.len();
    match spec_first_char_from(arg, ',', start) {
        Option::Some(j) => {
            lemma_first_char_in_range(arg, ',', start, j);
        },
        Option::None => {
        },
    }
}

} // verus!
