//! The scripts that make the initrd's environment: variables, directories,
//! device nodes, files and pseudo filesystems.
use vstd::prelude::*;

#[allow(unused_imports)]
use crate::devnum::device_of_numbers;
use crate::flags::{ms_nodev, ms_noexec, ms_nosuid, ms_strictatime};
#[allow(unused_imports)]
use crate::flags::{MS_NODEV, MS_NOEXEC, MS_NOSUID, MS_STRICTATIME};
use crate::paths::{join_path, path_parent, quote_path};
#[allow(unused_imports)]
use crate::paths::{joined, lemma_joined, parent, quoted};
use crate::script::{
    attempt_step, halt_for_step, halt_step, if_fails_step, if_holds_step, log_step, must_step,
    no_steps, push_step, run1, run2, should_step, Check, MountCall, Op, Response, Step,
};
#[allow(unused_imports)]
use crate::script::{
    all_goes_well, attempt, command1, command2, does, exits_are_fine, halt, halt_for, if_fails,
    if_holds, log, must, performed, reaction, script_fails, should, vital_are, CheckView,
    CommandView, MountCallView, OpView, Outcome, ReactionView, ResponseView, StepView,
};
use crate::text::{cat2, cat3, cat4, own_option, parse_hex, trim};
#[allow(unused_imports)]
use crate::text::{digits_value, hex_u32, signed_decimal, trimmed};
#[allow(unused_imports)]
use vstd::utf8::encode_utf8;

verus! {

// ---------------------------------------------------------------------------
// Environment
// ---------------------------------------------------------------------------
/// The steps that make a directory of the extra utilities known under its usual
/// path, where nothing stands there.
pub open spec fn link_steps(
    utils: Seq<char>,
    name: Seq<char>,
    link: Seq<char>,
    context: Seq<char>,
) -> Seq<StepView> {
    seq![
        if_fails(CheckView::Exists(link), 2),
        attempt(OpView::RemoveFile(link)),
        must(OpView::Symlink { target: joined(utils, name), link }, context),
    ]
}

/// The steps that set the search paths, and make the extra utilities known.
pub open spec fn environment_steps(extra_utils: Option<Seq<char>>) -> Seq<StepView> {
    match extra_utils {
        Some(utils) => seq![
            attempt(
                OpView::SetVar {
                    name: "PATH"@,
                    value: utils + "/bin:"@ + utils + "/sbin"@,
                },
            ),
            attempt(OpView::SetVar { name: "LD_LIBRARY_PATH"@, value: joined(utils, "lib"@) }),
        ] + link_steps(utils, "bin"@, "/bin"@, "Failed to create /bin symlink"@) + link_steps(
            utils,
            "sbin"@,
            "/sbin"@,
            "Failed to create /sbin symlink"@,
        ),
        None => seq![
            attempt(
                OpView::SetVar { name: "PATH"@, value: "/bin:/sbin:/usr/bin:/usr/sbin"@ },
            ),
        ],
    }
}

fn push_link(steps: &mut Vec<Step>, utils: &str, name: &str, link: &str, context: &str)
    ensures
        final(steps).deep_view() == old(steps).deep_view() + link_steps(
            utils@,
            name@,
            link@,
            context@,
        ),
{
    let ghost before = steps.deep_view();
    push_step(steps, if_fails_step(Check::Exists(link.to_owned()), 2));
    push_step(steps, attempt_step(Op::RemoveFile(link.to_owned())));
    push_step(
        steps,
        must_step(
            Op::Symlink { target: join_path(utils, name), link: link.to_owned() },
            context,
        ),
    );
    assert(steps.deep_view() =~= before + link_steps(utils@, name@, link@, context@));
}

/// Sets the search paths, and makes the extra utilities known.
pub fn setup_environment(extra_utils: &Option<String>) -> (r: Vec<Step>)
    ensures
        r.deep_view() == environment_steps(extra_utils.deep_view()),
{
    let mut steps = no_steps();
    match extra_utils {
        Some(utils) => {
            let utils = utils.as_str();
            let path = cat4(utils, "/bin:", utils, "/sbin");
            push_step(
                &mut steps,
                attempt_step(Op::SetVar { name: "PATH".to_owned(), value: path }),
            );
            push_step(
                &mut steps,
                attempt_step(
                    Op::SetVar {
                        name: "LD_LIBRARY_PATH".to_owned(),
                        value: join_path(utils, "lib"),
                    },
                ),
            );
            push_link(&mut steps, utils, "bin", "/bin", "Failed to create /bin symlink");
            push_link(&mut steps, utils, "sbin", "/sbin", "Failed to create /sbin symlink");
        },
        None => {
            push_step(
                &mut steps,
                attempt_step(
                    Op::SetVar {
                        name: "PATH".to_owned(),
                        value: "/bin:/sbin:/usr/bin:/usr/sbin".to_owned(),
                    },
                ),
            );
        },
    }
    assert(steps.deep_view() =~= environment_steps(extra_utils.deep_view()));
    steps
}

// ---------------------------------------------------------------------------
// Directories, device nodes and files
// ---------------------------------------------------------------------------
/// The directories of the initrd.
pub open spec fn essential_directories() -> Seq<Seq<char>> {
    seq![
        "/etc"@,
        "/dev"@,
        "/proc"@,
        "/sys"@,
        "/run"@,
        "/tmp"@,
        "/mnt"@,
        "/mnt-root"@,
        "/var"@,
        "/var/log"@,
    ]
}

/// The step that creates a directory of the initrd.
pub open spec fn directory_step(dir: Seq<char>) -> StepView {
    must(OpView::CreateDir(dir), "Failed to create directory: "@ + dir)
}

fn push_directory(steps: &mut Vec<Step>, dir: &str)
    ensures
        final(steps).deep_view() == old(steps).deep_view().push(directory_step(dir@)),
{
    let context = cat2("Failed to create directory: ", dir);
    push_step(steps, must_step(Op::CreateDir(dir.to_owned()), context.as_str()));
}

/// Creates the directories of the initrd.
pub fn create_directories() -> (r: Vec<Step>)
    ensures
        r.deep_view() == essential_directories().map_values(|dir: Seq<char>| directory_step(dir)),
{
    let mut steps = no_steps();
    push_directory(&mut steps, "/etc");
    push_directory(&mut steps, "/dev");
    push_directory(&mut steps, "/proc");
    push_directory(&mut steps, "/sys");
    push_directory(&mut steps, "/run");
    push_directory(&mut steps, "/tmp");
    push_directory(&mut steps, "/mnt");
    push_directory(&mut steps, "/mnt-root");
    push_directory(&mut steps, "/var");
    push_directory(&mut steps, "/var/log");
    assert(steps.deep_view() =~= essential_directories().map_values(
        |dir: Seq<char>| directory_step(dir),
    ));
    steps
}

/// The steps that create the device nodes the bootstrap itself needs, where they
/// are missing. It goes on without the one for the kernel's log.
pub open spec fn device_steps() -> Seq<StepView> {
    seq![
        if_fails(CheckView::Exists("/dev/console"@), 1),
        must(
            OpView::MakeNode {
                path: "/dev/console"@,
                mode: 0o600,
                number: device_of_numbers(5, 1),
            },
            "Failed to create /dev/console"@,
        ),
        if_fails(CheckView::Exists("/dev/null"@), 1),
        must(
            OpView::MakeNode { path: "/dev/null"@, mode: 0o666, number: device_of_numbers(1, 3) },
            "Failed to create /dev/null"@,
        ),
        if_fails(CheckView::Exists("/dev/kmsg"@), 1),
        attempt(
            OpView::MakeNode { path: "/dev/kmsg"@, mode: 0o600, number: device_of_numbers(1, 11) },
        ),
    ]
}

/// Creates the device nodes the bootstrap itself needs.
pub fn create_essential_devices() -> (r: Vec<Step>)
    ensures
        r.deep_view() == device_steps(),
{
    let mut steps = no_steps();
    push_step(&mut steps, if_fails_step(Check::Exists("/dev/console".to_owned()), 1));
    push_step(
        &mut steps,
        must_step(
            Op::MakeNode {
                path: "/dev/console".to_owned(),
                mode: 0o600,
                number: nix::sys::stat::makedev(5, 1),
            },
            "Failed to create /dev/console",
        ),
    );
    push_step(&mut steps, if_fails_step(Check::Exists("/dev/null".to_owned()), 1));
    push_step(
        &mut steps,
        must_step(
            Op::MakeNode {
                path: "/dev/null".to_owned(),
                mode: 0o666,
                number: nix::sys::stat::makedev(1, 3),
            },
            "Failed to create /dev/null",
        ),
    );
    push_step(&mut steps, if_fails_step(Check::Exists("/dev/kmsg".to_owned()), 1));
    push_step(
        &mut steps,
        attempt_step(
            Op::MakeNode {
                path: "/dev/kmsg".to_owned(),
                mode: 0o600,
                number: nix::sys::stat::makedev(1, 11),
            },
        ),
    );
    assert(steps.deep_view() =~= device_steps());
    steps
}

/// The steps that create the files programs expect, where they are missing.
pub open spec fn file_steps() -> Seq<StepView> {
    seq![
        if_fails(CheckView::Exists("/etc/fstab"@), 1),
        must(
            OpView::WriteFile { path: "/etc/fstab"@, content: "# Initial fstab\n"@ },
            "Failed to create /etc/fstab"@,
        ),
        if_fails(CheckView::Occupied("/etc/mtab"@), 2),
        attempt(OpView::RemoveFile("/etc/mtab"@)),
        must(
            OpView::Symlink { target: "/proc/mounts"@, link: "/etc/mtab"@ },
            "Failed to create /etc/mtab symlink"@,
        ),
        if_fails(CheckView::Exists("/var/log/messages"@), 1),
        must(
            OpView::WriteFile { path: "/var/log/messages"@, content: ""@ },
            "Failed to create /var/log/messages"@,
        ),
    ]
}

/// Creates the files programs expect.
pub fn create_essential_files() -> (r: Vec<Step>)
    ensures
        r.deep_view() == file_steps(),
{
    let mut steps = no_steps();
    push_step(&mut steps, if_fails_step(Check::Exists("/etc/fstab".to_owned()), 1));
    push_step(
        &mut steps,
        must_step(
            Op::WriteFile {
                path: "/etc/fstab".to_owned(),
                content: "# Initial fstab\n".to_owned(),
            },
            "Failed to create /etc/fstab",
        ),
    );
    push_step(&mut steps, if_fails_step(Check::Occupied("/etc/mtab".to_owned()), 2));
    push_step(&mut steps, attempt_step(Op::RemoveFile("/etc/mtab".to_owned())));
    push_step(
        &mut steps,
        must_step(
            Op::Symlink { target: "/proc/mounts".to_owned(), link: "/etc/mtab".to_owned() },
            "Failed to create /etc/mtab symlink",
        ),
    );
    push_step(&mut steps, if_fails_step(Check::Exists("/var/log/messages".to_owned()), 1));
    push_step(
        &mut steps,
        must_step(
            Op::WriteFile { path: "/var/log/messages".to_owned(), content: "".to_owned() },
            "Failed to create /var/log/messages",
        ),
    );
    assert(steps.deep_view() =~= file_steps());
    steps
}

// ---------------------------------------------------------------------------
// Pseudo filesystems
// ---------------------------------------------------------------------------
/// The mount of a pseudo filesystem, whose source is its type.
pub open spec fn pseudo_mount(
    fstype: Seq<char>,
    target: Seq<char>,
    flags: u64,
    data: Option<Seq<char>>,
) -> OpView {
    OpView::Mount(
        MountCallView { source: Some(fstype), target, fstype: Some(fstype), flags, data },
    )
}

fn mount_pseudo(fstype: &str, target: &str, flags: u64, data: Option<&str>) -> (r: Op)
    ensures
        r.deep_view() == pseudo_mount(fstype@, target@, flags, data.deep_view()),
{
    Op::Mount(
        MountCall {
            source: Some(fstype.to_owned()),
            target: target.to_owned(),
            fstype: Some(fstype.to_owned()),
            flags,
            data: own_option(data),
        },
    )
}

/// The steps that mount the kernel's own filesystems, where they are not yet.
pub open spec fn kernel_mount_steps() -> Seq<StepView> {
    seq![
        if_fails(CheckView::Mounted("/proc"@), 2),
        should(OpView::CreateDir("/proc"@)),
        must(
            pseudo_mount("proc"@, "/proc"@, MS_NOSUID | MS_NOEXEC | MS_NODEV, None),
            "Failed to mount /proc"@,
        ),
        if_fails(CheckView::Mounted("/sys"@), 2),
        should(OpView::CreateDir("/sys"@)),
        must(
            pseudo_mount("sysfs"@, "/sys"@, MS_NOSUID | MS_NOEXEC | MS_NODEV, None),
            "Failed to mount /sys"@,
        ),
        if_fails(CheckView::Mounted("/dev"@), 1),
        must(
            pseudo_mount("devtmpfs"@, "/dev"@, MS_NOSUID | MS_STRICTATIME, Some("mode=0755"@)),
            "Failed to mount devtmpfs"@,
        ),
    ]
}

/// The steps that mount the filesystems the bootstrap can go on without, where
/// they are not mounted yet.
pub open spec fn helper_mount_steps() -> Seq<StepView> {
    seq![
        if_fails(CheckView::Mounted("/dev/pts"@), 2),
        should(OpView::CreateDir("/dev/pts"@)),
        attempt(
            pseudo_mount(
                "devpts"@,
                "/dev/pts"@,
                MS_NOSUID | MS_NOEXEC,
                Some("mode=0620,gid=5"@),
            ),
        ),
        if_fails(CheckView::Mounted("/run"@), 1),
        attempt(
            pseudo_mount(
                "tmpfs"@,
                "/run"@,
                MS_NOSUID | MS_NODEV | MS_STRICTATIME,
                Some("mode=0755"@),
            ),
        ),
        if_fails(CheckView::Mounted("/tmp"@), 1),
        attempt(
            pseudo_mount(
                "tmpfs"@,
                "/tmp"@,
                MS_NOSUID | MS_NODEV | MS_STRICTATIME,
                Some("mode=1777"@),
            ),
        ),
    ]
}

fn push_kernel_mounts(steps: &mut Vec<Step>)
    ensures
        final(steps).deep_view() == old(steps).deep_view() + kernel_mount_steps(),
{
    let ghost before = steps.deep_view();
    push_step(steps, if_fails_step(Check::Mounted("/proc".to_owned()), 2));
    push_step(steps, should_step(Op::CreateDir("/proc".to_owned())));
    push_step(
        steps,
        must_step(
            mount_pseudo("proc", "/proc", ms_nosuid() | ms_noexec() | ms_nodev(), None),
            "Failed to mount /proc",
        ),
    );
    push_step(steps, if_fails_step(Check::Mounted("/sys".to_owned()), 2));
    push_step(steps, should_step(Op::CreateDir("/sys".to_owned())));
    push_step(
        steps,
        must_step(
            mount_pseudo("sysfs", "/sys", ms_nosuid() | ms_noexec() | ms_nodev(), None),
            "Failed to mount /sys",
        ),
    );
    push_step(steps, if_fails_step(Check::Mounted("/dev".to_owned()), 1));
    push_step(
        steps,
        must_step(
            mount_pseudo("devtmpfs", "/dev", ms_nosuid() | ms_strictatime(), Some("mode=0755")),
            "Failed to mount devtmpfs",
        ),
    );
    assert(steps.deep_view() =~= before + kernel_mount_steps());
}

fn push_helper_mounts(steps: &mut Vec<Step>)
    ensures
        final(steps).deep_view() == old(steps).deep_view() + helper_mount_steps(),
{
    let ghost before = steps.deep_view();
    push_step(steps, if_fails_step(Check::Mounted("/dev/pts".to_owned()), 2));
    push_step(steps, should_step(Op::CreateDir("/dev/pts".to_owned())));
    push_step(
        steps,
        attempt_step(
            mount_pseudo("devpts", "/dev/pts", ms_nosuid() | ms_noexec(), Some("mode=0620,gid=5")),
        ),
    );
    push_step(steps, if_fails_step(Check::Mounted("/run".to_owned()), 1));
    push_step(
        steps,
        attempt_step(
            mount_pseudo(
                "tmpfs",
                "/run",
                ms_nosuid() | ms_nodev() | ms_strictatime(),
                Some("mode=0755"),
            ),
        ),
    );
    push_step(steps, if_fails_step(Check::Mounted("/tmp".to_owned()), 1));
    push_step(
        steps,
        attempt_step(
            mount_pseudo(
                "tmpfs",
                "/tmp",
                ms_nosuid() | ms_nodev() | ms_strictatime(),
                Some("mode=1777"),
            ),
        ),
    );
    assert(steps.deep_view() =~= before + helper_mount_steps());
}

/// Mounts the pseudo filesystems.
pub fn mount_essential_filesystems() -> (r: Vec<Step>)
    ensures
        r.deep_view() == kernel_mount_steps() + helper_mount_steps(),
{
    let mut steps = no_steps();
    push_kernel_mounts(&mut steps);
    push_helper_mounts(&mut steps);
    assert(steps.deep_view() =~= kernel_mount_steps() + helper_mount_steps());
    steps
}

/// The steps that make the kernel command line readable before anything else.
pub open spec fn early_proc_steps() -> Seq<StepView> {
    seq![
        attempt(OpView::CreateDir("/proc"@)),
        if_fails(CheckView::Mounted("/proc"@), 1),
        attempt(pseudo_mount("proc"@, "/proc"@, MS_NOSUID | MS_NOEXEC | MS_NODEV, None)),
    ]
}

/// Makes the kernel command line readable before anything else.
pub fn mount_early_proc() -> (r: Vec<Step>)
    ensures
        r.deep_view() == early_proc_steps(),
{
    let mut steps = no_steps();
    push_step(&mut steps, attempt_step(Op::CreateDir("/proc".to_owned())));
    push_step(&mut steps, if_fails_step(Check::Mounted("/proc".to_owned()), 1));
    push_step(
        &mut steps,
        attempt_step(
            mount_pseudo("proc", "/proc", ms_nosuid() | ms_noexec() | ms_nodev(), None),
        ),
    );
    assert(steps.deep_view() =~= early_proc_steps());
    steps
}

// ---------------------------------------------------------------------------
// Host identity, hooks, links and volumes
// ---------------------------------------------------------------------------
/// The steps that write the identity of the host, where one is set: eight
/// hexadecimal digits, written as a number of the machine.
pub open spec fn host_id_steps(hex_id: Option<Seq<char>>) -> Seq<StepView> {
    match hex_id {
        None => Seq::empty(),
        Some(text) => {
            let hex = trimmed(text);
            if encode_utf8(hex).len() != 8 {
                seq![
                    halt("HOST_ID must be an 8-character hex string, got: '"@ + hex + "'"@),
                ]
            } else {
                match hex_u32(hex) {
                    None => seq![
                        halt_for(
                            "Invalid HOST_ID hex string: '"@ + hex + "'"@,
                            "invalid digit found in string"@,
                        ),
                    ],
                    Some(n) => seq![
                        log("Setting host ID: "@ + hex),
                        must(
                            OpView::WriteWord { path: "/etc/hostid"@, word: n as u32 },
                            "Failed to write /etc/hostid"@,
                        ),
                    ],
                }
            }
        },
    }
}

/// Writes the identity of the host.
pub fn set_host_id(hex_id: &Option<String>) -> (r: Vec<Step>)
    ensures
        r.deep_view() == host_id_steps(hex_id.deep_view()),
{
    let mut steps = no_steps();
    match hex_id {
        None => {},
        Some(text) => {
            let hex = trim(text.as_str());
            if hex.as_str().as_bytes().len() != 8 {
                let message = cat3(
                    "HOST_ID must be an 8-character hex string, got: '",
                    hex.as_str(),
                    "'",
                );
                push_step(&mut steps, halt_step(message.as_str()));
            } else {
                match parse_hex(hex.as_str()) {
                    None => {
                        let message = cat3("Invalid HOST_ID hex string: '", hex.as_str(), "'");
                        push_step(
                            &mut steps,
                            halt_for_step(message.as_str(), "invalid digit found in string"),
                        );
                    },
                    Some(word) => {
                        push_step(
                            &mut steps,
                            log_step(cat2("Setting host ID: ", hex.as_str()).as_str()),
                        );
                        push_step(
                            &mut steps,
                            must_step(
                                Op::WriteWord { path: "/etc/hostid".to_owned(), word },
                                "Failed to write /etc/hostid",
                            ),
                        );
                    },
                }
            }
        },
    }
    assert(steps.deep_view() =~= host_id_steps(hex_id.deep_view()));
    steps
}

/// The steps that run a hook by the shell, where it is set and has content. How
/// it ends is warned about at most.
pub open spec fn hook_steps(script: Option<Seq<char>>, description: Seq<char>) -> Seq<StepView> {
    match script {
        None => Seq::empty(),
        Some(path) => seq![
            if_holds(CheckView::HasContent(path), 2),
            log("Running "@ + description + ": "@ + quoted(path)),
            StepView::Do {
                op: command1("sh"@, path),
                success: ResponseView::Continue,
                exit: ResponseView::LogCode("Warning: "@ + description + " exited with status: "@),
                failure: ResponseView::Abort("Failed to run "@ + description),
            },
        ],
    }
}

/// Runs a hook.
pub fn run_hook_script(script: &Option<String>, description: &str) -> (r: Vec<Step>)
    ensures
        r.deep_view() == hook_steps(script.deep_view(), description@),
{
    let mut steps = no_steps();
    match script {
        None => {},
        Some(path) => {
            push_step(&mut steps, if_holds_step(Check::HasContent(path.clone()), 2));
            let message = cat4(
                "Running ",
                description,
                ": ",
                quote_path(path.as_str()).as_str(),
            );
            push_step(&mut steps, log_step(message.as_str()));
            push_step(
                &mut steps,
                Step::Do {
                    op: run1("sh", path.as_str()),
                    success: Response::Continue,
                    exit: Response::LogCode(
                        cat3("Warning: ", description, " exited with status: "),
                    ),
                    failure: Response::Abort(cat2("Failed to run ", description)),
                },
            );
        },
    }
    assert(steps.deep_view() =~= hook_steps(script.deep_view(), description@));
    steps
}

/// The steps that create the directory above a path, where it has one.
pub open spec fn above_steps(path: Seq<char>) -> Seq<StepView> {
    match parent(path) {
        Some(dir) => seq![should(OpView::CreateDir(dir))],
        None => Seq::empty(),
    }
}

/// Appends the steps that create the directory above a path.
pub fn push_above(steps: &mut Vec<Step>, path: &str)
    ensures
        final(steps).deep_view() == old(steps).deep_view() + above_steps(path@),
{
    let ghost before = steps.deep_view();
    match path_parent(path) {
        Some(dir) => {
            push_step(steps, should_step(Op::CreateDir(dir)));
        },
        None => {},
    }
    assert(steps.deep_view() =~= before + above_steps(path@));
}

/// The steps that link the units for network links to where they are looked for,
/// in place of what stands there.
pub open spec fn link_unit_steps(link_units: Seq<char>, dest: Seq<char>) -> Seq<StepView> {
    above_steps(dest) + seq![
        if_holds(CheckView::Occupied(dest), 1),
        should(OpView::RemoveFile(dest)),
        should(OpView::Symlink { target: link_units, link: dest }),
    ]
}

/// Links the units for network links to where they are looked for.
pub fn setup_link_units(link_units: &str, dest: &str) -> (r: Vec<Step>)
    ensures
        r.deep_view() == link_unit_steps(link_units@, dest@),
{
    let mut steps = no_steps();
    push_above(&mut steps, dest);
    push_step(&mut steps, if_holds_step(Check::Occupied(dest.to_owned()), 1));
    push_step(&mut steps, should_step(Op::RemoveFile(dest.to_owned())));
    push_step(
        &mut steps,
        should_step(Op::Symlink { target: link_units.to_owned(), link: dest.to_owned() }),
    );
    assert(steps.deep_view() =~= link_unit_steps(link_units@, dest@));
    steps
}

/// The steps that activate the volumes of LVM; it goes on whatever comes of it.
pub open spec fn lvm_steps() -> Seq<StepView> {
    seq![
        log("Activating LVM volumes..."@),
        StepView::Do {
            op: command2("lvm"@, "vgchange"@, "-ay"@),
            success: ResponseView::Log("LVM volumes activated"@),
            exit: ResponseView::Log("No LVM volumes found or activation failed"@),
            failure: ResponseView::Log("lvm not available, skipping LVM activation"@),
        },
    ]
}

/// Activates the volumes of LVM.
pub fn activate_lvm() -> (r: Vec<Step>)
    ensures
        r.deep_view() == lvm_steps(),
{
    let mut steps = no_steps();
    push_step(&mut steps, log_step("Activating LVM volumes..."));
    push_step(
        &mut steps,
        Step::Do {
            op: run2("lvm", "vgchange", "-ay"),
            success: Response::Log("LVM volumes activated".to_owned()),
            exit: Response::Log("No LVM volumes found or activation failed".to_owned()),
            failure: Response::Log("lvm not available, skipping LVM activation".to_owned()),
        },
    );
    assert(steps.deep_view() =~= lvm_steps());
    steps
}

// ---------------------------------------------------------------------------
// Laws
// ---------------------------------------------------------------------------
/// However a hook ends, the bootstrap goes on; it stops only where the shell
/// cannot be run.
pub proof fn lemma_hook_is_only_warned_about(
    path: Seq<char>,
    description: Seq<char>,
    outcome: Outcome,
)
    ensures
        ({
            let steps = hook_steps(Some(path), description);
            let r = reaction(steps[2], outcome);
            &&& steps.len() == 3
            &&& r.fails() <==> outcome == Outcome::Failed
            &&& outcome == Outcome::Exited(Some(0)) ==> r == ReactionView::Continue
        }),
{
}

/// Whatever comes of LVM, the bootstrap goes on.
pub proof fn lemma_lvm_never_stops(i: int, outcome: Outcome)
    requires
        0 <= i < lvm_steps().len(),
    ensures
        !reaction(lvm_steps()[i], outcome).stops(),
{
}

/// A hook without content is as good as none.
pub proof fn lemma_empty_hook(
    path: Seq<char>,
    description: Seq<char>,
    holds: spec_fn(CheckView) -> bool,
    outcome: spec_fn(OpView) -> Outcome,
)
    requires
        !holds(CheckView::HasContent(path)),
    ensures
        performed(hook_steps(Some(path), description), 0, holds, outcome) == Seq::<OpView>::empty(),
{
    reveal_with_fuel(performed, 2);
    assert(performed(hook_steps(Some(path), description), 3, holds, outcome) == Seq::<
        OpView,
    >::empty());
}

/// What is mounted already is not mounted again.
pub proof fn lemma_mounted_is_left_alone(
    holds: spec_fn(CheckView) -> bool,
    outcome: spec_fn(OpView) -> Outcome,
)
    requires
        forall|path: Seq<char>| #[trigger] holds(CheckView::Mounted(path)),
    ensures
        performed(kernel_mount_steps() + helper_mount_steps(), 0, holds, outcome) == Seq::<
            OpView,
        >::empty(),
{
    let steps = kernel_mount_steps() + helper_mount_steps();
    assert(steps.len() == 15);
    assert(holds(CheckView::Mounted("/proc"@)));
    assert(holds(CheckView::Mounted("/sys"@)));
    assert(holds(CheckView::Mounted("/dev"@)));
    assert(holds(CheckView::Mounted("/dev/pts"@)));
    assert(holds(CheckView::Mounted("/run"@)));
    assert(holds(CheckView::Mounted("/tmp"@)));
    assert(performed(steps, 15, holds, outcome) == Seq::<OpView>::empty());
    assert(performed(steps, 13, holds, outcome) == Seq::<OpView>::empty());
    assert(performed(steps, 11, holds, outcome) == Seq::<OpView>::empty());
    assert(performed(steps, 8, holds, outcome) == Seq::<OpView>::empty());
    assert(performed(steps, 6, holds, outcome) == Seq::<OpView>::empty());
    assert(performed(steps, 3, holds, outcome) == Seq::<OpView>::empty());
}

/// The programs among the extra utilities are found first by the search path, and
/// are known under their usual paths wherever nothing stands there yet.
pub proof fn lemma_extra_utilities_are_found(
    utils: Seq<char>,
    holds: spec_fn(CheckView) -> bool,
    outcome: spec_fn(OpView) -> Outcome,
)
    requires
        utils.len() > 0 && utils.last() != '/',
        all_goes_well(outcome),
    ensures
        ({
            let bin = utils + "/bin"@;
            let sbin = utils + "/sbin"@;
            performed(environment_steps(Some(utils)), 0, holds, outcome) == seq![
                OpView::SetVar { name: "PATH"@, value: bin + ":"@ + sbin },
                OpView::SetVar { name: "LD_LIBRARY_PATH"@, value: utils + "/lib"@ },
            ] + (if holds(CheckView::Exists("/bin"@)) {
                Seq::empty()
            } else {
                seq![
                    OpView::RemoveFile("/bin"@),
                    OpView::Symlink { target: bin, link: "/bin"@ },
                ]
            }) + (if holds(CheckView::Exists("/sbin"@)) {
                Seq::empty()
            } else {
                seq![
                    OpView::RemoveFile("/sbin"@),
                    OpView::Symlink { target: sbin, link: "/sbin"@ },
                ]
            })
        }),
{
    reveal_strlit("bin");
    reveal_strlit("sbin");
    reveal_strlit("lib");
    reveal_strlit("/bin");
    reveal_strlit("/sbin");
    reveal_strlit("/lib");
    reveal_strlit(":");
    reveal_strlit("/bin:");
    lemma_joined(utils, "bin"@);
    lemma_joined(utils, "sbin"@);
    lemma_joined(utils, "lib"@);
    let bin = utils + "/bin"@;
    let sbin = utils + "/sbin"@;
    assert(joined(utils, "bin"@) =~= bin);
    assert(joined(utils, "sbin"@) =~= sbin);
    assert(joined(utils, "lib"@) =~= utils + "/lib"@);
    assert(utils + "/bin:"@ + utils + "/sbin"@ =~= bin + ":"@ + sbin);
    let steps = environment_steps(Some(utils));
    assert(steps.len() == 8);
    let link_bin = OpView::Symlink { target: bin, link: "/bin"@ };
    let link_sbin = OpView::Symlink { target: sbin, link: "/sbin"@ };
    let first = seq![
        OpView::SetVar { name: "PATH"@, value: bin + ":"@ + sbin },
        OpView::SetVar { name: "LD_LIBRARY_PATH"@, value: utils + "/lib"@ },
    ];
    assert(does(steps[0], first[0]));
    assert(does(steps[1], first[1]));
    assert(steps[2] == if_fails(CheckView::Exists("/bin"@), 2));
    assert(does(steps[3], OpView::RemoveFile("/bin"@)));
    assert(does(steps[4], link_bin));
    assert(steps[5] == if_fails(CheckView::Exists("/sbin"@), 2));
    assert(does(steps[6], OpView::RemoveFile("/sbin"@)));
    assert(does(steps[7], link_sbin));
    let b = if holds(CheckView::Exists("/sbin"@)) {
        Seq::empty()
    } else {
        seq![OpView::RemoveFile("/sbin"@), link_sbin]
    };
    let a = if holds(CheckView::Exists("/bin"@)) {
        Seq::empty()
    } else {
        seq![OpView::RemoveFile("/bin"@), link_bin]
    };
    assert(performed(steps, 8, holds, outcome) == Seq::<OpView>::empty());
    assert(performed(steps, 7, holds, outcome) =~= seq![link_sbin]);
    assert(performed(steps, 6, holds, outcome) =~= seq![OpView::RemoveFile("/sbin"@), link_sbin]);
    assert(performed(steps, 5, holds, outcome) =~= b);
    assert(performed(steps, 4, holds, outcome) =~= seq![link_bin] + b);
    assert(performed(steps, 3, holds, outcome) =~= seq![OpView::RemoveFile("/bin"@), link_bin] + b);
    assert(performed(steps, 2, holds, outcome) =~= a + b);
    assert(performed(steps, 1, holds, outcome) =~= seq![first[1]] + (a + b));
    assert(performed(steps, 0, holds, outcome) =~= first + a + b);
}

/// Without extra utilities only the search path is set, to the usual one.
pub proof fn lemma_usual_search_path(
    holds: spec_fn(CheckView) -> bool,
    outcome: spec_fn(OpView) -> Outcome,
)
    ensures
        performed(environment_steps(None), 0, holds, outcome) == seq![
            OpView::SetVar { name: "PATH"@, value: "/bin:/sbin:/usr/bin:/usr/sbin"@ },
        ],
{
    reveal_with_fuel(performed, 2);
    assert(performed(environment_steps(None), 1, holds, outcome) == Seq::<OpView>::empty());
    assert(performed(environment_steps(None), 0, holds, outcome) =~= seq![
        OpView::SetVar { name: "PATH"@, value: "/bin:/sbin:/usr/bin:/usr/sbin"@ },
    ]);
}

/// Every directory that later phases mount on or write to is created, whatever is
/// there, and the first one that cannot be is fatal.
pub proof fn lemma_directories_are_created(
    holds: spec_fn(CheckView) -> bool,
    outcome: spec_fn(OpView) -> Outcome,
)
    requires
        all_goes_well(outcome),
    ensures
        performed(
            essential_directories().map_values(|dir: Seq<char>| directory_step(dir)),
            0,
            holds,
            outcome,
        ) == seq![
            OpView::CreateDir("/etc"@),
            OpView::CreateDir("/dev"@),
            OpView::CreateDir("/proc"@),
            OpView::CreateDir("/sys"@),
            OpView::CreateDir("/run"@),
            OpView::CreateDir("/tmp"@),
            OpView::CreateDir("/mnt"@),
            OpView::CreateDir("/mnt-root"@),
            OpView::CreateDir("/var"@),
            OpView::CreateDir("/var/log"@),
        ],
        forall|dir: Seq<char>|
            reaction(#[trigger] directory_step(dir), Outcome::Failed) == ReactionView::Abort(
                "Failed to create directory: "@ + dir,
            ),
{
    let steps = essential_directories().map_values(|dir: Seq<char>| directory_step(dir));
    let ops = seq![
        OpView::CreateDir("/etc"@),
        OpView::CreateDir("/dev"@),
        OpView::CreateDir("/proc"@),
        OpView::CreateDir("/sys"@),
        OpView::CreateDir("/run"@),
        OpView::CreateDir("/tmp"@),
        OpView::CreateDir("/mnt"@),
        OpView::CreateDir("/mnt-root"@),
        OpView::CreateDir("/var"@),
        OpView::CreateDir("/var/log"@),
    ];
    assert(steps.len() == 10);
    assert(performed(steps, 10, holds, outcome) =~= ops.skip(10));
    assert(does(steps[9], ops[9]));
    assert(performed(steps, 9, holds, outcome) =~= ops.skip(9));
    assert(does(steps[8], ops[8]));
    assert(performed(steps, 8, holds, outcome) =~= ops.skip(8));
    assert(does(steps[7], ops[7]));
    assert(performed(steps, 7, holds, outcome) =~= ops.skip(7));
    assert(does(steps[6], ops[6]));
    assert(performed(steps, 6, holds, outcome) =~= ops.skip(6));
    assert(does(steps[5], ops[5]));
    assert(performed(steps, 5, holds, outcome) =~= ops.skip(5));
    assert(does(steps[4], ops[4]));
    assert(performed(steps, 4, holds, outcome) =~= ops.skip(4));
    assert(does(steps[3], ops[3]));
    assert(performed(steps, 3, holds, outcome) =~= ops.skip(3));
    assert(does(steps[2], ops[2]));
    assert(performed(steps, 2, holds, outcome) =~= ops.skip(2));
    assert(does(steps[1], ops[1]));
    assert(performed(steps, 1, holds, outcome) =~= ops.skip(1));
    assert(does(steps[0], ops[0]));
    assert(performed(steps, 0, holds, outcome) =~= ops.skip(0));
}

/// Where nothing stands yet, the console, the sink for output and the kernel's log
/// come into being with the numbers by which the kernel knows them. A node that is
/// there stays.
pub proof fn lemma_nodes_are_made(
    holds: spec_fn(CheckView) -> bool,
    outcome: spec_fn(OpView) -> Outcome,
)
    requires
        all_goes_well(outcome),
    ensures
        performed(device_steps(), 0, holds, outcome) == node_unless(
            holds,
            "/dev/console"@,
            0o600,
            5,
            1,
        ) + node_unless(holds, "/dev/null"@, 0o666, 1, 3) + node_unless(
            holds,
            "/dev/kmsg"@,
            0o600,
            1,
            11,
        ),
{
    let steps = device_steps();
    let a = node_unless(holds, "/dev/console"@, 0o600, 5, 1);
    let b = node_unless(holds, "/dev/null"@, 0o666, 1, 3);
    let c = node_unless(holds, "/dev/kmsg"@, 0o600, 1, 11);
    reveal_with_fuel(performed, 3);
    assert(performed(steps, 6, holds, outcome) == Seq::<OpView>::empty());
    assert(performed(steps, 4, holds, outcome) =~= c);
    assert(performed(steps, 2, holds, outcome) =~= b + c);
    assert(performed(steps, 0, holds, outcome) =~= a + b + c);
}

/// The node of a device, unless something stands there.
pub open spec fn node_unless(
    holds: spec_fn(CheckView) -> bool,
    path: Seq<char>,
    mode: u32,
    major: u64,
    minor: u64,
) -> Seq<OpView> {
    if holds(CheckView::Exists(path)) {
        Seq::empty()
    } else {
        seq![OpView::MakeNode { path, mode, number: device_of_numbers(major, minor) }]
    }
}

/// The list of mounts is that of the kernel. A file that is there keeps its
/// content, and nothing takes the place of a link, be it a dangling one.
pub proof fn lemma_files_are_made(
    holds: spec_fn(CheckView) -> bool,
    outcome: spec_fn(OpView) -> Outcome,
)
    requires
        all_goes_well(outcome),
    ensures
        performed(file_steps(), 0, holds, outcome) == (if holds(CheckView::Exists("/etc/fstab"@)) {
            Seq::empty()
        } else {
            seq![OpView::WriteFile { path: "/etc/fstab"@, content: "# Initial fstab\n"@ }]
        }) + (if holds(CheckView::Occupied("/etc/mtab"@)) {
            Seq::empty()
        } else {
            seq![
                OpView::RemoveFile("/etc/mtab"@),
                OpView::Symlink { target: "/proc/mounts"@, link: "/etc/mtab"@ },
            ]
        }) + (if holds(CheckView::Exists("/var/log/messages"@)) {
            Seq::empty()
        } else {
            seq![OpView::WriteFile { path: "/var/log/messages"@, content: ""@ }]
        }),
{
    let steps = file_steps();
    let a = if holds(CheckView::Exists("/etc/fstab"@)) {
        Seq::empty()
    } else {
        seq![OpView::WriteFile { path: "/etc/fstab"@, content: "# Initial fstab\n"@ }]
    };
    let b = if holds(CheckView::Occupied("/etc/mtab"@)) {
        Seq::empty()
    } else {
        seq![
            OpView::RemoveFile("/etc/mtab"@),
            OpView::Symlink { target: "/proc/mounts"@, link: "/etc/mtab"@ },
        ]
    };
    let c = if holds(CheckView::Exists("/var/log/messages"@)) {
        Seq::empty()
    } else {
        seq![OpView::WriteFile { path: "/var/log/messages"@, content: ""@ }]
    };
    reveal_with_fuel(performed, 3);
    assert(performed(steps, 7, holds, outcome) == Seq::<OpView>::empty());
    assert(performed(steps, 5, holds, outcome) =~= c);
    assert(performed(steps, 4, holds, outcome) =~= seq![
        OpView::Symlink { target: "/proc/mounts"@, link: "/etc/mtab"@ },
    ] + c);
    assert(performed(steps, 2, holds, outcome) =~= b + c);
    assert(performed(steps, 0, holds, outcome) =~= a + b + c);
}

/// The mount of a pseudo filesystem under a name of its own.
pub open spec fn pseudo(
    fstype: Seq<char>,
    target: Seq<char>,
    flags: u64,
    data: Option<Seq<char>>,
) -> OpView {
    OpView::Mount(
        MountCallView { source: Some(fstype), target, fstype: Some(fstype), flags, data },
    )
}

/// Where nothing is mounted yet, all pseudo filesystems are, in an order in which
/// each one finds its mount point, and with the restrictions that go with it: what
/// others may write to gives no rights and holds no devices.
pub proof fn lemma_pseudo_filesystems(
    holds: spec_fn(CheckView) -> bool,
    outcome: spec_fn(OpView) -> Outcome,
)
    requires
        all_goes_well(outcome),
        forall|path: Seq<char>| !(#[trigger] holds(CheckView::Mounted(path))),
    ensures
        performed(kernel_mount_steps() + helper_mount_steps(), 0, holds, outcome) == seq![
            OpView::CreateDir("/proc"@),
            pseudo("proc"@, "/proc"@, MS_NOSUID | MS_NOEXEC | MS_NODEV, None),
            OpView::CreateDir("/sys"@),
            pseudo("sysfs"@, "/sys"@, MS_NOSUID | MS_NOEXEC | MS_NODEV, None),
            pseudo("devtmpfs"@, "/dev"@, MS_NOSUID | MS_STRICTATIME, Some("mode=0755"@)),
            OpView::CreateDir("/dev/pts"@),
            pseudo("devpts"@, "/dev/pts"@, MS_NOSUID | MS_NOEXEC, Some("mode=0620,gid=5"@)),
            pseudo(
                "tmpfs"@,
                "/run"@,
                MS_NOSUID | MS_NODEV | MS_STRICTATIME,
                Some("mode=0755"@),
            ),
            pseudo(
                "tmpfs"@,
                "/tmp"@,
                MS_NOSUID | MS_NODEV | MS_STRICTATIME,
                Some("mode=1777"@),
            ),
        ],
{
    let steps = kernel_mount_steps() + helper_mount_steps();
    assert(steps.len() == 15);
    let ops = seq![
        OpView::CreateDir("/proc"@),
        pseudo("proc"@, "/proc"@, MS_NOSUID | MS_NOEXEC | MS_NODEV, None),
        OpView::CreateDir("/sys"@),
        pseudo("sysfs"@, "/sys"@, MS_NOSUID | MS_NOEXEC | MS_NODEV, None),
        pseudo("devtmpfs"@, "/dev"@, MS_NOSUID | MS_STRICTATIME, Some("mode=0755"@)),
        OpView::CreateDir("/dev/pts"@),
        pseudo("devpts"@, "/dev/pts"@, MS_NOSUID | MS_NOEXEC, Some("mode=0620,gid=5"@)),
        pseudo("tmpfs"@, "/run"@, MS_NOSUID | MS_NODEV | MS_STRICTATIME, Some("mode=0755"@)),
        pseudo("tmpfs"@, "/tmp"@, MS_NOSUID | MS_NODEV | MS_STRICTATIME, Some("mode=1777"@)),
    ];
    assert(!holds(CheckView::Mounted("/proc"@)));
    assert(!holds(CheckView::Mounted("/sys"@)));
    assert(!holds(CheckView::Mounted("/dev"@)));
    assert(!holds(CheckView::Mounted("/dev/pts"@)));
    assert(!holds(CheckView::Mounted("/run"@)));
    assert(!holds(CheckView::Mounted("/tmp"@)));
    assert(performed(steps, 15, holds, outcome) =~= ops.skip(9));
    assert(does(steps[14], ops[8]));
    assert(performed(steps, 14, holds, outcome) =~= ops.skip(8));
    assert(performed(steps, 13, holds, outcome) =~= ops.skip(8));
    assert(does(steps[12], ops[7]));
    assert(performed(steps, 12, holds, outcome) =~= ops.skip(7));
    assert(performed(steps, 11, holds, outcome) =~= ops.skip(7));
    assert(does(steps[10], ops[6]));
    assert(performed(steps, 10, holds, outcome) =~= ops.skip(6));
    assert(does(steps[9], ops[5]));
    assert(performed(steps, 9, holds, outcome) =~= ops.skip(5));
    assert(performed(steps, 8, holds, outcome) =~= ops.skip(5));
    assert(does(steps[7], ops[4]));
    assert(performed(steps, 7, holds, outcome) =~= ops.skip(4));
    assert(performed(steps, 6, holds, outcome) =~= ops.skip(4));
    assert(does(steps[5], ops[3]));
    assert(performed(steps, 5, holds, outcome) =~= ops.skip(3));
    assert(does(steps[4], ops[2]));
    assert(performed(steps, 4, holds, outcome) =~= ops.skip(2));
    assert(performed(steps, 3, holds, outcome) =~= ops.skip(2));
    assert(does(steps[2], ops[1]));
    assert(performed(steps, 2, holds, outcome) =~= ops.skip(1));
    assert(does(steps[1], ops[0]));
    assert(performed(steps, 1, holds, outcome) =~= ops.skip(0));
    assert(performed(steps, 0, holds, outcome) =~= ops.skip(0));
}

/// Before anything else `/proc` is mounted, unless it is; nothing hangs on it.
pub proof fn lemma_proc_comes_first(
    holds: spec_fn(CheckView) -> bool,
    outcome: spec_fn(OpView) -> Outcome,
)
    ensures
        performed(early_proc_steps(), 0, holds, outcome) == seq![OpView::CreateDir("/proc"@)] + (
        if holds(CheckView::Mounted("/proc"@)) {
            Seq::empty()
        } else {
            seq![pseudo("proc"@, "/proc"@, MS_NOSUID | MS_NOEXEC | MS_NODEV, None)]
        }),
        !script_fails(early_proc_steps(), 0, holds, outcome),
{
    let steps = early_proc_steps();
    reveal_with_fuel(performed, 3);
    reveal_with_fuel(script_fails, 4);
    let rest = if holds(CheckView::Mounted("/proc"@)) {
        Seq::empty()
    } else {
        seq![pseudo("proc"@, "/proc"@, MS_NOSUID | MS_NOEXEC | MS_NODEV, None)]
    };
    assert(performed(steps, 3, holds, outcome) == Seq::<OpView>::empty());
    assert(performed(steps, 2, holds, outcome) =~= seq![
        pseudo("proc"@, "/proc"@, MS_NOSUID | MS_NOEXEC | MS_NODEV, None),
    ]);
    assert(performed(steps, 1, holds, outcome) =~= rest);
    assert(performed(steps, 0, holds, outcome) =~= seq![OpView::CreateDir("/proc"@)] + rest);
    assert(!script_fails(steps, 3, holds, outcome));
    assert(!script_fails(steps, 2, holds, outcome));
    assert(!script_fails(steps, 1, holds, outcome));
}

/// A hook with content is run by the shell, and nothing else is.
pub proof fn lemma_hook_is_run(
    path: Seq<char>,
    description: Seq<char>,
    holds: spec_fn(CheckView) -> bool,
    outcome: spec_fn(OpView) -> Outcome,
)
    requires
        holds(CheckView::HasContent(path)),
    ensures
        performed(hook_steps(Some(path), description), 0, holds, outcome) == seq![
            OpView::Log("Running "@ + description + ": "@ + quoted(path)),
            OpView::Run(CommandView { program: "sh"@, args: seq![path] }),
        ],
        performed(hook_steps(None, description), 0, holds, outcome) == Seq::<OpView>::empty(),
{
    let steps = hook_steps(Some(path), description);
    let run = OpView::Run(CommandView { program: "sh"@, args: seq![path] });
    assert(does(steps[2], run));
    assert(performed(steps, 3, holds, outcome) == Seq::<OpView>::empty());
    assert(performed(steps, 2, holds, outcome) =~= seq![run]);
    assert(performed(steps, 1, holds, outcome) =~= seq![
        OpView::Log("Running "@ + description + ": "@ + quoted(path)),
        run,
    ]);
}

/// The units for network links are what is found where they are looked for, in
/// place of whatever stood there, below a directory that is made.
pub proof fn lemma_link_units_are_found(
    units: Seq<char>,
    dest: Seq<char>,
    holds: spec_fn(CheckView) -> bool,
    outcome: spec_fn(OpView) -> Outcome,
)
    requires
        parent(dest) is Some,
        all_goes_well(outcome),
    ensures
        performed(link_unit_steps(units, dest), 0, holds, outcome) == seq![
            OpView::CreateDir(parent(dest)->0),
        ] + (if holds(CheckView::Occupied(dest)) {
            seq![OpView::RemoveFile(dest)]
        } else {
            Seq::empty()
        }) + seq![OpView::Symlink { target: units, link: dest }],
{
    let steps = link_unit_steps(units, dest);
    let link = OpView::Symlink { target: units, link: dest };
    let gone = if holds(CheckView::Occupied(dest)) {
        seq![OpView::RemoveFile(dest)]
    } else {
        Seq::empty()
    };
    assert(steps.len() == 4);
    assert(does(steps[0], OpView::CreateDir(parent(dest)->0)));
    assert(steps[1] == if_holds(CheckView::Occupied(dest), 1));
    assert(does(steps[2], OpView::RemoveFile(dest)));
    assert(does(steps[3], link));
    assert(performed(steps, 4, holds, outcome) == Seq::<OpView>::empty());
    assert(performed(steps, 3, holds, outcome) =~= seq![link]);
    assert(performed(steps, 2, holds, outcome) =~= seq![OpView::RemoveFile(dest), link]);
    assert(performed(steps, 1, holds, outcome) =~= gone + seq![link]);
    assert(performed(steps, 0, holds, outcome) =~= seq![OpView::CreateDir(parent(dest)->0)] + gone
        + seq![link]);
}

/// Every volume group is activated.
pub proof fn lemma_volumes_are_activated(
    holds: spec_fn(CheckView) -> bool,
    outcome: spec_fn(OpView) -> Outcome,
)
    ensures
        performed(lvm_steps(), 0, holds, outcome) == seq![
            OpView::Log("Activating LVM volumes..."@),
            OpView::Run(CommandView { program: "lvm"@, args: seq!["vgchange"@, "-ay"@] }),
        ],
{
    let steps = lvm_steps();
    let run = OpView::Run(CommandView { program: "lvm"@, args: seq!["vgchange"@, "-ay"@] });
    assert(does(steps[1], run));
    assert(performed(steps, 2, holds, outcome) == Seq::<OpView>::empty());
    assert(performed(steps, 1, holds, outcome) =~= seq![run]);
    assert(performed(steps, 0, holds, outcome) =~= seq![
        OpView::Log("Activating LVM volumes..."@),
        run,
    ]);
}

/// The identity of the host is the number that eight hexadecimal digits write,
/// whatever white space stands around them; everything else is refused before
/// anything is written.
pub proof fn lemma_host_identity(
    text: Seq<char>,
    digits: Seq<char>,
    n: nat,
    holds: spec_fn(CheckView) -> bool,
    outcome: spec_fn(OpView) -> Outcome,
)
    requires
        trimmed(text) == digits,
    ensures
        ({
            let steps = host_id_steps(Some(text));
            let ops = performed(steps, 0, holds, outcome);
            &&& encode_utf8(digits).len() == 8 && digits.len() == 8 && digits[0] != '+'
                && digits_value(digits, 16) == Some(n) && n <= u32::MAX ==> ops == seq![
                OpView::Log("Setting host ID: "@ + digits),
                OpView::WriteWord { path: "/etc/hostid"@, word: n as u32 },
            ]
            &&& encode_utf8(digits).len() != 8 || hex_u32(digits) is None ==> ops == Seq::<
                OpView,
            >::empty() && script_fails(steps, 0, holds, outcome)
        }),
        performed(host_id_steps(None), 0, holds, outcome) == Seq::<OpView>::empty(),
        !script_fails(host_id_steps(None), 0, holds, outcome),
{
    let steps = host_id_steps(Some(text));
    reveal_with_fuel(performed, 3);
    if encode_utf8(digits).len() == 8 && digits.len() == 8 && digits[0] != '+' && digits_value(
        digits,
        16,
    ) == Some(n) && n <= u32::MAX {
        let write = OpView::WriteWord { path: "/etc/hostid"@, word: n as u32 };
        assert(hex_u32(digits) == Some(n));
        assert(does(steps[1], write));
        assert(performed(steps, 2, holds, outcome) == Seq::<OpView>::empty());
        assert(performed(steps, 1, holds, outcome) =~= seq![write]);
        assert(performed(steps, 0, holds, outcome) =~= seq![
            OpView::Log("Setting host ID: "@ + digits),
            write,
        ]);
    }
}

/// It goes on without anything of the environment but the links to the extra
/// utilities.
pub proof fn lemma_vital_environment(utils: Seq<char>)
    ensures
        vital_are(environment_steps(Some(utils)), |op: OpView| op is Symlink),
        exits_are_fine(environment_steps(Some(utils))),
{
    let steps = environment_steps(Some(utils));
    assert(steps.len() == 8);
}

/// No directory can be done without.
pub proof fn lemma_vital_directories()
    ensures
        vital_are(
            essential_directories().map_values(|dir: Seq<char>| directory_step(dir)),
            |op: OpView| true,
        ),
        exits_are_fine(essential_directories().map_values(|dir: Seq<char>| directory_step(dir))),
{
    let steps = essential_directories().map_values(|dir: Seq<char>| directory_step(dir));
    assert(steps.len() == 10);
}

/// No node can be done without but that for the kernel's log.
pub proof fn lemma_vital_nodes()
    ensures
        vital_are(
            device_steps(),
            |op: OpView| !(op is MakeNode && op->MakeNode_path == "/dev/kmsg"@),
        ),
        exits_are_fine(device_steps()),
{
    let steps = device_steps();
    reveal_strlit("/dev/kmsg");
    reveal_strlit("/dev/null");
    reveal_strlit("/dev/console");
    assert("/dev/kmsg"@[5] == 'k' && "/dev/null"@[5] == 'n' && "/dev/console"@[5] == 'c');
    assert(steps.len() == 6);
}

/// What stands in the way of a file need not be removed, but no file can be done
/// without.
pub proof fn lemma_vital_files()
    ensures
        vital_are(file_steps(), |op: OpView| !(op is RemoveFile)),
        exits_are_fine(file_steps()),
{
    let steps = file_steps();
    assert(steps.len() == 7);
}

/// The kernel's own filesystems cannot be done without, the others can; a mount
/// point always has to be created.
pub proof fn lemma_vital_mounts()
    ensures
        vital_are(
            kernel_mount_steps() + helper_mount_steps(),
            |op: OpView|
                op is CreateDir || op is Mount && (op->Mount_0.target == "/proc"@
                    || op->Mount_0.target == "/sys"@ || op->Mount_0.target == "/dev"@),
        ),
        exits_are_fine(kernel_mount_steps() + helper_mount_steps()),
{
    let steps = kernel_mount_steps() + helper_mount_steps();
    reveal_strlit("/proc");
    reveal_strlit("/sys");
    reveal_strlit("/dev");
    reveal_strlit("/dev/pts");
    reveal_strlit("/run");
    reveal_strlit("/tmp");
    assert("/proc"@.len() == 5 && "/dev/pts"@.len() == 8);
    assert("/sys"@[1] == 's' && "/dev"@[1] == 'd' && "/run"@[1] == 'r' && "/tmp"@[1] == 't');
    assert("/sys"@.len() == 4 && "/dev"@.len() == 4 && "/run"@.len() == 4 && "/tmp"@.len() == 4);
    assert(steps.len() == 15);
}

/// Units for network links that cannot be linked are an error.
pub proof fn lemma_vital_link_units(units: Seq<char>, dest: Seq<char>)
    ensures
        vital_are(link_unit_steps(units, dest), |op: OpView| true),
        exits_are_fine(link_unit_steps(units, dest)),
{
    let steps = link_unit_steps(units, dest);
}

/// An identity of the host that cannot be written is an error.
pub proof fn lemma_vital_host_identity(text: Seq<char>)
    ensures
        vital_are(host_id_steps(Some(text)), |op: OpView| op is WriteWord),
        exits_are_fine(host_id_steps(Some(text))),
{
    let steps = host_id_steps(Some(text));
}

/// The error of a hook names the hook, and what is said of its end gives its exit
/// code.
pub proof fn lemma_errors_of_hooks(path: Seq<char>, description: Seq<char>, code: i32)
    requires
        code != 0,
    ensures
        ({
            let step = hook_steps(Some(path), description)[2];
            &&& reaction(step, Outcome::Failed) == ReactionView::Abort(
                "Failed to run "@ + description,
            )
            &&& reaction(step, Outcome::Exited(Some(code))) == ReactionView::Log(
                "Warning: "@ + description + " exited with status: "@ + ("Some("@
                    + signed_decimal(code as int) + ")"@),
            )
        }),
{
}

/// A refused identity of the host is quoted in the error.
pub proof fn lemma_errors_of_host_identity(text: Seq<char>)
    ensures
        encode_utf8(trimmed(text)).len() != 8 ==> host_id_steps(Some(text)) == seq![
            halt("HOST_ID must be an 8-character hex string, got: '"@ + trimmed(text) + "'"@),
        ],
        encode_utf8(trimmed(text)).len() == 8 && hex_u32(trimmed(text)) is None
            ==> host_id_steps(Some(text)) == seq![
            halt_for(
                "Invalid HOST_ID hex string: '"@ + trimmed(text) + "'"@,
                "invalid digit found in string"@,
            ),
        ],
{
}

/// What is said of LVM fits what came of it.
pub proof fn lemma_words_on_lvm(code: i32)
    requires
        code != 0,
    ensures
        reaction(lvm_steps()[1], Outcome::Exited(Some(0))) == ReactionView::Log(
            "LVM volumes activated"@,
        ),
        reaction(lvm_steps()[1], Outcome::Exited(Some(code))) == ReactionView::Log(
            "No LVM volumes found or activation failed"@,
        ),
        reaction(lvm_steps()[1], Outcome::Failed) == ReactionView::Log(
            "lvm not available, skipping LVM activation"@,
        ),
{
}

} // verus!
