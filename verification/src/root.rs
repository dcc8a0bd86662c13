//! Mounting the root filesystem: what it is, where it is found, and in which
//! order it is waited for, checked and mounted.
use vstd::prelude::*;

use crate::bcachefs::{mount_bcachefs, BcachefsMount};
use crate::cmdline::KernelCmdline;
use crate::device_manager::DeviceManager;
#[allow(unused_imports)]
use crate::device_manager::DeviceManagerView;
use crate::fsck::{run_fsck, Fsck, FsckState};
use crate::fsinfo::{needs_fsck, FsInfo};
#[allow(unused_imports)]
use crate::fsinfo::{is_checked, FsInfoView};
use crate::paths::{is_root_path, quote_path};
#[allow(unused_imports)]
use crate::paths::{is_root, quoted};
use crate::poll::{Poll, PollState};
use crate::script::{
    attempt_step, command, log_step, must_step, no_steps, push_step, should_step, MountCall, Op,
    Response, Step,
};
#[allow(unused_imports)]
use crate::script::{
    attempt, does, exits_are_fine, lemma_scripts_in_a_row, log, must, performed, reaction,
    script_stops, should, vital_are, CheckView, CommandView, MountCallView, OpView, Outcome,
    ReactionView, ResponseView, StepView,
};
use crate::text::{
    cat2, cat4, copy_texts, holds_text, push_text, same_text, split_char, starts_with, texts1,
    texts2,
};
#[allow(unused_imports)]
use crate::text::{
    has_prefix, join, lemma_contains_push, lemma_split_of_join, lemma_take_next, split,
};

verus! {

/// How often a wait for the root device has block devices announced again, in
/// milliseconds.
pub const ROOT_RETRIGGER_MILLIS: u64 = 3000;

/// How long the root device is waited for, in seconds.
pub const ROOT_WAIT_SECS: u64 = 30;

// ---------------------------------------------------------------------------
// What the root filesystem is
// ---------------------------------------------------------------------------
/// The first entry for the root directory.
pub open spec fn root_entry(entries: Seq<FsInfoView>) -> Option<FsInfoView>
    decreases entries.len(),
{
    if entries.len() == 0 {
        None
    } else if is_root(entries[0].mountpoint) {
        Some(entries[0])
    } else {
        root_entry(entries.skip(1))
    }
}

/// The root device: the one on the kernel command line, else the listed one.
pub open spec fn root_device(
    asked: Option<Seq<char>>,
    entry: Option<FsInfoView>,
) -> Option<Seq<char>> {
    match asked {
        Some(device) => Some(device),
        None => match entry {
            Some(e) => Some(e.device),
            None => None,
        },
    }
}

/// A list of options with those of another that it does not hold yet behind.
pub open spec fn merged(base: Seq<Seq<char>>, more: Seq<Seq<char>>) -> Seq<Seq<char>>
    decreases more.len(),
{
    if more.len() == 0 {
        base
    } else {
        let front = merged(base, more.drop_last());
        if front.contains(more.last()) {
            front
        } else {
            front.push(more.last())
        }
    }
}

/// The options of the root filesystem: those on the kernel command line, then
/// the listed ones that are new, and `rw` unless `ro` or `rw` is among them.
pub open spec fn root_options(
    rootflags: Option<Seq<char>>,
    entry: Option<FsInfoView>,
) -> Seq<Seq<char>> {
    let base = match rootflags {
        Some(flags) => split(flags, ','),
        None => Seq::empty(),
    };
    let all = match entry {
        Some(e) => merged(base, e.options),
        None => base,
    };
    if all.contains("ro"@) || all.contains("rw"@) {
        all
    } else {
        all.push("rw"@)
    }
}

/// The ways in which a root filesystem is mounted.
#[derive(Debug, Clone, Copy, PartialEq, Eq, Structural)]
pub enum RootKind {
    /// In memory.
    Tmpfs,
    /// Over the network.
    Nfs,
    Cifs,
    /// By a program of its own, which also waits for its devices.
    Bcachefs,
    /// On a block device.
    Block,
}

/// How the root filesystem on a device is mounted, given the type that is known
/// beforehand.
pub open spec fn root_kind(device: Seq<char>, fstype: Option<Seq<char>>) -> RootKind {
    if device == "tmpfs"@ {
        RootKind::Tmpfs
    } else if has_prefix(device, "/dev/nfs"@) || has_prefix(device, "nfs:"@) {
        RootKind::Nfs
    } else if has_prefix(device, "//"@) {
        RootKind::Cifs
    } else if fstype == Some("bcachefs"@) {
        RootKind::Bcachefs
    } else {
        RootKind::Block
    }
}

/// The first of two texts that is there.
pub open spec fn either(a: Option<Seq<char>>, b: Option<Seq<char>>) -> Option<Seq<char>> {
    match a {
        Some(t) => Some(t),
        None => b,
    }
}

/// The filesystem type: the one on the kernel command line, else the one that
/// udev found, else the listed one, else `auto`.
pub open spec fn root_fstype(
    asked: Option<Seq<char>>,
    found: Option<Seq<char>>,
    listed: Option<Seq<char>>,
) -> Seq<char> {
    match either(asked, either(found, listed)) {
        Some(t) => t,
        None => "auto"@,
    }
}

/// The steps that mount a root filesystem which is on no device.
pub open spec fn special_steps(
    kind: RootKind,
    device: Seq<char>,
    target_root: Seq<char>,
    rootflags: Option<Seq<char>>,
) -> Seq<StepView> {
    let (source, fstype, data, context) = match kind {
        RootKind::Tmpfs => ("tmpfs"@, "tmpfs"@, "mode=0755"@, "Failed to mount tmpfs root"@),
        RootKind::Nfs => (
            device,
            "nfs"@,
            either(rootflags, Some("nolock"@))->0,
            "Failed to mount NFS root"@,
        ),
        _ => (device, "cifs"@, either(rootflags, Some(""@))->0, "Failed to mount CIFS root"@),
    };
    seq![
        should(OpView::CreateDir(target_root)),
        must(
            OpView::Mount(
                MountCallView {
                    source: Some(source),
                    target: target_root,
                    fstype: Some(fstype),
                    flags: 0,
                    data: Some(data),
                },
            ),
            context,
        ),
    ]
}

/// Whether a root device is a link that udev keeps, which is followed to the
/// device.
pub open spec fn is_udev_link(device: Seq<char>) -> bool {
    has_prefix(device, "/dev/disk/by-label/"@) || has_prefix(device, "/dev/disk/by-uuid/"@)
}

/// The steps by which late devices come up while the root device is waited for:
/// block devices are announced again, and where there is LVM its volumes are
/// activated.
pub open spec fn late_device_steps(dm: DeviceManagerView) -> Seq<StepView> {
    dm.retrigger_steps() + seq![
        StepView::Do {
            op: OpView::RunQuiet(CommandView { program: "lvm"@, args: seq!["--version"@] }),
            success: ResponseView::Continue,
            exit: ResponseView::Finish,
            failure: ResponseView::Finish,
        },
        attempt(
            OpView::RunQuiet(CommandView { program: "lvm"@, args: seq!["vgchange"@, "-ay"@] }),
        ),
    ]
}

// ---------------------------------------------------------------------------
// The order of things
// ---------------------------------------------------------------------------
/// Where the mount of the root filesystem stands.
#[derive(Debug, PartialEq, Eq)]
pub enum RootState {
    /// There is no root device.
    NoDevice,
    /// It is mounted without a device.
    Special(RootKind),
    /// `mount.bcachefs` does it.
    Bcachefs,
    /// The device is waited for.
    Resolve,
    /// The type of the filesystem on the device is asked for.
    FsType { device: String },
    /// The filesystem is checked.
    Check { device: String, fstype: String },
    /// Its mount point is created.
    Prepare { device: String, fstype: String },
    /// The filesystem is mounted.
    Mount { device: String, fstype: String },
    Mounted,
    /// The device did not come up in time.
    TimedOut,
    /// A step failed.
    Failed,
    /// The mount itself failed.
    MountFailed { device: String },
}

pub enum RootStateView {
    NoDevice,
    Special(RootKind),
    Bcachefs,
    Resolve,
    FsType { device: Seq<char> },
    Check { device: Seq<char>, fstype: Seq<char> },
    Prepare { device: Seq<char>, fstype: Seq<char> },
    Mount { device: Seq<char>, fstype: Seq<char> },
    Mounted,
    TimedOut,
    Failed,
    MountFailed { device: Seq<char> },
}

impl DeepView for RootState {
    type V = RootStateView;

    open spec fn deep_view(&self) -> RootStateView {
        match self {
            RootState::NoDevice => RootStateView::NoDevice,
            RootState::Special(kind) => RootStateView::Special(*kind),
            RootState::Bcachefs => RootStateView::Bcachefs,
            RootState::Resolve => RootStateView::Resolve,
            RootState::FsType { device } => RootStateView::FsType { device: device@ },
            RootState::Check { device, fstype } => RootStateView::Check {
                device: device@,
                fstype: fstype@,
            },
            RootState::Prepare { device, fstype } => RootStateView::Prepare {
                device: device@,
                fstype: fstype@,
            },
            RootState::Mount { device, fstype } => RootStateView::Mount {
                device: device@,
                fstype: fstype@,
            },
            RootState::Mounted => RootStateView::Mounted,
            RootState::TimedOut => RootStateView::TimedOut,
            RootState::Failed => RootStateView::Failed,
            RootState::MountFailed { device } => RootStateView::MountFailed { device: device@ },
        }
    }
}

/// What the mount of the root filesystem learns.
#[derive(Debug, PartialEq, Eq)]
pub enum RootEvent {
    /// What was asked for is done.
    Done,
    /// What was asked for failed.
    Failed,
    /// The device that was found, if it came up in time.
    Resolved(Option<String>),
    /// The filesystem type that udev found.
    FsType(Option<String>),
}

pub enum RootEventView {
    Done,
    Failed,
    Resolved(Option<Seq<char>>),
    FsType(Option<Seq<char>>),
}

impl DeepView for RootEvent {
    type V = RootEventView;

    open spec fn deep_view(&self) -> RootEventView {
        match self {
            RootEvent::Done => RootEventView::Done,
            RootEvent::Failed => RootEventView::Failed,
            RootEvent::Resolved(device) => RootEventView::Resolved(device.deep_view()),
            RootEvent::FsType(fstype) => RootEventView::FsType(fstype.deep_view()),
        }
    }
}

/// What the mount of the root filesystem is about.
pub struct RootTask {
    pub device: Option<Seq<char>>,
    pub target_root: Seq<char>,
    pub rootflags: Option<Seq<char>>,
    pub rootfstype: Option<Seq<char>>,
    pub listed_fstype: Option<Seq<char>>,
    pub options: Seq<Seq<char>>,
    pub check_journaling: bool,
}

impl RootTask {
    /// Where it begins.
    pub open spec fn start(self) -> RootStateView {
        match self.device {
            None => RootStateView::NoDevice,
            Some(device) => match root_kind(device, either(self.rootfstype, self.listed_fstype)) {
                RootKind::Bcachefs => RootStateView::Bcachefs,
                RootKind::Block => RootStateView::Resolve,
                kind => RootStateView::Special(kind),
            },
        }
    }

    /// Where it goes once the device and the type are known: to the check where
    /// there is one for that type, else to the mount.
    pub open spec fn ready(self, device: Seq<char>, fstype: Seq<char>) -> RootStateView {
        if is_checked(fstype, self.check_journaling) {
            RootStateView::Check { device, fstype }
        } else {
            RootStateView::Prepare { device, fstype }
        }
    }

    /// Where it stands after an event. What does not belong to a state changes
    /// nothing.
    pub open spec fn next(self, state: RootStateView, event: RootEventView) -> RootStateView {
        match (state, event) {
            (RootStateView::Special(_), RootEventView::Done) => RootStateView::Mounted,
            (RootStateView::Special(_), RootEventView::Failed) => RootStateView::Failed,
            (RootStateView::Bcachefs, RootEventView::Done) => RootStateView::Mounted,
            (RootStateView::Bcachefs, RootEventView::Failed) => RootStateView::Failed,
            (RootStateView::Resolve, RootEventView::Resolved(Some(device))) => {
                match self.rootfstype {
                    Some(fstype) => self.ready(device, fstype),
                    None => RootStateView::FsType { device },
                }
            },
            (RootStateView::Resolve, RootEventView::Resolved(None)) => RootStateView::TimedOut,
            (RootStateView::FsType { device }, RootEventView::FsType(found)) => self.ready(
                device,
                root_fstype(self.rootfstype, found, self.listed_fstype),
            ),
            (RootStateView::Check { device, fstype }, RootEventView::Done) => {
                RootStateView::Prepare { device, fstype }
            },
            (RootStateView::Check { .. }, RootEventView::Failed) => RootStateView::Failed,
            (RootStateView::Prepare { device, fstype }, RootEventView::Done) => {
                RootStateView::Mount { device, fstype }
            },
            (RootStateView::Prepare { .. }, RootEventView::Failed) => RootStateView::Failed,
            (RootStateView::Mount { .. }, RootEventView::Done) => RootStateView::Mounted,
            (RootStateView::Mount { device, .. }, RootEventView::Failed) => {
                RootStateView::MountFailed { device }
            },
            _ => state,
        }
    }

    /// What is logged on an event.
    pub open spec fn log(self, state: RootStateView, event: RootEventView) -> Seq<StepView> {
        match (state, event) {
            (RootStateView::Bcachefs, RootEventView::Done) => seq![
                log("Root filesystem mounted at "@ + quoted(self.target_root)),
            ],
            (RootStateView::Mount { .. }, RootEventView::Done) => seq![
                log("Root filesystem mounted at "@ + quoted(self.target_root)),
            ],
            (RootStateView::Resolve, RootEventView::Resolved(Some(device))) => seq![
                log("Using root device: "@ + device),
            ],
            _ => Seq::empty(),
        }
    }
}

/// The mount of the root filesystem.
#[derive(Debug, PartialEq, Eq)]
pub struct RootMount {
    pub device: Option<String>,
    pub target_root: String,
    pub rootflags: Option<String>,
    pub rootfstype: Option<String>,
    pub listed_fstype: Option<String>,
    pub options: Vec<String>,
    pub check_journaling: bool,
    pub state: RootState,
}

impl RootMount {
    /// Whether this is the beginning of a task.
    pub open spec fn begins(self, task: RootTask) -> bool {
        self.task() == task && self.state.deep_view() == task.start()
    }

    pub open spec fn task(self) -> RootTask {
        RootTask {
            device: self.device.deep_view(),
            target_root: self.target_root@,
            rootflags: self.rootflags.deep_view(),
            rootfstype: self.rootfstype.deep_view(),
            listed_fstype: self.listed_fstype.deep_view(),
            options: self.options.deep_view(),
            check_journaling: self.check_journaling,
        }
    }
}

/// What the mount of the root filesystem asks for next, or what came of it.
#[derive(Debug, PartialEq, Eq)]
pub enum RootRequest {
    /// Perform the steps.
    Perform(Vec<Step>),
    /// Perform the steps, then mount.
    Bcachefs { steps: Vec<Step>, mount: BcachefsMount },
    /// Wait for the device, following it first where `follow` says so; the steps
    /// are for each time that devices are announced again.
    Resolve { device: String, follow: bool, poll: Poll, retrigger: Vec<Step> },
    /// Ask udev for the filesystem type.
    FsType { device: String },
    /// Check the filesystem.
    Check(Fsck),
    /// Mount the device.
    Mount { device: String, target: String, fstype: String, options: Vec<String> },
    /// The root filesystem is mounted.
    Mounted,
    /// Fail with the message.
    Fail(String),
    /// Fail with the error of what failed.
    Raise,
    /// Fail with the error of what failed, under the message.
    RaiseAs(String),
}

pub enum RootRequestView {
    Perform(Seq<StepView>),
    Bcachefs {
        steps: Seq<StepView>,
        device: Seq<char>,
        target: Seq<char>,
        options: Seq<Seq<char>>,
        timeout_secs: Option<u64>,
    },
    Resolve {
        device: Seq<char>,
        follow: bool,
        limit: u64,
        interval: u64,
        begun: bool,
        retrigger: Seq<StepView>,
    },
    FsType { device: Seq<char> },
    Check { device: Seq<char>, fstype: Seq<char>, begun: bool },
    Mount {
        device: Seq<char>,
        target: Seq<char>,
        fstype: Seq<char>,
        options: Seq<Seq<char>>,
    },
    Mounted,
    Fail(Seq<char>),
    Raise,
    RaiseAs(Seq<char>),
}

impl DeepView for RootRequest {
    type V = RootRequestView;

    open spec fn deep_view(&self) -> RootRequestView {
        match self {
            RootRequest::Perform(steps) => RootRequestView::Perform(steps.deep_view()),
            RootRequest::Bcachefs { steps, mount } => RootRequestView::Bcachefs {
                steps: steps.deep_view(),
                device: mount.device@,
                target: mount.mountpoint@,
                options: mount.options.deep_view(),
                timeout_secs: mount.timeout_secs,
            },
            RootRequest::Resolve { device, follow, poll, retrigger } => RootRequestView::Resolve {
                device: device@,
                follow: *follow,
                limit: poll.limit,
                interval: poll.interval,
                begun: poll.state == PollState::Timing,
                retrigger: retrigger.deep_view(),
            },
            RootRequest::FsType { device } => RootRequestView::FsType { device: device@ },
            RootRequest::Check(check) => RootRequestView::Check {
                device: check.device@,
                fstype: check.fstype@,
                begun: check.state == FsckState::Mounted,
            },
            RootRequest::Mount { device, target, fstype, options } => RootRequestView::Mount {
                device: device@,
                target: target@,
                fstype: fstype@,
                options: options.deep_view(),
            },
            RootRequest::Mounted => RootRequestView::Mounted,
            RootRequest::Fail(m) => RootRequestView::Fail(m@),
            RootRequest::Raise => RootRequestView::Raise,
            RootRequest::RaiseAs(m) => RootRequestView::RaiseAs(m@),
        }
    }
}

impl RootTask {
    /// What is asked for in a state.
    pub open spec fn request(self, state: RootStateView, dm: DeviceManagerView) -> RootRequestView {
        let device = either(self.device, Some(""@))->0;
        match state {
            RootStateView::NoDevice => RootRequestView::Fail(
                "No root= parameter specified on kernel command line and no '/' entry in fsInfo"@,
            ),
            RootStateView::Special(kind) => RootRequestView::Perform(
                special_steps(kind, device, self.target_root, self.rootflags),
            ),
            RootStateView::Bcachefs => RootRequestView::Bcachefs {
                steps: dm.retrigger_steps(),
                device,
                target: self.target_root,
                options: self.options,
                timeout_secs: Some(30),
            },
            RootStateView::Resolve => RootRequestView::Resolve {
                device,
                follow: is_udev_link(device),
                limit: 30_000,
                interval: ROOT_RETRIGGER_MILLIS,
                begun: true,
                retrigger: late_device_steps(dm),
            },
            RootStateView::FsType { device } => RootRequestView::FsType { device },
            RootStateView::Check { device, fstype } => RootRequestView::Check {
                device,
                fstype,
                begun: true,
            },
            RootStateView::Prepare { .. } => RootRequestView::Perform(
                seq![should(OpView::CreateDir(self.target_root))],
            ),
            RootStateView::Mount { device, fstype } => RootRequestView::Mount {
                device,
                target: self.target_root,
                fstype,
                options: self.options,
            },
            RootStateView::Mounted => RootRequestView::Mounted,
            RootStateView::TimedOut => RootRequestView::Fail(
                "Timed out waiting for root device: "@ + device,
            ),
            RootStateView::Failed => RootRequestView::Raise,
            RootStateView::MountFailed { device } => RootRequestView::RaiseAs(
                "Failed to mount root filesystem "@ + device + " at "@ + quoted(self.target_root),
            ),
        }
    }
}

// ---------------------------------------------------------------------------
// Executable functions
// ---------------------------------------------------------------------------
fn find_root(entries: &Vec<FsInfo>) -> (r: usize)
    ensures
        r <= entries@.len(),
        r < entries@.len() ==> root_entry(entries.deep_view()) == Some(
            entries@[r as int].deep_view(),
        ),
        r == entries@.len() ==> root_entry(entries.deep_view()) is None,
{
    let ghost all = entries.deep_view();
    let mut i: usize = 0;
    assert(all.skip(0) =~= all);
    while i < entries.len()
        invariant
            i <= entries@.len(),
            all == entries.deep_view(),
            root_entry(all) == root_entry(all.skip(i as int)),
        decreases entries.len() - i,
    {
        proof {
            assert(all.skip(i as int)[0] == entries@[i as int].deep_view());
            assert(all.skip(i as int).skip(1) =~= all.skip(i + 1));
        }
        if is_root_path(entries[i].mountpoint.as_str()) {
            return i;
        }
        i = i + 1;
    }
    i
}

fn merge_options(base: &mut Vec<String>, more: &Vec<String>)
    ensures
        final(base).deep_view() == merged(old(base).deep_view(), more.deep_view()),
{
    let ghost start = base.deep_view();
    let mut i: usize = 0;
    while i < more.len()
        invariant
            i <= more@.len(),
            base.deep_view() == merged(start, more.deep_view().take(i as int)),
        decreases more.len() - i,
    {
        proof {
            lemma_take_next(more.deep_view(), i as int);
        }
        if !holds_text(base, more[i].as_str()) {
            push_text(base, more[i].clone());
        }
        i = i + 1;
    }
    assert(more.deep_view().take(more@.len() as int) =~= more.deep_view());
}

/// The options of the root filesystem.
pub fn root_mount_options(rootflags: &Option<String>, entry: Option<&FsInfo>) -> (r: Vec<String>)
    ensures
        r.deep_view() == root_options(
            rootflags.deep_view(),
            match entry {
                Some(e) => Some(e.deep_view()),
                None => None,
            },
        ),
{
    let mut options: Vec<String> = match rootflags {
        Some(flags) => split_char(flags.as_str(), ','),
        None => Vec::new(),
    };
    assert(rootflags is None ==> options.deep_view() =~= Seq::<Seq<char>>::empty());
    match entry {
        Some(e) => {
            merge_options(&mut options, &e.options);
        },
        None => {},
    }
    if !holds_text(&options, "ro") && !holds_text(&options, "rw") {
        push_text(&mut options, "rw".to_owned());
    }
    options
}

fn kind_of_root(device: &str, fstype: Option<&String>) -> (r: RootKind)
    ensures
        r == root_kind(device@, fstype.deep_view()),
{
    if same_text(device, "tmpfs") {
        RootKind::Tmpfs
    } else if starts_with(device, "/dev/nfs") || starts_with(device, "nfs:") {
        RootKind::Nfs
    } else if starts_with(device, "//") {
        RootKind::Cifs
    } else {
        let bcachefs = match fstype {
            Some(t) => same_text(t.as_str(), "bcachefs"),
            None => false,
        };
        if bcachefs {
            RootKind::Bcachefs
        } else {
            RootKind::Block
        }
    }
}

/// What the mount of the root filesystem is about, from the kernel command line
/// and the list of filesystems.
pub open spec fn root_task(
    cmdline: KernelCmdline,
    target_root: Seq<char>,
    entries: Seq<FsInfoView>,
    check_journaling: bool,
) -> RootTask {
    let entry = root_entry(entries);
    RootTask {
        device: root_device(cmdline.root.deep_view(), entry),
        target_root,
        rootflags: cmdline.param("rootflags"@),
        rootfstype: cmdline.param("rootfstype"@),
        listed_fstype: match entry {
            Some(e) => Some(e.fstype),
            None => None,
        },
        options: root_options(cmdline.param("rootflags"@), entry),
        check_journaling,
    }
}

/// Begins to mount the root filesystem, with the steps that announce it.
pub fn mount_root(
    cmdline: &KernelCmdline,
    target_root: &str,
    fs_infos: &Vec<FsInfo>,
    check_journaling: bool,
) -> (r: (Vec<Step>, RootMount))
    ensures
        r.0.deep_view() == seq![log("Mounting root filesystem..."@)],
        r.1.begins(
            root_task(*cmdline, target_root@, fs_infos.deep_view(), check_journaling),
        ),
{
    let mut steps = no_steps();
    push_step(&mut steps, log_step("Mounting root filesystem..."));
    assert(steps.deep_view() =~= seq![log("Mounting root filesystem..."@)]);
    let i = find_root(fs_infos);
    let entry: Option<&FsInfo> = if i < fs_infos.len() {
        Some(&fs_infos[i])
    } else {
        None
    };
    let device: Option<String> = match &cmdline.root {
        Some(device) => Some(device.clone()),
        None => match entry {
            Some(e) => Some(e.device.clone()),
            None => None,
        },
    };
    let listed_fstype: Option<String> = match entry {
        Some(e) => Some(e.fstype.clone()),
        None => None,
    };
    let rootflags: Option<String> = match cmdline.get("rootflags") {
        Some(flags) => Some(flags.clone()),
        None => None,
    };
    let rootfstype: Option<String> = match cmdline.get("rootfstype") {
        Some(fstype) => Some(fstype.clone()),
        None => None,
    };
    let options = root_mount_options(&rootflags, entry);
    let state = match &device {
        None => RootState::NoDevice,
        Some(device) => {
            let early = match &rootfstype {
                Some(t) => Some(t),
                None => listed_fstype.as_ref(),
            };
            match kind_of_root(device.as_str(), early) {
                RootKind::Bcachefs => RootState::Bcachefs,
                RootKind::Block => RootState::Resolve,
                kind => RootState::Special(kind),
            }
        },
    };
    (
        steps,
        RootMount {
            device,
            target_root: target_root.to_owned(),
            rootflags,
            rootfstype,
            listed_fstype,
            options,
            check_journaling,
            state,
        },
    )
}

fn text_or(text: &Option<String>, default: &str) -> (r: String)
    ensures
        r@ == either(text.deep_view(), Some(default@))->0,
{
    match text {
        Some(t) => t.clone(),
        None => default.to_owned(),
    }
}

fn mount_special(kind: RootKind, device: &str, target_root: &str, rootflags: &Option<String>) -> (r:
    Vec<Step>)
    ensures
        r.deep_view() == special_steps(kind, device@, target_root@, rootflags.deep_view()),
{
    let (source, fstype, data, context) = match kind {
        RootKind::Tmpfs => (
            "tmpfs".to_owned(),
            "tmpfs".to_owned(),
            "mode=0755".to_owned(),
            "Failed to mount tmpfs root",
        ),
        RootKind::Nfs => (
            device.to_owned(),
            "nfs".to_owned(),
            text_or(rootflags, "nolock"),
            "Failed to mount NFS root",
        ),
        _ => (
            device.to_owned(),
            "cifs".to_owned(),
            text_or(rootflags, ""),
            "Failed to mount CIFS root",
        ),
    };
    let mut steps = no_steps();
    push_step(&mut steps, should_step(Op::CreateDir(target_root.to_owned())));
    let call = MountCall {
        source: Some(source),
        target: target_root.to_owned(),
        fstype: Some(fstype),
        flags: 0,
        data: Some(data),
    };
    push_step(&mut steps, must_step(Op::Mount(call), context));
    assert(steps.deep_view() =~= special_steps(kind, device@, target_root@, rootflags.deep_view()));
    steps
}

fn bring_up_late_devices(dm: &DeviceManager) -> (r: Vec<Step>)
    ensures
        r.deep_view() == late_device_steps(dm@),
{
    let mut steps = dm.retrigger_block();
    push_step(
        &mut steps,
        Step::Do {
            op: Op::RunQuiet(command("lvm", texts1("--version"))),
            success: Response::Continue,
            exit: Response::Finish,
            failure: Response::Finish,
        },
    );
    push_step(
        &mut steps,
        attempt_step(Op::RunQuiet(command("lvm", texts2("vgchange", "-ay")))),
    );
    assert(steps.deep_view() =~= late_device_steps(dm@));
    steps
}

impl RootMount {
    fn prepare(&self) -> (r: Vec<Step>)
        ensures
            r.deep_view() == seq![should(OpView::CreateDir(self.target_root@))],
    {
        let mut steps = no_steps();
        push_step(&mut steps, should_step(Op::CreateDir(self.target_root.clone())));
        assert(steps.deep_view() =~= seq![should(OpView::CreateDir(self.target_root@))]);
        steps
    }

    /// What is due.
    pub fn request(&self, dm: &DeviceManager) -> (r: RootRequest)
        ensures
            r.deep_view() == self.task().request(self.state.deep_view(), dm@),
    {
        let root = text_or(&self.device, "");
        match &self.state {
            RootState::NoDevice => {
                let m =
                "No root= parameter specified on kernel command line and no '/' entry in fsInfo";
                RootRequest::Fail(m.to_owned())
            },
            RootState::Special(kind) => RootRequest::Perform(
                mount_special(*kind, root.as_str(), self.target_root.as_str(), &self.rootflags),
            ),
            RootState::Bcachefs => RootRequest::Bcachefs {
                steps: dm.retrigger_block(),
                mount: mount_bcachefs(
                    root.as_str(),
                    self.target_root.as_str(),
                    copy_texts(&self.options),
                    Some(30),
                ),
            },
            RootState::Resolve => {
                let follow = starts_with(root.as_str(), "/dev/disk/by-label/") || starts_with(
                    root.as_str(),
                    "/dev/disk/by-uuid/",
                );
                RootRequest::Resolve {
                    device: root,
                    follow,
                    poll: Poll::new(ROOT_WAIT_SECS, ROOT_RETRIGGER_MILLIS),
                    retrigger: bring_up_late_devices(dm),
                }
            },
            RootState::FsType { device } => RootRequest::FsType { device: device.clone() },
            RootState::Check { device, fstype } => RootRequest::Check(
                run_fsck(device.as_str(), fstype.as_str()),
            ),
            RootState::Prepare { .. } => RootRequest::Perform(self.prepare()),
            RootState::Mount { device, fstype } => RootRequest::Mount {
                device: device.clone(),
                target: self.target_root.clone(),
                fstype: fstype.clone(),
                options: copy_texts(&self.options),
            },
            RootState::Mounted => RootRequest::Mounted,
            RootState::TimedOut => RootRequest::Fail(
                cat2("Timed out waiting for root device: ", root.as_str()),
            ),
            RootState::Failed => RootRequest::Raise,
            RootState::MountFailed { device } => RootRequest::RaiseAs(
                cat4(
                    "Failed to mount root filesystem ",
                    device.as_str(),
                    " at ",
                    quote_path(self.target_root.as_str()).as_str(),
                ),
            ),
        }
    }

    fn ready(&self, device: String, fstype: String) -> (r: RootState)
        ensures
            r.deep_view() == self.task().ready(device@, fstype@),
    {
        if needs_fsck(fstype.as_str(), self.check_journaling) {
            RootState::Check { device, fstype }
        } else {
            RootState::Prepare { device, fstype }
        }
    }

    fn fstype(&self, found: Option<String>) -> (r: String)
        ensures
            r@ == root_fstype(
                self.rootfstype.deep_view(),
                found.deep_view(),
                self.listed_fstype.deep_view(),
            ),
    {
        match &self.rootfstype {
            Some(t) => t.clone(),
            None => match found {
                Some(t) => t,
                None => text_or(&self.listed_fstype, "auto"),
            },
        }
    }

    fn next_state(&self, event: RootEvent) -> (r: RootState)
        ensures
            r.deep_view() == self.task().next(self.state.deep_view(), event.deep_view()),
    {
        match (&self.state, event) {
            (RootState::Special(_), RootEvent::Done) => RootState::Mounted,
            (RootState::Special(_), RootEvent::Failed) => RootState::Failed,
            (RootState::Bcachefs, RootEvent::Done) => RootState::Mounted,
            (RootState::Bcachefs, RootEvent::Failed) => RootState::Failed,
            (RootState::Resolve, RootEvent::Resolved(Some(device))) => match &self.rootfstype {
                Some(fstype) => self.ready(device, fstype.clone()),
                None => RootState::FsType { device },
            },
            (RootState::Resolve, RootEvent::Resolved(None)) => RootState::TimedOut,
            (RootState::FsType { device }, RootEvent::FsType(found)) => self.ready(
                device.clone(),
                self.fstype(found),
            ),
            (RootState::Check { device, fstype }, RootEvent::Done) => RootState::Prepare {
                device: device.clone(),
                fstype: fstype.clone(),
            },
            (RootState::Check { .. }, RootEvent::Failed) => RootState::Failed,
            (RootState::Prepare { device, fstype }, RootEvent::Done) => RootState::Mount {
                device: device.clone(),
                fstype: fstype.clone(),
            },
            (RootState::Prepare { .. }, RootEvent::Failed) => RootState::Failed,
            (RootState::Mount { .. }, RootEvent::Done) => RootState::Mounted,
            (RootState::Mount { device, .. }, RootEvent::Failed) => RootState::MountFailed {
                device: device.clone(),
            },
            (state, _) => copy_state(state),
        }
    }

    /// Goes on after an event. The steps that come back log it.
    pub fn step(&mut self, event: RootEvent) -> (r: Vec<Step>)
        ensures
            final(self).task() == old(self).task(),
            final(self).state.deep_view() == old(self).task().next(
                old(self).state.deep_view(),
                event.deep_view(),
            ),
            r.deep_view() == old(self).task().log(
                old(self).state.deep_view(),
                event.deep_view(),
            ),
    {
        let mut steps = no_steps();
        let ghost task = self.task();
        let ghost was = self.state.deep_view();
        let ghost seen = event.deep_view();
        let mounted = match (&self.state, &event) {
            (RootState::Bcachefs, RootEvent::Done) => true,
            (RootState::Mount { .. }, RootEvent::Done) => true,
            _ => false,
        };
        if mounted {
            let m = cat2(
                "Root filesystem mounted at ",
                quote_path(self.target_root.as_str()).as_str(),
            );
            push_step(&mut steps, log_step(m.as_str()));
        }
        match (&self.state, &event) {
            (RootState::Resolve, RootEvent::Resolved(Some(device))) => {
                let m = cat2("Using root device: ", device.as_str());
                push_step(&mut steps, log_step(m.as_str()));
            },
            _ => {},
        }
        assert(steps.deep_view() =~= task.log(was, seen));
        self.state = self.next_state(event);
        steps
    }
}

fn copy_state(state: &RootState) -> (r: RootState)
    ensures
        r.deep_view() == state.deep_view(),
{
    match state {
        RootState::NoDevice => RootState::NoDevice,
        RootState::Special(kind) => RootState::Special(*kind),
        RootState::Bcachefs => RootState::Bcachefs,
        RootState::Resolve => RootState::Resolve,
        RootState::FsType { device } => RootState::FsType { device: device.clone() },
        RootState::Check { device, fstype } => RootState::Check {
            device: device.clone(),
            fstype: fstype.clone(),
        },
        RootState::Prepare { device, fstype } => RootState::Prepare {
            device: device.clone(),
            fstype: fstype.clone(),
        },
        RootState::Mount { device, fstype } => RootState::Mount {
            device: device.clone(),
            fstype: fstype.clone(),
        },
        RootState::Mounted => RootState::Mounted,
        RootState::TimedOut => RootState::TimedOut,
        RootState::Failed => RootState::Failed,
        RootState::MountFailed { device } => RootState::MountFailed { device: device.clone() },
    }
}

// ---------------------------------------------------------------------------
// Laws
// ---------------------------------------------------------------------------
impl RootTask {
    /// Where it stands after a row of events.
    pub open spec fn after(self, events: Seq<RootEventView>) -> RootStateView
        decreases events.len(),
    {
        if events.len() == 0 {
            self.start()
        } else {
            self.next(self.after(events.drop_last()), events.last())
        }
    }
}

/// Whether the filesystem on a device is about to be mounted.
pub open spec fn mounts(state: RootStateView, device: Seq<char>, fstype: Seq<char>) -> bool {
    ||| state == (RootStateView::Prepare { device, fstype })
    ||| state == (RootStateView::Mount { device, fstype })
}

/// A filesystem whose type is to be checked is mounted only after its check came
/// out well.
pub proof fn lemma_checked_before_mount(
    task: RootTask,
    events: Seq<RootEventView>,
    device: Seq<char>,
    fstype: Seq<char>,
)
    requires
        mounts(task.after(events), device, fstype),
        is_checked(fstype, task.check_journaling),
    ensures
        exists|k: int|
            0 <= k < events.len() && (#[trigger] task.after(events.take(k))) == (
            RootStateView::Check { device, fstype }) && events[k] == RootEventView::Done,
    decreases events.len(),
{
    if events.len() > 0 {
        let front = events.drop_last();
        assert(front =~= events.take(events.len() - 1));
        if mounts(task.after(front), device, fstype) {
            lemma_checked_before_mount(task, front, device, fstype);
            let k = choose|k: int|
                0 <= k < front.len() && (#[trigger] task.after(front.take(k))) == (
                RootStateView::Check { device, fstype }) && front[k] == RootEventView::Done;
            assert(front.take(k) =~= events.take(k));
            assert(task.after(events.take(k)) == (RootStateView::Check { device, fstype }));
        } else {
            assert(task.after(events.take(events.len() - 1)) == (RootStateView::Check {
                device,
                fstype,
            }));
        }
    }
}

/// A check that fails is the end: the filesystem is not mounted, whatever
/// happens then.
pub proof fn lemma_failed_check_is_final(
    task: RootTask,
    device: Seq<char>,
    fstype: Seq<char>,
    event: RootEventView,
)
    ensures
        task.next(RootStateView::Check { device, fstype }, RootEventView::Failed)
            == RootStateView::Failed,
        task.next(RootStateView::Failed, event) == RootStateView::Failed,
{
}

/// A filesystem on a block device is not touched before the device came up.
pub proof fn lemma_resolved_before_use(task: RootTask, events: Seq<RootEventView>)
    ensures
        ({
            let state = task.after(events);
            &&& (state matches RootStateView::FsType { device } ==> events.contains(
                RootEventView::Resolved(Some(device)),
            ))
            &&& (state matches RootStateView::Check { device, fstype } ==> events.contains(
                RootEventView::Resolved(Some(device)),
            ))
            &&& (state matches RootStateView::Prepare { device, fstype } ==> events.contains(
                RootEventView::Resolved(Some(device)),
            ))
            &&& (state matches RootStateView::Mount { device, fstype } ==> events.contains(
                RootEventView::Resolved(Some(device)),
            ))
        }),
    decreases events.len(),
{
    if events.len() > 0 {
        let front = events.drop_last();
        lemma_resolved_before_use(task, front);
        assert(events[events.len() - 1] == events.last());
        assert forall|e: RootEventView| front.contains(e) implies #[trigger] events.contains(e) by {
            let i = choose|i: int| 0 <= i < front.len() && front[i] == e;
            assert(events[i] == e);
        }
    }
}

/// Merging keeps the first list in front as it is, loses nothing, and repeats
/// nothing.
pub proof fn lemma_merged(base: Seq<Seq<char>>, more: Seq<Seq<char>>)
    ensures
        merged(base, more).len() >= base.len(),
        merged(base, more).take(base.len() as int) == base,
        forall|o: Seq<char>| #[trigger]
            merged(base, more).contains(o) <==> base.contains(o) || more.contains(o),
        base.no_duplicates() ==> merged(base, more).no_duplicates(),
    decreases more.len(),
{
    if more.len() == 0 {
        assert(base.take(base.len() as int) =~= base);
    } else {
        let less = more.drop_last();
        lemma_merged(base, less);
        let front = merged(base, less);
        assert(merged(base, more).take(base.len() as int) =~= front.take(base.len() as int));
        assert(more =~= less.push(more.last()));
        assert forall|o: Seq<char>| #[trigger]
            merged(base, more).contains(o) <==> base.contains(o) || more.contains(o) by {
            lemma_contains_push(less, more.last(), o);
            lemma_contains_push(front, more.last(), o);
        }
        if base.no_duplicates() && !front.contains(more.last()) {
            let all = front.push(more.last());
            assert forall|i: int, j: int| 0 <= i < all.len() && 0 <= j < all.len() && i
                != j implies all[i] != all[j] by {
                if i == front.len() {
                    assert(front[j] == all[j]);
                    assert(front.contains(front[j]));
                } else if j == front.len() {
                    assert(front[i] == all[i]);
                    assert(front.contains(front[i]));
                } else {
                    assert(front[i] == all[i] && front[j] == all[j]);
                }
            }
        }
    }
}

/// The options of the root filesystem hold every option that was asked for or
/// listed, and nothing else but `rw` where neither `ro` nor `rw` was; one of the
/// two is always there.
pub proof fn lemma_root_options(rootflags: Option<Seq<char>>, entry: Option<FsInfoView>)
    ensures
        ({
            let all = root_options(rootflags, entry);
            let asked = match rootflags {
                Some(flags) => split(flags, ','),
                None => Seq::empty(),
            };
            let listed = match entry {
                Some(e) => e.options,
                None => Seq::empty(),
            };
            &&& all.contains("ro"@) || all.contains("rw"@)
            &&& all.len() >= asked.len()
            &&& all.take(asked.len() as int) == asked
            &&& forall|o: Seq<char>| asked.contains(o) || listed.contains(o) ==> #[trigger]
                all.contains(o)
            &&& forall|o: Seq<char>| #[trigger]
                all.contains(o) && o != "rw"@ ==> asked.contains(o) || listed.contains(o)
        }),
{
    let base = match rootflags {
        Some(flags) => split(flags, ','),
        None => Seq::empty(),
    };
    let listed = match entry {
        Some(e) => e.options,
        None => Seq::empty(),
    };
    lemma_merged(base, listed);
    let all = merged(base, listed);
    let full = root_options(rootflags, entry);
    assert(entry is None ==> all == base);
    assert forall|o: Seq<char>| #[trigger] full.contains(o) implies all.contains(o) || o
        == "rw"@ by {
        lemma_contains_push(all, "rw"@, o);
    }
    assert forall|o: Seq<char>| #[trigger] all.contains(o) implies full.contains(o) by {
        lemma_contains_push(all, "rw"@, o);
    }
    lemma_contains_push(all, "rw"@, "rw"@);
    assert forall|o: Seq<char>| base.contains(o) || listed.contains(o) implies #[trigger]
        full.contains(o) by {
        assert(all.contains(o));
    }
    assert forall|o: Seq<char>| #[trigger]
        full.contains(o) && o != "rw"@ implies base.contains(o) || listed.contains(o) by {
        assert(all.contains(o));
    }
    assert(full.take(base.len() as int) =~= all.take(base.len() as int));
}

/// The first entry for the root directory is the one that counts.
pub proof fn lemma_first_root_entry(entries: Seq<FsInfoView>)
    ensures
        match root_entry(entries) {
            Some(e) => exists|i: int|
                0 <= i < entries.len() && #[trigger] entries[i] == e && is_root(e.mountpoint)
                    && forall|j: int| 0 <= j < i ==> !is_root((#[trigger] entries[j]).mountpoint),
            None => forall|i: int|
                0 <= i < entries.len() ==> !is_root((#[trigger] entries[i]).mountpoint),
        },
    decreases entries.len(),
{
    if entries.len() > 0 && !is_root(entries[0].mountpoint) {
        let rest = entries.skip(1);
        lemma_first_root_entry(rest);
        match root_entry(rest) {
            Some(e) => {
                let i = choose|i: int|
                    0 <= i < rest.len() && #[trigger] rest[i] == e && is_root(e.mountpoint)
                        && forall|j: int| 0 <= j < i ==> !is_root((#[trigger] rest[j]).mountpoint);
                assert(entries[i + 1] == e);
                assert forall|j: int| 0 <= j < i + 1 implies !is_root(
                    (#[trigger] entries[j]).mountpoint,
                ) by {
                    if j > 0 {
                        assert(rest[j - 1] == entries[j]);
                    }
                }
            },
            None => {
                assert forall|i: int| 0 <= i < entries.len() implies !is_root(
                    (#[trigger] entries[i]).mountpoint,
                ) by {
                    if i > 0 {
                        assert(rest[i - 1] == entries[i]);
                    }
                }
            },
        }
    } else if entries.len() > 0 {
        assert(entries[0] == root_entry(entries)->0);
    }
}

/// The root device is the one on the kernel command line wherever there is one,
/// else that of the entry for the root directory; without either nothing is
/// mounted and the mount fails.
pub proof fn lemma_root_device(
    cmdline: KernelCmdline,
    target_root: Seq<char>,
    entries: Seq<FsInfoView>,
    check_journaling: bool,
    dm: DeviceManagerView,
)
    ensures
        ({
            let task = root_task(cmdline, target_root, entries, check_journaling);
            &&& cmdline.root.deep_view() matches Some(device) ==> task.device == Some(device)
            &&& cmdline.root is None ==> match root_entry(entries) {
                Some(e) => task.device == Some(e.device),
                None => task.device is None && task.request(task.start(), dm) is Fail,
            }
            &&& task.target_root == target_root
            &&& task.check_journaling == check_journaling
            &&& task.rootfstype == cmdline.param("rootfstype"@)
            &&& task.rootflags == cmdline.param("rootflags"@)
            &&& task.listed_fstype is Some <==> root_entry(entries) is Some
            &&& root_entry(entries) matches Some(e) ==> task.listed_fstype == Some(e.fstype)
        }),
{
}

/// Whether a device is a share of a network: one that begins with two slashes.
pub open spec fn is_share(device: Seq<char>) -> bool {
    device.len() >= 2 && device[0] == '/' && device[1] == '/'
}

/// Whether a device is on an NFS server.
pub open spec fn is_nfs(device: Seq<char>) -> bool {
    has_prefix(device, "/dev/nfs"@) || has_prefix(device, "nfs:"@)
}

/// The mounts among operations.
pub open spec fn only_mount(ops: Seq<OpView>, call: MountCallView) -> bool {
    &&& ops.contains(OpView::Mount(call))
    &&& forall|other: MountCallView| #[trigger]
        ops.contains(OpView::Mount(other)) ==> other == call
}

proof fn lemma_special_root_performs(
    task: RootTask,
    kind: RootKind,
    dm: DeviceManagerView,
    device: Seq<char>,
    call: MountCallView,
    holds: spec_fn(CheckView) -> bool,
    outcome: spec_fn(OpView) -> Outcome,
)
    requires
        task.device == Some(device),
        task.start() == RootStateView::Special(kind),
        outcome(OpView::CreateDir(task.target_root)) == Outcome::Done,
        special_steps(kind, device, task.target_root, task.rootflags).len() == 2,
        does(
            special_steps(kind, device, task.target_root, task.rootflags)[1],
            OpView::Mount(call),
        ),
    ensures
        task.request(task.start(), dm) matches RootRequestView::Perform(steps) && performed(
            steps,
            0,
            holds,
            outcome,
        ) == seq![OpView::CreateDir(task.target_root), OpView::Mount(call)] && only_mount(
            performed(steps, 0, holds, outcome),
            call,
        ),
{
    let steps = special_steps(kind, device, task.target_root, task.rootflags);
    reveal_with_fuel(performed, 3);
    assert(performed(steps, 1, holds, outcome) =~= seq![OpView::Mount(call)]);
    let ops = seq![OpView::CreateDir(task.target_root), OpView::Mount(call)];
    assert(performed(steps, 0, holds, outcome) =~= ops);
    assert(ops[1] == OpView::Mount(call));
    assert forall|other: MountCallView| #[trigger] ops.contains(OpView::Mount(other)) implies other
        == call by {
        let k = choose|k: int| 0 <= k < ops.len() && ops[k] == OpView::Mount(other);
        assert(k == 1);
    }
}

/// A share that the kernel command line names is mounted at the target root as
/// CIFS, by the one mount that is performed, with the options of `rootflags=`
/// wherever they are given: they hold what the server wants to be told.
pub proof fn lemma_cifs_root(
    cmdline: KernelCmdline,
    target_root: Seq<char>,
    entries: Seq<FsInfoView>,
    check_journaling: bool,
    dm: DeviceManagerView,
    share: Seq<char>,
    holds: spec_fn(CheckView) -> bool,
    outcome: spec_fn(OpView) -> Outcome,
)
    requires
        cmdline.root.deep_view() == Some(share),
        is_share(share),
        outcome(OpView::CreateDir(target_root)) == Outcome::Done,
    ensures
        ({
            let task = root_task(cmdline, target_root, entries, check_journaling);
            &&& task.request(task.start(), dm) matches RootRequestView::Perform(steps)
            &&& only_mount(
                performed(steps, 0, holds, outcome),
                MountCallView {
                    source: Some(share),
                    target: target_root,
                    fstype: Some("cifs"@),
                    flags: 0,
                    data: match cmdline.param("rootflags"@) {
                        Some(flags) => Some(flags),
                        None => Some(""@),
                    },
                },
            )
        }),
{
    let task = root_task(cmdline, target_root, entries, check_journaling);
    reveal_strlit("tmpfs");
    reveal_strlit("/dev/nfs");
    reveal_strlit("nfs:");
    reveal_strlit("//");
    assert(share[0] == '/' && share[1] == '/');
    assert("/dev/nfs"@[1] == 'd' && "nfs:"@[0] == 'n' && "tmpfs"@[0] == 't');
    assert(has_prefix(share, "/dev/nfs"@) ==> share.take(8)[1] == 'd');
    assert(has_prefix(share, "nfs:"@) ==> share.take(4)[0] == 'n');
    assert(share.take(2) =~= "//"@);
    let call = MountCallView {
        source: Some(share),
        target: target_root,
        fstype: Some("cifs"@),
        flags: 0,
        data: match cmdline.param("rootflags"@) {
            Some(flags) => Some(flags),
            None => Some(""@),
        },
    };
    lemma_special_root_performs(task, RootKind::Cifs, dm, share, call, holds, outcome);
}

/// An NFS root that the kernel command line names is mounted at the target root,
/// by the one mount that is performed, with the options of `rootflags=` wherever
/// they are given; without them there is no locking, which needs a daemon.
pub proof fn lemma_nfs_root(
    cmdline: KernelCmdline,
    target_root: Seq<char>,
    entries: Seq<FsInfoView>,
    check_journaling: bool,
    dm: DeviceManagerView,
    device: Seq<char>,
    holds: spec_fn(CheckView) -> bool,
    outcome: spec_fn(OpView) -> Outcome,
)
    requires
        cmdline.root.deep_view() == Some(device),
        is_nfs(device),
        outcome(OpView::CreateDir(target_root)) == Outcome::Done,
    ensures
        ({
            let task = root_task(cmdline, target_root, entries, check_journaling);
            &&& task.request(task.start(), dm) matches RootRequestView::Perform(steps)
            &&& only_mount(
                performed(steps, 0, holds, outcome),
                MountCallView {
                    source: Some(device),
                    target: target_root,
                    fstype: Some("nfs"@),
                    flags: 0,
                    data: match cmdline.param("rootflags"@) {
                        Some(flags) => Some(flags),
                        None => Some("nolock"@),
                    },
                },
            )
        }),
{
    let task = root_task(cmdline, target_root, entries, check_journaling);
    reveal_strlit("tmpfs");
    reveal_strlit("/dev/nfs");
    reveal_strlit("nfs:");
    assert("tmpfs"@[0] == 't');
    assert(has_prefix(device, "/dev/nfs"@) ==> device.take(8)[0] == '/');
    assert(has_prefix(device, "nfs:"@) ==> device.take(4)[0] == 'n');
    let call = MountCallView {
        source: Some(device),
        target: target_root,
        fstype: Some("nfs"@),
        flags: 0,
        data: match cmdline.param("rootflags"@) {
            Some(flags) => Some(flags),
            None => Some("nolock"@),
        },
    };
    lemma_special_root_performs(task, RootKind::Nfs, dm, device, call, holds, outcome);
}

/// A root filesystem in memory is a fresh one at the target root, whatever else
/// is asked for.
pub proof fn lemma_tmpfs_root(
    cmdline: KernelCmdline,
    target_root: Seq<char>,
    entries: Seq<FsInfoView>,
    check_journaling: bool,
    dm: DeviceManagerView,
    holds: spec_fn(CheckView) -> bool,
    outcome: spec_fn(OpView) -> Outcome,
)
    requires
        cmdline.root.deep_view() == Some("tmpfs"@),
        outcome(OpView::CreateDir(target_root)) == Outcome::Done,
    ensures
        ({
            let task = root_task(cmdline, target_root, entries, check_journaling);
            &&& task.request(task.start(), dm) matches RootRequestView::Perform(steps)
            &&& only_mount(
                performed(steps, 0, holds, outcome),
                MountCallView {
                    source: Some("tmpfs"@),
                    target: target_root,
                    fstype: Some("tmpfs"@),
                    flags: 0,
                    data: Some("mode=0755"@),
                },
            )
        }),
{
    let task = root_task(cmdline, target_root, entries, check_journaling);
    let call = MountCallView {
        source: Some("tmpfs"@),
        target: target_root,
        fstype: Some("tmpfs"@),
        flags: 0,
        data: Some("mode=0755"@),
    };
    lemma_special_root_performs(task, RootKind::Tmpfs, dm, "tmpfs"@, call, holds, outcome);
}

/// Whether a device has to be waited for and looked at: it is neither in memory
/// nor on a network.
pub open spec fn is_local(device: Seq<char>) -> bool {
    device != "tmpfs"@ && !is_nfs(device) && !has_prefix(device, "//"@)
}

/// A root filesystem that is known to be bcachefs, by `rootfstype=` or, without
/// that, by the list, is handed to `mount.bcachefs` as it is named, at the target
/// root and with all its options; no other local one is.
pub proof fn lemma_bcachefs_root(task: RootTask, dm: DeviceManagerView, device: Seq<char>)
    requires
        task.device == Some(device),
        is_local(device),
    ensures
        ({
            let known = match task.rootfstype {
                Some(fstype) => Some(fstype),
                None => task.listed_fstype,
            };
            let request = task.request(task.start(), dm);
            if known == Some("bcachefs"@) {
                &&& request matches RootRequestView::Bcachefs {
                    steps,
                    device: given,
                    target,
                    options,
                    timeout_secs,
                }
                &&& steps == dm.retrigger_steps()
                &&& given == device
                &&& target == task.target_root
                &&& options == task.options
                &&& timeout_secs == Some(30u64)
            } else {
                &&& request matches RootRequestView::Resolve { device: given, follow, limit, .. }
                &&& given == device
                &&& follow <==> has_prefix(device, "/dev/disk/by-label/"@) || has_prefix(
                    device,
                    "/dev/disk/by-uuid/"@,
                )
                &&& limit == 30_000
            }
        }),
{
}

/// Once a local root device came up, its filesystem is checked if it is of a type
/// that is, and mounted at the target root: the device that was found, with the
/// type that the kernel command line asks for, else the one that was found on
/// it, else the listed one, and with all its options.
pub proof fn lemma_local_root_is_mounted(
    task: RootTask,
    dm: DeviceManagerView,
    found: Seq<char>,
    found_type: Option<Seq<char>>,
)
    ensures
        ({
            let resolved = task.next(
                RootStateView::Resolve,
                RootEventView::Resolved(Some(found)),
            );
            let typed = if task.rootfstype is Some {
                resolved
            } else {
                task.next(resolved, RootEventView::FsType(found_type))
            };
            let fstype = if task.rootfstype is Some {
                task.rootfstype->0
            } else if found_type is Some {
                found_type->0
            } else if task.listed_fstype is Some {
                task.listed_fstype->0
            } else {
                "auto"@
            };
            let checked = if is_checked(fstype, task.check_journaling) {
                task.next(typed, RootEventView::Done)
            } else {
                typed
            };
            let ready = task.next(checked, RootEventView::Done);
            &&& task.rootfstype is None ==> task.request(resolved, dm) == (
            RootRequestView::FsType { device: found })
            &&& is_checked(fstype, task.check_journaling) ==> task.request(typed, dm) == (
            RootRequestView::Check { device: found, fstype, begun: true })
            &&& task.request(checked, dm) == RootRequestView::Perform(
                seq![should(OpView::CreateDir(task.target_root))],
            )
            &&& task.request(ready, dm) == (RootRequestView::Mount {
                device: found,
                target: task.target_root,
                fstype,
                options: task.options,
            })
            &&& task.request(task.next(ready, RootEventView::Done), dm) is Mounted
            &&& task.request(task.next(ready, RootEventView::Failed), dm) is RaiseAs
        }),
{
}

/// A root device that does not come up in time is what the mount fails for, and
/// the message names the one that was asked for.
pub proof fn lemma_missing_root_device(task: RootTask, dm: DeviceManagerView, device: Seq<char>)
    requires
        task.device == Some(device),
    ensures
        task.request(
            task.next(RootStateView::Resolve, RootEventView::Resolved(None)),
            dm,
        ) == RootRequestView::Fail("Timed out waiting for root device: "@ + device),
{
}

/// While the root device is waited for, block devices are announced again and the
/// volumes of LVM are activated, the latter only where LVM is there.
pub proof fn lemma_late_volumes(
    task: RootTask,
    dm: DeviceManagerView,
    holds: spec_fn(CheckView) -> bool,
    outcome: spec_fn(OpView) -> Outcome,
)
    ensures
        ({
            let version = OpView::RunQuiet(
                CommandView { program: "lvm"@, args: seq!["--version"@] },
            );
            let activate = OpView::RunQuiet(
                CommandView { program: "lvm"@, args: seq!["vgchange"@, "-ay"@] },
            );
            &&& task.request(RootStateView::Resolve, dm) matches RootRequestView::Resolve {
                retrigger,
                interval,
                ..
            }
            &&& interval == 3000
            &&& ({
                let ops = performed(retrigger, 0, holds, outcome);
                let again = performed(dm.retrigger_steps(), 0, holds, outcome);
                &&& ops == again + if outcome(version) == Outcome::Done || outcome(version)
                    == Outcome::Exited(Some(0)) {
                    seq![version, activate]
                } else {
                    seq![version]
                }
            })
        }),
{
    let again = dm.retrigger_steps();
    let late = seq![
        StepView::Do {
            op: OpView::RunQuiet(CommandView { program: "lvm"@, args: seq!["--version"@] }),
            success: ResponseView::Continue,
            exit: ResponseView::Finish,
            failure: ResponseView::Finish,
        },
        attempt(
            OpView::RunQuiet(CommandView { program: "lvm"@, args: seq!["vgchange"@, "-ay"@] }),
        ),
    ];
    assert(late_device_steps(dm) =~= again + late);
    reveal_with_fuel(performed, 3);
    reveal_with_fuel(script_stops, 4);
    assert(again.len() <= 2);
    assert(forall|i: int|
        0 <= i < again.len() ==> !reaction(#[trigger] again[i], outcome(again[i]->Do_op)).stops());
    assert(!script_stops(again, 2, holds, outcome));
    assert(!script_stops(again, 1, holds, outcome));
    assert(!script_stops(again, 0, holds, outcome));
    lemma_scripts_in_a_row(again, late, 0, holds, outcome);
    let version = OpView::RunQuiet(CommandView { program: "lvm"@, args: seq!["--version"@] });
    let activate = OpView::RunQuiet(
        CommandView { program: "lvm"@, args: seq!["vgchange"@, "-ay"@] },
    );
    assert(performed(late, 1, holds, outcome) =~= seq![activate]);
    if outcome(version) == Outcome::Done || outcome(version) == Outcome::Exited(Some(0)) {
        assert(performed(late, 0, holds, outcome) =~= seq![version, activate]);
    } else {
        assert(performed(late, 0, holds, outcome) =~= seq![version]);
    }
}

/// The mount of the root filesystem begins with what its task asks for first.
pub proof fn lemma_mount_begins(mount: RootMount, task: RootTask, dm: DeviceManagerView)
    requires
        mount.begins(task),
    ensures
        mount.task().request(mount.state.deep_view(), dm) == task.request(task.start(), dm),
{
}

/// Every option of `rootflags=` and every listed option of the root filesystem is
/// among those that it is mounted with, those of `rootflags=` first.
pub proof fn lemma_options_of_the_root(
    cmdline: KernelCmdline,
    target_root: Seq<char>,
    entries: Seq<FsInfoView>,
    check_journaling: bool,
    asked: Seq<Seq<char>>,
    o: Seq<char>,
)
    requires
        asked.len() > 0,
        forall|i: int| 0 <= i < asked.len() ==> !(#[trigger] asked[i]).contains(','),
        cmdline.param("rootflags"@) == Some(join(asked, seq![','])),
    ensures
        ({
            let task = root_task(cmdline, target_root, entries, check_journaling);
            &&& task.options.len() >= asked.len()
            &&& task.options.take(asked.len() as int) == asked
            &&& root_entry(entries) is Some && root_entry(entries)->0.options.contains(o)
                ==> task.options.contains(o)
        }),
{
    lemma_split_of_join(asked, ',');
    lemma_root_options(cmdline.param("rootflags"@), root_entry(entries));
}

/// Options that are new stay in their order.
pub proof fn lemma_merged_in_order(base: Seq<Seq<char>>, more: Seq<Seq<char>>)
    requires
        more.no_duplicates(),
        forall|i: int| 0 <= i < more.len() ==> !base.contains(#[trigger] more[i]),
    ensures
        merged(base, more) == base + more,
    decreases more.len(),
{
    if more.len() == 0 {
        assert(base + more =~= base);
    } else {
        let less = more.drop_last();
        assert forall|i: int| 0 <= i < less.len() implies !base.contains(#[trigger] less[i]) by {
            assert(less[i] == more[i]);
        }
        lemma_merged_in_order(base, less);
        let all = base + less;
        if all.contains(more.last()) {
            let i = choose|i: int| 0 <= i < all.len() && all[i] == more.last();
            if i < base.len() {
                assert(base[i] == more[more.len() - 1]);
                assert(base.contains(more[more.len() - 1]));
            } else {
                assert(more[i - base.len()] == more[more.len() - 1]);
            }
        }
        assert(all.push(more.last()) =~= base + more);
    }
}

/// A root filesystem without a device, and one of bcachefs, is mounted once what was
/// asked for is done, and the mount fails with its error where it is not.
pub proof fn lemma_mount_in_one_go(task: RootTask, kind: RootKind, dm: DeviceManagerView)
    ensures
        task.request(task.next(RootStateView::Special(kind), RootEventView::Done), dm) is Mounted,
        task.request(task.next(RootStateView::Special(kind), RootEventView::Failed), dm) is Raise,
        task.request(task.next(RootStateView::Bcachefs, RootEventView::Done), dm) is Mounted,
        task.request(task.next(RootStateView::Bcachefs, RootEventView::Failed), dm) is Raise,
{
}

/// A root filesystem that cannot be mounted is an error.
pub proof fn lemma_vital_special_root(
    kind: RootKind,
    device: Seq<char>,
    target_root: Seq<char>,
    rootflags: Option<Seq<char>>,
)
    ensures
        vital_are(special_steps(kind, device, target_root, rootflags), |op: OpView| true),
        exits_are_fine(special_steps(kind, device, target_root, rootflags)),
{
    let steps = special_steps(kind, device, target_root, rootflags);
    assert(steps.len() == 2);
}

/// The error of a root filesystem names what could not be mounted, and where.
pub proof fn lemma_errors_of_the_root(task: RootTask, dm: DeviceManagerView, device: Seq<char>)
    ensures
        task.request(RootStateView::NoDevice, dm) == RootRequestView::Fail(
            "No root= parameter specified on kernel command line and no '/' entry in fsInfo"@,
        ),
        task.request(RootStateView::MountFailed { device }, dm) == RootRequestView::RaiseAs(
            "Failed to mount root filesystem "@ + device + " at "@ + quoted(task.target_root),
        ),
        reaction(
            special_steps(RootKind::Nfs, device, task.target_root, task.rootflags)[1],
            Outcome::Failed,
        ) == ReactionView::Abort("Failed to mount NFS root"@),
        reaction(
            special_steps(RootKind::Cifs, device, task.target_root, task.rootflags)[1],
            Outcome::Failed,
        ) == ReactionView::Abort("Failed to mount CIFS root"@),
        reaction(
            special_steps(RootKind::Tmpfs, device, task.target_root, task.rootflags)[1],
            Outcome::Failed,
        ) == ReactionView::Abort("Failed to mount tmpfs root"@),
{
}

/// What is logged names the device that is used, and the place at which it is
/// mounted.
pub proof fn lemma_words_on_the_root(
    task: RootTask,
    device: Seq<char>,
    fstype: Seq<char>,
)
    ensures
        task.log(RootStateView::Resolve, RootEventView::Resolved(Some(device))) == seq![
            log("Using root device: "@ + device),
        ],
        task.log(RootStateView::Mount { device, fstype }, RootEventView::Done) == seq![
            log("Root filesystem mounted at "@ + quoted(task.target_root)),
        ],
        task.log(RootStateView::Bcachefs, RootEventView::Done) == seq![
            log("Root filesystem mounted at "@ + quoted(task.target_root)),
        ],
        task.log(RootStateView::Mount { device, fstype }, RootEventView::Failed) == Seq::<
            StepView,
        >::empty(),
{
}

/// What is merged into options without a repeated one leaves them without one.
proof fn lemma_merged_once(base: Seq<Seq<char>>, more: Seq<Seq<char>>)
    requires
        base.no_duplicates(),
    ensures
        merged(base, more).no_duplicates(),
    decreases more.len(),
{
    if more.len() > 0 {
        let front = merged(base, more.drop_last());
        lemma_merged_once(base, more.drop_last());
        if !front.contains(more.last()) {
            let all = front.push(more.last());
            assert forall|i: int, j: int|
                0 <= i < all.len() && 0 <= j < all.len() && i != j implies all[i] != all[j] by {
                assert(i < front.len() ==> front.contains(front[i]));
                assert(j < front.len() ==> front.contains(front[j]));
            }
        }
    }
}

/// No option of the root filesystem is given twice, unless it was asked for twice; and
/// where `ro` was asked for or listed, `rw` is there only where it was, too.
pub proof fn lemma_each_root_option_once(rootflags: Option<Seq<char>>, entry: Option<FsInfoView>)
    ensures
        ({
            let all = root_options(rootflags, entry);
            let asked = match rootflags {
                Some(flags) => split(flags, ','),
                None => Seq::empty(),
            };
            let listed = match entry {
                Some(e) => e.options,
                None => Seq::empty(),
            };
            &&& asked.no_duplicates() ==> all.no_duplicates()
            &&& asked.contains("ro"@) || listed.contains("ro"@) ==> (all.contains("rw"@) <==> (
            asked.contains("rw"@) || listed.contains("rw"@)))
        }),
{
    let asked = match rootflags {
        Some(flags) => split(flags, ','),
        None => Seq::empty(),
    };
    let listed = match entry {
        Some(e) => e.options,
        None => Seq::empty(),
    };
    lemma_root_options(rootflags, entry);
    lemma_merged(asked, listed);
    let merge = merged(asked, listed);
    if asked.no_duplicates() {
        lemma_merged_once(asked, listed);
        let all = root_options(rootflags, entry);
        assert(entry is None ==> merge == asked);
        assert forall|i: int, j: int|
            0 <= i < all.len() && 0 <= j < all.len() && i != j implies all[i] != all[j] by {
            assert(i < merge.len() ==> merge.contains(merge[i]));
            assert(j < merge.len() ==> merge.contains(merge[j]));
        }
    }
}

} // verus!
