//! The device managers: udev, mdev and mdevd share one lifecycle, each with
//! steps of its own.
use vstd::prelude::*;

use crate::devnum::{device_major, device_minor, device_numbers};
#[allow(unused_imports)]
use crate::devnum::{
    device_of_numbers, lemma_device_round_trip, major_of, minor_of, numbers_text,
};
use crate::env::{env_get, EnvVar};
#[allow(unused_imports)]
use crate::env::env_value;
use crate::paths::{join_path, path_file_name};
#[allow(unused_imports)]
use crate::paths::{file_name, is_absolute, is_blank, joined, lemma_joined, lemma_last_name};
use crate::script::{
    append_steps, attempt_step, command, if_fails_step, if_holds_step, log_step, must_step,
    no_steps, push_step, run1, run2, should_step, Check, Op, Response, Step,
};
#[allow(unused_imports)]
use crate::script::{
    all_goes_well, attempt, command1, command2, does, exits_are_fine, if_fails, if_holds,
    lemma_only_steps_are_performed, lemma_scripts_in_a_row, log, must, performed, reaction,
    script_stops, self_contained, should, vital_are, CheckView, CommandView, OpView, Outcome,
    ResponseView, StepView,
};
use crate::text::{cat2, cat3, cat4, decimal_text, same_text, texts3, texts4};
#[allow(unused_imports)]
use crate::text::decimal;
#[allow(unused_imports)]
use crate::trees::{entry_copies, lemma_each_entry_is_copied};

verus! {

/// The program that looks after devices, with the paths it is run by.
#[derive(Debug, PartialEq, Eq)]
pub enum DeviceManager {
    Udev { udevd: String, udevadm: String, rules: Option<String> },
    Mdev { mdev: String, conf: Option<String> },
    Mdevd { mdevd: String, coldplug: String, conf: Option<String> },
}

pub enum DeviceManagerView {
    Udev { udevd: Seq<char>, udevadm: Seq<char>, rules: Option<Seq<char>> },
    Mdev { mdev: Seq<char>, conf: Option<Seq<char>> },
    Mdevd { mdevd: Seq<char>, coldplug: Seq<char>, conf: Option<Seq<char>> },
}

impl View for DeviceManager {
    type V = DeviceManagerView;

    open spec fn view(&self) -> DeviceManagerView {
        match self {
            DeviceManager::Udev { udevd, udevadm, rules } => DeviceManagerView::Udev {
                udevd: udevd@,
                udevadm: udevadm@,
                rules: rules.deep_view(),
            },
            DeviceManager::Mdev { mdev, conf } => DeviceManagerView::Mdev {
                mdev: mdev@,
                conf: conf.deep_view(),
            },
            DeviceManager::Mdevd { mdevd, coldplug, conf } => DeviceManagerView::Mdevd {
                mdevd: mdevd@,
                coldplug: coldplug@,
                conf: conf.deep_view(),
            },
        }
    }
}

impl Default for DeviceManager {
    fn default() -> (r: Self)
        ensures
            r@ == (DeviceManagerView::Udev {
                udevd: "systemd-udevd"@,
                udevadm: "udevadm"@,
                rules: None,
            }),
    {
        DeviceManager::Udev {
            udevd: "systemd-udevd".to_owned(),
            udevadm: "udevadm".to_owned(),
            rules: None,
        }
    }
}

// ---------------------------------------------------------------------------
// Choice
// ---------------------------------------------------------------------------
/// The path of a program: the one that is set, else the one among the extra
/// utilities, else the bare name.
pub open spec fn tool_path(
    set: Option<Seq<char>>,
    extra_utils: Option<Seq<char>>,
    name: Seq<char>,
) -> Seq<char> {
    match set {
        Some(path) => path,
        None => match extra_utils {
            Some(utils) => joined(utils, "bin/"@ + name),
            None => name,
        },
    }
}

/// The device manager that the environment asks for; udev unless it names
/// another.
pub open spec fn chosen_manager(
    env: Seq<EnvVar>,
    extra_utils: Option<Seq<char>>,
) -> DeviceManagerView {
    if env_value(env, "DEVICE_MANAGER"@) == Some("mdev"@) {
        DeviceManagerView::Mdev {
            mdev: tool_path(env_value(env, "MDEV_BINARY"@), extra_utils, "mdev"@),
            conf: env_value(env, "MDEV_CONF"@),
        }
    } else if env_value(env, "DEVICE_MANAGER"@) == Some("mdevd"@) {
        DeviceManagerView::Mdevd {
            mdevd: tool_path(env_value(env, "MDEVD_BINARY"@), extra_utils, "mdevd"@),
            coldplug: tool_path(
                env_value(env, "MDEVD_COLDPLUG_BINARY"@),
                extra_utils,
                "mdevd-coldplug"@,
            ),
            conf: env_value(env, "MDEV_CONF"@),
        }
    } else {
        DeviceManagerView::Udev {
            udevd: tool_path(env_value(env, "UDEV_BINARY"@), extra_utils, "systemd-udevd"@),
            udevadm: tool_path(env_value(env, "UDEVADM_BINARY"@), extra_utils, "udevadm"@),
            rules: env_value(env, "udevRules"@),
        }
    }
}

fn tool(env: &Vec<EnvVar>, variable: &str, extra_utils: &Option<String>, name: &str) -> (r: String)
    ensures
        r@ == tool_path(env_value(env@, variable@), extra_utils.deep_view(), name@),
{
    match env_get(env, variable) {
        Some(path) => path,
        None => match extra_utils {
            Some(utils) => join_path(utils.as_str(), cat2("bin/", name).as_str()),
            None => name.to_owned(),
        },
    }
}

// ---------------------------------------------------------------------------
// Steps
// ---------------------------------------------------------------------------
/// The steps that put `/etc/mdev.conf` in place: a copy of the configured file,
/// or an empty one where none is there.
pub open spec fn mdev_conf_steps(conf: Option<Seq<char>>) -> Seq<StepView> {
    match conf {
        Some(path) => seq![
            should(OpView::CreateDir("/etc"@)),
            must(
                OpView::CopyFile { from: path, to: "/etc/mdev.conf"@ },
                "Failed to copy mdev.conf from "@ + path + " to /etc/mdev.conf"@,
            ),
        ],
        None => seq![
            should(OpView::CreateDir("/etc"@)),
            if_fails(CheckView::Exists("/etc/mdev.conf"@), 1),
            should(OpView::WriteFile { path: "/etc/mdev.conf"@, content: ""@ }),
        ],
    }
}

/// Puts `/etc/mdev.conf` in place.
pub fn install_mdev_conf(conf: &Option<String>) -> (r: Vec<Step>)
    ensures
        r.deep_view() == mdev_conf_steps(conf.deep_view()),
{
    let mut steps = no_steps();
    push_step(&mut steps, should_step(Op::CreateDir("/etc".to_owned())));
    match conf {
        Some(path) => {
            let context = cat3(
                "Failed to copy mdev.conf from ",
                path.as_str(),
                " to /etc/mdev.conf",
            );
            push_step(
                &mut steps,
                must_step(
                    Op::CopyFile { from: path.clone(), to: "/etc/mdev.conf".to_owned() },
                    context.as_str(),
                ),
            );
        },
        None => {
            push_step(&mut steps, if_fails_step(Check::Exists("/etc/mdev.conf".to_owned()), 1));
            push_step(
                &mut steps,
                should_step(
                    Op::WriteFile { path: "/etc/mdev.conf".to_owned(), content: "".to_owned() },
                ),
            );
        },
    }
    assert(steps.deep_view() =~= mdev_conf_steps(conf.deep_view()));
    steps
}

/// The steps that make udev's rules and configuration ready.
pub open spec fn udev_rules_steps(rules: Option<Seq<char>>) -> Seq<StepView> {
    match rules {
        Some(dir) => seq![
            should(OpView::CreateDir("/etc/udev/rules.d"@)),
            if_holds(CheckView::IsDirectory(dir), 1),
            should(OpView::CopyEntries { from: dir, to: "/etc/udev/rules.d"@ }),
        ],
        None => Seq::empty(),
    }
}

/// The steps that start udev.
pub open spec fn udev_start_steps(udevd: Seq<char>, rules: Option<Seq<char>>) -> Seq<StepView> {
    udev_rules_steps(rules) + seq![
        if_fails(CheckView::Exists("/etc/udev/udev.conf"@), 2),
        should(OpView::CreateDir("/etc/udev"@)),
        should(OpView::WriteFile { path: "/etc/udev/udev.conf"@, content: "udev_log=err\n"@ }),
        must(command1(udevd, "--daemon"@), "Failed to start udevd: "@ + udevd),
    ]
}

/// The steps that start mdev: it listens for events, then scans what is there.
pub open spec fn mdev_start_steps(mdev: Seq<char>, conf: Option<Seq<char>>) -> Seq<StepView> {
    mdev_conf_steps(conf) + seq![
        must(command1(mdev, "-d"@), "Failed to start mdev: "@ + mdev),
        must(command1(mdev, "-s"@), "mdev coldplug scan failed: "@ + mdev),
    ]
}

/// The steps that start mdevd: it reports that it is ready before the devices
/// that are there are announced to it.
pub open spec fn mdevd_start_steps(
    mdevd: Seq<char>,
    coldplug: Seq<char>,
    conf: Option<Seq<char>>,
) -> Seq<StepView> {
    mdev_conf_steps(conf) + seq![
        StepView::Do {
            op: OpView::MakeReadyPipe,
            success: ResponseView::Continue,
            exit: ResponseView::Continue,
            failure: ResponseView::Bail("Failed to create mdevd readiness pipe"@),
        },
        must(
            OpView::SpawnReady(
                CommandView { program: mdevd, args: seq!["-D"@, "3"@, "-O"@, "4"@] },
            ),
            "Failed to start mdevd: "@ + mdevd,
        ),
        must(OpView::AwaitReady, "mdevd did not become ready: "@ + mdevd),
        StepView::Do {
            op: command2(coldplug, "-O"@, "4"@),
            success: ResponseView::Continue,
            exit: ResponseView::AbortStatus("mdevd coldplug exited with status: "@),
            failure: ResponseView::Abort("mdevd coldplug failed: "@ + coldplug),
        },
    ]
}

impl DeviceManagerView {
    /// How the manager is told which device carries the root filesystem.
    pub open spec fn root_rule_steps(
        self,
        stat_target: Seq<char>,
        stat: RootStatView,
    ) -> Seq<StepView> {
        match self {
            DeviceManagerView::Udev { .. } => dev_root_steps(stat_target, stat),
            _ => Seq::empty(),
        }
    }

    pub open spec fn start_steps(self) -> Seq<StepView> {
        let own = match self {
            DeviceManagerView::Udev { udevd, rules, .. } => udev_start_steps(udevd, rules),
            DeviceManagerView::Mdev { mdev, conf } => mdev_start_steps(mdev, conf),
            DeviceManagerView::Mdevd { mdevd, coldplug, conf } => mdevd_start_steps(
                mdevd,
                coldplug,
                conf,
            ),
        };
        seq![log("Starting device manager..."@)] + own + seq![log("Device manager started"@)]
    }

    pub open spec fn trigger_steps(self) -> Seq<StepView> {
        match self {
            DeviceManagerView::Udev { udevadm, .. } => seq![
                log("Triggering device events..."@),
                must(
                    command2(udevadm, "trigger"@, "--action=add"@),
                    "Failed to trigger udev events"@,
                ),
            ],
            _ => seq![log("Triggering device events..."@)],
        }
    }

    pub open spec fn settle_steps(self) -> Seq<StepView> {
        match self {
            DeviceManagerView::Udev { udevadm, .. } => seq![
                log("Waiting for device manager to settle..."@),
                StepView::Do {
                    op: command2(udevadm, "settle"@, "--timeout=30"@),
                    success: ResponseView::Continue,
                    exit: ResponseView::Log("Warning: udev settle timed out"@),
                    failure: ResponseView::Abort("Failed to wait for udev"@),
                },
            ],
            _ => seq![log("Waiting for device manager to settle..."@)],
        }
    }

    pub open spec fn retrigger_steps(self) -> Seq<StepView> {
        match self {
            DeviceManagerView::Udev { udevadm, .. } => seq![
                attempt(
                    OpView::Run(
                        CommandView {
                            program: udevadm,
                            args: seq!["trigger"@, "--subsystem-match=block"@, "--action=change"@],
                        },
                    ),
                ),
                attempt(command2(udevadm, "settle"@, "--timeout=3"@)),
            ],
            DeviceManagerView::Mdev { mdev, .. } => seq![attempt(command1(mdev, "-s"@))],
            DeviceManagerView::Mdevd { coldplug, .. } => seq![
                attempt(command2(coldplug, "-O"@, "4"@)),
            ],
        }
    }

    pub open spec fn stop_steps(self) -> Seq<StepView> {
        seq![
            log("Stopping device manager..."@),
            match self {
                DeviceManagerView::Udev { udevadm, .. } => attempt(
                    command2(udevadm, "control"@, "--exit"@),
                ),
                DeviceManagerView::Mdev { mdev, .. } => attempt(
                    command1("pkill"@, process_name(mdev)),
                ),
                DeviceManagerView::Mdevd { mdevd, .. } => attempt(
                    command2("pkill"@, "-TERM"@, process_name(mdevd)),
                ),
            },
        ]
    }
}

/// The name by which a running program is found: the last part of its path.
pub open spec fn process_name(path: Seq<char>) -> Seq<char> {
    match file_name(path) {
        Some(name) => name,
        None => path,
    }
}

fn name_of_process(path: &str) -> (r: String)
    ensures
        r@ == process_name(path@),
{
    match path_file_name(path) {
        Some(name) => name,
        None => path.to_owned(),
    }
}

/// What can be learned of the device that the root filesystem lies on.
#[derive(Debug, PartialEq, Eq)]
pub enum RootStat {
    /// The number of the device.
    Device(u64),
    /// The question failed, with this error.
    Failed(String),
}

pub enum RootStatView {
    Device(u64),
    Failed(Seq<char>),
}

impl DeepView for RootStat {
    type V = RootStatView;

    open spec fn deep_view(&self) -> RootStatView {
        match self {
            RootStat::Device(dev) => RootStatView::Device(*dev),
            RootStat::Failed(e) => RootStatView::Failed(e@),
        }
    }
}

/// The udev rule by which the device of the root filesystem is also found as
/// `/dev/root`.
pub open spec fn dev_root_rule(dev: u64) -> Seq<char> {
    "ACTION==\"add|change\", SUBSYSTEM==\"block\", ENV{MAJOR}==\""@ + decimal(major_of(dev) as nat)
        + "\", ENV{MINOR}==\""@ + decimal(minor_of(dev) as nat) + "\", SYMLINK+=\"root\"\n"@
}

/// The steps that write the rule for `/dev/root`. A root filesystem on no block
/// device has major number zero and gets no rule.
pub open spec fn dev_root_steps(stat_target: Seq<char>, stat: RootStatView) -> Seq<StepView> {
    match stat {
        RootStatView::Failed(e) => seq![
            log("Skipping /dev/root udev rule; stat("@ + stat_target + ") failed: "@ + e),
        ],
        RootStatView::Device(dev) => if major_of(dev) == 0 {
            seq![
                log(
                    "Skipping /dev/root udev rule; root is not on a block device (pseudo fs?)"@,
                ),
            ]
        } else {
            seq![
                must(
                    OpView::CreateDir("/run/udev/rules.d"@),
                    "Failed to create /run/udev/rules.d"@,
                ),
                must(
                    OpView::WriteFile {
                        path: "/run/udev/rules.d/61-dev-root-link.rules"@,
                        content: dev_root_rule(dev),
                    },
                    "Failed to write /run/udev/rules.d/61-dev-root-link.rules"@,
                ),
                log(
                    "Wrote /dev/root udev rule ("@ + numbers_text(dev)
                        + ") to /run/udev/rules.d/61-dev-root-link.rules"@,
                ),
            ]
        },
    }
}

/// Where the device of the root filesystem is asked for: at the image of a live
/// system where there is one, else at the root filesystem itself.
pub open spec fn root_stat_target(target_root: Seq<char>, iso_exists: bool) -> Seq<char> {
    if iso_exists {
        joined(target_root, "iso"@)
    } else {
        target_root
    }
}

/// Where the device of the root filesystem is asked for.
pub fn dev_root_stat_target(target_root: &str, iso_exists: bool) -> (r: String)
    ensures
        r@ == root_stat_target(target_root@, iso_exists),
{
    if iso_exists {
        join_path(target_root, "iso")
    } else {
        target_root.to_owned()
    }
}

/// Writes the rule for `/dev/root`.
pub fn write_dev_root_udev_rule(stat_target: &str, stat: &RootStat) -> (r: Vec<Step>)
    ensures
        r.deep_view() == dev_root_steps(stat_target@, stat.deep_view()),
{
    let mut steps = no_steps();
    match stat {
        RootStat::Failed(e) => {
            let message = cat4(
                "Skipping /dev/root udev rule; stat(",
                stat_target,
                ") failed: ",
                e.as_str(),
            );
            push_step(&mut steps, log_step(message.as_str()));
        },
        RootStat::Device(dev) => if device_major(*dev) == 0 {
            push_step(
                &mut steps,
                log_step(
                    "Skipping /dev/root udev rule; root is not on a block device (pseudo fs?)",
                ),
            );
        } else {
            push_step(
                &mut steps,
                must_step(
                    Op::CreateDir("/run/udev/rules.d".to_owned()),
                    "Failed to create /run/udev/rules.d",
                ),
            );
            let head = cat4(
                "ACTION==\"add|change\", SUBSYSTEM==\"block\", ENV{MAJOR}==\"",
                decimal_text(device_major(*dev) as u64).as_str(),
                "\", ENV{MINOR}==\"",
                decimal_text(device_minor(*dev) as u64).as_str(),
            );
            let rule = cat2(head.as_str(), "\", SYMLINK+=\"root\"\n");
            push_step(
                &mut steps,
                must_step(
                    Op::WriteFile {
                        path: "/run/udev/rules.d/61-dev-root-link.rules".to_owned(),
                        content: rule,
                    },
                    "Failed to write /run/udev/rules.d/61-dev-root-link.rules",
                ),
            );
            let message = cat3(
                "Wrote /dev/root udev rule (",
                device_numbers(*dev).as_str(),
                ") to /run/udev/rules.d/61-dev-root-link.rules",
            );
            push_step(&mut steps, log_step(message.as_str()));
        },
    }
    assert(steps.deep_view() =~= dev_root_steps(stat_target@, stat.deep_view()));
    steps
}

impl DeviceManager {
    /// The device manager that the environment asks for.
    pub fn from_env(env: &Vec<EnvVar>, extra_utils: &Option<String>) -> (r: Self)
        ensures
            r@ == chosen_manager(env@, extra_utils.deep_view()),
    {
        let choice = env_get(env, "DEVICE_MANAGER");
        let (mdev, mdevd) = match &choice {
            Some(name) => (same_text(name.as_str(), "mdev"), same_text(name.as_str(), "mdevd")),
            None => (false, false),
        };
        if mdev {
            DeviceManager::Mdev {
                mdev: tool(env, "MDEV_BINARY", extra_utils, "mdev"),
                conf: env_get(env, "MDEV_CONF"),
            }
        } else if mdevd {
            DeviceManager::Mdevd {
                mdevd: tool(env, "MDEVD_BINARY", extra_utils, "mdevd"),
                coldplug: tool(env, "MDEVD_COLDPLUG_BINARY", extra_utils, "mdevd-coldplug"),
                conf: env_get(env, "MDEV_CONF"),
            }
        } else {
            DeviceManager::Udev {
                udevd: tool(env, "UDEV_BINARY", extra_utils, "systemd-udevd"),
                udevadm: tool(env, "UDEVADM_BINARY", extra_utils, "udevadm"),
                rules: env_get(env, "udevRules"),
            }
        }
    }

    /// Starts the device manager.
    pub fn start(&self) -> (r: Vec<Step>)
        ensures
            r.deep_view() == self@.start_steps(),
    {
        let mut steps = no_steps();
        push_step(&mut steps, log_step("Starting device manager..."));
        match self {
            DeviceManager::Udev { udevd, rules, .. } => {
                append_steps(&mut steps, start_udev(udevd, rules));
            },
            DeviceManager::Mdev { mdev, conf } => {
                append_steps(&mut steps, start_mdev(mdev, conf));
            },
            DeviceManager::Mdevd { mdevd, coldplug, conf } => {
                append_steps(&mut steps, start_mdevd(mdevd, coldplug, conf));
            },
        }
        push_step(&mut steps, log_step("Device manager started"));
        assert(steps.deep_view() =~= self@.start_steps());
        steps
    }

    /// Has the devices that are there announced.
    pub fn trigger(&self) -> (r: Vec<Step>)
        ensures
            r.deep_view() == self@.trigger_steps(),
    {
        let mut steps = no_steps();
        push_step(&mut steps, log_step("Triggering device events..."));
        match self {
            DeviceManager::Udev { udevadm, .. } => {
                push_step(
                    &mut steps,
                    must_step(
                        run2(udevadm.as_str(), "trigger", "--action=add"),
                        "Failed to trigger udev events",
                    ),
                );
            },
            _ => {},
        }
        steps
    }

    /// Waits until what was announced is dealt with.
    pub fn settle(&self) -> (r: Vec<Step>)
        ensures
            r.deep_view() == self@.settle_steps(),
    {
        let mut steps = no_steps();
        push_step(&mut steps, log_step("Waiting for device manager to settle..."));
        match self {
            DeviceManager::Udev { udevadm, .. } => {
                push_step(
                    &mut steps,
                    Step::Do {
                        op: run2(udevadm.as_str(), "settle", "--timeout=30"),
                        success: Response::Continue,
                        exit: Response::Log("Warning: udev settle timed out".to_owned()),
                        failure: Response::Abort("Failed to wait for udev".to_owned()),
                    },
                );
            },
            _ => {},
        }
        steps
    }

    /// Has block devices announced again; nothing hangs on how that ends.
    pub fn retrigger_block(&self) -> (r: Vec<Step>)
        ensures
            r.deep_view() == self@.retrigger_steps(),
    {
        let mut steps = no_steps();
        match self {
            DeviceManager::Udev { udevadm, .. } => {
                let args = texts3("trigger", "--subsystem-match=block", "--action=change");
                push_step(&mut steps, attempt_step(Op::Run(command(udevadm.as_str(), args))));
                push_step(
                    &mut steps,
                    attempt_step(run2(udevadm.as_str(), "settle", "--timeout=3")),
                );
            },
            DeviceManager::Mdev { mdev, .. } => {
                push_step(&mut steps, attempt_step(run1(mdev.as_str(), "-s")));
            },
            DeviceManager::Mdevd { coldplug, .. } => {
                push_step(&mut steps, attempt_step(run2(coldplug.as_str(), "-O", "4")));
            },
        }
        steps
    }

    /// Stops the device manager.
    pub fn stop(&self) -> (r: Vec<Step>)
        ensures
            r.deep_view() == self@.stop_steps(),
    {
        let mut steps = no_steps();
        push_step(&mut steps, log_step("Stopping device manager..."));
        match self {
            DeviceManager::Udev { udevadm, .. } => {
                push_step(&mut steps, attempt_step(run2(udevadm.as_str(), "control", "--exit")));
            },
            DeviceManager::Mdev { mdev, .. } => {
                let name = name_of_process(mdev.as_str());
                push_step(&mut steps, attempt_step(run1("pkill", name.as_str())));
            },
            DeviceManager::Mdevd { mdevd, .. } => {
                let name = name_of_process(mdevd.as_str());
                push_step(&mut steps, attempt_step(run2("pkill", "-TERM", name.as_str())));
            },
        }
        steps
    }

    /// Writes the rule for `/dev/root` so that the mount units of systemd find
    /// the root device. Only udev reads such rules.
    pub fn write_dev_root_rule(&self, stat_target: &str, stat: &RootStat) -> (r: Vec<Step>)
        ensures
            r.deep_view() == self@.root_rule_steps(stat_target@, stat.deep_view()),
    {
        match self {
            DeviceManager::Udev { .. } => write_dev_root_udev_rule(stat_target, stat),
            _ => no_steps(),
        }
    }
}

fn start_udev(udevd: &String, rules: &Option<String>) -> (r: Vec<Step>)
    ensures
        r.deep_view() == udev_start_steps(udevd@, rules.deep_view()),
{
    let mut steps = no_steps();
    match rules {
        Some(dir) => {
            push_step(&mut steps, should_step(Op::CreateDir("/etc/udev/rules.d".to_owned())));
            push_step(&mut steps, if_holds_step(Check::IsDirectory(dir.clone()), 1));
            push_step(
                &mut steps,
                should_step(
                    Op::CopyEntries { from: dir.clone(), to: "/etc/udev/rules.d".to_owned() },
                ),
            );
        },
        None => {},
    }
    assert(steps.deep_view() =~= udev_rules_steps(rules.deep_view()));
    push_step(&mut steps, if_fails_step(Check::Exists("/etc/udev/udev.conf".to_owned()), 2));
    push_step(&mut steps, should_step(Op::CreateDir("/etc/udev".to_owned())));
    push_step(
        &mut steps,
        should_step(
            Op::WriteFile {
                path: "/etc/udev/udev.conf".to_owned(),
                content: "udev_log=err\n".to_owned(),
            },
        ),
    );
    let context = cat2("Failed to start udevd: ", udevd.as_str());
    push_step(&mut steps, must_step(run1(udevd.as_str(), "--daemon"), context.as_str()));
    assert(steps.deep_view() =~= udev_start_steps(udevd@, rules.deep_view()));
    steps
}

fn start_mdev(mdev: &String, conf: &Option<String>) -> (r: Vec<Step>)
    ensures
        r.deep_view() == mdev_start_steps(mdev@, conf.deep_view()),
{
    let mut steps = install_mdev_conf(conf);
    let context = cat2("Failed to start mdev: ", mdev.as_str());
    push_step(&mut steps, must_step(run1(mdev.as_str(), "-d"), context.as_str()));
    let context = cat2("mdev coldplug scan failed: ", mdev.as_str());
    push_step(&mut steps, must_step(run1(mdev.as_str(), "-s"), context.as_str()));
    assert(steps.deep_view() =~= mdev_start_steps(mdev@, conf.deep_view()));
    steps
}

fn start_mdevd(mdevd: &String, coldplug: &String, conf: &Option<String>) -> (r: Vec<Step>)
    ensures
        r.deep_view() == mdevd_start_steps(mdevd@, coldplug@, conf.deep_view()),
{
    let mut steps = install_mdev_conf(conf);
    push_step(
        &mut steps,
        Step::Do {
            op: Op::MakeReadyPipe,
            success: Response::Continue,
            exit: Response::Continue,
            failure: Response::Bail("Failed to create mdevd readiness pipe".to_owned()),
        },
    );
    let context = cat2("Failed to start mdevd: ", mdevd.as_str());
    let daemon = command(mdevd.as_str(), texts4("-D", "3", "-O", "4"));
    push_step(&mut steps, must_step(Op::SpawnReady(daemon), context.as_str()));
    let context = cat2("mdevd did not become ready: ", mdevd.as_str());
    push_step(&mut steps, must_step(Op::AwaitReady, context.as_str()));
    push_step(
        &mut steps,
        Step::Do {
            op: run2(coldplug.as_str(), "-O", "4"),
            success: Response::Continue,
            exit: Response::AbortStatus("mdevd coldplug exited with status: ".to_owned()),
            failure: Response::Abort(cat2("mdevd coldplug failed: ", coldplug.as_str())),
        },
    );
    assert(steps.deep_view() =~= mdevd_start_steps(mdevd@, coldplug@, conf.deep_view()));
    steps
}

// ---------------------------------------------------------------------------
// Laws
// ---------------------------------------------------------------------------
/// The device manager is the one that the environment names, and udev where it
/// names none of the others. Each of its programs is the one that the
/// environment names, else the one among the extra utilities, else whatever is
/// found under its name.
pub proof fn lemma_chosen_manager(env: Seq<EnvVar>, extra_utils: Option<Seq<char>>)
    ensures
        ({
            let asked = env_value(env, "DEVICE_MANAGER"@);
            let m = chosen_manager(env, extra_utils);
            &&& asked == Some("mdev"@) ==> m is Mdev && m->Mdev_conf == env_value(
                env,
                "MDEV_CONF"@,
            ) && is_tool(m->mdev, env_value(env, "MDEV_BINARY"@), extra_utils, "mdev"@)
            &&& asked == Some("mdevd"@) ==> m is Mdevd && m->Mdevd_conf == env_value(
                env,
                "MDEV_CONF"@,
            ) && is_tool(m->mdevd, env_value(env, "MDEVD_BINARY"@), extra_utils, "mdevd"@)
                && is_tool(
                m->coldplug,
                env_value(env, "MDEVD_COLDPLUG_BINARY"@),
                extra_utils,
                "mdevd-coldplug"@,
            )
            &&& asked != Some("mdev"@) && asked != Some("mdevd"@) ==> m is Udev && m->rules
                == env_value(env, "udevRules"@) && is_tool(
                m->udevd,
                env_value(env, "UDEV_BINARY"@),
                extra_utils,
                "systemd-udevd"@,
            ) && is_tool(m->udevadm, env_value(env, "UDEVADM_BINARY"@), extra_utils, "udevadm"@)
        }),
{
    reveal_strlit("mdev");
    reveal_strlit("mdevd");
    assert("mdev"@.len() != "mdevd"@.len());
}

/// Whether a path is that of a program.
pub open spec fn is_tool(
    path: Seq<char>,
    set: Option<Seq<char>>,
    extra_utils: Option<Seq<char>>,
    name: Seq<char>,
) -> bool {
    &&& set is Some ==> path == set->0
    &&& set is None && extra_utils is Some ==> path == joined(extra_utils->0, "bin/"@ + name)
    &&& set is None && extra_utils is None ==> path == name
}

/// Before udev runs, every file of the directory with the configured rules was
/// copied to where udev looks for rules, under its own name; nothing is written
/// to the configured directory, and a configuration of udev that is there stays.
pub proof fn lemma_rules_reach_udev(
    udevd: Seq<char>,
    udevadm: Seq<char>,
    rules: Seq<char>,
    names: Seq<Seq<char>>,
    name: Seq<char>,
    holds: spec_fn(CheckView) -> bool,
    outcome: spec_fn(OpView) -> Outcome,
)
    requires
        holds(CheckView::IsDirectory(rules)),
        all_goes_well(outcome),
        names.contains(name),
        !is_absolute(name),
    ensures
        ({
            let m = DeviceManagerView::Udev { udevd, udevadm, rules: Some(rules) };
            let ops = performed(m.start_steps(), 0, holds, outcome);
            let copy = OpView::CopyEntries { from: rules, to: "/etc/udev/rules.d"@ };
            let conf = if holds(CheckView::Exists("/etc/udev/udev.conf"@)) {
                Seq::empty()
            } else {
                seq![
                    OpView::CreateDir("/etc/udev"@),
                    OpView::WriteFile {
                        path: "/etc/udev/udev.conf"@,
                        content: "udev_log=err\n"@,
                    },
                ]
            };
            &&& ops == seq![
                OpView::Log("Starting device manager..."@),
                OpView::CreateDir("/etc/udev/rules.d"@),
                copy,
            ] + conf + seq![
                OpView::Run(CommandView { program: udevd, args: seq!["--daemon"@] }),
                OpView::Log("Device manager started"@),
            ]
            &&& performed(
                entry_copies(copy->CopyEntries_from, copy->CopyEntries_to, names),
                0,
                holds,
                outcome,
            ).contains(
                OpView::CopyFile {
                    from: joined(rules, name),
                    to: "/etc/udev/rules.d"@ + seq!['/'] + name,
                },
            )
        }),
{
    let m = DeviceManagerView::Udev { udevd, udevadm, rules: Some(rules) };
    let steps = m.start_steps();
    let copy = OpView::CopyEntries { from: rules, to: "/etc/udev/rules.d"@ };
    let start = OpView::Run(CommandView { program: udevd, args: seq!["--daemon"@] });
    let write = OpView::WriteFile { path: "/etc/udev/udev.conf"@, content: "udev_log=err\n"@ };
    let done = OpView::Log("Device manager started"@);
    assert(steps.len() == 9);
    assert(steps[0] == log("Starting device manager..."@));
    assert(steps[1] == should(OpView::CreateDir("/etc/udev/rules.d"@)));
    assert(steps[2] == if_holds(CheckView::IsDirectory(rules), 1));
    assert(steps[3] == should(copy));
    assert(steps[4] == if_fails(CheckView::Exists("/etc/udev/udev.conf"@), 2));
    assert(steps[5] == should(OpView::CreateDir("/etc/udev"@)));
    assert(steps[6] == should(write));
    assert(does(steps[7], start));
    assert(does(steps[8], done));
    assert(performed(steps, 9, holds, outcome) == Seq::<OpView>::empty());
    assert(performed(steps, 8, holds, outcome) =~= seq![done]);
    assert(performed(steps, 7, holds, outcome) =~= seq![start, done]);
    assert(performed(steps, 6, holds, outcome) =~= seq![write, start, done]);
    assert(performed(steps, 5, holds, outcome) =~= seq![
        OpView::CreateDir("/etc/udev"@),
        write,
        start,
        done,
    ]);
    let conf = if holds(CheckView::Exists("/etc/udev/udev.conf"@)) {
        Seq::empty()
    } else {
        seq![OpView::CreateDir("/etc/udev"@), write]
    };
    let tail = conf + seq![start, done];
    assert(performed(steps, 4, holds, outcome) =~= tail);
    assert(performed(steps, 3, holds, outcome) =~= seq![copy] + tail);
    assert(performed(steps, 2, holds, outcome) =~= seq![copy] + tail);
    assert(performed(steps, 1, holds, outcome) =~= seq![
        OpView::CreateDir("/etc/udev/rules.d"@),
        copy,
    ] + tail);
    assert(performed(steps, 0, holds, outcome) =~= seq![
        OpView::Log("Starting device manager..."@),
        OpView::CreateDir("/etc/udev/rules.d"@),
        copy,
    ] + conf + seq![start, done]);
    reveal_strlit("/etc/udev/rules.d");
    assert("/etc/udev/rules.d"@.last() == 'd');
    lemma_joined("/etc/udev/rules.d"@, name);
    lemma_each_entry_is_copied(rules, "/etc/udev/rules.d"@, names, name, holds, outcome);
}

/// Without configured rules udev is started as it is.
pub proof fn lemma_no_rules(
    udevd: Seq<char>,
    udevadm: Seq<char>,
    holds: spec_fn(CheckView) -> bool,
    outcome: spec_fn(OpView) -> Outcome,
    op: OpView,
)
    requires
        performed(
            (DeviceManagerView::Udev { udevd, udevadm, rules: None }).start_steps(),
            0,
            holds,
            outcome,
        ).contains(op),
    ensures
        !(op is CopyEntries),
        op matches OpView::Run(c) ==> c == (CommandView {
            program: udevd,
            args: seq!["--daemon"@],
        }),
{
    let steps = (DeviceManagerView::Udev { udevd, udevadm, rules: None }).start_steps();
    lemma_only_steps_are_performed(steps, 0, holds, outcome, op);
    let i = choose|i: int| 0 <= i < steps.len() && does(#[trigger] steps[i], op);
    assert(steps.len() == 6);
    assert(steps[0] == log("Starting device manager..."@));
    assert(steps[1] is If);
    assert(steps[2] == should(OpView::CreateDir("/etc/udev"@)));
    assert(steps[5] == log("Device manager started"@));
}

/// The operations by which mdev and mdevd get their configuration: the configured
/// file takes the place of whatever is there; an empty one is made only where
/// there is none.
pub open spec fn mdev_conf_ops(
    conf: Option<Seq<char>>,
    holds: spec_fn(CheckView) -> bool,
) -> Seq<OpView> {
    let etc = OpView::CreateDir("/etc"@);
    if conf is Some {
        seq![etc, OpView::CopyFile { from: conf->0, to: "/etc/mdev.conf"@ }]
    } else if holds(CheckView::Exists("/etc/mdev.conf"@)) {
        seq![etc]
    } else {
        seq![etc, OpView::WriteFile { path: "/etc/mdev.conf"@, content: ""@ }]
    }
}

proof fn lemma_mdev_conf(
    conf: Option<Seq<char>>,
    holds: spec_fn(CheckView) -> bool,
    outcome: spec_fn(OpView) -> Outcome,
)
    requires
        all_goes_well(outcome),
    ensures
        performed(mdev_conf_steps(conf), 0, holds, outcome) == mdev_conf_ops(conf, holds),
        !script_stops(mdev_conf_steps(conf), 0, holds, outcome),
        self_contained(mdev_conf_steps(conf)),
{
    let steps = mdev_conf_steps(conf);
    reveal_with_fuel(performed, 4);
    reveal_with_fuel(script_stops, 4);
    if conf is Some {
        assert(steps[0] == should(OpView::CreateDir("/etc"@)));
        assert(performed(steps, 2, holds, outcome) == Seq::<OpView>::empty());
        assert(performed(steps, 0, holds, outcome) =~= mdev_conf_ops(conf, holds));
    } else {
        assert(performed(steps, 3, holds, outcome) == Seq::<OpView>::empty());
        assert(performed(steps, 2, holds, outcome) =~= seq![
            OpView::WriteFile { path: "/etc/mdev.conf"@, content: ""@ },
        ]);
        assert(performed(steps, 0, holds, outcome) =~= mdev_conf_ops(conf, holds));
    }
}

/// mdev gets its configuration first, then listens for events, and only then
/// scans what is there, so that nothing is missed.
pub proof fn lemma_mdev_listens_before_it_scans(
    mdev: Seq<char>,
    conf: Option<Seq<char>>,
    holds: spec_fn(CheckView) -> bool,
    outcome: spec_fn(OpView) -> Outcome,
)
    requires
        all_goes_well(outcome),
    ensures
        performed(
            (DeviceManagerView::Mdev { mdev, conf }).start_steps(),
            0,
            holds,
            outcome,
        ) == seq![OpView::Log("Starting device manager..."@)] + mdev_conf_ops(conf, holds) + seq![
            OpView::Run(CommandView { program: mdev, args: seq!["-d"@] }),
            OpView::Run(CommandView { program: mdev, args: seq!["-s"@] }),
            OpView::Log("Device manager started"@),
        ],
{
    let steps = (DeviceManagerView::Mdev { mdev, conf }).start_steps();
    let first = seq![log("Starting device manager..."@)];
    let conf_steps = mdev_conf_steps(conf);
    let rest = seq![
        must(command1(mdev, "-d"@), "Failed to start mdev: "@ + mdev),
        must(command1(mdev, "-s"@), "mdev coldplug scan failed: "@ + mdev),
        log("Device manager started"@),
    ];
    assert(steps =~= first + conf_steps + rest);
    lemma_mdev_conf(conf, holds, outcome);
    lemma_scripts_in_a_row(first, conf_steps, 0, holds, outcome);
    lemma_scripts_in_a_row(first + conf_steps, rest, 0, holds, outcome);
    reveal_with_fuel(performed, 4);
    reveal_with_fuel(script_stops, 3);
    assert(performed(first, 0, holds, outcome) =~= seq![
        OpView::Log("Starting device manager..."@),
    ]);
    assert(performed(rest, 0, holds, outcome) =~= seq![
        OpView::Run(CommandView { program: mdev, args: seq!["-d"@] }),
        OpView::Run(CommandView { program: mdev, args: seq!["-s"@] }),
        OpView::Log("Device manager started"@),
    ]);
    assert(steps =~= (first + conf_steps) + rest);
}

/// What is there is announced to mdevd only after it reported that it is ready,
/// over the very pipe that was made for it.
pub proof fn lemma_mdevd_is_ready_before_coldplug(
    mdevd: Seq<char>,
    coldplug: Seq<char>,
    conf: Option<Seq<char>>,
    holds: spec_fn(CheckView) -> bool,
    outcome: spec_fn(OpView) -> Outcome,
)
    requires
        all_goes_well(outcome),
    ensures
        performed(
            (DeviceManagerView::Mdevd { mdevd, coldplug, conf }).start_steps(),
            0,
            holds,
            outcome,
        ) == seq![OpView::Log("Starting device manager..."@)] + mdev_conf_ops(conf, holds) + seq![
            OpView::MakeReadyPipe,
            OpView::SpawnReady(
                CommandView { program: mdevd, args: seq!["-D"@, "3"@, "-O"@, "4"@] },
            ),
            OpView::AwaitReady,
            OpView::Run(CommandView { program: coldplug, args: seq!["-O"@, "4"@] }),
            OpView::Log("Device manager started"@),
        ],
{
    let steps = (DeviceManagerView::Mdevd { mdevd, coldplug, conf }).start_steps();
    let first = seq![log("Starting device manager..."@)];
    let conf_steps = mdev_conf_steps(conf);
    let n = 1 + conf_steps.len();
    let rest = steps.skip(n as int);
    assert(steps =~= first + conf_steps + rest);
    lemma_mdev_conf(conf, holds, outcome);
    lemma_scripts_in_a_row(first, conf_steps, 0, holds, outcome);
    lemma_scripts_in_a_row(first + conf_steps, rest, 0, holds, outcome);
    reveal_with_fuel(performed, 2);
    reveal_with_fuel(script_stops, 3);
    let spawn = OpView::SpawnReady(
        CommandView { program: mdevd, args: seq!["-D"@, "3"@, "-O"@, "4"@] },
    );
    let announce = OpView::Run(CommandView { program: coldplug, args: seq!["-O"@, "4"@] });
    let done = OpView::Log("Device manager started"@);
    assert(rest.len() == 5);
    assert(does(rest[0], OpView::MakeReadyPipe));
    assert(does(rest[1], spawn));
    assert(does(rest[2], OpView::AwaitReady));
    assert(does(rest[3], announce));
    assert(does(rest[4], done));
    assert(performed(rest, 5, holds, outcome) == Seq::<OpView>::empty());
    assert(performed(rest, 4, holds, outcome) =~= seq![done]);
    assert(performed(rest, 3, holds, outcome) =~= seq![announce, done]);
    assert(performed(rest, 2, holds, outcome) =~= seq![OpView::AwaitReady, announce, done]);
    assert(performed(rest, 1, holds, outcome) =~= seq![spawn, OpView::AwaitReady, announce, done]);
    assert(performed(rest, 0, holds, outcome) =~= seq![
        OpView::MakeReadyPipe,
        spawn,
        OpView::AwaitReady,
        announce,
        done,
    ]);
    assert(performed(first, 0, holds, outcome) =~= seq![
        OpView::Log("Starting device manager..."@),
    ]);
    assert(steps =~= (first + conf_steps) + rest);
}

/// What a device manager is told by its own programs: udev to announce devices
/// and to report when all are dealt with, which the other two do as they start;
/// all to announce block devices again; each to end. Nothing hangs on how the
/// latter two end, and a udev that does not settle in time is only warned about.
pub proof fn lemma_managers_are_told(
    m: DeviceManagerView,
    holds: spec_fn(CheckView) -> bool,
    outcome: spec_fn(OpView) -> Outcome,
)
    requires
        forall|op: OpView| #[trigger] outcome(op) != Outcome::Failed,
    ensures
        performed(m.trigger_steps(), 0, holds, outcome) == seq![
            OpView::Log("Triggering device events..."@),
        ] + match m {
            DeviceManagerView::Udev { udevadm, .. } => seq![
                OpView::Run(
                    CommandView { program: udevadm, args: seq!["trigger"@, "--action=add"@] },
                ),
            ],
            _ => Seq::empty(),
        },
        performed(m.settle_steps(), 0, holds, outcome) == seq![
            OpView::Log("Waiting for device manager to settle..."@),
        ] + match m {
            DeviceManagerView::Udev { udevadm, .. } => seq![
                OpView::Run(
                    CommandView { program: udevadm, args: seq!["settle"@, "--timeout=30"@] },
                ),
            ],
            _ => Seq::empty(),
        },
        performed(m.retrigger_steps(), 0, holds, outcome) == match m {
            DeviceManagerView::Udev { udevadm, .. } => seq![
                OpView::Run(
                    CommandView {
                        program: udevadm,
                        args: seq!["trigger"@, "--subsystem-match=block"@, "--action=change"@],
                    },
                ),
                OpView::Run(
                    CommandView { program: udevadm, args: seq!["settle"@, "--timeout=3"@] },
                ),
            ],
            DeviceManagerView::Mdev { mdev, .. } => seq![
                OpView::Run(CommandView { program: mdev, args: seq!["-s"@] }),
            ],
            DeviceManagerView::Mdevd { coldplug, .. } => seq![
                OpView::Run(CommandView { program: coldplug, args: seq!["-O"@, "4"@] }),
            ],
        },
        performed(m.stop_steps(), 0, holds, outcome) == seq![
            OpView::Log("Stopping device manager..."@),
            match m {
                DeviceManagerView::Udev { udevadm, .. } => OpView::Run(
                    CommandView { program: udevadm, args: seq!["control"@, "--exit"@] },
                ),
                DeviceManagerView::Mdev { mdev, .. } => OpView::Run(
                    CommandView { program: "pkill"@, args: seq![process_name(mdev)] },
                ),
                DeviceManagerView::Mdevd { mdevd, .. } => OpView::Run(
                    CommandView { program: "pkill"@, args: seq!["-TERM"@, process_name(mdevd)] },
                ),
            },
        ],
{
    reveal_with_fuel(performed, 3);
    let t = m.trigger_steps();
    let s = m.settle_steps();
    let r = m.retrigger_steps();
    let e = m.stop_steps();
    assert(performed(t, 2, holds, outcome) == Seq::<OpView>::empty());
    assert(performed(s, 2, holds, outcome) == Seq::<OpView>::empty());
    assert(performed(r, 2, holds, outcome) == Seq::<OpView>::empty());
    assert(performed(e, 2, holds, outcome) == Seq::<OpView>::empty());
    match m {
        DeviceManagerView::Udev { udevadm, .. } => {
            let trigger = command2(udevadm, "trigger"@, "--action=add"@);
            let settle = command2(udevadm, "settle"@, "--timeout=30"@);
            assert(performed(t, 1, holds, outcome) =~= seq![trigger]);
            assert(performed(s, 1, holds, outcome) =~= seq![settle]);
            assert(performed(r, 1, holds, outcome) =~= seq![
                command2(udevadm, "settle"@, "--timeout=3"@),
            ]);
        },
        _ => {},
    }
    assert(performed(e, 1, holds, outcome).len() == 1);
}

/// A program is looked for among the processes under the last part of its path.
pub proof fn lemma_process_name(dir: Seq<char>, name: Seq<char>)
    requires
        !name.contains('/'),
        !is_blank(name),
        name != ".."@,
    ensures
        process_name(dir + seq!['/'] + name) == name,
        process_name(name) == name,
{
    lemma_last_name(dir, name);
}

/// The rule for `/dev/root` names the device that the root filesystem lies on,
/// by its numbers; a filesystem that lies on none gets no rule.
pub proof fn lemma_root_rule(
    stat_target: Seq<char>,
    major: u32,
    minor: u32,
    holds: spec_fn(CheckView) -> bool,
    outcome: spec_fn(OpView) -> Outcome,
)
    requires
        all_goes_well(outcome),
    ensures
        ({
            let dev = device_of_numbers(major as u64, minor as u64);
            let ops = performed(
                dev_root_steps(stat_target, RootStatView::Device(dev)),
                0,
                holds,
                outcome,
            );
            let rule = OpView::WriteFile {
                path: "/run/udev/rules.d/61-dev-root-link.rules"@,
                content: "ACTION==\"add|change\", SUBSYSTEM==\"block\", ENV{MAJOR}==\""@ + decimal(
                    major as nat,
                ) + "\", ENV{MINOR}==\""@ + decimal(minor as nat) + "\", SYMLINK+=\"root\"\n"@,
            };
            &&& major != 0 ==> ops.len() == 3 && ops[0] == OpView::CreateDir(
                "/run/udev/rules.d"@,
            ) && ops[1] == rule && ops[2] is Log
            &&& major == 0 ==> ops.len() == 1 && ops[0] is Log
        }),
{
    lemma_device_round_trip(major, minor);
    reveal_with_fuel(performed, 4);
    let dev = device_of_numbers(major as u64, minor as u64);
    let steps = dev_root_steps(stat_target, RootStatView::Device(dev));
    assert(performed(steps, 3, holds, outcome) == Seq::<OpView>::empty());
    if major != 0 {
        assert(performed(steps, 2, holds, outcome).len() == 1);
    }
}

/// The device of the root filesystem is asked for at the image of a live system
/// wherever there is one; without an answer there is no rule.
pub proof fn lemma_root_stat(
    target_root: Seq<char>,
    error: Seq<char>,
    holds: spec_fn(CheckView) -> bool,
    outcome: spec_fn(OpView) -> Outcome,
    op: OpView,
)
    requires
        performed(
            dev_root_steps(target_root, RootStatView::Failed(error)),
            0,
            holds,
            outcome,
        ).contains(op),
    ensures
        op is Log,
        root_stat_target(target_root, true) == joined(target_root, "iso"@),
        root_stat_target(target_root, false) == target_root,
{
    let steps = dev_root_steps(target_root, RootStatView::Failed(error));
    lemma_only_steps_are_performed(steps, 0, holds, outcome, op);
}

/// Nothing that makes udev run can be done without; by what code it ends once it is
/// in the background makes no difference.
pub proof fn lemma_vital_udev(udevd: Seq<char>, udevadm: Seq<char>, rules: Option<Seq<char>>)
    ensures
        vital_are(
            (DeviceManagerView::Udev { udevd, udevadm, rules }).start_steps(),
            |op: OpView| !(op is Log),
        ),
        exits_are_fine((DeviceManagerView::Udev { udevd, udevadm, rules }).start_steps()),
{
    let steps = (DeviceManagerView::Udev { udevd, udevadm, rules }).start_steps();
    assert(rules is Some ==> steps.len() == 9);
    assert(rules is None ==> steps.len() == 6);
}

/// The same holds of mdev.
pub proof fn lemma_vital_mdev(mdev: Seq<char>, conf: Option<Seq<char>>)
    ensures
        vital_are(
            (DeviceManagerView::Mdev { mdev, conf }).start_steps(),
            |op: OpView| !(op is Log),
        ),
        exits_are_fine((DeviceManagerView::Mdev { mdev, conf }).start_steps()),
{
    let steps = (DeviceManagerView::Mdev { mdev, conf }).start_steps();
    assert(conf is Some ==> steps.len() == 6);
    assert(conf is None ==> steps.len() == 7);
}

/// The same holds of mdevd.
pub proof fn lemma_vital_mdevd(mdevd: Seq<char>, coldplug: Seq<char>, conf: Option<Seq<char>>)
    ensures
        vital_are(
            (DeviceManagerView::Mdevd { mdevd, coldplug, conf }).start_steps(),
            |op: OpView| !(op is Log),
        ),
{
    let steps = (DeviceManagerView::Mdevd { mdevd, coldplug, conf }).start_steps();
    assert(conf is Some ==> steps.len() == 8);
    assert(conf is None ==> steps.len() == 9);
}

/// Devices that could not be announced to mdevd are an error: it started too early
/// to find them by itself.
pub proof fn lemma_coldplug_has_to_work(
    mdevd: Seq<char>,
    coldplug: Seq<char>,
    conf: Option<Seq<char>>,
    code: Option<i32>,
)
    requires
        code != Some(0i32),
    ensures
        ({
            let steps = (DeviceManagerView::Mdevd { mdevd, coldplug, conf }).start_steps();
            let n = steps.len() as int;
            &&& n >= 2
            &&& does(
                steps[n - 2],
                OpView::Run(CommandView { program: coldplug, args: seq!["-O"@, "4"@] }),
            )
            &&& reaction(steps[n - 2], Outcome::Exited(code)).fails()
            &&& !reaction(steps[n - 2], Outcome::Exited(Some(0))).stops()
        }),
{
}

/// That udev cannot be told is an error; how its program ends is none. What devices
/// are announced again by, and what ends a device manager, may fail.
pub proof fn lemma_vital_words(m: DeviceManagerView)
    ensures
        vital_are(m.trigger_steps(), |op: OpView| op is Run),
        exits_are_fine(m.trigger_steps()),
        vital_are(m.settle_steps(), |op: OpView| op is Run),
        exits_are_fine(m.settle_steps()),
        vital_are(m.retrigger_steps(), |op: OpView| false),
        exits_are_fine(m.retrigger_steps()),
        vital_are(m.stop_steps(), |op: OpView| false),
        exits_are_fine(m.stop_steps()),
{
}

/// A rule for `/dev/root` that cannot be written is an error.
pub proof fn lemma_vital_rule(stat_target: Seq<char>, stat: RootStatView)
    ensures
        vital_are(dev_root_steps(stat_target, stat), |op: OpView| !(op is Log)),
{
}

/// A rule that names the root device is written for udev alone, and only where the root
/// lies on a block device: the other managers, and a root that cannot be looked at or
/// lies on no device, leave the disk as it was.
pub proof fn lemma_rule_for_udev_alone(
    dm: DeviceManagerView,
    stat_target: Seq<char>,
    stat: RootStatView,
    holds: spec_fn(CheckView) -> bool,
    outcome: spec_fn(OpView) -> Outcome,
)
    ensures
        ({
            let steps = dm.root_rule_steps(stat_target, stat);
            let done = performed(steps, 0, holds, outcome);
            let on_device = stat is Device && major_of(stat->Device_0) != 0;
            &&& dm is Udev && on_device && all_goes_well(outcome) ==> done.contains(
                OpView::WriteFile {
                    path: "/run/udev/rules.d/61-dev-root-link.rules"@,
                    content: dev_root_rule(stat->Device_0),
                },
            )
            &&& !on_device ==> forall|op: OpView| done.contains(op) ==> op is Log
            &&& !(dm is Udev) ==> steps.len() == 0
        }),
{
    let steps = dm.root_rule_steps(stat_target, stat);
    let done = performed(steps, 0, holds, outcome);
    if dm is Udev && stat is Device && major_of(stat->Device_0) != 0 && all_goes_well(outcome) {
        assert(performed(steps, 1, holds, outcome)[0] == steps[1]->op);
        assert(done[1] == steps[1]->op);
    }
    if !(stat is Device && major_of(stat->Device_0) != 0) {
        assert forall|op: OpView| done.contains(op) implies op is Log by {
            lemma_only_steps_are_performed(steps, 0, holds, outcome, op);
        }
    }
}

} // verus!
