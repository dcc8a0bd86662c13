//! The phases of the bootstrap, their order, and what follows where one of them
//! fails.
use vstd::prelude::*;

use crate::cmdline::KernelCmdline;
use crate::config::{parse_args, Stage1Config};
#[allow(unused_imports)]
use crate::config::given_overrides;
use crate::env::EnvVar;
use crate::failure::StopReason;
#[allow(unused_imports)]
use crate::failure::{fail_action, FailAction};
use crate::live::{copy_iso_to_ram, handle_persistence};
#[allow(unused_imports)]
use crate::flags::MS_BIND;
#[allow(unused_imports)]
use crate::live::{
    all_persistence_steps, iso_source, iso_steps, lemma_image_in_memory, lemma_persistence,
    persistence_option,
};
use crate::modules::load_kernel_modules;
#[allow(unused_imports)]
use crate::modules::{lemma_each_module_is_loaded, loads, modules_steps};
#[allow(unused_imports)]
use crate::paths::{is_absolute, lemma_joined, parent};
use crate::processes::kill_remaining_processes;
#[allow(unused_imports)]
use crate::processes::kill_steps;
use crate::script::{no_steps, Step};
#[allow(unused_imports)]
use crate::script::{
    all_goes_well, log, performed, script_fails, CheckView, CommandView, MountCallView, OpView,
    Outcome, StepView,
};
use crate::secrets::{copy_initrd_secrets, link_extra_utils_secrets};
#[allow(unused_imports)]
use crate::secrets::{copy_secrets_steps, link_secrets_steps};
use crate::setup::{
    activate_lvm, create_directories, create_essential_devices, create_essential_files,
    mount_early_proc, mount_essential_filesystems, run_hook_script, set_host_id, setup_environment,
    setup_link_units,
};
#[allow(unused_imports)]
use crate::setup::{
    device_steps, directory_step, early_proc_steps, environment_steps, essential_directories,
    file_steps, helper_mount_steps, hook_steps, host_id_steps, kernel_mount_steps, lemma_empty_hook,
    lemma_hook_is_run, lemma_link_units_are_found, link_unit_steps, lvm_steps,
};
use crate::switch::switch_root;
#[allow(unused_imports)]
use crate::switch::{
    console_path, leading_slashes, lemma_missing_init_changes_nothing, lemma_only_init_is_executed,
    lemma_switch, switch_steps,
};
use crate::text::{cat2, copy_option, copy_texts};
#[allow(unused_imports)]
use crate::text::lemma_rest_behind_leading;

verus! {

// ---------------------------------------------------------------------------
// Phases
// ---------------------------------------------------------------------------
/// A phase of the bootstrap.
#[derive(Debug, Clone, Copy, PartialEq, Eq, Structural)]
pub enum Phase {
    Environment,
    LinkSecrets,
    Directories,
    DeviceNodes,
    EssentialMounts,
    CopySecrets,
    Files,
    HostId,
    PreDevice,
    Modules,
    LinkUnits,
    StartManager,
    TriggerManager,
    SettleManager,
    PreLvm,
    Lvm,
    DevicesCheckpoint,
    PostDevice,
    Resume,
    PostResume,
    FsInfo,
    Root,
    Lustrate,
    CheckFilesystems,
    MountFilesystems,
    EarlyMounts,
    PostMount,
    RootRule,
    IsoToRam,
    Persistence,
    StopManager,
    KillProcesses,
    MountsCheckpoint,
    SwitchRoot,
}

/// The phases, in order.
pub open spec fn phases() -> Seq<Phase> {
    seq![
        Phase::Environment,
        Phase::LinkSecrets,
        Phase::Directories,
        Phase::DeviceNodes,
        Phase::EssentialMounts,
        Phase::CopySecrets,
        Phase::Files,
        Phase::HostId,
        Phase::PreDevice,
        Phase::Modules,
        Phase::LinkUnits,
        Phase::StartManager,
        Phase::TriggerManager,
        Phase::SettleManager,
        Phase::PreLvm,
        Phase::Lvm,
        Phase::DevicesCheckpoint,
        Phase::PostDevice,
        Phase::Resume,
        Phase::PostResume,
        Phase::FsInfo,
        Phase::Root,
        Phase::Lustrate,
        Phase::CheckFilesystems,
        Phase::MountFilesystems,
        Phase::EarlyMounts,
        Phase::PostMount,
        Phase::RootRule,
        Phase::IsoToRam,
        Phase::Persistence,
        Phase::StopManager,
        Phase::KillProcesses,
        Phase::MountsCheckpoint,
        Phase::SwitchRoot,
    ]
}

fn all_phases() -> (r: Vec<Phase>)
    ensures
        r@ == phases(),
{
    let v: Vec<Phase> = vec![
        Phase::Environment,
        Phase::LinkSecrets,
        Phase::Directories,
        Phase::DeviceNodes,
        Phase::EssentialMounts,
        Phase::CopySecrets,
        Phase::Files,
        Phase::HostId,
        Phase::PreDevice,
        Phase::Modules,
        Phase::LinkUnits,
        Phase::StartManager,
        Phase::TriggerManager,
        Phase::SettleManager,
        Phase::PreLvm,
        Phase::Lvm,
        Phase::DevicesCheckpoint,
        Phase::PostDevice,
        Phase::Resume,
        Phase::PostResume,
        Phase::FsInfo,
        Phase::Root,
        Phase::Lustrate,
        Phase::CheckFilesystems,
        Phase::MountFilesystems,
        Phase::EarlyMounts,
        Phase::PostMount,
        Phase::RootRule,
        Phase::IsoToRam,
        Phase::Persistence,
        Phase::StopManager,
        Phase::KillProcesses,
        Phase::MountsCheckpoint,
        Phase::SwitchRoot,
    ];
    assert(v@ =~= phases());
    v
}

/// What a phase does.
#[derive(Debug, PartialEq, Eq)]
pub enum Work {
    /// Run the script.
    Script(Vec<Step>),
    /// Look for an image to resume from: on the device that is named, then on the
    /// others.
    Resume { named: Option<String>, devices: Vec<String> },
    /// Read the list of filesystems.
    FsInfo(Option<String>),
    /// Mount the root filesystem.
    Root { target_root: String, check_journaling: bool },
    /// Take the root filesystem over, where that is asked for.
    Lustrate { target_root: String },
    /// Check the other filesystems.
    CheckFilesystems { check_journaling: bool },
    /// Mount the other filesystems.
    MountFilesystems { target_root: String },
    /// Perform the special mounts of a script.
    EarlyMounts { script: Option<String>, target_root: String },
    /// Make the root device known as `/dev/root`.
    RootRule { target_root: String },
    /// Stop here, for the reason that is given.
    Stop(String),
}

pub enum WorkView {
    Script(Seq<StepView>),
    Resume { named: Option<Seq<char>>, devices: Seq<Seq<char>> },
    FsInfo(Option<Seq<char>>),
    Root { target_root: Seq<char>, check_journaling: bool },
    Lustrate { target_root: Seq<char> },
    CheckFilesystems { check_journaling: bool },
    MountFilesystems { target_root: Seq<char> },
    EarlyMounts { script: Option<Seq<char>>, target_root: Seq<char> },
    RootRule { target_root: Seq<char> },
    Stop(Seq<char>),
}

impl DeepView for Work {
    type V = WorkView;

    open spec fn deep_view(&self) -> WorkView {
        match self {
            Work::Script(steps) => WorkView::Script(steps.deep_view()),
            Work::Resume { named, devices } => WorkView::Resume {
                named: named.deep_view(),
                devices: devices.deep_view(),
            },
            Work::FsInfo(path) => WorkView::FsInfo(path.deep_view()),
            Work::Root { target_root, check_journaling } => WorkView::Root {
                target_root: target_root@,
                check_journaling: *check_journaling,
            },
            Work::Lustrate { target_root } => WorkView::Lustrate { target_root: target_root@ },
            Work::CheckFilesystems { check_journaling } => WorkView::CheckFilesystems {
                check_journaling: *check_journaling,
            },
            Work::MountFilesystems { target_root } => WorkView::MountFilesystems {
                target_root: target_root@,
            },
            Work::EarlyMounts { script, target_root } => WorkView::EarlyMounts {
                script: script.deep_view(),
                target_root: target_root@,
            },
            Work::RootRule { target_root } => WorkView::RootRule { target_root: target_root@ },
            Work::Stop(m) => WorkView::Stop(m@),
        }
    }
}

/// The init program: the one on the kernel command line, else that of the system
/// profile.
pub open spec fn init_program(asked: Option<Seq<char>>) -> Seq<char> {
    match asked {
        Some(path) => path,
        None => "/nix/var/nix/profiles/system/sw/bin/init"@,
    }
}

/// Whether the operator asked for a stop at a phase.
pub open spec fn stops_at(phase: Phase, cmdline: KernelCmdline) -> bool {
    ||| phase == Phase::DevicesCheckpoint && cmdline.debug1devices
    ||| phase == Phase::MountsCheckpoint && cmdline.debug1mounts
}

/// The work of the phases up to the settled devices.
pub open spec fn setup_work(
    phase: Phase,
    config: Stage1Config,
    cmdline: KernelCmdline,
) -> WorkView {
    match phase {
        Phase::Environment => WorkView::Script(environment_steps(config.extra_utils.deep_view())),
        Phase::LinkSecrets => WorkView::Script(
            link_secrets_steps(config.extra_utils.deep_view()),
        ),
        Phase::Directories => WorkView::Script(
            essential_directories().map_values(|dir: Seq<char>| directory_step(dir)),
        ),
        Phase::DeviceNodes => WorkView::Script(device_steps()),
        Phase::EssentialMounts => WorkView::Script(kernel_mount_steps() + helper_mount_steps()),
        Phase::CopySecrets => WorkView::Script(copy_secrets_steps()),
        Phase::Files => WorkView::Script(file_steps()),
        Phase::HostId => WorkView::Script(host_id_steps(config.set_host_id.deep_view())),
        _ => WorkView::Script(Seq::empty()),
    }
}

/// The work of the phases in which devices come up.
pub open spec fn device_work(
    phase: Phase,
    config: Stage1Config,
    cmdline: KernelCmdline,
) -> WorkView {
    match phase {
        Phase::PreDevice => WorkView::Script(
            hook_steps(config.pre_device_commands.deep_view(), "pre-device commands"@),
        ),
        Phase::Modules => WorkView::Script(
            if cmdline.no_modprobe {
                seq![log("Skipping module loading (boot.no_modprobe)"@)]
            } else {
                modules_steps(config.kernel_modules.deep_view())
            },
        ),
        Phase::LinkUnits => WorkView::Script(
            match config.link_units.deep_view() {
                Some(units) => link_unit_steps(units, config.link_units_dest@),
                None => Seq::empty(),
            },
        ),
        Phase::StartManager => WorkView::Script(config.device_manager@.start_steps()),
        Phase::TriggerManager => WorkView::Script(config.device_manager@.trigger_steps()),
        Phase::SettleManager => WorkView::Script(config.device_manager@.settle_steps()),
        Phase::PreLvm => WorkView::Script(
            hook_steps(config.pre_lvm_commands.deep_view(), "pre-LVM commands"@),
        ),
        Phase::Lvm => WorkView::Script(lvm_steps()),
        Phase::PostDevice => WorkView::Script(
            hook_steps(config.post_device_commands.deep_view(), "post-device commands"@),
        ),
        Phase::Resume => WorkView::Resume {
            named: match cmdline.resume.deep_view() {
                Some(device) => Some(device),
                None => config.resume_device.deep_view(),
            },
            devices: config.resume_devices.deep_view(),
        },
        Phase::PostResume => WorkView::Script(
            hook_steps(config.post_resume_commands.deep_view(), "post-resume commands"@),
        ),
        _ => WorkView::Script(Seq::empty()),
    }
}

/// The work of the phases in which filesystems are mounted.
pub open spec fn mount_work(phase: Phase, config: Stage1Config) -> WorkView {
    match phase {
        Phase::FsInfo => WorkView::FsInfo(config.fs_info.deep_view()),
        Phase::Root => WorkView::Root {
            target_root: config.target_root@,
            check_journaling: config.check_journaling_fs,
        },
        Phase::Lustrate => WorkView::Lustrate { target_root: config.target_root@ },
        Phase::CheckFilesystems => WorkView::CheckFilesystems {
            check_journaling: config.check_journaling_fs,
        },
        Phase::MountFilesystems => WorkView::MountFilesystems { target_root: config.target_root@ },
        Phase::EarlyMounts => WorkView::EarlyMounts {
            script: config.early_mount_script.deep_view(),
            target_root: config.target_root@,
        },
        Phase::PostMount => WorkView::Script(
            hook_steps(config.post_mount_commands.deep_view(), "post-mount commands"@),
        ),
        _ => WorkView::Script(Seq::empty()),
    }
}

/// The work of the last phases.
pub open spec fn final_work(
    phase: Phase,
    config: Stage1Config,
    cmdline: KernelCmdline,
) -> WorkView {
    match phase {
        Phase::RootRule => WorkView::RootRule { target_root: config.target_root@ },
        Phase::IsoToRam => WorkView::Script(
            if cmdline.copy_to_ram {
                iso_steps(iso_source(cmdline.param("iso_source"@)), config.target_root@)
            } else {
                Seq::empty()
            },
        ),
        Phase::Persistence => WorkView::Script(
            all_persistence_steps(cmdline.persistence.deep_view(), config.target_root@),
        ),
        Phase::StopManager => WorkView::Script(config.device_manager@.stop_steps()),
        Phase::KillProcesses => WorkView::Script(kill_steps()),
        Phase::SwitchRoot => WorkView::Script(
            switch_steps(
                config.target_root@,
                init_program(cmdline.init.deep_view()),
                cmdline.console.deep_view(),
            ),
        ),
        _ => WorkView::Script(Seq::empty()),
    }
}

/// The parts that the phases fall into.
#[derive(Debug, Clone, Copy, PartialEq, Eq, Structural)]
pub enum Part {
    Setup,
    Devices,
    Mounts,
    Final,
    Checkpoint,
}

pub open spec fn part_of(phase: Phase) -> Part {
    match phase {
        Phase::Environment | Phase::LinkSecrets | Phase::Directories | Phase::DeviceNodes
        | Phase::EssentialMounts | Phase::CopySecrets | Phase::Files | Phase::HostId => Part::Setup,
        Phase::PreDevice | Phase::Modules | Phase::LinkUnits | Phase::StartManager
        | Phase::TriggerManager | Phase::SettleManager | Phase::PreLvm | Phase::Lvm
        | Phase::PostDevice | Phase::Resume | Phase::PostResume => Part::Devices,
        Phase::FsInfo | Phase::Root | Phase::Lustrate | Phase::CheckFilesystems
        | Phase::MountFilesystems | Phase::EarlyMounts | Phase::PostMount => Part::Mounts,
        Phase::DevicesCheckpoint | Phase::MountsCheckpoint => Part::Checkpoint,
        _ => Part::Final,
    }
}

/// The work of a checkpoint: to stop, where the operator asked for it.
pub open spec fn checkpoint_work(phase: Phase, cmdline: KernelCmdline) -> WorkView {
    if !stops_at(phase, cmdline) {
        WorkView::Script(Seq::empty())
    } else if phase == Phase::DevicesCheckpoint {
        WorkView::Stop("boot.debug1devices checkpoint reached"@)
    } else {
        WorkView::Stop("boot.debug1mounts checkpoint reached"@)
    }
}

/// The work of a phase.
pub open spec fn phase_work(
    phase: Phase,
    config: Stage1Config,
    cmdline: KernelCmdline,
) -> WorkView {
    match part_of(phase) {
        Part::Setup => setup_work(phase, config, cmdline),
        Part::Devices => device_work(phase, config, cmdline),
        Part::Mounts => mount_work(phase, config),
        Part::Final => final_work(phase, config, cmdline),
        Part::Checkpoint => checkpoint_work(phase, cmdline),
    }
}

fn part(phase: Phase) -> (r: Part)
    ensures
        r == part_of(phase),
{
    match phase {
        Phase::Environment | Phase::LinkSecrets | Phase::Directories | Phase::DeviceNodes
        | Phase::EssentialMounts | Phase::CopySecrets | Phase::Files | Phase::HostId => Part::Setup,
        Phase::PreDevice | Phase::Modules | Phase::LinkUnits | Phase::StartManager
        | Phase::TriggerManager | Phase::SettleManager | Phase::PreLvm | Phase::Lvm
        | Phase::PostDevice | Phase::Resume | Phase::PostResume => Part::Devices,
        Phase::FsInfo | Phase::Root | Phase::Lustrate | Phase::CheckFilesystems
        | Phase::MountFilesystems | Phase::EarlyMounts | Phase::PostMount => Part::Mounts,
        Phase::DevicesCheckpoint | Phase::MountsCheckpoint => Part::Checkpoint,
        _ => Part::Final,
    }
}

fn work_of_setup(phase: Phase, config: &Stage1Config, cmdline: &KernelCmdline) -> (r: Work)
    ensures
        r.deep_view() == setup_work(phase, *config, *cmdline),
{
    match phase {
        Phase::Environment => Work::Script(setup_environment(&config.extra_utils)),
        Phase::LinkSecrets => Work::Script(link_extra_utils_secrets(&config.extra_utils)),
        Phase::Directories => Work::Script(create_directories()),
        Phase::DeviceNodes => Work::Script(create_essential_devices()),
        Phase::EssentialMounts => Work::Script(mount_essential_filesystems()),
        Phase::CopySecrets => Work::Script(copy_initrd_secrets()),
        Phase::Files => Work::Script(create_essential_files()),
        Phase::HostId => Work::Script(set_host_id(&config.set_host_id)),
        _ => Work::Script(no_steps()),
    }
}

fn work_of_devices(phase: Phase, config: &Stage1Config, cmdline: &KernelCmdline) -> (r: Work)
    ensures
        r.deep_view() == device_work(phase, *config, *cmdline),
{
    match phase {
        Phase::PreDevice => Work::Script(
            run_hook_script(&config.pre_device_commands, "pre-device commands"),
        ),
        Phase::Modules => Work::Script(
            load_kernel_modules(&config.kernel_modules, cmdline.no_modprobe),
        ),
        Phase::LinkUnits => Work::Script(
            match &config.link_units {
                Some(units) => setup_link_units(units.as_str(), config.link_units_dest.as_str()),
                None => no_steps(),
            },
        ),
        Phase::StartManager => Work::Script(config.device_manager.start()),
        Phase::TriggerManager => Work::Script(config.device_manager.trigger()),
        Phase::SettleManager => Work::Script(config.device_manager.settle()),
        Phase::PreLvm => Work::Script(
            run_hook_script(&config.pre_lvm_commands, "pre-LVM commands"),
        ),
        Phase::Lvm => Work::Script(activate_lvm()),
        Phase::PostDevice => Work::Script(
            run_hook_script(&config.post_device_commands, "post-device commands"),
        ),
        Phase::Resume => Work::Resume {
            named: match &cmdline.resume {
                Some(device) => Some(device.clone()),
                None => copy_option(&config.resume_device),
            },
            devices: copy_texts(&config.resume_devices),
        },
        Phase::PostResume => Work::Script(
            run_hook_script(&config.post_resume_commands, "post-resume commands"),
        ),
        _ => Work::Script(no_steps()),
    }
}

fn work_of_mounts(phase: Phase, config: &Stage1Config) -> (r: Work)
    ensures
        r.deep_view() == mount_work(phase, *config),
{
    match phase {
        Phase::FsInfo => Work::FsInfo(copy_option(&config.fs_info)),
        Phase::Root => Work::Root {
            target_root: config.target_root.clone(),
            check_journaling: config.check_journaling_fs,
        },
        Phase::Lustrate => Work::Lustrate { target_root: config.target_root.clone() },
        Phase::CheckFilesystems => Work::CheckFilesystems {
            check_journaling: config.check_journaling_fs,
        },
        Phase::MountFilesystems => Work::MountFilesystems {
            target_root: config.target_root.clone(),
        },
        Phase::EarlyMounts => Work::EarlyMounts {
            script: copy_option(&config.early_mount_script),
            target_root: config.target_root.clone(),
        },
        Phase::PostMount => Work::Script(
            run_hook_script(&config.post_mount_commands, "post-mount commands"),
        ),
        _ => Work::Script(no_steps()),
    }
}

fn work_of_end(phase: Phase, config: &Stage1Config, cmdline: &KernelCmdline) -> (r: Work)
    ensures
        r.deep_view() == final_work(phase, *config, *cmdline),
{
    let target_root = config.target_root.as_str();
    match phase {
        Phase::RootRule => Work::RootRule { target_root: config.target_root.clone() },
        Phase::IsoToRam => Work::Script(copy_iso_to_ram(cmdline, target_root)),
        Phase::Persistence => Work::Script(handle_persistence(cmdline, target_root)),
        Phase::StopManager => Work::Script(config.device_manager.stop()),
        Phase::KillProcesses => Work::Script(kill_remaining_processes()),
        Phase::SwitchRoot => {
            let init = match &cmdline.init {
                Some(path) => path.as_str(),
                None => "/nix/var/nix/profiles/system/sw/bin/init",
            };
            Work::Script(switch_root(target_root, init, &cmdline.console))
        },
        _ => Work::Script(no_steps()),
    }
}

fn stopping(phase: Phase, cmdline: &KernelCmdline) -> (r: bool)
    ensures
        r == stops_at(phase, *cmdline),
{
    phase == Phase::DevicesCheckpoint && cmdline.debug1devices || phase == Phase::MountsCheckpoint
        && cmdline.debug1mounts
}

/// The work of a phase.
pub fn work(phase: Phase, config: &Stage1Config, cmdline: &KernelCmdline) -> (r: Work)
    ensures
        r.deep_view() == phase_work(phase, *config, *cmdline),
{
    match part(phase) {
        Part::Setup => work_of_setup(phase, config, cmdline),
        Part::Devices => work_of_devices(phase, config, cmdline),
        Part::Mounts => work_of_mounts(phase, config),
        Part::Final => work_of_end(phase, config, cmdline),
        Part::Checkpoint => if !stopping(phase, cmdline) {
            Work::Script(no_steps())
        } else if phase == Phase::DevicesCheckpoint {
            Work::Stop("boot.debug1devices checkpoint reached".to_owned())
        } else {
            Work::Stop("boot.debug1mounts checkpoint reached".to_owned())
        },
    }
}

// ---------------------------------------------------------------------------
// Failure of a phase
// ---------------------------------------------------------------------------
/// What follows where a phase fails.
#[derive(Debug, PartialEq, Eq)]
pub enum PhaseFailure {
    /// The bootstrap ends with the error under this message.
    Error(String),
    /// The bootstrap ends with the error as it is.
    Raise,
    /// The boot fails for the reason that begins like this and goes on with the
    /// error.
    Fail(String),
}

pub enum PhaseFailureView {
    Error(Seq<char>),
    Raise,
    Fail(Seq<char>),
}

impl DeepView for PhaseFailure {
    type V = PhaseFailureView;

    open spec fn deep_view(&self) -> PhaseFailureView {
        match self {
            PhaseFailure::Error(m) => PhaseFailureView::Error(m@),
            PhaseFailure::Raise => PhaseFailureView::Raise,
            PhaseFailure::Fail(m) => PhaseFailureView::Fail(m@),
        }
    }
}

/// What follows where a phase fails. Without a root filesystem, and where the
/// switch to it fails, the policy for failures applies.
pub open spec fn phase_failure(phase: Phase) -> PhaseFailureView {
    match phase {
        Phase::Environment => PhaseFailureView::Error("Failed to set up environment"@),
        Phase::LinkSecrets => PhaseFailureView::Error("Failed to link extraUtils secrets"@),
        Phase::Directories => PhaseFailureView::Error("Failed to create directories"@),
        Phase::DeviceNodes => PhaseFailureView::Error("Failed to create essential devices"@),
        Phase::EssentialMounts => PhaseFailureView::Error(
            "Failed to mount essential filesystems"@,
        ),
        Phase::CopySecrets => PhaseFailureView::Error("Failed to copy initrd secrets"@),
        Phase::Files => PhaseFailureView::Error("Failed to create essential files"@),
        Phase::HostId => PhaseFailureView::Error("Failed to set host ID"@),
        Phase::PreDevice => PhaseFailureView::Error("Pre-device commands failed"@),
        Phase::Modules => PhaseFailureView::Error("Failed to load kernel modules"@),
        Phase::LinkUnits => PhaseFailureView::Error("Failed to set up systemd link units"@),
        Phase::StartManager => PhaseFailureView::Error("Failed to start device manager"@),
        Phase::TriggerManager => PhaseFailureView::Error("Failed to trigger device events"@),
        Phase::SettleManager => PhaseFailureView::Error("Failed to settle device manager"@),
        Phase::PreLvm => PhaseFailureView::Error("Pre-LVM commands failed"@),
        Phase::Lvm => PhaseFailureView::Error("Failed to activate LVM"@),
        Phase::PostDevice => PhaseFailureView::Error("Post-device commands failed"@),
        Phase::Resume => PhaseFailureView::Error("Failed to handle resume"@),
        Phase::PostResume => PhaseFailureView::Error("Post-resume commands failed"@),
        Phase::FsInfo => PhaseFailureView::Error("Failed to parse filesystem info"@),
        Phase::Root => PhaseFailureView::Fail("Failed to mount root filesystem: "@),
        Phase::Lustrate => PhaseFailureView::Error("Failed to handle lustrate"@),
        Phase::MountFilesystems => PhaseFailureView::Error(
            "Failed to mount additional filesystems"@,
        ),
        Phase::PostMount => PhaseFailureView::Error("Post-mount commands failed"@),
        Phase::RootRule => PhaseFailureView::Error("Failed to emit /dev/root udev rule"@),
        Phase::IsoToRam => PhaseFailureView::Error("Failed to copy ISO to RAM"@),
        Phase::Persistence => PhaseFailureView::Error("Failed to handle persistence"@),
        Phase::KillProcesses => PhaseFailureView::Error("Failed to kill remaining processes"@),
        Phase::SwitchRoot => PhaseFailureView::Fail("Failed to switch root: "@),
        _ => PhaseFailureView::Raise,
    }
}

fn failure_message(phase: Phase) -> (r: Option<&'static str>)
    ensures
        match phase_failure(phase) {
            PhaseFailureView::Error(m) => r matches Some(t) && t@ == m,
            _ => r is None,
        },
{
    match phase {
        Phase::Environment => Some("Failed to set up environment"),
        Phase::LinkSecrets => Some("Failed to link extraUtils secrets"),
        Phase::Directories => Some("Failed to create directories"),
        Phase::DeviceNodes => Some("Failed to create essential devices"),
        Phase::EssentialMounts => Some("Failed to mount essential filesystems"),
        Phase::CopySecrets => Some("Failed to copy initrd secrets"),
        Phase::Files => Some("Failed to create essential files"),
        Phase::HostId => Some("Failed to set host ID"),
        Phase::PreDevice => Some("Pre-device commands failed"),
        Phase::Modules => Some("Failed to load kernel modules"),
        Phase::LinkUnits => Some("Failed to set up systemd link units"),
        Phase::StartManager => Some("Failed to start device manager"),
        Phase::TriggerManager => Some("Failed to trigger device events"),
        Phase::SettleManager => Some("Failed to settle device manager"),
        Phase::PreLvm => Some("Pre-LVM commands failed"),
        Phase::Lvm => Some("Failed to activate LVM"),
        Phase::PostDevice => Some("Post-device commands failed"),
        Phase::Resume => Some("Failed to handle resume"),
        Phase::PostResume => Some("Post-resume commands failed"),
        Phase::FsInfo => Some("Failed to parse filesystem info"),
        Phase::Lustrate => Some("Failed to handle lustrate"),
        Phase::MountFilesystems => Some("Failed to mount additional filesystems"),
        Phase::PostMount => Some("Post-mount commands failed"),
        Phase::RootRule => Some("Failed to emit /dev/root udev rule"),
        Phase::IsoToRam => Some("Failed to copy ISO to RAM"),
        Phase::Persistence => Some("Failed to handle persistence"),
        Phase::KillProcesses => Some("Failed to kill remaining processes"),
        _ => None,
    }
}

fn failure_of(phase: Phase) -> (r: PhaseFailure)
    ensures
        r.deep_view() == phase_failure(phase),
{
    match failure_message(phase) {
        Some(m) => PhaseFailure::Error(m.to_owned()),
        None => match phase {
            Phase::Root => PhaseFailure::Fail("Failed to mount root filesystem: ".to_owned()),
            Phase::SwitchRoot => PhaseFailure::Fail("Failed to switch root: ".to_owned()),
            _ => PhaseFailure::Raise,
        },
    }
}

// ---------------------------------------------------------------------------
// The walk through the phases
// ---------------------------------------------------------------------------
/// What a phase came to.
#[derive(Debug, Clone, Copy, PartialEq, Eq, Structural)]
pub enum BootEvent {
    Done,
    Failed,
}

/// Where the bootstrap stands: at a phase, or behind the last one; and whether a
/// phase failed.
pub struct BootView {
    pub at: int,
    pub failed: bool,
}

/// Where the bootstrap begins.
pub open spec fn boot_start() -> BootView {
    BootView { at: 0, failed: false }
}

/// Where the bootstrap stands after an event. A checkpoint at which it stops is
/// not passed, and a failure is the end.
pub open spec fn boot_next(boot: BootView, cmdline: KernelCmdline, event: BootEvent) -> BootView {
    if boot.failed || !(0 <= boot.at < phases().len()) || stops_at(phases()[boot.at], cmdline) {
        boot
    } else {
        match event {
            BootEvent::Done => BootView { at: boot.at + 1, ..boot },
            BootEvent::Failed => BootView { failed: true, ..boot },
        }
    }
}

/// The walk through the phases.
pub struct Boot {
    phases: Vec<Phase>,
    at: usize,
    failed: bool,
}

/// What the bootstrap does next.
#[derive(Debug, PartialEq, Eq)]
pub enum BootRequest {
    /// The work of a phase.
    Perform(Work),
    /// Stop at a checkpoint.
    Checkpoint(String),
    /// A phase failed.
    Failed(PhaseFailure),
    /// The last phase came back, which it should not; the bootstrap ends with
    /// this message.
    Returned(String),
}

pub enum BootRequestView {
    Perform(WorkView),
    Checkpoint(Seq<char>),
    Failed(PhaseFailureView),
    Returned(Seq<char>),
}

impl DeepView for BootRequest {
    type V = BootRequestView;

    open spec fn deep_view(&self) -> BootRequestView {
        match self {
            BootRequest::Perform(work) => BootRequestView::Perform(work.deep_view()),
            BootRequest::Checkpoint(m) => BootRequestView::Checkpoint(m@),
            BootRequest::Failed(f) => BootRequestView::Failed(f.deep_view()),
            BootRequest::Returned(m) => BootRequestView::Returned(m@),
        }
    }
}

/// What the bootstrap does next.
pub open spec fn boot_request(
    boot: BootView,
    config: Stage1Config,
    cmdline: KernelCmdline,
) -> BootRequestView {
    if !(0 <= boot.at < phases().len()) {
        BootRequestView::Returned("switch_root returned unexpectedly"@)
    } else if boot.failed {
        BootRequestView::Failed(phase_failure(phases()[boot.at]))
    } else {
        match phase_work(phases()[boot.at], config, cmdline) {
            WorkView::Stop(message) => BootRequestView::Checkpoint(message),
            work => BootRequestView::Perform(work),
        }
    }
}

impl View for Boot {
    type V = BootView;

    closed spec fn view(&self) -> BootView {
        BootView { at: self.at as int, failed: self.failed }
    }
}

impl Boot {
    #[verifier::type_invariant]
    spec fn valid(self) -> bool {
        self.phases@ == phases() && self.at <= self.phases@.len()
    }

    /// The bootstrap at its first phase.
    pub fn new() -> (r: Self)
        ensures
            r@ == boot_start(),
    {
        Boot { phases: all_phases(), at: 0, failed: false }
    }

    /// What is done next.
    pub fn request(&self, config: &Stage1Config, cmdline: &KernelCmdline) -> (r: BootRequest)
        ensures
            r.deep_view() == boot_request(self@, *config, *cmdline),
    {
        proof {
            use_type_invariant(self);
        }
        if self.at >= self.phases.len() {
            return BootRequest::Returned("switch_root returned unexpectedly".to_owned());
        }
        let phase = self.phases[self.at];
        if self.failed {
            return BootRequest::Failed(failure_of(phase));
        }
        match work(phase, config, cmdline) {
            Work::Stop(message) => BootRequest::Checkpoint(message),
            work => BootRequest::Perform(work),
        }
    }

    /// Goes on after a phase.
    pub fn step(&mut self, cmdline: &KernelCmdline, event: BootEvent)
        ensures
            final(self)@ == boot_next(old(self)@, *cmdline, event),
    {
        proof {
            use_type_invariant(&*self);
        }
        if self.failed || self.at >= self.phases.len() || stopping(self.phases[self.at], cmdline) {
            return;
        }
        match event {
            BootEvent::Done => {
                let next: usize = self.at + 1;
                self.at = next;
            },
            BootEvent::Failed => {
                self.failed = true;
            },
        }
    }
}

/// Begins the bootstrap: the steps by which the kernel command line can be read,
/// the configuration, and the walk through the phases.
pub fn run(args: &[String], env: &Vec<EnvVar>) -> (r: (Vec<Step>, Stage1Config, Boot))
    ensures
        r.0.deep_view() == early_proc_steps(),
        r.1.made_by(env@, given_overrides(args.deep_view())),
        r.2@ == boot_start(),
{
    (mount_early_proc(), parse_args(args, env), Boot::new())
}

/// The reason for which the boot fails where a phase does.
pub open spec fn reason_of_failure(beginning: Seq<char>, error: Seq<char>) -> (
    Seq<char>,
    StopReason,
) {
    (beginning + error, StopReason::Failure)
}

/// The reason for which the boot fails where a phase does.
pub fn failure_reason(beginning: &str, error: &str) -> (r: (String, StopReason))
    ensures
        (r.0@, r.1) == reason_of_failure(beginning@, error@),
{
    (cat2(beginning, error), StopReason::Failure)
}

// ---------------------------------------------------------------------------
// Laws
// ---------------------------------------------------------------------------
/// Where the bootstrap stands after a row of events.
pub open spec fn boot_after(cmdline: KernelCmdline, events: Seq<BootEvent>) -> BootView
    decreases events.len(),
{
    if events.len() == 0 {
        boot_start()
    } else {
        boot_next(boot_after(cmdline, events.drop_last()), cmdline, events.last())
    }
}

/// A phase that fails is the last one: whatever happens then, no other phase is
/// performed.
pub proof fn lemma_failure_is_final(
    boot: BootView,
    config: Stage1Config,
    cmdline: KernelCmdline,
    event: BootEvent,
)
    requires
        boot.failed,
    ensures
        boot_next(boot, cmdline, event) == boot,
        !(boot_request(boot, config, cmdline) is Perform),
{
}

/// A phase is reached only after every phase before it is done.
pub proof fn lemma_phases_in_order(cmdline: KernelCmdline, events: Seq<BootEvent>)
    ensures
        0 <= boot_after(cmdline, events).at <= events.len(),
        boot_after(cmdline, events).at <= phases().len(),
        forall|i: int|
            0 <= i < boot_after(cmdline, events).at ==> #[trigger] events[i] == BootEvent::Done,
    decreases events.len(),
{
    if events.len() > 0 {
        let front = events.drop_last();
        lemma_phases_in_order(cmdline, front);
        lemma_done_so_far(cmdline, front);
        let before = boot_after(cmdline, front);
        assert forall|i: int| 0 <= i < boot_after(cmdline, events).at implies #[trigger] events[i]
            == BootEvent::Done by {
            if i < before.at {
                assert(front[i] == events[i]);
            } else {
                assert(events[i] == events.last());
            }
        }
    }
}

/// While nothing failed and nothing stopped, the count of events is the count of
/// phases that are done.
proof fn lemma_done_so_far(cmdline: KernelCmdline, events: Seq<BootEvent>)
    ensures
        ({
            let boot = boot_after(cmdline, events);
            !boot.failed && 0 <= boot.at < phases().len() && !stops_at(phases()[boot.at], cmdline)
                ==> boot.at == events.len()
        }),
        boot_after(cmdline, events).at >= 0,
    decreases events.len(),
{
    if events.len() > 0 {
        lemma_done_so_far(cmdline, events.drop_last());
    }
}

/// At the checkpoint behind the devices that the operator asked for the boot
/// stops: nothing of what comes behind it, the root filesystem first of all, is
/// touched.
pub proof fn lemma_devices_checkpoint(cmdline: KernelCmdline, events: Seq<BootEvent>)
    requires
        cmdline.debug1devices,
    ensures
        boot_after(cmdline, events).at <= phases().index_of(Phase::DevicesCheckpoint),
        phases().index_of(Phase::DevicesCheckpoint) < phases().index_of(Phase::Root),
    decreases events.len(),
{
    lemma_index(16);
    lemma_index(21);
    if events.len() > 0 {
        lemma_devices_checkpoint(cmdline, events.drop_last());
        lemma_phases_in_order(cmdline, events.drop_last());
    }
}

/// At the checkpoint behind the mounts that the operator asked for the boot
/// stops: there is no switch to the root filesystem.
pub proof fn lemma_mounts_checkpoint(cmdline: KernelCmdline, events: Seq<BootEvent>)
    requires
        cmdline.debug1mounts,
    ensures
        boot_after(cmdline, events).at <= phases().index_of(Phase::MountsCheckpoint),
        phases().index_of(Phase::MountsCheckpoint) < phases().index_of(Phase::SwitchRoot),
    decreases events.len(),
{
    lemma_index(32);
    lemma_index(33);
    if events.len() > 0 {
        lemma_mounts_checkpoint(cmdline, events.drop_last());
        lemma_phases_in_order(cmdline, events.drop_last());
    }
}

/// What has to come before what: secrets are copied once `/run` is in place;
/// LVM is activated once hooks had the chance to open what lies below it; the
/// list of filesystems is read before the root filesystem is mounted; the root
/// filesystem is taken over before others are mounted on it; filesystems are
/// checked before they are mounted; the device manager and all other processes
/// are gone before the switch.
pub proof fn lemma_order_of_phases()
    ensures
        phases().no_duplicates(),
        phases().index_of(Phase::Environment) < phases().index_of(Phase::LinkSecrets),
        phases().index_of(Phase::LinkSecrets) < phases().index_of(Phase::Directories),
        phases().index_of(Phase::Directories) < phases().index_of(Phase::DeviceNodes),
        phases().index_of(Phase::DeviceNodes) < phases().index_of(Phase::EssentialMounts),
        phases().index_of(Phase::EssentialMounts) < phases().index_of(Phase::CopySecrets),
        phases().index_of(Phase::CopySecrets) < phases().index_of(Phase::Files),
        phases().index_of(Phase::Files) < phases().index_of(Phase::HostId),
        phases().index_of(Phase::HostId) < phases().index_of(Phase::PreDevice),
        phases().index_of(Phase::PreDevice) < phases().index_of(Phase::Modules),
        phases().index_of(Phase::Modules) < phases().index_of(Phase::LinkUnits),
        phases().index_of(Phase::LinkUnits) < phases().index_of(Phase::StartManager),
        phases().index_of(Phase::StartManager) < phases().index_of(Phase::TriggerManager),
        phases().index_of(Phase::TriggerManager) < phases().index_of(Phase::SettleManager),
        phases().index_of(Phase::SettleManager) < phases().index_of(Phase::PreLvm),
        phases().index_of(Phase::PreLvm) < phases().index_of(Phase::Lvm),
        phases().index_of(Phase::Lvm) < phases().index_of(Phase::DevicesCheckpoint),
        phases().index_of(Phase::DevicesCheckpoint) < phases().index_of(Phase::PostDevice),
        phases().index_of(Phase::PostDevice) < phases().index_of(Phase::Resume),
        phases().index_of(Phase::Resume) < phases().index_of(Phase::PostResume),
        phases().index_of(Phase::PostResume) < phases().index_of(Phase::FsInfo),
        phases().index_of(Phase::FsInfo) < phases().index_of(Phase::Root),
        phases().index_of(Phase::Root) < phases().index_of(Phase::Lustrate),
        phases().index_of(Phase::Lustrate) < phases().index_of(Phase::CheckFilesystems),
        phases().index_of(Phase::CheckFilesystems) < phases().index_of(Phase::MountFilesystems),
        phases().index_of(Phase::MountFilesystems) < phases().index_of(Phase::EarlyMounts),
        phases().index_of(Phase::EarlyMounts) < phases().index_of(Phase::PostMount),
        phases().index_of(Phase::PostMount) < phases().index_of(Phase::RootRule),
        phases().index_of(Phase::RootRule) < phases().index_of(Phase::IsoToRam),
        phases().index_of(Phase::IsoToRam) < phases().index_of(Phase::Persistence),
        phases().index_of(Phase::Persistence) < phases().index_of(Phase::StopManager),
        phases().index_of(Phase::StopManager) < phases().index_of(Phase::KillProcesses),
        phases().index_of(Phase::KillProcesses) < phases().index_of(Phase::MountsCheckpoint),
        phases().index_of(Phase::MountsCheckpoint) < phases().index_of(Phase::SwitchRoot),
        phases().index_of(Phase::SwitchRoot) == phases().len() - 1,
{
    lemma_distinct_phases();
    lemma_places();
}

/// The place of each phase.
spec fn place(phase: Phase) -> int {
    match phase {
        Phase::Environment => 0,
        Phase::LinkSecrets => 1,
        Phase::Directories => 2,
        Phase::DeviceNodes => 3,
        Phase::EssentialMounts => 4,
        Phase::CopySecrets => 5,
        Phase::Files => 6,
        Phase::HostId => 7,
        Phase::PreDevice => 8,
        Phase::Modules => 9,
        Phase::LinkUnits => 10,
        Phase::StartManager => 11,
        Phase::TriggerManager => 12,
        Phase::SettleManager => 13,
        Phase::PreLvm => 14,
        Phase::Lvm => 15,
        Phase::DevicesCheckpoint => 16,
        Phase::PostDevice => 17,
        Phase::Resume => 18,
        Phase::PostResume => 19,
        Phase::FsInfo => 20,
        Phase::Root => 21,
        Phase::Lustrate => 22,
        Phase::CheckFilesystems => 23,
        Phase::MountFilesystems => 24,
        Phase::EarlyMounts => 25,
        Phase::PostMount => 26,
        Phase::RootRule => 27,
        Phase::IsoToRam => 28,
        Phase::Persistence => 29,
        Phase::StopManager => 30,
        Phase::KillProcesses => 31,
        Phase::MountsCheckpoint => 32,
        Phase::SwitchRoot => 33,
    }
}

proof fn lemma_places()
    ensures
        forall|phase: Phase| #[trigger] phases().index_of(phase) == place(phase),
{
    assert forall|phase: Phase| #[trigger] phases().index_of(phase) == place(phase) by {
        assert(phases()[place(phase)] == phase);
        lemma_index(place(phase));
    }
}

proof fn lemma_distinct_phases()
    ensures
        phases().len() == 34,
        phases().no_duplicates(),
{
    assert forall|i: int| 0 <= i < 34 implies place(#[trigger] phases()[i]) == i by {}
    assert forall|i: int, j: int| 0 <= i < 34 && 0 <= j < 34 && i != j implies phases()[i]
        != phases()[j] by {
        assert(place(phases()[i]) == i && place(phases()[j]) == j);
    }
}

proof fn lemma_index(i: int)
    requires
        0 <= i < phases().len(),
    ensures
        phases().index_of(phases()[i]) == i,
{
    lemma_distinct_phases();
    let all = phases();
    assert(all[i] == all[i]);
    let k = all.index_of(all[i]);
    assert(all.contains(all[i]));
    assert(0 <= k < all.len() && all[k] == all[i]);
}

/// Every phase is performed in its turn while all goes well and nothing stops the
/// boot, and the work that is asked for is that of the phase; where a phase fails,
/// it is that phase whose failure is dealt with.
pub proof fn lemma_each_phase_in_its_turn(
    config: Stage1Config,
    cmdline: KernelCmdline,
    events: Seq<BootEvent>,
)
    requires
        !cmdline.debug1devices,
        !cmdline.debug1mounts,
        events.len() < phases().len(),
        forall|i: int| 0 <= i < events.len() ==> #[trigger] events[i] == BootEvent::Done,
    ensures
        ({
            let boot = boot_after(cmdline, events);
            let phase = phases()[events.len() as int];
            let failed = boot_next(boot, cmdline, BootEvent::Failed);
            &&& boot == (BootView { at: events.len() as int, failed: false })
            &&& boot_request(boot, config, cmdline) == BootRequestView::Perform(
                phase_work(phase, config, cmdline),
            )
            &&& boot_request(failed, config, cmdline) == BootRequestView::Failed(
                phase_failure(phase),
            )
        }),
    decreases events.len(),
{
    if events.len() > 0 {
        let front = events.drop_last();
        assert forall|i: int| 0 <= i < front.len() implies #[trigger] front[i]
            == BootEvent::Done by {
            assert(front[i] == events[i]);
        }
        lemma_each_phase_in_its_turn(config, cmdline, front);
        assert(events.last() == BootEvent::Done);
    }
    let phase = phases()[events.len() as int];
    assert(!(phase_work(phase, config, cmdline) is Stop));
}

/// Where the root filesystem cannot be mounted or switched to, the policy for
/// failures applies; where another phase fails, the bootstrap ends with its error.
pub proof fn lemma_failures_of_the_root(phase: Phase)
    ensures
        phase_failure(phase) is Fail <==> phase == Phase::Root || phase == Phase::SwitchRoot,
        phase_failure(Phase::Root) == PhaseFailureView::Fail("Failed to mount root filesystem: "@),
        phase_failure(Phase::SwitchRoot) == PhaseFailureView::Fail("Failed to switch root: "@),
        phase_failure(phase) is Raise <==> {
            ||| phase == Phase::DevicesCheckpoint
            ||| phase == Phase::MountsCheckpoint
            ||| phase == Phase::CheckFilesystems
            ||| phase == Phase::EarlyMounts
            ||| phase == Phase::StopManager
        },
{
}

/// The boot stops at a checkpoint only where the operator asked for that one, and
/// at no other phase.
pub proof fn lemma_where_the_boot_stops(
    phase: Phase,
    config: Stage1Config,
    cmdline: KernelCmdline,
)
    ensures
        phase_work(phase, config, cmdline) is Stop <==> {
            ||| phase == Phase::DevicesCheckpoint && cmdline.debug1devices
            ||| phase == Phase::MountsCheckpoint && cmdline.debug1mounts
        },
        phase == Phase::DevicesCheckpoint && cmdline.debug1devices ==> phase_work(
            phase,
            config,
            cmdline,
        ) == WorkView::Stop("boot.debug1devices checkpoint reached"@),
        phase == Phase::MountsCheckpoint && cmdline.debug1mounts ==> phase_work(
            phase,
            config,
            cmdline,
        ) == WorkView::Stop("boot.debug1mounts checkpoint reached"@),
{
}

/// The init program: the one that the kernel command line names, and only without
/// one that of the system profile.
pub open spec fn is_init(init: Seq<char>, cmdline: KernelCmdline) -> bool {
    match cmdline.init.deep_view() {
        Some(path) => init == path,
        None => init == "/nix/var/nix/profiles/system/sw/bin/init"@,
    }
}

/// The last phase becomes the init program that the kernel command line names and
/// no other one, and only where that was found below the root filesystem.
pub proof fn lemma_init_of_command_line(
    config: Stage1Config,
    cmdline: KernelCmdline,
    init: Seq<char>,
    k: int,
    holds: spec_fn(CheckView) -> bool,
    outcome: spec_fn(OpView) -> Outcome,
    program: Seq<char>,
)
    requires
        is_init(init, cmdline),
        leading_slashes(init, k),
        config.target_root@.len() > 0 && config.target_root@.last() != '/',
    ensures
        ({
            let work = phase_work(Phase::SwitchRoot, config, cmdline);
            let found = CheckView::Exists(config.target_root@ + seq!['/'] + init.skip(k));
            &&& work is Script
            &&& performed(work->Script_0, 0, holds, outcome).contains(OpView::Execute(program))
                ==> program == init && holds(found)
            &&& all_goes_well(outcome) && holds(found) && !init.contains('\0') && !console_path(
                cmdline.console.deep_view(),
            ).contains('\0') ==> performed(work->Script_0, 0, holds, outcome).last()
                == OpView::Execute(init)
            &&& !holds(found) ==> script_fails(work->Script_0, 0, holds, outcome)
        }),
{
    let root = config.target_root@;
    let consoles = cmdline.console.deep_view();
    let steps = phase_work(Phase::SwitchRoot, config, cmdline)->Script_0;
    assert(steps == switch_steps(root, init, consoles));
    if performed(steps, 0, holds, outcome).contains(OpView::Execute(program)) {
        lemma_only_init_is_executed(root, init, k, consoles, holds, outcome, program);
    }
    let found = CheckView::Exists(root + seq!['/'] + init.skip(k));
    if all_goes_well(outcome) && holds(found) && !init.contains('\0') && !console_path(
        consoles,
    ).contains('\0') {
        lemma_switch(root, init, k, consoles, holds, outcome);
    }
    if !holds(found) {
        lemma_rest_behind_leading(init, '/', k);
        lemma_joined(root, init.skip(k));
        lemma_missing_init_changes_nothing(root, init, consoles, holds, outcome);
    }
}

/// The device to resume from is the one on the kernel command line; without one it
/// is the configured one, and there is none only where neither is. The others that
/// may hold an image are the configured ones.
pub proof fn lemma_resume_device(config: Stage1Config, cmdline: KernelCmdline)
    ensures
        ({
            let work = phase_work(Phase::Resume, config, cmdline);
            &&& work is Resume
            &&& cmdline.resume is Some ==> work->named == Some(cmdline.resume->0@)
            &&& cmdline.resume is None && config.resume_device is Some ==> work->named == Some(
                config.resume_device->0@,
            )
            &&& work->named is None <==> cmdline.resume is None && config.resume_device is None
            &&& work->devices == config.resume_devices.deep_view()
        }),
{
}

/// The hook of a phase.
pub open spec fn hook_of(phase: Phase, config: Stage1Config) -> Option<Seq<char>> {
    match phase {
        Phase::PreDevice => config.pre_device_commands.deep_view(),
        Phase::PreLvm => config.pre_lvm_commands.deep_view(),
        Phase::PostDevice => config.post_device_commands.deep_view(),
        Phase::PostResume => config.post_resume_commands.deep_view(),
        Phase::PostMount => config.post_mount_commands.deep_view(),
        _ => None,
    }
}

/// Each hook is run in the phase that it is for, and no other program is run there.
pub proof fn lemma_hooks_in_their_phases(
    phase: Phase,
    config: Stage1Config,
    cmdline: KernelCmdline,
    holds: spec_fn(CheckView) -> bool,
    outcome: spec_fn(OpView) -> Outcome,
)
    requires
        phase == Phase::PreDevice
            || phase == Phase::PreLvm
            || phase == Phase::PostDevice
            || phase == Phase::PostResume
            || phase == Phase::PostMount,
    ensures
        ({
            let work = phase_work(phase, config, cmdline);
            let ops = performed(work->Script_0, 0, holds, outcome);
            &&& work is Script
            &&& match hook_of(phase, config) {
                Some(path) if holds(CheckView::HasContent(path)) => {
                    &&& ops.len() == 2
                    &&& ops[0] is Log
                    &&& ops[1] == OpView::Run(CommandView { program: "sh"@, args: seq![path] })
                },
                _ => ops.len() == 0,
            }
        }),
{
    let description = match phase {
        Phase::PreDevice => "pre-device commands"@,
        Phase::PreLvm => "pre-LVM commands"@,
        Phase::PostDevice => "post-device commands"@,
        Phase::PostResume => "post-resume commands"@,
        _ => "post-mount commands"@,
    };
    let steps = phase_work(phase, config, cmdline)->Script_0;
    assert(steps == hook_steps(hook_of(phase, config), description));
    match hook_of(phase, config) {
        Some(path) => {
            if holds(CheckView::HasContent(path)) {
                lemma_hook_is_run(path, description, holds, outcome);
            } else {
                lemma_empty_hook(path, description, holds, outcome);
            }
        },
        None => {},
    }
}

/// The configured modules are loaded, each of them and in their order, unless the
/// kernel command line says not to: then no program is run.
pub proof fn lemma_configured_modules(
    config: Stage1Config,
    cmdline: KernelCmdline,
    holds: spec_fn(CheckView) -> bool,
    outcome: spec_fn(OpView) -> Outcome,
)
    ensures
        ({
            let work = phase_work(Phase::Modules, config, cmdline);
            let modules = config.kernel_modules.deep_view();
            let ops = performed(work->Script_0, 0, holds, outcome);
            &&& work is Script
            &&& cmdline.no_modprobe ==> ops.len() == 1 && ops[0] is Log
            &&& !cmdline.no_modprobe ==> ops.len() == 2 * modules.len() && forall|i: int|
                0 <= i < modules.len() ==> loads(#[trigger] modules[i], ops[2 * i], ops[2 * i + 1])
        }),
{
    let steps = phase_work(Phase::Modules, config, cmdline)->Script_0;
    if cmdline.no_modprobe {
        assert(performed(steps, 1, holds, outcome) == Seq::<OpView>::empty());
        assert(performed(steps, 0, holds, outcome).len() == 1);
    } else {
        lemma_each_module_is_loaded(config.kernel_modules.deep_view(), holds, outcome);
    }
}

/// The configured units for network links are found at the configured place; where
/// none are configured nothing is done.
pub proof fn lemma_configured_link_units(
    config: Stage1Config,
    cmdline: KernelCmdline,
    holds: spec_fn(CheckView) -> bool,
    outcome: spec_fn(OpView) -> Outcome,
)
    requires
        parent(config.link_units_dest@) is Some,
        all_goes_well(outcome),
    ensures
        ({
            let work = phase_work(Phase::LinkUnits, config, cmdline);
            let ops = performed(work->Script_0, 0, holds, outcome);
            &&& work is Script
            &&& config.link_units is Some ==> ops.len() > 0 && ops.last() == (OpView::Symlink {
                target: config.link_units->0@,
                link: config.link_units_dest@,
            })
            &&& config.link_units is None ==> ops.len() == 0
        }),
{
    match config.link_units {
        Some(units) => {
            lemma_link_units_are_found(units@, config.link_units_dest@, holds, outcome);
        },
        None => {},
    }
}

/// The device manager that is started is the one that is triggered, waited for and
/// stopped: the configured one.
pub proof fn lemma_one_device_manager(config: Stage1Config, cmdline: KernelCmdline)
    ensures
        ({
            let manager = config.device_manager@;
            let work = |phase: Phase| phase_work(phase, config, cmdline);
            &&& work(Phase::StartManager) == WorkView::Script(manager.start_steps())
            &&& work(Phase::TriggerManager) == WorkView::Script(manager.trigger_steps())
            &&& work(Phase::SettleManager) == WorkView::Script(manager.settle_steps())
            &&& work(Phase::StopManager) == WorkView::Script(manager.stop_steps())
        }),
{
}

/// All that is mounted is mounted below one root, the configured one; filesystems
/// are checked by one rule; and what is read is what is configured.
pub proof fn lemma_one_root(config: Stage1Config, cmdline: KernelCmdline)
    ensures
        ({
            let work = |phase: Phase| phase_work(phase, config, cmdline);
            let root = work(Phase::Root);
            let checks = work(Phase::CheckFilesystems);
            let early = work(Phase::EarlyMounts);
            &&& root is Root && root->Root_target_root == config.target_root@
            &&& work(Phase::Lustrate) == WorkView::Lustrate { target_root: config.target_root@ }
            &&& work(Phase::MountFilesystems) == WorkView::MountFilesystems {
                target_root: config.target_root@,
            }
            &&& early is EarlyMounts && early->EarlyMounts_target_root == config.target_root@
            &&& early->script == config.early_mount_script.deep_view()
            &&& work(Phase::RootRule) == WorkView::RootRule { target_root: config.target_root@ }
            &&& checks is CheckFilesystems
            &&& root->Root_check_journaling == config.check_journaling_fs
            &&& checks->CheckFilesystems_check_journaling == config.check_journaling_fs
            &&& work(Phase::FsInfo) == WorkView::FsInfo(config.fs_info.deep_view())
        }),
{
}

/// The image of a live system is copied to memory exactly where the kernel command
/// line asks for it, from where that says.
pub proof fn lemma_image_is_copied_on_demand(
    config: Stage1Config,
    cmdline: KernelCmdline,
    holds: spec_fn(CheckView) -> bool,
    outcome: spec_fn(OpView) -> Outcome,
)
    requires
        config.target_root@.len() > 0 && config.target_root@.last() != '/',
        all_goes_well(outcome),
    ensures
        ({
            let work = phase_work(Phase::IsoToRam, config, cmdline);
            let ops = performed(work->Script_0, 0, holds, outcome);
            let source = cmdline.param("iso_source"@);
            &&& work is Script
            &&& cmdline.copy_to_ram ==> ops.len() > 0 && ops.last() == (OpView::CopyTree {
                from: if source is Some {
                    source->0
                } else {
                    "/run/iso"@
                },
                to: config.target_root@ + seq!['/', 'i', 's', 'o'],
            })
            &&& !cmdline.copy_to_ram ==> ops.len() == 0
        }),
{
    lemma_image_in_memory(cmdline.param("iso_source"@), config.target_root@, holds, outcome);
}

/// Persistent storage is what the kernel command line asks for: where the path is
/// there on the device, the last thing done binds exactly that to the root
/// filesystem.
pub proof fn lemma_persistent_storage_on_demand(
    config: Stage1Config,
    cmdline: KernelCmdline,
    device: Seq<char>,
    slash: bool,
    path: Seq<char>,
    holds: spec_fn(CheckView) -> bool,
    outcome: spec_fn(OpView) -> Outcome,
)
    requires
        cmdline.persistence.deep_view() == Some(persistence_option(device, slash, path)),
        !device.contains(':'),
        !is_absolute(path),
        holds(CheckView::Exists("/run/persistence"@ + seq!['/'] + path)),
        all_goes_well(outcome),
    ensures
        ({
            let work = phase_work(Phase::Persistence, config, cmdline);
            let ops = performed(work->Script_0, 0, holds, outcome);
            &&& work is Script
            &&& ops.len() == 6
            &&& ops[3] == OpView::Mount(
                MountCallView {
                    source: Some(device),
                    target: "/run/persistence"@,
                    fstype: Some("auto"@),
                    flags: 0,
                    data: None,
                },
            )
            &&& ops.last() == OpView::Mount(
                MountCallView {
                    source: Some("/run/persistence"@ + seq!['/'] + path),
                    target: config.target_root@,
                    fstype: None,
                    flags: MS_BIND,
                    data: None,
                },
            )
        }),
{
    lemma_persistence(device, slash, path, config.target_root@, holds, outcome);
}

/// The first phases do what is configured, and the same on every machine
/// otherwise.
pub proof fn lemma_first_phases(config: Stage1Config, cmdline: KernelCmdline)
    ensures
        ({
            let work = |phase: Phase| phase_work(phase, config, cmdline);
            &&& work(Phase::Environment) == WorkView::Script(
                environment_steps(config.extra_utils.deep_view()),
            )
            &&& work(Phase::LinkSecrets) == WorkView::Script(
                link_secrets_steps(config.extra_utils.deep_view()),
            )
            &&& work(Phase::HostId) == WorkView::Script(
                host_id_steps(config.set_host_id.deep_view()),
            )
            &&& work(Phase::Directories) == WorkView::Script(
                essential_directories().map_values(|dir: Seq<char>| directory_step(dir)),
            )
            &&& work(Phase::DeviceNodes) == WorkView::Script(device_steps())
            &&& work(Phase::EssentialMounts) == WorkView::Script(
                kernel_mount_steps() + helper_mount_steps(),
            )
            &&& work(Phase::CopySecrets) == WorkView::Script(copy_secrets_steps())
            &&& work(Phase::Files) == WorkView::Script(file_steps())
            &&& work(Phase::Lvm) == WorkView::Script(lvm_steps())
            &&& work(Phase::KillProcesses) == WorkView::Script(kill_steps())
        }),
{
}

/// Where the root filesystem cannot be mounted, the operator is told so together
/// with the error, and gets a shell only where one was asked for.
pub proof fn lemma_policy_for_the_root(
    error: Seq<char>,
    shell_on_fail: bool,
    debug1: bool,
    panic_on_fail: bool,
)
    ensures
        ({
            let beginning = phase_failure(Phase::Root)->Fail_0;
            let reason = reason_of_failure(beginning, error);
            let action = fail_action(reason.1, shell_on_fail, debug1, panic_on_fail);
            &&& reason.0 == "Failed to mount root filesystem: "@ + error
            &&& action == FailAction::Shell <==> shell_on_fail || debug1
            &&& action == FailAction::Panic <==> panic_on_fail && !shell_on_fail && !debug1
        }),
{
}

/// The error of a phase says which one it was.
pub proof fn lemma_errors_name_their_phase(config: Stage1Config, cmdline: KernelCmdline)
    ensures
        phase_failure(Phase::Environment) == PhaseFailureView::Error(
            "Failed to set up environment"@,
        ),
        phase_failure(Phase::LinkSecrets) == PhaseFailureView::Error(
            "Failed to link extraUtils secrets"@,
        ),
        phase_failure(Phase::Directories) == PhaseFailureView::Error(
            "Failed to create directories"@,
        ),
        phase_failure(Phase::DeviceNodes) == PhaseFailureView::Error(
            "Failed to create essential devices"@,
        ),
        phase_failure(Phase::EssentialMounts) == PhaseFailureView::Error(
            "Failed to mount essential filesystems"@,
        ),
        phase_failure(Phase::CopySecrets) == PhaseFailureView::Error(
            "Failed to copy initrd secrets"@,
        ),
        phase_failure(Phase::Files) == PhaseFailureView::Error("Failed to create essential files"@),
        phase_failure(Phase::HostId) == PhaseFailureView::Error("Failed to set host ID"@),
        phase_failure(Phase::PreDevice) == PhaseFailureView::Error("Pre-device commands failed"@),
        phase_failure(Phase::Modules) == PhaseFailureView::Error("Failed to load kernel modules"@),
        phase_failure(Phase::LinkUnits) == PhaseFailureView::Error(
            "Failed to set up systemd link units"@,
        ),
        phase_failure(Phase::StartManager) == PhaseFailureView::Error(
            "Failed to start device manager"@,
        ),
        phase_failure(Phase::TriggerManager) == PhaseFailureView::Error(
            "Failed to trigger device events"@,
        ),
        phase_failure(Phase::SettleManager) == PhaseFailureView::Error(
            "Failed to settle device manager"@,
        ),
        phase_failure(Phase::PreLvm) == PhaseFailureView::Error("Pre-LVM commands failed"@),
        phase_failure(Phase::Lvm) == PhaseFailureView::Error("Failed to activate LVM"@),
        phase_failure(Phase::PostDevice) == PhaseFailureView::Error("Post-device commands failed"@),
        phase_failure(Phase::Resume) == PhaseFailureView::Error("Failed to handle resume"@),
        phase_failure(Phase::PostResume) == PhaseFailureView::Error("Post-resume commands failed"@),
        phase_failure(Phase::FsInfo) == PhaseFailureView::Error("Failed to parse filesystem info"@),
        phase_failure(Phase::Lustrate) == PhaseFailureView::Error("Failed to handle lustrate"@),
        phase_failure(Phase::MountFilesystems) == PhaseFailureView::Error(
            "Failed to mount additional filesystems"@,
        ),
        phase_failure(Phase::PostMount) == PhaseFailureView::Error("Post-mount commands failed"@),
        phase_failure(Phase::RootRule) == PhaseFailureView::Error(
            "Failed to emit /dev/root udev rule"@,
        ),
        phase_failure(Phase::IsoToRam) == PhaseFailureView::Error("Failed to copy ISO to RAM"@),
        phase_failure(Phase::Persistence) == PhaseFailureView::Error(
            "Failed to handle persistence"@,
        ),
        phase_failure(Phase::KillProcesses) == PhaseFailureView::Error(
            "Failed to kill remaining processes"@,
        ),
        boot_request(
            BootView { at: phases().len() as int, failed: false },
            config,
            cmdline,
        ) == BootRequestView::Returned("switch_root returned unexpectedly"@),
{
}

} // verus!
