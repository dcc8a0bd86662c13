//! Scripts and the runner, and the fixed scripts walked in simulated systems.
use nix::mount::MsFlags;
use stage1::cmdline::KernelCmdline;
use stage1::device_manager::{
    dev_root_stat_target, install_mdev_conf, write_dev_root_udev_rule, DeviceManager, RootStat,
};
use stage1::live::{copy_iso_to_ram, handle_persistence};
use stage1::lustrate::{begin_lustrate, handle_lustrate, lustrate_request, move_path};
use stage1::modules::{load_kernel_modules, load_module};
use stage1::processes::{
    cmdline_path, is_storage_daemon, kill_candidate, kill_remaining_processes, signal_target,
};
use stage1::script::{
    attempt_step, halt_for_step, halt_step, if_fails_step, if_holds_step, log_step, must_step, run1,
    run2, should_step, Check, Command, MountCall, Op, Outcome, Reaction, Request, Response, Runner,
    Signal, Step,
};
use stage1::secrets::{copy_initrd_secrets, link_extra_utils_secrets, take_over_secrets};
use stage1::setup::{
    activate_lvm, create_directories, create_essential_devices, create_essential_files,
    mount_early_proc, mount_essential_filesystems, run_hook_script, set_host_id, setup_environment,
    setup_link_units,
};
use stage1::switch::{setup_console, switch_root};
use stage1::trees::{
    broken_off, copy_dir_recursive, copy_entries, counts_as_directory, symlink_dir_recurse,
    unreadable, Listing, Node, NodeKind, TreeWork,
};

/// What a script did in a simulated system: its operations and messages, and the
/// message that it failed with.
fn simulate(
    steps: Vec<Step>,
    holds: &dyn Fn(&Check) -> bool,
    outcome: &dyn Fn(&Op) -> Outcome,
) -> (Vec<Op>, Option<String>) {
    let mut runner = Runner::new(steps);
    let mut ops: Vec<Op> = Vec::new();
    loop {
        let came_to = match runner.request() {
            Request::Finished => return (ops, None),
            Request::Stop { message, cause } => {
                let below = cause.as_ref().map_or(String::new(), |cause| format!(": {cause}"));
                return (ops, Some(format!("{message}{below}")));
            },
            Request::Test(check) => Err(holds(check)),
            Request::Perform(op) => {
                let o = outcome(op);
                ops.push(op.clone());
                Ok(o)
            },
        };
        match came_to {
            Err(answer) => runner.answer(answer),
            Ok(o) => match runner.settle(o) {
                Reaction::Continue => {},
                Reaction::Finish => assert!(matches!(runner.request(), Request::Finished)),
                Reaction::Log(m) => ops.push(Op::Log(m)),
                Reaction::LogError(m) => ops.push(Op::Log(format!("{m}<error>"))),
                Reaction::LogCauses(m) => ops.push(Op::Log(format!("{m}<causes>"))),
                Reaction::Raise => {
                    assert!(matches!(runner.request(), Request::Finished));
                    return (ops, Some("<error>".to_string()));
                },
                Reaction::Bail(m) => return (ops, Some(m)),
                Reaction::FailBoot(m) => return (ops, Some(format!("{m}<error>"))),
                Reaction::Abort(m) => return (ops, Some(m)),
                Reaction::AbortStatus(m) => return (ops, Some(format!("{m}<status>"))),
            },
        }
    }
}

fn all_well(_: &Op) -> Outcome {
    Outcome::Done
}

fn nothing_there(_: &Check) -> bool {
    false
}

fn everything_there(_: &Check) -> bool {
    true
}

fn some(s: &str) -> Option<String> {
    Some(s.to_string())
}

fn texts(v: &[&str]) -> Vec<String> {
    v.iter().map(|s| s.to_string()).collect()
}

fn dir(p: &str) -> Op {
    Op::CreateDir(p.to_string())
}

fn said(m: &str) -> Op {
    Op::Log(m.to_string())
}

fn mount(source: &str, target: &str, fstype: &str, flags: MsFlags, data: Option<&str>) -> Op {
    Op::Mount(MountCall {
        source: some(source),
        target: target.to_string(),
        fstype: some(fstype),
        flags: flags.bits() as u64,
        data: data.map(String::from),
    })
}

#[test]
fn the_runner_takes_branches_and_skips() {
    let script = || {
        vec![
            if_holds_step(Check::Exists("/x".to_string()), 2),
            log_step("there"),
            Step::Skip { skip: 1 },
            log_step("missing"),
            log_step("end"),
        ]
    };
    let (ops, error) = simulate(script(), &everything_there, &all_well);
    assert_eq!((ops, error), (vec![said("there"), said("end")], None));
    let (ops, error) = simulate(script(), &nothing_there, &all_well);
    assert_eq!((ops, error), (vec![said("missing"), said("end")], None));
}

#[test]
fn skips_beyond_the_end_end_the_script() {
    let script = vec![Step::Skip { skip: usize::MAX }, log_step("never")];
    assert!(matches!(Runner::new(script).request(), Request::Finished));
    let script =
        vec![if_fails_step(Check::Mounted("/".to_string()), usize::MAX), log_step("never")];
    let (ops, error) = simulate(script, &everything_there, &all_well);
    assert_eq!((ops, error), (vec![], None));
    assert!(matches!(Runner::new(Vec::new()).request(), Request::Finished));
}

#[test]
fn each_answer_to_an_outcome() {
    let step = || Step::Do {
        op: run1("p", "a"),
        success: Response::Log("good".to_string()),
        exit: Response::LogCode("bad: ".to_string()),
        failure: Response::AbortStatus("not run: ".to_string()),
    };
    for (outcome, expected, error) in [
        (Outcome::Done, "good", None),
        (Outcome::Exited(Some(0)), "good", None),
        (Outcome::Exited(Some(3)), "bad: Some(3)", None),
        (Outcome::Exited(Some(-1)), "bad: Some(-1)", None),
        (Outcome::Exited(None), "bad: None", None),
        (Outcome::Failed, "", Some("not run: <status>".to_string())),
    ] {
        let (ops, stopped) = simulate(vec![step()], &nothing_there, &|_| outcome);
        assert_eq!(stopped, error);
        if expected.is_empty() {
            assert_eq!(ops.len(), 1);
        } else {
            assert_eq!(ops[1], said(expected));
        }
    }
}

#[test]
fn a_failure_stops_the_script() {
    for (step, error) in [
        (must_step(dir("/a"), "no /a"), "no /a"),
        (should_step(dir("/a")), "<error>"),
    ] {
        let (ops, stopped) =
            simulate(vec![step, log_step("never")], &nothing_there, &|_| Outcome::Failed);
        assert_eq!(ops, vec![dir("/a")]);
        assert_eq!(stopped, some(error));
    }
    let tried = vec![attempt_step(dir("/a")), log_step("after")];
    let (ops, stopped) = simulate(tried, &nothing_there, &|_| Outcome::Failed);
    assert_eq!((ops, stopped), (vec![dir("/a"), said("after")], None));
    let halted = vec![halt_step("stop"), log_step("never")];
    let (ops, stopped) = simulate(halted, &nothing_there, &all_well);
    assert_eq!((ops, stopped), (vec![], some("stop")));
    let halted = vec![halt_for_step("stop", "the reason")];
    let (_, stopped) = simulate(halted, &nothing_there, &all_well);
    assert_eq!(stopped, some("stop: the reason"));
}

#[test]
fn the_environment_with_and_without_utilities() {
    let steps = setup_environment(&None);
    assert_eq!(
        steps,
        vec![attempt_step(Op::SetVar {
            name: "PATH".to_string(),
            value: "/bin:/sbin:/usr/bin:/usr/sbin".to_string(),
        })]
    );
    let steps = setup_environment(&some("/u"));
    assert_eq!(
        steps[0],
        attempt_step(Op::SetVar {
            name: "PATH".to_string(),
            value: "/u/bin:/u/sbin".to_string(),
        })
    );
    assert_eq!(
        steps[1],
        attempt_step(Op::SetVar {
            name: "LD_LIBRARY_PATH".to_string(),
            value: "/u/lib".to_string(),
        })
    );
    let (ops, error) = simulate(setup_environment(&some("/u")), &nothing_there, &all_well);
    assert_eq!(error, None);
    assert_eq!(
        ops[2..],
        [
            Op::RemoveFile("/bin".to_string()),
            Op::Symlink { target: "/u/bin".to_string(), link: "/bin".to_string() },
            Op::RemoveFile("/sbin".to_string()),
            Op::Symlink { target: "/u/sbin".to_string(), link: "/sbin".to_string() },
        ]
    );
    let (ops, _) = simulate(setup_environment(&some("/u")), &everything_there, &all_well);
    assert_eq!(ops.len(), 2);
}

#[test]
fn directories_of_the_initrd() {
    let (ops, error) = simulate(create_directories(), &nothing_there, &all_well);
    assert_eq!(error, None);
    let expected: Vec<Op> = [
        "/etc", "/dev", "/proc", "/sys", "/run", "/tmp", "/mnt", "/mnt-root", "/var", "/var/log",
    ]
    .map(dir)
    .into_iter()
    .collect();
    assert_eq!(ops, expected);
    let (_, error) = simulate(create_directories(), &nothing_there, &|op| {
        if *op == dir("/mnt") { Outcome::Failed } else { Outcome::Done }
    });
    assert_eq!(error, some("Failed to create directory: /mnt"));
}

#[test]
fn device_nodes_carry_their_numbers() {
    let steps = create_essential_devices();
    let node = |path: &str, mode: u32, major: u64, minor: u64| Op::MakeNode {
        path: path.to_string(),
        mode,
        number: nix::sys::stat::makedev(major, minor),
    };
    assert_eq!(
        steps,
        vec![
            if_fails_step(Check::Exists("/dev/console".to_string()), 1),
            must_step(node("/dev/console", 0o600, 5, 1), "Failed to create /dev/console"),
            if_fails_step(Check::Exists("/dev/null".to_string()), 1),
            must_step(node("/dev/null", 0o666, 1, 3), "Failed to create /dev/null"),
            if_fails_step(Check::Exists("/dev/kmsg".to_string()), 1),
            attempt_step(node("/dev/kmsg", 0o600, 1, 11)),
        ]
    );
}

#[test]
fn files_are_created_where_they_are_missing() {
    let (ops, error) = simulate(create_essential_files(), &nothing_there, &all_well);
    assert_eq!(error, None);
    assert_eq!(
        ops,
        vec![
            Op::WriteFile {
                path: "/etc/fstab".to_string(),
                content: "# Initial fstab\n".to_string(),
            },
            Op::RemoveFile("/etc/mtab".to_string()),
            Op::Symlink { target: "/proc/mounts".to_string(), link: "/etc/mtab".to_string() },
            Op::WriteFile { path: "/var/log/messages".to_string(), content: "".to_string() },
        ]
    );
    let (ops, _) = simulate(create_essential_files(), &everything_there, &all_well);
    assert_eq!(ops, vec![]);
}

#[test]
fn pseudo_filesystems_and_their_flags() {
    let steps = mount_essential_filesystems();
    let strict = MsFlags::MS_NOSUID | MsFlags::MS_NOEXEC | MsFlags::MS_NODEV;
    let tmp = MsFlags::MS_NOSUID | MsFlags::MS_NODEV | MsFlags::MS_STRICTATIME;
    let mounted = |p: &str| Check::Mounted(p.to_string());
    assert_eq!(
        steps,
        vec![
            if_fails_step(mounted("/proc"), 2),
            should_step(dir("/proc")),
            must_step(mount("proc", "/proc", "proc", strict, None), "Failed to mount /proc"),
            if_fails_step(mounted("/sys"), 2),
            should_step(dir("/sys")),
            must_step(mount("sysfs", "/sys", "sysfs", strict, None), "Failed to mount /sys"),
            if_fails_step(mounted("/dev"), 1),
            must_step(
                mount(
                    "devtmpfs",
                    "/dev",
                    "devtmpfs",
                    MsFlags::MS_NOSUID | MsFlags::MS_STRICTATIME,
                    Some("mode=0755")
                ),
                "Failed to mount devtmpfs"
            ),
            if_fails_step(mounted("/dev/pts"), 2),
            should_step(dir("/dev/pts")),
            attempt_step(mount(
                "devpts",
                "/dev/pts",
                "devpts",
                MsFlags::MS_NOSUID | MsFlags::MS_NOEXEC,
                Some("mode=0620,gid=5")
            )),
            if_fails_step(mounted("/run"), 1),
            attempt_step(mount("tmpfs", "/run", "tmpfs", tmp, Some("mode=0755"))),
            if_fails_step(mounted("/tmp"), 1),
            attempt_step(mount("tmpfs", "/tmp", "tmpfs", tmp, Some("mode=1777"))),
        ]
    );
    let (ops, error) = simulate(steps, &everything_there, &all_well);
    assert_eq!((ops, error), (vec![], None));
    assert_eq!(
        mount_early_proc(),
        vec![
            attempt_step(dir("/proc")),
            if_fails_step(mounted("/proc"), 1),
            attempt_step(mount("proc", "/proc", "proc", strict, None)),
        ]
    );
}

#[test]
fn the_host_id_is_a_number_of_the_machine() {
    assert_eq!(set_host_id(&None), vec![]);
    assert_eq!(
        set_host_id(&some(" DEADbeef\n")),
        vec![
            log_step("Setting host ID: DEADbeef"),
            must_step(
                Op::WriteWord { path: "/etc/hostid".to_string(), word: 0xdead_beef },
                "Failed to write /etc/hostid"
            ),
        ]
    );
    assert_eq!(
        set_host_id(&some("+0000001"))[1],
        must_step(
            Op::WriteWord { path: "/etc/hostid".to_string(), word: 1 },
            "Failed to write /etc/hostid"
        )
    );
}

#[test]
fn bad_host_ids_are_refused() {
    for (given, message) in [
        ("ßßßß", "Invalid HOST_ID hex string: 'ßßßß'"),
        ("1234567g", "Invalid HOST_ID hex string: '1234567g'"),
        ("-1234567", "Invalid HOST_ID hex string: '-1234567'"),
    ] {
        let cause = u32::from_str_radix(given, 16).unwrap_err().to_string();
        assert_eq!(set_host_id(&some(given)), vec![halt_for_step(message, &cause)], "{given}");
    }
    for (given, message) in [
        ("", "HOST_ID must be an 8-character hex string, got: ''"),
        ("1234567", "HOST_ID must be an 8-character hex string, got: '1234567'"),
        ("123456789", "HOST_ID must be an 8-character hex string, got: '123456789'"),
        ("ßßßßßßßß", "HOST_ID must be an 8-character hex string, got: 'ßßßßßßßß'"),
    ] {
        assert_eq!(set_host_id(&some(given)), vec![halt_step(message)], "{given}");
    }
}

#[test]
fn hooks_run_by_the_shell_and_only_warn() {
    assert_eq!(run_hook_script(&None, "pre-device commands"), vec![]);
    let hook = || run_hook_script(&some("/h"), "pre-device commands");
    let (ops, error) = simulate(hook(), &nothing_there, &all_well);
    assert_eq!((ops, error), (vec![], None));
    let (ops, error) =
        simulate(hook(), &|c| *c == Check::HasContent("/h".to_string()), &|op| match op {
            Op::Run(_) => Outcome::Exited(Some(2)),
            _ => Outcome::Done,
        });
    assert_eq!(error, None);
    assert_eq!(
        ops,
        vec![
            said("Running pre-device commands: \"/h\""),
            run1("sh", "/h"),
            said("Warning: pre-device commands exited with status: Some(2)"),
        ]
    );
    let (_, error) = simulate(hook(), &everything_there, &|op| match op {
        Op::Run(_) => Outcome::Failed,
        _ => Outcome::Done,
    });
    assert_eq!(error, some("Failed to run pre-device commands"));
}

#[test]
fn link_units_replace_what_is_there() {
    let steps = || setup_link_units("/units", "/etc/systemd/network");
    let link =
        Op::Symlink { target: "/units".to_string(), link: "/etc/systemd/network".to_string() };
    let (ops, _) = simulate(steps(), &nothing_there, &all_well);
    assert_eq!(ops, vec![dir("/etc/systemd"), link.clone()]);
    let (ops, _) = simulate(steps(), &everything_there, &all_well);
    assert_eq!(
        ops,
        vec![dir("/etc/systemd"), Op::RemoveFile("/etc/systemd/network".to_string()), link]
    );
    let (ops, _) = simulate(setup_link_units("/units", "/"), &nothing_there, &all_well);
    assert_eq!(ops.len(), 1);
}

#[test]
fn lvm_is_optional() {
    for (outcome, message) in [
        (Outcome::Exited(Some(0)), "LVM volumes activated"),
        (Outcome::Exited(Some(5)), "No LVM volumes found or activation failed"),
        (Outcome::Exited(None), "No LVM volumes found or activation failed"),
        (Outcome::Failed, "lvm not available, skipping LVM activation"),
    ] {
        let (ops, error) = simulate(activate_lvm(), &nothing_there, &|op| match op {
            Op::Run(_) => outcome,
            _ => Outcome::Done,
        });
        assert_eq!(error, None);
        assert_eq!(
            ops,
            vec![said("Activating LVM volumes..."), run2("lvm", "vgchange", "-ay"), said(message)]
        );
    }
}

#[test]
fn modules_load_unless_switched_off() {
    assert_eq!(
        load_kernel_modules(&texts(&["a"]), true),
        vec![log_step("Skipping module loading (boot.no_modprobe)")]
    );
    let (ops, error) = simulate(
        load_kernel_modules(&texts(&["a", "b"]), false),
        &nothing_there,
        &|op| {
            if *op == run2("modprobe", "-q", "a") {
                Outcome::Failed
            } else if *op == run2("modprobe", "-q", "b") {
                Outcome::Exited(Some(1))
            } else {
                Outcome::Done
            }
        },
    );
    assert_eq!(error, None);
    assert_eq!(
        ops,
        vec![
            said("Loading module: a"),
            run2("modprobe", "-q", "a"),
            said("Loading module: b"),
            run2("modprobe", "-q", "b"),
            said("Warning: Failed to load module: b"),
        ]
    );
    let (_, error) = simulate(load_module("x"), &nothing_there, &|op| match op {
        Op::Run(_) => Outcome::Failed,
        _ => Outcome::Done,
    });
    assert_eq!(error, some("Failed to run modprobe"));
}

#[test]
fn the_console_is_the_first_one_without_its_mode() {
    let open = |path: &str| {
        vec![
            attempt_step(Op::CloseFiles { first: 0, last: 2 }),
            attempt_step(Op::OpenConsole(path.to_string())),
            if_fails_step(Check::IsOpen(0), 1),
            Step::Do {
                op: Op::OpenConsole("/dev/console".to_string()),
                success: Response::Continue,
                exit: Response::Continue,
                failure: Response::Bail("Failed to open console".to_string()),
            },
        ]
    };
    assert_eq!(setup_console(&texts(&[])), open("/dev/console"));
    assert_eq!(setup_console(&texts(&["ttyS0,115200n8", "tty1"])), open("/dev/ttyS0"));
    assert_eq!(setup_console(&texts(&["/dev/hvc0"])), open("/dev/hvc0"));
    assert_eq!(setup_console(&texts(&[""])), open("/dev/"));
    assert_eq!(
        setup_console(&texts(&["tty\0"]))[1],
        halt_for_step(
            "console path contains a null byte",
            "nul byte found in provided data at position: 8"
        )
    );
    let close = Op::CloseFiles { first: 0, last: 2 };
    let tty = Op::OpenConsole("/dev/tty0".to_string());
    let console = Op::OpenConsole("/dev/console".to_string());
    let steps = || setup_console(&texts(&["tty0"]));
    let (ops, error) = simulate(steps(), &everything_there, &all_well);
    assert_eq!((ops, error), (vec![close.clone(), tty.clone()], None));
    let failing = |_: &Op| Outcome::Failed;
    let (ops, error) = simulate(steps(), &nothing_there, &failing);
    assert_eq!((ops, error), (vec![close, tty, console], some("Failed to open console")));
}

#[test]
fn a_missing_init_program_changes_nothing() {
    let (ops, error) =
        simulate(switch_root("/mnt-root", "/sbin/init", &texts(&[])), &nothing_there, &all_well);
    assert_eq!(ops, vec![said("Switching root to \"/mnt-root\"")]);
    assert_eq!(error, some("Init program not found: /sbin/init"));
}

#[test]
fn the_switch_in_order() {
    let steps = switch_root("/mnt-root", "//sbin/init", &texts(&["tty0"]));
    let moved = |from: &str, to: &str| {
        Op::Mount(MountCall {
            source: some(from),
            target: to.to_string(),
            fstype: None,
            flags: MsFlags::MS_MOVE.bits() as u64,
            data: None,
        })
    };
    let mut expected = vec![
        log_step("Switching root to \"/mnt-root\""),
        if_fails_step(Check::Exists("/mnt-root/sbin/init".to_string()), 1),
        halt_step("Init program not found: //sbin/init"),
    ];
    for tree in ["dev", "proc", "sys", "run"] {
        expected.push(attempt_step(dir(&format!("/mnt-root/{tree}"))));
        expected.push(attempt_step(moved(&format!("/{tree}"), &format!("/mnt-root/{tree}"))));
    }
    expected.push(must_step(
        Op::ChangeDir("/mnt-root".to_string()),
        "Failed to chdir to \"/mnt-root\"",
    ));
    expected.push(must_step(moved(".", "/"), "Failed to move new root to /"));
    expected.push(must_step(Op::ChangeRoot(".".to_string()), "Failed to chroot into new root"));
    expected.push(must_step(Op::ChangeDir("/".to_string()), "Failed to chdir to new /"));
    expected.extend(setup_console(&texts(&["tty0"])));
    expected.push(attempt_step(Op::CloseFiles { first: 3, last: 1023 }));
    expected.push(log_step("Executing init: //sbin/init"));
    expected.push(attempt_step(Op::ClearEnvironment));
    expected.push(must_step(
        Op::Execute("//sbin/init".to_string()),
        "Failed to exec init: //sbin/init",
    ));
    expected.push(halt_step("execv returned unexpectedly"));
    assert_eq!(steps, expected);
    let (_, error) =
        simulate(switch_root("/r", "/init", &texts(&[])), &everything_there, &all_well);
    assert_eq!(error, some("execv returned unexpectedly"));
    let (_, error) =
        simulate(switch_root("/r", "/in\0it", &texts(&[])), &everything_there, &all_well);
    assert_eq!(error, some("Invalid init path: nul byte found in provided data at position: 3"));
}

#[test]
fn an_image_is_copied_to_memory_where_asked_for() {
    assert_eq!(copy_iso_to_ram(&KernelCmdline::parse(""), "/r"), vec![]);
    let copied = |from: &str| Op::CopyTree { from: from.to_string(), to: "/r/iso".to_string() };
    let steps = copy_iso_to_ram(&KernelCmdline::parse("boot.copytoram"), "/r");
    let (ops, error) = simulate(steps, &nothing_there, &all_well);
    assert_eq!(error, None);
    assert_eq!(
        ops,
        vec![
            said("Copying ISO to RAM..."),
            dir("/r/iso"),
            copied("/run/iso"),
            said("ISO copied to RAM"),
        ]
    );
    let steps = copy_iso_to_ram(&KernelCmdline::parse("boot.copytoram iso_source=/cd"), "/r");
    let (ops, error) = simulate(steps, &nothing_there, &|op| match op {
        Op::CopyTree { .. } => Outcome::Failed,
        _ => Outcome::Done,
    });
    assert_eq!(error, None);
    assert_eq!(ops[2..], [copied("/cd"), said("Warning: Failed to copy ISO to RAM: <error>")]);
}

#[test]
fn persistence_binds_or_warns() {
    let steps = |c: &str| handle_persistence(&KernelCmdline::parse(c), "/r");
    assert_eq!(steps(""), vec![]);
    assert_eq!(steps("boot.persistence"), vec![]);
    assert_eq!(
        steps("boot.persistence=/data"),
        vec![log_step("Setting up persistence: /data")]
    );
    let all = steps("boot.persistence=/dev/sdb:/home:x");
    assert_eq!(
        all[1],
        attempt_step(Op::WaitForDevice { device: "/dev/sdb".to_string(), seconds: 10 })
    );
    assert_eq!(
        all[3],
        must_step(
            Op::Mount(MountCall {
                source: some("/dev/sdb"),
                target: "/run/persistence".to_string(),
                fstype: some("auto"),
                flags: 0,
                data: None,
            }),
            "Failed to mount persistence device"
        )
    );
    let (ops, _) = simulate(all, &nothing_there, &all_well);
    assert_eq!(
        ops.last(),
        Some(&said("Warning: persistence path \"/run/persistence/home:x\" not found"))
    );
    assert_eq!(ops.len(), 5);
    let (ops, _) =
        simulate(steps("boot.persistence=/dev/sdb:/home"), &everything_there, &all_well);
    assert_eq!(ops.len(), 6);
    assert_eq!(ops[4], said("Bind-mounting persistence from \"/run/persistence/home\""));
}

#[test]
fn udev_starts_with_its_rules() {
    let manager = DeviceManager::Udev {
        udevd: "/u".to_string(),
        udevadm: "/a".to_string(),
        rules: some("/rules"),
    };
    let (ops, error) = simulate(manager.start(), &nothing_there, &all_well);
    assert_eq!(error, None);
    assert_eq!(
        ops,
        vec![
            said("Starting device manager..."),
            dir("/etc/udev/rules.d"),
            dir("/etc/udev"),
            Op::WriteFile {
                path: "/etc/udev/udev.conf".to_string(),
                content: "udev_log=err\n".to_string(),
            },
            run1("/u", "--daemon"),
            said("Device manager started"),
        ]
    );
    let (_, error) = simulate(manager.start(), &everything_there, &|op| match op {
        Op::Run(_) => Outcome::Failed,
        _ => Outcome::Done,
    });
    assert_eq!(error, some("Failed to start udevd: /u"));
    assert_eq!(
        manager.trigger(),
        vec![
            log_step("Triggering device events..."),
            must_step(run2("/a", "trigger", "--action=add"), "Failed to trigger udev events"),
        ]
    );
    let (ops, error) = simulate(manager.settle(), &nothing_there, &|op| match op {
        Op::Run(_) => Outcome::Exited(Some(1)),
        _ => Outcome::Done,
    });
    assert_eq!(error, None);
    assert_eq!(ops.last(), Some(&said("Warning: udev settle timed out")));
    assert_eq!(
        manager.stop(),
        vec![
            log_step("Stopping device manager..."),
            attempt_step(run2("/a", "control", "--exit")),
        ]
    );
    assert_eq!(manager.retrigger_block().len(), 2);
}

#[test]
fn mdev_listens_before_it_scans() {
    let manager = DeviceManager::Mdev { mdev: "/bin/mdev".to_string(), conf: None };
    let (ops, error) = simulate(manager.start(), &nothing_there, &all_well);
    assert_eq!(error, None);
    assert_eq!(
        ops,
        vec![
            said("Starting device manager..."),
            dir("/etc"),
            Op::WriteFile { path: "/etc/mdev.conf".to_string(), content: "".to_string() },
            run1("/bin/mdev", "-d"),
            run1("/bin/mdev", "-s"),
            said("Device manager started"),
        ]
    );
    assert_eq!(manager.trigger(), vec![log_step("Triggering device events...")]);
    assert_eq!(manager.settle().len(), 1);
    assert_eq!(manager.retrigger_block(), vec![attempt_step(run1("/bin/mdev", "-s"))]);
    assert_eq!(manager.stop()[1], attempt_step(run1("pkill", "mdev")));
    let (ops, _) = simulate(install_mdev_conf(&some("/c")), &everything_there, &all_well);
    assert_eq!(
        ops,
        vec![
            dir("/etc"),
            Op::CopyFile { from: "/c".to_string(), to: "/etc/mdev.conf".to_string() },
        ]
    );
}

#[test]
fn mdevd_is_ready_before_devices_are_announced() {
    let manager = DeviceManager::Mdevd {
        mdevd: "/bin/mdevd".to_string(),
        coldplug: "/cold".to_string(),
        conf: some("/c"),
    };
    let steps = manager.start();
    let daemon =
        Command { program: "/bin/mdevd".to_string(), args: texts(&["-D", "3", "-O", "4"]) };
    assert_eq!(
        steps[3..6],
        [
            Step::Do {
                op: Op::MakeReadyPipe,
                success: Response::Continue,
                exit: Response::Continue,
                failure: Response::Bail("Failed to create mdevd readiness pipe".to_string()),
            },
            must_step(Op::SpawnReady(daemon), "Failed to start mdevd: /bin/mdevd"),
            must_step(Op::AwaitReady, "mdevd did not become ready: /bin/mdevd"),
        ]
    );
    for (outcome, expected) in [
        (Outcome::Exited(Some(0)), None),
        (Outcome::Exited(Some(1)), some("mdevd coldplug exited with status: <status>")),
        (Outcome::Failed, some("mdevd coldplug failed: /cold")),
    ] {
        let (_, error) = simulate(manager.start(), &nothing_there, &|op| match op {
            Op::Run(_) => outcome,
            _ => Outcome::Done,
        });
        assert_eq!(error, expected);
    }
    assert_eq!(manager.stop()[1], attempt_step(run2("pkill", "-TERM", "mdevd")));
    assert_eq!(manager.retrigger_block(), vec![attempt_step(run2("/cold", "-O", "4"))]);
}

#[test]
fn the_root_rule_is_for_udev_and_block_devices() {
    let udev = DeviceManager::default();
    let mdev = DeviceManager::Mdev { mdev: "m".to_string(), conf: None };
    let device = RootStat::Device(nix::sys::stat::makedev(8, 17));
    assert_eq!(mdev.write_dev_root_rule("/r", &device), vec![]);
    let (ops, _) = simulate(udev.write_dev_root_rule("/r", &device), &nothing_there, &all_well);
    assert_eq!(
        ops,
        vec![
            dir("/run/udev/rules.d"),
            Op::WriteFile {
                path: "/run/udev/rules.d/61-dev-root-link.rules".to_string(),
                content: "ACTION==\"add|change\", SUBSYSTEM==\"block\", ENV{MAJOR}==\"8\", \
                          ENV{MINOR}==\"17\", SYMLINK+=\"root\"\n"
                    .to_string(),
            },
            said(
                "Wrote /dev/root udev rule (8:17) to /run/udev/rules.d/61-dev-root-link.rules"
            ),
        ]
    );
    assert_eq!(
        write_dev_root_udev_rule("/r", &RootStat::Device(nix::sys::stat::makedev(0, 5))),
        vec![log_step(
            "Skipping /dev/root udev rule; root is not on a block device (pseudo fs?)"
        )]
    );
    assert_eq!(
        write_dev_root_udev_rule("/r", &RootStat::Failed("gone".to_string())),
        vec![log_step("Skipping /dev/root udev rule; stat(/r) failed: gone")]
    );
    assert_eq!(dev_root_stat_target("/r", true), "/r/iso");
    assert_eq!(dev_root_stat_target("/r", false), "/r");
}

#[test]
fn secrets_of_the_utilities_are_linked() {
    assert_eq!(link_extra_utils_secrets(&None), vec![]);
    let steps = link_extra_utils_secrets(&some("/u"));
    let (ops, _) = simulate(steps, &nothing_there, &all_well);
    assert_eq!(ops, vec![]);
    assert_eq!(
        link_extra_utils_secrets(&some("/u")),
        vec![
            if_holds_step(Check::IsDirectory("/u/secrets".to_string()), 2),
            log_step("Linking extraUtils secrets..."),
            should_step(Op::LinkSecrets { from: "/u/secrets".to_string() }),
        ]
    );
    let found = listing(vec![file("key"), directory("etc", listing(vec![file("pw")]))]);
    let steps = take_over_secrets(TreeWork::Link, "/u/secrets", &found);
    let (ops, _) = simulate(steps, &nothing_there, &all_well);
    assert_eq!(
        ops,
        vec![
            dir("/"),
            Op::Symlink { target: "/u/secrets/key".to_string(), link: "/key".to_string() },
            dir("/"),
            dir("/etc"),
            Op::Symlink { target: "/u/secrets/etc/pw".to_string(), link: "/etc/pw".to_string() },
        ]
    );
}

#[test]
fn secrets_of_the_initrd_are_copied_for_no_one_else() {
    assert_eq!(
        copy_initrd_secrets()[2],
        should_step(Op::CopySecrets { from: "/.initrd-secrets".to_string() })
    );
    let found = listing(vec![file("key"), directory("run", listing(vec![]))]);
    assert_eq!(
        take_over_secrets(TreeWork::Copy, "/.initrd-secrets", &found),
        vec![
            should_step(dir("/")),
            must_step(
                Op::CopyFile {
                    from: "/.initrd-secrets/key".to_string(),
                    to: "/key".to_string(),
                },
                "Failed to copy \"/.initrd-secrets/key\" to \"/key\""
            ),
            should_step(Op::SetMode { path: "/key".to_string(), mode: 0o600 }),
            should_step(dir("/")),
            must_step(dir("/run"), "Failed to create directory \"/run\""),
            must_step(
                Op::SetMode { path: "/run".to_string(), mode: 0o700 },
                "Failed to set permissions on \"/run\""
            ),
        ]
    );
    let broken = Listing { nodes: vec![], failure: Some(broken_off("no access")) };
    assert_eq!(
        take_over_secrets(TreeWork::Link, "/.initrd-secrets", &broken),
        vec![halt_step("no access")]
    );
}

fn listing(nodes: Vec<Node>) -> Listing {
    Listing { nodes, failure: None }
}

fn file(name: &str) -> Node {
    Node { name: name.to_string(), kind: NodeKind::File }
}

fn directory(name: &str, below: Listing) -> Node {
    Node { name: name.to_string(), kind: NodeKind::Directory(below) }
}

#[test]
fn trees_are_copied() {
    let inner = listing(vec![file("b"), directory("e", listing(vec![]))]);
    let found = listing(vec![file("a"), directory("d", inner), file("c")]);
    let steps = copy_dir_recursive("/s", "/t", &found);
    let mode = |path: &str| Op::SetMode { path: path.to_string(), mode: 0o700 };
    let copied = |name: &str| Op::CopyFile { from: format!("/s{name}"), to: format!("/t{name}") };
    let (ops, error) = simulate(steps, &nothing_there, &all_well);
    assert_eq!(
        ops,
        vec![
            dir("/t"),
            mode("/t"),
            copied("/a"),
            dir("/t/d"),
            mode("/t/d"),
            copied("/d/b"),
            dir("/t/d/e"),
            mode("/t/d/e"),
            copied("/c"),
        ]
    );
    assert_eq!(error, None);
}

#[test]
fn a_copy_ends_where_its_listing_breaks_off() {
    let inner = Listing {
        nodes: vec![],
        failure: Some(unreadable(TreeWork::Copy, "/s/d", "no access")),
    };
    let found = listing(vec![file("a"), directory("d", inner), file("c")]);
    let steps = copy_dir_recursive("/s", "/t", &found);
    assert_eq!(
        steps[2],
        must_step(
            Op::CopyFile { from: "/s/a".to_string(), to: "/t/a".to_string() },
            "Failed to copy \"/s/a\" to \"/t/a\""
        )
    );
    let (ops, error) = simulate(steps, &nothing_there, &all_well);
    assert_eq!(ops.len(), 5);
    assert_eq!(error, some("Failed to read directory \"/s/d\": no access"));
    assert_eq!(unreadable(TreeWork::Link, "/s/d", "no access"), broken_off("no access"));
}

#[test]
fn what_counts_as_a_directory() {
    assert_eq!(counts_as_directory(TreeWork::Copy, Some(false), true), Some(false));
    assert_eq!(counts_as_directory(TreeWork::Copy, Some(true), true), Some(true));
    assert_eq!(counts_as_directory(TreeWork::Copy, None, true), None);
    assert_eq!(counts_as_directory(TreeWork::Link, Some(false), true), Some(true));
    assert_eq!(counts_as_directory(TreeWork::Link, None, false), Some(false));
}

#[test]
fn entries_are_copied_one_by_one() {
    let copied = |name: &str| {
        should_step(Op::CopyFile { from: format!("/rules/{name}"), to: format!("/etc/r/{name}") })
    };
    let names = texts(&["a.rules", "b.rules"]);
    assert_eq!(
        copy_entries("/rules", "/etc/r", &names, &None),
        vec![copied("a.rules"), copied("b.rules")]
    );
    assert_eq!(
        copy_entries("/rules", "/etc/r", &names, &Some(broken_off("no access"))),
        vec![copied("a.rules"), copied("b.rules"), halt_step("no access")]
    );
}

#[test]
fn trees_are_mirrored() {
    let found = listing(vec![directory("d", listing(vec![file("n")])), file("m")]);
    let link = |name: &str| {
        must_step(
            Op::Symlink { target: format!("/s{name}"), link: format!("/t{name}") },
            &format!("Failed to symlink \"/s{name}\" to \"/t{name}\""),
        )
    };
    assert_eq!(
        symlink_dir_recurse("/s", "/t", &found),
        vec![should_step(dir("/t")), should_step(dir("/t/d")), link("/d/n"), link("/m")]
    );
}

#[test]
fn moving_falls_back_to_a_copy() {
    let rename = Op::Rename { from: "/a".to_string(), to: "/b".to_string() };
    let (ops, error) = simulate(move_path("/a", "/b"), &nothing_there, &all_well);
    assert_eq!((ops, error), (vec![rename.clone()], None));
    let no_rename = |op: &Op| match op {
        Op::Rename { .. } => Outcome::Failed,
        _ => Outcome::Done,
    };
    let (ops, _) = simulate(move_path("/a", "/b"), &everything_there, &no_rename);
    assert_eq!(
        ops,
        vec![
            rename.clone(),
            Op::CopyTree { from: "/a".to_string(), to: "/b".to_string() },
            Op::RemoveTree("/a".to_string()),
        ]
    );
    let (ops, _) = simulate(move_path("/a", "/b"), &nothing_there, &no_rename);
    assert_eq!(
        ops,
        vec![
            rename.clone(),
            Op::CopyFile { from: "/a".to_string(), to: "/b".to_string() },
            Op::RemoveFile("/a".to_string()),
        ]
    );
    let (ops, error) =
        simulate(move_path("/a", "/b"), &nothing_there, &|_| Outcome::Failed);
    assert_eq!(ops.len(), 2);
    assert_eq!(error, some("Failed to copy \"/a\" to \"/b\""));
}

#[test]
fn lustration_keeps_what_it_must() {
    assert_eq!(lustrate_request("/r"), "/r/nixos-lustrate");
    assert_eq!(begin_lustrate("/r", false), None);
    let (announce, prepare) = begin_lustrate("/r", true).unwrap();
    assert_eq!(announce, vec![log_step("Handling NIXOS_LUSTRATE...")]);
    assert_eq!(prepare, vec![should_step(dir("/r/old-root.tmp"))]);
    let names = texts(&[
        "etc", "nix", "nixos-lustrate", "boot", "bootloader", "old-root", "old-root.tmp", "home",
        "old-root2",
    ]);
    let content = "# keep\n/etc/passwd\n\n  var/lib  \n";
    let found = |check: &Check| match check {
        Check::IsDirectory(path) => path != "/r/old-root/etc/passwd",
        _ => true,
    };
    let (ops, error) = simulate(handle_lustrate("/r", content, &names, &None), &found, &|op| {
        match op {
            Op::MovePath { from, .. } if from == "/r/home" => Outcome::Failed,
            Op::CopyTree { from, .. } if from == "/r/old-root/var/lib" => Outcome::Failed,
            _ => Outcome::Done,
        }
    });
    assert_eq!(error, None);
    let moved = |name: &str| Op::MovePath {
        from: format!("/r/{name}"),
        to: format!("/r/old-root.tmp/{name}"),
    };
    let restored = |name: &str| Op::CopyTree {
        from: format!("/r/old-root/{name}"),
        to: format!("/r/{name}"),
    };
    assert_eq!(
        ops,
        vec![
            moved("etc"),
            moved("home"),
            said("Warning: move failed for \"/r/home\": <error>"),
            moved("old-root2"),
            Op::Rename { from: "/r/old-root.tmp".to_string(), to: "/r/old-root".to_string() },
            dir("/r/etc"),
            Op::CopyFile {
                from: "/r/old-root/etc/passwd".to_string(),
                to: "/r/etc/passwd".to_string(),
            },
            dir("/r/var"),
            restored("var/lib"),
            said("Warning: failed to restore \"/r/old-root/var/lib\": <error>"),
            Op::RemoveFile("/r/nixos-lustrate".to_string()),
            said("Lustrate complete"),
        ]
    );
    let steps = handle_lustrate("/r", content, &Vec::new(), &None);
    let (ops, _) = simulate(steps, &nothing_there, &all_well);
    assert_eq!(ops.len(), 3);
}

#[test]
fn a_broken_listing_ends_a_lustration() {
    let why = Some(broken_off("input/output error"));
    let steps = handle_lustrate("/r", "/etc", &texts(&["etc", "nix"]), &why);
    let (ops, error) = simulate(steps, &everything_there, &all_well);
    assert_eq!(
        ops,
        vec![Op::MovePath { from: "/r/etc".to_string(), to: "/r/old-root.tmp/etc".to_string() }]
    );
    assert_eq!(error, some("input/output error"));
}

#[test]
fn a_listed_file_comes_back_as_a_file() {
    let there = |check: &Check| match check {
        Check::Exists(path) => path == "/r/old-root/etc/machine-id",
        _ => false,
    };
    let run = |outcome: &dyn Fn(&Op) -> Outcome| {
        let steps = handle_lustrate("/r", "/etc/machine-id\n/gone\n", &texts(&["etc"]), &None);
        simulate(steps, &there, outcome)
    };
    let copied = Op::CopyFile {
        from: "/r/old-root/etc/machine-id".to_string(),
        to: "/r/etc/machine-id".to_string(),
    };
    let (ops, error) = run(&all_well);
    assert_eq!(error, None);
    assert_eq!(
        ops,
        vec![
            Op::MovePath { from: "/r/etc".to_string(), to: "/r/old-root.tmp/etc".to_string() },
            Op::Rename { from: "/r/old-root.tmp".to_string(), to: "/r/old-root".to_string() },
            dir("/r/etc"),
            copied.clone(),
            Op::RemoveFile("/r/nixos-lustrate".to_string()),
            said("Lustrate complete"),
        ]
    );
    let (ops, error) = run(&|op| match op {
        Op::CopyFile { .. } => Outcome::Failed,
        _ => Outcome::Done,
    });
    assert_eq!(error, None);
    assert_eq!(ops[3], copied);
    let warning = "Warning: failed to restore \"/r/old-root/etc/machine-id\": <error>";
    assert_eq!(ops[4], said(warning));
    assert_eq!(ops[6], said("Lustrate complete"));
}

#[test]
fn processes_that_are_ended_and_spared() {
    assert_eq!(
        kill_remaining_processes(),
        vec![
            log_step("Killing remaining processes..."),
            should_step(Op::SignalProcesses(Signal::Terminate)),
            attempt_step(Op::Sleep { millis: 500 }),
            should_step(Op::SignalProcesses(Signal::Kill)),
        ]
    );
    assert_eq!(kill_candidate("42", 7), Some(42));
    for name in ["1", "0", "-1", "7", "self", "", "99999999999"] {
        assert_eq!(kill_candidate(name, 7), None, "{name}");
    }
    assert_eq!(cmdline_path(42), "/proc/42/cmdline");
    assert!(is_storage_daemon(Some("@mdmon\0--all\0")));
    assert!(!is_storage_daemon(Some("mdmon\0@x\0")));
    assert!(!is_storage_daemon(Some("")));
    assert!(!is_storage_daemon(None));
    assert_eq!(signal_target("42", 7, Some("sh\0")), Some(42));
    assert_eq!(signal_target("42", 7, None), Some(42));
    assert_eq!(signal_target("42", 7, Some("@ntfs-3g\0")), None);
    assert_eq!(signal_target("7", 7, Some("sh\0")), None);
}
