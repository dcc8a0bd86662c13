//! The step-by-step procedures: checks, waits, loop devices, the root filesystem
//! and the walk through the phases.
use stage1::bcachefs::{mount_bcachefs, Attempt, Verdict};
use stage1::boot::{failure_reason, run, Boot, BootEvent, BootRequest, PhaseFailure, Work};
use stage1::cmdline::KernelCmdline;
use stage1::config::Stage1Config;
use stage1::device_manager::DeviceManager;
use stage1::env::EnvVar;
use stage1::failure::{
    fail, greeting, log_message, panic_kernel, start_recovery_shell, FailAction, StopReason,
};
use stage1::fsck::{fsck_verdict, run_fsck, FsckEvent, FsckRequest, FsckState};
use stage1::fsinfo::FsInfo;
use stage1::loop_device::{loop_info, LoopAttach, LoopEvent, LoopRequest};
use stage1::mount::{FileKind, Mount};
use stage1::options::MountOptions;
use stage1::poll::{end_of_wait, wait_for_device, Poll, PollEvent, PollState};
use stage1::resume::{announce_resume, handle_resume, ResumeSearch, ResumeStat, SearchRequest};
use stage1::root::{mount_root, root_mount_options, RootEvent, RootMount, RootRequest, RootState};
use stage1::script::{
    attempt_step, if_holds_step, log_step, must_step, run2, should_step, Check, Command, MountCall,
    Op, Response, Step,
};

fn texts(v: &[&str]) -> Vec<String> {
    v.iter().map(|s| s.to_string()).collect()
}

fn some(s: &str) -> Option<String> {
    Some(s.to_string())
}

// ---------------------------------------------------------------------------
// Checks
// ---------------------------------------------------------------------------
#[test]
fn exit_codes_of_the_checker() {
    assert_eq!(fsck_verdict(None), FsckState::Killed);
    assert_eq!(fsck_verdict(Some(0)), FsckState::Passed);
    assert_eq!(fsck_verdict(Some(1)), FsckState::Passed);
    for code in [2, 3, 6, 7, 10, 130] {
        assert_eq!(fsck_verdict(Some(code)), FsckState::Reboot, "{code}");
    }
    for code in [4, 5, 12, 132] {
        assert_eq!(fsck_verdict(Some(code)), FsckState::Unrepaired(code), "{code}");
    }
    for code in [8, 9, 16, 32, 128] {
        assert_eq!(fsck_verdict(Some(code)), FsckState::ToolFailed(code), "{code}");
    }
}

#[test]
fn a_check_from_beginning_to_end() {
    let mut check = run_fsck("/dev/sda", "ext4");
    assert_eq!(check.request(), FsckRequest::IsMounted);
    assert_eq!(
        check.step(FsckEvent::Mounted(false)),
        vec![log_step("Checking ext4 filesystem on /dev/sda")]
    );
    assert_eq!(check.request(), FsckRequest::Kind);
    assert_eq!(check.step(FsckEvent::Kind(Some(FileKind::BlockDevice))), vec![]);
    assert_eq!(
        check.request(),
        FsckRequest::Run(Command {
            program: "fsck".to_string(),
            args: texts(&["-a", "-t", "ext4", "-T", "/dev/sda", "-C0"]),
        })
    );
    assert_eq!(
        check.step(FsckEvent::Exited(Some(1))),
        vec![log_step("fsck corrected errors on /dev/sda")]
    );
    assert_eq!(check.request(), FsckRequest::Passed);
    assert_eq!(check.step(FsckEvent::Exited(Some(4))), vec![]);
    assert_eq!(check.request(), FsckRequest::Passed);
}

#[test]
fn a_check_that_is_left_out() {
    let mut check = run_fsck("/dev/sda", "vfat");
    assert_eq!(
        check.step(FsckEvent::Mounted(true)),
        vec![log_step("skip checking already mounted /dev/sda")]
    );
    assert_eq!(check.request(), FsckRequest::Passed);
    for kind in [None, Some(FileKind::Regular), Some(FileKind::Directory), Some(FileKind::Other)] {
        let mut check = run_fsck("none", "vfat");
        check.step(FsckEvent::Mounted(false));
        check.step(FsckEvent::Kind(kind));
        assert_eq!(check.request(), FsckRequest::Passed);
    }
}

#[test]
fn a_check_that_fails() {
    let at_check = || {
        let mut check = run_fsck("/dev/sda", "xfs");
        check.step(FsckEvent::Mounted(false));
        check.step(FsckEvent::Kind(Some(FileKind::BlockDevice)));
        check
    };
    assert_eq!(
        at_check().request(),
        FsckRequest::Run(Command {
            program: "fsck".to_string(),
            args: texts(&["-a", "-t", "xfs", "-T", "/dev/sda"]),
        })
    );
    for (event, request) in [
        (
            FsckEvent::Exited(Some(4)),
            FsckRequest::Fail(
                "/dev/sda has unrepaired errors (fsck exit code 4); fix manually".to_string(),
            ),
        ),
        (
            FsckEvent::Exited(Some(8)),
            FsckRequest::Fail("fsck on /dev/sda failed with exit code 8".to_string()),
        ),
        (
            FsckEvent::Exited(None),
            FsckRequest::FailStatus("fsck was terminated by a signal: ".to_string()),
        ),
        (FsckEvent::NotRun, FsckRequest::Fail("Failed to run fsck".to_string())),
    ] {
        let mut check = at_check();
        assert_eq!(check.step(event), vec![]);
        assert_eq!(check.request(), request);
    }
    let mut check = at_check();
    assert_eq!(
        check.step(FsckEvent::Exited(Some(3))),
        vec![log_step("fsck finished on /dev/sda, rebooting...")]
    );
    assert_eq!(
        check.request(),
        FsckRequest::Reboot {
            pause_seconds: 3,
            command: Command { program: "reboot".to_string(), args: texts(&["-f"]) },
            message: "fsck requested reboot but `reboot -f` did not halt the system".to_string(),
        }
    );
}

// ---------------------------------------------------------------------------
// Waits
// ---------------------------------------------------------------------------
#[test]
fn a_wait_looks_until_its_limit() {
    let (steps, mut poll) = wait_for_device("/dev/sda", 30);
    assert_eq!(steps, vec![log_step("Waiting for device: /dev/sda")]);
    assert_eq!((poll.limit, poll.interval), (30_000, 5000));
    poll.step(PollEvent::Time(0));
    assert_eq!(poll.state, PollState::Probing);
    poll.step(PollEvent::Found(false));
    poll.step(PollEvent::Time(4999));
    assert_eq!(poll.state, PollState::Pausing);
    poll.step(PollEvent::Done);
    poll.step(PollEvent::Time(29_999));
    assert_eq!(poll.state, PollState::Probing);
    poll.step(PollEvent::Found(false));
    poll.step(PollEvent::Time(5000));
    assert_eq!(poll.state, PollState::Retriggering);
    poll.step(PollEvent::Done);
    poll.step(PollEvent::Done);
    poll.step(PollEvent::Time(30_000));
    assert_eq!(poll.state, PollState::TimedOut);
    assert_eq!(
        end_of_wait("/dev/sda", poll.state),
        Err("Failed to wait for root device".to_string())
    );
}

#[test]
fn a_wait_ends_with_the_device() {
    let mut poll = Poll::new(1, 10);
    poll.step(PollEvent::Found(true));
    assert_eq!(poll.state, PollState::Timing);
    poll.step(PollEvent::Time(5));
    poll.step(PollEvent::Found(true));
    assert_eq!(poll.state, PollState::Ready);
    poll.step(PollEvent::Time(5000));
    assert_eq!(poll.state, PollState::Ready);
    assert_eq!(
        end_of_wait("/dev/sda", poll.state),
        Ok(vec![log_step("Device /dev/sda is ready")])
    );
    let mut none = Poll::new(0, 10);
    none.step(PollEvent::Time(0));
    assert_eq!(none.state, PollState::TimedOut);
    assert_eq!(Poll::new(u64::MAX, 1).limit, u64::MAX);
}

// ---------------------------------------------------------------------------
// bcachefs
// ---------------------------------------------------------------------------
#[test]
fn bcachefs_is_run_with_its_options() {
    let mount = mount_bcachefs("UUID=1", "/r", texts(&["x-a", "", "rw", "degraded"]), None);
    assert_eq!(
        mount.prepare(),
        vec![
            must_step(
                Op::CreateDir("/r".to_string()),
                "Failed to create mountpoint: \"/r\""
            ),
            log_step("Mounting bcachefs UUID=1 at \"/r\""),
        ]
    );
    assert_eq!(
        mount.attempt(),
        Command {
            program: "mount.bcachefs".to_string(),
            args: texts(&["-o", "rw,degraded", "UUID=1", "/r"]),
        }
    );
    let bare = mount_bcachefs("/dev/a", "/r", texts(&["x-a"]), None);
    assert_eq!(bare.attempt().args, texts(&["/dev/a", "/r"]));
}

#[test]
fn bcachefs_is_tried_again_until_its_limit() {
    let failed = |stderr: &str, stdout: &str| Attempt::Failed {
        status: "exit status: 1".to_string(),
        stderr: stderr.to_string(),
        stdout: stdout.to_string(),
    };
    let mount = mount_bcachefs("/dev/a", "/r", texts(&[]), Some(30));
    assert_eq!(mount.judge(&Attempt::Succeeded, 60_000), Verdict::Mounted);
    assert_eq!(
        mount.judge(&Attempt::NotRun, 0),
        Verdict::Fail {
            steps: vec![],
            message: "Failed to spawn mount.bcachefs".to_string(),
        }
    );
    let lines = || {
        vec![
            log_step("mount.bcachefs: missing"),
            log_step("mount.bcachefs: member"),
            log_step("mount.bcachefs: out"),
        ]
    };
    let mut retry = vec![log_step(
        "mount.bcachefs /dev/a not ready (exit exit status: 1), retrying...",
    )];
    retry.extend(lines());
    assert_eq!(
        mount.judge(&failed(" missing\nmember", "out\n\n"), 29_999),
        Verdict::Retry { steps: retry }
    );
    assert_eq!(
        mount.judge(&failed("missing\nmember", "out"), 30_000),
        Verdict::Fail {
            steps: lines(),
            message: "mount.bcachefs /dev/a \"/r\" failed after 30s: last exit exit status: 1"
                .to_string(),
        }
    );
    let once = mount_bcachefs("/dev/a", "/r", texts(&[]), None);
    assert_eq!(
        once.judge(&failed("", "only\n"), 0),
        Verdict::Fail {
            steps: vec![log_step("mount.bcachefs: only")],
            message: "mount.bcachefs /dev/a \"/r\" exited with exit status: 1".to_string(),
        }
    );
    let never = mount_bcachefs("/dev/a", "/r", texts(&[]), Some(0));
    assert_eq!(
        never.judge(&failed("", ""), 0),
        Verdict::Fail {
            steps: vec![],
            message: format!(
                "mount.bcachefs /dev/a \"/r\" failed after {:?}: last exit exit status: 1",
                std::time::Duration::from_secs(0)
            ),
        }
    );
}

// ---------------------------------------------------------------------------
// Loop devices
// ---------------------------------------------------------------------------
fn attach(read_only: bool) -> LoopAttach {
    let mount = Mount::new("/nix.img", "/nix", None, MountOptions::from_csv(""));
    mount.attach_loop_device(read_only)
}

#[test]
fn a_file_is_attached_to_a_free_loop_device() {
    let mut a = attach(true);
    assert!(matches!(a.request(), LoopRequest::Prepare(steps)
        if steps[0] == log_step("Loading module: loop")));
    a.step(LoopEvent::Failed);
    assert_eq!(
        a.request(),
        LoopRequest::OpenBacking { path: "/nix.img".to_string(), write: false }
    );
    a.step(LoopEvent::Done);
    assert_eq!(
        a.request(),
        LoopRequest::OpenControl { path: "/dev/loop-control".to_string() }
    );
    a.step(LoopEvent::Done);
    assert_eq!(a.request(), LoopRequest::GetFree);
    a.step(LoopEvent::Returned(12));
    assert_eq!(a.request(), LoopRequest::OpenDevice { path: "/dev/loop12".to_string() });
    a.step(LoopEvent::Done);
    assert_eq!(a.request(), LoopRequest::SetFile);
    a.step(LoopEvent::Returned(0));
    assert_eq!(a.request(), LoopRequest::SetStatus(loop_info("/nix.img", true)));
    a.step(LoopEvent::Returned(0));
    assert_eq!(a.request(), LoopRequest::Attached { path: "/dev/loop12".to_string() });
}

#[test]
fn each_failure_of_an_attachment() {
    let path = [
        (LoopEvent::Done, LoopEvent::Failed, "Failed to open loop backing file /nix.img"),
        (LoopEvent::Done, LoopEvent::Failed, "Failed to open /dev/loop-control"),
        (LoopEvent::Returned(3), LoopEvent::Returned(-1), "LOOP_CTL_GET_FREE failed"),
        (LoopEvent::Done, LoopEvent::Failed, "Failed to open loop device /dev/loop3"),
        (LoopEvent::Returned(0), LoopEvent::Returned(-1), "LOOP_SET_FD failed for /dev/loop3"),
    ];
    for (i, (_, bad, message)) in path.iter().enumerate() {
        let mut a = attach(false);
        a.step(LoopEvent::Done);
        for (good, _, _) in path.iter().take(i) {
            a.step(*good);
        }
        a.step(*bad);
        assert_eq!(a.request(), LoopRequest::Fail(message.to_string()));
    }
}

#[test]
fn a_file_is_given_back_where_its_parameters_fail() {
    let mut a = attach(false);
    assert!(matches!(a.request(), LoopRequest::Prepare(_)));
    for event in [
        LoopEvent::Done,
        LoopEvent::Done,
        LoopEvent::Done,
        LoopEvent::Returned(0),
        LoopEvent::Done,
        LoopEvent::Returned(0),
        LoopEvent::Returned(-1),
    ] {
        a.step(event);
    }
    assert_eq!(a.request(), LoopRequest::ClearFile);
    a.step(LoopEvent::Returned(-1));
    assert_eq!(
        a.request(),
        LoopRequest::Fail("LOOP_SET_STATUS64 failed for /dev/loop0".to_string())
    );
}

#[test]
fn the_parameters_of_a_loop_device() {
    let info = loop_info("/é", false);
    assert_eq!(info.flags, 4);
    assert_eq!(&info.file_name[..4], &[b'/', 0xc3, 0xa9, 0]);
    assert!(info.file_name[3..].iter().all(|b| *b == 0));
    let long = "x".repeat(100);
    let info = loop_info(&long, true);
    assert_eq!(info.flags, 5);
    assert!(info.file_name.iter().all(|b| *b == b'x'));
}

// ---------------------------------------------------------------------------
// The root filesystem
// ---------------------------------------------------------------------------
fn entry(mountpoint: &str, device: &str, fstype: &str, options: &[&str]) -> FsInfo {
    FsInfo {
        device: device.to_string(),
        mountpoint: mountpoint.to_string(),
        fstype: fstype.to_string(),
        options: texts(options),
    }
}

fn begin(cmdline: &str, entries: &Vec<FsInfo>, check: bool) -> RootMount {
    let (steps, mount) = mount_root(&KernelCmdline::parse(cmdline), "/r", entries, check);
    assert_eq!(steps, vec![log_step("Mounting root filesystem...")]);
    mount
}

fn special(source: &str, fstype: &str, data: &str, context: &str) -> RootRequest {
    RootRequest::Perform(vec![
        should_step(Op::CreateDir("/r".to_string())),
        must_step(
            Op::Mount(MountCall {
                source: some(source),
                target: "/r".to_string(),
                fstype: some(fstype),
                flags: 0,
                data: some(data),
            }),
            context,
        ),
    ])
}

#[test]
fn a_root_device_has_to_be_named() {
    let dm = DeviceManager::default();
    let m = begin("quiet", &vec![entry("/home", "/dev/b", "ext4", &[])], false);
    assert_eq!(
        m.request(&dm),
        RootRequest::Fail(
            "No root= parameter specified on kernel command line and no '/' entry in fsInfo"
                .to_string()
        )
    );
}

#[test]
fn roots_without_a_device() {
    let dm = DeviceManager::default();
    let none = Vec::new();
    let tmpfs = special("tmpfs", "tmpfs", "mode=0755", "Failed to mount tmpfs root");
    assert_eq!(begin("root=tmpfs rootflags=x", &none, false).request(&dm), tmpfs);
    let nfs = special("/dev/nfs", "nfs", "nolock", "Failed to mount NFS root");
    assert_eq!(begin("root=/dev/nfs", &none, false).request(&dm), nfs);
    let nfs = special("nfs:h:/p", "nfs", "vers=4", "Failed to mount NFS root");
    assert_eq!(begin("root=nfs:h:/p rootflags=vers=4", &none, false).request(&dm), nfs);
    let cifs = special("//h/s", "cifs", "", "Failed to mount CIFS root");
    let mut m = begin("root=//h/s", &none, false);
    assert_eq!(m.request(&dm), cifs);
    assert_eq!(m.step(RootEvent::Done), vec![]);
    assert_eq!(m.request(&dm), RootRequest::Mounted);
    let mut m = begin("root=//h/s", &none, false);
    assert_eq!(m.step(RootEvent::Failed), vec![]);
    assert_eq!(m.request(&dm), RootRequest::Raise);
}

#[test]
fn a_bcachefs_root_is_left_to_its_program() {
    let dm = DeviceManager::Mdev { mdev: "/m".to_string(), conf: None };
    let list = vec![entry("/", "/dev/a:/dev/b", "bcachefs", &["compression=zstd"])];
    let mut m = begin("", &list, false);
    assert_eq!(
        m.request(&dm),
        RootRequest::Bcachefs {
            steps: dm.retrigger_block(),
            mount: mount_bcachefs(
                "/dev/a:/dev/b",
                "/r",
                texts(&["compression=zstd", "rw"]),
                Some(30)
            ),
        }
    );
    assert_eq!(
        m.step(RootEvent::Done),
        vec![log_step("Root filesystem mounted at \"/r\"")]
    );
    assert_eq!(m.request(&dm), RootRequest::Mounted);
    // The type on the kernel command line goes before the listed one.
    assert_eq!(begin("rootfstype=ext4", &list, false).state, RootState::Resolve);
    let named = begin("root=/dev/c rootfstype=bcachefs", &Vec::new(), false);
    assert_eq!(named.state, RootState::Bcachefs);
}

#[test]
fn a_root_on_a_block_device_from_beginning_to_end() {
    let dm = DeviceManager::Mdev { mdev: "/m".to_string(), conf: None };
    let list = vec![
        entry("/home", "/dev/h", "ext4", &[]),
        entry("/", "/dev/x", "ext4", &["noatime", "discard"]),
    ];
    let mut m = begin("root=LABEL=nixos rootflags=discard,ro", &list, true);
    let mut late = dm.retrigger_block();
    late.push(Step::Do {
        op: Op::RunQuiet(Command { program: "lvm".to_string(), args: texts(&["--version"]) }),
        success: Response::Continue,
        exit: Response::Finish,
        failure: Response::Finish,
    });
    late.push(attempt_step(Op::RunQuiet(Command {
        program: "lvm".to_string(),
        args: texts(&["vgchange", "-ay"]),
    })));
    assert_eq!(
        m.request(&dm),
        RootRequest::Resolve {
            device: "/dev/disk/by-label/nixos".to_string(),
            follow: true,
            poll: Poll::new(30, 3000),
            retrigger: late,
        }
    );
    assert_eq!(
        m.step(RootEvent::Resolved(some("/dev/sda1"))),
        vec![log_step("Using root device: /dev/sda1")]
    );
    assert_eq!(m.request(&dm), RootRequest::FsType { device: "/dev/sda1".to_string() });
    m.step(RootEvent::FsType(None));
    assert_eq!(m.request(&dm), RootRequest::Check(run_fsck("/dev/sda1", "ext4")));
    m.step(RootEvent::Done);
    assert_eq!(
        m.request(&dm),
        RootRequest::Perform(vec![should_step(Op::CreateDir("/r".to_string()))])
    );
    m.step(RootEvent::Done);
    assert_eq!(
        m.request(&dm),
        RootRequest::Mount {
            device: "/dev/sda1".to_string(),
            target: "/r".to_string(),
            fstype: "ext4".to_string(),
            options: texts(&["discard", "ro", "noatime"]),
        }
    );
    assert_eq!(
        m.step(RootEvent::Done),
        vec![log_step("Root filesystem mounted at \"/r\"")]
    );
    assert_eq!(m.request(&dm), RootRequest::Mounted);
}

#[test]
fn the_type_of_the_root_filesystem() {
    let dm = DeviceManager::default();
    let list = vec![entry("/", "/dev/x", "btrfs", &[])];
    let fstype = |cmdline: &str, list: &Vec<FsInfo>, found: Option<String>| {
        let mut m = begin(cmdline, list, true);
        m.step(RootEvent::Resolved(some("/dev/x")));
        if let RootRequest::FsType { .. } = m.request(&dm) {
            m.step(RootEvent::FsType(found));
        }
        if let RootRequest::Perform(_) = m.request(&dm) {
            m.step(RootEvent::Done);
        }
        match m.request(&dm) {
            RootRequest::Check(check) => format!("checked {}", check.fstype),
            RootRequest::Mount { fstype, .. } => fstype,
            other => panic!("{other:?}"),
        }
    };
    assert_eq!(fstype("rootfstype=xfs", &list, some("vfat")), "checked xfs");
    assert_eq!(fstype("", &list, some("vfat")), "checked vfat");
    assert_eq!(fstype("", &list, None), "btrfs");
    assert_eq!(fstype("root=/dev/x", &Vec::new(), None), "auto");
}

#[test]
fn a_journaling_root_is_checked_only_where_asked_for() {
    let dm = DeviceManager::default();
    for (check, checked) in [(false, false), (true, true)] {
        let mut m = begin("root=/dev/x rootfstype=ext4", &Vec::new(), check);
        m.step(RootEvent::Resolved(some("/dev/x")));
        assert_eq!(matches!(m.request(&dm), RootRequest::Check(_)), checked);
        assert_eq!(matches!(m.request(&dm), RootRequest::Perform(_)), !checked);
    }
}

#[test]
fn a_root_filesystem_that_cannot_be_mounted() {
    let dm = DeviceManager::default();
    let mut m = begin("root=/dev/x rootfstype=vfat", &Vec::new(), false);
    m.step(RootEvent::Resolved(None));
    assert_eq!(
        m.request(&dm),
        RootRequest::Fail("Timed out waiting for root device: /dev/x".to_string())
    );
    let mut m = begin("root=/dev/x rootfstype=vfat", &Vec::new(), false);
    m.step(RootEvent::Resolved(some("/dev/x")));
    m.step(RootEvent::Failed);
    assert_eq!(m.request(&dm), RootRequest::Raise);
    m.step(RootEvent::Done);
    assert_eq!(m.request(&dm), RootRequest::Raise);
    let mut m = begin("root=/dev/x rootfstype=btrfs", &Vec::new(), false);
    m.step(RootEvent::Resolved(some("/dev/x")));
    m.step(RootEvent::Done);
    m.step(RootEvent::Failed);
    assert_eq!(
        m.request(&dm),
        RootRequest::RaiseAs("Failed to mount root filesystem /dev/x at \"/r\"".to_string())
    );
}

#[test]
fn options_of_the_root_filesystem_are_merged() {
    let e = entry("/", "/dev/x", "ext4", &["a", "b", "a"]);
    assert_eq!(root_mount_options(&None, None), texts(&["rw"]));
    assert_eq!(root_mount_options(&None, Some(&e)), texts(&["a", "b", "rw"]));
    assert_eq!(root_mount_options(&some("b,c,c"), Some(&e)), texts(&["b", "c", "c", "a", "rw"]));
    assert_eq!(root_mount_options(&some("ro"), Some(&e)), texts(&["ro", "a", "b"]));
    assert_eq!(root_mount_options(&some(""), None), texts(&["", "rw"]));
}

// ---------------------------------------------------------------------------
// Resuming
// ---------------------------------------------------------------------------
fn search(named: Option<&str>, devices: &[&str], there: &[&str], swap: &[&str]) -> Option<String> {
    let mut search = ResumeSearch::new(named, &texts(devices));
    loop {
        let yes = match search.request() {
            SearchRequest::Exists(d) => there.contains(&d),
            SearchRequest::HasSwap(d) => swap.contains(&d),
            SearchRequest::Found(d) => return Some(d.to_string()),
            SearchRequest::NotFound => return None,
        };
        search.answer(yes);
    }
}

#[test]
fn the_first_suitable_device_is_resumed_from() {
    assert_eq!(search(None, &[], &[], &[]), None);
    // A device that is named outright is taken without a look at what it holds.
    assert_eq!(search(Some("n"), &["a"], &["n", "a"], &["a"]), some("n"));
    assert_eq!(search(Some("n"), &["a", "b", "c"], &["a", "b", "c"], &["b", "c"]), some("b"));
    assert_eq!(search(None, &["a", "b"], &["b"], &["a", "b"]), some("b"));
    assert_eq!(search(Some("n"), &["a"], &["a"], &[]), None);
}

#[test]
fn the_kernel_is_told_by_numbers() {
    assert_eq!(announce_resume(Some("/dev/s")), vec![log_step("Attempting resume from: /dev/s")]);
    assert_eq!(announce_resume(None), vec![log_step("No resume device found")]);
    let head = "Resume failed (this is normal if not resuming): ";
    assert_eq!(
        handle_resume("/dev/s", ResumeStat::Device(nix::sys::stat::makedev(259, 300))),
        vec![Step::Do {
            op: Op::WriteFile {
                path: "/sys/power/resume".to_string(),
                content: "259:300".to_string(),
            },
            success: Response::Log("Resume completed".to_string()),
            exit: Response::Continue,
            failure: Response::Log(format!("{head}Failed to write to /sys/power/resume")),
        }]
    );
    assert_eq!(
        handle_resume("/dev/s", ResumeStat::Missing),
        vec![log_step(&format!("{head}Resume device does not exist: /dev/s"))]
    );
    assert_eq!(
        handle_resume("/dev/s", ResumeStat::Failed),
        vec![log_step(&format!("{head}Failed to stat resume device"))]
    );
}

// ---------------------------------------------------------------------------
// Failure and phases
// ---------------------------------------------------------------------------
#[test]
fn messages_have_levels() {
    assert_eq!(
        log_message("FAIL: x"),
        ("stage-1-init: FAIL: x".to_string(), "<3>stage-1-init: FAIL: x".to_string())
    );
    assert_eq!(log_message("Warning: x").1, "<4>stage-1-init: Warning: x");
    assert_eq!(log_message("x FAIL:").1, "<6>stage-1-init: x FAIL:");
    assert_eq!(greeting("NixOS"), "<<< NixOS Stage 1 >>>");
}

#[test]
fn the_policy_for_failures() {
    let action = |cmdline: &str, reason: StopReason| {
        let (steps, action) = fail("why", reason, &KernelCmdline::parse(cmdline));
        assert_eq!(steps, vec![log_step("FAIL: why")]);
        action
    };
    let restart = FailAction::Restart { seconds: 10 };
    assert_eq!(action("", StopReason::Failure), restart);
    assert_eq!(action("boot.shell_on_fail", StopReason::Failure), FailAction::Shell);
    assert_eq!(action("boot.debug1", StopReason::Failure), FailAction::Shell);
    assert_eq!(action("boot.panic_on_fail", StopReason::Failure), FailAction::Panic);
    assert_eq!(
        action("boot.panic_on_fail boot.shell_on_fail", StopReason::Failure),
        FailAction::Shell
    );
    for cmdline in ["", "boot.panic_on_fail", "boot.shell_on_fail"] {
        assert_eq!(action(cmdline, StopReason::Checkpoint), FailAction::Shell);
    }
    assert_eq!(
        panic_kernel(),
        vec![attempt_step(Op::WriteFile {
            path: "/proc/sysrq-trigger".to_string(),
            content: "c".to_string(),
        })]
    );
}

#[test]
fn the_recovery_shell() {
    let shell = start_recovery_shell("why", &some("/pre"), &None);
    assert_eq!(shell.banner[2], "Boot failed: why");
    assert_eq!(shell.banner.len(), 6);
    assert_eq!(shell.shell, "/bin/sh");
    assert_eq!(shell.prompt, "(initrd) $ ");
    assert_eq!(
        shell.steps,
        vec![
            if_holds_step(Check::Exists("/pre".to_string()), 1),
            attempt_step(Op::Run(Command { program: "/pre".to_string(), args: texts(&[]) })),
        ]
    );
    let shell = start_recovery_shell("why", &None, &some("/bin/bash"));
    assert_eq!(shell.shell, "/bin/bash");
    assert!(shell.steps.is_empty());
}

fn config() -> Stage1Config {
    Stage1Config::from_env(&vec![EnvVar {
        name: "postMountCommands".to_string(),
        value: "/hook".to_string(),
    }])
}

#[test]
fn the_bootstrap_begins_with_proc() {
    let (steps, config, boot) = run(&texts(&["stage1", "-t", "/x"]), &Vec::new());
    assert_eq!(steps[0], attempt_step(Op::CreateDir("/proc".to_string())));
    assert_eq!(config.target_root, "/x");
    assert!(matches!(
        boot.request(&config, &KernelCmdline::default()),
        BootRequest::Perform(Work::Script(_))
    ));
}

#[test]
fn every_phase_in_order() {
    let config = config();
    let cmdline = KernelCmdline::parse("init=/i resume=/dev/s");
    let mut boot = Boot::new();
    let mut works: Vec<Work> = Vec::new();
    loop {
        match boot.request(&config, &cmdline) {
            BootRequest::Perform(work) => works.push(work),
            BootRequest::Returned(message) => {
                assert_eq!(message, "switch_root returned unexpectedly");
                break;
            },
            other => panic!("{other:?}"),
        }
        boot.step(&cmdline, BootEvent::Done);
    }
    assert_eq!(works.len(), 34);
    let at = |f: &dyn Fn(&Work) -> bool| works.iter().position(f).unwrap();
    let first = |steps: &Vec<Step>, message: &str| steps.first() == Some(&log_step(message));
    let lvm = at(&|w| matches!(w, Work::Script(s) if first(s, "Activating LVM volumes...")));
    let resume = at(&|w| *w == Work::Resume { named: some("/dev/s"), devices: texts(&[]) });
    let list = at(&|w| *w == Work::FsInfo(None));
    let root = at(&|w| {
        *w == Work::Root { target_root: "/mnt-root".to_string(), check_journaling: false }
    });
    let lustrate = at(&|w| *w == Work::Lustrate { target_root: "/mnt-root".to_string() });
    let check = at(&|w| *w == Work::CheckFilesystems { check_journaling: false });
    let mount = at(&|w| *w == Work::MountFilesystems { target_root: "/mnt-root".to_string() });
    let early = at(&|w| {
        *w == Work::EarlyMounts { script: None, target_root: "/mnt-root".to_string() }
    });
    let rule = at(&|w| *w == Work::RootRule { target_root: "/mnt-root".to_string() });
    let stop = at(&|w| matches!(w, Work::Script(s) if first(s, "Stopping device manager...")));
    let kill = at(&|w| matches!(w, Work::Script(s) if first(s, "Killing remaining processes...")));
    let switch =
        at(&|w| matches!(w, Work::Script(s) if first(s, "Switching root to \"/mnt-root\"")));
    let order =
        [lvm, resume, list, root, lustrate, check, mount, early, rule, stop, kill, switch];
    assert!(order.windows(2).all(|w| w[0] < w[1]), "{order:?}");
    assert_eq!(switch, 33);
}

#[test]
fn a_failed_phase_is_the_last_one() {
    let config = config();
    let cmdline = KernelCmdline::parse("");
    let failure = |done: usize| {
        let mut boot = Boot::new();
        for _ in 0..done {
            boot.step(&cmdline, BootEvent::Done);
        }
        boot.step(&cmdline, BootEvent::Failed);
        boot.step(&cmdline, BootEvent::Done);
        boot.request(&config, &cmdline)
    };
    let error = |m: &str| BootRequest::Failed(PhaseFailure::Error(m.to_string()));
    assert_eq!(failure(0), error("Failed to set up environment"));
    assert_eq!(failure(7), error("Failed to set host ID"));
    assert_eq!(failure(15), error("Failed to activate LVM"));
    assert_eq!(failure(20), error("Failed to parse filesystem info"));
    assert_eq!(
        failure(21),
        BootRequest::Failed(PhaseFailure::Fail("Failed to mount root filesystem: ".to_string()))
    );
    assert_eq!(failure(25), BootRequest::Failed(PhaseFailure::Raise));
    assert_eq!(failure(31), error("Failed to kill remaining processes"));
    assert_eq!(
        failure(33),
        BootRequest::Failed(PhaseFailure::Fail("Failed to switch root: ".to_string()))
    );
    assert_eq!(
        failure_reason("Failed to switch root: ", "no"),
        ("Failed to switch root: no".to_string(), StopReason::Failure)
    );
}

#[test]
fn checkpoints_stop_the_boot() {
    let config = config();
    for (cmdline, done, message) in [
        ("boot.debug1devices", 16, "boot.debug1devices checkpoint reached"),
        ("boot.debug1mounts", 32, "boot.debug1mounts checkpoint reached"),
    ] {
        let cmdline = KernelCmdline::parse(cmdline);
        let mut boot = Boot::new();
        for _ in 0..done {
            assert!(matches!(boot.request(&config, &cmdline), BootRequest::Perform(_)));
            boot.step(&cmdline, BootEvent::Done);
        }
        for _ in 0..3 {
            assert_eq!(
                boot.request(&config, &cmdline),
                BootRequest::Checkpoint(message.to_string())
            );
            boot.step(&cmdline, BootEvent::Done);
        }
    }
}

#[test]
fn work_follows_the_configuration() {
    let config = Stage1Config::from_env(&vec![
        EnvVar { name: "linkUnits".to_string(), value: "/units".to_string() },
        EnvVar { name: "kernelModules".to_string(), value: "a".to_string() },
    ]);
    let work = |cmdline: &str, done: usize| {
        let cmdline = KernelCmdline::parse(cmdline);
        let mut boot = Boot::new();
        for _ in 0..done {
            boot.step(&cmdline, BootEvent::Done);
        }
        boot.request(&config, &cmdline)
    };
    assert_eq!(
        work("boot.no_modprobe", 9),
        BootRequest::Perform(Work::Script(vec![log_step(
            "Skipping module loading (boot.no_modprobe)"
        )]))
    );
    assert!(matches!(work("", 9), BootRequest::Perform(Work::Script(steps))
        if steps[0] == log_step("Loading module: a") && steps.len() == 2));
    assert!(matches!(work("", 10), BootRequest::Perform(Work::Script(steps)) if steps.len() == 4));
    assert!(matches!(work("", 33), BootRequest::Perform(Work::Script(steps))
        if steps.contains(&must_step(
            Op::Execute("/nix/var/nix/profiles/system/sw/bin/init".to_string()),
            "Failed to exec init: /nix/var/nix/profiles/system/sw/bin/init"
        ))));
    assert!(matches!(work("", 12), BootRequest::Perform(Work::Script(steps))
        if steps[1] == must_step(
            run2("udevadm", "trigger", "--action=add"),
            "Failed to trigger udev events"
        )));
}
