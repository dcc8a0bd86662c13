//! Mount options and mounts.
use nix::mount::MsFlags;
use stage1::bcachefs::mount_bcachefs;
use stage1::mount::{Apply, FileKind, FilesystemMount, Mount};
use stage1::options::{parse_mount_options, MountOptions};
use stage1::script::{log_step, must_step, attempt_step, MountCall, Op};

fn texts(v: &[&str]) -> Vec<String> {
    v.iter().map(|s| s.to_string()).collect()
}

fn bits(flags: MsFlags) -> u64 {
    flags.bits() as u64
}

#[test]
fn each_flag_option_sets_its_flag() {
    let table = [
        ("ro", MsFlags::MS_RDONLY),
        ("nosuid", MsFlags::MS_NOSUID),
        ("nodev", MsFlags::MS_NODEV),
        ("noexec", MsFlags::MS_NOEXEC),
        ("sync", MsFlags::MS_SYNCHRONOUS),
        ("noatime", MsFlags::MS_NOATIME),
        ("nodiratime", MsFlags::MS_NODIRATIME),
        ("relatime", MsFlags::MS_RELATIME),
        ("strictatime", MsFlags::MS_STRICTATIME),
        ("lazytime", MsFlags::MS_LAZYTIME),
        ("bind", MsFlags::MS_BIND),
        ("rbind", MsFlags::MS_BIND | MsFlags::MS_REC),
        ("remount", MsFlags::MS_REMOUNT),
        ("silent", MsFlags::MS_SILENT),
        ("dirsync", MsFlags::MS_DIRSYNC),
    ];
    for (option, flags) in table {
        assert_eq!(parse_mount_options(&vec![option]), (bits(flags), None), "{option}");
    }
}

#[test]
fn options_for_mount8_are_dropped() {
    let all = vec![
        "defaults", "auto", "noauto", "user", "nouser", "_netdev", "nofail", "rw", "exec", "async",
        "", "x-", "x-systemd.automount",
    ];
    assert_eq!(parse_mount_options(&all), (0, None));
}

#[test]
fn the_rest_is_data_in_order() {
    let all = vec!["subvol=@", "ro", "compress=zstd", "x-initrd.mount", "noatime", "subvol=@"];
    let flags = bits(MsFlags::MS_RDONLY | MsFlags::MS_NOATIME);
    assert_eq!(
        parse_mount_options(&all),
        (flags, Some("subvol=@,compress=zstd,subvol=@".to_string()))
    );
    assert_eq!(parse_mount_options(&vec!["loop"]), (0, Some("loop".to_string())));
}

#[test]
fn loop_and_empty_options_have_no_part_in_a_mount() {
    let options = MountOptions::from_slice(&texts(&["", "loop", "x-foo", "size=1M", "ro"]));
    assert_eq!(options.raw_for_mount(), vec!["size=1M", "ro"]);
    assert_eq!(
        options.parse_for_mount(),
        (bits(MsFlags::MS_RDONLY), Some("size=1M".to_string()))
    );
    assert_eq!(MountOptions::from_csv(",a,,b,").raw, texts(&["a", "b"]));
    assert_eq!(MountOptions::from_csv("").raw, texts(&[]));
    assert_eq!(MountOptions::from_vec(texts(&[""])).raw, texts(&[""]));
}

#[test]
fn csv_options_come_back() {
    let options = texts(&["mode=755", "size=50%"]);
    assert_eq!(MountOptions::from_csv(&options.join(",")).raw, options);
}

#[test]
fn fstype_auto_is_left_to_the_kernel() {
    for (given, expected) in [
        (None, None),
        (Some(""), None),
        (Some("auto"), None),
        (Some("ext4"), Some("ext4")),
        (Some("Auto"), Some("Auto")),
    ] {
        let mount = Mount::new("/dev/sda", "/mnt", given, MountOptions::from_vec(Vec::new()));
        assert_eq!(mount.mount_fstype(), expected);
        assert_eq!(mount.source_path(), "/dev/sda");
    }
}

#[test]
fn bind_mounts_are_recognised() {
    let by_type = Mount::new("/a", "/b", Some("bind"), MountOptions::from_csv(""));
    assert!(by_type.is_bind_mount() && !by_type.is_recursive_bind_mount());
    let by_option = Mount::new("/a", "/b", Some("none"), MountOptions::from_csv("bind,ro"));
    assert!(by_option.is_bind_mount() && !by_option.is_recursive_bind_mount());
    let recursive = Mount::new("/a", "/b", None, MountOptions::from_csv("rbind"));
    assert!(recursive.is_bind_mount() && recursive.is_recursive_bind_mount());
    let none = Mount::new("/a", "/b", Some("ext4"), MountOptions::from_csv("ro"));
    assert!(!none.is_bind_mount());
}

#[test]
fn a_bind_mount_gets_its_options_by_a_second_call() {
    let mount = Mount::new("/src", "/dst", Some("none"), MountOptions::from_csv("rbind,ro"));
    let bind = MountCall {
        source: Some("/src".to_string()),
        target: "/dst".to_string(),
        fstype: None,
        flags: bits(MsFlags::MS_BIND | MsFlags::MS_REC),
        data: None,
    };
    let remount = MountCall {
        source: None,
        target: "/dst".to_string(),
        fstype: None,
        flags: bits(
            MsFlags::MS_REMOUNT | MsFlags::MS_BIND | MsFlags::MS_REC | MsFlags::MS_RDONLY,
        ),
        data: None,
    };
    assert_eq!(
        mount.apply_filesystem(),
        FilesystemMount::Steps(vec![
            must_step(Op::Mount(bind), "Failed to bind mount /src to \"/dst\""),
            must_step(Op::Mount(remount), "Failed to remount \"/dst\" with security options"),
        ])
    );
}

#[test]
fn zfs_is_left_to_the_kernel() {
    let mount = Mount::new("tank/root", "/mnt", Some("zfs"), MountOptions::from_csv(""));
    assert_eq!(
        mount.apply_filesystem(),
        FilesystemMount::Steps(vec![log_step("Skipping mount of zfs (handled by kernel)")])
    );
}

#[test]
fn bcachefs_waits_for_each_member() {
    let mount = Mount::new("/dev/a:/dev/b", "/mnt", Some("bcachefs"), MountOptions::from_csv("ro"));
    assert_eq!(
        mount.apply_filesystem(),
        FilesystemMount::Bcachefs {
            steps: vec![
                attempt_step(Op::WaitForDevice { device: "/dev/a".to_string(), seconds: 30 }),
                attempt_step(Op::WaitForDevice { device: "/dev/b".to_string(), seconds: 30 }),
            ],
            mount: mount_bcachefs("/dev/a:/dev/b", "/mnt", texts(&["ro"]), Some(30)),
        }
    );
}

#[test]
fn an_overlay_gets_its_writable_directories() {
    let options = MountOptions::from_csv("lowerdir=/l,upperdir=/u,workdir=/w,x-foo,ro");
    let mount = Mount::new("overlay", "/mnt", Some("overlay"), options);
    let call = MountCall {
        source: Some("overlay".to_string()),
        target: "/mnt".to_string(),
        fstype: Some("overlay".to_string()),
        flags: 0,
        data: Some("lowerdir=/l,upperdir=/u,workdir=/w,ro".to_string()),
    };
    assert_eq!(
        mount.apply_filesystem(),
        FilesystemMount::Steps(vec![
            attempt_step(Op::CreateDir("/u".to_string())),
            attempt_step(Op::CreateDir("/w".to_string())),
            must_step(Op::Mount(call), "Failed to mount overlay at \"/mnt\""),
        ])
    );
}

#[test]
fn an_ordinary_mount_is_one_call() {
    let mount =
        Mount::new("/dev/sda1", "/mnt", Some("ext4"), MountOptions::from_csv("ro,data=journal"));
    assert_eq!(mount.apply_filesystem(), FilesystemMount::Apply);
    let call = MountCall {
        source: Some("/dev/sda1".to_string()),
        target: "/mnt".to_string(),
        fstype: Some("ext4".to_string()),
        flags: bits(MsFlags::MS_RDONLY),
        data: Some("data=journal".to_string()),
    };
    for kind in
        [None, Some(FileKind::BlockDevice), Some(FileKind::Directory), Some(FileKind::Other)]
    {
        assert!(!mount.uses_loop_device(kind));
        let expected = MountCall {
            source: call.source.clone(),
            target: call.target.clone(),
            fstype: call.fstype.clone(),
            flags: call.flags,
            data: call.data.clone(),
        };
        assert_eq!(
            mount.apply(kind),
            Apply::Mount(vec![must_step(
                Op::Mount(expected),
                "Failed to mount /dev/sda1 (ext4) at \"/mnt\""
            )])
        );
    }
}

#[test]
fn a_regular_file_goes_by_a_loop_device() {
    for (options, read_only) in [("ro,loop", true), ("loop", false), ("rw", false)] {
        let mount =
            Mount::new("/iso/nix.squashfs", "/nix", Some("auto"), MountOptions::from_csv(options));
        assert!(mount.uses_loop_device(Some(FileKind::Regular)));
        assert_eq!(
            mount.apply(Some(FileKind::Regular)),
            Apply::Attach {
                steps: vec![log_step(
                    "Mounting regular file /iso/nix.squashfs via loop device at \"/nix\""
                )],
                read_only,
                context: "Failed to configure loop device for /iso/nix.squashfs".to_string(),
            }
        );
        let call = MountCall {
            source: Some("/dev/loop7".to_string()),
            target: "/nix".to_string(),
            fstype: None,
            flags: if read_only { 1 } else { 0 },
            data: None,
        };
        assert_eq!(
            mount.apply_attached("/dev/loop7"),
            vec![must_step(
                Op::Mount(call),
                "Failed to mount /iso/nix.squashfs (auto) via /dev/loop7 at \"/nix\""
            )]
        );
    }
}
