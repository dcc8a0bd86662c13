//! The list of filesystems, special mounts, and what is told of devices.
use stage1::devnum::{device_major, device_minor, device_numbers, udev_data_path};
use stage1::early::{announce_early_mounts, early_mounts, parse_shell_args, special_mount_target};
use stage1::filesystem::{filesystem_request, mount_filesystem};
use stage1::fsinfo::{
    check_additional_filesystems, fs_info_file, mount_additional_filesystems, needs_fsck,
    parse_fs_info, FsInfo,
};
use stage1::mount::FileKind;
use stage1::mounts::{is_device_mounted, is_mounted};
use stage1::probe::{device_is_ready, has_swap_signature, swap_mark_offset, udev_fs_type};
use stage1::script::{
    if_fails_step, if_holds_step, log_step, must_step, should_step, Check, Op, Response, Step,
};

fn texts(v: &[&str]) -> Vec<String> {
    v.iter().map(|s| s.to_string()).collect()
}

fn entry(mountpoint: &str, device: &str, fstype: &str, options: &[&str]) -> FsInfo {
    FsInfo {
        device: device.to_string(),
        mountpoint: mountpoint.to_string(),
        fstype: fstype.to_string(),
        options: texts(options),
    }
}

#[test]
fn a_list_of_filesystems() {
    let path = Some("/fsinfo".to_string());
    assert_eq!(fs_info_file(&path, true), path);
    assert_eq!(fs_info_file(&path, false), None);
    assert_eq!(fs_info_file(&None, true), None);
    assert_eq!(parse_fs_info(None), vec![]);
    assert_eq!(parse_fs_info(Some("")), vec![]);
    let text = "/\n/dev/a\next4\nro,noatime\n/home\n/dev/b\nauto\n\n";
    assert_eq!(
        parse_fs_info(Some(text)),
        vec![
            entry("/", "/dev/a", "ext4", &["ro", "noatime"]),
            entry("/home", "/dev/b", "auto", &[]),
        ]
    );
}

#[test]
fn a_list_ends_early() {
    assert_eq!(parse_fs_info(Some("/\n/dev/a\next4")), vec![]);
    assert_eq!(
        parse_fs_info(Some("/\n/dev/a\next4\nx")),
        vec![entry("/", "/dev/a", "ext4", &["x"])]
    );
    let text = "/a\nd\nt\no\n\n/b\nd\nt\no\n";
    assert_eq!(parse_fs_info(Some(text)), vec![entry("/a", "d", "t", &["o"])]);
    assert_eq!(
        parse_fs_info(Some("/a\r\nd\r\nt\r\n,\r\n")),
        vec![entry("/a", "d", "t", &["", ""])]
    );
}

#[test]
fn what_was_listed_comes_back() {
    let entries = vec![
        entry("/", "/dev/disk/by-uuid/1", "btrfs", &["subvol=@", "compress=zstd"]),
        entry("/nix", "tmpfs", "tmpfs", &[]),
        entry("/x", "", "", &["a", ""]),
    ];
    let mut text = String::new();
    for e in &entries {
        text += &format!("{}\n{}\n{}\n{}\n", e.mountpoint, e.device, e.fstype, e.options.join(","));
    }
    assert_eq!(parse_fs_info(Some(&text)), entries);
}

#[test]
fn which_filesystems_are_checked() {
    for t in ["ext2", "vfat", "msdos", "ntfs"] {
        assert!(needs_fsck(t, false) && needs_fsck(t, true), "{t}");
    }
    for t in ["ext3", "ext4", "reiserfs", "xfs", "jfs", "f2fs"] {
        assert!(!needs_fsck(t, false) && needs_fsck(t, true), "{t}");
    }
    for t in [
        "btrfs", "zfs", "bcachefs", "iso9660", "udf", "apfs", "nilfs2", "squashfs", "erofs", "auto",
        "", "tmpfs", "EXT4",
    ] {
        assert!(!needs_fsck(t, false) && !needs_fsck(t, true), "{t}");
    }
}

fn mounting(mountpoint: &str, device: &str, fstype: &str, options: &[&str]) -> Step {
    Step::Do {
        op: Op::MountFilesystem {
            device: device.to_string(),
            mountpoint: mountpoint.to_string(),
            fstype: fstype.to_string(),
            options: texts(options),
        },
        success: Response::Continue,
        exit: Response::Continue,
        failure: Response::LogCauses(format!("Warning: failed to mount {mountpoint:?}: ")),
    }
}

#[test]
fn filesystems_move_below_the_target_root() {
    let entries = vec![
        entry("/", "/dev/a", "ext4", &[]),
        entry("//./", "/dev/a", "ext4", &[]),
        entry("/home//", "/dev/b", "ext4", &["lowerdir=/x"]),
        entry("srv", "/dev/c", "xfs", &["ro"]),
        entry("//etc/.", "/dev/d", "auto", &[]),
    ];
    assert_eq!(
        mount_additional_filesystems(&entries, "/r"),
        vec![
            mounting("/r/home", "/dev/b", "ext4", &["lowerdir=/x"]),
            mounting("/r/srv", "/dev/c", "xfs", &["ro"]),
            mounting("/r/etc", "/dev/d", "auto", &[]),
        ]
    );
    assert_eq!(mount_additional_filesystems(&Vec::new(), "/r"), vec![]);
}

#[test]
fn directories_of_an_overlay_move_too() {
    let entries = vec![entry(
        "/o",
        "overlay",
        "overlay",
        &["lowerdir=/a:b:/c", "upperdir=/u", "workdir=w", "metacopy=on", "x=lowerdir=/a"],
    )];
    assert_eq!(
        mount_additional_filesystems(&entries, "/r"),
        vec![mounting(
            "/r/o",
            "overlay",
            "overlay",
            &["lowerdir=/r/a:b:/r/c", "upperdir=/r/u", "workdir=w", "metacopy=on", "x=lowerdir=/a"],
        )]
    );
}

#[test]
fn other_filesystems_are_checked_with_a_warning_at_most() {
    let entries = vec![
        entry("/", "/dev/a", "vfat", &[]),
        entry("/boot", "/dev/b", "vfat", &[]),
        entry("/home", "/dev/c", "ext4", &[]),
    ];
    let checking = |device: &str, fstype: &str| Step::Do {
        op: Op::CheckFilesystem { device: device.to_string(), fstype: fstype.to_string() },
        success: Response::Continue,
        exit: Response::Continue,
        failure: Response::LogCauses(format!("Warning: fsck failed on {device}: ")),
    };
    assert_eq!(
        check_additional_filesystems(&entries, false),
        vec![checking("/dev/b", "vfat")]
    );
    assert_eq!(
        check_additional_filesystems(&entries, true),
        vec![checking("/dev/b", "vfat"), checking("/dev/c", "ext4")]
    );
}

#[test]
fn mount_points_are_directories_or_files() {
    let plain = entry("/r/home", "/dev/b", "ext4", &[]);
    let log = log_step("Mounting /dev/b (ext4) at \"/r/home\"");
    assert_eq!(
        mount_filesystem(&plain, Some(FileKind::BlockDevice)),
        vec![
            log,
            must_step(
                Op::CreateDir("/r/home".to_string()),
                "Failed to create mountpoint: \"/r/home\""
            ),
        ]
    );
    let bind = entry("/r/etc/x", "/src", "none", &["bind"]);
    assert_eq!(
        mount_filesystem(&bind, Some(FileKind::Regular))[1..],
        [
            must_step(
                Op::CreateDir("/r/etc".to_string()),
                "Failed to create parent of mountpoint: \"/r/etc\""
            ),
            if_fails_step(Check::Exists("/r/etc/x".to_string()), 1),
            must_step(
                Op::WriteFile { path: "/r/etc/x".to_string(), content: "".to_string() },
                "Failed to create file mountpoint: \"/r/etc/x\""
            ),
        ]
    );
    for kind in [None, Some(FileKind::Directory)] {
        assert_eq!(mount_filesystem(&bind, kind).len(), 2);
    }
    let request = filesystem_request(&bind);
    assert_eq!((request.source, request.target), ("/src", "/r/etc/x"));
    assert_eq!(request.fstype, Some("none"));
}

#[test]
fn words_of_a_shell() {
    for (line, expected) in [
        ("", vec![]),
        ("  \t ", vec![]),
        ("a b", vec!["a", "b"]),
        ("  a\tb  ", vec!["a", "b"]),
        ("'a b' \"c d\"", vec!["a b", "c d"]),
        ("a'b c'd", vec!["ab cd"]),
        ("'it\"s' \"it's\"", vec!["it\"s", "it's"]),
        ("'' a \"\"", vec!["a"]),
        ("'open a", vec!["open a"]),
        ("a\\ b", vec!["a\\", "b"]),
        ("a\nb", vec!["a\nb"]),
    ] {
        assert_eq!(parse_shell_args(line), texts(&expected), "{line:?}");
    }
}

#[test]
fn quoted_words_come_back() {
    let args = ["mode=0755", "a b", "x\ty", "\"quoted\""];
    let line = args.map(|a| format!("'{a}'")).join(" ");
    assert_eq!(parse_shell_args(&line), texts(&args));
}

#[test]
fn where_special_mounts_go() {
    for (mountpoint, expected) in [
        ("/dev/shm", "/dev/shm"),
        ("/proc", "/proc"),
        ("/sys/fs/cgroup", "/sys/fs/cgroup"),
        ("/run/wrappers/", "/run/wrappers/"),
        ("//run/x", "//run/x"),
        ("/running", "/r/running"),
        ("/tmp", "/r/tmp"),
        ("tmp", "/r/tmp"),
        ("dev", "/r/dev"),
        ("", "/r/"),
        // Two slashes in front make the rest absolute again.
        ("//srv", "/srv"),
    ] {
        assert_eq!(special_mount_target("/r", mountpoint), expected, "{mountpoint:?}");
    }
}

#[test]
fn the_early_mount_script() {
    let content = "# comment\n\n  specialMount tmpfs /tmp 'mode=1777,,size=5 0' tmpfs extra \n\
                   echo hi\nspecialMount a b c\nspecialMount\n";
    let steps = early_mounts("/r", content);
    assert_eq!(
        steps,
        vec![
            if_holds_step(Check::Mounted("/r/tmp".to_string()), 2),
            log_step("Skipping specialMount /tmp: \"/r/tmp\" is already mounted"),
            Step::Skip { skip: 2 },
            should_step(Op::CreateDir("/r/tmp".to_string())),
            Step::Do {
                op: Op::MountDevice {
                    device: "tmpfs".to_string(),
                    mountpoint: "/r/tmp".to_string(),
                    fstype: "tmpfs".to_string(),
                    options: texts(&["mode=1777", "size=5 0"]),
                },
                success: Response::Continue,
                exit: Response::Continue,
                failure: Response::FailBoot(
                    "Early mount script: failed to mount tmpfs at \"/r/tmp\": ".to_string()
                ),
            },
            log_step("Warning: malformed specialMount line: specialMount a b c"),
        ]
    );
    let script = Some("/s".to_string());
    assert_eq!(
        announce_early_mounts(&script, true),
        Some(("/s".to_string(), vec![log_step("Running early mount script: \"/s\"")]))
    );
    assert_eq!(announce_early_mounts(&script, false), None);
    assert_eq!(announce_early_mounts(&None, true), None);
}

#[test]
fn the_table_of_mounts() {
    let table = texts(&[
        "proc /proc proc rw 0 0",
        "/dev/sda1 / ext4 rw 0 0",
        "short",
        "/dev/disk/by-uuid/1 /home ext4 rw 0 0",
    ]);
    assert!(is_mounted(&table, "/proc") && is_mounted(&table, "/"));
    assert!(!is_mounted(&table, "/proc/") && !is_mounted(&table, "proc"));
    assert!(!is_mounted(&table, "short") && !is_mounted(&Vec::new(), "/"));
    assert!(is_device_mounted(&table, "/dev/sda1", None));
    assert!(is_device_mounted(&table, "/dev/disk/by-label/x", Some("/dev/sda1")));
    assert!(!is_device_mounted(&table, "/dev/sdb", Some("/dev/sdb")));
    assert!(!is_device_mounted(&table, "short", None));
}

#[test]
fn what_udev_knows() {
    assert_eq!(udev_fs_type("S:disk\nE:ID_FS_TYPE=\nE:ID_FS_TYPE=ext4\nE:ID_FS_TYPE=xfs\n"),
        Some("ext4".to_string()));
    assert_eq!(udev_fs_type("E:ID_FS_TYPE_X=a\nI:1\n"), None);
    assert_eq!(udev_fs_type(""), None);
    let dev = nix::sys::stat::makedev(8, 1);
    assert_eq!(udev_data_path(dev), "/run/udev/data/b8:1");
}

#[test]
fn device_numbers_come_back() {
    for (major, minor) in [
        (0u32, 0u32),
        (8, 1),
        (259, 300),
        (4095, 255),
        (0xfffff, 0xffffff),
        (u32::MAX, u32::MAX),
    ] {
        let dev = nix::sys::stat::makedev(major as u64, minor as u64);
        assert_eq!((device_major(dev), device_minor(dev)), (major, minor));
        assert_eq!(device_numbers(dev), format!("{major}:{minor}"));
    }
}

#[test]
fn swap_space_has_a_mark() {
    assert_eq!(swap_mark_offset(4096), Some(4086));
    assert_eq!(swap_mark_offset(10), Some(0));
    assert_eq!(swap_mark_offset(3), Some(0));
    assert_eq!(swap_mark_offset(0), None);
    assert_eq!(swap_mark_offset(-1), None);
    assert!(has_swap_signature(b"SWAPSPACE2"));
    assert!(has_swap_signature(b"PAGESIZE\0\0"));
    assert!(!has_swap_signature(b"SWAP-SPACE"));
    assert!(!has_swap_signature(b"SWAPSPACE"));
    assert!(!has_swap_signature(b""));
}

#[test]
fn only_block_devices_are_ready() {
    assert!(device_is_ready(Some(FileKind::BlockDevice)));
    for kind in [None, Some(FileKind::Regular), Some(FileKind::Directory), Some(FileKind::Other)] {
        assert!(!device_is_ready(kind));
    }
}
