//! The kernel command line and the configuration.
use stage1::cmdline::{rewrite_uuid_label, KernelCmdline};
use stage1::config::{parse_args, Stage1Config};
use stage1::device_manager::DeviceManager;
use stage1::env::{env_get, EnvVar};

fn env(vars: &[(&str, &str)]) -> Vec<EnvVar> {
    vars.iter()
        .map(|(name, value)| EnvVar { name: name.to_string(), value: value.to_string() })
        .collect()
}

fn texts(v: &[&str]) -> Vec<String> {
    v.iter().map(|s| s.to_string()).collect()
}

fn some(s: &str) -> Option<String> {
    Some(s.to_string())
}

#[test]
fn uuid_and_label_become_links() {
    assert_eq!(rewrite_uuid_label("UUID=1-2".to_string()), "/dev/disk/by-uuid/1-2");
    assert_eq!(rewrite_uuid_label("LABEL=nixos".to_string()), "/dev/disk/by-label/nixos");
    assert_eq!(rewrite_uuid_label("PARTUUID=1".to_string()), "PARTUUID=1");
    assert_eq!(rewrite_uuid_label("uuid=1".to_string()), "uuid=1");
    assert_eq!(rewrite_uuid_label("/dev/sda".to_string()), "/dev/sda");
    let once = rewrite_uuid_label("UUID=LABEL=x".to_string());
    assert_eq!(rewrite_uuid_label(once.clone()), once);
}

#[test]
fn parameters_find_their_places() {
    let c = KernelCmdline::parse(
        "BOOT_IMAGE=/k root=UUID=ab init=/init console=tty0 console=ttyS0,115200n8 \
         boot.shell_on_fail boot.debug1=1 boot.debug1devices boot.debug1mounts=true boot.debug \
         boot.trace boot.panic_on_fail boot.no_modprobe boot.copytoram \
         boot.persistence=/dev/sdb:/p \
         resume=LABEL=swap boot.gfx_mode=1024 quiet rootflags=a=b,c splash\n",
    );
    assert_eq!(c.root, some("/dev/disk/by-uuid/ab"));
    assert_eq!(c.init, some("/init"));
    assert_eq!(c.console, texts(&["tty0", "ttyS0,115200n8"]));
    assert!(c.shell_on_fail && c.debug1 && c.debug1devices && c.debug1mounts && c.debug);
    assert!(c.trace && c.panic_on_fail && c.no_modprobe && c.copy_to_ram && c.quiet);
    assert_eq!(c.persistence, some("/dev/sdb:/p"));
    assert_eq!(c.resume, some("/dev/disk/by-label/swap"));
    assert_eq!(c.boot_gfx_mode, some("1024"));
    assert_eq!(c.get("rootflags"), Some(&"a=b,c".to_string()));
    assert_eq!(c.get("BOOT_IMAGE"), Some(&"/k".to_string()));
    assert_eq!(c.get("splash"), None);
    assert_eq!(c.get("root"), None);
    assert_eq!(c.get("nothing"), None);
}

#[test]
fn an_empty_command_line_asks_for_nothing() {
    assert_eq!(KernelCmdline::parse(" \n"), KernelCmdline::default());
}

#[test]
fn the_last_parameter_wins() {
    let c = KernelCmdline::parse(
        "root=/dev/a quiet root=/dev/b quiet=0 x=1 x=2 y=1 y init=/i init",
    );
    assert_eq!(c.root, some("/dev/b"));
    assert!(!c.quiet);
    assert_eq!(c.get("x"), Some(&"2".to_string()));
    assert_eq!(c.get("y"), None);
    assert_eq!(c.init, None);
}

#[test]
fn switches_can_be_switched_off() {
    for value in ["0", "false"] {
        let text = format!("boot.debug1={value} quiet={value} boot.trace={value}");
        let c = KernelCmdline::parse(&text);
        assert!(!c.debug1 && !c.quiet && !c.trace);
    }
    for value in ["1", "true", "", "no", "False"] {
        assert!(KernelCmdline::parse(&format!("boot.debug1={value}")).debug1);
    }
    assert!(KernelCmdline::parse("console").console.is_empty());
}

#[test]
fn defaults_of_the_configuration() {
    let c = Stage1Config::from_env(&env(&[]));
    assert_eq!(c.target_root, "/mnt-root");
    assert_eq!(c.extra_utils, None);
    assert_eq!(c.kernel_modules, texts(&[]));
    assert_eq!(c.distro_name, "NixOS");
    assert_eq!(c.link_units_dest, "/etc/systemd/network");
    assert!(!c.check_journaling_fs);
    assert_eq!(c.device_manager, DeviceManager::default());
}

#[test]
fn variables_of_the_configuration() {
    let c = Stage1Config::from_env(&env(&[
        ("targetRoot", "/root"),
        ("extraUtils", "/utils"),
        ("kernelModules", " ext4\tloop \n"),
        ("resumeDevice", "/dev/swap"),
        ("resumeDevices", "/dev/a /dev/b"),
        ("fsInfo", "/fsinfo"),
        ("preFailCommands", "/1"),
        ("preDeviceCommands", "/2"),
        ("preLVMCommands", "/3"),
        ("postDeviceCommands", "/4"),
        ("postResumeCommands", "/5"),
        ("postMountCommands", "/6"),
        ("earlyMountScript", "/7"),
        ("linkUnits", "/8"),
        ("checkJournalingFS", "1"),
        ("HOST_ID", "deadbeef"),
        ("distroName", "Finix"),
        ("LINK_UNITS_DEST", "/9"),
    ]));
    assert_eq!(c.target_root, "/root");
    assert_eq!(c.extra_utils, some("/utils"));
    assert_eq!(c.kernel_modules, texts(&["ext4", "loop"]));
    assert_eq!(c.resume_device, some("/dev/swap"));
    assert_eq!(c.resume_devices, texts(&["/dev/a", "/dev/b"]));
    assert_eq!(c.fs_info, some("/fsinfo"));
    assert_eq!(c.pre_fail_commands, some("/1"));
    assert_eq!(c.pre_device_commands, some("/2"));
    assert_eq!(c.pre_lvm_commands, some("/3"));
    assert_eq!(c.post_device_commands, some("/4"));
    assert_eq!(c.post_resume_commands, some("/5"));
    assert_eq!(c.post_mount_commands, some("/6"));
    assert_eq!(c.early_mount_script, some("/7"));
    assert_eq!(c.link_units, some("/8"));
    assert!(c.check_journaling_fs);
    assert_eq!(c.set_host_id, some("deadbeef"));
    assert_eq!(c.distro_name, "Finix");
    assert_eq!(c.link_units_dest, "/9");
}

#[test]
fn journaling_checks_are_opted_into() {
    for (value, expected) in [("1", true), ("true", true), ("0", false), ("false", false)] {
        let c = Stage1Config::from_env(&env(&[("checkJournalingFS", value)]));
        assert_eq!(c.check_journaling_fs, expected, "{value}");
    }
}

#[test]
fn arguments_override_variables() {
    let vars = env(&[("targetRoot", "/root"), ("extraUtils", "/utils"), ("distroName", "X")]);
    let args = texts(&[
        "stage1", "--target-root", "/a", "-t", "/b", "--extra-utils", "/u", "--distro-name", "D",
    ]);
    let c = parse_args(&args, &vars);
    assert_eq!(c.target_root, "/b");
    assert_eq!(c.extra_utils, some("/u"));
    assert_eq!(c.distro_name, "D");
    // The paths of the device manager are those of the environment.
    assert_eq!(
        c.device_manager,
        DeviceManager::Udev {
            udevd: "/utils/bin/systemd-udevd".to_string(),
            udevadm: "/utils/bin/udevadm".to_string(),
            rules: None,
        }
    );
}

#[test]
fn incomplete_and_unknown_arguments_count_for_nothing() {
    let vars = env(&[]);
    for args in [
        texts(&[]),
        texts(&["--target-root"]),
        texts(&["--target-root", "/x"]),
        texts(&["stage1", "--target-root"]),
        texts(&["stage1", "--verbose", "/x", "-t"]),
    ] {
        assert_eq!(parse_args(&args, &vars).target_root, "/mnt-root", "{args:?}");
    }
    let c = parse_args(&texts(&["stage1", "-t", "--distro-name", "D"]), &vars);
    assert_eq!(c.target_root, "--distro-name");
    assert_eq!(c.distro_name, "NixOS");
}

#[test]
fn the_environment_chooses_the_device_manager() {
    let utils = some("/u");
    assert_eq!(
        DeviceManager::from_env(&env(&[("DEVICE_MANAGER", "mdev")]), &utils),
        DeviceManager::Mdev { mdev: "/u/bin/mdev".to_string(), conf: None }
    );
    assert_eq!(
        DeviceManager::from_env(
            &env(&[("DEVICE_MANAGER", "mdev"), ("MDEV_BINARY", "/m"), ("MDEV_CONF", "/c")]),
            &utils
        ),
        DeviceManager::Mdev { mdev: "/m".to_string(), conf: some("/c") }
    );
    assert_eq!(
        DeviceManager::from_env(&env(&[("DEVICE_MANAGER", "mdevd")]), &None),
        DeviceManager::Mdevd {
            mdevd: "mdevd".to_string(),
            coldplug: "mdevd-coldplug".to_string(),
            conf: None,
        }
    );
    assert_eq!(
        DeviceManager::from_env(
            &env(&[
                ("DEVICE_MANAGER", "mdevd"),
                ("MDEVD_BINARY", "/d"),
                ("MDEVD_COLDPLUG_BINARY", "/p"),
                ("MDEV_CONF", "/c"),
            ]),
            &None
        ),
        DeviceManager::Mdevd {
            mdevd: "/d".to_string(),
            coldplug: "/p".to_string(),
            conf: some("/c"),
        }
    );
    assert_eq!(
        DeviceManager::from_env(
            &env(&[
                ("DEVICE_MANAGER", "other"),
                ("UDEV_BINARY", "/d"),
                ("UDEVADM_BINARY", "/a"),
                ("udevRules", "/r"),
            ]),
            &utils
        ),
        DeviceManager::Udev {
            udevd: "/d".to_string(),
            udevadm: "/a".to_string(),
            rules: some("/r"),
        }
    );
}

#[test]
fn the_first_entry_of_a_variable_counts() {
    let vars = env(&[("A", "1"), ("B", ""), ("A", "2")]);
    assert_eq!(env_get(&vars, "A"), some("1"));
    assert_eq!(env_get(&vars, "B"), some(""));
    assert_eq!(env_get(&vars, "C"), None);
}
