//! The configuration: environment variables, and the command-line arguments
//! that override some of them.
use vstd::prelude::*;

use crate::device_manager::DeviceManager;
#[allow(unused_imports)]
use crate::device_manager::chosen_manager;
use crate::env::{env_get, EnvVar};
#[allow(unused_imports)]
use crate::env::{env_value, lemma_variable};
use crate::text::{same_text, split_words};
#[allow(unused_imports)]
use crate::text::words;

verus! {

/// The configuration of the bootstrap.
#[derive(Debug, PartialEq, Eq)]
pub struct Stage1Config {
    pub target_root: String,
    pub extra_utils: Option<String>,
    pub kernel_modules: Vec<String>,
    pub resume_device: Option<String>,
    pub resume_devices: Vec<String>,
    pub fs_info: Option<String>,
    pub pre_fail_commands: Option<String>,
    pub pre_device_commands: Option<String>,
    pub pre_lvm_commands: Option<String>,
    pub post_device_commands: Option<String>,
    pub post_resume_commands: Option<String>,
    pub post_mount_commands: Option<String>,
    pub early_mount_script: Option<String>,
    pub link_units: Option<String>,
    pub check_journaling_fs: bool,
    pub set_host_id: Option<String>,
    pub distro_name: String,
    pub device_manager: DeviceManager,
    pub link_units_dest: String,
}

/// A text that is set, or its default.
pub open spec fn set_or(set: Option<Seq<char>>, default: Seq<char>) -> Seq<char> {
    match set {
        Some(text) => text,
        None => default,
    }
}

/// The words of a variable; none where it is not set.
pub open spec fn words_of(set: Option<Seq<char>>) -> Seq<Seq<char>> {
    match set {
        Some(text) => words(text),
        None => Seq::empty(),
    }
}

/// Whether a variable that switches something on is set, and to neither `0` nor
/// `false`.
pub open spec fn opted_in(set: Option<Seq<char>>) -> bool {
    match set {
        Some(text) => text != "0"@ && text != "false"@,
        None => false,
    }
}

/// What the command line overrides.
pub struct Overrides {
    pub target_root: Option<Seq<char>>,
    pub extra_utils: Option<Seq<char>>,
    pub distro_name: Option<Seq<char>>,
}

/// The earlier of two values counts only where there is no later one.
pub open spec fn unless_later(later: Option<Seq<char>>, value: Seq<char>) -> Option<Seq<char>> {
    match later {
        Some(v) => Some(v),
        None => Some(value),
    }
}

/// What the arguments from `from` on override. An option takes the argument
/// behind it as its value; without one it counts for nothing, as does every
/// other argument.
pub open spec fn overrides(args: Seq<Seq<char>>, from: int) -> Overrides
    decreases args.len() - from,
{
    if from < 0 || from >= args.len() {
        Overrides { target_root: None, extra_utils: None, distro_name: None }
    } else if from + 1 < args.len() && (args[from] == "--target-root"@ || args[from] == "-t"@) {
        let later = overrides(args, from + 2);
        Overrides { target_root: unless_later(later.target_root, args[from + 1]), ..later }
    } else if from + 1 < args.len() && args[from] == "--extra-utils"@ {
        let later = overrides(args, from + 2);
        Overrides { extra_utils: unless_later(later.extra_utils, args[from + 1]), ..later }
    } else if from + 1 < args.len() && args[from] == "--distro-name"@ {
        let later = overrides(args, from + 2);
        Overrides { distro_name: unless_later(later.distro_name, args[from + 1]), ..later }
    } else {
        overrides(args, from + 1)
    }
}

impl Stage1Config {
    /// Whether the parts that the command line cannot override are those of the
    /// environment.
    pub open spec fn fixed_by(self, env: Seq<EnvVar>) -> bool {
        &&& self.kernel_modules.deep_view() == words_of(env_value(env, "kernelModules"@))
        &&& self.resume_device.deep_view() == env_value(env, "resumeDevice"@)
        &&& self.resume_devices.deep_view() == words_of(env_value(env, "resumeDevices"@))
        &&& self.fs_info.deep_view() == env_value(env, "fsInfo"@)
        &&& self.pre_fail_commands.deep_view() == env_value(env, "preFailCommands"@)
        &&& self.pre_device_commands.deep_view() == env_value(env, "preDeviceCommands"@)
        &&& self.pre_lvm_commands.deep_view() == env_value(env, "preLVMCommands"@)
        &&& self.post_device_commands.deep_view() == env_value(env, "postDeviceCommands"@)
        &&& self.post_resume_commands.deep_view() == env_value(env, "postResumeCommands"@)
        &&& self.post_mount_commands.deep_view() == env_value(env, "postMountCommands"@)
        &&& self.early_mount_script.deep_view() == env_value(env, "earlyMountScript"@)
        &&& self.link_units.deep_view() == env_value(env, "linkUnits"@)
        &&& self.check_journaling_fs == opted_in(env_value(env, "checkJournalingFS"@))
        &&& self.set_host_id.deep_view() == env_value(env, "HOST_ID"@)
        &&& self.device_manager@ == chosen_manager(env, env_value(env, "extraUtils"@))
        &&& self.link_units_dest@ == set_or(
            env_value(env, "LINK_UNITS_DEST"@),
            "/etc/systemd/network"@,
        )
    }

    /// Whether this is the configuration that an environment and the overrides
    /// of a command line make.
    pub open spec fn made_by(self, env: Seq<EnvVar>, over: Overrides) -> bool {
        &&& self.fixed_by(env)
        &&& self.target_root@ == set_or(
            over.target_root,
            set_or(env_value(env, "targetRoot"@), "/mnt-root"@),
        )
        &&& self.extra_utils.deep_view() == match over.extra_utils {
            Some(path) => Some(path),
            None => env_value(env, "extraUtils"@),
        }
        &&& self.distro_name@ == set_or(
            over.distro_name,
            set_or(env_value(env, "distroName"@), "NixOS"@),
        )
    }

    /// The configuration of an environment. Journaling filesystems are checked
    /// only where the environment asks for it.
    pub fn from_env(env: &Vec<EnvVar>) -> (r: Self)
        ensures
            r.made_by(
                env@,
                Overrides { target_root: None, extra_utils: None, distro_name: None },
            ),
    {
        let extra_utils = env_get(env, "extraUtils");
        let device_manager = DeviceManager::from_env(env, &extra_utils);
        Stage1Config {
            target_root: env_or(env, "targetRoot", "/mnt-root"),
            extra_utils,
            kernel_modules: env_words(env, "kernelModules"),
            resume_device: env_get(env, "resumeDevice"),
            resume_devices: env_words(env, "resumeDevices"),
            fs_info: env_get(env, "fsInfo"),
            pre_fail_commands: env_get(env, "preFailCommands"),
            pre_device_commands: env_get(env, "preDeviceCommands"),
            pre_lvm_commands: env_get(env, "preLVMCommands"),
            post_device_commands: env_get(env, "postDeviceCommands"),
            post_resume_commands: env_get(env, "postResumeCommands"),
            post_mount_commands: env_get(env, "postMountCommands"),
            early_mount_script: env_get(env, "earlyMountScript"),
            link_units: env_get(env, "linkUnits"),
            check_journaling_fs: env_opted_in(env, "checkJournalingFS"),
            set_host_id: env_get(env, "HOST_ID"),
            distro_name: env_or(env, "distroName", "NixOS"),
            device_manager,
            link_units_dest: env_or(env, "LINK_UNITS_DEST", "/etc/systemd/network"),
        }
    }
}

fn env_or(env: &Vec<EnvVar>, name: &str, default: &str) -> (r: String)
    ensures
        r@ == set_or(env_value(env@, name@), default@),
{
    match env_get(env, name) {
        Some(text) => text,
        None => default.to_owned(),
    }
}

fn env_words(env: &Vec<EnvVar>, name: &str) -> (r: Vec<String>)
    ensures
        r.deep_view() == words_of(env_value(env@, name@)),
{
    match env_get(env, name) {
        Some(text) => split_words(text.as_str()),
        None => {
            let none: Vec<String> = Vec::new();
            assert(none.deep_view() =~= Seq::<Seq<char>>::empty());
            none
        },
    }
}

fn env_opted_in(env: &Vec<EnvVar>, name: &str) -> (r: bool)
    ensures
        r == opted_in(env_value(env@, name@)),
{
    match env_get(env, name) {
        Some(text) => !same_text(text.as_str(), "0") && !same_text(text.as_str(), "false"),
        None => false,
    }
}

/// What a command line overrides: the arguments behind the program's name count.
pub open spec fn given_overrides(args: Seq<Seq<char>>) -> Overrides {
    overrides(args, 1)
}

/// The configuration: that of the environment, with what the arguments behind
/// the program's name override.
pub fn parse_args(args: &[String], env: &Vec<EnvVar>) -> (r: Stage1Config)
    ensures
        r.made_by(env@, given_overrides(args.deep_view())),
{
    let mut config = Stage1Config::from_env(env);
    let ghost all = args.deep_view();
    let ghost over = overrides(all, 1);
    let ghost start = config;
    let mut i: usize = 1;
    while i < args.len()
        invariant
            all == args.deep_view(),
            1 <= i,
            i <= args@.len() + 1,
            config.fixed_by(env@),
            set_or(overrides(all, i as int).target_root, config.target_root@) == set_or(
                over.target_root,
                start.target_root@,
            ),
            (match overrides(all, i as int).extra_utils {
                Some(path) => Some(path),
                None => config.extra_utils.deep_view(),
            }) == (match over.extra_utils {
                Some(path) => Some(path),
                None => start.extra_utils.deep_view(),
            }),
            set_or(overrides(all, i as int).distro_name, config.distro_name@) == set_or(
                over.distro_name,
                start.distro_name@,
            ),
        decreases args.len() + 1 - i,
    {
        let arg = args[i].as_str();
        assert(all[i as int] == arg@);
        if args.len() - i > 1 {
            assert(all[i + 1] == args@[i + 1]@);
            if same_text(arg, "--target-root") || same_text(arg, "-t") {
                config.target_root = args[i + 1].clone();
                i = i + 1;
            } else if same_text(arg, "--extra-utils") {
                config.extra_utils = Some(args[i + 1].clone());
                i = i + 1;
            } else if same_text(arg, "--distro-name") {
                config.distro_name = args[i + 1].clone();
                i = i + 1;
            }
        }
        i = i + 1;
    }
    config
}

// ---------------------------------------------------------------------------
// Laws
// ---------------------------------------------------------------------------
/// Whether an entry is the first one of its name in an environment.
pub open spec fn sets(env: Seq<EnvVar>, i: int, name: Seq<char>, value: Seq<char>) -> bool {
    &&& 0 <= i < env.len()
    &&& env[i].name@ == name
    &&& env[i].value@ == value
    &&& forall|j: int| 0 <= j < i ==> (#[trigger] env[j]).name@ != name
}

/// Each part of the configuration is what its own variable of the environment
/// says.
pub proof fn lemma_variables_are_obeyed(
    config: Stage1Config,
    env: Seq<EnvVar>,
    over: Overrides,
    i: int,
    name: Seq<char>,
    value: Seq<char>,
)
    requires
        config.made_by(env, over),
        sets(env, i, name, value),
    ensures
        name == "resumeDevice"@ ==> config.resume_device.deep_view() == Some(value),
        name == "fsInfo"@ ==> config.fs_info.deep_view() == Some(value),
        name == "preFailCommands"@ ==> config.pre_fail_commands.deep_view() == Some(value),
        name == "preDeviceCommands"@ ==> config.pre_device_commands.deep_view() == Some(value),
        name == "preLVMCommands"@ ==> config.pre_lvm_commands.deep_view() == Some(value),
        name == "postDeviceCommands"@ ==> config.post_device_commands.deep_view() == Some(value),
        name == "postResumeCommands"@ ==> config.post_resume_commands.deep_view() == Some(value),
        name == "postMountCommands"@ ==> config.post_mount_commands.deep_view() == Some(value),
        name == "earlyMountScript"@ ==> config.early_mount_script.deep_view() == Some(value),
        name == "linkUnits"@ ==> config.link_units.deep_view() == Some(value),
        name == "HOST_ID"@ ==> config.set_host_id.deep_view() == Some(value),
        name == "kernelModules"@ ==> config.kernel_modules.deep_view() == words(value),
        name == "resumeDevices"@ ==> config.resume_devices.deep_view() == words(value),
        name == "checkJournalingFS"@ ==> (config.check_journaling_fs <==> value != "0"@ && value
            != "false"@),
        name == "LINK_UNITS_DEST"@ ==> config.link_units_dest@ == value,
        name == "targetRoot"@ && over.target_root is None ==> config.target_root@ == value,
        name == "extraUtils"@ && over.extra_utils is None ==> config.extra_utils.deep_view()
            == Some(value),
        name == "distroName"@ && over.distro_name is None ==> config.distro_name@ == value,
{
    lemma_variable(env, name, i);
}

/// What the environment does not set is left out, or has its usual value;
/// journaling filesystems are then not checked.
pub proof fn lemma_unset_variables(
    config: Stage1Config,
    env: Seq<EnvVar>,
    over: Overrides,
    name: Seq<char>,
)
    requires
        config.made_by(env, over),
        forall|j: int| 0 <= j < env.len() ==> (#[trigger] env[j]).name@ != name,
    ensures
        name == "resumeDevice"@ ==> config.resume_device is None,
        name == "fsInfo"@ ==> config.fs_info is None,
        name == "preFailCommands"@ ==> config.pre_fail_commands is None,
        name == "preDeviceCommands"@ ==> config.pre_device_commands is None,
        name == "preLVMCommands"@ ==> config.pre_lvm_commands is None,
        name == "postDeviceCommands"@ ==> config.post_device_commands is None,
        name == "postResumeCommands"@ ==> config.post_resume_commands is None,
        name == "postMountCommands"@ ==> config.post_mount_commands is None,
        name == "earlyMountScript"@ ==> config.early_mount_script is None,
        name == "linkUnits"@ ==> config.link_units is None,
        name == "HOST_ID"@ ==> config.set_host_id is None,
        name == "kernelModules"@ ==> config.kernel_modules.deep_view().len() == 0,
        name == "resumeDevices"@ ==> config.resume_devices.deep_view().len() == 0,
        name == "checkJournalingFS"@ ==> !config.check_journaling_fs,
        name == "LINK_UNITS_DEST"@ ==> config.link_units_dest@ == "/etc/systemd/network"@,
        name == "targetRoot"@ && over.target_root is None ==> config.target_root@ == "/mnt-root"@,
        name == "extraUtils"@ && over.extra_utils is None ==> config.extra_utils is None,
        name == "distroName"@ && over.distro_name is None ==> config.distro_name@ == "NixOS"@,
{
    lemma_variable(env, name, 0);
}

/// What the command line says goes before what the environment says, and touches
/// nothing else.
pub proof fn lemma_command_line_goes_first(
    config: Stage1Config,
    plain: Stage1Config,
    env: Seq<EnvVar>,
    over: Overrides,
)
    requires
        config.made_by(env, over),
        plain.made_by(env, Overrides { target_root: None, extra_utils: None, distro_name: None }),
    ensures
        over.target_root is Some ==> config.target_root@ == over.target_root->0,
        over.extra_utils is Some ==> config.extra_utils.deep_view() == over.extra_utils,
        over.distro_name is Some ==> config.distro_name@ == over.distro_name->0,
        over.target_root is None ==> config.target_root@ == plain.target_root@,
        over.extra_utils is None ==> config.extra_utils.deep_view()
            == plain.extra_utils.deep_view(),
        over.distro_name is None ==> config.distro_name@ == plain.distro_name@,
        config.device_manager@ == plain.device_manager@,
        config.kernel_modules.deep_view() == plain.kernel_modules.deep_view(),
        config.check_journaling_fs == plain.check_journaling_fs,
        config.link_units_dest@ == plain.link_units_dest@,
        config.resume_devices.deep_view() == plain.resume_devices.deep_view(),
        config.resume_device.deep_view() == plain.resume_device.deep_view(),
        config.fs_info.deep_view() == plain.fs_info.deep_view(),
        config.pre_fail_commands.deep_view() == plain.pre_fail_commands.deep_view(),
        config.pre_device_commands.deep_view() == plain.pre_device_commands.deep_view(),
        config.pre_lvm_commands.deep_view() == plain.pre_lvm_commands.deep_view(),
        config.post_device_commands.deep_view() == plain.post_device_commands.deep_view(),
        config.post_resume_commands.deep_view() == plain.post_resume_commands.deep_view(),
        config.post_mount_commands.deep_view() == plain.post_mount_commands.deep_view(),
        config.early_mount_script.deep_view() == plain.early_mount_script.deep_view(),
        config.link_units.deep_view() == plain.link_units.deep_view(),
        config.set_host_id.deep_view() == plain.set_host_id.deep_view(),
{
}

/// The programs of the device manager are looked for among the extra utilities
/// that the environment names.
pub proof fn lemma_manager_of_environment(
    config: Stage1Config,
    env: Seq<EnvVar>,
    over: Overrides,
)
    requires
        config.made_by(env, over),
    ensures
        config.device_manager@ == chosen_manager(env, env_value(env, "extraUtils"@)),
{
}

/// An option at the end of the command line, with its value behind it, is obeyed,
/// whatever stands before it, unless that is an option that lacks its value; and it
/// leaves the others as they are.
pub proof fn lemma_last_option_wins(
    args: Seq<Seq<char>>,
    from: int,
    option: Seq<char>,
    value: Seq<char>,
)
    requires
        0 <= from <= args.len(),
        forall|i: int|
            from <= i < args.len() ==> !is_option(#[trigger] args[i]) || i + 1 < args.len(),
        forall|i: int|
            from <= i < args.len() - 1 && is_option(#[trigger] args[i]) ==> !is_option(args[i + 1]),
        is_option(option),
        !is_option(value),
    ensures
        ({
            let before = overrides(args, from);
            let now = overrides(args.push(option).push(value), from);
            &&& option == "--target-root"@ || option == "-t"@ ==> now == (Overrides {
                target_root: Some(value),
                ..before
            })
            &&& option == "--extra-utils"@ ==> now == (Overrides {
                extra_utils: Some(value),
                ..before
            })
            &&& option == "--distro-name"@ ==> now == (Overrides {
                distro_name: Some(value),
                ..before
            })
        }),
    decreases args.len() - from,
{
    lemma_options_differ();
    let all = args.push(option).push(value);
    let n = args.len() as int;
    assert(all[n] == option && all[n + 1] == value);
    if from == n {
        reveal_with_fuel(overrides, 2);
        assert(overrides(all, n + 2) == (Overrides {
            target_root: None,
            extra_utils: None,
            distro_name: None,
        }));
    } else {
        assert(all[from] == args[from]);
        if is_option(args[from]) {
            assert(all[from + 1] == args[from + 1]);
            lemma_last_option_wins(args, from + 2, option, value);
        } else {
            lemma_last_option_wins(args, from + 1, option, value);
        }
    }
}

/// Whether an argument is an option that takes a value.
pub open spec fn is_option(arg: Seq<char>) -> bool {
    ||| arg == "--target-root"@
    ||| arg == "-t"@
    ||| arg == "--extra-utils"@
    ||| arg == "--distro-name"@
}

proof fn lemma_options_differ()
    ensures
        "--target-root"@ != "--extra-utils"@,
        "--target-root"@ != "--distro-name"@,
        "-t"@ != "--extra-utils"@,
        "-t"@ != "--distro-name"@,
        "--extra-utils"@ != "--distro-name"@,
{
    reveal_strlit("--target-root");
    reveal_strlit("-t");
    reveal_strlit("--extra-utils");
    reveal_strlit("--distro-name");
    assert("--target-root"@[2] == 't');
    assert("--extra-utils"@[2] == 'e');
    assert("--distro-name"@[2] == 'd');
    assert("-t"@.len() == 2 && "--extra-utils"@.len() == 13 && "--distro-name"@.len() == 13);
}

/// Without an option nothing is overridden.
pub proof fn lemma_no_options(args: Seq<Seq<char>>, from: int)
    requires
        forall|i: int| from <= i < args.len() ==> !is_option(#[trigger] args[i]),
    ensures
        overrides(args, from) == (Overrides {
            target_root: None,
            extra_utils: None,
            distro_name: None,
        }),
    decreases args.len() - from,
{
    if 0 <= from < args.len() {
        lemma_no_options(args, from + 1);
    }
}

/// The name of the program says nothing, whatever it is; the first argument behind
/// it counts as the others do.
pub proof fn lemma_program_name_says_nothing(
    program: Seq<char>,
    other: Seq<char>,
    option: Seq<char>,
    value: Seq<char>,
    rest: Seq<Seq<char>>,
)
    ensures
        given_overrides(seq![program] + rest) == given_overrides(seq![other] + rest),
        given_overrides(seq![program, "--target-root"@, value]).target_root == Some(value),
        given_overrides(seq![program, "-t"@, value]).target_root == Some(value),
        given_overrides(seq![program, "--extra-utils"@, value]).extra_utils == Some(value),
        given_overrides(seq![program, "--distro-name"@, value]).distro_name == Some(value),
        given_overrides(seq![program, option]) == given_overrides(seq![program]),
{
    lemma_options_differ();
    lemma_same_arguments(seq![program] + rest, seq![other] + rest, 1);
    reveal_with_fuel(overrides, 3);
}

proof fn lemma_same_arguments(a: Seq<Seq<char>>, b: Seq<Seq<char>>, from: int)
    requires
        a.len() == b.len(),
        from >= 1,
        forall|i: int| from <= i < a.len() ==> #[trigger] a[i] == b[i],
    ensures
        overrides(a, from) == overrides(b, from),
    decreases a.len() - from,
{
    if from < a.len() {
        assert(a[from] == b[from]);
        lemma_same_arguments(a, b, from + 1);
        if from + 1 < a.len() {
            assert(a[from + 1] == b[from + 1]);
            lemma_same_arguments(a, b, from + 2);
        }
    }
}

} // verus!
