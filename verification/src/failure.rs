//! Messages, and what happens where the boot fails.
use vstd::prelude::*;

use crate::cmdline::KernelCmdline;
use crate::script::{
    attempt_step, if_holds_step, log_step, no_steps, push_step, command, Check, Op, Step,
};
#[allow(unused_imports)]
use crate::script::{
    attempt, if_holds, log, performed, script_fails, CheckView, CommandView, OpView, Outcome,
    StepView,
};
use crate::text::{cat2, cat3, push_text, starts_with};
#[allow(unused_imports)]
use crate::text::{has_prefix, lemma_prefix};

verus! {

// ---------------------------------------------------------------------------
// Messages
// ---------------------------------------------------------------------------
/// The level of a message in the kernel's log: error, warning or information.
pub open spec fn kmsg_level(msg: Seq<char>) -> Seq<char> {
    if has_prefix(msg, "FAIL:"@) {
        "<3>"@
    } else if has_prefix(msg, "Warning:"@) {
        "<4>"@
    } else {
        "<6>"@
    }
}

/// A message as it stands on the console.
pub open spec fn console_message(msg: Seq<char>) -> Seq<char> {
    "stage-1-init: "@ + msg
}

/// A message as it is handed to the kernel's log.
pub open spec fn kernel_message(msg: Seq<char>) -> Seq<char> {
    kmsg_level(msg) + console_message(msg)
}

/// A message as it stands on the console, and as it is handed to the kernel's
/// log.
pub fn log_message(msg: &str) -> (r: (String, String))
    ensures
        r.0@ == console_message(msg@),
        r.1@ == kernel_message(msg@),
{
    let level = if starts_with(msg, "FAIL:") {
        "<3>"
    } else if starts_with(msg, "Warning:") {
        "<4>"
    } else {
        "<6>"
    };
    let line = cat2("stage-1-init: ", msg);
    let kernel_line = cat2(level, line.as_str());
    (line, kernel_line)
}

/// The greeting of the bootstrap.
pub open spec fn greeting_of(distro_name: Seq<char>) -> Seq<char> {
    "<<< "@ + distro_name + " Stage 1 >>>"@
}

/// The greeting of the bootstrap.
pub fn greeting(distro_name: &str) -> (r: String)
    ensures
        r@ == greeting_of(distro_name@),
{
    cat3("<<< ", distro_name, " Stage 1 >>>")
}

// ---------------------------------------------------------------------------
// Failure
// ---------------------------------------------------------------------------
/// What happens where the boot fails.
#[derive(Debug, Clone, Copy, PartialEq, Eq, Structural)]
pub enum FailAction {
    /// A shell is started, and the machine halted after it.
    Shell,
    /// The kernel is made to panic.
    Panic,
    /// The machine is restarted after so many seconds.
    Restart { seconds: u64 },
}

/// Why a boot comes to a stop.
#[derive(Debug, Clone, Copy, PartialEq, Eq, Structural)]
pub enum StopReason {
    /// Something failed.
    Failure,
    /// A checkpoint that the operator asked for was reached.
    Checkpoint,
}

/// What happens where a boot comes to a stop. A checkpoint is there for a look
/// around, so it always starts the shell.
pub open spec fn fail_action(
    reason: StopReason,
    shell_on_fail: bool,
    debug1: bool,
    panic_on_fail: bool,
) -> FailAction {
    if reason == StopReason::Checkpoint || shell_on_fail || debug1 {
        FailAction::Shell
    } else if panic_on_fail {
        FailAction::Panic
    } else {
        FailAction::Restart { seconds: 10 }
    }
}

/// The steps that log why a boot comes to a stop.
pub open spec fn fail_steps(text: Seq<char>) -> Seq<StepView> {
    seq![log("FAIL: "@ + text)]
}

/// What happens where a boot comes to a stop, with the steps that log why.
pub fn fail(text: &str, reason: StopReason, cmdline: &KernelCmdline) -> (r: (Vec<Step>, FailAction))
    ensures
        r.0.deep_view() == fail_steps(text@),
        r.1 == fail_action(reason, cmdline.shell_on_fail, cmdline.debug1, cmdline.panic_on_fail),
{
    let mut steps = no_steps();
    push_step(&mut steps, log_step(cat2("FAIL: ", text).as_str()));
    assert(steps.deep_view() =~= fail_steps(text@));
    let action = if reason == StopReason::Checkpoint || cmdline.shell_on_fail || cmdline.debug1 {
        FailAction::Shell
    } else if cmdline.panic_on_fail {
        FailAction::Panic
    } else {
        FailAction::Restart { seconds: 10 }
    };
    (steps, action)
}

/// The step that makes the kernel panic.
pub open spec fn panic_steps() -> Seq<StepView> {
    seq![attempt(OpView::WriteFile { path: "/proc/sysrq-trigger"@, content: "c"@ })]
}

/// Makes the kernel panic.
pub fn panic_kernel() -> (r: Vec<Step>)
    ensures
        r.deep_view() == panic_steps(),
{
    let mut steps = no_steps();
    push_step(
        &mut steps,
        attempt_step(
            Op::WriteFile { path: "/proc/sysrq-trigger".to_owned(), content: "c".to_owned() },
        ),
    );
    assert(steps.deep_view() =~= panic_steps());
    steps
}

/// The steps before the recovery shell: the commands for that case, where they
/// are set and there.
pub open spec fn pre_fail_steps(commands: Option<Seq<char>>) -> Seq<StepView> {
    match commands {
        Some(path) => seq![
            if_holds(CheckView::Exists(path), 1),
            attempt(OpView::Run(CommandView { program: path, args: Seq::empty() })),
        ],
        None => Seq::empty(),
    }
}

/// What is said before the recovery shell.
pub open spec fn recovery_banner(reason: Seq<char>) -> Seq<Seq<char>> {
    seq![
        "\n"@,
        "========================================"@,
        "Boot failed: "@ + reason,
        "Starting recovery shell..."@,
        "========================================"@,
        "\n"@,
    ]
}

/// The recovery shell: what is said before it, the steps before it, the program,
/// and its prompt.
#[derive(Debug, PartialEq, Eq)]
pub struct RecoveryShell {
    pub banner: Vec<String>,
    pub steps: Vec<Step>,
    pub shell: String,
    pub prompt: String,
}

/// The program of the recovery shell: the one that the environment names, else the
/// usual one.
pub open spec fn recovery_program(shell: Option<Seq<char>>) -> Seq<char> {
    match shell {
        Some(path) => path,
        None => "/bin/sh"@,
    }
}

/// The recovery shell; `shell` is the one that the environment names.
pub fn start_recovery_shell(
    reason: &str,
    pre_fail_commands: &Option<String>,
    shell: &Option<String>,
) -> (r: RecoveryShell)
    ensures
        r.banner.deep_view() == recovery_banner(reason@),
        r.steps.deep_view() == pre_fail_steps(pre_fail_commands.deep_view()),
        r.shell@ == recovery_program(shell.deep_view()),
        r.prompt@ == "(initrd) $ "@,
{
    let mut banner: Vec<String> = Vec::new();
    assert(banner.deep_view() =~= Seq::<Seq<char>>::empty());
    push_text(&mut banner, "\n".to_owned());
    push_text(&mut banner, "========================================".to_owned());
    push_text(&mut banner, cat2("Boot failed: ", reason));
    push_text(&mut banner, "Starting recovery shell...".to_owned());
    push_text(&mut banner, "========================================".to_owned());
    push_text(&mut banner, "\n".to_owned());
    assert(banner.deep_view() =~= recovery_banner(reason@));
    let mut steps = no_steps();
    match pre_fail_commands {
        Some(path) => {
            push_step(&mut steps, if_holds_step(Check::Exists(path.clone()), 1));
            let none: Vec<String> = Vec::new();
            assert(none.deep_view() =~= Seq::<Seq<char>>::empty());
            push_step(&mut steps, attempt_step(Op::Run(command(path.as_str(), none))));
        },
        None => {},
    }
    assert(steps.deep_view() =~= pre_fail_steps(pre_fail_commands.deep_view()));
    let shell = match shell {
        Some(path) => path.clone(),
        None => "/bin/sh".to_owned(),
    };
    RecoveryShell { banner, steps, shell, prompt: "(initrd) $ ".to_owned() }
}

// ---------------------------------------------------------------------------
// Laws
// ---------------------------------------------------------------------------
/// A checkpoint stops the boot for a look around whatever the policy for
/// failures is.
pub proof fn lemma_checkpoint_starts_shell(shell_on_fail: bool, debug1: bool, panic_on_fail: bool)
    ensures
        fail_action(StopReason::Checkpoint, shell_on_fail, debug1, panic_on_fail)
            == FailAction::Shell,
{
}

/// The shell that was asked for goes before the panic that was asked for.
pub proof fn lemma_fail_policy(shell_on_fail: bool, debug1: bool, panic_on_fail: bool)
    ensures
        ({
            let action = fail_action(StopReason::Failure, shell_on_fail, debug1, panic_on_fail);
            &&& action == FailAction::Shell <==> shell_on_fail || debug1
            &&& action == FailAction::Panic <==> panic_on_fail && !shell_on_fail && !debug1
        }),
{
}

/// The kernel's log shows why a boot failed as an error, a warning as a warning,
/// and everything else as information.
pub proof fn lemma_levels(
    text: Seq<char>,
    holds: spec_fn(CheckView) -> bool,
    outcome: spec_fn(OpView) -> Outcome,
)
    ensures
        ({
            let ops = performed(fail_steps(text), 0, holds, outcome);
            &&& ops.len() == 1
            &&& ops[0] is Log
            &&& kmsg_level(ops[0]->Log_0) == "<3>"@
            &&& ops[0]->Log_0 == "FAIL: "@ + text
        }),
        kmsg_level("Warning:"@ + text) == "<4>"@,
        !has_prefix(text, "FAIL:"@) && !has_prefix(text, "Warning:"@) ==> kmsg_level(text)
            == "<6>"@,
{
    reveal_strlit("FAIL: ");
    reveal_strlit("FAIL:");
    reveal_strlit("Warning:");
    let m = "FAIL: "@ + text;
    assert(m.take(5) =~= "FAIL:"@);
    let w = "Warning:"@ + text;
    assert(w.take(8) =~= "Warning:"@);
    assert(w.take(5)[0] == 'W' && "FAIL:"@[0] == 'F');
    let steps = fail_steps(text);
    assert(performed(steps, 1, holds, outcome) == Seq::<OpView>::empty());
    assert(performed(steps, 0, holds, outcome) =~= seq![OpView::Log(m)]);
}

/// Where neither a shell nor a panic was asked for, a failed boot is tried again.
pub proof fn lemma_failed_boot_is_tried_again()
    ensures
        fail_action(StopReason::Failure, false, false, false) == (FailAction::Restart {
            seconds: 10,
        }),
{
}

/// The commands for a failed boot are run before the recovery shell wherever they
/// are there, and nothing else is. Nothing hangs on how they end.
pub proof fn lemma_commands_before_recovery(
    path: Seq<char>,
    holds: spec_fn(CheckView) -> bool,
    outcome: spec_fn(OpView) -> Outcome,
)
    ensures
        performed(pre_fail_steps(Some(path)), 0, holds, outcome) == if holds(
            CheckView::Exists(path),
        ) {
            seq![OpView::Run(CommandView { program: path, args: Seq::empty() })]
        } else {
            Seq::empty()
        },
        !script_fails(pre_fail_steps(Some(path)), 0, holds, outcome),
        performed(pre_fail_steps(None), 0, holds, outcome) == Seq::<OpView>::empty(),
{
    let steps = pre_fail_steps(Some(path));
    assert(performed(steps, 2, holds, outcome) == Seq::<OpView>::empty());
    assert(performed(steps, 1, holds, outcome) =~= seq![
        OpView::Run(CommandView { program: path, args: Seq::empty() }),
    ]);
    assert(!script_fails(steps, 2, holds, outcome));
    assert(!script_fails(steps, 1, holds, outcome));
}

/// The recovery shell is the one that the environment names, and the operator is
/// told why the boot failed.
pub proof fn lemma_recovery(reason: Seq<char>, shell: Seq<char>)
    ensures
        recovery_program(Some(shell)) == shell,
        recovery_program(None) == "/bin/sh"@,
        recovery_banner(reason).contains("Boot failed: "@ + reason),
{
    assert(recovery_banner(reason)[2] == "Boot failed: "@ + reason);
}

/// The kernel panics by its own trigger, and by nothing else.
pub proof fn lemma_panic(holds: spec_fn(CheckView) -> bool, outcome: spec_fn(OpView) -> Outcome)
    ensures
        performed(panic_steps(), 0, holds, outcome) == seq![
            OpView::WriteFile { path: "/proc/sysrq-trigger"@, content: "c"@ },
        ],
{
    assert(performed(panic_steps(), 1, holds, outcome) == Seq::<OpView>::empty());
    assert(performed(panic_steps(), 0, holds, outcome) =~= seq![
        OpView::WriteFile { path: "/proc/sysrq-trigger"@, content: "c"@ },
    ]);
}

/// A message is the same on the console and in the kernel's log, where its level
/// stands before it. Nothing of it is lost.
pub proof fn lemma_messages(msg: Seq<char>)
    ensures
        msg.is_suffix_of(console_message(msg)),
        has_prefix(console_message(msg), "stage-1-init: "@),
        console_message(msg).is_suffix_of(kernel_message(msg)),
        kernel_message(msg).len() == console_message(msg).len() + 3,
        has_prefix(kernel_message(msg), kmsg_level(msg)),
{
    reveal_strlit("<3>");
    reveal_strlit("<4>");
    reveal_strlit("<6>");
    lemma_prefix(msg, "stage-1-init: "@, msg);
    lemma_prefix(msg, kmsg_level(msg), console_message(msg));
}

/// The greeting names the distribution.
pub proof fn lemma_greeting(distro_name: Seq<char>)
    ensures
        has_prefix(greeting_of(distro_name), "<<< "@ + distro_name),
        " Stage 1 >>>"@.is_suffix_of(greeting_of(distro_name)),
{
    lemma_prefix(distro_name, "<<< "@ + distro_name, " Stage 1 >>>"@);
}

} // verus!
