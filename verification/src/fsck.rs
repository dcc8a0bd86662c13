//! Checking one filesystem: whether it is checked at all, and what follows from
//! the way the checker ends.
use vstd::prelude::*;

use crate::mount::FileKind;
use crate::script::{command, log_step, no_steps, push_step, Command, Step};
#[allow(unused_imports)]
use crate::script::{log, CommandView, StepView};
use crate::text::{cat2, cat3, cat4, push_text, same_text, signed_text, texts4};
#[allow(unused_imports)]
use crate::text::signed_decimal;

verus! {

/// Where a check stands.
#[derive(Debug, Clone, Copy, PartialEq, Eq, Structural)]
pub enum FsckState {
    /// It is asked whether the device is mounted.
    Mounted,
    /// It is asked what the device is.
    Kind,
    /// The checker runs.
    Check,
    /// There is nothing against a mount.
    Passed,
    /// The checker wants the machine restarted.
    Reboot,
    /// The checker left errors, and ended with this code.
    Unrepaired(i32),
    /// The checker itself failed, with this code.
    ToolFailed(i32),
    /// A signal ended the checker.
    Killed,
    /// The checker could not be run.
    NotRun,
}

/// What a check learns.
#[derive(Debug, Clone, Copy, PartialEq, Eq, Structural)]
pub enum FsckEvent {
    /// Whether the device is mounted.
    Mounted(bool),
    /// What stands at the path of the device.
    Kind(Option<FileKind>),
    /// The checker ended, with its exit code unless a signal ended it.
    Exited(Option<i32>),
    /// The checker could not be run.
    NotRun,
}

/// What follows from the end of the checker. Its exit code is a set of bits: 2
/// asks for a restart, 4 stands for errors that are left, 8 and more for a
/// failure of the checker; 0 and 1 alone are good.
pub open spec fn verdict(code: Option<i32>) -> FsckState {
    match code {
        None => FsckState::Killed,
        Some(code) => if code & 2 != 0 {
            FsckState::Reboot
        } else if code & 4 != 0 {
            FsckState::Unrepaired(code)
        } else if code >= 8 {
            FsckState::ToolFailed(code)
        } else {
            FsckState::Passed
        },
    }
}

/// Where a check stands after an event. What does not belong to a state changes
/// nothing.
pub open spec fn fsck_next(state: FsckState, event: FsckEvent) -> FsckState {
    match (state, event) {
        (FsckState::Mounted, FsckEvent::Mounted(mounted)) => if mounted {
            FsckState::Passed
        } else {
            FsckState::Kind
        },
        (FsckState::Kind, FsckEvent::Kind(kind)) => if kind == Some(FileKind::BlockDevice) {
            FsckState::Check
        } else {
            FsckState::Passed
        },
        (FsckState::Check, FsckEvent::Exited(code)) => verdict(code),
        (FsckState::Check, FsckEvent::NotRun) => FsckState::NotRun,
        _ => state,
    }
}

/// What is logged on an event.
pub open spec fn fsck_log(
    device: Seq<char>,
    fstype: Seq<char>,
    state: FsckState,
    event: FsckEvent,
) -> Seq<StepView> {
    match (state, event) {
        (FsckState::Mounted, FsckEvent::Mounted(mounted)) => if mounted {
            seq![log("skip checking already mounted "@ + device)]
        } else {
            seq![log("Checking "@ + fstype + " filesystem on "@ + device)]
        },
        (FsckState::Check, FsckEvent::Exited(Some(code))) => if verdict(Some(code))
            == FsckState::Reboot {
            seq![log("fsck finished on "@ + device + ", rebooting..."@)]
        } else if code == 1 {
            seq![log("fsck corrected errors on "@ + device)]
        } else {
            Seq::empty()
        },
        _ => Seq::empty(),
    }
}

/// The checker for a filesystem. It shows its progress where it can.
pub open spec fn fsck_command(device: Seq<char>, fstype: Seq<char>) -> CommandView {
    let args = seq!["-a"@, "-t"@, fstype, "-T"@, device];
    CommandView {
        program: "fsck"@,
        args: if fstype == "ext2"@ || fstype == "ext3"@ || fstype == "ext4"@ {
            args.push("-C0"@)
        } else {
            args
        },
    }
}

/// What a check asks for next, or what came of it.
#[derive(Debug, PartialEq, Eq)]
pub enum FsckRequest {
    /// Ask whether the device is mounted.
    IsMounted,
    /// Ask what stands at the path of the device.
    Kind,
    /// Run the checker.
    Run(Command),
    /// The check is over and nothing stands against a mount.
    Passed,
    /// Pause, run the command to restart, and where that does not help fail with
    /// the message.
    Reboot { pause_seconds: u64, command: Command, message: String },
    /// Fail with the message.
    Fail(String),
    /// Fail with the message followed by how the checker ended.
    FailStatus(String),
}

pub enum FsckRequestView {
    IsMounted,
    Kind,
    Run(CommandView),
    Passed,
    Reboot { pause_seconds: u64, command: CommandView, message: Seq<char> },
    Fail(Seq<char>),
    FailStatus(Seq<char>),
}

impl DeepView for FsckRequest {
    type V = FsckRequestView;

    open spec fn deep_view(&self) -> FsckRequestView {
        match self {
            FsckRequest::IsMounted => FsckRequestView::IsMounted,
            FsckRequest::Kind => FsckRequestView::Kind,
            FsckRequest::Run(c) => FsckRequestView::Run(c.deep_view()),
            FsckRequest::Passed => FsckRequestView::Passed,
            FsckRequest::Reboot { pause_seconds, command, message } => FsckRequestView::Reboot {
                pause_seconds: *pause_seconds,
                command: command.deep_view(),
                message: message@,
            },
            FsckRequest::Fail(m) => FsckRequestView::Fail(m@),
            FsckRequest::FailStatus(m) => FsckRequestView::FailStatus(m@),
        }
    }
}

/// What a check asks for in a state.
pub open spec fn fsck_request(
    device: Seq<char>,
    fstype: Seq<char>,
    state: FsckState,
) -> FsckRequestView {
    match state {
        FsckState::Mounted => FsckRequestView::IsMounted,
        FsckState::Kind => FsckRequestView::Kind,
        FsckState::Check => FsckRequestView::Run(fsck_command(device, fstype)),
        FsckState::Passed => FsckRequestView::Passed,
        FsckState::Reboot => FsckRequestView::Reboot {
            pause_seconds: 3,
            command: CommandView { program: "reboot"@, args: seq!["-f"@] },
            message: "fsck requested reboot but `reboot -f` did not halt the system"@,
        },
        FsckState::Unrepaired(code) => FsckRequestView::Fail(
            device + " has unrepaired errors (fsck exit code "@ + signed_decimal(code as int)
                + "); fix manually"@,
        ),
        FsckState::ToolFailed(code) => FsckRequestView::Fail(
            "fsck on "@ + device + " failed with exit code "@ + signed_decimal(code as int),
        ),
        FsckState::Killed => FsckRequestView::FailStatus("fsck was terminated by a signal: "@),
        FsckState::NotRun => FsckRequestView::Fail("Failed to run fsck"@),
    }
}

/// The check of one filesystem.
#[derive(Debug, PartialEq, Eq)]
pub struct Fsck {
    pub device: String,
    pub fstype: String,
    pub state: FsckState,
}

impl Fsck {
    /// Whether this is the beginning of the check of a filesystem.
    pub open spec fn begins(self, device: Seq<char>, fstype: Seq<char>) -> bool {
        &&& self.device@ == device
        &&& self.fstype@ == fstype
        &&& self.state == FsckState::Mounted
    }
}

/// Begins the check of a filesystem.
pub fn run_fsck(device: &str, fstype: &str) -> (r: Fsck)
    ensures
        r.begins(device@, fstype@),
{
    Fsck { device: device.to_owned(), fstype: fstype.to_owned(), state: FsckState::Mounted }
}

/// What follows from the end of the checker.
pub fn fsck_verdict(code: Option<i32>) -> (r: FsckState)
    ensures
        r == verdict(code),
{
    match code {
        None => FsckState::Killed,
        Some(code) => if code & 2 != 0 {
            FsckState::Reboot
        } else if code & 4 != 0 {
            FsckState::Unrepaired(code)
        } else if code >= 8 {
            FsckState::ToolFailed(code)
        } else {
            FsckState::Passed
        },
    }
}

fn checker(device: &str, fstype: &str) -> (r: Command)
    ensures
        r.deep_view() == fsck_command(device@, fstype@),
{
    let mut args = texts4("-a", "-t", fstype, "-T");
    push_text(&mut args, device.to_owned());
    if same_text(fstype, "ext2") || same_text(fstype, "ext3") || same_text(fstype, "ext4") {
        push_text(&mut args, "-C0".to_owned());
    }
    let r = command("fsck", args);
    assert(r.deep_view().args =~= fsck_command(device@, fstype@).args);
    r
}

fn restart() -> (r: Command)
    ensures
        r.deep_view() == (CommandView { program: "reboot"@, args: seq!["-f"@] }),
{
    let mut args: Vec<String> = Vec::new();
    assert(args.deep_view() =~= Seq::<Seq<char>>::empty());
    push_text(&mut args, "-f".to_owned());
    let r = command("reboot", args);
    assert(r.deep_view().args =~= seq!["-f"@]);
    r
}

impl Fsck {
    /// What is due.
    pub fn request(&self) -> (r: FsckRequest)
        ensures
            r.deep_view() == fsck_request(self.device@, self.fstype@, self.state),
    {
        match self.state {
            FsckState::Mounted => FsckRequest::IsMounted,
            FsckState::Kind => FsckRequest::Kind,
            FsckState::Check => FsckRequest::Run(
                checker(self.device.as_str(), self.fstype.as_str()),
            ),
            FsckState::Passed => FsckRequest::Passed,
            FsckState::Reboot => FsckRequest::Reboot {
                pause_seconds: 3,
                command: restart(),
                message: "fsck requested reboot but `reboot -f` did not halt the system".to_owned(),
            },
            FsckState::Unrepaired(code) => FsckRequest::Fail(
                cat4(
                    self.device.as_str(),
                    " has unrepaired errors (fsck exit code ",
                    signed_text(code).as_str(),
                    "); fix manually",
                ),
            ),
            FsckState::ToolFailed(code) => FsckRequest::Fail(
                cat4(
                    "fsck on ",
                    self.device.as_str(),
                    " failed with exit code ",
                    signed_text(code).as_str(),
                ),
            ),
            FsckState::Killed => FsckRequest::FailStatus(
                "fsck was terminated by a signal: ".to_owned(),
            ),
            FsckState::NotRun => FsckRequest::Fail("Failed to run fsck".to_owned()),
        }
    }

    /// Goes on after an event. The steps that come back log it.
    pub fn step(&mut self, event: FsckEvent) -> (r: Vec<Step>)
        ensures
            final(self).device@ == old(self).device@,
            final(self).fstype@ == old(self).fstype@,
            final(self).state == fsck_next(old(self).state, event),
            r.deep_view() == fsck_log(old(self).device@, old(self).fstype@, old(self).state, event),
    {
        let mut steps = no_steps();
        let ghost was = self.state;
        match (self.state, event) {
            (FsckState::Mounted, FsckEvent::Mounted(mounted)) => {
                if mounted {
                    let m = cat2("skip checking already mounted ", self.device.as_str());
                    push_step(&mut steps, log_step(m.as_str()));
                    self.state = FsckState::Passed;
                } else {
                    let m = cat4(
                        "Checking ",
                        self.fstype.as_str(),
                        " filesystem on ",
                        self.device.as_str(),
                    );
                    push_step(&mut steps, log_step(m.as_str()));
                    self.state = FsckState::Kind;
                }
            },
            (FsckState::Kind, FsckEvent::Kind(kind)) => {
                self.state = match kind {
                    Some(kind) => if kind == FileKind::BlockDevice {
                        FsckState::Check
                    } else {
                        FsckState::Passed
                    },
                    None => FsckState::Passed,
                };
            },
            (FsckState::Check, FsckEvent::Exited(code)) => {
                self.state = fsck_verdict(code);
                if self.state == FsckState::Reboot {
                    let m = cat3("fsck finished on ", self.device.as_str(), ", rebooting...");
                    push_step(&mut steps, log_step(m.as_str()));
                } else {
                    match code {
                        Some(code) => if code == 1 {
                            let m = cat2("fsck corrected errors on ", self.device.as_str());
                            push_step(&mut steps, log_step(m.as_str()));
                        },
                        None => {},
                    }
                }
            },
            (FsckState::Check, FsckEvent::NotRun) => {
                self.state = FsckState::NotRun;
            },
            _ => {},
        }
        assert(steps.deep_view() =~= fsck_log(self.device@, self.fstype@, was, event));
        steps
    }
}

// ---------------------------------------------------------------------------
// Laws
// ---------------------------------------------------------------------------
/// Of the exit codes, 0 and 1 alone are good.
pub proof fn lemma_good_codes(code: i32)
    requires
        code >= 0,
    ensures
        verdict(Some(code)) == FsckState::Passed <==> code == 0 || code == 1,
{
    assert(code >= 0 && code & 2 == 0 && code & 4 == 0 && code < 8 ==> code == 0 || code == 1)
        by (bit_vector);
    assert(0i32 & 2 == 0 && 0i32 & 4 == 0 && 1i32 & 2 == 0 && 1i32 & 4 == 0) by (bit_vector);
}

/// A request to restart goes before every other meaning of an exit code, and
/// errors that are left before a failure of the checker.
pub proof fn lemma_bits(code: i32)
    ensures
        code & 2 != 0 ==> verdict(Some(code)) == FsckState::Reboot,
        code & 2 == 0 && code & 4 != 0 ==> verdict(Some(code)) == FsckState::Unrepaired(code),
{
}

/// Where a check stands after a row of events.
pub open spec fn fsck_after(events: Seq<FsckEvent>) -> FsckState
    decreases events.len(),
{
    if events.len() == 0 {
        FsckState::Mounted
    } else {
        fsck_next(fsck_after(events.drop_last()), events.last())
    }
}

/// The checker runs only on a block device that is not mounted.
pub proof fn lemma_runs_on_unmounted_block_device(events: Seq<FsckEvent>)
    ensures
        fsck_after(events) == FsckState::Check ==> events.contains(FsckEvent::Mounted(false))
            && events.contains(FsckEvent::Kind(Some(FileKind::BlockDevice))),
        fsck_after(events) == FsckState::Kind ==> events.contains(FsckEvent::Mounted(false)),
    decreases events.len(),
{
    if events.len() > 0 {
        let front = events.drop_last();
        lemma_runs_on_unmounted_block_device(front);
        assert(events[events.len() - 1] == events.last());
        let unmounted = FsckEvent::Mounted(false);
        let block = FsckEvent::Kind(Some(FileKind::BlockDevice));
        if front.contains(unmounted) {
            let i = choose|i: int| 0 <= i < front.len() && front[i] == unmounted;
            assert(events[i] == unmounted);
        }
        if front.contains(block) {
            let i = choose|i: int| 0 <= i < front.len() && front[i] == block;
            assert(events[i] == block);
        }
    }
}

/// A check that passed found the device mounted, or no block device, or a good
/// exit code.
pub proof fn lemma_passed(events: Seq<FsckEvent>)
    requires
        fsck_after(events) == FsckState::Passed,
    ensures
        exists|i: int|
            0 <= i < events.len() && (match #[trigger] events[i] {
                FsckEvent::Mounted(mounted) => mounted,
                FsckEvent::Kind(kind) => kind != Some(FileKind::BlockDevice),
                FsckEvent::Exited(code) => verdict(code) == FsckState::Passed,
                FsckEvent::NotRun => false,
            }),
    decreases events.len(),
{
    if events.len() > 0 {
        let front = events.drop_last();
        assert(events[events.len() - 1] == events.last());
        if fsck_after(front) == FsckState::Passed {
            lemma_passed(front);
            let i = choose|i: int|
                0 <= i < front.len() && (match #[trigger] front[i] {
                    FsckEvent::Mounted(mounted) => mounted,
                    FsckEvent::Kind(kind) => kind != Some(FileKind::BlockDevice),
                    FsckEvent::Exited(code) => verdict(code) == FsckState::Passed,
                    FsckEvent::NotRun => false,
                });
            assert(events[i] == front[i]);
        }
    }
}

/// The check of a filesystem runs the checker on that device, for that type, where
/// it is a block device that is not mounted: automatically, with progress where the
/// checker can show it.
pub proof fn lemma_checker(check: Fsck, device: Seq<char>, fstype: Seq<char>)
    requires
        check.begins(device, fstype),
    ensures
        ({
            let ask = |state: FsckState| fsck_request(check.device@, check.fstype@, state);
            let free = fsck_next(check.state, FsckEvent::Mounted(false));
            let block = fsck_next(free, FsckEvent::Kind(Some(FileKind::BlockDevice)));
            let plain = seq!["-a"@, "-t"@, fstype, "-T"@, device];
            &&& ask(check.state) is IsMounted
            &&& ask(free) is Kind
            &&& ask(block) == FsckRequestView::Run(
                CommandView {
                    program: "fsck"@,
                    args: if fstype == "ext2"@ || fstype == "ext3"@ || fstype == "ext4"@ {
                        plain.push("-C0"@)
                    } else {
                        plain
                    },
                },
            )
            &&& ask(fsck_next(check.state, FsckEvent::Mounted(true))) is Passed
            &&& ask(fsck_next(free, FsckEvent::Kind(None))) is Passed
            &&& ask(fsck_next(block, FsckEvent::Exited(Some(0)))) is Passed
            &&& ask(fsck_next(block, FsckEvent::Exited(Some(1)))) is Passed
            &&& ask(fsck_next(block, FsckEvent::Exited(None))) is FailStatus
            &&& ask(fsck_next(block, FsckEvent::NotRun)) is Fail
        }),
{
    lemma_good_codes(0);
    lemma_good_codes(1);
}

/// What follows from each exit code: a restart is made where it is asked for, and
/// errors that are left or a checker that failed stand against a mount.
pub proof fn lemma_what_follows(device: Seq<char>, fstype: Seq<char>, code: i32)
    requires
        code >= 0,
    ensures
        ({
            let r = fsck_request(device, fstype, verdict(Some(code)));
            &&& r is Passed <==> code == 0 || code == 1
            &&& code & 2 != 0 ==> r is Reboot && r->command == (CommandView {
                program: "reboot"@,
                args: seq!["-f"@],
            })
            &&& code & 2 == 0 && code & 4 != 0 ==> r is Fail && device.is_prefix_of(r->Fail_0)
            &&& code & 2 == 0 && code & 4 == 0 && code >= 8 ==> r is Fail
        }),
{
    lemma_good_codes(code);
    lemma_bits(code);
}

/// The outcome of a check is final.
pub proof fn lemma_check_is_over(state: FsckState, event: FsckEvent)
    requires
        state != FsckState::Mounted,
        state != FsckState::Kind,
        state != FsckState::Check,
    ensures
        fsck_next(state, event) == state,
{
}

/// What is said of a check names the device, and the error gives the exit code.
pub proof fn lemma_words_on_checks(device: Seq<char>, fstype: Seq<char>, code: i32)
    ensures
        fsck_log(device, fstype, FsckState::Mounted, FsckEvent::Mounted(true)) == seq![
            log("skip checking already mounted "@ + device),
        ],
        fsck_log(device, fstype, FsckState::Mounted, FsckEvent::Mounted(false)) == seq![
            log("Checking "@ + fstype + " filesystem on "@ + device),
        ],
        fsck_log(device, fstype, FsckState::Check, FsckEvent::Exited(Some(1))) == seq![
            log("fsck corrected errors on "@ + device),
        ],
        code & 2 != 0 ==> fsck_log(
            device,
            fstype,
            FsckState::Check,
            FsckEvent::Exited(Some(code)),
        ) == seq![log("fsck finished on "@ + device + ", rebooting..."@)],
        fsck_request(device, fstype, FsckState::Unrepaired(code)) == FsckRequestView::Fail(
            device + " has unrepaired errors (fsck exit code "@ + signed_decimal(code as int)
                + "); fix manually"@,
        ),
        fsck_request(device, fstype, FsckState::ToolFailed(code)) == FsckRequestView::Fail(
            "fsck on "@ + device + " failed with exit code "@ + signed_decimal(code as int),
        ),
{
    lemma_good_codes(1);
}

} // verus!
