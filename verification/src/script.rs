//! What the bootstrap asks of the system, written down as a script: a list of
//! steps with the tests that guard them and the answer to each way a step can
//! end. A [`Runner`] walks through a script; whoever drives it performs the
//! requested tests and operations and reports what came of them.
use vstd::prelude::*;

use crate::text::{cat2, cat3, signed_text, texts1, texts2};
#[allow(unused_imports)]
use crate::text::signed_decimal;

verus! {

/// A program to run, with its arguments.
#[derive(Debug, Clone, PartialEq, Eq)]
pub struct Command {
    pub program: String,
    pub args: Vec<String>,
}

pub struct CommandView {
    pub program: Seq<char>,
    pub args: Seq<Seq<char>>,
}

impl DeepView for Command {
    type V = CommandView;

    open spec fn deep_view(&self) -> CommandView {
        CommandView { program: self.program@, args: self.args.deep_view() }
    }
}

/// The arguments of one call of mount(2).
#[derive(Debug, Clone, PartialEq, Eq)]
pub struct MountCall {
    pub source: Option<String>,
    pub target: String,
    pub fstype: Option<String>,
    pub flags: u64,
    pub data: Option<String>,
}

pub struct MountCallView {
    pub source: Option<Seq<char>>,
    pub target: Seq<char>,
    pub fstype: Option<Seq<char>>,
    pub flags: u64,
    pub data: Option<Seq<char>>,
}

impl DeepView for MountCall {
    type V = MountCallView;

    open spec fn deep_view(&self) -> MountCallView {
        MountCallView {
            source: self.source.deep_view(),
            target: self.target@,
            fstype: self.fstype.deep_view(),
            flags: self.flags,
            data: self.data.deep_view(),
        }
    }
}

/// A question about the system.
#[derive(Debug, Clone, PartialEq, Eq)]
pub enum Check {
    /// Something stands at the path, symbolic links followed.
    Exists(String),
    /// A directory stands at the path, symbolic links followed.
    IsDirectory(String),
    /// Something stands at the path, be it a dangling symbolic link.
    Occupied(String),
    /// The path is a mount point.
    Mounted(String),
    /// Something of at least one byte stands at the path, symbolic links followed.
    HasContent(String),
    /// The file of this number is open.
    IsOpen(i32),
}

pub enum CheckView {
    Exists(Seq<char>),
    IsDirectory(Seq<char>),
    Occupied(Seq<char>),
    Mounted(Seq<char>),
    HasContent(Seq<char>),
    IsOpen(i32),
}

impl DeepView for Check {
    type V = CheckView;

    open spec fn deep_view(&self) -> CheckView {
        match self {
            Check::Exists(p) => CheckView::Exists(p@),
            Check::IsDirectory(p) => CheckView::IsDirectory(p@),
            Check::Occupied(p) => CheckView::Occupied(p@),
            Check::Mounted(p) => CheckView::Mounted(p@),
            Check::HasContent(p) => CheckView::HasContent(p@),
            Check::IsOpen(fd) => CheckView::IsOpen(*fd),
        }
    }
}

/// What is sent to a process.
#[derive(Debug, Clone, Copy, PartialEq, Eq, Structural)]
pub enum Signal {
    /// It is asked to end.
    Terminate,
    /// It is ended.
    Kill,
}

/// Something to be done to the system.
#[derive(Debug, Clone, PartialEq, Eq)]
pub enum Op {
    /// Write a message to the log.
    Log(String),
    /// Set an environment variable.
    SetVar { name: String, value: String },
    /// Create a directory and what is missing above it.
    CreateDir(String),
    RemoveFile(String),
    /// Remove a directory with all that lies below it.
    RemoveTree(String),
    WriteFile { path: String, content: String },
    /// Write the bytes of a number in the order of the machine.
    WriteWord { path: String, word: u32 },
    CopyFile { from: String, to: String },
    /// Copy every entry of one directory into another.
    CopyEntries { from: String, to: String },
    /// Copy a directory with all that lies below it.
    CopyTree { from: String, to: String },
    Symlink { target: String, link: String },
    Rename { from: String, to: String },
    /// Move a file or a directory, be it to another filesystem.
    MovePath { from: String, to: String },
    /// Set the permission bits of a path.
    SetMode { path: String, mode: u32 },
    /// Create a character device node.
    MakeNode { path: String, mode: u32, number: u64 },
    Mount(MountCall),
    Run(Command),
    /// Run a program and discard what it says.
    RunQuiet(Command),
    /// Create the pipe over which a daemon reports that it is ready.
    MakeReadyPipe,
    /// Start a daemon with the writing end of that pipe as its descriptor 3.
    SpawnReady(Command),
    /// Wait for one byte on the pipe.
    AwaitReady,
    WaitForDevice { device: String, seconds: u64 },
    /// Check a filesystem.
    CheckFilesystem { device: String, fstype: String },
    /// Mount a filesystem of the configuration.
    MountFilesystem { device: String, mountpoint: String, fstype: String, options: Vec<String> },
    /// Mount a device, or a regular file by a loop device.
    MountDevice { device: String, mountpoint: String, fstype: String, options: Vec<String> },
    /// Link each entry of a directory of secrets.
    LinkSecrets { from: String },
    /// Copy each entry of a directory of secrets.
    CopySecrets { from: String },
    /// Send a signal to every process that may be ended.
    SignalProcesses(Signal),
    Sleep { millis: u64 },
    /// Close a range of file descriptors, both ends included.
    CloseFiles { first: i32, last: i32 },
    /// Make a terminal the standard input, output and error.
    OpenConsole(String),
    ChangeDir(String),
    ChangeRoot(String),
    /// Remove every environment variable.
    ClearEnvironment,
    /// Become another program, with its path as the only argument.
    Execute(String),
}

pub enum OpView {
    Log(Seq<char>),
    SetVar { name: Seq<char>, value: Seq<char> },
    CreateDir(Seq<char>),
    RemoveFile(Seq<char>),
    RemoveTree(Seq<char>),
    WriteFile { path: Seq<char>, content: Seq<char> },
    WriteWord { path: Seq<char>, word: u32 },
    CopyFile { from: Seq<char>, to: Seq<char> },
    CopyEntries { from: Seq<char>, to: Seq<char> },
    CopyTree { from: Seq<char>, to: Seq<char> },
    Symlink { target: Seq<char>, link: Seq<char> },
    Rename { from: Seq<char>, to: Seq<char> },
    MovePath { from: Seq<char>, to: Seq<char> },
    SetMode { path: Seq<char>, mode: u32 },
    MakeNode { path: Seq<char>, mode: u32, number: u64 },
    Mount(MountCallView),
    Run(CommandView),
    RunQuiet(CommandView),
    MakeReadyPipe,
    SpawnReady(CommandView),
    AwaitReady,
    WaitForDevice { device: Seq<char>, seconds: u64 },
    CheckFilesystem { device: Seq<char>, fstype: Seq<char> },
    MountFilesystem {
        device: Seq<char>,
        mountpoint: Seq<char>,
        fstype: Seq<char>,
        options: Seq<Seq<char>>,
    },
    MountDevice {
        device: Seq<char>,
        mountpoint: Seq<char>,
        fstype: Seq<char>,
        options: Seq<Seq<char>>,
    },
    LinkSecrets { from: Seq<char> },
    CopySecrets { from: Seq<char> },
    SignalProcesses(Signal),
    Sleep { millis: u64 },
    CloseFiles { first: i32, last: i32 },
    OpenConsole(Seq<char>),
    ChangeDir(Seq<char>),
    ChangeRoot(Seq<char>),
    ClearEnvironment,
    Execute(Seq<char>),
}

impl DeepView for Op {
    type V = OpView;

    open spec fn deep_view(&self) -> OpView {
        match self {
            Op::Log(m) => OpView::Log(m@),
            Op::SetVar { name, value } => OpView::SetVar { name: name@, value: value@ },
            Op::CreateDir(p) => OpView::CreateDir(p@),
            Op::RemoveFile(p) => OpView::RemoveFile(p@),
            Op::RemoveTree(p) => OpView::RemoveTree(p@),
            Op::WriteFile { path, content } => OpView::WriteFile { path: path@, content: content@ },
            Op::WriteWord { path, word } => OpView::WriteWord { path: path@, word: *word },
            Op::CopyFile { from, to } => OpView::CopyFile { from: from@, to: to@ },
            Op::CopyEntries { from, to } => OpView::CopyEntries { from: from@, to: to@ },
            Op::CopyTree { from, to } => OpView::CopyTree { from: from@, to: to@ },
            Op::Symlink { target, link } => OpView::Symlink { target: target@, link: link@ },
            Op::Rename { from, to } => OpView::Rename { from: from@, to: to@ },
            Op::MovePath { from, to } => OpView::MovePath { from: from@, to: to@ },
            Op::SetMode { path, mode } => OpView::SetMode { path: path@, mode: *mode },
            Op::MakeNode { path, mode, number } => OpView::MakeNode {
                path: path@,
                mode: *mode,
                number: *number,
            },
            Op::Mount(call) => OpView::Mount(call.deep_view()),
            Op::Run(command) => OpView::Run(command.deep_view()),
            Op::RunQuiet(command) => OpView::RunQuiet(command.deep_view()),
            Op::MakeReadyPipe => OpView::MakeReadyPipe,
            Op::SpawnReady(command) => OpView::SpawnReady(command.deep_view()),
            Op::AwaitReady => OpView::AwaitReady,
            Op::WaitForDevice { device, seconds } => OpView::WaitForDevice {
                device: device@,
                seconds: *seconds,
            },
            Op::CheckFilesystem { device, fstype } => OpView::CheckFilesystem {
                device: device@,
                fstype: fstype@,
            },
            Op::MountFilesystem { device, mountpoint, fstype, options } => {
                OpView::MountFilesystem {
                    device: device@,
                    mountpoint: mountpoint@,
                    fstype: fstype@,
                    options: options.deep_view(),
                }
            },
            Op::MountDevice { device, mountpoint, fstype, options } => OpView::MountDevice {
                device: device@,
                mountpoint: mountpoint@,
                fstype: fstype@,
                options: options.deep_view(),
            },
            Op::LinkSecrets { from } => OpView::LinkSecrets { from: from@ },
            Op::CopySecrets { from } => OpView::CopySecrets { from: from@ },
            Op::SignalProcesses(signal) => OpView::SignalProcesses(*signal),
            Op::Sleep { millis } => OpView::Sleep { millis: *millis },
            Op::CloseFiles { first, last } => OpView::CloseFiles { first: *first, last: *last },
            Op::OpenConsole(path) => OpView::OpenConsole(path@),
            Op::ChangeDir(p) => OpView::ChangeDir(p@),
            Op::ChangeRoot(p) => OpView::ChangeRoot(p@),
            Op::ClearEnvironment => OpView::ClearEnvironment,
            Op::Execute(p) => OpView::Execute(p@),
        }
    }
}

/// What came of an operation.
#[derive(Debug, Clone, Copy, PartialEq, Eq)]
pub enum Outcome {
    Done,
    /// A program ran and ended, with its exit code unless a signal ended it.
    Exited(Option<i32>),
    /// The operation failed; for a program: it could not be run.
    Failed,
}

/// How a script goes on after an operation.
#[derive(Debug, Clone, PartialEq, Eq)]
pub enum Response {
    Continue,
    /// Leave out the rest of the script.
    Finish,
    /// Log the message and go on.
    Log(String),
    /// Log the message followed by the exit code and go on.
    LogCode(String),
    /// Log the message followed by the error and go on.
    LogError(String),
    /// Log the message followed by the error and its causes and go on.
    LogCauses(String),
    /// Stop with the error as it came.
    Raise,
    /// Stop, and let the boot fail for the reason that begins like this and goes
    /// on with the error.
    FailBoot(String),
    /// Stop with this message and the error below it.
    Abort(String),
    /// Stop with this message alone.
    Bail(String),
    /// Stop with this message followed by how the program ended.
    AbortStatus(String),
}

pub enum ResponseView {
    Continue,
    Finish,
    Log(Seq<char>),
    LogCode(Seq<char>),
    LogError(Seq<char>),
    LogCauses(Seq<char>),
    Raise,
    FailBoot(Seq<char>),
    Abort(Seq<char>),
    Bail(Seq<char>),
    AbortStatus(Seq<char>),
}

impl DeepView for Response {
    type V = ResponseView;

    open spec fn deep_view(&self) -> ResponseView {
        match self {
            Response::Continue => ResponseView::Continue,
            Response::Finish => ResponseView::Finish,
            Response::Log(m) => ResponseView::Log(m@),
            Response::LogCode(m) => ResponseView::LogCode(m@),
            Response::LogError(m) => ResponseView::LogError(m@),
            Response::LogCauses(m) => ResponseView::LogCauses(m@),
            Response::FailBoot(m) => ResponseView::FailBoot(m@),
            Response::Raise => ResponseView::Raise,
            Response::Abort(m) => ResponseView::Abort(m@),
            Response::Bail(m) => ResponseView::Bail(m@),
            Response::AbortStatus(m) => ResponseView::AbortStatus(m@),
        }
    }
}

/// One step of a script.
#[derive(Debug, Clone, PartialEq, Eq)]
pub enum Step {
    /// Unless the check comes out as `holds`, leave out the next `skip` steps.
    If { check: Check, holds: bool, skip: usize },
    /// Leave out the next `skip` steps.
    Skip { skip: usize },
    /// Perform an operation. `success` answers to its being done, or to a
    /// program that ended with exit code 0; `exit` to a program that ended
    /// otherwise; `failure` to an operation that failed.
    Do { op: Op, success: Response, exit: Response, failure: Response },
    /// Stop with this message, and the cause below it where there is one.
    Halt { message: String, cause: Option<String> },
}

pub enum StepView {
    If { check: CheckView, holds: bool, skip: usize },
    Skip { skip: usize },
    Do { op: OpView, success: ResponseView, exit: ResponseView, failure: ResponseView },
    Halt { message: Seq<char>, cause: Option<Seq<char>> },
}

impl DeepView for Step {
    type V = StepView;

    open spec fn deep_view(&self) -> StepView {
        match self {
            Step::If { check, holds, skip } => StepView::If {
                check: check.deep_view(),
                holds: *holds,
                skip: *skip,
            },
            Step::Skip { skip } => StepView::Skip { skip: *skip },
            Step::Do { op, success, exit, failure } => StepView::Do {
                op: op.deep_view(),
                success: success.deep_view(),
                exit: exit.deep_view(),
                failure: failure.deep_view(),
            },
            Step::Halt { message, cause } => StepView::Halt {
                message: message@,
                cause: cause.deep_view(),
            },
        }
    }
}

// ---------------------------------------------------------------------------
// Steps of the usual shapes
// ---------------------------------------------------------------------------
/// An operation whose failure stops the script with a message.
pub open spec fn must(op: OpView, context: Seq<char>) -> StepView {
    StepView::Do {
        op,
        success: ResponseView::Continue,
        exit: ResponseView::Continue,
        failure: ResponseView::Abort(context),
    }
}

/// An operation whose failure stops the script as it is.
pub open spec fn should(op: OpView) -> StepView {
    StepView::Do {
        op,
        success: ResponseView::Continue,
        exit: ResponseView::Continue,
        failure: ResponseView::Raise,
    }
}

/// An operation that is tried: nothing hangs on how it ends.
pub open spec fn attempt(op: OpView) -> StepView {
    StepView::Do {
        op,
        success: ResponseView::Continue,
        exit: ResponseView::Continue,
        failure: ResponseView::Continue,
    }
}

pub open spec fn log(message: Seq<char>) -> StepView {
    attempt(OpView::Log(message))
}

/// The next `skip` steps are for the case that the check holds.
pub open spec fn if_holds(check: CheckView, skip: usize) -> StepView {
    StepView::If { check, holds: true, skip }
}

/// The next `skip` steps are for the case that the check does not hold.
pub open spec fn if_fails(check: CheckView, skip: usize) -> StepView {
    StepView::If { check, holds: false, skip }
}

pub fn must_step(op: Op, context: &str) -> (r: Step)
    ensures
        r.deep_view() == must(op.deep_view(), context@),
{
    Step::Do {
        op,
        success: Response::Continue,
        exit: Response::Continue,
        failure: Response::Abort(context.to_owned()),
    }
}

pub fn should_step(op: Op) -> (r: Step)
    ensures
        r.deep_view() == should(op.deep_view()),
{
    Step::Do {
        op,
        success: Response::Continue,
        exit: Response::Continue,
        failure: Response::Raise,
    }
}

pub fn attempt_step(op: Op) -> (r: Step)
    ensures
        r.deep_view() == attempt(op.deep_view()),
{
    Step::Do {
        op,
        success: Response::Continue,
        exit: Response::Continue,
        failure: Response::Continue,
    }
}

pub fn log_step(message: &str) -> (r: Step)
    ensures
        r.deep_view() == log(message@),
{
    attempt_step(Op::Log(message.to_owned()))
}

pub fn if_holds_step(check: Check, skip: usize) -> (r: Step)
    ensures
        r.deep_view() == if_holds(check.deep_view(), skip),
{
    Step::If { check, holds: true, skip }
}

pub fn if_fails_step(check: Check, skip: usize) -> (r: Step)
    ensures
        r.deep_view() == if_fails(check.deep_view(), skip),
{
    Step::If { check, holds: false, skip }
}

/// A halt with a message alone.
pub open spec fn halt(message: Seq<char>) -> StepView {
    StepView::Halt { message, cause: None }
}

/// A halt with a message and the cause below it.
pub open spec fn halt_for(message: Seq<char>, cause: Seq<char>) -> StepView {
    StepView::Halt { message, cause: Some(cause) }
}

pub fn halt_step(message: &str) -> (r: Step)
    ensures
        r.deep_view() == halt(message@),
{
    Step::Halt { message: message.to_owned(), cause: None }
}

pub fn halt_for_step(message: &str, cause: &str) -> (r: Step)
    ensures
        r.deep_view() == halt_for(message@, cause@),
{
    Step::Halt { message: message.to_owned(), cause: Some(cause.to_owned()) }
}

/// A script without steps.
pub fn no_steps() -> (r: Vec<Step>)
    ensures
        r.deep_view() == Seq::<StepView>::empty(),
{
    let v: Vec<Step> = Vec::new();
    assert(v.deep_view() =~= Seq::<StepView>::empty());
    v
}

/// Appends a step to a script.
pub fn push_step(v: &mut Vec<Step>, s: Step)
    ensures
        final(v).deep_view() == old(v).deep_view().push(s.deep_view()),
{
    let ghost before = v.deep_view();
    v.push(s);
    assert(v.deep_view() =~= before.push(s.deep_view()));
}

/// Appends a script to a script.
pub fn append_steps(v: &mut Vec<Step>, mut more: Vec<Step>)
    ensures
        final(v).deep_view() == old(v).deep_view() + more.deep_view(),
{
    let ghost before = v.deep_view();
    let ghost added = more.deep_view();
    v.append(&mut more);
    assert(v.deep_view() =~= before + added);
}

/// A command from its program and arguments.
pub fn command(program: &str, args: Vec<String>) -> (r: Command)
    ensures
        r.deep_view() == (CommandView { program: program@, args: args.deep_view() }),
{
    Command { program: program.to_owned(), args }
}

/// Running a program with one argument.
pub open spec fn command1(program: Seq<char>, a: Seq<char>) -> OpView {
    OpView::Run(CommandView { program, args: seq![a] })
}

/// Running a program with two arguments.
pub open spec fn command2(program: Seq<char>, a: Seq<char>, b: Seq<char>) -> OpView {
    OpView::Run(CommandView { program, args: seq![a, b] })
}

pub fn run1(program: &str, a: &str) -> (r: Op)
    ensures
        r.deep_view() == command1(program@, a@),
{
    Op::Run(command(program, texts1(a)))
}

pub fn run2(program: &str, a: &str, b: &str) -> (r: Op)
    ensures
        r.deep_view() == command2(program@, a@, b@),
{
    Op::Run(command(program, texts2(a, b)))
}

// ---------------------------------------------------------------------------
// Running a script
// ---------------------------------------------------------------------------
/// What a runner asks for next.
#[derive(Debug, PartialEq, Eq)]
pub enum Request<'a> {
    Test(&'a Check),
    Perform(&'a Op),
    /// The script is at its end, or was stopped.
    Finished,
    /// The script stops here with this message, and the cause below it where there
    /// is one.
    Stop { message: &'a String, cause: &'a Option<String> },
}

/// What becomes of the outcome of an operation.
#[derive(Debug, PartialEq, Eq)]
pub enum Reaction {
    Continue,
    /// The script ends here, and well.
    Finish,
    Log(String),
    LogError(String),
    LogCauses(String),
    Raise,
    FailBoot(String),
    Abort(String),
    Bail(String),
    AbortStatus(String),
}

pub enum ReactionView {
    Continue,
    Finish,
    Log(Seq<char>),
    LogError(Seq<char>),
    LogCauses(Seq<char>),
    Raise,
    FailBoot(Seq<char>),
    Abort(Seq<char>),
    Bail(Seq<char>),
    AbortStatus(Seq<char>),
}

impl DeepView for Reaction {
    type V = ReactionView;

    open spec fn deep_view(&self) -> ReactionView {
        match self {
            Reaction::Continue => ReactionView::Continue,
            Reaction::Finish => ReactionView::Finish,
            Reaction::Log(m) => ReactionView::Log(m@),
            Reaction::LogError(m) => ReactionView::LogError(m@),
            Reaction::LogCauses(m) => ReactionView::LogCauses(m@),
            Reaction::FailBoot(m) => ReactionView::FailBoot(m@),
            Reaction::Raise => ReactionView::Raise,
            Reaction::Abort(m) => ReactionView::Abort(m@),
            Reaction::Bail(m) => ReactionView::Bail(m@),
            Reaction::AbortStatus(m) => ReactionView::AbortStatus(m@),
        }
    }
}

impl ReactionView {
    /// Whether the script ends here.
    pub open spec fn stops(self) -> bool {
        self is Finish || self.fails()
    }

    /// Whether the script ends here with an error.
    pub open spec fn fails(self) -> bool {
        self is Raise || self is FailBoot || self is Abort || self is Bail || self is AbortStatus
    }
}

/// The exit code of an outcome, written as an optional number.
pub open spec fn code_text(outcome: Outcome) -> Seq<char> {
    match outcome {
        Outcome::Exited(Some(code)) => "Some("@ + signed_decimal(code as int) + ")"@,
        _ => "None"@,
    }
}

/// Which of a step's three answers an outcome calls for.
pub open spec fn answer_to(
    success: ResponseView,
    exit: ResponseView,
    failure: ResponseView,
    outcome: Outcome,
) -> ResponseView {
    match outcome {
        Outcome::Done => success,
        Outcome::Exited(Some(0)) => success,
        Outcome::Exited(_) => exit,
        Outcome::Failed => failure,
    }
}

/// The reaction to an outcome.
pub open spec fn reaction(step: StepView, outcome: Outcome) -> ReactionView {
    match step {
        StepView::Do { op, success, exit, failure } => match answer_to(
            success,
            exit,
            failure,
            outcome,
        ) {
            ResponseView::Continue => ReactionView::Continue,
            ResponseView::Finish => ReactionView::Finish,
            ResponseView::Log(m) => ReactionView::Log(m),
            ResponseView::LogCode(m) => ReactionView::Log(m + code_text(outcome)),
            ResponseView::LogError(m) => ReactionView::LogError(m),
            ResponseView::LogCauses(m) => ReactionView::LogCauses(m),
            ResponseView::FailBoot(m) => ReactionView::FailBoot(m),
            ResponseView::Raise => ReactionView::Raise,
            ResponseView::Abort(m) => ReactionView::Abort(m),
            ResponseView::Bail(m) => ReactionView::Bail(m),
            ResponseView::AbortStatus(m) => ReactionView::AbortStatus(m),
        },
        _ => ReactionView::Continue,
    }
}

/// The step after `at`, or the end of the script, with `skip` steps left out.
pub open spec fn past(steps: Seq<StepView>, at: int, skip: usize) -> int {
    if at + 1 + skip < steps.len() {
        at + 1 + skip
    } else {
        steps.len() as int
    }
}

/// Where a script stands once unconditional skips are taken.
pub open spec fn settled(steps: Seq<StepView>, at: int) -> int
    decreases steps.len() - at,
{
    if 0 <= at < steps.len() {
        match steps[at] {
            StepView::Skip { skip } => settled(steps, past(steps, at, skip)),
            _ => at,
        }
    } else {
        at
    }
}

/// Where a walk through a script begins.
pub open spec fn beginning(steps: Seq<StepView>) -> int {
    settled(steps, 0)
}

/// Where a walk stands after a test, which came out as `holds`.
pub open spec fn after_test(steps: Seq<StepView>, at: int, holds: bool) -> int {
    settled(
        steps,
        past(
            steps,
            at,
            if holds == steps[at]->If_holds {
                0
            } else {
                steps[at]->If_skip
            },
        ),
    )
}

/// Where a walk stands after an operation.
pub open spec fn after_operation(steps: Seq<StepView>, at: int) -> int {
    settled(steps, past(steps, at, 0))
}

/// Whether a walk is over after an operation that came to `outcome`.
pub open spec fn over_after(step: StepView, outcome: Outcome) -> bool {
    reaction(step, outcome).stops()
}

/// A walk through a script.
pub struct Runner {
    steps: Vec<Step>,
    at: usize,
    stopped: bool,
}

impl Runner {
    /// The script.
    pub closed spec fn steps(self) -> Seq<StepView> {
        self.steps.deep_view()
    }

    /// The step that is due, or the length of the script or more.
    pub closed spec fn at(self) -> int {
        self.at as int
    }

    /// Whether an operation stopped the script.
    pub closed spec fn stopped(self) -> bool {
        self.stopped
    }

    /// The step that is due, where there is one.
    pub open spec fn due(self) -> Option<StepView> {
        if self.stopped() || self.at() >= self.steps().len() {
            None
        } else {
            Some(self.steps()[self.at()])
        }
    }

    #[verifier::type_invariant]
    spec fn valid(self) -> bool {
        settled(self.steps.deep_view(), self.at as int) == self.at
    }

    /// A walk from the beginning of a script.
    pub fn new(steps: Vec<Step>) -> (r: Self)
        ensures
            r.steps() == steps.deep_view(),
            r.at() == beginning(r.steps()),
            !r.stopped(),
            !(r.due() matches Some(StepView::Skip { .. })),
    {
        let at = settle_at(&steps, 0);
        proof {
            lemma_settled(steps.deep_view(), 0);
        }
        Runner { steps, at, stopped: false }
    }

    /// What is due.
    pub fn request(&self) -> (r: Request<'_>)
        ensures
            match self.due() {
                None => r is Finished,
                Some(StepView::If { check, .. }) => r matches Request::Test(c) && c.deep_view()
                    == check,
                Some(StepView::Do { op, .. }) => r matches Request::Perform(o) && o.deep_view()
                    == op,
                Some(StepView::Halt { message, cause }) => {
                    r matches Request::Stop { message: m, cause: c } && m@ == message
                        && c.deep_view() == cause
                },
                Some(StepView::Skip { .. }) => false,
            },
    {
        proof {
            use_type_invariant(self);
            lemma_settled(self.steps.deep_view(), self.at as int);
        }
        if self.stopped || self.at >= self.steps.len() {
            return Request::Finished;
        }
        assert(self.steps.deep_view()[self.at as int] == self.steps@[self.at as int].deep_view());
        match &self.steps[self.at] {
            Step::If { check, .. } => Request::Test(check),
            Step::Do { op, .. } => Request::Perform(op),
            Step::Halt { message, cause } => Request::Stop { message, cause },
            Step::Skip { .. } => Request::Finished,
        }
    }

    /// Goes on after a test that came out as `holds`.
    pub fn answer(&mut self, holds: bool)
        requires
            old(self).due() matches Some(StepView::If { .. }),
        ensures
            final(self).steps() == old(self).steps(),
            !final(self).stopped(),
            final(self).at() == after_test(old(self).steps(), old(self).at(), holds),
            final(self).at() > old(self).at(),
            !(final(self).due() matches Some(StepView::Skip { .. })),
    {
        let ghost all = self.steps.deep_view();
        assert(all[self.at as int] == self.steps@[self.at as int].deep_view());
        let next: usize = match &self.steps[self.at] {
            Step::If { holds: expected, skip, .. } => {
                let left: usize = self.steps.len() - self.at - 1;
                if holds == *expected {
                    self.at + 1
                } else if *skip >= left {
                    self.steps.len()
                } else {
                    self.at + 1 + *skip
                }
            },
            _ => self.at + 1,
        };
        let at = settle_at(&self.steps, next);
        proof {
            lemma_settled(all, next as int);
        }
        self.at = at;
    }

    /// Goes on after an operation that came to `outcome`.
    pub fn settle(&mut self, outcome: Outcome) -> (r: Reaction)
        requires
            old(self).due() matches Some(StepView::Do { .. }),
        ensures
            r.deep_view() == reaction(old(self).due()->0, outcome),
            final(self).steps() == old(self).steps(),
            final(self).stopped() == over_after(old(self).due()->0, outcome),
            final(self).at() == after_operation(old(self).steps(), old(self).at()),
            final(self).at() > old(self).at(),
            !(final(self).due() matches Some(StepView::Skip { .. })),
    {
        let ghost all = self.steps.deep_view();
        let ghost step = all[self.at as int];
        assert(step == self.steps@[self.at as int].deep_view());
        assert(self.at < self.steps.len());
        let next: usize = self.at + 1;
        let r = match &self.steps[self.at] {
            Step::Do { success, exit, failure, .. } => {
                let response = match outcome {
                    Outcome::Done => success,
                    Outcome::Exited(Some(code)) => if code == 0 {
                        success
                    } else {
                        exit
                    },
                    Outcome::Exited(None) => exit,
                    Outcome::Failed => failure,
                };
                match response {
                    Response::Continue => Reaction::Continue,
                    Response::Finish => Reaction::Finish,
                    Response::Log(m) => Reaction::Log(m.clone()),
                    Response::LogCode(m) => Reaction::Log(
                        cat2(m.as_str(), code_message(outcome).as_str()),
                    ),
                    Response::LogError(m) => Reaction::LogError(m.clone()),
                    Response::LogCauses(m) => Reaction::LogCauses(m.clone()),
                    Response::FailBoot(m) => Reaction::FailBoot(m.clone()),
                    Response::Raise => Reaction::Raise,
                    Response::Abort(m) => Reaction::Abort(m.clone()),
                    Response::Bail(m) => Reaction::Bail(m.clone()),
                    Response::AbortStatus(m) => Reaction::AbortStatus(m.clone()),
                }
            },
            _ => Reaction::Continue,
        };
        let at = settle_at(&self.steps, next);
        proof {
            lemma_settled(all, next as int);
        }
        self.at = at;
        self.stopped = matches!(
            r,
            Reaction::Finish | Reaction::Raise | Reaction::FailBoot(_) | Reaction::Abort(_)
                | Reaction::Bail(_) | Reaction::AbortStatus(_)
        );
        r
    }
}

fn code_message(outcome: Outcome) -> (r: String)
    ensures
        r@ == code_text(outcome),
{
    match outcome {
        Outcome::Exited(Some(code)) => cat3("Some(", signed_text(code).as_str(), ")"),
        _ => "None".to_owned(),
    }
}

fn settle_at(steps: &Vec<Step>, from: usize) -> (r: usize)
    requires
        from <= steps@.len(),
    ensures
        r == settled(steps.deep_view(), from as int),
{
    let mut at: usize = from;
    while at < steps.len()
        invariant
            at <= steps@.len(),
            settled(steps.deep_view(), at as int) == settled(steps.deep_view(), from as int),
        decreases steps.len() - at,
    {
        assert(steps.deep_view()[at as int] == steps@[at as int].deep_view());
        match &steps[at] {
            Step::Skip { skip } => {
                let left: usize = steps.len() - at - 1;
                at = if *skip >= left {
                    steps.len()
                } else {
                    at + 1 + *skip
                };
            },
            _ => {
                return at;
            },
        }
    }
    at
}

proof fn lemma_settled(steps: Seq<StepView>, at: int)
    ensures
        settled(steps, at) >= at,
        settled(steps, settled(steps, at)) == settled(steps, at),
        0 <= settled(steps, at) < steps.len() ==> !(steps[settled(steps, at)] is Skip),
    decreases steps.len() - at,
{
    if 0 <= at < steps.len() {
        match steps[at] {
            StepView::Skip { skip } => {
                lemma_settled(steps, past(steps, at, skip));
            },
            _ => {},
        }
    }
}

// ---------------------------------------------------------------------------
// What a script comes to
// ---------------------------------------------------------------------------
/// The operations that a script performs from a step on, in a system that
/// answers checks and operations in the given way.
pub open spec fn performed(
    steps: Seq<StepView>,
    at: int,
    holds: spec_fn(CheckView) -> bool,
    outcome: spec_fn(OpView) -> Outcome,
) -> Seq<OpView>
    decreases steps.len() - at,
{
    if !(0 <= at < steps.len()) {
        Seq::empty()
    } else {
        match steps[at] {
            StepView::Skip { skip } => performed(steps, past(steps, at, skip), holds, outcome),
            StepView::If { check, holds: expected, skip } => performed(
                steps,
                past(
                    steps,
                    at,
                    if holds(check) == expected {
                        0
                    } else {
                        skip
                    },
                ),
                holds,
                outcome,
            ),
            StepView::Do { op, .. } => if reaction(steps[at], outcome(op)).stops() {
                seq![op]
            } else {
                seq![op] + performed(steps, past(steps, at, 0), holds, outcome)
            },
            StepView::Halt { .. } => Seq::empty(),
        }
    }
}

/// Whether a script ends with an error, in such a system.
pub open spec fn script_fails(
    steps: Seq<StepView>,
    at: int,
    holds: spec_fn(CheckView) -> bool,
    outcome: spec_fn(OpView) -> Outcome,
) -> bool
    decreases steps.len() - at,
{
    if !(0 <= at < steps.len()) {
        false
    } else {
        match steps[at] {
            StepView::Skip { skip } => script_fails(steps, past(steps, at, skip), holds, outcome),
            StepView::If { check, holds: expected, skip } => script_fails(
                steps,
                past(
                    steps,
                    at,
                    if holds(check) == expected {
                        0
                    } else {
                        skip
                    },
                ),
                holds,
                outcome,
            ),
            StepView::Do { op, .. } => {
                let r = reaction(steps[at], outcome(op));
                if r.stops() {
                    r.fails()
                } else {
                    script_fails(steps, past(steps, at, 0), holds, outcome)
                }
            },
            StepView::Halt { .. } => true,
        }
    }
}

/// The place at which a [`Runner`] stands comes to the same as the place before
/// the skips it took.
pub proof fn lemma_settling_changes_nothing(
    steps: Seq<StepView>,
    at: int,
    holds: spec_fn(CheckView) -> bool,
    outcome: spec_fn(OpView) -> Outcome,
)
    ensures
        performed(steps, settled(steps, at), holds, outcome) == performed(
            steps,
            at,
            holds,
            outcome,
        ),
        script_fails(steps, settled(steps, at), holds, outcome) == script_fails(
            steps,
            at,
            holds,
            outcome,
        ),
    decreases steps.len() - at,
{
    if 0 <= at < steps.len() {
        match steps[at] {
            StepView::Skip { skip } => {
                lemma_settling_changes_nothing(steps, past(steps, at, skip), holds, outcome);
            },
            _ => {},
        }
    }
}

/// A step of which the failure is not tolerated is the last one that is
/// performed where it fails.
pub proof fn lemma_failure_stops_script(
    steps: Seq<StepView>,
    at: int,
    holds: spec_fn(CheckView) -> bool,
    outcome: spec_fn(OpView) -> Outcome,
)
    requires
        0 <= at < steps.len(),
        steps[at] matches StepView::Do { op, .. } && reaction(steps[at], outcome(op)).fails(),
    ensures
        performed(steps, at, holds, outcome) == seq![steps[at]->Do_op],
        script_fails(steps, at, holds, outcome),
{
}

/// Whether an operation or a halt ends a script before its last step is passed,
/// in such a system.
pub open spec fn script_stops(
    steps: Seq<StepView>,
    at: int,
    holds: spec_fn(CheckView) -> bool,
    outcome: spec_fn(OpView) -> Outcome,
) -> bool
    decreases steps.len() - at,
{
    if !(0 <= at < steps.len()) {
        false
    } else {
        match steps[at] {
            StepView::Skip { skip } => script_stops(steps, past(steps, at, skip), holds, outcome),
            StepView::If { check, holds: expected, skip } => script_stops(
                steps,
                past(
                    steps,
                    at,
                    if holds(check) == expected {
                        0
                    } else {
                        skip
                    },
                ),
                holds,
                outcome,
            ),
            StepView::Do { op, .. } => reaction(steps[at], outcome(op)).stops() || script_stops(
                steps,
                past(steps, at, 0),
                holds,
                outcome,
            ),
            StepView::Halt { .. } => true,
        }
    }
}

/// Whether no step of a script skips beyond its end.
pub open spec fn self_contained(steps: Seq<StepView>) -> bool {
    forall|i: int|
        0 <= i < steps.len() ==> match #[trigger] steps[i] {
            StepView::If { skip, .. } => i + 1 + skip <= steps.len(),
            StepView::Skip { skip } => i + 1 + skip <= steps.len(),
            _ => true,
        }
}

/// A script does the same behind another one.
proof fn lemma_behind_another(
    a: Seq<StepView>,
    b: Seq<StepView>,
    at: int,
    holds: spec_fn(CheckView) -> bool,
    outcome: spec_fn(OpView) -> Outcome,
)
    requires
        0 <= at <= b.len(),
    ensures
        performed(a + b, a.len() + at, holds, outcome) == performed(b, at, holds, outcome),
        script_stops(a + b, a.len() + at, holds, outcome) == script_stops(b, at, holds, outcome),
    decreases b.len() - at,
{
    if at < b.len() {
        assert((a + b)[a.len() + at] == b[at]);
        match b[at] {
            StepView::Skip { skip } => {
                lemma_behind_another(a, b, past(b, at, skip), holds, outcome);
            },
            StepView::If { skip, .. } => {
                lemma_behind_another(a, b, past(b, at, skip), holds, outcome);
                lemma_behind_another(a, b, past(b, at, 0), holds, outcome);
            },
            StepView::Do { .. } => {
                lemma_behind_another(a, b, past(b, at, 0), holds, outcome);
            },
            StepView::Halt { .. } => {},
        }
    }
}

/// Two scripts in a row come to the one and then the other, unless the first one
/// is stopped.
pub proof fn lemma_scripts_in_a_row(
    a: Seq<StepView>,
    b: Seq<StepView>,
    at: int,
    holds: spec_fn(CheckView) -> bool,
    outcome: spec_fn(OpView) -> Outcome,
)
    requires
        self_contained(a),
        0 <= at <= a.len(),
    ensures
        performed(a + b, at, holds, outcome) == if script_stops(a, at, holds, outcome) {
            performed(a, at, holds, outcome)
        } else {
            performed(a, at, holds, outcome) + performed(b, 0, holds, outcome)
        },
        script_stops(a + b, at, holds, outcome) == (script_stops(a, at, holds, outcome)
            || script_stops(b, 0, holds, outcome)),
        self_contained(b) ==> self_contained(a + b),
    decreases a.len() - at,
{
    let both = a + b;
    if self_contained(b) {
        assert forall|i: int| 0 <= i < both.len() implies match #[trigger] both[i] {
            StepView::If { skip, .. } => i + 1 + skip <= both.len(),
            StepView::Skip { skip } => i + 1 + skip <= both.len(),
            _ => true,
        } by {
            if i < a.len() {
                assert(both[i] == a[i]);
            } else {
                assert(both[i] == b[i - a.len()]);
            }
        }
    }
    if at == a.len() {
        lemma_behind_another(a, b, 0, holds, outcome);
        assert(Seq::<OpView>::empty() + performed(b, 0, holds, outcome) =~= performed(
            b,
            0,
            holds,
            outcome,
        ));
    } else {
        assert(both[at] == a[at]);
        match a[at] {
            StepView::Skip { skip } => {
                assert(past(both, at, skip) == past(a, at, skip));
                lemma_scripts_in_a_row(a, b, past(a, at, skip), holds, outcome);
            },
            StepView::If { skip, .. } => {
                assert(past(both, at, skip) == past(a, at, skip));
                assert(past(both, at, 0) == past(a, at, 0));
                lemma_scripts_in_a_row(a, b, past(a, at, skip), holds, outcome);
                lemma_scripts_in_a_row(a, b, past(a, at, 0), holds, outcome);
            },
            StepView::Do { op, .. } => {
                assert(past(both, at, 0) == past(a, at, 0));
                lemma_scripts_in_a_row(a, b, past(a, at, 0), holds, outcome);
                let rest = performed(a, past(a, at, 0), holds, outcome);
                let then = performed(b, 0, holds, outcome);
                assert(seq![op] + (rest + then) =~= seq![op] + rest + then);
            },
            StepView::Halt { .. } => {},
        }
    }
}

impl Runner {
    /// The operations that are still to come on a walk.
    pub open spec fn left(
        self,
        holds: spec_fn(CheckView) -> bool,
        outcome: spec_fn(OpView) -> Outcome,
    ) -> Seq<OpView> {
        if self.stopped() {
            Seq::empty()
        } else {
            performed(self.steps(), self.at(), holds, outcome)
        }
    }

    /// Whether `next` is this walk after the system has met its request.
    pub open spec fn goes_on_as(
        self,
        next: Runner,
        holds: spec_fn(CheckView) -> bool,
        outcome: spec_fn(OpView) -> Outcome,
    ) -> bool {
        &&& next.steps() == self.steps()
        &&& match self.due() {
            Some(StepView::If { check, .. }) => {
                &&& !next.stopped()
                &&& next.at() == after_test(self.steps(), self.at(), holds(check))
            },
            Some(StepView::Do { op, .. }) => {
                &&& next.stopped() == over_after(self.due()->0, outcome(op))
                &&& next.at() == after_operation(self.steps(), self.at())
            },
            _ => false,
        }
    }
}

/// A walk performs just what its script comes to: an operation that it asks for
/// is the next one of the script, a test performs nothing, and where the walk
/// asks for neither nothing is left.
pub proof fn lemma_walk_performs_script(
    walk: Runner,
    next: Runner,
    holds: spec_fn(CheckView) -> bool,
    outcome: spec_fn(OpView) -> Outcome,
)
    requires
        walk.due() is Some ==> !(walk.due()->0 is Skip),
    ensures
        walk.goes_on_as(next, holds, outcome) ==> match walk.due() {
            Some(StepView::Do { op, .. }) => walk.left(holds, outcome) == seq![op] + next.left(
                holds,
                outcome,
            ),
            _ => walk.left(holds, outcome) == next.left(holds, outcome),
        },
        walk.due() is None || walk.due()->0 is Halt ==> walk.left(holds, outcome).len() == 0,
{
    match walk.due() {
        Some(StepView::If { check, holds: expected, skip }) => {
            let to = past(
                walk.steps(),
                walk.at(),
                if holds(check) == expected {
                    0
                } else {
                    skip
                },
            );
            lemma_settling_changes_nothing(walk.steps(), to, holds, outcome);
        },
        Some(StepView::Do { op, .. }) => {
            let to = past(walk.steps(), walk.at(), 0);
            lemma_settling_changes_nothing(walk.steps(), to, holds, outcome);
            assert(seq![op] + Seq::<OpView>::empty() =~= seq![op]);
        },
        _ => {},
    }
}

// ---------------------------------------------------------------------------
// Laws on what is performed
// ---------------------------------------------------------------------------
/// Whether a step is about an operation.
pub open spec fn does(step: StepView, op: OpView) -> bool {
    step matches StepView::Do { op: o, .. } && o == op
}

/// Whether every operation is done.
pub open spec fn all_goes_well(outcome: spec_fn(OpView) -> Outcome) -> bool {
    forall|op: OpView| #[trigger] outcome(op) == Outcome::Done
}

/// Nothing is performed that is not a step of the script.
pub proof fn lemma_only_steps_are_performed(
    steps: Seq<StepView>,
    at: int,
    holds: spec_fn(CheckView) -> bool,
    outcome: spec_fn(OpView) -> Outcome,
    op: OpView,
)
    requires
        0 <= at,
        performed(steps, at, holds, outcome).contains(op),
    ensures
        exists|i: int| at <= i < steps.len() && does(#[trigger] steps[i], op),
    decreases steps.len() - at,
{
    if at < steps.len() {
        match steps[at] {
            StepView::Skip { skip } => {
                lemma_only_steps_are_performed(steps, past(steps, at, skip), holds, outcome, op);
            },
            StepView::If { check, holds: expected, skip } => {
                let to = past(
                    steps,
                    at,
                    if holds(check) == expected {
                        0
                    } else {
                        skip
                    },
                );
                lemma_only_steps_are_performed(steps, to, holds, outcome, op);
            },
            StepView::Do { op: first, .. } => {
                let rest = performed(steps, past(steps, at, 0), holds, outcome);
                if first == op {
                    assert(does(steps[at], op));
                } else {
                    let all = performed(steps, at, holds, outcome);
                    let k = choose|k: int| 0 <= k < all.len() && all[k] == op;
                    assert(!reaction(steps[at], outcome(first)).stops());
                    assert(all[k] == rest[k - 1]);
                    lemma_only_steps_are_performed(steps, past(steps, at, 0), holds, outcome, op);
                }
            },
            StepView::Halt { .. } => {},
        }
    }
}

/// What an operation that fails comes to hangs on how it was asked for: it stops
/// the script with the message that goes with it, or with its own error, or it
/// does not matter. One that is done is never more than done.
pub proof fn lemma_answers_to_failure(op: OpView, context: Seq<char>)
    ensures
        reaction(must(op, context), Outcome::Failed) == ReactionView::Abort(context),
        reaction(should(op), Outcome::Failed) == ReactionView::Raise,
        reaction(attempt(op), Outcome::Failed) == ReactionView::Continue,
        forall|outcome: Outcome|
            outcome != Outcome::Failed ==> #[trigger] reaction(must(op, context), outcome)
                == ReactionView::Continue,
        forall|outcome: Outcome|
            outcome != Outcome::Failed ==> #[trigger] reaction(should(op), outcome)
                == ReactionView::Continue,
        forall|outcome: Outcome| #[trigger]
            reaction(attempt(op), outcome) == ReactionView::Continue,
        does(must(op, context), op) && does(should(op), op) && does(attempt(op), op),
{
}

/// A program that ends with exit code 0 came out as well as an operation that is
/// done; by what other code, or by a signal, it ended makes a difference only to
/// what is said of it.
pub proof fn lemma_exit_codes(step: StepView, code: Option<i32>)
    ensures
        !(reaction(step, Outcome::Done) is Log) ==> reaction(step, Outcome::Exited(Some(0)))
            == reaction(step, Outcome::Done),
        code != Some(0i32) && !(reaction(step, Outcome::Exited(code)) is Log) ==> reaction(
            step,
            Outcome::Exited(code),
        ) == reaction(step, Outcome::Exited(None)),
{
}

/// A step that is guarded is left out unless its check comes out as it should.
pub proof fn lemma_guards(
    check: CheckView,
    op: OpView,
    holds: spec_fn(CheckView) -> bool,
    outcome: spec_fn(OpView) -> Outcome,
)
    ensures
        performed(seq![if_holds(check, 1), attempt(op)], 0, holds, outcome).contains(op)
            <==> holds(check),
        performed(seq![if_fails(check, 1), attempt(op)], 0, holds, outcome).contains(op)
            <==> !holds(check),
{
    let a = seq![if_holds(check, 1), attempt(op)];
    let b = seq![if_fails(check, 1), attempt(op)];
    reveal_with_fuel(performed, 4);
    assert(performed(a, 2, holds, outcome) == Seq::<OpView>::empty());
    assert(performed(b, 2, holds, outcome) == Seq::<OpView>::empty());
    assert(performed(a, 1, holds, outcome) =~= seq![op]);
    assert(performed(b, 1, holds, outcome) =~= seq![op]);
    assert(seq![op][0] == op);
}

/// The operations of a script whose every step is an operation that stops nothing
/// are all performed, in their order.
pub proof fn lemma_nothing_stops(
    steps: Seq<StepView>,
    at: int,
    holds: spec_fn(CheckView) -> bool,
    outcome: spec_fn(OpView) -> Outcome,
)
    requires
        0 <= at <= steps.len(),
        forall|i: int|
            0 <= i < steps.len() ==> (#[trigger] steps[i]) is Do && !reaction(
                steps[i],
                outcome(steps[i]->Do_op),
            ).stops(),
    ensures
        performed(steps, at, holds, outcome) == Seq::new(
            (steps.len() - at) as nat,
            |i: int| steps[at + i]->Do_op,
        ),
        !script_fails(steps, at, holds, outcome),
        !script_stops(steps, at, holds, outcome),
    decreases steps.len() - at,
{
    let ops = Seq::new((steps.len() - at) as nat, |i: int| steps[at + i]->Do_op);
    if at < steps.len() {
        lemma_nothing_stops(steps, at + 1, holds, outcome);
        assert(performed(steps, at, holds, outcome) =~= ops);
    } else {
        assert(performed(steps, at, holds, outcome) =~= ops);
    }
}

/// A walk begins with the whole of its script to come.
pub proof fn lemma_walk_begins_with_all(
    steps: Seq<StepView>,
    holds: spec_fn(CheckView) -> bool,
    outcome: spec_fn(OpView) -> Outcome,
)
    ensures
        performed(steps, beginning(steps), holds, outcome) == performed(steps, 0, holds, outcome),
        script_fails(steps, beginning(steps), holds, outcome) == script_fails(
            steps,
            0,
            holds,
            outcome,
        ),
{
    lemma_settling_changes_nothing(steps, 0, holds, outcome);
}

/// Of the three answers of a step the one that fits the outcome counts, and the
/// others make no difference.
pub proof fn lemma_one_answer_counts(
    op: OpView,
    success: ResponseView,
    exit: ResponseView,
    failure: ResponseView,
    code: Option<i32>,
)
    requires
        code != Some(0i32),
    ensures
        ({
            let step = StepView::Do { op, success, exit, failure };
            let all = |r: ResponseView|
                StepView::Do { op, success: r, exit: r, failure: r };
            &&& reaction(step, Outcome::Done) == reaction(all(success), Outcome::Done)
            &&& reaction(step, Outcome::Exited(code)) == reaction(
                all(exit),
                Outcome::Exited(code),
            )
            &&& reaction(step, Outcome::Failed) == reaction(all(failure), Outcome::Failed)
        }),
{
}

/// What each answer means for the script: five of them end it with an error, one
/// ends it well, and after all others it goes on.
pub proof fn lemma_meaning_of_answers(op: OpView, answer: ResponseView, outcome: Outcome)
    ensures
        ({
            let step = StepView::Do { op, success: answer, exit: answer, failure: answer };
            let r = reaction(step, outcome);
            &&& r.fails() <==> answer is Raise || answer is FailBoot || answer is Abort || answer
                is Bail || answer is AbortStatus
            &&& r.stops() <==> r.fails() || answer is Finish
            &&& answer matches ResponseView::Log(m) ==> r == ReactionView::Log(m)
            &&& answer matches ResponseView::LogError(m) ==> r == ReactionView::LogError(m)
            &&& answer matches ResponseView::LogCauses(m) ==> r == ReactionView::LogCauses(m)
            &&& answer matches ResponseView::FailBoot(m) ==> r == ReactionView::FailBoot(m)
            &&& answer matches ResponseView::Abort(m) ==> r == ReactionView::Abort(m)
            &&& answer matches ResponseView::Bail(m) ==> r == ReactionView::Bail(m)
            &&& answer matches ResponseView::AbortStatus(m) ==> r == ReactionView::AbortStatus(m)
            &&& answer matches ResponseView::LogCode(m) ==> r is Log && m.is_prefix_of(r->Log_0)
            &&& over_after(step, outcome) <==> r.stops()
        }),
{
}

/// A message with an exit code gives the code.
pub proof fn lemma_exit_code_in_message(m: Seq<char>, op: OpView, code: i32)
    ensures
        ({
            let answer = ResponseView::LogCode(m);
            let step = StepView::Do { op, success: answer, exit: answer, failure: answer };
            reaction(step, Outcome::Exited(Some(code))) == ReactionView::Log(
                m + ("Some("@ + signed_decimal(code as int) + ")"@),
            )
        }),
{
}

/// Whether the operations whose failure ends a script with an error are the vital
/// ones and no others.
pub open spec fn vital_are(steps: Seq<StepView>, vital: spec_fn(OpView) -> bool) -> bool {
    forall|i: int|
        0 <= i < steps.len() && (#[trigger] steps[i]) is Do ==> (reaction(
            steps[i],
            Outcome::Failed,
        ).fails() <==> vital(steps[i]->Do_op))
}

/// Whether no program of a script ends it by its exit code.
pub open spec fn exits_are_fine(steps: Seq<StepView>) -> bool {
    forall|i: int, code: Option<i32>|
        0 <= i < steps.len() ==> !(#[trigger] reaction(
            #[trigger] steps[i],
            Outcome::Exited(code),
        )).stops()
}

/// A script in which a vital operation fails ends with an error.
pub proof fn lemma_vital_operation_fails(
    steps: Seq<StepView>,
    at: int,
    vital: spec_fn(OpView) -> bool,
    op: OpView,
    holds: spec_fn(CheckView) -> bool,
    outcome: spec_fn(OpView) -> Outcome,
)
    requires
        vital_are(steps, vital),
        vital(op),
        outcome(op) == Outcome::Failed,
        0 <= at,
        performed(steps, at, holds, outcome).contains(op),
    ensures
        script_fails(steps, at, holds, outcome),
    decreases steps.len() - at,
{
    if at < steps.len() {
        match steps[at] {
            StepView::Skip { skip } => {
                lemma_vital_operation_fails(
                    steps,
                    past(steps, at, skip),
                    vital,
                    op,
                    holds,
                    outcome,
                );
            },
            StepView::If { check, holds: expected, skip } => {
                let to = past(
                    steps,
                    at,
                    if holds(check) == expected {
                        0
                    } else {
                        skip
                    },
                );
                lemma_vital_operation_fails(steps, to, vital, op, holds, outcome);
            },
            StepView::Do { op: first, .. } => {
                if first != op {
                    let all = performed(steps, at, holds, outcome);
                    let rest = performed(steps, past(steps, at, 0), holds, outcome);
                    let k = choose|k: int| 0 <= k < all.len() && all[k] == op;
                    assert(!reaction(steps[at], outcome(first)).stops());
                    assert(all[k] == rest[k - 1]);
                    lemma_vital_operation_fails(
                        steps,
                        past(steps, at, 0),
                        vital,
                        op,
                        holds,
                        outcome,
                    );
                }
            },
            StepView::Halt { .. } => {},
        }
    }
}

/// A script without a halt in which no vital operation fails, and whose answers to
/// success and to exit codes are no errors, does not end with one.
pub proof fn lemma_nothing_vital_fails(
    steps: Seq<StepView>,
    at: int,
    vital: spec_fn(OpView) -> bool,
    holds: spec_fn(CheckView) -> bool,
    outcome: spec_fn(OpView) -> Outcome,
)
    requires
        vital_are(steps, vital),
        exits_are_fine(steps),
        forall|i: int|
            0 <= i < steps.len() ==> !((#[trigger] steps[i]) is Halt) && !reaction(
                steps[i],
                Outcome::Done,
            ).fails(),
        forall|op: OpView| #[trigger] outcome(op) == Outcome::Failed ==> !vital(op),
        0 <= at,
    ensures
        !script_fails(steps, at, holds, outcome),
    decreases steps.len() - at,
{
    if at < steps.len() {
        match steps[at] {
            StepView::Skip { skip } => {
                lemma_nothing_vital_fails(steps, past(steps, at, skip), vital, holds, outcome);
            },
            StepView::If { check, holds: expected, skip } => {
                let to = past(
                    steps,
                    at,
                    if holds(check) == expected {
                        0
                    } else {
                        skip
                    },
                );
                lemma_nothing_vital_fails(steps, to, vital, holds, outcome);
            },
            StepView::Do { op, .. } => {
                match outcome(op) {
                    Outcome::Exited(code) => {
                        assert(!reaction(steps[at], Outcome::Exited(code)).stops());
                    },
                    _ => {},
                }
                lemma_nothing_vital_fails(steps, past(steps, at, 0), vital, holds, outcome);
            },
            StepView::Halt { .. } => {},
        }
    }
}

} // verus!
