//! Mounting bcachefs, whose devices may come up one by one: `mount.bcachefs` is
//! run again and again until it succeeds or a time limit is reached.
use vstd::prelude::*;

use crate::paths::quote_path;
#[allow(unused_imports)]
use crate::paths::quoted;
use crate::script::{command, log_step, must_step, no_steps, push_step, Command, Op, Step};
#[allow(unused_imports)]
use crate::script::{
    all_goes_well, exits_are_fine, log, must, performed, vital_are, CheckView, CommandView, OpView,
    Outcome, StepView,
};
use crate::text::{
    cat2, cat3, cat4, decimal_text, join_texts, push_text, split_lines, starts_with, trim,
};
#[allow(unused_imports)]
use crate::text::{
    decimal, has_prefix, join, lemma_contains_push, lemma_take_next, lines, trimmed,
};

verus! {

/// How long a mount pauses between two attempts, in milliseconds.
pub const RETRY_MILLIS: u64 = 500;

/// The options that `mount.bcachefs` is given: those that are not empty and not
/// marked `x-`.
pub open spec fn bcachefs_options(opts: Seq<Seq<char>>) -> Seq<Seq<char>>
    decreases opts.len(),
{
    if opts.len() == 0 {
        Seq::empty()
    } else {
        let front = bcachefs_options(opts.drop_last());
        if has_prefix(opts.last(), "x-"@) || opts.last().len() == 0 {
            front
        } else {
            front.push(opts.last())
        }
    }
}

/// One attempt to mount.
pub open spec fn bcachefs_command(
    device: Seq<char>,
    mountpoint: Seq<char>,
    opts: Seq<Seq<char>>,
) -> CommandView {
    let given = bcachefs_options(opts);
    CommandView {
        program: "mount.bcachefs"@,
        args: if given.len() == 0 {
            seq![device, mountpoint]
        } else {
            seq!["-o"@, join(given, ","@), device, mountpoint]
        },
    }
}

/// The steps before the first attempt.
pub open spec fn prepare_steps(device: Seq<char>, mountpoint: Seq<char>) -> Seq<StepView> {
    seq![
        must(
            OpView::CreateDir(mountpoint),
            "Failed to create mountpoint: "@ + quoted(mountpoint),
        ),
        log("Mounting bcachefs "@ + device + " at "@ + quoted(mountpoint)),
    ]
}

/// What a program said: its errors, then its output on a line of its own,
/// without white space at the ends.
pub open spec fn said(stderr: Seq<char>, stdout: Seq<char>) -> Seq<char> {
    trimmed(
        if stdout.len() == 0 {
            stderr
        } else if stderr.len() == 0 {
            stdout
        } else {
            stderr + "\n"@ + stdout
        },
    )
}

/// The steps that log what the program said, line by line.
pub open spec fn said_steps(ls: Seq<Seq<char>>) -> Seq<StepView>
    decreases ls.len(),
{
    if ls.len() == 0 {
        Seq::empty()
    } else {
        said_steps(ls.drop_last()).push(log("mount.bcachefs: "@ + ls.last()))
    }
}

/// A time in whole seconds, as a duration is written.
pub open spec fn seconds_text(seconds: u64) -> Seq<char> {
    if seconds == 0 {
        "0ns"@
    } else {
        decimal(seconds as nat) + "s"@
    }
}

/// How an attempt ended.
#[derive(Debug, PartialEq, Eq)]
pub enum Attempt {
    /// The program could not be run.
    NotRun,
    Succeeded,
    /// The program ended otherwise: how, and what it said.
    Failed { status: String, stderr: String, stdout: String },
}

pub enum AttemptView {
    NotRun,
    Succeeded,
    Failed { status: Seq<char>, stderr: Seq<char>, stdout: Seq<char> },
}

impl DeepView for Attempt {
    type V = AttemptView;

    open spec fn deep_view(&self) -> AttemptView {
        match self {
            Attempt::NotRun => AttemptView::NotRun,
            Attempt::Succeeded => AttemptView::Succeeded,
            Attempt::Failed { status, stderr, stdout } => AttemptView::Failed {
                status: status@,
                stderr: stderr@,
                stdout: stdout@,
            },
        }
    }
}

/// What follows from an attempt.
#[derive(Debug, PartialEq, Eq)]
pub enum Verdict {
    Mounted,
    /// Perform the steps and fail with the message.
    Fail { steps: Vec<Step>, message: String },
    /// Perform the steps, pause and try again.
    Retry { steps: Vec<Step> },
}

pub enum VerdictView {
    Mounted,
    Fail { steps: Seq<StepView>, message: Seq<char> },
    Retry { steps: Seq<StepView> },
}

impl DeepView for Verdict {
    type V = VerdictView;

    open spec fn deep_view(&self) -> VerdictView {
        match self {
            Verdict::Mounted => VerdictView::Mounted,
            Verdict::Fail { steps, message } => VerdictView::Fail {
                steps: steps.deep_view(),
                message: message@,
            },
            Verdict::Retry { steps } => VerdictView::Retry { steps: steps.deep_view() },
        }
    }
}

/// What follows from an attempt, given the time since the first one in whole
/// milliseconds. Without a time limit there is one attempt.
pub open spec fn bcachefs_verdict(
    device: Seq<char>,
    mountpoint: Seq<char>,
    timeout_secs: Option<u64>,
    attempt: AttemptView,
    elapsed_millis: u64,
) -> VerdictView {
    match attempt {
        AttemptView::NotRun => VerdictView::Fail {
            steps: Seq::empty(),
            message: "Failed to spawn mount.bcachefs"@,
        },
        AttemptView::Succeeded => VerdictView::Mounted,
        AttemptView::Failed { status, stderr, stdout } => {
            let output = said_steps(lines(said(stderr, stdout)));
            match timeout_secs {
                None => VerdictView::Fail {
                    steps: output,
                    message: "mount.bcachefs "@ + device + " "@ + quoted(mountpoint)
                        + " exited with "@ + status,
                },
                Some(seconds) => if elapsed_millis >= seconds * 1000 {
                    VerdictView::Fail {
                        steps: output,
                        message: "mount.bcachefs "@ + device + " "@ + quoted(mountpoint)
                            + " failed after "@ + seconds_text(seconds) + ": last exit "@ + status,
                    }
                } else {
                    VerdictView::Retry {
                        steps: seq![
                            log(
                                "mount.bcachefs "@ + device + " not ready (exit "@ + status
                                    + "), retrying..."@,
                            ),
                        ] + output,
                    }
                },
            }
        },
    }
}

/// A mount of bcachefs: what goes before the first attempt, and the attempt.
#[derive(Debug, PartialEq, Eq)]
pub struct BcachefsMount {
    pub device: String,
    pub mountpoint: String,
    pub options: Vec<String>,
    pub timeout_secs: Option<u64>,
}

fn seconds_duration(seconds: u64) -> (r: String)
    ensures
        r@ == seconds_text(seconds),
{
    if seconds == 0 {
        "0ns".to_owned()
    } else {
        cat2(decimal_text(seconds).as_str(), "s")
    }
}

fn combine(stderr: &str, stdout: &str) -> (r: String)
    ensures
        r@ == said(stderr@, stdout@),
{
    if stdout.is_empty() {
        trim(stderr)
    } else if stderr.is_empty() {
        trim(stdout)
    } else {
        trim(cat3(stderr, "\n", stdout).as_str())
    }
}

fn log_output(stderr: &str, stdout: &str) -> (r: Vec<Step>)
    ensures
        r.deep_view() == said_steps(lines(said(stderr@, stdout@))),
{
    let ls = split_lines(combine(stderr, stdout).as_str());
    let mut steps = no_steps();
    let mut i: usize = 0;
    while i < ls.len()
        invariant
            i <= ls@.len(),
            steps.deep_view() == said_steps(ls.deep_view().take(i as int)),
        decreases ls.len() - i,
    {
        proof {
            lemma_take_next(ls.deep_view(), i as int);
        }
        push_step(&mut steps, log_step(cat2("mount.bcachefs: ", ls[i].as_str()).as_str()));
        i = i + 1;
    }
    assert(ls.deep_view().take(ls@.len() as int) =~= ls.deep_view());
    steps
}

/// Begins to mount bcachefs at a mount point. `timeout_secs` says how long it is
/// tried.
pub fn mount_bcachefs(
    device: &str,
    mountpoint: &str,
    options: Vec<String>,
    timeout_secs: Option<u64>,
) -> (r: BcachefsMount)
    ensures
        r.device@ == device@,
        r.mountpoint@ == mountpoint@,
        r.options.deep_view() == options.deep_view(),
        r.timeout_secs == timeout_secs,
{
    BcachefsMount {
        device: device.to_owned(),
        mountpoint: mountpoint.to_owned(),
        options,
        timeout_secs,
    }
}

impl BcachefsMount {
    /// What goes before the first attempt.
    pub fn prepare(&self) -> (r: Vec<Step>)
        ensures
            r.deep_view() == prepare_steps(self.device@, self.mountpoint@),
    {
        let mut steps = no_steps();
        let at = quote_path(self.mountpoint.as_str());
        push_step(
            &mut steps,
            must_step(
                Op::CreateDir(self.mountpoint.clone()),
                cat2("Failed to create mountpoint: ", at.as_str()).as_str(),
            ),
        );
        let message = cat4("Mounting bcachefs ", self.device.as_str(), " at ", at.as_str());
        push_step(&mut steps, log_step(message.as_str()));
        assert(steps.deep_view() =~= prepare_steps(self.device@, self.mountpoint@));
        steps
    }

    /// One attempt.
    pub fn attempt(&self) -> (r: Command)
        ensures
            r.deep_view() == bcachefs_command(
                self.device@,
                self.mountpoint@,
                self.options.deep_view(),
            ),
    {
        let mut given: Vec<String> = Vec::new();
        let mut i: usize = 0;
        assert(given.deep_view() =~= bcachefs_options(self.options.deep_view().take(0)));
        while i < self.options.len()
            invariant
                i <= self.options@.len(),
                given.deep_view() == bcachefs_options(self.options.deep_view().take(i as int)),
            decreases self.options.len() - i,
        {
            proof {
                lemma_take_next(self.options.deep_view(), i as int);
            }
            let opt = self.options[i].as_str();
            if !starts_with(opt, "x-") && !opt.is_empty() {
                push_text(&mut given, opt.to_owned());
            }
            i = i + 1;
        }
        assert(self.options.deep_view().take(self.options@.len() as int)
            =~= self.options.deep_view());
        let mut args: Vec<String> = Vec::new();
        assert(args.deep_view() =~= Seq::<Seq<char>>::empty());
        if given.len() > 0 {
            push_text(&mut args, "-o".to_owned());
            push_text(&mut args, join_texts(&given, ","));
        }
        push_text(&mut args, self.device.clone());
        push_text(&mut args, self.mountpoint.clone());
        let r = command("mount.bcachefs", args);
        assert(r.deep_view().args =~= bcachefs_command(
            self.device@,
            self.mountpoint@,
            self.options.deep_view(),
        ).args);
        r
    }

    /// What follows from an attempt, given the time since the first one.
    pub fn judge(&self, attempt: &Attempt, elapsed_millis: u64) -> (r: Verdict)
        ensures
            r.deep_view() == bcachefs_verdict(
                self.device@,
                self.mountpoint@,
                self.timeout_secs,
                attempt.deep_view(),
                elapsed_millis,
            ),
    {
        match attempt {
            Attempt::NotRun => Verdict::Fail {
                steps: no_steps(),
                message: "Failed to spawn mount.bcachefs".to_owned(),
            },
            Attempt::Succeeded => Verdict::Mounted,
            Attempt::Failed { status, stderr, stdout } => {
                let mut output = log_output(stderr.as_str(), stdout.as_str());
                let head = cat4(
                    "mount.bcachefs ",
                    self.device.as_str(),
                    " ",
                    quote_path(self.mountpoint.as_str()).as_str(),
                );
                match self.timeout_secs {
                    None => Verdict::Fail {
                        steps: output,
                        message: cat3(head.as_str(), " exited with ", status.as_str()),
                    },
                    Some(seconds) => if elapsed_millis / 1000 >= seconds {
                        let middle = cat4(
                            head.as_str(),
                            " failed after ",
                            seconds_duration(seconds).as_str(),
                            ": last exit ",
                        );
                        Verdict::Fail {
                            steps: output,
                            message: cat2(middle.as_str(), status.as_str()),
                        }
                    } else {
                        let mut steps = no_steps();
                        let start = cat4(
                            "mount.bcachefs ",
                            self.device.as_str(),
                            " not ready (exit ",
                            status.as_str(),
                        );
                        let message = cat2(start.as_str(), "), retrying...");
                        push_step(&mut steps, log_step(message.as_str()));
                        let ghost first = steps.deep_view();
                        let ghost added = output.deep_view();
                        steps.append(&mut output);
                        assert(steps.deep_view() =~= first + added);
                        assert(first =~= seq![
                            log(
                                "mount.bcachefs "@ + self.device@ + " not ready (exit "@ + status@
                                    + "), retrying..."@,
                            ),
                        ]);
                        Verdict::Retry { steps }
                    },
                }
            },
        }
    }
}

// ---------------------------------------------------------------------------
// Laws
// ---------------------------------------------------------------------------
/// An attempt is repeated exactly where it ran and failed before the time limit;
/// without a limit none is.
pub proof fn lemma_retries(
    device: Seq<char>,
    mountpoint: Seq<char>,
    timeout_secs: Option<u64>,
    attempt: AttemptView,
    elapsed_millis: u64,
)
    ensures
        bcachefs_verdict(device, mountpoint, timeout_secs, attempt, elapsed_millis) is Retry
            <==> attempt is Failed && (timeout_secs matches Some(seconds) && elapsed_millis
            < seconds * 1000),
        bcachefs_verdict(device, mountpoint, timeout_secs, attempt, elapsed_millis) is Mounted
            <==> attempt is Succeeded,
{
}

/// An attempt mounts the device at the mount point, in this order, with every
/// option that is not empty and not marked `x-`, in their order.
pub proof fn lemma_attempt(device: Seq<char>, mountpoint: Seq<char>, opts: Seq<Seq<char>>)
    requires
        forall|i: int|
            0 <= i < opts.len() ==> (#[trigger] opts[i]).len() > 0 && !has_prefix(opts[i], "x-"@),
    ensures
        bcachefs_command(device, mountpoint, opts) == (CommandView {
            program: "mount.bcachefs"@,
            args: if opts.len() == 0 {
                seq![device, mountpoint]
            } else {
                seq!["-o"@, join(opts, ","@), device, mountpoint]
            },
        }),
{
    lemma_all_given(opts);
}

proof fn lemma_all_given(opts: Seq<Seq<char>>)
    requires
        forall|i: int|
            0 <= i < opts.len() ==> (#[trigger] opts[i]).len() > 0 && !has_prefix(opts[i], "x-"@),
    ensures
        bcachefs_options(opts) == opts,
    decreases opts.len(),
{
    if opts.len() > 0 {
        let front = opts.drop_last();
        assert forall|i: int| 0 <= i < front.len() implies (#[trigger] front[i]).len() > 0
            && !has_prefix(front[i], "x-"@) by {
            assert(front[i] == opts[i]);
        }
        lemma_all_given(front);
        assert(opts[opts.len() - 1] == opts.last());
        assert(front.push(opts.last()) =~= opts);
    } else {
        assert(opts =~= Seq::empty());
    }
}

/// No option that is empty or marked `x-` is handed on, and no other one is lost.
pub proof fn lemma_given_options(opts: Seq<Seq<char>>, opt: Seq<char>)
    ensures
        bcachefs_options(opts).contains(opt) <==> opts.contains(opt) && opt.len() > 0
            && !has_prefix(opt, "x-"@),
    decreases opts.len(),
{
    if opts.len() > 0 {
        let front = opts.drop_last();
        lemma_given_options(front, opt);
        assert(opts =~= front.push(opts.last()));
        lemma_contains_push(front, opts.last(), opt);
        lemma_contains_push(bcachefs_options(front), opts.last(), opt);
    }
}

/// The mount point is there before the first attempt.
pub proof fn lemma_mountpoint_before_attempt(
    device: Seq<char>,
    mountpoint: Seq<char>,
    holds: spec_fn(CheckView) -> bool,
    outcome: spec_fn(OpView) -> Outcome,
)
    requires
        all_goes_well(outcome),
    ensures
        ({
            let ops = performed(prepare_steps(device, mountpoint), 0, holds, outcome);
            ops.len() == 2 && ops[0] == OpView::CreateDir(mountpoint) && ops[1] is Log
        }),
{
    let steps = prepare_steps(device, mountpoint);
    assert(performed(steps, 2, holds, outcome) == Seq::<OpView>::empty());
    assert(performed(steps, 1, holds, outcome).len() == 1);
    assert(performed(steps, 0, holds, outcome).len() == 2);
}

/// What the program said is logged, its errors first: nothing is lost where it said
/// something on both ways.
pub proof fn lemma_said(stderr: Seq<char>, stdout: Seq<char>)
    ensures
        said(stderr, Seq::empty()) == trimmed(stderr),
        said(Seq::empty(), stdout) == trimmed(stdout),
        stderr.len() > 0 && stdout.len() > 0 ==> said(stderr, stdout) == trimmed(
            stderr + seq!['\n'] + stdout,
        ),
{
    reveal_strlit("\n");
    assert("\n"@ =~= seq!['\n']);
    if stdout.len() == 0 {
        assert(stdout =~= Seq::empty());
    }
}

/// Each line is logged.
pub proof fn lemma_said_lines(ls: Seq<Seq<char>>)
    ensures
        said_steps(ls) == ls.map_values(|line: Seq<char>| log("mount.bcachefs: "@ + line)),
    decreases ls.len(),
{
    if ls.len() > 0 {
        lemma_said_lines(ls.drop_last());
    }
    assert(said_steps(ls) =~= ls.map_values(|line: Seq<char>| log("mount.bcachefs: "@ + line)));
}

/// The error of a mount that failed says how the last attempt ended.
pub proof fn lemma_error_of_mount(
    device: Seq<char>,
    mountpoint: Seq<char>,
    timeout_secs: Option<u64>,
    status: Seq<char>,
    stderr: Seq<char>,
    stdout: Seq<char>,
    elapsed_millis: u64,
)
    ensures
        ({
            let v = bcachefs_verdict(
                device,
                mountpoint,
                timeout_secs,
                AttemptView::Failed { status, stderr, stdout },
                elapsed_millis,
            );
            &&& v is Fail ==> status.is_suffix_of(v->message) && v->Fail_steps == said_steps(
                lines(said(stderr, stdout)),
            )
            &&& v is Retry ==> v->Retry_steps.len() == said_steps(
                lines(said(stderr, stdout)),
            ).len() + 1
        }),
        bcachefs_verdict(device, mountpoint, timeout_secs, AttemptView::NotRun, elapsed_millis)
            is Fail,
{
}

/// A mount point that cannot be created is an error.
pub proof fn lemma_vital_mountpoint(device: Seq<char>, mountpoint: Seq<char>)
    ensures
        vital_are(prepare_steps(device, mountpoint), |op: OpView| op is CreateDir),
        exits_are_fine(prepare_steps(device, mountpoint)),
{
    let steps = prepare_steps(device, mountpoint);
    assert(steps.len() == 2);
}

/// A mount is tried about twice a second.
pub proof fn lemma_pause_between_attempts()
    ensures
        2 * RETRY_MILLIS == 1000,
{
}

} // verus!
