//! Ending the processes that are left before the switch to the root filesystem.
use vstd::prelude::*;

use crate::script::{attempt_step, log_step, no_steps, push_step, should_step, Op, Signal, Step};
#[allow(unused_imports)]
use crate::script::{
    all_goes_well, attempt, exits_are_fine, log, performed, should, vital_are, CheckView, OpView,
    Outcome, StepView,
};
use crate::text::{cat3, parse_decimal, signed_text, split_once, starts_with_char};
#[allow(unused_imports)]
use crate::text::{
    before, decimal_i32, lemma_cut, lemma_signed_decimal_reads_back, signed_decimal,
};

verus! {

/// The steps that end the processes that are left: they are asked to end, get
/// half a second for it, and are ended.
pub open spec fn kill_steps() -> Seq<StepView> {
    seq![
        log("Killing remaining processes..."@),
        should(OpView::SignalProcesses(Signal::Terminate)),
        attempt(OpView::Sleep { millis: 500 }),
        should(OpView::SignalProcesses(Signal::Kill)),
    ]
}

/// Ends the processes that are left.
pub fn kill_remaining_processes() -> (r: Vec<Step>)
    ensures
        r.deep_view() == kill_steps(),
{
    let mut steps = no_steps();
    push_step(&mut steps, log_step("Killing remaining processes..."));
    push_step(&mut steps, should_step(Op::SignalProcesses(Signal::Terminate)));
    push_step(&mut steps, attempt_step(Op::Sleep { millis: 500 }));
    push_step(&mut steps, should_step(Op::SignalProcesses(Signal::Kill)));
    assert(steps.deep_view() =~= kill_steps());
    steps
}

/// The process that an entry of `/proc` is about: neither the first one nor this
/// one.
pub open spec fn candidate(name: Seq<char>, my_pid: i32) -> Option<int> {
    match decimal_i32(name) {
        Some(pid) if pid > 1 && pid != my_pid => Some(pid),
        _ => None,
    }
}

/// The process that an entry of `/proc` is about, where it may be ended.
pub fn kill_candidate(name: &str, my_pid: i32) -> (r: Option<i32>)
    ensures
        r is Some == candidate(name@, my_pid) is Some,
        r matches Some(pid) ==> pid == candidate(name@, my_pid)->0,
        r matches Some(pid) ==> pid > 1 && pid != my_pid,
{
    match parse_decimal(name) {
        Some(pid) => if pid > 1 && pid != my_pid {
            Some(pid)
        } else {
            None
        },
        None => None,
    }
}

/// Where the command line of a process is found.
pub open spec fn path_of_cmdline(pid: i32) -> Seq<char> {
    "/proc/"@ + signed_decimal(pid as int) + "/cmdline"@
}

/// Where the command line of a process is found.
pub fn cmdline_path(pid: i32) -> (r: String)
    ensures
        r@ == path_of_cmdline(pid),
{
    cat3("/proc/", signed_text(pid).as_str(), "/cmdline")
}

/// Whether a command line marks its process as one that holds the root
/// filesystem up: its first argument begins with `@`.
pub open spec fn marks_storage_daemon(cmdline: Seq<char>) -> bool {
    before(cmdline, '\0').len() > 0 && before(cmdline, '\0')[0] == '@'
}

/// Whether a process holds the root filesystem up, given its command line where
/// that can be read.
pub fn is_storage_daemon(cmdline: Option<&str>) -> (r: bool)
    ensures
        r == (cmdline matches Some(text) && marks_storage_daemon(text@)),
{
    match cmdline {
        Some(text) => {
            let (first, _) = split_once(text, '\0');
            starts_with_char(first.as_str(), '@')
        },
        None => false,
    }
}

/// The process that a signal goes to, given an entry of `/proc` and the command
/// line of the process where that can be read.
pub open spec fn target_of(
    name: Seq<char>,
    my_pid: i32,
    cmdline: Option<Seq<char>>,
) -> Option<int> {
    match candidate(name, my_pid) {
        Some(pid) => match cmdline {
            Some(text) if marks_storage_daemon(text) => None,
            _ => Some(pid),
        },
        None => None,
    }
}

/// The process that a signal goes to.
pub fn signal_target(name: &str, my_pid: i32, cmdline: Option<&str>) -> (r: Option<i32>)
    ensures
        r is Some == target_of(name@, my_pid, cmdline.deep_view()) is Some,
        r matches Some(pid) ==> pid == target_of(name@, my_pid, cmdline.deep_view())->0,
{
    match kill_candidate(name, my_pid) {
        Some(pid) => if is_storage_daemon(cmdline) {
            None
        } else {
            Some(pid)
        },
        None => None,
    }
}

// ---------------------------------------------------------------------------
// Laws
// ---------------------------------------------------------------------------
/// No signal goes to the first process, to this one, to a group of processes or
/// to a process that holds the root filesystem up.
pub proof fn lemma_spared(name: Seq<char>, my_pid: i32, cmdline: Option<Seq<char>>)
    ensures
        target_of(name, my_pid, cmdline) matches Some(pid) ==> {
            &&& pid > 1
            &&& pid != my_pid
            &&& (cmdline matches Some(text) ==> !marks_storage_daemon(text))
        },
{
}

/// Every process but the first one and this one may be ended, and is found by the
/// name of its entry.
pub proof fn lemma_candidates(pid: i32, my_pid: i32)
    ensures
        candidate(signed_decimal(pid as int), my_pid) == if pid > 1 && pid != my_pid {
            Some(pid as int)
        } else {
            None
        },
{
    lemma_signed_decimal_reads_back(pid);
}

/// A signal goes to every such process, unless the first argument of its command
/// line begins with `@`; what the others are, or that they cannot be read, makes no
/// difference.
pub proof fn lemma_storage_daemons_are_spared(
    pid: i32,
    my_pid: i32,
    first: Seq<char>,
    others: Seq<char>,
)
    requires
        pid > 1,
        pid != my_pid,
        !first.contains('\0'),
    ensures
        ({
            let name = signed_decimal(pid as int);
            let spared = first.len() > 0 && first[0] == '@';
            &&& target_of(name, my_pid, Some(first + seq!['\0'] + others)) is None <==> spared
            &&& target_of(name, my_pid, Some(first)) is None <==> spared
            &&& !spared ==> target_of(name, my_pid, Some(first + seq!['\0'] + others)) == Some(
                pid as int,
            )
            &&& target_of(name, my_pid, None) == Some(pid as int)
        }),
{
    lemma_candidates(pid, my_pid);
    lemma_cut(first, '\0', others);
}

/// Processes are asked to end before they are ended, and get half a second in
/// between.
pub proof fn lemma_asked_before_killed(
    holds: spec_fn(CheckView) -> bool,
    outcome: spec_fn(OpView) -> Outcome,
)
    requires
        all_goes_well(outcome),
    ensures
        performed(kill_steps(), 0, holds, outcome) == seq![
            OpView::Log("Killing remaining processes..."@),
            OpView::SignalProcesses(Signal::Terminate),
            OpView::Sleep { millis: 500 },
            OpView::SignalProcesses(Signal::Kill),
        ],
{
    let steps = kill_steps();
    let ops = seq![
        OpView::Log("Killing remaining processes..."@),
        OpView::SignalProcesses(Signal::Terminate),
        OpView::Sleep { millis: 500 },
        OpView::SignalProcesses(Signal::Kill),
    ];
    assert(performed(steps, 4, holds, outcome) =~= ops.skip(4));
    assert(performed(steps, 3, holds, outcome) =~= ops.skip(3));
    assert(performed(steps, 2, holds, outcome) =~= ops.skip(2));
    assert(performed(steps, 1, holds, outcome) =~= ops.skip(1));
    assert(performed(steps, 0, holds, outcome) =~= ops);
}

/// The command line of a process is read from its own entry, the one by whose name
/// the process was found.
pub proof fn lemma_own_command_line(name: Seq<char>, pid: i32, my_pid: i32)
    requires
        name == signed_decimal(pid as int),
        pid > 1,
        pid != my_pid,
    ensures
        candidate(name, my_pid) == Some(pid as int),
        path_of_cmdline(pid) == "/proc/"@ + name + "/cmdline"@,
{
    lemma_candidates(pid, my_pid);
}

/// That processes cannot be told to end is an error.
pub proof fn lemma_vital_signals()
    ensures
        vital_are(kill_steps(), |op: OpView| op is SignalProcesses),
        exits_are_fine(kill_steps()),
{
    let steps = kill_steps();
    assert(steps.len() == 4);
}

} // verus!
