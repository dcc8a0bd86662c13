//! The console, and the switch to the root filesystem.
use vstd::prelude::*;

use crate::flags::ms_move;
#[allow(unused_imports)]
use crate::flags::MS_MOVE;
use crate::paths::{join_path, quote_path};
#[allow(unused_imports)]
use crate::paths::{is_absolute, joined, lemma_joined, quoted};
use crate::script::{
    append_steps, attempt_step, halt_for_step, halt_step, if_fails_step, log_step, must_step,
    no_steps, push_step, Check, MountCall, Op, Response, Step,
};
#[allow(unused_imports)]
use crate::script::{
    all_goes_well, attempt, does, exits_are_fine, halt, halt_for, if_fails,
    lemma_only_steps_are_performed, lemma_scripts_in_a_row, log, must, performed, reaction,
    script_fails, script_stops, self_contained, vital_are, CheckView, MountCallView, OpView,
    Outcome, ReactionView, ResponseView, StepView,
};
use crate::text::{
    cat2, contains_char, decimal_text, split_once, starts_with_char, strip_all_leading,
};
#[allow(unused_imports)]
use crate::text::{
    before, decimal, lemma_cut, lemma_rest_behind_leading, without_all_leading,
};
#[allow(unused_imports)]
use vstd::utf8::encode_utf8;

verus! {

// ---------------------------------------------------------------------------
// The console
// ---------------------------------------------------------------------------
/// The path of the console: the first one on the kernel command line, without
/// the speed and mode behind a comma; `/dev/console` where there is none.
pub open spec fn console_path(consoles: Seq<Seq<char>>) -> Seq<char> {
    if consoles.len() == 0 {
        "/dev/console"@
    } else {
        let device = before(consoles[0], ',');
        if is_absolute(device) {
            device
        } else {
            "/dev/"@ + device
        }
    }
}

/// What is found wrong with a text that holds a NUL, which the system takes for
/// its end.
pub open spec fn nul_cause(text: Seq<char>) -> Seq<char> {
    "nul byte found in provided data at position: "@ + decimal(
        encode_utf8(before(text, '\0')).len(),
    )
}

/// The steps that make the console the standard input, output and error. Where
/// the one that is asked for cannot be opened, `/dev/console` is.
pub open spec fn console_steps(consoles: Seq<Seq<char>>) -> Seq<StepView> {
    let path = console_path(consoles);
    seq![
        attempt(OpView::CloseFiles { first: 0, last: 2 }),
        if path.contains('\0') {
            halt_for("console path contains a null byte"@, nul_cause(path))
        } else {
            attempt(OpView::OpenConsole(path))
        },
        if_fails(CheckView::IsOpen(0), 1),
        StepView::Do {
            op: OpView::OpenConsole("/dev/console"@),
            success: ResponseView::Continue,
            exit: ResponseView::Continue,
            failure: ResponseView::Bail("Failed to open console"@),
        },
    ]
}

fn path_of_console(consoles: &Vec<String>) -> (r: String)
    ensures
        r@ == console_path(consoles.deep_view()),
{
    if consoles.len() == 0 {
        "/dev/console".to_owned()
    } else {
        assert(consoles.deep_view()[0] == consoles@[0]@);
        let (device, _) = split_once(consoles[0].as_str(), ',');
        if starts_with_char(device.as_str(), '/') {
            device
        } else {
            cat2("/dev/", device.as_str())
        }
    }
}

fn cause_of_nul(text: &str) -> (r: String)
    ensures
        r@ == nul_cause(text@),
{
    let (front, _) = split_once(text, '\0');
    let position: usize = front.as_str().as_bytes().len();
    cat2(
        "nul byte found in provided data at position: ",
        decimal_text(position as u64).as_str(),
    )
}

/// Makes the console the standard input, output and error.
pub fn setup_console(consoles: &Vec<String>) -> (r: Vec<Step>)
    ensures
        r.deep_view() == console_steps(consoles.deep_view()),
{
    let mut steps = no_steps();
    push_step(&mut steps, attempt_step(Op::CloseFiles { first: 0, last: 2 }));
    let path = path_of_console(consoles);
    if contains_char(path.as_str(), '\0') {
        let cause = cause_of_nul(path.as_str());
        push_step(
            &mut steps,
            halt_for_step("console path contains a null byte", cause.as_str()),
        );
    } else {
        push_step(&mut steps, attempt_step(Op::OpenConsole(path)));
    }
    push_step(&mut steps, if_fails_step(Check::IsOpen(0), 1));
    push_step(
        &mut steps,
        Step::Do {
            op: Op::OpenConsole("/dev/console".to_owned()),
            success: Response::Continue,
            exit: Response::Continue,
            failure: Response::Bail("Failed to open console".to_owned()),
        },
    );
    assert(steps.deep_view() =~= console_steps(consoles.deep_view()));
    steps
}

// ---------------------------------------------------------------------------
// The switch
// ---------------------------------------------------------------------------
/// The call that moves a mount.
pub open spec fn move_call(from: Seq<char>, to: Seq<char>) -> OpView {
    OpView::Mount(
        MountCallView {
            source: Some(from),
            target: to,
            fstype: None,
            flags: MS_MOVE,
            data: None,
        },
    )
}

/// The steps that take a tree into the new root. It may be there already, so
/// nothing hangs on them.
pub open spec fn move_steps(target_root: Seq<char>, tree: Seq<char>) -> Seq<StepView> {
    let to = joined(target_root, without_all_leading(tree, '/'));
    seq![attempt(OpView::CreateDir(to)), attempt(move_call(tree, to))]
}

/// Where the init program is found before the switch.
pub open spec fn init_path(target_root: Seq<char>, init: Seq<char>) -> Seq<char> {
    joined(target_root, without_all_leading(init, '/'))
}

/// The steps up to the new root: nothing is moved unless the init program is
/// there.
pub open spec fn enter_steps(target_root: Seq<char>, init: Seq<char>) -> Seq<StepView> {
    seq![
        log("Switching root to "@ + quoted(target_root)),
        if_fails(CheckView::Exists(init_path(target_root, init)), 1),
        halt("Init program not found: "@ + init),
    ] + move_steps(target_root, "/dev"@) + move_steps(target_root, "/proc"@) + move_steps(
        target_root,
        "/sys"@,
    ) + move_steps(target_root, "/run"@) + seq![
        must(OpView::ChangeDir(target_root), "Failed to chdir to "@ + quoted(target_root)),
        must(move_call("."@, "/"@), "Failed to move new root to /"@),
        must(OpView::ChangeRoot("."@), "Failed to chroot into new root"@),
        must(OpView::ChangeDir("/"@), "Failed to chdir to new /"@),
    ]
}

/// The steps that become the init program, which starts with a clean slate: the
/// environment is empty and no file but the console is open.
pub open spec fn execute_steps(init: Seq<char>) -> Seq<StepView> {
    seq![
        attempt(OpView::CloseFiles { first: 3, last: 1023 }),
        log("Executing init: "@ + init),
        attempt(OpView::ClearEnvironment),
        if init.contains('\0') {
            halt_for("Invalid init path"@, nul_cause(init))
        } else {
            must(OpView::Execute(init), "Failed to exec init: "@ + init)
        },
        halt("execv returned unexpectedly"@),
    ]
}

/// The steps that switch to the root filesystem.
pub open spec fn switch_steps(
    target_root: Seq<char>,
    init: Seq<char>,
    consoles: Seq<Seq<char>>,
) -> Seq<StepView> {
    enter_steps(target_root, init) + console_steps(consoles) + execute_steps(init)
}

fn moving(from: &str, to: &str) -> (r: Op)
    ensures
        r.deep_view() == move_call(from@, to@),
{
    Op::Mount(
        MountCall {
            source: Some(from.to_owned()),
            target: to.to_owned(),
            fstype: None,
            flags: ms_move(),
            data: None,
        },
    )
}

fn push_move(steps: &mut Vec<Step>, target_root: &str, tree: &str)
    ensures
        final(steps).deep_view() == old(steps).deep_view() + move_steps(target_root@, tree@),
{
    let ghost before = steps.deep_view();
    let to = join_path(target_root, strip_all_leading(tree, '/').as_str());
    push_step(steps, attempt_step(Op::CreateDir(to.clone())));
    push_step(steps, attempt_step(moving(tree, to.as_str())));
    assert(steps.deep_view() =~= before + move_steps(target_root@, tree@));
}

fn enter(target_root: &str, init: &str) -> (r: Vec<Step>)
    ensures
        r.deep_view() == enter_steps(target_root@, init@),
{
    let mut steps = no_steps();
    let at = quote_path(target_root);
    push_step(&mut steps, log_step(cat2("Switching root to ", at.as_str()).as_str()));
    let path = join_path(target_root, strip_all_leading(init, '/').as_str());
    push_step(&mut steps, if_fails_step(Check::Exists(path), 1));
    push_step(&mut steps, halt_step(cat2("Init program not found: ", init).as_str()));
    push_move(&mut steps, target_root, "/dev");
    push_move(&mut steps, target_root, "/proc");
    push_move(&mut steps, target_root, "/sys");
    push_move(&mut steps, target_root, "/run");
    push_step(
        &mut steps,
        must_step(
            Op::ChangeDir(target_root.to_owned()),
            cat2("Failed to chdir to ", at.as_str()).as_str(),
        ),
    );
    push_step(&mut steps, must_step(moving(".", "/"), "Failed to move new root to /"));
    push_step(
        &mut steps,
        must_step(Op::ChangeRoot(".".to_owned()), "Failed to chroot into new root"),
    );
    push_step(
        &mut steps,
        must_step(Op::ChangeDir("/".to_owned()), "Failed to chdir to new /"),
    );
    assert(steps.deep_view() =~= enter_steps(target_root@, init@));
    steps
}

fn execute(init: &str) -> (r: Vec<Step>)
    ensures
        r.deep_view() == execute_steps(init@),
{
    let mut steps = no_steps();
    push_step(&mut steps, attempt_step(Op::CloseFiles { first: 3, last: 1023 }));
    push_step(&mut steps, log_step(cat2("Executing init: ", init).as_str()));
    push_step(&mut steps, attempt_step(Op::ClearEnvironment));
    if contains_char(init, '\0') {
        push_step(&mut steps, halt_for_step("Invalid init path", cause_of_nul(init).as_str()));
    } else {
        push_step(
            &mut steps,
            must_step(
                Op::Execute(init.to_owned()),
                cat2("Failed to exec init: ", init).as_str(),
            ),
        );
    }
    push_step(&mut steps, halt_step("execv returned unexpectedly"));
    assert(steps.deep_view() =~= execute_steps(init@));
    steps
}

/// Switches to the root filesystem and becomes its init program.
pub fn switch_root(target_root: &str, init: &str, consoles: &Vec<String>) -> (r: Vec<Step>)
    ensures
        r.deep_view() == switch_steps(target_root@, init@, consoles.deep_view()),
{
    let mut steps = enter(target_root, init);
    append_steps(&mut steps, setup_console(consoles));
    append_steps(&mut steps, execute(init));
    assert(steps.deep_view() =~= switch_steps(target_root@, init@, consoles.deep_view()));
    steps
}

// ---------------------------------------------------------------------------
// Laws
// ---------------------------------------------------------------------------
/// The environment is cleared before the init program is executed, and the init
/// program is the last thing that is done.
pub proof fn lemma_init_starts_clean(
    target_root: Seq<char>,
    init: Seq<char>,
    consoles: Seq<Seq<char>>,
)
    ensures
        ({
            let steps = switch_steps(target_root, init, consoles);
            let n = steps.len() as int;
            &&& n >= 3
            &&& steps[n - 3] == attempt(OpView::ClearEnvironment)
            &&& !init.contains('\0') ==> steps[n - 2] == must(
                OpView::Execute(init),
                "Failed to exec init: "@ + init,
            )
            &&& steps[n - 1] is Halt
            &&& forall|i: int|
                0 <= i < n - 2 ==> !((#[trigger] steps[i]) matches StepView::Do { op, .. } && op
                    is Execute)
        }),
{
    let steps = switch_steps(target_root, init, consoles);
    let a = enter_steps(target_root, init);
    let b = console_steps(consoles);
    let c = execute_steps(init);
    assert(a.len() == 15);
    assert(b.len() == 4);
    assert(c.len() == 5);
    assert forall|i: int| 0 <= i < steps.len() - 2 implies !(
    (#[trigger] steps[i]) matches StepView::Do { op, .. } && op is Execute) by {
        if i < 15 {
            assert(steps[i] == a[i]);
        } else if i < 19 {
            assert(steps[i] == b[i - 15]);
        } else {
            assert(steps[i] == c[i - 19]);
        }
    }
}

/// Where the init program is missing, nothing is moved and nothing is left: the
/// switch fails before it changes anything.
pub proof fn lemma_missing_init_changes_nothing(
    target_root: Seq<char>,
    init: Seq<char>,
    consoles: Seq<Seq<char>>,
    holds: spec_fn(CheckView) -> bool,
    outcome: spec_fn(OpView) -> Outcome,
)
    requires
        !holds(CheckView::Exists(init_path(target_root, init))),
    ensures
        ({
            let steps = switch_steps(target_root, init, consoles);
            &&& performed(steps, 0, holds, outcome) == seq![
                OpView::Log("Switching root to "@ + quoted(target_root)),
            ]
            &&& script_fails(steps, 0, holds, outcome)
        }),
{
    let steps = switch_steps(target_root, init, consoles);
    let a = enter_steps(target_root, init);
    assert(a.len() == 15);
    assert(steps[0] == a[0] && steps[1] == a[1] && steps[2] == a[2]);
    reveal_with_fuel(performed, 4);
    reveal_with_fuel(script_fails, 4);
    assert(performed(steps, 2, holds, outcome) == Seq::<OpView>::empty());
    assert(performed(steps, 1, holds, outcome) == Seq::<OpView>::empty());
    assert(performed(steps, 0, holds, outcome) =~= seq![
        OpView::Log("Switching root to "@ + quoted(target_root)),
    ]);
}

/// Whether the first `k` characters of a path, and no more, are slashes.
pub open spec fn leading_slashes(path: Seq<char>, k: int) -> bool {
    &&& 0 <= k <= path.len()
    &&& forall|i: int| 0 <= i < k ==> path[i] == '/'
    &&& k < path.len() ==> path[k] != '/'
}

/// The mount at one path becomes the mount at another.
pub open spec fn moved(from: Seq<char>, to: Seq<char>) -> OpView {
    OpView::Mount(
        MountCallView {
            source: Some(from),
            target: to,
            fstype: None,
            flags: MS_MOVE,
            data: None,
        },
    )
}

proof fn lemma_enters(
    target_root: Seq<char>,
    init: Seq<char>,
    k: int,
    holds: spec_fn(CheckView) -> bool,
    outcome: spec_fn(OpView) -> Outcome,
)
    requires
        leading_slashes(init, k),
        target_root.len() > 0 && target_root.last() != '/',
        holds(CheckView::Exists(target_root + seq!['/'] + init.skip(k))),
        all_goes_well(outcome),
    ensures
        performed(enter_steps(target_root, init), 0, holds, outcome) == seq![
            OpView::Log("Switching root to "@ + quoted(target_root)),
            OpView::CreateDir(target_root + "/dev"@),
            moved("/dev"@, target_root + "/dev"@),
            OpView::CreateDir(target_root + "/proc"@),
            moved("/proc"@, target_root + "/proc"@),
            OpView::CreateDir(target_root + "/sys"@),
            moved("/sys"@, target_root + "/sys"@),
            OpView::CreateDir(target_root + "/run"@),
            moved("/run"@, target_root + "/run"@),
            OpView::ChangeDir(target_root),
            moved("."@, "/"@),
            OpView::ChangeRoot("."@),
            OpView::ChangeDir("/"@),
        ],
        !script_stops(enter_steps(target_root, init), 0, holds, outcome),
        self_contained(enter_steps(target_root, init)),
{
    lemma_rest_behind_leading(init, '/', k);
    lemma_joined(target_root, init.skip(k));
    let steps = enter_steps(target_root, init);
    reveal_strlit("/dev");
    reveal_strlit("/proc");
    reveal_strlit("/sys");
    reveal_strlit("/run");
    lemma_rest_behind_leading("/dev"@, '/', 1);
    lemma_rest_behind_leading("/proc"@, '/', 1);
    lemma_rest_behind_leading("/sys"@, '/', 1);
    lemma_rest_behind_leading("/run"@, '/', 1);
    lemma_joined(target_root, "/dev"@.skip(1));
    lemma_joined(target_root, "/proc"@.skip(1));
    lemma_joined(target_root, "/sys"@.skip(1));
    lemma_joined(target_root, "/run"@.skip(1));
    assert(joined(target_root, "/dev"@.skip(1)) =~= target_root + "/dev"@);
    assert(joined(target_root, "/proc"@.skip(1)) =~= target_root + "/proc"@);
    assert(joined(target_root, "/sys"@.skip(1)) =~= target_root + "/sys"@);
    assert(joined(target_root, "/run"@.skip(1)) =~= target_root + "/run"@);
    let ops = seq![
        OpView::Log("Switching root to "@ + quoted(target_root)),
        OpView::CreateDir(target_root + "/dev"@),
        moved("/dev"@, target_root + "/dev"@),
        OpView::CreateDir(target_root + "/proc"@),
        moved("/proc"@, target_root + "/proc"@),
        OpView::CreateDir(target_root + "/sys"@),
        moved("/sys"@, target_root + "/sys"@),
        OpView::CreateDir(target_root + "/run"@),
        moved("/run"@, target_root + "/run"@),
        OpView::ChangeDir(target_root),
        moved("."@, "/"@),
        OpView::ChangeRoot("."@),
        OpView::ChangeDir("/"@),
    ];
    assert(steps.len() == 15);
    assert(does(steps[0], ops[0]));
    assert(steps[1] == if_fails(
        CheckView::Exists(target_root + seq!['/'] + init.skip(k)),
        1,
    ));
    assert forall|i: int| 3 <= i < 15 implies does(#[trigger] steps[i], ops[i - 2]) by {}
    assert(performed(steps, 15, holds, outcome) =~= ops.skip(13));
    assert(!script_stops(steps, 15, holds, outcome));
    assert(does(steps[14], ops[12]));
    assert(performed(steps, 14, holds, outcome) =~= ops.skip(12));
    assert(!script_stops(steps, 14, holds, outcome));
    assert(does(steps[13], ops[11]));
    assert(performed(steps, 13, holds, outcome) =~= ops.skip(11));
    assert(!script_stops(steps, 13, holds, outcome));
    assert(does(steps[12], ops[10]));
    assert(performed(steps, 12, holds, outcome) =~= ops.skip(10));
    assert(!script_stops(steps, 12, holds, outcome));
    assert(does(steps[11], ops[9]));
    assert(performed(steps, 11, holds, outcome) =~= ops.skip(9));
    assert(!script_stops(steps, 11, holds, outcome));
    assert(does(steps[10], ops[8]));
    assert(performed(steps, 10, holds, outcome) =~= ops.skip(8));
    assert(!script_stops(steps, 10, holds, outcome));
    assert(does(steps[9], ops[7]));
    assert(performed(steps, 9, holds, outcome) =~= ops.skip(7));
    assert(!script_stops(steps, 9, holds, outcome));
    assert(does(steps[8], ops[6]));
    assert(performed(steps, 8, holds, outcome) =~= ops.skip(6));
    assert(!script_stops(steps, 8, holds, outcome));
    assert(does(steps[7], ops[5]));
    assert(performed(steps, 7, holds, outcome) =~= ops.skip(5));
    assert(!script_stops(steps, 7, holds, outcome));
    assert(does(steps[6], ops[4]));
    assert(performed(steps, 6, holds, outcome) =~= ops.skip(4));
    assert(!script_stops(steps, 6, holds, outcome));
    assert(does(steps[5], ops[3]));
    assert(performed(steps, 5, holds, outcome) =~= ops.skip(3));
    assert(!script_stops(steps, 5, holds, outcome));
    assert(does(steps[4], ops[2]));
    assert(performed(steps, 4, holds, outcome) =~= ops.skip(2));
    assert(!script_stops(steps, 4, holds, outcome));
    assert(does(steps[3], ops[1]));
    assert(performed(steps, 3, holds, outcome) =~= ops.skip(1));
    assert(!script_stops(steps, 3, holds, outcome));
    assert(performed(steps, 1, holds, outcome) =~= ops.skip(1));
    assert(!script_stops(steps, 1, holds, outcome));
    assert(performed(steps, 0, holds, outcome) =~= ops);
}

/// Where the init program is there below the root filesystem and all goes well,
/// `/dev`, `/proc`, `/sys` and `/run` are taken along, the root filesystem becomes
/// the root, the console is opened, and the last thing done is to become the init
/// program, in an empty environment. The second try of the console is made only
/// where the first one came to nothing.
pub proof fn lemma_switch(
    target_root: Seq<char>,
    init: Seq<char>,
    k: int,
    consoles: Seq<Seq<char>>,
    holds: spec_fn(CheckView) -> bool,
    outcome: spec_fn(OpView) -> Outcome,
)
    requires
        leading_slashes(init, k),
        target_root.len() > 0 && target_root.last() != '/',
        holds(CheckView::Exists(target_root + seq!['/'] + init.skip(k))),
        !init.contains('\0'),
        !console_path(consoles).contains('\0'),
        all_goes_well(outcome),
    ensures
        performed(switch_steps(target_root, init, consoles), 0, holds, outcome) == seq![
            OpView::Log("Switching root to "@ + quoted(target_root)),
            OpView::CreateDir(target_root + "/dev"@),
            moved("/dev"@, target_root + "/dev"@),
            OpView::CreateDir(target_root + "/proc"@),
            moved("/proc"@, target_root + "/proc"@),
            OpView::CreateDir(target_root + "/sys"@),
            moved("/sys"@, target_root + "/sys"@),
            OpView::CreateDir(target_root + "/run"@),
            moved("/run"@, target_root + "/run"@),
            OpView::ChangeDir(target_root),
            moved("."@, "/"@),
            OpView::ChangeRoot("."@),
            OpView::ChangeDir("/"@),
        ] + seq![
            OpView::CloseFiles { first: 0, last: 2 },
            OpView::OpenConsole(console_path(consoles)),
        ] + (if holds(CheckView::IsOpen(0)) {
            Seq::empty()
        } else {
            seq![OpView::OpenConsole("/dev/console"@)]
        }) + seq![
            OpView::CloseFiles { first: 3, last: 1023 },
            OpView::Log("Executing init: "@ + init),
            OpView::ClearEnvironment,
            OpView::Execute(init),
        ],
{
    let a = enter_steps(target_root, init);
    let b = console_steps(consoles);
    let c = execute_steps(init);
    lemma_enters(target_root, init, k, holds, outcome);
    lemma_scripts_in_a_row(a, b, 0, holds, outcome);
    lemma_scripts_in_a_row(a + b, c, 0, holds, outcome);
    let again = OpView::OpenConsole("/dev/console"@);
    assert(does(b[1], OpView::OpenConsole(console_path(consoles))));
    assert(performed(b, 4, holds, outcome) == Seq::<OpView>::empty());
    assert(performed(b, 3, holds, outcome) =~= seq![again]);
    let second = if holds(CheckView::IsOpen(0)) {
        Seq::empty()
    } else {
        seq![again]
    };
    assert(performed(b, 2, holds, outcome) =~= second);
    assert(performed(b, 1, holds, outcome) =~= seq![
        OpView::OpenConsole(console_path(consoles)),
    ] + second);
    assert(performed(b, 0, holds, outcome) =~= seq![
        OpView::CloseFiles { first: 0, last: 2 },
        OpView::OpenConsole(console_path(consoles)),
    ] + second);
    assert(!script_stops(b, 4, holds, outcome));
    assert(!script_stops(b, 3, holds, outcome));
    assert(!script_stops(b, 2, holds, outcome));
    assert(!script_stops(b, 1, holds, outcome));
    assert(!script_stops(b, 0, holds, outcome));
    assert(self_contained(b));
    assert(performed(c, 4, holds, outcome) == Seq::<OpView>::empty());
    assert(performed(c, 3, holds, outcome) =~= seq![OpView::Execute(init)]);
    assert(performed(c, 2, holds, outcome) =~= seq![
        OpView::ClearEnvironment,
        OpView::Execute(init),
    ]);
    assert(performed(c, 1, holds, outcome) =~= seq![
        OpView::Log("Executing init: "@ + init),
        OpView::ClearEnvironment,
        OpView::Execute(init),
    ]);
    assert(performed(c, 0, holds, outcome) =~= seq![
        OpView::CloseFiles { first: 3, last: 1023 },
        OpView::Log("Executing init: "@ + init),
        OpView::ClearEnvironment,
        OpView::Execute(init),
    ]);
    assert(switch_steps(target_root, init, consoles) =~= (a + b) + c);
}

/// No program is executed but the init program, and that only where it was found
/// below the root filesystem.
pub proof fn lemma_only_init_is_executed(
    target_root: Seq<char>,
    init: Seq<char>,
    k: int,
    consoles: Seq<Seq<char>>,
    holds: spec_fn(CheckView) -> bool,
    outcome: spec_fn(OpView) -> Outcome,
    program: Seq<char>,
)
    requires
        leading_slashes(init, k),
        target_root.len() > 0 && target_root.last() != '/',
        performed(switch_steps(target_root, init, consoles), 0, holds, outcome).contains(
            OpView::Execute(program),
        ),
    ensures
        program == init,
        holds(CheckView::Exists(target_root + seq!['/'] + init.skip(k))),
{
    let steps = switch_steps(target_root, init, consoles);
    let op = OpView::Execute(program);
    lemma_only_steps_are_performed(steps, 0, holds, outcome, op);
    lemma_init_starts_clean(target_root, init, consoles);
    let i = choose|i: int| 0 <= i < steps.len() && does(#[trigger] steps[i], op);
    let c = execute_steps(init);
    assert(steps[steps.len() - 2] == c[3]);
    lemma_rest_behind_leading(init, '/', k);
    lemma_joined(target_root, init.skip(k));
    if !holds(CheckView::Exists(target_root + seq!['/'] + init.skip(k))) {
        lemma_missing_init_changes_nothing(target_root, init, consoles, holds, outcome);
        assert(false);
    }
}

/// The console is the first one that is asked for, without what stands behind a
/// comma; a bare name is that of a device.
pub proof fn lemma_first_console(name: Seq<char>, mode: Seq<char>, others: Seq<Seq<char>>)
    requires
        !name.contains(','),
    ensures
        ({
            let path = if name.len() > 0 && name[0] == '/' {
                name
            } else {
                "/dev/"@ + name
            };
            &&& console_path(seq![name] + others) == path
            &&& console_path(seq![name + seq![','] + mode] + others) == path
            &&& console_path(Seq::empty()) == "/dev/console"@
        }),
{
    lemma_cut(name, ',', mode);
    assert((seq![name] + others)[0] == name);
    assert((seq![name + seq![','] + mode] + others)[0] == name + seq![','] + mode);
}

/// Without any console there is no switch; one that is asked for and cannot be had
/// is no reason to fail.
pub proof fn lemma_console_is_needed(
    consoles: Seq<Seq<char>>,
    holds: spec_fn(CheckView) -> bool,
    outcome: spec_fn(OpView) -> Outcome,
)
    requires
        !console_path(consoles).contains('\0'),
    ensures
        script_fails(console_steps(consoles), 0, holds, outcome) <==> !holds(CheckView::IsOpen(0))
            && outcome(OpView::OpenConsole("/dev/console"@)) == Outcome::Failed,
{
    let b = console_steps(consoles);
    assert(b[1] == attempt(OpView::OpenConsole(console_path(consoles))));
    assert(!script_fails(b, 4, holds, outcome));
    assert(script_fails(b, 3, holds, outcome) <==> outcome(OpView::OpenConsole("/dev/console"@))
        == Outcome::Failed);
    assert(script_fails(b, 1, holds, outcome) == script_fails(b, 2, holds, outcome));
}

/// Everything on the way into the new root has to come out well but the trees that
/// are taken along, which may be there already.
pub proof fn lemma_vital_switch(target_root: Seq<char>, init: Seq<char>)
    ensures
        vital_are(
            enter_steps(target_root, init),
            |op: OpView|
                op is ChangeDir || op is ChangeRoot || op == moved("."@, "/"@),
        ),
        exits_are_fine(enter_steps(target_root, init)),
{
    let steps = enter_steps(target_root, init);
    reveal_strlit(".");
    reveal_strlit("/dev");
    reveal_strlit("/proc");
    reveal_strlit("/sys");
    reveal_strlit("/run");
    assert("."@.len() == 1 && "/dev"@.len() == 4 && "/proc"@.len() == 5 && "/sys"@.len() == 4
        && "/run"@.len() == 4);
    assert(steps.len() == 15);
}

/// That the init program cannot be executed is an error, and the only one there.
pub proof fn lemma_vital_execution(init: Seq<char>)
    ensures
        vital_are(execute_steps(init), |op: OpView| op is Execute),
        exits_are_fine(execute_steps(init)),
{
    let steps = execute_steps(init);
    assert(steps.len() == 5);
}

/// The error of a switch says how far it came.
pub proof fn lemma_errors_of_the_switch(target_root: Seq<char>, init: Seq<char>)
    ensures
        ({
            let steps = enter_steps(target_root, init);
            let last = execute_steps(init);
            &&& steps[2] == (StepView::Halt {
                message: "Init program not found: "@ + init,
                cause: None,
            })
            &&& reaction(steps[11], Outcome::Failed) == ReactionView::Abort(
                "Failed to chdir to "@ + quoted(target_root),
            )
            &&& reaction(steps[12], Outcome::Failed) == ReactionView::Abort(
                "Failed to move new root to /"@,
            )
            &&& reaction(steps[13], Outcome::Failed) == ReactionView::Abort(
                "Failed to chroot into new root"@,
            )
            &&& reaction(steps[14], Outcome::Failed) == ReactionView::Abort(
                "Failed to chdir to new /"@,
            )
            &&& init.contains('\0') ==> last[3] is Halt && last[3]->message
                == "Invalid init path"@
            &&& !init.contains('\0') ==> reaction(last[3], Outcome::Failed)
                == ReactionView::Abort("Failed to exec init: "@ + init)
        }),
{
    assert(enter_steps(target_root, init).len() == 15);
}

/// A path that holds a NUL is refused with the place where it stands.
pub proof fn lemma_place_of_nul(front: Seq<char>, rest: Seq<char>)
    requires
        !front.contains('\0'),
    ensures
        nul_cause(front + seq!['\0'] + rest) == "nul byte found in provided data at position: "@
            + decimal(encode_utf8(front).len()),
        ({
            let path = seq!['/'] + front + seq!['\0'];
            let steps = console_steps(seq![path]);
            !front.contains(',') ==> steps[1] == halt_for(
                "console path contains a null byte"@,
                nul_cause(path),
            )
        }),
{
    lemma_cut(front, '\0', rest);
    let path = seq!['/'] + front + seq!['\0'];
    if !front.contains(',') {
        assert(!path.contains(',')) by {
            if path.contains(',') {
                let i = choose|i: int| 0 <= i < path.len() && path[i] == ',';
                assert(front[i - 1] == ',');
            }
        }
        lemma_first_console(path, Seq::empty(), Seq::empty());
        assert(seq![path] + Seq::<Seq<char>>::empty() =~= seq![path]);
        assert(path[path.len() - 1] == '\0');
    }
}

} // verus!
