//! Kernel modules.
use vstd::prelude::*;

use crate::script::{append_steps, log_step, no_steps, push_step, run2, Response, Step};
#[allow(unused_imports)]
use crate::script::{
    command2, does, lemma_scripts_in_a_row, log, performed, reaction, script_stops, self_contained,
    CheckView, CommandView, OpView, Outcome, ReactionView, ResponseView, StepView,
};
use crate::text::cat2;
#[allow(unused_imports)]
use crate::text::lemma_take_next;

verus! {

/// The steps that load a module, with the answer to a `modprobe` that cannot be
/// run. A module that does not load is warned about.
pub open spec fn module_steps(module: Seq<char>, not_run: ResponseView) -> Seq<StepView> {
    seq![
        log("Loading module: "@ + module),
        StepView::Do {
            op: command2("modprobe"@, "-q"@, module),
            success: ResponseView::Continue,
            exit: ResponseView::Log("Warning: Failed to load module: "@ + module),
            failure: not_run,
        },
    ]
}

/// The steps that load each of the modules, whatever comes of them.
pub open spec fn modules_steps(modules: Seq<Seq<char>>) -> Seq<StepView>
    decreases modules.len(),
{
    if modules.len() == 0 {
        Seq::empty()
    } else {
        modules_steps(modules.drop_last()) + module_steps(modules.last(), ResponseView::Continue)
    }
}

fn module_script(module: &str, not_run: Response) -> (r: Vec<Step>)
    ensures
        r.deep_view() == module_steps(module@, not_run.deep_view()),
{
    let mut steps = no_steps();
    push_step(&mut steps, log_step(cat2("Loading module: ", module).as_str()));
    push_step(
        &mut steps,
        Step::Do {
            op: run2("modprobe", "-q", module),
            success: Response::Continue,
            exit: Response::Log(cat2("Warning: Failed to load module: ", module)),
            failure: not_run,
        },
    );
    assert(steps.deep_view() =~= module_steps(module@, not_run.deep_view()));
    steps
}

/// Loads a module.
pub fn load_module(module: &str) -> (r: Vec<Step>)
    ensures
        r.deep_view() == module_steps(
            module@,
            ResponseView::Abort("Failed to run modprobe"@),
        ),
{
    module_script(module, Response::Abort("Failed to run modprobe".to_owned()))
}

/// Loads the modules, unless that is switched off.
pub fn load_kernel_modules(modules: &[String], no_modprobe: bool) -> (r: Vec<Step>)
    ensures
        r.deep_view() == if no_modprobe {
            seq![log("Skipping module loading (boot.no_modprobe)"@)]
        } else {
            modules_steps(modules.deep_view())
        },
{
    let mut steps = no_steps();
    if no_modprobe {
        push_step(&mut steps, log_step("Skipping module loading (boot.no_modprobe)"));
        assert(steps.deep_view() =~= seq![log("Skipping module loading (boot.no_modprobe)"@)]);
        return steps;
    }
    let mut i: usize = 0;
    while i < modules.len()
        invariant
            i <= modules@.len(),
            steps.deep_view() == modules_steps(modules.deep_view().take(i as int)),
        decreases modules.len() - i,
    {
        proof {
            lemma_take_next(modules.deep_view(), i as int);
        }
        append_steps(&mut steps, module_script(modules[i].as_str(), Response::Continue));
        i = i + 1;
    }
    assert(modules.deep_view().take(modules@.len() as int) =~= modules.deep_view());
    steps
}

/// Whatever comes of the modules, the bootstrap goes on.
pub proof fn lemma_modules_never_stop(modules: Seq<Seq<char>>, i: int, outcome: Outcome)
    requires
        0 <= i < modules_steps(modules).len(),
    ensures
        !reaction(modules_steps(modules)[i], outcome).stops(),
    decreases modules.len(),
{
    let front = modules_steps(modules.drop_last());
    if i < front.len() {
        lemma_modules_never_stop(modules.drop_last(), i, outcome);
    } else {
        let last = module_steps(modules.last(), ResponseView::Continue);
        assert(modules_steps(modules)[i] == last[i - front.len()]);
    }
}

/// Each module is loaded, in the order of the list, and no other program is run;
/// a module that does not load keeps none behind it from being loaded.
pub proof fn lemma_each_module_is_loaded(
    modules: Seq<Seq<char>>,
    holds: spec_fn(CheckView) -> bool,
    outcome: spec_fn(OpView) -> Outcome,
)
    ensures
        ({
            let ops = performed(modules_steps(modules), 0, holds, outcome);
            &&& ops.len() == 2 * modules.len()
            &&& forall|i: int|
                0 <= i < modules.len() ==> loads(#[trigger] modules[i], ops[2 * i], ops[2 * i + 1])
        }),
        !script_stops(modules_steps(modules), 0, holds, outcome),
        self_contained(modules_steps(modules)),
    decreases modules.len(),
{
    if modules.len() > 0 {
        let front = modules.drop_last();
        let a = modules_steps(front);
        let b = module_steps(modules.last(), ResponseView::Continue);
        lemma_each_module_is_loaded(front, holds, outcome);
        lemma_scripts_in_a_row(a, b, 0, holds, outcome);
        let load = OpView::Run(
            CommandView { program: "modprobe"@, args: seq!["-q"@, modules.last()] },
        );
        assert(does(b[1], load));
        assert(performed(b, 2, holds, outcome) == Seq::<OpView>::empty());
        assert(performed(b, 1, holds, outcome) =~= seq![load]);
        assert(performed(b, 0, holds, outcome) =~= seq![
            OpView::Log("Loading module: "@ + modules.last()),
            load,
        ]);
        assert(!script_stops(b, 2, holds, outcome));
        assert(!script_stops(b, 1, holds, outcome));
        assert(!script_stops(b, 0, holds, outcome));
        assert(self_contained(b));
        let ops = performed(modules_steps(modules), 0, holds, outcome);
        let before = performed(a, 0, holds, outcome);
        assert(ops =~= before + performed(b, 0, holds, outcome));
        assert forall|i: int| 0 <= i < modules.len() implies loads(
            #[trigger] modules[i],
            ops[2 * i],
            ops[2 * i + 1],
        ) by {
            if i < front.len() {
                assert(front[i] == modules[i]);
                assert(loads(front[i], before[2 * i], before[2 * i + 1]));
            }
        }
    }
}

/// Whether two operations say that a module is loaded, and load it.
pub open spec fn loads(module: Seq<char>, first: OpView, second: OpView) -> bool {
    &&& first == OpView::Log("Loading module: "@ + module)
    &&& second == OpView::Run(
        CommandView { program: "modprobe"@, args: seq!["-q"@, module] },
    )
}

/// What is said of a module that does not load names it.
pub proof fn lemma_words_on_modules(module: Seq<char>, answer: ResponseView, code: i32)
    requires
        code != 0,
    ensures
        reaction(module_steps(module, answer)[1], Outcome::Exited(Some(code)))
            == ReactionView::Log("Warning: Failed to load module: "@ + module),
{
}

} // verus!
