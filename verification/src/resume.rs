//! Resuming from hibernation: which device holds the image, and how the kernel
//! is told.
use vstd::prelude::*;

use crate::devnum::device_numbers;
#[allow(unused_imports)]
use crate::devnum::{device_of_numbers, lemma_device_round_trip, numbers_text};
use crate::script::{log_step, no_steps, push_step, Op, Response, Step};
#[allow(unused_imports)]
use crate::script::{
    does, lemma_only_steps_are_performed, log, performed, reaction, script_fails, CheckView, OpView,
    Outcome, ReactionView, ResponseView, StepView,
};
use crate::text::cat2;
#[allow(unused_imports)]
use crate::text::decimal;

verus! {

/// A device that may hold the image. One that was not named outright counts only
/// where it holds swap space.
#[derive(Debug, PartialEq, Eq)]
pub struct Candidate {
    pub device: String,
    pub needs_swap: bool,
}

pub struct CandidateView {
    pub device: Seq<char>,
    pub needs_swap: bool,
}

impl DeepView for Candidate {
    type V = CandidateView;

    open spec fn deep_view(&self) -> CandidateView {
        CandidateView { device: self.device@, needs_swap: self.needs_swap }
    }
}

/// The devices that may hold the image, in the order in which they are tried:
/// the one that is named, then the configured ones.
pub open spec fn candidates(
    named: Option<Seq<char>>,
    configured: Seq<Seq<char>>,
) -> Seq<CandidateView> {
    let rest = configured.map_values(
        |device: Seq<char>| CandidateView { device, needs_swap: true },
    );
    match named {
        Some(device) => seq![CandidateView { device, needs_swap: false }] + rest,
        None => rest,
    }
}

/// Where the search stands.
#[derive(Debug, Clone, Copy, PartialEq, Eq, Structural)]
pub enum SearchState {
    /// It is asked whether this candidate is there.
    Exists(usize),
    /// It is asked whether this candidate holds swap space.
    Swap(usize),
    /// This candidate it is.
    Found(usize),
    /// There is none.
    NotFound,
}

/// The question about a candidate, where there is one of that number.
pub open spec fn ask(count: nat, i: int) -> SearchState {
    if 0 <= i < count {
        SearchState::Exists(i as usize)
    } else {
        SearchState::NotFound
    }
}

/// Where the search stands after an answer.
pub open spec fn search_next(
    list: Seq<CandidateView>,
    state: SearchState,
    yes: bool,
) -> SearchState {
    match state {
        SearchState::Exists(i) => if !yes {
            ask(list.len(), i + 1)
        } else if list[i as int].needs_swap {
            SearchState::Swap(i)
        } else {
            SearchState::Found(i)
        },
        SearchState::Swap(i) => if yes {
            SearchState::Found(i)
        } else {
            ask(list.len(), i + 1)
        },
        _ => state,
    }
}

/// Where the search begins.
pub open spec fn search_start(list: Seq<CandidateView>) -> SearchState {
    ask(list.len(), 0)
}

/// The search for the device with the image.
#[derive(Debug, PartialEq, Eq)]
pub struct ResumeSearch {
    list: Vec<Candidate>,
    state: SearchState,
}

/// What the search asks, or what came of it.
#[derive(Debug, PartialEq, Eq)]
pub enum SearchRequest<'a> {
    Exists(&'a str),
    HasSwap(&'a str),
    Found(&'a str),
    NotFound,
}

pub enum SearchRequestView {
    Exists(Seq<char>),
    HasSwap(Seq<char>),
    Found(Seq<char>),
    NotFound,
}

impl<'a> DeepView for SearchRequest<'a> {
    type V = SearchRequestView;

    open spec fn deep_view(&self) -> SearchRequestView {
        match self {
            SearchRequest::Exists(d) => SearchRequestView::Exists(d@),
            SearchRequest::HasSwap(d) => SearchRequestView::HasSwap(d@),
            SearchRequest::Found(d) => SearchRequestView::Found(d@),
            SearchRequest::NotFound => SearchRequestView::NotFound,
        }
    }
}

/// What the search asks in a state.
pub open spec fn search_request(
    list: Seq<CandidateView>,
    state: SearchState,
) -> SearchRequestView {
    match state {
        SearchState::Exists(i) => SearchRequestView::Exists(list[i as int].device),
        SearchState::Swap(i) => SearchRequestView::HasSwap(list[i as int].device),
        SearchState::Found(i) => SearchRequestView::Found(list[i as int].device),
        SearchState::NotFound => SearchRequestView::NotFound,
    }
}

/// Whether a state is about a candidate of the list.
pub open spec fn in_list(list: Seq<CandidateView>, state: SearchState) -> bool {
    match state {
        SearchState::Exists(i) => i < list.len(),
        SearchState::Swap(i) => i < list.len(),
        SearchState::Found(i) => i < list.len(),
        SearchState::NotFound => true,
    }
}

fn asking(count: usize, i: usize) -> (r: SearchState)
    ensures
        r == ask(count as nat, i as int),
{
    if i < count {
        SearchState::Exists(i)
    } else {
        SearchState::NotFound
    }
}

impl ResumeSearch {
    pub closed spec fn list(self) -> Seq<CandidateView> {
        self.list.deep_view()
    }

    pub closed spec fn state(self) -> SearchState {
        self.state
    }

    #[verifier::type_invariant]
    spec fn valid(self) -> bool {
        in_list(self.list.deep_view(), self.state)
    }

    /// A search among the device that is named and the configured ones.
    pub fn new(named: Option<&str>, configured: &Vec<String>) -> (r: Self)
        ensures
            r.list() == candidates(named.deep_view(), configured.deep_view()),
            r.state() == search_start(r.list()),
    {
        let mut list: Vec<Candidate> = Vec::new();
        match named {
            Some(device) => {
                list.push(Candidate { device: device.to_owned(), needs_swap: false });
            },
            None => {},
        }
        let ghost first = list.deep_view();
        let ghost rest = configured.deep_view().map_values(
            |device: Seq<char>| CandidateView { device, needs_swap: true },
        );
        assert(first =~= match named.deep_view() {
            Some(device) => seq![CandidateView { device, needs_swap: false }],
            None => Seq::empty(),
        });
        let mut i: usize = 0;
        assert(list.deep_view() =~= first + rest.take(0));
        while i < configured.len()
            invariant
                i <= configured@.len(),
                rest == configured.deep_view().map_values(
                    |device: Seq<char>| CandidateView { device, needs_swap: true },
                ),
                list.deep_view() == first + rest.take(i as int),
            decreases configured.len() - i,
        {
            let c = Candidate { device: configured[i].clone(), needs_swap: true };
            let ghost before = list.deep_view();
            list.push(c);
            assert(list.deep_view() =~= before.push(c.deep_view()));
            assert(rest.take(i + 1) =~= rest.take(i as int).push(rest[i as int]));
            i = i + 1;
        }
        assert(rest.take(configured@.len() as int) =~= rest);
        assert(list.deep_view() =~= candidates(named.deep_view(), configured.deep_view()));
        let n = list.len();
        assert(n == list.deep_view().len());
        ResumeSearch { list, state: asking(n, 0) }
    }

    /// What is asked, or what came of the search.
    pub fn request(&self) -> (r: SearchRequest<'_>)
        ensures
            r.deep_view() == search_request(self.list(), self.state()),
    {
        proof {
            use_type_invariant(self);
        }
        match self.state {
            SearchState::Exists(i) => SearchRequest::Exists(self.list[i].device.as_str()),
            SearchState::Swap(i) => SearchRequest::HasSwap(self.list[i].device.as_str()),
            SearchState::Found(i) => SearchRequest::Found(self.list[i].device.as_str()),
            SearchState::NotFound => SearchRequest::NotFound,
        }
    }

    /// Goes on after an answer.
    pub fn answer(&mut self, yes: bool)
        ensures
            final(self).list() == old(self).list(),
            final(self).state() == search_next(old(self).list(), old(self).state(), yes),
    {
        proof {
            use_type_invariant(&*self);
        }
        let n = self.list.len();
        assert(n == self.list.deep_view().len());
        let next = match self.state {
            SearchState::Exists(i) => if !yes {
                asking(n, i + 1)
            } else if self.list[i].needs_swap {
                SearchState::Swap(i)
            } else {
                SearchState::Found(i)
            },
            SearchState::Swap(i) => if yes {
                SearchState::Found(i)
            } else {
                asking(n, i + 1)
            },
            state => state,
        };
        self.state = next;
    }
}

/// What can be learned of the device that was found.
#[derive(Debug, Clone, Copy, PartialEq, Eq, Structural)]
pub enum ResumeStat {
    /// It is gone.
    Missing,
    /// It cannot be asked for its number.
    Failed,
    /// The number of the device.
    Device(u64),
}

/// The beginning of what is said where resuming fails.
pub open spec fn resume_failed() -> Seq<char> {
    "Resume failed (this is normal if not resuming): "@
}

/// The steps that tell the kernel to resume from a device, by its numbers. Where
/// there is no image the kernel just goes on.
pub open spec fn resume_steps(device: Seq<char>, stat: ResumeStat) -> Seq<StepView> {
    match stat {
        ResumeStat::Missing => seq![
            log(resume_failed() + "Resume device does not exist: "@ + device),
        ],
        ResumeStat::Failed => seq![log(resume_failed() + "Failed to stat resume device"@)],
        ResumeStat::Device(rdev) => seq![
            StepView::Do {
                op: OpView::WriteFile {
                    path: "/sys/power/resume"@,
                    content: numbers_text(rdev),
                },
                success: ResponseView::Log("Resume completed"@),
                exit: ResponseView::Continue,
                failure: ResponseView::Log(
                    resume_failed() + "Failed to write to /sys/power/resume"@,
                ),
            },
        ],
    }
}

/// The steps that say what the search came to.
pub open spec fn announce_steps(device: Option<Seq<char>>) -> Seq<StepView> {
    seq![
        log(
            match device {
                Some(d) => "Attempting resume from: "@ + d,
                None => "No resume device found"@,
            },
        ),
    ]
}

/// What is said of the search: the device it found, or that there is none.
pub fn announce_resume(device: Option<&str>) -> (r: Vec<Step>)
    ensures
        r.deep_view() == announce_steps(device.deep_view()),
{
    let mut steps = no_steps();
    match device {
        Some(d) => {
            push_step(&mut steps, log_step(cat2("Attempting resume from: ", d).as_str()));
        },
        None => {
            push_step(&mut steps, log_step("No resume device found"));
        },
    }
    assert(steps.deep_view() =~= announce_steps(device.deep_view()));
    steps
}

/// Tells the kernel to resume from a device.
pub fn handle_resume(device: &str, stat: ResumeStat) -> (r: Vec<Step>)
    ensures
        r.deep_view() == resume_steps(device@, stat),
{
    let mut steps = no_steps();
    let head = "Resume failed (this is normal if not resuming): ";
    match stat {
        ResumeStat::Missing => {
            let reason = cat2(head, "Resume device does not exist: ");
            push_step(&mut steps, log_step(cat2(reason.as_str(), device).as_str()));
        },
        ResumeStat::Failed => {
            push_step(
                &mut steps,
                log_step(cat2(head, "Failed to stat resume device").as_str()),
            );
        },
        ResumeStat::Device(rdev) => {
            push_step(
                &mut steps,
                Step::Do {
                    op: Op::WriteFile {
                        path: "/sys/power/resume".to_owned(),
                        content: device_numbers(rdev),
                    },
                    success: Response::Log("Resume completed".to_owned()),
                    exit: Response::Continue,
                    failure: Response::Log(
                        cat2(head, "Failed to write to /sys/power/resume"),
                    ),
                },
            );
        },
    }
    assert(steps.deep_view() =~= resume_steps(device@, stat));
    steps
}

// ---------------------------------------------------------------------------
// Laws
// ---------------------------------------------------------------------------
/// Whether a candidate will do, given what is there and what holds swap space.
pub open spec fn suits(
    c: CandidateView,
    exists_at: spec_fn(Seq<char>) -> bool,
    has_swap: spec_fn(Seq<char>) -> bool,
) -> bool {
    exists_at(c.device) && (c.needs_swap ==> has_swap(c.device))
}

/// What a search answers in a state, once every question is answered.
pub open spec fn search_result(
    list: Seq<CandidateView>,
    state: SearchState,
    exists_at: spec_fn(Seq<char>) -> bool,
    has_swap: spec_fn(Seq<char>) -> bool,
) -> Option<int>
    decreases
            list.len() - (match state {
                SearchState::Exists(i) => i as int,
                SearchState::Swap(i) => i as int,
                _ => list.len() as int,
            }),
            if state is Exists {
                1int
            } else {
                0int
            },
{
    match state {
        SearchState::NotFound => None,
        SearchState::Found(i) => Some(i as int),
        SearchState::Exists(i) => if i < list.len() <= usize::MAX {
            search_result(
                list,
                search_next(list, state, exists_at(list[i as int].device)),
                exists_at,
                has_swap,
            )
        } else {
            None
        },
        SearchState::Swap(i) => if i < list.len() <= usize::MAX {
            search_result(
                list,
                search_next(list, state, has_swap(list[i as int].device)),
                exists_at,
                has_swap,
            )
        } else {
            None
        },
    }
}

/// The search finds the first candidate that will do, and none only where none
/// does.
pub proof fn lemma_search_finds_first(
    list: Seq<CandidateView>,
    from: int,
    exists_at: spec_fn(Seq<char>) -> bool,
    has_swap: spec_fn(Seq<char>) -> bool,
)
    requires
        0 <= from <= list.len() <= usize::MAX,
    ensures
        match search_result(list, ask(list.len(), from), exists_at, has_swap) {
            Some(k) => {
                &&& from <= k < list.len()
                &&& suits(list[k], exists_at, has_swap)
                &&& forall|j: int|
                    from <= j < k ==> !suits(#[trigger] list[j], exists_at, has_swap)
            },
            None => forall|j: int|
                from <= j < list.len() ==> !suits(#[trigger] list[j], exists_at, has_swap),
        },
    decreases list.len() - from,
{
    if from < list.len() {
        let i = from as usize;
        let c = list[from];
        let state = SearchState::Exists(i);
        assert(ask(list.len(), from) == state);
        let second = search_next(list, state, exists_at(c.device));
        assert(search_result(list, state, exists_at, has_swap) == search_result(
            list,
            second,
            exists_at,
            has_swap,
        ));
        lemma_search_finds_first(list, from + 1, exists_at, has_swap);
        if second == SearchState::Swap(i) {
            let third = search_next(list, second, has_swap(c.device));
            assert(search_result(list, second, exists_at, has_swap) == search_result(
                list,
                third,
                exists_at,
                has_swap,
            ));
        }
    }
}

/// The device that is named is resumed from wherever it is there, whatever it
/// holds; else the first configured one that is there and holds swap space.
pub proof fn lemma_named_device_first(
    named: Option<Seq<char>>,
    configured: Seq<Seq<char>>,
    exists_at: spec_fn(Seq<char>) -> bool,
    has_swap: spec_fn(Seq<char>) -> bool,
)
    requires
        configured.len() < usize::MAX,
    ensures
        ({
            let list = candidates(named, configured);
            let found = search_result(list, search_start(list), exists_at, has_swap);
            if named is Some && exists_at(named->0) {
                found is Some && list[found->0].device == named->0
            } else {
                match found {
                    Some(k) => exists|i: int|
                        {
                            &&& 0 <= i < configured.len()
                            &&& list[k].device == #[trigger] configured[i]
                            &&& exists_at(configured[i]) && has_swap(configured[i])
                            &&& forall|j: int|
                                0 <= j < i ==> !(exists_at(#[trigger] configured[j]) && has_swap(
                                    configured[j],
                                ))
                        },
                    None => forall|j: int|
                        0 <= j < configured.len() ==> !(exists_at(#[trigger] configured[j])
                            && has_swap(configured[j])),
                }
            }
        }),
{
    let list = candidates(named, configured);
    lemma_search_finds_first(list, 0, exists_at, has_swap);
    let found = search_result(list, search_start(list), exists_at, has_swap);
    let shift = if named is Some {
        1int
    } else {
        0int
    };
    assert(list.len() == configured.len() + shift);
    assert forall|j: int| 0 <= j < configured.len() implies list[j + shift] == (CandidateView {
        device: #[trigger] configured[j],
        needs_swap: true,
    }) by {}
    if named is Some {
        assert(list[0] == (CandidateView { device: named->0, needs_swap: false }));
    }
    if named is Some && exists_at(named->0) {
        assert(suits(list[0], exists_at, has_swap));
    } else {
        match found {
            Some(k) => {
                let i = k - shift;
                assert(0 <= i);
                assert(list[k].device == configured[i]);
                assert forall|j: int| 0 <= j < i implies !(exists_at(#[trigger] configured[j])
                    && has_swap(configured[j])) by {
                    assert(!suits(list[j + shift], exists_at, has_swap));
                }
            },
            None => {
                assert forall|j: int| 0 <= j < configured.len() implies !(exists_at(
                    #[trigger] configured[j],
                ) && has_swap(configured[j])) by {
                    assert(!suits(list[j + shift], exists_at, has_swap));
                }
            },
        }
    }
}

/// What is asked is asked about the device that would be found: first whether it
/// is there, then, unless it was named, whether it holds swap space.
pub proof fn lemma_search_asks_about_candidate(list: Seq<CandidateView>, i: usize)
    requires
        i < list.len(),
    ensures
        ({
            let device = list[i as int].device;
            let here = search_next(list, SearchState::Exists(i), true);
            &&& search_request(list, SearchState::Exists(i)) == SearchRequestView::Exists(device)
            &&& list[i as int].needs_swap ==> search_request(list, here)
                == SearchRequestView::HasSwap(device) && search_request(
                list,
                search_next(list, here, true),
            ) == SearchRequestView::Found(device)
            &&& !list[i as int].needs_swap ==> search_request(list, here)
                == SearchRequestView::Found(device)
        }),
{
}

/// The kernel is told the numbers of the device, and nothing else is written; where
/// they cannot be had it is told nothing. It goes on in any case.
pub proof fn lemma_kernel_is_told(
    device: Seq<char>,
    major: u32,
    minor: u32,
    holds: spec_fn(CheckView) -> bool,
    outcome: spec_fn(OpView) -> Outcome,
)
    ensures
        performed(
            resume_steps(
                device,
                ResumeStat::Device(device_of_numbers(major as u64, minor as u64)),
            ),
            0,
            holds,
            outcome,
        ) == seq![
            OpView::WriteFile {
                path: "/sys/power/resume"@,
                content: decimal(major as nat) + ":"@ + decimal(minor as nat),
            },
        ],
        forall|stat: ResumeStat|
            !(#[trigger] script_fails(resume_steps(device, stat), 0, holds, outcome)),
        forall|stat: ResumeStat, op: OpView|
            !(stat is Device) && (#[trigger] performed(
                resume_steps(device, stat),
                0,
                holds,
                outcome,
            ).contains(op)) ==> op is Log,
{
    lemma_device_round_trip(major, minor);
    reveal_with_fuel(performed, 2);
    reveal_with_fuel(script_fails, 2);
    let stat = ResumeStat::Device(device_of_numbers(major as u64, minor as u64));
    let write = OpView::WriteFile {
        path: "/sys/power/resume"@,
        content: decimal(major as nat) + ":"@ + decimal(minor as nat),
    };
    assert(does(resume_steps(device, stat)[0], write));
    assert(performed(resume_steps(device, stat), 0, holds, outcome) =~= seq![write]);
    assert forall|stat: ResumeStat|
        !(#[trigger] script_fails(resume_steps(device, stat), 0, holds, outcome)) by {
        assert(!script_fails(resume_steps(device, stat), 1, holds, outcome));
    }
    assert forall|stat: ResumeStat, op: OpView|
        !(stat is Device) && (#[trigger] performed(
            resume_steps(device, stat),
            0,
            holds,
            outcome,
        ).contains(op)) implies op is Log by {
        lemma_only_steps_are_performed(resume_steps(device, stat), 0, holds, outcome, op);
    }
}

/// What is said of the search names the device that it found, and changes nothing.
pub proof fn lemma_search_is_announced(
    device: Seq<char>,
    holds: spec_fn(CheckView) -> bool,
    outcome: spec_fn(OpView) -> Outcome,
)
    ensures
        performed(announce_steps(Some(device)), 0, holds, outcome) == seq![
            OpView::Log("Attempting resume from: "@ + device),
        ],
        performed(announce_steps(None), 0, holds, outcome) == seq![
            OpView::Log("No resume device found"@),
        ],
{
    let a = announce_steps(Some(device));
    let b = announce_steps(None);
    assert(performed(a, 1, holds, outcome) == Seq::<OpView>::empty());
    assert(performed(b, 1, holds, outcome) == Seq::<OpView>::empty());
    assert(performed(a, 0, holds, outcome) =~= seq![
        OpView::Log("Attempting resume from: "@ + device),
    ]);
    assert(performed(b, 0, holds, outcome) =~= seq![OpView::Log("No resume device found"@)]);
}

/// What is said of a failed attempt to resume says why.
pub proof fn lemma_words_on_resume(device: Seq<char>, rdev: u64)
    ensures
        ({
            let head = "Resume failed (this is normal if not resuming): "@;
            let step = resume_steps(device, ResumeStat::Device(rdev))[0];
            &&& resume_steps(device, ResumeStat::Missing) == seq![
                log(head + "Resume device does not exist: "@ + device),
            ]
            &&& resume_steps(device, ResumeStat::Failed) == seq![
                log(head + "Failed to stat resume device"@),
            ]
            &&& reaction(step, Outcome::Done) == ReactionView::Log("Resume completed"@)
            &&& reaction(step, Outcome::Failed) == ReactionView::Log(
                head + "Failed to write to /sys/power/resume"@,
            )
        }),
{
}

} // verus!
