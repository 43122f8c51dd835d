//! The event loop: which input ends it, and which work it starts in the background.

use vstd::prelude::*;

use crate::actions::ConfirmAction;
use crate::subscription::SubConfig;

verus! {

/// Terminal input, as far as the loop looks at it.
pub enum Input {
    /// A key.
    Key {
        /// Whether it went down, rather than up or repeated itself.
        pressed: bool,
        /// The character that it stands for, where it stands for one.
        character: Option<char>,
        /// Whether Control was held.
        control: bool,
    },
    /// Anything else.
    Other,
}

/// What the loop does about input.
pub enum InputAction {
    /// End the session.
    Quit,
    /// Leave it to the screen.
    Forward,
    /// Nothing.
    Ignore,
}

/// Tells whether `input` is Control-C going down.
pub open spec fn is_interrupt(input: Input) -> bool {
    input matches Input::Key { pressed, character, control } && pressed && control && character
        == Some('c')
}

/// Tells whether `input` is a key going down.
pub open spec fn is_key_press(input: Input) -> bool {
    input matches Input::Key { pressed, .. } && pressed
}

/// Decides what to do about input: Control-C ends the session, every other key that goes down is
/// the screen's.
pub fn on_input(input: &Input) -> (r: InputAction)
    ensures
        r is Quit <==> is_interrupt(*input),
        r is Forward <==> is_key_press(*input) && !is_interrupt(*input),
        r is Ignore <==> !is_key_press(*input),
{
    match input {
        Input::Key { pressed, character, control } => {
            if !*pressed {
                return InputAction::Ignore;
            }
            match character {
                Some(c) => {
                    if *c == 'c' && *control {
                        InputAction::Quit
                    } else {
                        InputAction::Forward
                    }
                },
                None => InputAction::Forward,
            }
        },
        Input::Other => InputAction::Ignore,
    }
}

/// Work that the screen has asked for and that has not been started.
pub struct Pending {
    /// The container to inspect.
    pub inspect: Option<String>,
    /// Whether the images are to be listed.
    pub image_ls: bool,
    /// The image to pull.
    pub image_pull: Option<String>,
    /// The image to remove.
    pub image_rm: Option<String>,
    /// The image to inspect.
    pub image_inspect: Option<String>,
    /// The `run` command to carry out.
    pub run: Option<String>,
    /// The confirmed action and its targets.
    pub action: Option<(ConfirmAction, Vec<String>)>,
}

/// Work to start in the background.
pub enum Job {
    Inspect(String),
    ImageLs,
    ImagePull(String),
    ImageRm(String),
    ImageInspect(String),
    Run(String),
    Action(ConfirmAction, Vec<String>),
}

/// A job, where there is one.
pub open spec fn one(job: Option<Job>) -> Seq<Job> {
    match job {
        Some(j) => seq![j],
        None => seq![],
    }
}

/// The jobs that `p` asks for, each kind at most once, always in the same order.
pub open spec fn jobs_of(p: Pending) -> Seq<Job> {
    let inspect = match p.inspect {
        Some(name) => Some(Job::Inspect(name)),
        None => None,
    };
    let image_ls = if p.image_ls {
        Some(Job::ImageLs)
    } else {
        None
    };
    let image_pull = match p.image_pull {
        Some(reference) => Some(Job::ImagePull(reference)),
        None => None,
    };
    let image_rm = match p.image_rm {
        Some(reference) => Some(Job::ImageRm(reference)),
        None => None,
    };
    let image_inspect = match p.image_inspect {
        Some(reference) => Some(Job::ImageInspect(reference)),
        None => None,
    };
    let run = match p.run {
        Some(input) => Some(Job::Run(input)),
        None => None,
    };
    let action = match p.action {
        Some((action, targets)) => Some(Job::Action(action, targets)),
        None => None,
    };
    one(inspect) + one(image_ls) + one(image_pull) + one(image_rm) + one(image_inspect) + one(run)
        + one(action)
}

fn push_one(jobs: &mut Vec<Job>, job: Option<Job>)
    ensures
        final(jobs)@ == old(jobs)@ + one(job),
{
    if let Some(j) = job {
        jobs.push(j);
    }
}

/// Tells whether nothing is asked for.
pub open spec fn idle(p: Pending) -> bool {
    &&& p.inspect is None
    &&& !p.image_ls
    &&& p.image_pull is None
    &&& p.image_rm is None
    &&& p.image_inspect is None
    &&& p.run is None
    &&& p.action is None
}

impl Pending {
    /// Nothing asked for.
    pub fn new() -> (r: Pending)
        ensures
            idle(r),
    {
        Pending {
            inspect: None,
            image_ls: false,
            image_pull: None,
            image_rm: None,
            image_inspect: None,
            run: None,
            action: None,
        }
    }

    /// Takes out everything that is asked for.
    pub fn take_jobs(&mut self) -> (r: Vec<Job>)
        ensures
            r@ == jobs_of(*old(self)),
            idle(*final(self)),
    {
        let mut jobs: Vec<Job> = Vec::new();
        let inspect = match self.inspect.take() {
            Some(name) => Some(Job::Inspect(name)),
            None => None,
        };
        push_one(&mut jobs, inspect);
        assert(jobs@ =~= one(inspect));
        let image_ls = if self.image_ls {
            Some(Job::ImageLs)
        } else {
            None
        };
        self.image_ls = false;
        push_one(&mut jobs, image_ls);
        let image_pull = match self.image_pull.take() {
            Some(reference) => Some(Job::ImagePull(reference)),
            None => None,
        };
        push_one(&mut jobs, image_pull);
        let image_rm = match self.image_rm.take() {
            Some(reference) => Some(Job::ImageRm(reference)),
            None => None,
        };
        push_one(&mut jobs, image_rm);
        let image_inspect = match self.image_inspect.take() {
            Some(reference) => Some(Job::ImageInspect(reference)),
            None => None,
        };
        push_one(&mut jobs, image_inspect);
        let run = match self.run.take() {
            Some(input) => Some(Job::Run(input)),
            None => None,
        };
        push_one(&mut jobs, run);
        let action = match self.action.take() {
            Some((action, targets)) => Some(Job::Action(action, targets)),
            None => None,
        };
        push_one(&mut jobs, action);
        jobs
    }
}

/// A session: what the screen has asked for, and whether it is to end.
pub struct Session {
    pub pending: Pending,
    pub should_quit: bool,
}

/// What a turn of the loop ends with.
pub struct TurnEnd {
    /// The work to start.
    pub jobs: Vec<Job>,
    /// Whether the subscription was made to start over.
    pub reconnects: bool,
    /// Whether this was the last turn.
    pub over: bool,
}

impl Session {
    /// A session that has just begun.
    pub fn new() -> (r: Session)
        ensures
            idle(r.pending),
            !r.should_quit,
    {
        Session { pending: Pending::new(), should_quit: false }
    }

    /// Takes input. Tells whether it is the screen's.
    pub fn input(&mut self, input: &Input) -> (r: bool)
        ensures
            final(self).pending == old(self).pending,
            final(self).should_quit == (old(self).should_quit || is_interrupt(*input)),
            r == (is_key_press(*input) && !is_interrupt(*input)),
    {
        match on_input(input) {
            InputAction::Quit => {
                self.should_quit = true;
                false
            },
            InputAction::Forward => true,
            InputAction::Ignore => false,
        }
    }

    /// Ends a turn of the loop.
    ///
    /// All that is asked for is started, also where this turn is the last one. A subscription
    /// that was silent for `silent_ms` milliseconds starts over where that is too long.
    pub fn end_turn(&mut self, config: &mut SubConfig, silent_ms: u64) -> (r: TurnEnd)
        ensures
            r.jobs@ == jobs_of(old(self).pending),
            idle(final(self).pending),
            final(self).should_quit == old(self).should_quit,
            r.over == old(self).should_quit,
            r.reconnects == crate::subscription::stale(silent_ms as int),
            r.reconnects == (silent_ms > 15_000),
            silent_ms <= 15_000 ==> final(config).generation == old(config).generation,
            silent_ms > 15_000 ==> final(config).generation != old(config).generation,
            final(config).profile == old(config).profile,
            final(config).generation == if r.reconnects {
                crate::subscription::next_generation(old(config).generation)
            } else {
                old(config).generation
            },
    {
        let jobs = self.pending.take_jobs();
        let reconnects = config.check_liveness(silent_ms);
        TurnEnd { jobs, reconnects, over: self.should_quit }
    }
}

/// What has been started is not started again.
pub proof fn law_jobs_start_once(p: Pending)
    requires
        idle(p),
    ensures
        jobs_of(p).len() == 0,
{
}

/// Control-C ends the session while it goes down; every other key that goes down is the screen's,
/// a plain `c` and other keys with Control among them.
pub proof fn law_control_c_ends_the_session(
    pressed: bool,
    character: Option<char>,
    control: bool,
)
    ensures
        ({
            let key = Input::Key { pressed, character, control };
            &&& is_key_press(key) <==> pressed
            &&& is_interrupt(key) ==> is_key_press(key) && control && character is Some
            &&& is_interrupt(key) <==> pressed && control && character == Some('c')
            &&& !is_interrupt(Input::Other)
            &&& !is_key_press(Input::Other)
        }),
{
}

/// Everything that is asked for becomes a job, and nothing else does.
pub proof fn law_jobs_are_what_is_asked_for(
    p: Pending,
    text: String,
    action: ConfirmAction,
    targets: Vec<String>,
)
    ensures
        jobs_of(p).contains(Job::Inspect(text)) <==> p.inspect == Some(text),
        jobs_of(p).contains(Job::ImageLs) <==> p.image_ls,
        jobs_of(p).contains(Job::ImagePull(text)) <==> p.image_pull == Some(text),
        jobs_of(p).contains(Job::ImageRm(text)) <==> p.image_rm == Some(text),
        jobs_of(p).contains(Job::ImageInspect(text)) <==> p.image_inspect == Some(text),
        jobs_of(p).contains(Job::Run(text)) <==> p.run == Some(text),
        jobs_of(p).contains(Job::Action(action, targets)) <==> p.action == Some((action, targets)),
{
    lemma_member(p, Job::Inspect(text), 0);
    lemma_member(p, Job::ImageLs, 1);
    lemma_member(p, Job::ImagePull(text), 2);
    lemma_member(p, Job::ImageRm(text), 3);
    lemma_member(p, Job::ImageInspect(text), 4);
    lemma_member(p, Job::Run(text), 5);
    lemma_member(p, Job::Action(action, targets), 6);
}

/// The place of a kind of job in the order in which jobs are started.
spec fn place(job: Job) -> int {
    match job {
        Job::Inspect(_) => 0,
        Job::ImageLs => 1,
        Job::ImagePull(_) => 2,
        Job::ImageRm(_) => 3,
        Job::ImageInspect(_) => 4,
        Job::Run(_) => 5,
        Job::Action(_, _) => 6,
    }
}

/// The job that `p` asks for in a place, where it asks for one.
spec fn asked(p: Pending, at: int) -> Option<Job> {
    if at == 0 {
        match p.inspect {
            Some(name) => Some(Job::Inspect(name)),
            None => None,
        }
    } else if at == 1 {
        if p.image_ls {
            Some(Job::ImageLs)
        } else {
            None
        }
    } else if at == 2 {
        match p.image_pull {
            Some(reference) => Some(Job::ImagePull(reference)),
            None => None,
        }
    } else if at == 3 {
        match p.image_rm {
            Some(reference) => Some(Job::ImageRm(reference)),
            None => None,
        }
    } else if at == 4 {
        match p.image_inspect {
            Some(reference) => Some(Job::ImageInspect(reference)),
            None => None,
        }
    } else if at == 5 {
        match p.run {
            Some(input) => Some(Job::Run(input)),
            None => None,
        }
    } else {
        match p.action {
            Some((action, targets)) => Some(Job::Action(action, targets)),
            None => None,
        }
    }
}

/// The jobs that `p` asks for in the places before `n`.
spec fn asked_before(p: Pending, n: int) -> Seq<Job>
    decreases n,
{
    if n <= 0 {
        seq![]
    } else {
        asked_before(p, n - 1) + one(asked(p, n - 1))
    }
}

proof fn lemma_parts_of_jobs(p: Pending)
    ensures
        jobs_of(p) == asked_before(p, 7),
{
    reveal_with_fuel(asked_before, 8);
    assert(asked_before(p, 1) =~= one(asked(p, 0)));
}

proof fn lemma_asked_before(p: Pending, n: int)
    requires
        0 <= n <= 7,
    ensures
        forall|k: int|
            0 <= k < asked_before(p, n).len() ==> {
                let job = #[trigger] asked_before(p, n)[k];
                0 <= place(job) < n && asked(p, place(job)) == Some(job)
            },
        forall|k: int, l: int|
            0 <= k < l < asked_before(p, n).len() ==> place(#[trigger] asked_before(p, n)[k])
                < place(#[trigger] asked_before(p, n)[l]),
        forall|at: int|
            0 <= at < n && (#[trigger] asked(p, at)) is Some ==> asked_before(p, n).contains(
                asked(p, at)->0,
            ),
    decreases n,
{
    if n > 0 {
        let before = asked_before(p, n - 1);
        let all = asked_before(p, n);
        lemma_asked_before(p, n - 1);
        assert forall|k: int| 0 <= k < all.len() implies {
            let job = #[trigger] all[k];
            0 <= place(job) < n && asked(p, place(job)) == Some(job)
        } by {
            if k < before.len() {
                assert(all[k] == before[k]);
            }
        }
        assert forall|k: int, l: int| 0 <= k < l < all.len() implies place(#[trigger] all[k])
            < place(#[trigger] all[l]) by {
            assert(all[k] == before[k]);
            if l < before.len() {
                assert(all[l] == before[l]);
            }
        }
        assert forall|at: int|
            0 <= at < n && (#[trigger] asked(p, at)) is Some implies all.contains(
            asked(p, at)->0,
        ) by {
            if at < n - 1 {
                let k = choose|k: int| 0 <= k < before.len() && before[k] == asked(p, at)->0;
                assert(all[k] == before[k]);
            } else {
                assert(all[before.len() as int] == asked(p, at)->0);
            }
        }
    }
}

proof fn lemma_member(p: Pending, job: Job, at: int)
    requires
        0 <= at < 7,
        at == place(job),
    ensures
        jobs_of(p).contains(job) <==> asked(p, at) == Some(job),
{
    lemma_parts_of_jobs(p);
    lemma_asked_before(p, 7);
    let all = asked_before(p, 7);
    if all.contains(job) {
        let k = choose|k: int| 0 <= k < all.len() && all[k] == job;
        assert(asked(p, place(all[k])) == Some(all[k]));
    }
}

/// Jobs are started in a fixed order, whatever is asked for: containers are inspected first, then
/// images are listed, pulled, removed and inspected, then comes the run and at last the action.
/// No kind of job is started twice.
pub proof fn law_jobs_start_in_order(p: Pending, i: int, j: int)
    requires
        0 <= i < j < jobs_of(p).len(),
    ensures
        ({
            let first = jobs_of(p)[i];
            let second = jobs_of(p)[j];
            &&& !(second is Inspect)
            &&& second is ImageLs ==> first is Inspect
            &&& second is ImagePull ==> first is Inspect || first is ImageLs
            &&& first is Action ==> false
            &&& first is Run ==> second is Action
            &&& first is ImageInspect ==> second is Run || second is Action
            &&& first is ImageRm ==> second is ImageInspect || second is Run || second is Action
        }),
{
    lemma_parts_of_jobs(p);
    lemma_asked_before(p, 7);
    assert(place(asked_before(p, 7)[i]) < place(asked_before(p, 7)[j]));
}

} // verus!
