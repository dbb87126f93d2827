//! Running scenarios: each one goes through its before-hook, its steps in the
//! declared order and its after-hook; only so many run at a time.

use vstd::prelude::*;

verus! {

/// How many scenarios run at the same time unless the scheduler is told otherwise.
pub const MAX_CONCURRENT_SCENARIOS: usize = 5;

/// How a step, a hook or a whole scenario ended.
#[derive(Clone, Copy, Debug, PartialEq, Eq, Structural)]
pub enum Outcome {
    Passed,
    Failed,
    Skipped,
}

/// The state of a scenario as the report shows it.
#[derive(Clone, Copy, Debug, PartialEq, Eq, Structural)]
pub enum ScenarioState {
    Pending,
    Running,
    Passed,
    Failed,
    Skipped,
}

/// Where exactly a scenario stands.
#[derive(Clone, Copy, Debug, PartialEq, Eq, Structural)]
pub enum Stage {
    /// Waiting for a slot.
    Pending,
    /// The before-hook is running.
    BeforeHook,
    /// The step with this index is running.
    Step(usize),
    /// The after-hook is running; the scenario will end with this outcome.
    AfterHook(Outcome),
    /// The scenario has ended with this outcome.
    Done(Outcome),
}

/// What happens to a scenario.
#[derive(Clone, Copy, Debug, PartialEq, Eq, Structural)]
pub enum Event {
    /// The scheduler has given the scenario a slot.
    Admitted,
    /// What the scenario was doing has ended in this way.
    Completed(Outcome),
    /// The scenario is called off.
    Aborted,
}

/// What the runner of a scenario does next.
#[derive(Clone, Copy, Debug, PartialEq, Eq, Structural)]
pub enum Action {
    RunBeforeHook,
    RunStep(usize),
    /// Run the after-hook, which tears the scenario's world down.
    RunAfterHook(Outcome),
    /// Give the slot back: the scenario has ended with this outcome.
    Release(Outcome),
    /// Nothing: the event does not concern the scenario as it stands.
    Idle,
}

/// One scenario: the number of its steps, and where it stands.
#[derive(Clone, Copy, Debug, PartialEq, Eq, Structural)]
pub struct ScenarioRun {
    pub steps: usize,
    pub stage: Stage,
}

/// What the scenario does when its before-hook or a step has passed and
/// `next` steps are behind it: the next step, or the after-hook if none is left.
pub open spec fn proceed(run: ScenarioRun, next: int) -> (ScenarioRun, Action) {
    if next < run.steps {
        (ScenarioRun { stage: Stage::Step(next as usize), ..run }, Action::RunStep(next as usize))
    } else {
        (
            ScenarioRun { stage: Stage::AfterHook(Outcome::Passed), ..run },
            Action::RunAfterHook(Outcome::Passed),
        )
    }
}

/// What the scenario does when it cannot go on and ends with `outcome`.
pub open spec fn wind_up(run: ScenarioRun, outcome: Outcome) -> (ScenarioRun, Action) {
    (ScenarioRun { stage: Stage::AfterHook(outcome), ..run }, Action::RunAfterHook(outcome))
}

/// The scenario after an event, and what its runner does next.
pub open spec fn react(run: ScenarioRun, event: Event) -> (ScenarioRun, Action) {
    match (run.stage, event) {
        (Stage::Pending, Event::Admitted) => (
            ScenarioRun { stage: Stage::BeforeHook, ..run },
            Action::RunBeforeHook,
        ),
        (Stage::BeforeHook, Event::Completed(Outcome::Passed)) => proceed(run, 0),
        (Stage::BeforeHook, Event::Completed(_)) => wind_up(run, Outcome::Failed),
        (Stage::BeforeHook, Event::Aborted) => wind_up(run, Outcome::Failed),
        (Stage::Step(i), Event::Completed(Outcome::Passed)) => proceed(run, i + 1),
        (Stage::Step(_), Event::Completed(outcome)) => wind_up(run, outcome),
        (Stage::Step(_), Event::Aborted) => wind_up(run, Outcome::Failed),
        (Stage::AfterHook(outcome), Event::Completed(_)) => (
            ScenarioRun { stage: Stage::Done(outcome), ..run },
            Action::Release(outcome),
        ),
        _ => (run, Action::Idle),
    }
}

impl ScenarioRun {
    /// A running step is one of the scenario's steps.
    pub open spec fn wf(&self) -> bool {
        self.stage matches Stage::Step(i) ==> i < self.steps
    }

    /// The state of the scenario as the report shows it.
    pub open spec fn spec_state(&self) -> ScenarioState {
        match self.stage {
            Stage::Pending => ScenarioState::Pending,
            Stage::BeforeHook | Stage::Step(_) | Stage::AfterHook(_) => ScenarioState::Running,
            Stage::Done(Outcome::Passed) => ScenarioState::Passed,
            Stage::Done(Outcome::Failed) => ScenarioState::Failed,
            Stage::Done(Outcome::Skipped) => ScenarioState::Skipped,
        }
    }

    /// A scenario of `steps` steps that waits for a slot.
    pub fn new(steps: usize) -> (run: ScenarioRun)
        ensures
            run == (ScenarioRun { steps, stage: Stage::Pending }),
            run.wf(),
    {
        ScenarioRun { steps, stage: Stage::Pending }
    }

    /// The state of the scenario as the report shows it.
    #[verifier::when_used_as_spec(spec_state)]
    pub fn state(&self) -> (s: ScenarioState)
        ensures
            s == self.spec_state(),
    {
        match self.stage {
            Stage::Pending => ScenarioState::Pending,
            Stage::BeforeHook => ScenarioState::Running,
            Stage::Step(_) => ScenarioState::Running,
            Stage::AfterHook(_) => ScenarioState::Running,
            Stage::Done(Outcome::Passed) => ScenarioState::Passed,
            Stage::Done(Outcome::Failed) => ScenarioState::Failed,
            Stage::Done(Outcome::Skipped) => ScenarioState::Skipped,
        }
    }

    fn proceed_to(&mut self, next: usize) -> (action: Action)
        requires
            next <= old(self).steps,
        ensures
            (*final(self), action) == proceed(*old(self), next as int),
            final(self).wf(),
    {
        if next < self.steps {
            self.stage = Stage::Step(next);
            Action::RunStep(next)
        } else {
            self.stage = Stage::AfterHook(Outcome::Passed);
            Action::RunAfterHook(Outcome::Passed)
        }
    }

    fn wind_up_with(&mut self, outcome: Outcome) -> (action: Action)
        ensures
            (*final(self), action) == wind_up(*old(self), outcome),
            final(self).wf(),
    {
        self.stage = Stage::AfterHook(outcome);
        Action::RunAfterHook(outcome)
    }

    /// Takes note of `event` and says what the runner does next.
    pub fn on_event(&mut self, event: Event) -> (action: Action)
        requires
            old(self).wf(),
        ensures
            final(self).wf(),
            (*final(self), action) == react(*old(self), event),
    {
        match self.stage {
            Stage::Pending => match event {
                Event::Admitted => {
                    self.stage = Stage::BeforeHook;
                    Action::RunBeforeHook
                },
                _ => Action::Idle,
            },
            Stage::BeforeHook => match event {
                Event::Completed(Outcome::Passed) => self.proceed_to(0),
                Event::Completed(_) => self.wind_up_with(Outcome::Failed),
                Event::Aborted => self.wind_up_with(Outcome::Failed),
                Event::Admitted => Action::Idle,
            },
            Stage::Step(i) => match event {
                Event::Completed(Outcome::Passed) => self.proceed_to(i + 1),
                Event::Completed(outcome) => self.wind_up_with(outcome),
                Event::Aborted => self.wind_up_with(Outcome::Failed),
                Event::Admitted => Action::Idle,
            },
            Stage::AfterHook(outcome) => match event {
                Event::Completed(_) => {
                    self.stage = Stage::Done(outcome);
                    Action::Release(outcome)
                },
                _ => Action::Idle,
            },
            Stage::Done(_) => Action::Idle,
        }
    }
}

/// The scenario after the events `events`, one after the other, and the
/// actions that its runner was given on the way.
pub open spec fn history(run: ScenarioRun, events: Seq<Event>) -> (ScenarioRun, Seq<Action>)
    decreases events.len(),
{
    if events.len() == 0 {
        (run, Seq::empty())
    } else {
        let (so_far, actions) = history(run, events.drop_last());
        let (next, action) = react(so_far, events.last());
        (next, actions.push(action))
    }
}

/// How many times `actions` asks for the before-hook.
pub open spec fn before_hooks(actions: Seq<Action>) -> nat
    decreases actions.len(),
{
    if actions.len() == 0 {
        0
    } else {
        before_hooks(actions.drop_last()) + if actions.last() == Action::RunBeforeHook {
            1nat
        } else {
            0nat
        }
    }
}

/// How many times `actions` asks for the after-hook.
pub open spec fn after_hooks(actions: Seq<Action>) -> nat
    decreases actions.len(),
{
    if actions.len() == 0 {
        0
    } else {
        after_hooks(actions.drop_last()) + if actions.last() is RunAfterHook {
            1nat
        } else {
            0nat
        }
    }
}

/// The steps that `actions` asks for, in the order in which it asks for them.
pub open spec fn steps_started(actions: Seq<Action>) -> Seq<usize>
    decreases actions.len(),
{
    if actions.len() == 0 {
        Seq::empty()
    } else {
        match actions.last() {
            Action::RunStep(i) => steps_started(actions.drop_last()).push(i),
            _ => steps_started(actions.drop_last()),
        }
    }
}

/// What holds of a scenario of `steps` steps and of the actions given so far.
pub open spec fn orderly(steps: usize, run: ScenarioRun, actions: Seq<Action>) -> bool {
    let started = steps_started(actions);
    &&& run.wf()
    &&& run.steps == steps
    &&& before_hooks(actions) == if run.stage is Pending {
        0nat
    } else {
        1nat
    }
    &&& after_hooks(actions) == if run.stage is AfterHook || run.stage is Done {
        1nat
    } else {
        0nat
    }
    &&& started.len() <= steps
    &&& forall|i: int| 0 <= i < started.len() ==> started[i] == i
    &&& match run.stage {
        Stage::Pending | Stage::BeforeHook => started.len() == 0,
        Stage::Step(i) => started.len() == i + 1,
        Stage::AfterHook(Outcome::Passed) | Stage::Done(Outcome::Passed) => started.len() == steps,
        _ => true,
    }
}

proof fn lemma_orderly_step(steps: usize, run: ScenarioRun, actions: Seq<Action>, event: Event)
    requires
        orderly(steps, run, actions),
    ensures
        orderly(steps, react(run, event).0, actions.push(react(run, event).1)),
{
    let extended = actions.push(react(run, event).1);
    assert(extended.drop_last() =~= actions);
    assert(extended.last() == react(run, event).1);
}

/// Whatever happens to a scenario, its before-hook is asked for once, when it
/// leaves the pending state and before anything else; its after-hook is asked
/// for once, before it ends, however it ends; its steps are asked for in the
/// declared order, none twice and none skipped over; and a scenario that has
/// passed has had all of its steps asked for.
pub proof fn law_scenario_runs_in_order(steps: usize, events: Seq<Event>)
    ensures
        orderly(
            steps,
            history(ScenarioRun { steps, stage: Stage::Pending }, events).0,
            history(ScenarioRun { steps, stage: Stage::Pending }, events).1,
        ),
    decreases events.len(),
{
    let fresh = ScenarioRun { steps, stage: Stage::Pending };
    if events.len() > 0 {
        law_scenario_runs_in_order(steps, events.drop_last());
        let (so_far, actions) = history(fresh, events.drop_last());
        lemma_orderly_step(steps, so_far, actions, events.last());
    }
}

/// How many of `runs` hold a slot.
pub open spec fn running_among(runs: Seq<ScenarioRun>) -> nat
    decreases runs.len(),
{
    if runs.len() == 0 {
        0
    } else {
        running_among(runs.drop_last()) + if runs.last().state() == ScenarioState::Running {
            1nat
        } else {
            0nat
        }
    }
}

/// Replacing one scenario changes the number of running scenarios by what
/// that scenario adds or takes away.
pub proof fn lemma_running_after_update(runs: Seq<ScenarioRun>, i: int, run: ScenarioRun)
    requires
        0 <= i < runs.len(),
    ensures
        running_among(runs.update(i, run)) + (if runs[i].state() == ScenarioState::Running {
            1nat
        } else {
            0nat
        }) == running_among(runs) + (if run.state() == ScenarioState::Running {
            1nat
        } else {
            0nat
        }),
    decreases runs.len(),
{
    let updated = runs.update(i, run);
    if i == runs.len() - 1 {
        assert(updated.drop_last() =~= runs.drop_last());
    } else {
        assert(updated.drop_last() =~= runs.drop_last().update(i, run));
        lemma_running_after_update(runs.drop_last(), i, run);
    }
}

/// Scenarios without a running one hold no slot.
pub proof fn lemma_none_running(runs: Seq<ScenarioRun>)
    requires
        forall|i: int| 0 <= i < runs.len() ==> runs[i].state() != ScenarioState::Running,
    ensures
        running_among(runs) == 0,
    decreases runs.len(),
{
    if runs.len() > 0 {
        lemma_none_running(runs.drop_last());
    }
}

/// The scenarios of a suite and the slots they share.
pub struct Scheduler {
    cap: usize,
    runs: Vec<ScenarioRun>,
    running: usize,
}

impl Scheduler {
    /// The scenarios, in the order in which they were declared.
    pub closed spec fn runs(&self) -> Seq<ScenarioRun> {
        self.runs@
    }

    /// How many scenarios may run at the same time.
    pub closed spec fn cap(&self) -> nat {
        self.cap as nat
    }

    /// Every scenario is sound, and no more of them hold a slot than there are slots.
    pub closed spec fn wf(&self) -> bool {
        &&& forall|i: int| 0 <= i < self.runs.len() ==> (#[trigger] self.runs[i]).wf()
        &&& self.running == running_among(self.runs@)
        &&& self.running <= self.cap
    }

    /// At no time do more scenarios hold a slot than there are slots: every
    /// operation of the scheduler keeps it sound, and in a sound scheduler the
    /// running scenarios are no more than the slots.
    pub proof fn law_running_within_cap(&self)
        requires
            self.wf(),
        ensures
            running_among(self.runs()) <= self.cap(),
            forall|i: int| 0 <= i < self.runs().len() ==> (#[trigger] self.runs()[i]).wf(),
    {
    }

    /// A scheduler for scenarios with the given numbers of steps, all of them
    /// pending, with `cap` slots.
    pub fn new(cap: usize, steps: &Vec<usize>) -> (s: Scheduler)
        ensures
            s.wf(),
            s.cap() == cap,
            s.runs() == Seq::new(
                steps.len() as nat,
                |i: int| ScenarioRun { steps: steps[i], stage: Stage::Pending },
            ),
            running_among(s.runs()) == 0,
    {
        let mut runs: Vec<ScenarioRun> = Vec::new();
        let mut i: usize = 0;
        while i < steps.len()
            invariant
                i <= steps.len(),
                runs@ == Seq::new(
                    i as nat,
                    |k: int| ScenarioRun { steps: steps[k], stage: Stage::Pending },
                ),
            decreases steps.len() - i,
        {
            runs.push(ScenarioRun::new(steps[i]));
            assert(runs@ =~= Seq::new(
                (i + 1) as nat,
                |k: int| ScenarioRun { steps: steps[k], stage: Stage::Pending },
            ));
            i += 1;
        }
        proof {
            lemma_none_running(runs@);
        }
        Scheduler { cap, runs, running: 0 }
    }

    /// How many scenarios hold a slot.
    pub fn running(&self) -> (n: usize)
        requires
            self.wf(),
        ensures
            n == running_among(self.runs()),
            n <= self.cap(),
    {
        self.running
    }

    /// How many scenarios there are.
    pub fn len(&self) -> (n: usize)
        ensures
            n == self.runs().len(),
    {
        self.runs.len()
    }

    /// The scenario with index `id`.
    pub fn scenario(&self, id: usize) -> (run: ScenarioRun)
        requires
            id < self.runs().len(),
        ensures
            run == self.runs()[id as int],
    {
        self.runs[id]
    }

    /// Gives a free slot to the first pending scenario and returns its index:
    /// its before-hook is to be run. Nothing happens if no slot is free or no
    /// scenario is pending.
    pub fn start_next(&mut self) -> (r: Option<usize>)
        requires
            old(self).wf(),
        ensures
            final(self).wf(),
            final(self).cap() == old(self).cap(),
            match r {
                Some(id) => {
                    &&& running_among(old(self).runs()) < old(self).cap()
                    &&& id < old(self).runs().len()
                    &&& old(self).runs()[id as int].stage is Pending
                    &&& forall|j: int| 0 <= j < id ==> !(old(self).runs()[j].stage is Pending)
                    &&& final(self).runs() == old(self).runs().update(
                        id as int,
                        react(old(self).runs()[id as int], Event::Admitted).0,
                    )
                    &&& running_among(final(self).runs()) == running_among(old(self).runs()) + 1
                },
                None => {
                    &&& running_among(old(self).runs()) == old(self).cap() || forall|j: int|
                        0 <= j < old(self).runs().len() ==> !(old(self).runs()[j].stage is Pending)
                    &&& final(self).runs() == old(self).runs()
                },
            },
    {
        if self.running >= self.cap {
            return None;
        }
        let mut i: usize = 0;
        while i < self.runs.len()
            invariant
                i <= self.runs.len(),
                self.wf(),
                self.running < self.cap,
                *self == *old(self),
                forall|j: int| 0 <= j < i ==> !(self.runs[j].stage is Pending),
            decreases self.runs.len() - i,
        {
            let mut run = self.runs[i];
            if let Stage::Pending = run.stage {
                proof {
                    lemma_running_after_update(
                        self.runs@,
                        i as int,
                        react(self.runs[i as int], Event::Admitted).0,
                    );
                }
                run.on_event(Event::Admitted);
                self.runs.set(i, run);
                self.running = self.running + 1;
                return Some(i);
            }
            i += 1;
        }
        None
    }

    /// Tells the scenario with index `id` what has happened to it, and says
    /// what its runner does next. A scenario gets its slot through `start_next`
    /// alone: here `Admitted` changes nothing.
    pub fn report(&mut self, id: usize, event: Event) -> (action: Action)
        requires
            old(self).wf(),
            id < old(self).runs().len(),
        ensures
            final(self).wf(),
            final(self).cap() == old(self).cap(),
            if event == Event::Admitted {
                action == Action::Idle && final(self).runs() == old(self).runs()
            } else {
                &&& action == react(old(self).runs()[id as int], event).1
                &&& final(self).runs() == old(self).runs().update(
                    id as int,
                    react(old(self).runs()[id as int], event).0,
                )
            },
    {
        if let Event::Admitted = event {
            return Action::Idle;
        }
        let mut run = self.runs[id];
        let was_running = run.state() == ScenarioState::Running;
        proof {
            lemma_running_after_update(self.runs@, id as int, react(self.runs[id as int], event).0);
        }
        let action = run.on_event(event);
        let is_running = run.state() == ScenarioState::Running;
        self.runs.set(id, run);
        if was_running && !is_running {
            self.running = self.running - 1;
        }
        action
    }

    /// Whether every scenario has ended.
    pub fn all_done(&self) -> (done: bool)
        ensures
            done == forall|i: int| 0 <= i < self.runs().len() ==> self.runs()[i].stage is Done,
    {
        let mut i: usize = 0;
        while i < self.runs.len()
            invariant
                i <= self.runs.len(),
                forall|j: int| 0 <= j < i ==> self.runs[j].stage is Done,
            decreases self.runs.len() - i,
        {
            match self.runs[i].stage {
                Stage::Done(_) => {},
                _ => {
                    return false;
                },
            }
            i += 1;
        }
        true
    }

    /// Whether the suite has failed: some scenario has ended in failure.
    pub fn any_failed(&self) -> (failed: bool)
        ensures
            failed == exists|i: int|
                0 <= i < self.runs().len() && self.runs()[i].stage == Stage::Done(Outcome::Failed),
    {
        let mut i: usize = 0;
        while i < self.runs.len()
            invariant
                i <= self.runs.len(),
                forall|j: int| 0 <= j < i ==> self.runs[j].stage != Stage::Done(Outcome::Failed),
            decreases self.runs.len() - i,
        {
            if let Stage::Done(Outcome::Failed) = self.runs[i].stage {
                return true;
            }
            i += 1;
        }
        false
    }
}

} // verus!
