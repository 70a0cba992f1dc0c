//! The refresh orchestrator.
//!
//! A refresh replaces the whole cache: it drops and recreates the four
//! tables, loads the course rows one course after the other, launches three
//! load tasks per course that run concurrently, and waits for them in the
//! order in which they were launched. The first failure ends the refresh;
//! nothing is rolled back.
//!
//! The orchestrator is a state machine. It says which step comes next; the
//! caller performs the step and reports how it ended.

use crate::data::error::{ErrorKind, SyncError, SyncErrorView};
use vstd::prelude::*;

verus! {

/// The four kinds of cached record, one table each.
#[derive(Clone, Copy, Debug, PartialEq, Eq, Structural)]
pub enum EntityKind {
    Course,
    Assignment,
    Student,
    Submission,
}

/// What a concurrent load task loads.
#[derive(Clone, Copy, Debug, PartialEq, Eq, Structural)]
pub enum LoadKind {
    Students,
    Assignments,
    Submissions,
}

/// One concurrent load task: one kind of record of one course.
#[derive(Clone, Copy, Debug, PartialEq, Eq, Structural)]
pub struct LoadTask {
    pub kind: LoadKind,
    pub course_id: i32,
}

/// One step of a refresh.
#[derive(Clone, Copy, Debug, PartialEq, Eq, Structural)]
pub enum Step {
    /// Remove the table if it is there.
    DropTable(EntityKind),
    /// Define the table.
    CreateTable(EntityKind),
    /// Fetch one course and store its row.
    LoadCourse(i32),
    /// Start a load task without waiting for it. Starting a task cannot
    /// fail: it is reported as succeeded.
    Launch(LoadTask),
    /// Wait for the task that was launched at this position, counted from 0
    /// over all launches, and report how it ended.
    Await(usize),
}

/// How a step ended.
#[derive(Debug)]
pub enum Outcome {
    Succeeded,
    /// The step failed with this error.
    Failed(SyncError),
    /// The task stopped without a result.
    Crashed,
}

/// What the caller has to do next.
#[derive(Debug)]
pub enum Action {
    /// Perform this step, then report its outcome.
    Run(Step),
    /// The refresh is over, with this result.
    Finish(Result<(), SyncError>),
}

/// The mathematical value of an [`Action`].
pub enum ActionView {
    Run(Step),
    Finish(Result<(), SyncErrorView>),
}

impl View for Action {
    type V = ActionView;

    open spec fn view(&self) -> ActionView {
        match *self {
            Action::Run(step) => ActionView::Run(step),
            Action::Finish(Ok(_)) => ActionView::Finish(Ok(())),
            Action::Finish(Err(e)) => ActionView::Finish(Err(e@)),
        }
    }
}

/// The error that stands for a task that stopped without a result.
pub open spec fn crash_error() -> SyncErrorView {
    SyncErrorView {
        kind: ErrorKind::Store,
        context: "Load Task Failure"@,
        cause: "the task stopped before it finished"@,
    }
}

impl Outcome {
    /// The failure that this outcome reports, if it reports one. A crashed
    /// task counts as a failure like any other.
    pub open spec fn failure(&self) -> Option<SyncErrorView> {
        match *self {
            Outcome::Succeeded => None,
            Outcome::Failed(e) => Some(e@),
            Outcome::Crashed => Some(crash_error()),
        }
    }
}

/// The eight steps that empty the cache: the four drops, then the four
/// definitions.
pub open spec fn table_steps() -> Seq<Step> {
    seq![
        Step::DropTable(EntityKind::Course),
        Step::DropTable(EntityKind::Assignment),
        Step::DropTable(EntityKind::Student),
        Step::DropTable(EntityKind::Submission),
        Step::CreateTable(EntityKind::Course),
        Step::CreateTable(EntityKind::Assignment),
        Step::CreateTable(EntityKind::Student),
        Step::CreateTable(EntityKind::Submission),
    ]
}

/// One sequential course load per course, in the order of the list.
pub open spec fn course_steps(course_ids: Seq<i32>) -> Seq<Step> {
    Seq::new(course_ids.len(), |i: int| Step::LoadCourse(course_ids[i]))
}

/// The kind of the `k`-th of the three tasks of a course.
pub open spec fn load_kind(k: int) -> LoadKind {
    if k == 0 {
        LoadKind::Students
    } else if k == 1 {
        LoadKind::Assignments
    } else {
        LoadKind::Submissions
    }
}

/// The load tasks of a refresh: for each course in turn its students, its
/// assignments and its submissions.
pub open spec fn load_tasks(course_ids: Seq<i32>) -> Seq<LoadTask> {
    Seq::new(
        3 * course_ids.len(),
        |j: int| LoadTask { kind: load_kind(j % 3), course_id: course_ids[j / 3] },
    )
}

/// One launch per load task.
pub open spec fn launch_steps(course_ids: Seq<i32>) -> Seq<Step> {
    Seq::new(3 * course_ids.len(), |j: int| Step::Launch(load_tasks(course_ids)[j]))
}

/// One wait per launched task, in the order of the launches.
pub open spec fn await_steps(count: nat) -> Seq<Step> {
    Seq::new(count, |j: int| Step::Await(j as usize))
}

/// Every step of a refresh of the given courses, in order.
pub open spec fn refresh_plan(course_ids: Seq<i32>) -> Seq<Step> {
    table_steps() + course_steps(course_ids) + launch_steps(course_ids) + await_steps(
        3 * course_ids.len(),
    )
}

/// How many of the steps launch a task.
pub open spec fn launch_count(steps: Seq<Step>) -> nat
    decreases steps.len(),
{
    if steps.len() == 0 {
        0
    } else {
        launch_count(steps.drop_last()) + if steps.last() is Launch {
            1nat
        } else {
            0nat
        }
    }
}

/// The mathematical state of a refresh: its plan, how many steps have
/// succeeded, and the failure that ended it, if one did.
pub struct RefreshView {
    pub plan: Seq<Step>,
    pub position: nat,
    pub failure: Option<SyncErrorView>,
}

impl RefreshView {
    /// The state before the first step of a refresh of the given courses.
    pub open spec fn start(course_ids: Seq<i32>) -> RefreshView {
        RefreshView { plan: refresh_plan(course_ids), position: 0, failure: None }
    }

    /// No step has been reported yet.
    pub open spec fn fresh(self) -> bool {
        self.position == 0 && self.failure is None
    }

    /// A step failed, or every step succeeded.
    pub open spec fn finished(self) -> bool {
        self.failure is Some || self.position >= self.plan.len()
    }

    /// What is to be done in this state.
    pub open spec fn action(self) -> ActionView {
        if self.failure is Some {
            ActionView::Finish(Err(self.failure->0))
        } else if self.position < self.plan.len() {
            ActionView::Run(self.plan[self.position as int])
        } else {
            ActionView::Finish(Ok(()))
        }
    }

    /// The state after the current step has ended with the given failure,
    /// or with none. A finished refresh stays as it is.
    pub open spec fn report(self, failure: Option<SyncErrorView>) -> RefreshView {
        if self.finished() {
            self
        } else if failure is Some {
            RefreshView { failure, ..self }
        } else {
            RefreshView { position: self.position + 1, ..self }
        }
    }

    /// The state after a sequence of reports.
    pub open spec fn run(self, reports: Seq<Option<SyncErrorView>>) -> RefreshView
        decreases reports.len(),
    {
        if reports.len() == 0 {
            self
        } else {
            self.run(reports.drop_last()).report(reports.last())
        }
    }
}

/// A refresh in progress.
pub struct Refresh {
    plan: Vec<Step>,
    position: usize,
    failure: Option<SyncError>,
}

impl View for Refresh {
    type V = RefreshView;

    closed spec fn view(&self) -> RefreshView {
        RefreshView {
            plan: self.plan@,
            position: self.position as nat,
            failure: match self.failure {
                Some(e) => Some(e@),
                None => None,
            },
        }
    }
}

/// The load tasks of the given courses.
fn build_tasks(course_ids: &Vec<i32>) -> (tasks: Vec<LoadTask>)
    ensures
        tasks@ == load_tasks(course_ids@),
{
    let mut tasks: Vec<LoadTask> = Vec::new();
    let mut i: usize = 0;
    while i < course_ids.len()
        invariant
            i <= course_ids.len(),
            tasks@ == load_tasks(course_ids@.take(i as int)),
        decreases course_ids.len() - i,
    {
        let course_id = course_ids[i];
        tasks.push(LoadTask { kind: LoadKind::Students, course_id });
        tasks.push(LoadTask { kind: LoadKind::Assignments, course_id });
        tasks.push(LoadTask { kind: LoadKind::Submissions, course_id });
        i += 1;
    }
    tasks
}

impl Refresh {
    /// A refresh of the given courses, before its first step.
    pub fn new(course_ids: &Vec<i32>) -> (refresh: Self)
        ensures
            refresh@ == RefreshView::start(course_ids@),
    {
        let mut plan: Vec<Step> = Vec::new();
        plan.push(Step::DropTable(EntityKind::Course));
        plan.push(Step::DropTable(EntityKind::Assignment));
        plan.push(Step::DropTable(EntityKind::Student));
        plan.push(Step::DropTable(EntityKind::Submission));
        plan.push(Step::CreateTable(EntityKind::Course));
        plan.push(Step::CreateTable(EntityKind::Assignment));
        plan.push(Step::CreateTable(EntityKind::Student));
        plan.push(Step::CreateTable(EntityKind::Submission));
        let mut i: usize = 0;
        while i < course_ids.len()
            invariant
                i <= course_ids.len(),
                plan@ == table_steps() + course_steps(course_ids@.take(i as int)),
            decreases course_ids.len() - i,
        {
            plan.push(Step::LoadCourse(course_ids[i]));
            i += 1;
        }
        assert(course_ids@.take(i as int) =~= course_ids@);
        let tasks = build_tasks(course_ids);
        let ghost before_launches = plan@;
        let mut j: usize = 0;
        while j < tasks.len()
            invariant
                j <= tasks.len(),
                tasks@ == load_tasks(course_ids@),
                plan@ == before_launches + launch_steps(course_ids@).take(j as int),
            decreases tasks.len() - j,
        {
            plan.push(Step::Launch(tasks[j]));
            j += 1;
        }
        assert(launch_steps(course_ids@).take(j as int) =~= launch_steps(course_ids@));
        let ghost before_awaits = plan@;
        let mut k: usize = 0;
        while k < tasks.len()
            invariant
                k <= tasks.len(),
                plan@ == before_awaits + await_steps(k as nat),
            decreases tasks.len() - k,
        {
            plan.push(Step::Await(k));
            k += 1;
        }
        Refresh { plan, position: 0, failure: None }
    }

    /// What the caller has to do now. Asking again without a report in
    /// between gives the same answer.
    pub fn action(&self) -> (action: Action)
        ensures
            action@ == self@.action(),
    {
        match &self.failure {
            Some(e) => Action::Finish(Err(e.duplicate())),
            None => {
                if self.position < self.plan.len() {
                    Action::Run(self.plan[self.position])
                } else {
                    Action::Finish(Ok(()))
                }
            },
        }
    }

    /// Whether the refresh is over.
    pub fn is_finished(&self) -> (done: bool)
        ensures
            done == self@.finished(),
    {
        self.failure.is_some() || self.position >= self.plan.len()
    }

    /// Records how the current step ended. A failure or a crash ends the
    /// refresh with that error; a success moves on to the next step. Reports
    /// to a finished refresh are ignored.
    pub fn report(&mut self, outcome: Outcome)
        ensures
            final(self)@ == old(self)@.report(outcome.failure()),
    {
        if self.failure.is_some() || self.position >= self.plan.len() {
            return ;
        }
        match outcome {
            Outcome::Succeeded => {
                self.position = self.position + 1;
            },
            Outcome::Failed(e) => {
                self.failure = Some(e);
            },
            Outcome::Crashed => {
                self.failure = Some(
                    SyncError::new(
                        ErrorKind::Store,
                        "Load Task Failure",
                        "the task stopped before it finished",
                    ),
                );
            },
        }
    }
}

/// Counting launches distributes over concatenation.
proof fn lemma_launch_count_concat(a: Seq<Step>, b: Seq<Step>)
    ensures
        launch_count(a + b) == launch_count(a) + launch_count(b),
    decreases b.len(),
{
    if b.len() > 0 {
        assert((a + b).drop_last() =~= a + b.drop_last());
        lemma_launch_count_concat(a, b.drop_last());
    }
}

/// A sequence without launches counts zero; one of launches alone counts its
/// length.
proof fn lemma_launch_count_uniform(steps: Seq<Step>)
    ensures
        (forall|i: int| 0 <= i < steps.len() ==> !(#[trigger] steps[i] is Launch))
            ==> launch_count(steps) == 0,
        (forall|i: int| 0 <= i < steps.len() ==> #[trigger] steps[i] is Launch) ==> launch_count(
            steps,
        ) == steps.len(),
    decreases steps.len(),
{
    if steps.len() > 0 {
        lemma_launch_count_uniform(steps.drop_last());
    }
}

/// A refresh of `C` courses launches exactly `3 * C` load tasks: for each
/// course, in the order of the list, its students, its assignments and its
/// submissions. Before the first launch the tables are dropped and defined
/// anew and every course is loaded; after the last launch each task is
/// waited for, in the order of the launches.
pub proof fn lemma_fan_out(course_ids: Seq<i32>)
    ensures
        launch_count(refresh_plan(course_ids)) == 3 * course_ids.len(),
        refresh_plan(course_ids).len() == 8 + 7 * course_ids.len(),
        refresh_plan(course_ids).take(8) == table_steps(),
        forall|i: int|
            0 <= i < course_ids.len() ==> #[trigger] refresh_plan(course_ids)[8 + i]
                == Step::LoadCourse(course_ids[i]),
        forall|i: int, k: int|
            0 <= i < course_ids.len() && 0 <= k < 3 ==> #[trigger] refresh_plan(course_ids)[8
                + course_ids.len() + 3 * i + k] == Step::Launch(
                LoadTask { kind: load_kind(k), course_id: course_ids[i] },
            ),
        forall|j: int|
            0 <= j < 3 * course_ids.len() ==> #[trigger] refresh_plan(course_ids)[8 + 4
                * course_ids.len() + j] == Step::Await(j as usize),
{
    let c = course_ids.len();
    let tables = table_steps();
    let courses = course_steps(course_ids);
    let launches = launch_steps(course_ids);
    let awaits = await_steps(3 * c);
    lemma_launch_count_uniform(tables);
    lemma_launch_count_uniform(courses);
    lemma_launch_count_uniform(launches);
    lemma_launch_count_uniform(awaits);
    lemma_launch_count_concat(tables, courses);
    lemma_launch_count_concat(tables + courses, launches);
    lemma_launch_count_concat(tables + courses + launches, awaits);
}

/// While every step succeeds, the steps are issued in the order of the plan,
/// and after the last one the refresh reports success.
pub proof fn lemma_success_follows_plan(start: RefreshView, reports: Seq<Option<SyncErrorView>>)
    requires
        start.fresh(),
        reports.len() <= start.plan.len(),
        forall|j: int| 0 <= j < reports.len() ==> reports[j] is None,
    ensures
        start.run(reports) == (RefreshView { position: reports.len(), ..start }),
        reports.len() < start.plan.len() ==> start.run(reports).action() == ActionView::Run(
            start.plan[reports.len() as int],
        ),
        reports.len() == start.plan.len() ==> start.run(reports).action() == ActionView::Finish(
            Ok(()),
        ),
    decreases reports.len(),
{
    if reports.len() > 0 {
        lemma_success_follows_plan(start, reports.drop_last());
    }
}

/// A refresh reports success only if every step of its plan was reported,
/// and each of them as succeeded: all the course loads and all the load
/// tasks among them.
pub proof fn lemma_success_needs_every_step(
    start: RefreshView,
    reports: Seq<Option<SyncErrorView>>,
)
    requires
        start.fresh(),
        start.run(reports).action() == ActionView::Finish(Ok(())),
    ensures
        reports.len() >= start.plan.len(),
        forall|j: int| 0 <= j < start.plan.len() ==> reports[j] is None,
{
    lemma_run_shape(start, reports);
}

/// What a run looks like: the refresh stands behind the leading successes,
/// and has failed if and only if a report within the plan was a failure,
/// with the first such failure.
proof fn lemma_run_shape(start: RefreshView, reports: Seq<Option<SyncErrorView>>)
    requires
        start.fresh(),
    ensures
        start.run(reports).plan == start.plan,
        start.run(reports).position <= start.plan.len(),
        start.run(reports).position <= reports.len(),
        forall|j: int| 0 <= j < start.run(reports).position ==> reports[j] is None,
        start.run(reports).failure is Some ==> {
            &&& start.run(reports).position < reports.len()
            &&& start.run(reports).failure == reports[start.run(reports).position as int]
        },
        start.run(reports).failure is None ==> start.run(reports).position == reports.len()
            || start.run(reports).position == start.plan.len(),
    decreases reports.len(),
{
    if reports.len() > 0 {
        let earlier = reports.drop_last();
        lemma_run_shape(start, earlier);
        assert forall|j: int| 0 <= j < start.run(reports).position implies reports[j] is None by {
            if j < earlier.len() {
                assert(earlier[j] == reports[j]);
            }
        }
    }
}

/// Fail fast: the first failure that is reported for a step of the plan is
/// the result of the refresh, however many steps had succeeded before it and
/// whatever is reported after it. The refresh never reports success then.
pub proof fn lemma_first_failure_is_reported(
    start: RefreshView,
    reports: Seq<Option<SyncErrorView>>,
    k: int,
)
    requires
        start.fresh(),
        0 <= k < reports.len(),
        k < start.plan.len(),
        reports[k] is Some,
        forall|j: int| 0 <= j < k ==> reports[j] is None,
    ensures
        start.run(reports).action() == ActionView::Finish(Err(reports[k]->0)),
{
    // The refresh stands behind the leading successes: at `k`.
    lemma_run_shape(start, reports);
    assert(start.run(reports).position == k);
}

} // verus!
