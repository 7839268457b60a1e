//! Load-based assignment of a service task to one technician.
//!
//! Given a task and a pool of candidate technicians, the selector picks the
//! candidate with the fewest active tasks, breaking ties in favour of the
//! earliest candidate in the input order. An empty pool is the only failure.
use vstd::prelude::*;

verus! {

/// The task to be assigned. Both fields are carried for the caller's benefit;
/// neither influences which technician is selected.
pub struct TaskInput {
    pub required_skill: String,
    pub priority: String,
}

/// A candidate worker: an identifier, a skill set, and the current workload.
pub struct TechnicianInput {
    pub id: String,
    pub skills: Vec<String>,
    pub active_tasks: u32,
}

/// One assignment request: a task together with the candidate pool.
pub struct AssignmentInput {
    pub task: TaskInput,
    pub technicians: Vec<TechnicianInput>,
}

/// The decision: exactly one of `assigned_to` and `error` is set.
pub struct AssignmentOutput {
    pub assigned_to: Option<String>,
    pub error: Option<String>,
}

/// Mathematical image of a task.
pub ghost struct TaskView {
    pub required_skill: Seq<char>,
    pub priority: Seq<char>,
}

/// Mathematical image of a technician.
pub ghost struct TechView {
    pub id: Seq<char>,
    pub skills: Seq<Seq<char>>,
    pub active_tasks: nat,
}

/// Mathematical image of a request.
pub ghost struct RequestView {
    pub task: TaskView,
    pub technicians: Seq<TechView>,
}

/// Mathematical image of a decision.
pub ghost struct OutputView {
    pub assigned_to: Option<Seq<char>>,
    pub error: Option<Seq<char>>,
}

impl View for TaskInput {
    type V = TaskView;

    open spec fn view(&self) -> TaskView {
        TaskView { required_skill: self.required_skill@, priority: self.priority@ }
    }
}

impl View for TechnicianInput {
    type V = TechView;

    open spec fn view(&self) -> TechView {
        TechView {
            id: self.id@,
            skills: self.skills.deep_view(),
            active_tasks: self.active_tasks as nat,
        }
    }
}

impl View for AssignmentInput {
    type V = RequestView;

    open spec fn view(&self) -> RequestView {
        RequestView {
            task: self.task@,
            technicians: self.technicians@.map_values(|t: TechnicianInput| t@),
        }
    }
}

impl View for AssignmentOutput {
    type V = OutputView;

    open spec fn view(&self) -> OutputView {
        OutputView { assigned_to: self.assigned_to.deep_view(), error: self.error.deep_view() }
    }
}

/// The error text reported when the candidate pool is empty.
pub open spec fn no_eligible_text() -> Seq<char> {
    "No eligible technician"@
}

/// Index `i` is the stable minimum of the pool: no candidate carries a
/// strictly smaller workload, and every earlier candidate carries a strictly
/// larger one.
pub open spec fn is_first_min(techs: Seq<TechView>, i: int) -> bool {
    &&& 0 <= i < techs.len()
    &&& forall|j: int| 0 <= j < techs.len() ==> techs[i].active_tasks <= techs[j].active_tasks
    &&& forall|j: int| 0 <= j < i ==> techs[i].active_tasks < techs[j].active_tasks
}

/// The index the selector picks from a non-empty pool: the first candidate
/// whose workload equals the minimum over the whole pool.
pub open spec fn first_min_index(techs: Seq<TechView>) -> int
    decreases techs.len(),
{
    if techs.len() <= 1 {
        0
    } else {
        let tail_pick = 1 + first_min_index(techs.subrange(1, techs.len() as int));
        if techs[0].active_tasks <= techs[tail_pick].active_tasks {
            0
        } else {
            tail_pick
        }
    }
}

/// The decision the selector owes for a request: failure on an empty pool,
/// otherwise the id of the first least-loaded candidate.
pub open spec fn select_spec(req: RequestView) -> OutputView {
    if req.technicians.len() == 0 {
        OutputView { assigned_to: None, error: Some(no_eligible_text()) }
    } else {
        OutputView {
            assigned_to: Some(req.technicians[first_min_index(req.technicians)].id),
            error: None,
        }
    }
}

/// In a non-empty pool, `first_min_index` lands in bounds and satisfies the
/// stable-minimum characterisation.
pub proof fn lemma_first_min_index_is_first_min(techs: Seq<TechView>)
    requires
        techs.len() > 0,
    ensures
        is_first_min(techs, first_min_index(techs)),
    decreases techs.len(),
{
    if techs.len() > 1 {
        let tail = techs.subrange(1, techs.len() as int);
        lemma_first_min_index_is_first_min(tail);
        let tail_pick = 1 + first_min_index(tail);
        assert(forall|j: int| 1 <= j < techs.len() ==> techs[j] == tail[j - 1]);
    }
}

/// At most one index satisfies the stable-minimum characterisation.
pub proof fn lemma_first_min_unique(techs: Seq<TechView>, i: int, j: int)
    requires
        is_first_min(techs, i),
        is_first_min(techs, j),
    ensures
        i == j,
{
    if i < j {
        assert(techs[j].active_tasks < techs[i].active_tasks);
        assert(techs[i].active_tasks <= techs[j].active_tasks);
    }
    if j < i {
        assert(techs[i].active_tasks < techs[j].active_tasks);
        assert(techs[j].active_tasks <= techs[i].active_tasks);
    }
}

/// Assign the request's task to one technician from the candidate pool.
///
/// An empty pool yields a failure carrying the error text and no id; a
/// non-empty pool yields the id of the candidate with the fewest active
/// tasks, the earliest such candidate when several are tied, and no error.
pub fn assign_task(input: AssignmentInput) -> (out: AssignmentOutput)
    ensures
        out@ == select_spec(input@),
{
    if input.technicians.len() == 0 {
        return AssignmentOutput {
            assigned_to: None,
            error: Some("No eligible technician".to_owned()),
        };
    }

    let techs = &input.technicians;
    let ghost pool = input@.technicians;
    let mut best: usize = 0;
    let mut i: usize = 1;
    while i < techs.len()
        invariant
            techs@.map_values(|t: TechnicianInput| t@) == pool,
            techs@.len() == pool.len(),
            0 < i <= pool.len(),
            0 <= best < i,
            forall|j: int| 0 <= j < i ==> pool[best as int].active_tasks <= pool[j].active_tasks,
            forall|j: int|
                0 <= j < best ==> pool[best as int].active_tasks < pool[j].active_tasks,
        decreases techs.len() - i,
    {
        if techs[i].active_tasks < techs[best].active_tasks {
            best = i;
        }
        i += 1;
    }

    proof {
        lemma_first_min_index_is_first_min(pool);
        lemma_first_min_unique(pool, best as int, first_min_index(pool));
    }
    AssignmentOutput { assigned_to: Some(techs[best].id.clone()), error: None }
}

/// An empty candidate pool always fails: no assigned id, and the error set
/// to the fixed, non-empty text.
pub proof fn lemma_empty_pool_fails(req: RequestView)
    requires
        req.technicians.len() == 0,
    ensures
        select_spec(req).assigned_to is None,
        select_spec(req).error == Some(no_eligible_text()),
        no_eligible_text().len() > 0,
{
    reveal_strlit("No eligible technician");
}

/// A non-empty candidate pool always succeeds: no error, and the assigned id
/// is the id of the stable minimum — the candidate with the fewest active
/// tasks, the earliest in input order among ties.
pub proof fn lemma_nonempty_pool_succeeds(req: RequestView)
    requires
        req.technicians.len() > 0,
    ensures
        select_spec(req).error is None,
        exists|i: int|
            is_first_min(req.technicians, i) && select_spec(req).assigned_to == Some(
                req.technicians[i].id,
            ),
        forall|i: int|
            is_first_min(req.technicians, i) ==> select_spec(req).assigned_to == Some(
                req.technicians[i].id,
            ),
{
    lemma_first_min_index_is_first_min(req.technicians);
    assert forall|i: int| is_first_min(req.technicians, i) implies select_spec(req).assigned_to
        == Some(req.technicians[i].id) by {
        lemma_first_min_unique(req.technicians, i, first_min_index(req.technicians));
    }
}

/// Every decision sets exactly one of the assigned id and the error: never
/// both, never neither.
pub proof fn lemma_exactly_one_outcome(req: RequestView)
    ensures
        (select_spec(req).assigned_to is Some) != (select_spec(req).error is Some),
{
}

/// The decision is a function of the request alone: two identical requests
/// are decided identically.
pub proof fn lemma_deterministic(a: RequestView, b: RequestView)
    requires
        a == b,
    ensures
        select_spec(a) == select_spec(b),
{
}

/// The task's fields — its required skill and its priority — never influence
/// the decision: requests with the same candidate pool are decided alike.
pub proof fn lemma_task_fields_ignored(a: RequestView, b: RequestView)
    requires
        a.technicians == b.technicians,
    ensures
        select_spec(a) == select_spec(b),
{
}

} // verus!
