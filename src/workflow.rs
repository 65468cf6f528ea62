//! The workflow tracker: an in-memory record of reasoning steps, with
//! revision markers and named branches.
use vstd::prelude::*;
use crate::text::{signed_decimal, signed_decimal_string};

verus! {

/// One step of a workflow, as submitted.
#[derive(Debug)]
pub struct WorkflowStep {
    pub step_description: String,
    pub step_number: i32,
    pub total_steps: i32,
    pub next_step_needed: bool,
    pub is_step_revision: Option<bool>,
    pub revises_step: Option<i32>,
    pub branch_from_step: Option<i32>,
    pub branch_id: Option<String>,
    pub needs_more_steps: Option<bool>,
}

impl WorkflowStep {
    /// A copy of this step.
    pub fn duplicate(&self) -> (r: WorkflowStep)
        ensures
            r == *self,
    {
        WorkflowStep {
            step_description: self.step_description.clone(),
            step_number: self.step_number,
            total_steps: self.total_steps,
            next_step_needed: self.next_step_needed,
            is_step_revision: self.is_step_revision,
            revises_step: self.revises_step,
            branch_from_step: self.branch_from_step,
            branch_id: match &self.branch_id {
                Some(b) => Some(b.clone()),
                None => None,
            },
            needs_more_steps: self.needs_more_steps,
        }
    }

    /// The step as recorded: its estimate of the total raised to its own
    /// number, and to `floor` (the largest step number recorded before),
    /// when those are larger.
    pub open spec fn adjusted(self, floor: i32) -> WorkflowStep {
        let t = if self.step_number > self.total_steps { self.step_number } else { self.total_steps };
        WorkflowStep { total_steps: if floor > t { floor } else { t }, ..self }
    }

    /// The step names a branch to record it in.
    pub open spec fn is_branching(self) -> bool {
        self.branch_id is Some && self.branch_from_step is Some
    }
}

/// The report on a recorded step.
#[derive(Debug)]
pub struct WorkflowStatus {
    pub step_number: i32,
    pub total_steps: i32,
    pub next_step_needed: bool,
    pub last_step_description: String,
    pub current_branch: Option<String>,
    pub branches: Vec<String>,
    pub step_history_length: usize,
}

/// What a submission produced: a report on the recorded step, or the
/// reason it was turned down (a soft error for the caller to read).
#[derive(Debug)]
pub enum StepOutcome {
    Recorded(WorkflowStatus),
    Rejected(String),
}

/// The steps recorded in one branch.
pub struct Branch {
    pub id: String,
    pub steps: Vec<WorkflowStep>,
}

/// Why a submission is turned down, by the first rule it breaks, or `None`
/// when it is accepted; `trace_len` is the length of the main trace.
pub open spec fn rejection(
    allow_branches: bool,
    max_steps: Option<i32>,
    trace_len: nat,
    a: WorkflowStep,
) -> Option<Seq<char>> {
    if max_steps is Some && a.step_number > max_steps->0 {
        Some(
            "Step number "@ + signed_decimal(a.step_number as int) + " exceeds configured maximum of "@
                + signed_decimal(max_steps->0 as int),
        )
    } else if a.revises_step is Some && a.is_step_revision is None {
        Some("When specifying revises_step, is_step_revision must be set to true"@)
    } else if a.branch_id is Some && a.branch_from_step is None {
        Some("When creating a branch (branch_id), you must specify branch_from_step"@)
    } else if a.is_branching() && !allow_branches {
        Some("Branching is disabled in current configuration"@)
    } else if a.is_branching() && (a.branch_from_step->0 <= 0 || a.branch_from_step->0 > trace_len) {
        Some(
            "branch_from_step "@ + signed_decimal(a.branch_from_step->0 as int)
                + " does not exist in step history"@,
        )
    } else {
        None
    }
}

/// The tracker: its recorded state and its configuration.
pub struct Workflow {
    step_history: Vec<WorkflowStep>,
    largest_step: i32,
    branches: Vec<Branch>,
    current_branch: Option<String>,
    allow_branches: bool,
    max_steps: Option<i32>,
    log_steps: bool,
}

impl Default for Workflow {
    fn default() -> (r: Workflow)
        ensures
            r.wf(),
            r.history().len() == 0,
            r.branch_ids().len() == 0,
            r.current() is None,
            r.allows_branches(),
            r.max_steps_spec() is None,
            r.logs_steps(),
    {
        Workflow::new(true, None, true)
    }
}

impl Workflow {
    /// The main trace.
    pub closed spec fn history(&self) -> Seq<WorkflowStep> {
        self.step_history@
    }

    /// The names of the known branches, in order of creation.
    pub closed spec fn branch_ids(&self) -> Seq<Seq<char>> {
        self.branches@.map_values(|b: Branch| b.id@)
    }

    /// The steps recorded in the branch named `id` (none if unknown).
    pub closed spec fn branch_steps(&self, id: Seq<char>) -> Seq<WorkflowStep> {
        if exists|i: int| 0 <= i < self.branches@.len() && (#[trigger] self.branches@[i]).id@ == id {
            let i = choose|i: int| 0 <= i < self.branches@.len() && (#[trigger] self.branches@[i]).id@ == id;
            self.branches@[i].steps@
        } else {
            seq![]
        }
    }

    /// The branch currently followed, if any.
    pub closed spec fn current(&self) -> Option<Seq<char>> {
        match self.current_branch {
            Some(b) => Some(b@),
            None => None,
        }
    }

    pub closed spec fn allows_branches(&self) -> bool {
        self.allow_branches
    }

    pub closed spec fn max_steps_spec(&self) -> Option<i32> {
        self.max_steps
    }

    pub closed spec fn logs_steps(&self) -> bool {
        self.log_steps
    }

    /// The largest step number recorded (the least `i32` before any).
    pub closed spec fn largest_seen(&self) -> i32 {
        self.largest_step
    }

    /// Branch names are distinct, and no recorded step number exceeds the
    /// largest one kept.
    pub closed spec fn wf(&self) -> bool {
        &&& forall|i: int, j: int|
            0 <= i < j < self.branches@.len() ==> (#[trigger] self.branches@[i]).id@
                != (#[trigger] self.branches@[j]).id@
        &&& forall|i: int|
            0 <= i < self.step_history@.len() ==> (#[trigger] self.step_history@[i]).step_number
                <= self.largest_step
    }

    /// Why `a` would be turned down now, if it would.
    pub open spec fn rejection_of(&self, a: WorkflowStep) -> Option<Seq<char>> {
        rejection(self.allows_branches(), self.max_steps_spec(), self.history().len(), a)
    }

    /// An empty tracker with the given configuration.
    pub fn new(allow_branches: bool, max_steps: Option<i32>, log_steps: bool) -> (r: Workflow)
        ensures
            r.wf(),
            r.history().len() == 0,
            r.branch_ids().len() == 0,
            r.current() is None,
            r.allows_branches() == allow_branches,
            r.max_steps_spec() == max_steps,
            r.logs_steps() == log_steps,
    {
        let r = Workflow {
            step_history: Vec::new(),
            largest_step: i32::MIN,
            branches: Vec::new(),
            current_branch: None,
            allow_branches,
            max_steps,
            log_steps,
        };
        assert(r.branch_ids() =~= Seq::<Seq<char>>::empty());
        r
    }

    /// Whether branching is allowed.
    pub fn allow_branches(&self) -> (r: bool)
        ensures
            r == self.allows_branches(),
    {
        self.allow_branches
    }

    /// The configured maximum step number, if any.
    pub fn max_steps(&self) -> (r: Option<i32>)
        ensures
            r == self.max_steps_spec(),
    {
        self.max_steps
    }

    /// Whether steps are logged.
    pub fn log_steps(&self) -> (r: bool)
        ensures
            r == self.logs_steps(),
    {
        self.log_steps
    }

    /// The message for the first rule that `a` breaks, if any.
    fn validate(&self, a: &WorkflowStep) -> (r: Option<String>)
        ensures
            match r {
                None => self.rejection_of(*a) is None,
                Some(m) => self.rejection_of(*a) == Some(m@),
            },
    {
        if let Some(max) = self.max_steps {
            if a.step_number > max {
                let mut m = String::from_str("Step number ");
                m.append(signed_decimal_string(a.step_number).as_str());
                m.append(" exceeds configured maximum of ");
                m.append(signed_decimal_string(max).as_str());
                return Some(m);
            }
        }
        if a.revises_step.is_some() && a.is_step_revision.is_none() {
            return Some(String::from_str("When specifying revises_step, is_step_revision must be set to true"));
        }
        if a.branch_id.is_some() && a.branch_from_step.is_none() {
            return Some(String::from_str("When creating a branch (branch_id), you must specify branch_from_step"));
        }
        if let (Some(_), Some(from)) = (&a.branch_id, a.branch_from_step) {
            if !self.allow_branches {
                return Some(String::from_str("Branching is disabled in current configuration"));
            }
            if from <= 0 || from as usize > self.step_history.len() {
                let mut m = String::from_str("branch_from_step ");
                m.append(signed_decimal_string(from).as_str());
                m.append(" does not exist in step history");
                return Some(m);
            }
        }
        None
    }

    /// Index of the branch named `id`.
    fn find_branch(&self, id: &String) -> (r: Option<usize>)
        ensures
            match r {
                None => forall|i: int| 0 <= i < self.branches@.len() ==> (#[trigger] self.branches@[i]).id@ != id@,
                Some(i) => i < self.branches@.len() && self.branches@[i as int].id@ == id@,
            },
    {
        let mut i: usize = 0;
        while i < self.branches.len()
            invariant
                i <= self.branches@.len(),
                forall|j: int| 0 <= j < i ==> (#[trigger] self.branches@[j]).id@ != id@,
            decreases self.branches.len() - i,
        {
            if self.branches[i].id == *id {
                return Some(i);
            }
            i = i + 1;
        }
        None
    }

    /// Appends `step` to the branch named `id`, creating it if unknown.
    fn record_in_branch(&mut self, id: &String, step: WorkflowStep)
        requires
            old(self).wf(),
        ensures
            final(self).wf(),
            final(self).step_history == old(self).step_history,
            final(self).largest_step == old(self).largest_step,
            final(self).current_branch == old(self).current_branch,
            final(self).allow_branches == old(self).allow_branches,
            final(self).max_steps == old(self).max_steps,
            final(self).log_steps == old(self).log_steps,
            final(self).branch_ids() == if old(self).branch_ids().contains(id@) {
                old(self).branch_ids()
            } else {
                old(self).branch_ids().push(id@)
            },
            final(self).branch_steps(id@) == old(self).branch_steps(id@).push(step),
            forall|q: Seq<char>| q != id@ ==> #[trigger] final(self).branch_steps(q) == old(self).branch_steps(q),
    {
        let ghost before = self.branches@;
        match self.find_branch(id) {
            Some(i) => {
                let mut b = self.branches.remove(i);
                b.steps.push(step);
                self.branches.insert(i, b);
                proof {
                    let after = self.branches@;
                    assert(after.len() == before.len());
                    assert forall|j: int| 0 <= j < after.len() && j != i implies after[j] == before[j] by {}
                    assert(after[i as int].id@ == id@);
                    assert(self.branch_ids() =~= old(self).branch_ids());
                    assert(old(self).branch_ids()[i as int] == id@);
                    assert(old(self).branch_steps(id@) == before[i as int].steps@);
                    assert(self.branch_steps(id@) == after[i as int].steps@);
                    assert forall|q: Seq<char>| q != id@ implies #[trigger] self.branch_steps(q) == old(self).branch_steps(q) by {
                        if exists|j: int| 0 <= j < before.len() && (#[trigger] before[j]).id@ == q {
                            let j = choose|j: int| 0 <= j < before.len() && (#[trigger] before[j]).id@ == q;
                            assert(after[j].id@ == q);
                        } else {
                            assert forall|j: int| 0 <= j < after.len() implies (#[trigger] after[j]).id@ != q by {
                                if j != i { assert(after[j] == before[j]); }
                            }
                        }
                    }
                }
            },
            None => {
                let b = Branch { id: id.clone(), steps: vec![step] };
                self.branches.push(b);
                proof {
                    let after = self.branches@;
                    assert(self.branch_ids() =~= old(self).branch_ids().push(id@));
                    assert(!old(self).branch_ids().contains(id@)) by {
                        if old(self).branch_ids().contains(id@) {
                            let j = choose|j: int| 0 <= j < old(self).branch_ids().len() && old(self).branch_ids()[j] == id@;
                            assert(before[j].id@ == id@);
                        }
                    }
                    assert(old(self).branch_steps(id@) =~= Seq::<WorkflowStep>::empty());
                    assert(after[before.len() as int].id@ == id@);
                    assert(self.branch_steps(id@) =~= seq![step]);
                    assert forall|q: Seq<char>| q != id@ implies #[trigger] self.branch_steps(q) == old(self).branch_steps(q) by {
                        if exists|j: int| 0 <= j < before.len() && (#[trigger] before[j]).id@ == q {
                            let j = choose|j: int| 0 <= j < before.len() && (#[trigger] before[j]).id@ == q;
                            assert(after[j].id@ == q);
                        } else {
                            assert forall|j: int| 0 <= j < after.len() implies (#[trigger] after[j]).id@ != q by {
                                if j < before.len() { assert(after[j] == before[j]); }
                            }
                        }
                    }
                }
            },
        }
    }

    /// The names of the known branches.
    fn branch_names(&self) -> (r: Vec<String>)
        ensures
            r@.map_values(|s: String| s@) == self.branch_ids(),
    {
        let mut r: Vec<String> = Vec::new();
        let mut i: usize = 0;
        while i < self.branches.len()
            invariant
                i <= self.branches@.len(),
                r@.map_values(|s: String| s@) == self.branch_ids().take(i as int),
            decreases self.branches.len() - i,
        {
            let name = self.branches[i].id.clone();
            assert(name@ == self.branch_ids()[i as int]);
            let ghost prev = r@.map_values(|s: String| s@);
            r.push(name);
            assert(r@.map_values(|s: String| s@) =~= prev.push(name@));
            assert(self.branch_ids().take(i + 1) =~= self.branch_ids().take(i as int).push(name@));
            i = i + 1;
            assert(r@.map_values(|s: String| s@) =~= self.branch_ids().take(i as int));
        }
        assert(self.branch_ids().take(i as int) =~= self.branch_ids());
        r
    }

    /// Submits a step. The first rule it breaks turns it down, leaving the
    /// state as it was; otherwise it is recorded in the main trace (with
    /// its total raised to its number when lower) and, when it names a
    /// branch, in that branch too, which becomes the current one; a step
    /// without branch fields returns to the main trace.
    pub fn execute_step(&mut self, args: WorkflowStep) -> (r: StepOutcome)
        requires
            old(self).wf(),
        ensures
            final(self).wf(),
            final(self).allows_branches() == old(self).allows_branches(),
            final(self).max_steps_spec() == old(self).max_steps_spec(),
            final(self).logs_steps() == old(self).logs_steps(),
            old(self).rejection_of(args) is Some <==> r is Rejected,
            r matches StepOutcome::Rejected(m) ==> {
                &&& Some(m@) == old(self).rejection_of(args)
                &&& final(self).history() == old(self).history()
                &&& final(self).largest_seen() == old(self).largest_seen()
                &&& final(self).branch_ids() == old(self).branch_ids()
                &&& final(self).current() == old(self).current()
                &&& forall|q: Seq<char>| #[trigger] final(self).branch_steps(q) == old(self).branch_steps(q)
            },
            r matches StepOutcome::Recorded(st) ==> {
                let step = args.adjusted(old(self).largest_seen());
                &&& final(self).history() == old(self).history().push(step)
                &&& final(self).largest_seen() == if args.step_number > old(self).largest_seen() {
                    args.step_number
                } else {
                    old(self).largest_seen()
                }
                &&& forall|i: int|
                    0 <= i < final(self).history().len() ==> st.total_steps
                        >= #[trigger] final(self).history()[i].step_number
                &&& args.is_branching() ==> {
                    let id = args.branch_id->0@;
                    &&& final(self).current() == Some(id)
                    &&& final(self).branch_ids() == if old(self).branch_ids().contains(id) {
                        old(self).branch_ids()
                    } else {
                        old(self).branch_ids().push(id)
                    }
                    &&& final(self).branch_steps(id) == old(self).branch_steps(id).push(step)
                    &&& forall|q: Seq<char>| q != id ==> #[trigger] final(self).branch_steps(q) == old(self).branch_steps(q)
                }
                &&& !args.is_branching() ==> {
                    &&& final(self).current() is None
                    &&& final(self).branch_ids() == old(self).branch_ids()
                    &&& forall|q: Seq<char>| #[trigger] final(self).branch_steps(q) == old(self).branch_steps(q)
                }
                &&& st.step_number == step.step_number
                &&& st.total_steps == step.total_steps
                &&& st.next_step_needed == step.next_step_needed
                &&& st.last_step_description == step.step_description
                &&& match st.current_branch { Some(b) => final(self).current() == Some(b@), None => final(self).current() is None }
                &&& st.branches@.map_values(|s: String| s@) == final(self).branch_ids()
                &&& st.step_history_length == final(self).history().len()
            },
    {
        if let Some(m) = self.validate(&args) {
            return StepOutcome::Rejected(m);
        }
        let mut step = args;
        if step.step_number > step.total_steps {
            step.total_steps = step.step_number;
        }
        if self.largest_step > step.total_steps {
            step.total_steps = self.largest_step;
        }
        assert(step == args.adjusted(old(self).largest_seen()));
        let branch = match (&step.branch_id, step.branch_from_step) {
            (Some(id), Some(_)) => Some(id.clone()),
            _ => None,
        };
        assert(branch is Some <==> args.is_branching());
        assert(branch is Some ==> branch->0@ == args.branch_id->0@);
        match branch {
            Some(id) => {
                self.record_in_branch(&id, step.duplicate());
                let ghost mid = *self;
                self.current_branch = Some(id);
                assert forall|q: Seq<char>| q != id@ implies #[trigger] self.branch_steps(q)
                    == old(self).branch_steps(q) by {
                    assert(self.branch_steps(q) == mid.branch_steps(q));
                }
            },
            None => {
                self.current_branch = None;
            },
        }
        let ghost after_branch = *self;
        let description = step.step_description.clone();
        let number = step.step_number;
        let total = step.total_steps;
        let next = step.next_step_needed;
        self.step_history.push(step);
        if number > self.largest_step {
            self.largest_step = number;
        }
        assert forall|i: int| 0 <= i < self.step_history@.len() implies (#[trigger] self.step_history@[i]).step_number
            <= self.largest_step by {
            if i < self.step_history@.len() - 1 {
                assert(self.step_history@[i] == old(self).step_history@[i]);
            }
        }
        let current = match &self.current_branch {
            Some(b) => Some(b.clone()),
            None => None,
        };
        assert(self.history() == old(self).history().push(args.adjusted(old(self).largest_seen())));
        assert forall|q: Seq<char>| #[trigger] self.branch_steps(q) == after_branch.branch_steps(q) by {
            assert(self.branches@ == after_branch.branches@);
        }
        assert(match current { Some(b) => self.current() == Some(b@), None => self.current() is None });
        StepOutcome::Recorded(WorkflowStatus {
            step_number: number,
            total_steps: total,
            next_step_needed: next,
            last_step_description: description,
            current_branch: current,
            branches: self.branch_names(),
            step_history_length: self.step_history.len(),
        })
    }
}

/// A step that names a branch without the step it branches from, or that
/// names a step it revises without being marked as a revision, is always
/// turned down, whatever the configuration and the trace.
pub proof fn lemma_incomplete_markers_rejected(
    allow_branches: bool,
    max_steps: Option<i32>,
    trace_len: nat,
    a: WorkflowStep,
)
    requires
        (a.branch_id is Some && a.branch_from_step is None) || (a.revises_step is Some
            && a.is_step_revision is None),
    ensures
        rejection(allow_branches, max_steps, trace_len, a) is Some,
{
}

} // verus!
