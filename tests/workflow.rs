use developer::workflow::{StepOutcome, Workflow, WorkflowStatus, WorkflowStep};

fn step(description: &str, number: i32, total: i32, next: bool) -> WorkflowStep {
    WorkflowStep {
        step_description: description.to_string(),
        step_number: number,
        total_steps: total,
        next_step_needed: next,
        is_step_revision: None,
        revises_step: None,
        branch_from_step: None,
        branch_id: None,
        needs_more_steps: None,
    }
}

fn recorded(o: StepOutcome) -> WorkflowStatus {
    match o {
        StepOutcome::Recorded(s) => s,
        StepOutcome::Rejected(m) => panic!("rejected: {}", m),
    }
}

fn rejected(o: StepOutcome) -> String {
    match o {
        StepOutcome::Recorded(s) => panic!("recorded: {:?}", s),
        StepOutcome::Rejected(m) => m,
    }
}

#[test]
fn test_workflow_creation() {
    let tool = Workflow::new(true, Some(10), true);
    assert_eq!(tool.allow_branches(), true);
    assert_eq!(tool.max_steps(), Some(10));
    assert_eq!(tool.log_steps(), true);

    let default_tool = Workflow::default();
    assert_eq!(default_tool.allow_branches(), true);
    assert_eq!(default_tool.max_steps(), None);
    assert_eq!(default_tool.log_steps(), true);
}

#[test]
fn test_workflow_tool() {
    let mut tool = Workflow::default();
    let status = recorded(tool.execute_step(step("Initial step", 1, 3, true)));
    assert_eq!(status.step_number, 1);
    assert_eq!(status.total_steps, 3);
    assert_eq!(status.next_step_needed, true);
    assert_eq!(status.step_history_length, 1);
    assert!(status.branches.is_empty());
}

#[test]
fn test_workflow_branching() {
    let mut tool = Workflow::default();
    let _ = tool.execute_step(step("Initial step", 1, 3, true));
    let mut branch_step = step("Branch step", 2, 3, true);
    branch_step.branch_from_step = Some(1);
    branch_step.branch_id = Some("test_branch".to_string());
    let status = recorded(tool.execute_step(branch_step));
    assert_eq!(status.current_branch, Some("test_branch".to_string()));
    assert_eq!(status.branches.len(), 1);
    assert!(status.branches.contains(&"test_branch".to_string()));
}

#[test]
fn test_error_conditions() {
    let mut tool = Workflow::new(false, Some(2), false);
    let result = tool.execute_step(step("Too many steps", 3, 5, true));
    assert!(matches!(result, StepOutcome::Rejected(_)));

    let _ = tool.execute_step(step("Initial step", 1, 2, true));
    let mut branch_step = step("Branch step", 2, 2, false);
    branch_step.branch_from_step = Some(1);
    branch_step.branch_id = Some("test_branch".to_string());
    let result = tool.execute_step(branch_step);
    assert!(matches!(result, StepOutcome::Rejected(_)));
}

#[test]
fn branch_example_reports_branch_and_trace_length() {
    let mut tool = Workflow::default();
    let _ = recorded(tool.execute_step(step("one", 1, 3, true)));
    let mut b = step("two", 2, 3, true);
    b.branch_from_step = Some(1);
    b.branch_id = Some("b".to_string());
    let status = recorded(tool.execute_step(b));
    assert_eq!(status.current_branch, Some("b".to_string()));
    assert_eq!(status.branches, vec!["b".to_string()]);
    assert_eq!(status.step_history_length, 2);
}

#[test]
fn max_steps_gives_a_soft_error() {
    let mut tool = Workflow::new(true, Some(2), true);
    let m = rejected(tool.execute_step(step("three", 3, 3, false)));
    assert_eq!(m, "Step number 3 exceeds configured maximum of 2");
    let status = recorded(tool.execute_step(step("one", 1, 3, true)));
    assert_eq!(status.step_history_length, 1);
}

#[test]
fn branch_without_origin_is_rejected() {
    let mut tool = Workflow::default();
    let mut s = step("b", 1, 1, false);
    s.branch_id = Some("x".to_string());
    let m = rejected(tool.execute_step(s));
    assert_eq!(m, "When creating a branch (branch_id), you must specify branch_from_step");
}

#[test]
fn revision_without_flag_is_rejected() {
    let mut tool = Workflow::default();
    let mut s = step("r", 1, 1, false);
    s.revises_step = Some(1);
    let m = rejected(tool.execute_step(s));
    assert_eq!(m, "When specifying revises_step, is_step_revision must be set to true");
    let mut s = step("r", 1, 1, false);
    s.revises_step = Some(1);
    s.is_step_revision = Some(true);
    assert_eq!(recorded(tool.execute_step(s)).step_history_length, 1);
}

#[test]
fn branch_origin_must_exist() {
    let mut tool = Workflow::default();
    let mut s = step("b", 1, 1, false);
    s.branch_id = Some("x".to_string());
    s.branch_from_step = Some(1);
    let m = rejected(tool.execute_step(s));
    assert_eq!(m, "branch_from_step 1 does not exist in step history");
    let mut s = step("b", 1, 1, false);
    s.branch_id = Some("x".to_string());
    s.branch_from_step = Some(0);
    assert!(matches!(tool.execute_step(s), StepOutcome::Rejected(_)));
}

#[test]
fn branching_disabled_message() {
    let mut tool = Workflow::new(false, None, false);
    let _ = recorded(tool.execute_step(step("one", 1, 2, true)));
    let mut s = step("two", 2, 2, false);
    s.branch_id = Some("x".to_string());
    s.branch_from_step = Some(1);
    assert_eq!(rejected(tool.execute_step(s)), "Branching is disabled in current configuration");
}

#[test]
fn total_is_raised_to_step_number() {
    let mut tool = Workflow::default();
    let status = recorded(tool.execute_step(step("five", 5, 2, false)));
    assert_eq!(status.total_steps, 5);
    assert_eq!(status.last_step_description, "five");
}

#[test]
fn plain_step_returns_to_main_trace() {
    let mut tool = Workflow::default();
    let _ = recorded(tool.execute_step(step("one", 1, 4, true)));
    let mut b = step("two", 2, 4, true);
    b.branch_from_step = Some(1);
    b.branch_id = Some("b".to_string());
    let _ = recorded(tool.execute_step(b));
    let mut c = step("three", 3, 4, true);
    c.branch_from_step = Some(2);
    c.branch_id = Some("b".to_string());
    let status = recorded(tool.execute_step(c));
    assert_eq!(status.branches, vec!["b".to_string()]);
    let status = recorded(tool.execute_step(step("four", 4, 4, false)));
    assert_eq!(status.current_branch, None);
    assert_eq!(status.branches, vec!["b".to_string()]);
    assert_eq!(status.step_history_length, 4);
}

#[test]
fn total_never_falls_below_a_recorded_step() {
    let mut tool = Workflow::default();
    let _ = recorded(tool.execute_step(step("five", 5, 5, true)));
    let status = recorded(tool.execute_step(step("two", 2, 3, true)));
    assert_eq!(status.total_steps, 5);
    assert_eq!(status.step_number, 2);
}
