use hemotask_engine::{assign_task, AssignmentInput, TaskInput, TechnicianInput};

fn tech(id: &str, skills: &[&str], active_tasks: u32) -> TechnicianInput {
    TechnicianInput {
        id: id.to_string(),
        skills: skills.iter().map(|s| s.to_string()).collect(),
        active_tasks,
    }
}

fn request(
    required_skill: &str,
    priority: &str,
    technicians: Vec<TechnicianInput>,
) -> AssignmentInput {
    AssignmentInput {
        task: TaskInput {
            required_skill: required_skill.to_string(),
            priority: priority.to_string(),
        },
        technicians,
    }
}

#[test]
fn least_loaded_wins_even_without_the_skill() {
    let input = request(
        "plumbing",
        "normal",
        vec![tech("T1", &["plumbing"], 3), tech("T2", &["electric"], 1)],
    );
    let out = assign_task(input);
    assert_eq!(out.assigned_to, Some("T2".to_string()));
    assert_eq!(out.error, None);
}

#[test]
fn empty_pool_fails() {
    let input = request("plumbing", "normal", vec![]);
    let out = assign_task(input);
    assert_eq!(out.assigned_to, None);
    assert_eq!(out.error, Some("No eligible technician".to_string()));
}

#[test]
fn tie_goes_to_the_first_candidate() {
    let input = request("x", "normal", vec![tech("A", &[], 2), tech("B", &[], 2)]);
    let out = assign_task(input);
    assert_eq!(out.assigned_to, Some("A".to_string()));
    assert_eq!(out.error, None);
}

#[test]
fn emergency_priority_does_not_block_selection() {
    let input = request("x", "emergency", vec![tech("C", &[], 5)]);
    let out = assign_task(input);
    assert_eq!(out.assigned_to, Some("C".to_string()));
    assert_eq!(out.error, None);
}

#[test]
fn minimum_in_the_middle_is_found() {
    let input = request(
        "x",
        "normal",
        vec![tech("A", &[], 4), tech("B", &[], 1), tech("C", &[], 7)],
    );
    let out = assign_task(input);
    assert_eq!(out.assigned_to, Some("B".to_string()));
    assert_eq!(out.error, None);
}

#[test]
fn minimum_at_the_end_is_found() {
    let input = request(
        "x",
        "normal",
        vec![tech("A", &[], 4), tech("B", &[], 3), tech("C", &[], 2)],
    );
    let out = assign_task(input);
    assert_eq!(out.assigned_to, Some("C".to_string()));
}

#[test]
fn largest_workload_values_are_handled() {
    let input = request(
        "x",
        "normal",
        vec![tech("A", &[], u32::MAX), tech("B", &[], u32::MAX - 1)],
    );
    let out = assign_task(input);
    assert_eq!(out.assigned_to, Some("B".to_string()));
}

#[test]
fn duplicate_ids_are_independent_candidates() {
    let input = request(
        "x",
        "normal",
        vec![tech("D", &[], 5), tech("D", &[], 5), tech("E", &[], 6)],
    );
    let out = assign_task(input);
    assert_eq!(out.assigned_to, Some("D".to_string()));
}

#[test]
fn identical_inputs_yield_identical_results() {
    let make = || {
        request(
            "wiring",
            "normal",
            vec![tech("A", &["wiring"], 2), tech("B", &[], 2), tech("C", &[], 9)],
        )
    };
    let first = assign_task(make());
    let second = assign_task(make());
    assert_eq!(first.assigned_to, second.assigned_to);
    assert_eq!(first.error, second.error);
}

#[test]
fn result_has_exactly_one_of_id_and_error() {
    let success = assign_task(request("x", "normal", vec![tech("A", &[], 0)]));
    assert!(success.assigned_to.is_some() && success.error.is_none());
    let failure = assign_task(request("x", "normal", vec![]));
    assert!(failure.assigned_to.is_none() && failure.error.is_some());
}

#[test]
fn skill_and_priority_do_not_change_the_choice() {
    let pool = || vec![tech("A", &["hvac"], 3), tech("B", &["plumbing"], 1)];
    let normal = assign_task(request("plumbing", "normal", pool()));
    let other = assign_task(request("hvac", "emergency", pool()));
    assert_eq!(normal.assigned_to, Some("B".to_string()));
    assert_eq!(other.assigned_to, normal.assigned_to);
    assert_eq!(other.error, normal.error);
}
