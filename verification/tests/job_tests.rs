use hexworld::job::Job;

#[test]
fn idle_is_the_only_complete_job() {
    assert!(Job::Idle.is_complete());
    assert!(!Job::Move { target_x: 3, target_y: -4 }.is_complete());
    assert!(!Job::Gather { resource_type: String::from("wood") }.is_complete());
    assert!(!Job::Build { structure_type: String::from("hut") }.is_complete());
    assert!(!Job::Interact { target_id: String::from("agent-7") }.is_complete());
}
