use command_master::commands::{get_command, merge_commands};
use command_master::project::{ProjectAction, ProjectEvent, ProjectSession, ProjectState};

fn run(events: Vec<ProjectEvent>) -> (ProjectState, Vec<ProjectAction>) {
    let (mut session, first) = ProjectSession::new();
    let mut actions = vec![first];
    for event in events {
        actions.push(session.on_event(event));
    }
    (session.state, actions)
}

#[test]
fn not_found_project_is_created_once() {
    let (state, actions) = run(vec![
        ProjectEvent::Lookup(Some(b"object_not_found".to_vec())),
        ProjectEvent::Creation(true),
    ]);
    assert_eq!(state, ProjectState::Created);
    assert_eq!(actions.iter().filter(|a| **a == ProjectAction::Create).count(), 1);
    assert_eq!(actions, vec![ProjectAction::Lookup, ProjectAction::Create, ProjectAction::Proceed]);
}

#[test]
fn found_project_is_verified_without_creation() {
    let (state, actions) = run(vec![ProjectEvent::Lookup(None)]);
    assert_eq!(state, ProjectState::Verified);
    assert!(!actions.contains(&ProjectAction::Create));
    assert_eq!(actions, vec![ProjectAction::Lookup, ProjectAction::Proceed]);
}

#[test]
fn other_error_code_terminates_without_creation() {
    let (state, actions) = run(vec![ProjectEvent::Lookup(Some(b"rate_limited".to_vec()))]);
    assert_eq!(state, ProjectState::Fatal);
    assert_eq!(actions, vec![ProjectAction::Lookup, ProjectAction::Terminate]);
}

#[test]
fn failed_creation_is_an_error() {
    let (state, actions) = run(vec![
        ProjectEvent::Lookup(Some(b"object_not_found".to_vec())),
        ProjectEvent::Creation(false),
    ]);
    assert_eq!(state, ProjectState::Failed);
    assert_eq!(actions.last(), Some(&ProjectAction::Fail));
}

#[test]
fn out_of_order_events_are_ignored() {
    let (state, actions) = run(vec![ProjectEvent::Creation(true), ProjectEvent::Lookup(None)]);
    assert_eq!(state, ProjectState::Verified);
    assert_eq!(actions[1], ProjectAction::Ignore);
    let (mut session, _) = ProjectSession::new();
    session.on_event(ProjectEvent::Lookup(None));
    assert!(session.is_usable());
    assert_eq!(session.on_event(ProjectEvent::Lookup(None)), ProjectAction::Ignore);
}

#[test]
fn merged_commands_skip_duplicates_of_second_listing() {
    let bin = vec!["ls".to_string(), "cat".to_string()];
    let sbin = vec!["ip".to_string(), "ls".to_string(), "ip".to_string(), "mount".to_string()];
    let all = merge_commands(bin, sbin);
    assert_eq!(all, vec!["ls", "cat", "ip", "mount"]);
}

#[test]
fn picked_command_is_one_of_the_list() {
    let commands = vec!["ls".to_string(), "cat".to_string(), "grep".to_string()];
    for _ in 0..20 {
        assert!(commands.contains(get_command(&commands)));
    }
    let single = vec!["only".to_string()];
    assert_eq!(get_command(&single), "only");
}
