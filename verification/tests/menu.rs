use codex_manager::menu::{menu_action, menu_entries, MenuAction, MenuKind};
use codex_manager::profile::Profile;
use codex_manager::running::RunningProfiles;

fn profile(id: &str, name: &str, project: Option<&str>) -> Profile {
    Profile {
        id: id.to_string(),
        name: name.to_string(),
        note: String::new(),
        color: String::new(),
        default_project_path: project.map(|s| s.to_string()),
    }
}

#[test]
fn empty_menu() {
    let m = menu_entries(&vec![], &RunningProfiles::new());
    assert_eq!(m.len(), 6);
    assert_eq!(m[0].id, "noop");
    assert_eq!(m[0].label, "No profiles");
    assert!(!m[0].enabled);
    assert_eq!(m[1].kind, MenuKind::Separator);
    assert_eq!(m[2].id, "stopall");
    assert_eq!(m[2].label, "■  Stop All");
    assert!(!m[2].enabled);
    assert_eq!(m[4].id, "toggle");
    assert_eq!(m[4].label, "Show / Hide Window");
    assert_eq!(m[5].kind, MenuKind::Quit);
    assert_eq!(m[5].label, "Quit");
}

#[test]
fn profile_entries_show_state() {
    let profiles = vec![profile("w", "Work", None), profile("p", "Personal", None)];
    let mut running = RunningProfiles::new();
    running.insert("p".to_string(), 4711);
    let m = menu_entries(&profiles, &running);
    assert_eq!(m.len(), 7);
    assert_eq!(m[0].id, "launch:w");
    assert_eq!(m[0].label, "▶  Work");
    assert_eq!(m[1].id, "stop:p");
    assert_eq!(m[1].label, "● Personal  (pid 4711)");
    assert!(m[3].enabled);
}

#[test]
fn actions_of_entries() {
    let profiles = vec![profile("w", "Work", Some("/src/w")), profile("x", "X", None)];
    match menu_action("launch:w", &profiles) {
        MenuAction::Launch { profile_id, project_path } => {
            assert_eq!(profile_id, "w");
            assert_eq!(project_path, Some("/src/w".to_string()));
        }
        _ => panic!("expected launch"),
    }
    match menu_action("launch:unknown", &profiles) {
        MenuAction::Launch { profile_id, project_path } => {
            assert_eq!(profile_id, "unknown");
            assert_eq!(project_path, None);
        }
        _ => panic!("expected launch"),
    }
    match menu_action("stop:x", &profiles) {
        MenuAction::Stop { profile_id } => assert_eq!(profile_id, "x"),
        _ => panic!("expected stop"),
    }
    assert!(matches!(menu_action("stopall", &profiles), MenuAction::StopAll));
    assert!(matches!(menu_action("toggle", &profiles), MenuAction::ToggleWindow));
    assert!(matches!(menu_action("noop", &profiles), MenuAction::Ignore));
    assert!(matches!(menu_action("", &profiles), MenuAction::Ignore));
}

#[test]
fn clicking_an_entry_acts_on_its_profile() {
    let profiles = vec![profile("w", "Work", Some("/src/w")), profile("p", "P", None)];
    let mut running = RunningProfiles::new();
    running.insert("p".to_string(), 9);
    let m = menu_entries(&profiles, &running);
    assert!(matches!(menu_action(&m[0].id, &profiles), MenuAction::Launch { ref profile_id, .. } if profile_id == "w"));
    assert!(matches!(menu_action(&m[1].id, &profiles), MenuAction::Stop { ref profile_id } if profile_id == "p"));
}
