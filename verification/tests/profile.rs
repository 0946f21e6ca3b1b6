use codex_manager::paths::Platform;
use codex_manager::profile::{
    add_profile, delete_profile, find_profile, update_profile, Profile, ProfileStore,
};

fn profile(id: &str, name: &str) -> Profile {
    Profile {
        id: id.to_string(),
        name: name.to_string(),
        note: String::new(),
        color: "#000000".to_string(),
        default_project_path: None,
    }
}

#[test]
fn test_profile_store_persistence() {
    let (profiles, save) = ProfileStore::profiles_or_defaults(None);
    assert!(!profiles.is_empty());
    assert!(save);
}

#[test]
fn test_profile_directory_isolation() {
    let layout = ProfileStore::profile_layout(
        Platform::Linux,
        "/home/u/.codex_manager/profiles",
        &Some("/home/u".to_string()),
        "test_unit_account",
    )
    .unwrap();
    let dir = "/home/u/.codex_manager/profiles/test_unit_account";
    assert_eq!(layout.dir, dir);
    assert!(layout.create_dirs.contains(&format!("{}/userdata", dir)));
    assert!(layout.create_dirs.contains(&format!("{}/tmp", dir)));
    assert!(layout.create_dirs.contains(&format!("{}/cache", dir)));
}

#[test]
fn layout_links_home_git_and_ssh() {
    let layout = ProfileStore::profile_layout(
        Platform::MacOs,
        "/Users/u/.codex_manager/profiles",
        &Some("/Users/u".to_string()),
        "w",
    )
    .unwrap();
    assert_eq!(layout.create_dirs[0], "/Users/u/.codex_manager/profiles/w/Library/Application Support");
    assert_eq!(layout.links.len(), 2);
    assert_eq!(layout.links[0].source, "/Users/u/.gitconfig");
    assert_eq!(layout.links[0].target, "/Users/u/.codex_manager/profiles/w/.gitconfig");
    assert!(!layout.links[0].is_dir);
    assert_eq!(layout.links[1].source, "/Users/u/.ssh");
    assert!(layout.links[1].is_dir);
    assert!(layout.links[1].should_link(true, false));
    assert!(!layout.links[1].should_link(true, true));
    assert!(!layout.links[1].should_link(false, false));
    let no_home = ProfileStore::profile_layout(Platform::Linux, "p", &None, "w").unwrap();
    assert!(no_home.links.is_empty());
}

#[test]
fn manager_paths() {
    let home = Some("/home/u".to_string());
    assert_eq!(ProfileStore::base_dir_for(Platform::Linux, &home), "/home/u/.codex_manager");
    assert_eq!(ProfileStore::profiles_dir_for(Platform::Linux, &home), "/home/u/.codex_manager/profiles");
    assert_eq!(ProfileStore::config_file_for(Platform::Linux, &home), "/home/u/.codex_manager/config.json");
    assert_eq!(ProfileStore::base_dir_for(Platform::Linux, &None), "./.codex_manager");
    assert_eq!(
        ProfileStore::profiles_dir_for(Platform::Windows, &Some("C:\\Users\\u".to_string())),
        "C:\\Users\\u\\.codex_manager\\profiles"
    );
    assert!(ProfileStore::get_profiles_dir(Platform::Linux).ends_with("/.codex_manager/profiles"));
    assert!(ProfileStore::get_config_file(Platform::Linux).ends_with("/.codex_manager/config.json"));
    assert!(ProfileStore::get_base_dir(Platform::Linux).ends_with(".codex_manager"));
    assert!(ProfileStore::profile_dir_path(Platform::Linux, "abc").unwrap().ends_with("/.codex_manager/profiles/abc"));
    assert!(ProfileStore::get_profile_dir(Platform::Linux, "abc").unwrap().dir.ends_with("/profiles/abc"));
}

#[test]
fn distinct_profiles_get_distinct_directories() {
    let a = ProfileStore::profile_dir_for(Platform::Linux, "/p", "work").unwrap();
    let b = ProfileStore::profile_dir_for(Platform::Linux, "/p", "work2").unwrap();
    assert_ne!(a, b);
    assert!(!b.starts_with(&format!("{}/", a)));
}

#[test]
fn defaults_and_loaded_lists() {
    let defaults = ProfileStore::default_profiles();
    assert_eq!(defaults.len(), 2);
    assert_eq!(defaults[0].id, "work_account");
    assert_eq!(defaults[0].name, "Work Account");
    assert_eq!(defaults[0].color, "#007AFF");
    assert_eq!(defaults[1].id, "personal_account");
    assert_eq!(defaults[1].color, "#34C759");
    let (from_empty, save) = ProfileStore::profiles_or_defaults(Some(vec![]));
    assert_eq!(from_empty, defaults);
    assert!(save);
    let (kept, save) = ProfileStore::profiles_or_defaults(Some(vec![profile("x", "X")]));
    assert_eq!(kept, vec![profile("x", "X")]);
    assert!(!save);
}

#[test]
fn ids_that_are_not_one_directory_are_refused() {
    for id in ["", ".", "..", "a/b", "/abs", "../../x"] {
        assert_eq!(ProfileStore::profile_dir_for(Platform::Linux, "/p", id), None);
        assert!(ProfileStore::profile_layout(Platform::Linux, "/p", &None, id).is_none());
        assert!(ProfileStore::profile_dir_path(Platform::Linux, id).is_none());
        assert!(ProfileStore::get_profile_dir(Platform::Linux, id).is_none());
    }
    assert_eq!(ProfileStore::profile_dir_for(Platform::Windows, "C:\\p", "a\\b"), None);
    assert_eq!(
        ProfileStore::profile_dir_for(Platform::Linux, "/p", "a\\b"),
        Some("/p/a\\b".to_string())
    );
    assert_eq!(
        ProfileStore::profile_dir_for(Platform::Linux, "/p", "work.v2"),
        Some("/p/work.v2".to_string())
    );    assert_eq!(
        ProfileStore::profile_dir_for(Platform::Linux, "/p", "  "),
        Some("/p/  ".to_string())
    );
    assert!(ProfileStore::profile_layout(Platform::Linux, "/p", &None, " ").is_some());
}

#[test]
fn list_operations() {
    let mut list = vec![profile("a", "A"), profile("b", "B"), profile("a", "A2")];
    assert!(add_profile(&mut list, profile("c", "C")));
    assert_eq!(list.len(), 4);
    assert!(!add_profile(&mut list, profile("b", "Other B")));
    assert_eq!(list.len(), 4);
    assert_eq!(list[1].name, "B");
    assert_eq!(find_profile(&list, "a"), Some(0));
    assert_eq!(find_profile(&list, "zz"), None);
    assert!(update_profile(&mut list, profile("a", "New")));
    assert_eq!(list[0].name, "New");
    assert_eq!(list[2].name, "A2");
    assert!(!update_profile(&mut list, profile("zz", "Z")));
    assert_eq!(list.len(), 4);
    delete_profile(&mut list, "a");
    let ids: Vec<&str> = list.iter().map(|p| p.id.as_str()).collect();
    assert_eq!(ids, vec!["b", "c"]);
}
