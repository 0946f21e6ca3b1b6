use codex_manager::launcher::LauncherEngine;
use codex_manager::paths::Platform;
use codex_manager::process_list::{
    parse_process_line, process_list_command, running_profiles_from_output,
    running_profiles_from_text,
};
use codex_manager::profile::ProfileStore;
use codex_manager::running::RunningProfiles;

fn pid_of(r: &RunningProfiles, id: &str) -> Option<u32> {
    r.get(&id.to_string())
}

#[test]
fn ps_output_is_read_per_line() {
    let text = "  PID COMMAND\n  412 /Applications/Codex.app/Contents/MacOS/Codex --user-data-dir=/Users/a/.codex_manager/profiles/work_account/userdata\n 9001 /usr/bin/vim notes.txt\n  77 /Applications/Codex.app/Contents/Frameworks/Codex Helper --user-data-dir=/Users/a/.codex_manager/profiles/personal_account/userdata --type=renderer\n";
    let r = running_profiles_from_text(Platform::MacOs, text);
    assert_eq!(r.len(), 2);
    assert_eq!(pid_of(&r, "work_account"), Some(412));
    assert_eq!(pid_of(&r, "personal_account"), Some(77));
    assert_eq!(pid_of(&r, "vim"), None);
}

#[test]
fn later_line_replaces_earlier_pid() {
    let text = "10 codex .codex_manager/profiles/a/x\n20 codex .codex_manager/profiles/a/y\n";
    let r = running_profiles_from_text(Platform::Linux, text);
    assert_eq!(r.len(), 1);
    assert_eq!(pid_of(&r, "a"), Some(20));
}

#[test]
fn lines_without_codex_or_pid_are_skipped() {
    let text = "10 node /x/.codex_manager/profiles/a/x\nabc codex .codex_manager/profiles/b/x\n4294967296 codex .codex_manager/profiles/c/x\n+5 Codex .codex_manager/profiles/d x\n6 codex .codex_manager/profiles//x\n11 codex /x/.codex_manager/profiles/e/x";
    let r = running_profiles_from_text(Platform::Linux, text);
    assert_eq!(r.len(), 1);
    assert_eq!(pid_of(&r, "a"), None);
    assert_eq!(pid_of(&r, "d"), None);
    assert_eq!(pid_of(&r, "e"), Some(11));
}

#[test]
fn only_codex_processes_count() {
    let text = "55 vim /home/u/.codex_manager/profiles/work/notes.txt\n56 /opt/ChatGPT/ChatGPT --user-data-dir=/home/u/.codex_manager/profiles/chat/userdata\n";
    let r = running_profiles_from_text(Platform::Linux, text);
    assert_eq!(r.len(), 1);
    assert_eq!(pid_of(&r, "work"), None);
    assert_eq!(pid_of(&r, "chat"), Some(56));
}

#[test]
fn ids_end_at_the_separator_only() {
    let text = "9 Codex --user-data-dir=/h/.codex_manager/profiles/my work/userdata\n10 Codex /h/.codex_manager/profiles/../x\n11 Codex /h/.codex_manager/profiles/tail";
    let r = running_profiles_from_text(Platform::Linux, text);
    assert_eq!(r.len(), 1);
    assert_eq!(pid_of(&r, "my work"), Some(9));
    let w = "12 Codex.exe C:\\u\\.codex_manager\\profiles\\a/b\\x";
    assert!(running_profiles_from_text(Platform::Windows, w).is_empty());
}

#[test]
fn blank_ids_are_detected_but_not_stopped() {
    let r = running_profiles_from_text(Platform::Linux, "5 Codex /h/.codex_manager/profiles/ /x");
    assert_eq!(pid_of(&r, " "), Some(5));
    assert!(LauncherEngine::stop_command(Platform::Linux, " ").is_none());
}

#[test]
fn crlf_lines_and_missing_final_newline() {
    let text = "1 codex .codex_manager/profiles/a/u\r\n2 codex .codex_manager/profiles/b/\r\n3 codex .codex_manager/profiles/c\r\n";
    let r = running_profiles_from_text(Platform::Linux, text);
    assert_eq!(pid_of(&r, "a"), Some(1));
    assert_eq!(pid_of(&r, "b"), Some(2));
    assert_eq!(pid_of(&r, "c"), None);
}

#[test]
fn detected_profile_is_reached_by_its_stop_command() {
    let line = "77 /usr/bin/codex-desktop --user-data-dir=/home/u/.codex_manager/profiles/w.1/userdata";
    let r = running_profiles_from_text(Platform::Linux, line);
    assert_eq!(pid_of(&r, "w.1"), Some(77));
    for (id, _) in r.entries() {
        assert!(line.contains(&format!(".codex_manager/profiles/{}/", id)));
        assert!(LauncherEngine::stop_command(Platform::Linux, &id).is_some());
    }
}

#[test]
fn windows_listing() {
    let text = "\r\n 5120 \"C:\\Program Files\\Codex\\Codex.exe\" --user-data-dir=C:\\Users\\a\\.codex_manager\\profiles\\work\\userdata\r\n  4 System\r\n";
    let r = running_profiles_from_text(Platform::Windows, text);
    assert_eq!(r.len(), 1);
    assert_eq!(pid_of(&r, "work"), Some(5120));
}

#[test]
fn single_line_entry() {
    let line: Vec<char> = "  33 codex --user-data-dir=/h/.codex_manager/profiles/x1/userdata".chars().collect();
    assert_eq!(parse_process_line(Platform::Linux, &line), Some(("x1".to_string(), 33)));
    let line: Vec<char> = "33 codex".chars().collect();
    assert_eq!(parse_process_line(Platform::Linux, &line), None);
}

#[test]
fn output_bytes_are_decoded() {
    let mut bytes = b"7 codex .codex_manager/profiles/z/u\n".to_vec();
    bytes.extend_from_slice(&[0xff, 0xfe, b'\n']);
    let r = running_profiles_from_output(Platform::Linux, Some(bytes));
    assert_eq!(pid_of(&r, "z"), Some(7));
    let none = running_profiles_from_output(Platform::Linux, None);
    assert!(none.is_empty());
    let via_engine = LauncherEngine::get_running_profiles(
        Platform::Linux,
        Some(b"8 codex .codex_manager/profiles/q/u".to_vec()),
    );
    assert_eq!(pid_of(&via_engine, "q"), Some(8));
}

#[test]
fn listing_command() {
    let c = process_list_command(Platform::Linux);
    assert_eq!(c.program, "/bin/ps");
    assert_eq!(c.args, vec!["-ax".to_string(), "-o".to_string(), "pid,command".to_string()]);
    let w = process_list_command(Platform::Windows);
    assert_eq!(w.program, "powershell");
    assert_eq!(w.args.len(), 2);
}

#[test]
fn launched_instance_is_detected() {
    let home = Some("/home/u".to_string());
    let profiles = ProfileStore::profiles_dir_for(Platform::Linux, &home);
    let dir = ProfileStore::profile_dir_for(Platform::Linux, &profiles, "work").unwrap();
    let launch = LauncherEngine::launch_command(Platform::Linux, &dir, None, "Codex", None);
    let line = format!("  4242 {} {} --no-sandbox", launch.program, launch.args.join(" "));
    let r = running_profiles_from_text(Platform::Linux, &line);
    assert_eq!(pid_of(&r, "work"), Some(4242));

    let home = Some("C:\\Users\\u".to_string());
    let profiles = ProfileStore::profiles_dir_for(Platform::Windows, &home);
    let dir = ProfileStore::profile_dir_for(Platform::Windows, &profiles, "work").unwrap();
    let launch = LauncherEngine::launch_command(Platform::Windows, &dir, None, "Codex", None);
    let line = format!("123 Codex.exe {}", launch.args[3]);
    let r = running_profiles_from_text(Platform::Windows, &line);
    assert_eq!(pid_of(&r, "work"), Some(123));
}

#[test]
fn running_table_operations() {
    let mut r = RunningProfiles::new();
    assert!(r.is_empty());
    r.insert("a".to_string(), 1);
    r.insert("b".to_string(), 2);
    r.insert("a".to_string(), 3);
    assert_eq!(r.len(), 2);
    assert_eq!(pid_of(&r, "a"), Some(3));
    assert_eq!(r.entries(), vec![("a".to_string(), 3), ("b".to_string(), 2)]);
    let ids: Vec<String> = r.entries().into_iter().map(|(id, _)| id).collect();
    assert_eq!(ids, vec!["a".to_string(), "b".to_string()]);
}
