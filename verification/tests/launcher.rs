use codex_manager::command::CommandSpec;
use codex_manager::launcher::LauncherEngine;
use codex_manager::paths::Platform;
use codex_manager::running::RunningProfiles;

fn args(c: &CommandSpec) -> Vec<&str> {
    c.args.iter().map(|a| a.as_str()).collect()
}

fn envs(c: &CommandSpec) -> Vec<(&str, &str)> {
    c.envs.iter().map(|(k, v)| (k.as_str(), v.as_str())).collect()
}

#[test]
fn test_stop_command_execution() {
    assert!(LauncherEngine::stop_command(Platform::Linux, "").is_none());
    assert!(LauncherEngine::stop_command(Platform::Linux, "non_existent_profile_test").is_some());
    let all = LauncherEngine::stop_all_commands(Platform::Linux, &RunningProfiles::new());
    assert_eq!(all.len(), 1);
}

#[test]
fn stop_command_unix_pattern() {
    let c = LauncherEngine::stop_command(Platform::MacOs, "work").unwrap();
    assert_eq!(c.program, "pkill");
    assert_eq!(args(&c), vec!["-9", "-f", "\\.codex_manager/profiles/work/"]);
    assert!(c.envs.is_empty());
}

#[test]
fn stop_command_windows_pattern() {
    let c = LauncherEngine::stop_command(Platform::Windows, "work").unwrap();
    assert_eq!(c.program, "powershell");
    assert_eq!(
        args(&c),
        vec![
            "-Command",
            "Get-CimInstance Win32_Process | Where-Object { $_.CommandLine -like '*.codex_manager\\profiles\\work\\*' } | Remove-CimInstance",
        ]
    );
}

#[test]
fn stop_command_escapes_the_id() {
    let c = LauncherEngine::stop_command(Platform::Linux, ".*").unwrap();
    assert_eq!(args(&c)[2], "\\.codex_manager/profiles/\\.\\*/");
    let w = LauncherEngine::stop_command(Platform::Windows, "a'b[1]").unwrap();
    assert_eq!(
        args(&w)[1],
        "Get-CimInstance Win32_Process | Where-Object { $_.CommandLine -like '*.codex_manager\\profiles\\a''b`[1`]\\*' } | Remove-CimInstance"
    );
}

#[test]
fn stop_command_blank_id_does_nothing() {
    assert!(LauncherEngine::stop_command(Platform::Linux, "   ").is_none());
    assert!(LauncherEngine::stop_command(Platform::Windows, "\t\n").is_none());
    assert!(LauncherEngine::stop_command(Platform::MacOs, "\u{3000}").is_none());
}

#[test]
fn stop_all_stops_each_running_profile_then_the_rest() {
    let mut running = RunningProfiles::new();
    running.insert("a".to_string(), 10);
    running.insert("b".to_string(), 20);
    let cmds = LauncherEngine::stop_all_commands(Platform::Linux, &running);
    assert_eq!(cmds.len(), 3);
    assert_eq!(args(&cmds[0])[2], "\\.codex_manager/profiles/a/");
    assert_eq!(args(&cmds[1])[2], "\\.codex_manager/profiles/b/");
    assert_eq!(args(&cmds[2]), vec!["-9", "-f", ".codex_manager/profiles/"]);
    let win = LauncherEngine::stop_all_commands(Platform::Windows, &running);
    assert_eq!(win.len(), 2);
}

#[test]
fn launch_command_macos() {
    let c = LauncherEngine::launch_command(
        Platform::MacOs,
        "/Users/a/.codex_manager/profiles/work",
        Some("/Users/a/src/proj".to_string()),
        "/Applications/Codex.app",
        None,
    );
    assert_eq!(c.program, "open");
    assert_eq!(
        args(&c),
        vec![
            "-n",
            "-a",
            "/Applications/Codex.app",
            "--args",
            "--user-data-dir=/Users/a/.codex_manager/profiles/work/userdata",
            "--disk-cache-dir=/Users/a/.codex_manager/profiles/work/cache/disk",
            "--crash-dumps-dir=/Users/a/.codex_manager/profiles/work/cache/crashes",
            "--password-store=basic",
            "/Users/a/src/proj",
        ]
    );
    assert_eq!(
        envs(&c),
        vec![
            ("HOME", "/Users/a/.codex_manager/profiles/work"),
            ("CODEX_HOME", "/Users/a/.codex_manager/profiles/work/.codex"),
            ("XDG_CONFIG_HOME", "/Users/a/.codex_manager/profiles/work/.config"),
            ("TMPDIR", "/Users/a/.codex_manager/profiles/work/tmp"),
            ("NODE_KEYRING_DISABLE", "1"),
        ]
    );
}

#[test]
fn launch_command_windows() {
    let c = LauncherEngine::launch_command(
        Platform::Windows,
        "C:\\Users\\a\\.codex_manager\\profiles\\work",
        None,
        "Codex",
        None,
    );
    assert_eq!(c.program, "cmd");
    assert_eq!(
        args(&c),
        vec![
            "/C",
            "start",
            "Codex",
            "--user-data-dir=C:\\Users\\a\\.codex_manager\\profiles\\work\\userdata",
            "--disk-cache-dir=C:\\Users\\a\\.codex_manager\\profiles\\work\\cache\\disk",
            "--password-store=basic",
        ]
    );
    assert_eq!(
        envs(&c),
        vec![
            ("USERPROFILE", "C:\\Users\\a\\.codex_manager\\profiles\\work"),
            ("HOME", "C:\\Users\\a\\.codex_manager\\profiles\\work"),
            ("CODEX_HOME", "C:\\Users\\a\\.codex_manager\\profiles\\work\\.codex"),
            ("APPDATA", "C:\\Users\\a\\.codex_manager\\profiles\\work\\AppData/Roaming"),
            ("LOCALAPPDATA", "C:\\Users\\a\\.codex_manager\\profiles\\work\\AppData/Local"),
            ("TMP", "C:\\Users\\a\\.codex_manager\\profiles\\work\\tmp"),
            ("TEMP", "C:\\Users\\a\\.codex_manager\\profiles\\work\\tmp"),
            ("NODE_KEYRING_DISABLE", "1"),
        ]
    );
}

#[test]
fn launch_command_windows_executable() {
    let c = LauncherEngine::launch_command(
        Platform::Windows,
        "C:\\p\\w",
        Some("C:\\src".to_string()),
        "Codex",
        Some("D:\\Apps\\ChatGPT.exe".to_string()),
    );
    assert_eq!(c.program, "D:\\Apps\\ChatGPT.exe");
    assert_eq!(
        args(&c),
        vec![
            "--user-data-dir=C:\\p\\w\\userdata",
            "--disk-cache-dir=C:\\p\\w\\cache\\disk",
            "--password-store=basic",
            "C:\\src",
        ]
    );
    assert_eq!(c.envs.len(), 8);
}

#[test]
fn launch_command_linux_skips_blank_project() {
    let c = LauncherEngine::launch_command(
        Platform::Linux,
        "/home/a/.codex_manager/profiles/p",
        Some("   ".to_string()),
        "Codex",
        None,
    );
    assert_eq!(c.program, "codex-desktop");
    assert_eq!(
        args(&c),
        vec![
            "--user-data-dir=/home/a/.codex_manager/profiles/p/userdata",
            "--disk-cache-dir=/home/a/.codex_manager/profiles/p/cache/disk",
            "--password-store=basic",
        ]
    );
    assert_eq!(
        envs(&c),
        vec![
            ("HOME", "/home/a/.codex_manager/profiles/p"),
            ("CODEX_HOME", "/home/a/.codex_manager/profiles/p/.codex"),
            ("TMPDIR", "/home/a/.codex_manager/profiles/p/tmp"),
            ("NODE_KEYRING_DISABLE", "1"),
        ]
    );
}

#[test]
fn windows_runtime_and_executable_choice() {
    assert_eq!(
        LauncherEngine::runtime_app_dir(Platform::Windows, "C:\\Users\\u\\.codex_manager", "1.2.3.0"),
        Some("C:\\Users\\u\\.codex_manager\\runtime\\1.2.3.0\\app".to_string())
    );
    assert_eq!(LauncherEngine::runtime_app_dir(Platform::Windows, "C:\\m", ""), None);
    assert_eq!(LauncherEngine::runtime_app_dir(Platform::Windows, "C:\\m", "..\\x"), None);
    assert_eq!(LauncherEngine::runtime_app_dir(Platform::Windows, "C:\\m", ".."), None);
    let cands = LauncherEngine::runtime_exe_candidates(Platform::Windows, "C:\\r\\app");
    assert_eq!(cands, vec!["C:\\r\\app\\Codex.exe".to_string(), "C:\\r\\app\\ChatGPT.exe".to_string()]);
    assert_eq!(
        LauncherEngine::pick_windows_exe(Some("D:\\ChatGPT.exe".to_string()), &cands, &vec![true, true]),
        Some("D:\\ChatGPT.exe".to_string())
    );
    assert_eq!(
        LauncherEngine::pick_windows_exe(Some("  ".to_string()), &cands, &vec![false, true]),
        Some("C:\\r\\app\\ChatGPT.exe".to_string())
    );
    assert_eq!(
        LauncherEngine::pick_windows_exe(None, &cands, &vec![true, true]),
        Some("C:\\r\\app\\Codex.exe".to_string())
    );
    assert_eq!(LauncherEngine::pick_windows_exe(None, &cands, &vec![false, false]), None);
    assert_eq!(LauncherEngine::pick_windows_exe(None, &cands, &vec![]), None);
}

#[test]
fn store_package_line() {
    assert_eq!(
        LauncherEngine::parse_store_package(
            "C:\\Program Files\\WindowsApps\\OpenAI.Codex_1.2.3.0_x64__abc|1.2.3.0\r\n"
        ),
        Some((
            "C:\\Program Files\\WindowsApps\\OpenAI.Codex_1.2.3.0_x64__abc".to_string(),
            "1.2.3.0".to_string()
        ))
    );
    assert_eq!(LauncherEngine::parse_store_package(""), None);
    assert_eq!(LauncherEngine::parse_store_package("|1.0"), None);
    assert_eq!(LauncherEngine::parse_store_package("C:\\x|"), None);
    assert_eq!(LauncherEngine::parse_store_package("no package"), None);
    assert_eq!(
        LauncherEngine::store_package_from_output(b"  C:\\Apps\\Codex|26.1.0\r\n"),
        Some(("C:\\Apps\\Codex".to_string(), "26.1.0".to_string()))
    );
    assert_eq!(
        LauncherEngine::store_package_from_output(b"C:\\A\xff|1"),
        Some(("C:\\A\u{fffd}".to_string(), "1".to_string()))
    );
    assert_eq!(LauncherEngine::store_package_from_output(b""), None);
}

#[test]
fn pick_mac_app_takes_first_installed() {
    assert_eq!(LauncherEngine::pick_mac_app(&vec![true, true]), "/Applications/Codex.app");
    assert_eq!(LauncherEngine::pick_mac_app(&vec![false, true]), "/Applications/OpenAI Codex.app");
    assert_eq!(LauncherEngine::pick_mac_app(&vec![false, false]), "Codex");
    assert_eq!(LauncherEngine::pick_mac_app(&vec![]), "Codex");
    assert_eq!(
        LauncherEngine::mac_app_candidates(),
        vec!["/Applications/Codex.app".to_string(), "/Applications/OpenAI Codex.app".to_string()]
    );
}

#[test]
fn open_profile_dir_command_per_platform() {
    let c = LauncherEngine::open_profile_dir_command(Platform::MacOs, "/x");
    assert_eq!(c.program, "open");
    assert_eq!(args(&c), vec!["/x"]);
    assert_eq!(LauncherEngine::open_profile_dir_command(Platform::Windows, "C:\\x").program, "explorer");
    assert_eq!(LauncherEngine::open_profile_dir_command(Platform::Linux, "/x").program, "xdg-open");
}

#[test]
fn stop_target_occurs_in_launched_data_dir_argument() {
    let dir = "/home/u/.codex_manager/profiles/work";
    let launch = LauncherEngine::launch_command(Platform::Linux, dir, None, "Codex", None);
    assert!(launch.args[0].contains(".codex_manager/profiles/work/"));
    assert!(!launch.args[0].contains(".codex_manager/profiles/wor/"));
    let other = "C:\\u\\.codex_manager\\profiles\\work2";
    let launch2 = LauncherEngine::launch_command(Platform::Windows, other, None, "Codex", None);
    assert!(!launch2.args[3].contains(".codex_manager\\profiles\\work\\"));
}
