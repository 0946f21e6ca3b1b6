//! Starting and stopping isolated instances: the commands that launch a
//! profile with its own directories, stop it, stop all, and show its data
//! directory.
use vstd::prelude::*;

use crate::command::{CommandSpec, CommandView};
use crate::escape::{escape, escape_text, Quoting};
use crate::paths::{
    is_path_component, join, join_path, path_component_is_valid, separator, separator_char, Platform,
};
use crate::process_list::{
    decode_utf8_lossy, lossy_text, running_from_text, running_profiles_from_output,
};
use crate::running::{lists_keys_once, RunningProfiles};
use crate::text::{
    concat3_str, concat_str, find_chars, find_from, is_blank, push_char, str_chars, str_is_blank,
    string_from_chars, trim, trim_chars,
};

verus! {

/// Launching, stopping and locating the instances of the profiles.
pub struct LauncherEngine;

/// The project folder argument: given only when it is not blank.
pub open spec fn project_args(project: Option<Seq<char>>) -> Seq<Seq<char>> {
    match project {
        Some(path) => if is_blank(path) {
            Seq::empty()
        } else {
            seq![path]
        },
        None => Seq::empty(),
    }
}

/// The data directory of the instance.
pub open spec fn user_data_dir(p: Platform, dir: Seq<char>) -> Seq<char> {
    join_path(p, dir, "userdata"@)
}

/// The temporary directory of the instance.
pub open spec fn temp_dir(p: Platform, dir: Seq<char>) -> Seq<char> {
    join_path(p, dir, "tmp"@)
}

/// The cache directory of the instance.
pub open spec fn cache_dir(p: Platform, dir: Seq<char>) -> Seq<char> {
    join_path(p, dir, "cache"@)
}

/// The argument that points the instance at its own data directory.
pub open spec fn user_data_arg(p: Platform, dir: Seq<char>) -> Seq<char> {
    "--user-data-dir="@ + user_data_dir(p, dir)
}

/// The cache directory argument of the instance.
pub open spec fn disk_cache_arg(p: Platform, dir: Seq<char>) -> Seq<char> {
    "--disk-cache-dir="@ + join_path(p, cache_dir(p, dir), "disk"@)
}

/// The command that starts the instance of the profile whose directory is
/// `dir`, with its home, configuration, data, cache and temporary
/// directories all inside `dir`, and the system keyring bypassed for
/// file-based credentials. `mac_app` is the application `open` starts on
/// macOS; `windows_exe` is the executable started on Windows, where `None`
/// hands the start to the shell's `start Codex`.
pub open spec fn launch_spec(
    p: Platform,
    dir: Seq<char>,
    project: Option<Seq<char>>,
    mac_app: Seq<char>,
    windows_exe: Option<Seq<char>>,
) -> CommandView {
    let cache = cache_dir(p, dir);
    match p {
        Platform::MacOs => CommandView {
            program: "open"@,
            args: seq![
                "-n"@,
                "-a"@,
                mac_app,
                "--args"@,
                user_data_arg(p, dir),
                disk_cache_arg(p, dir),
                "--crash-dumps-dir="@ + join_path(p, cache, "crashes"@),
                "--password-store=basic"@,
            ] + project_args(project),
            envs: seq![
                ("HOME"@, dir),
                ("CODEX_HOME"@, join_path(p, dir, ".codex"@)),
                ("XDG_CONFIG_HOME"@, join_path(p, dir, ".config"@)),
                ("TMPDIR"@, temp_dir(p, dir)),
                ("NODE_KEYRING_DISABLE"@, "1"@),
            ],
        },
        Platform::Windows => {
            let isolation = seq![
                user_data_arg(p, dir),
                disk_cache_arg(p, dir),
                "--password-store=basic"@,
            ];
            CommandView {
                program: match windows_exe {
                    Some(exe) => exe,
                    None => "cmd"@,
                },
                args: match windows_exe {
                    Some(_) => isolation,
                    None => seq!["/C"@, "start"@, "Codex"@] + isolation,
                } + project_args(project),
                envs: seq![
                    ("USERPROFILE"@, dir),
                    ("HOME"@, dir),
                    ("CODEX_HOME"@, join_path(p, dir, ".codex"@)),
                    ("APPDATA"@, join_path(p, dir, "AppData/Roaming"@)),
                    ("LOCALAPPDATA"@, join_path(p, dir, "AppData/Local"@)),
                    ("TMP"@, temp_dir(p, dir)),
                    ("TEMP"@, temp_dir(p, dir)),
                    ("NODE_KEYRING_DISABLE"@, "1"@),
                ],
            }
        },
        Platform::Linux => CommandView {
            program: "codex-desktop"@,
            args: seq![
                user_data_arg(p, dir),
                disk_cache_arg(p, dir),
                "--password-store=basic"@,
            ] + project_args(project),
            envs: seq![
                ("HOME"@, dir),
                ("CODEX_HOME"@, join_path(p, dir, ".codex"@)),
                ("TMPDIR"@, temp_dir(p, dir)),
                ("NODE_KEYRING_DISABLE"@, "1"@),
            ],
        },
    }
}

/// Where the shared copy of the Store app of version `version` is kept,
/// under the manager's directory `base`: `base/runtime/<version>/app`;
/// none when `version` is not a single path component.
pub open spec fn runtime_app_dir_spec(p: Platform, base: Seq<char>, version: Seq<char>) -> Option<
    Seq<char>,
> {
    if is_path_component(p, version) {
        Some(join_path(p, join_path(p, join_path(p, base, "runtime"@), version), "app"@))
    } else {
        None
    }
}

/// The executables that may start the app in a copied runtime, in the
/// order they are tried.
pub open spec fn runtime_exe_paths(p: Platform, app_dir: Seq<char>) -> Seq<Seq<char>> {
    seq![join_path(p, app_dir, "Codex.exe"@), join_path(p, app_dir, "ChatGPT.exe"@)]
}

/// The executable to start on Windows: the one `CODEX_DESKTOP_PATH` names
/// when it is set and not blank; otherwise the first executable of the
/// runtime copy that exists (`exists[i]` telling whether the `i`-th of
/// `runtime_exe_paths` does); otherwise none.
pub open spec fn pick_windows_exe_spec(
    desktop_path: Option<Seq<char>>,
    candidates: Seq<Seq<char>>,
    exists: Seq<bool>,
) -> Option<Seq<char>> {
    match desktop_path {
        Some(d) if !is_blank(d) => Some(d),
        _ => if exists.len() > 0 && candidates.len() > 0 && exists[0] {
            Some(candidates[0])
        } else if exists.len() > 1 && candidates.len() > 1 && exists[1] {
            Some(candidates[1])
        } else {
            None
        },
    }
}

/// The install location and version of the Store package, read from the
/// line `<install location>|<version>` that the package query prints:
/// the text is trimmed, split at its first `|`, and both parts must be
/// non-empty.
pub open spec fn store_package_spec(text: Seq<char>) -> Option<(Seq<char>, Seq<char>)> {
    let t = trim(text);
    match find_from(t, "|"@, 0) {
        Some(k) => if 0 < k && k + 1 < t.len() {
            Some((t.subrange(0, k), t.subrange(k + 1, t.len() as int)))
        } else {
            None
        },
        None => None,
    }
}

/// The applications `open` may start on macOS, in the order they are tried.
pub open spec fn mac_app_paths() -> Seq<Seq<char>> {
    seq!["/Applications/Codex.app"@, "/Applications/OpenAI Codex.app"@]
}

/// The first installed application of `mac_app_paths`, `installed[i]`
/// telling whether the `i`-th is; `Codex` when none is.
pub open spec fn pick_mac_app_spec(installed: Seq<bool>) -> Seq<char> {
    if installed.len() > 0 && installed[0] {
        mac_app_paths()[0]
    } else if installed.len() > 1 && installed[1] {
        mac_app_paths()[1]
    } else {
        "Codex"@
    }
}

/// The data path of profile `id` as it appears in the command lines of the
/// profile's processes: `.codex_manager/profiles/<id>/`, written with the
/// platform's separator.
pub open spec fn stop_target(p: Platform, id: Seq<char>) -> Seq<char> {
    let s = seq![separator(p)];
    ".codex_manager"@ + s + "profiles"@ + s + id + s
}

/// The pattern a stop command hands to the tool that finds the processes:
/// off Windows, the data path as a regular expression that matches it
/// literally (`pkill -f` ends the processes whose command line contains
/// it); on Windows, a `-like` wildcard that matches the command lines
/// containing the data path literally.
pub open spec fn stop_pattern(p: Platform, id: Seq<char>) -> Seq<char> {
    if p == Platform::Windows {
        "*"@ + escape(Quoting::Wildcard, stop_target(p, id)) + "*"@
    } else {
        escape(Quoting::Regex, stop_target(p, id))
    }
}

/// The PowerShell script that ends the processes whose command line is
/// `-like` the quoted `pattern`.
pub open spec fn stop_script(pattern: Seq<char>) -> Seq<char> {
    "Get-CimInstance Win32_Process | Where-Object { $_.CommandLine -like '"@ + escape(
        Quoting::SingleQuoted,
        pattern,
    ) + "' } | Remove-CimInstance"@
}

/// The command that ends every process of profile `id`; none for a blank
/// id.
pub open spec fn stop_spec(p: Platform, id: Seq<char>) -> Option<CommandView> {
    if is_blank(id) {
        None
    } else if p == Platform::Windows {
        Some(
            CommandView {
                program: "powershell"@,
                args: seq!["-Command"@, stop_script(stop_pattern(p, id))],
                envs: Seq::empty(),
            },
        )
    } else {
        Some(
            CommandView {
                program: "pkill"@,
                args: seq!["-9"@, "-f"@, stop_pattern(p, id)],
                envs: Seq::empty(),
            },
        )
    }
}

/// The stop commands for `ids`, in order.
pub open spec fn stop_each(p: Platform, ids: Seq<Seq<char>>) -> Seq<CommandView>
    decreases ids.len(),
{
    if ids.len() == 0 {
        Seq::empty()
    } else {
        let rest = stop_each(p, ids.drop_last());
        match stop_spec(p, ids.last()) {
            Some(c) => rest.push(c),
            None => rest,
        }
    }
}

/// The command that ends every process under any profile directory.
pub open spec fn stop_remaining_spec() -> CommandView {
    CommandView {
        program: "pkill"@,
        args: seq!["-9"@, "-f"@, ".codex_manager/profiles/"@],
        envs: Seq::empty(),
    }
}

/// The commands that stop all profiles: one per running profile, then, off
/// Windows, one that ends whatever still runs under a profile directory.
pub open spec fn stop_all_spec(p: Platform, ids: Seq<Seq<char>>) -> Seq<CommandView> {
    if p == Platform::Windows {
        stop_each(p, ids)
    } else {
        stop_each(p, ids).push(stop_remaining_spec())
    }
}

/// The command that shows a directory in the platform's file browser.
pub open spec fn open_dir_spec(p: Platform, path: Seq<char>) -> CommandView {
    CommandView {
        program: match p {
            Platform::MacOs => "open"@,
            Platform::Windows => "explorer"@,
            Platform::Linux => "xdg-open"@,
        },
        args: seq![path],
        envs: Seq::empty(),
    }
}

impl LauncherEngine {
    /// The running profiles, read from the output of the process listing
    /// (`None` when the listing could not be taken).
    pub fn get_running_profiles(p: Platform, process_list: Option<Vec<u8>>) -> (r: RunningProfiles)
        ensures
            lists_keys_once(r.ids(), r@),
            match process_list {
                None => r@ == Map::<Seq<char>, u32>::empty(),
                Some(bytes) => {
                    &&& r@ == running_from_text(p, lossy_text(bytes@))
                    &&& vstd::utf8::valid_utf8(bytes@) ==> r@ == running_from_text(
                        p,
                        vstd::utf8::decode_utf8(bytes@),
                    )
                },
            },
    {
        running_profiles_from_output(p, process_list)
    }

    /// The applications `open` may start on macOS, in the order they are
    /// tried.
    pub fn mac_app_candidates() -> (r: Vec<String>)
        ensures
            r@.map_values(|s: String| s@) == mac_app_paths(),
    {
        let mut r: Vec<String> = Vec::new();
        r.push(String::from_str("/Applications/Codex.app"));
        r.push(String::from_str("/Applications/OpenAI Codex.app"));
        assert(r@.map_values(|s: String| s@) =~= mac_app_paths());
        r
    }

    /// The first installed application, `installed[i]` telling whether the
    /// `i`-th candidate is; `Codex` when none is.
    pub fn pick_mac_app(installed: &Vec<bool>) -> (r: String)
        ensures
            r@ == pick_mac_app_spec(installed@),
    {
        if installed.len() > 0 && installed[0] {
            String::from_str("/Applications/Codex.app")
        } else if installed.len() > 1 && installed[1] {
            String::from_str("/Applications/OpenAI Codex.app")
        } else {
            String::from_str("Codex")
        }
    }

    /// The command that starts the instance of the profile whose directory
    /// is `profile_dir`, opening `project_path` when it is not blank.
    pub fn launch_command(
        p: Platform,
        profile_dir: &str,
        project_path: Option<String>,
        mac_app: &str,
        windows_exe: Option<String>,
    ) -> (r: CommandSpec)
        ensures
            r@ == launch_spec(
                p,
                profile_dir@,
                project_path.deep_view(),
                mac_app@,
                windows_exe.deep_view(),
            ),
    {
        let ghost project = project_path.deep_view();
        let ghost exe = windows_exe.deep_view();
        let userdata = join(p, profile_dir, "userdata");
        let tmp = join(p, profile_dir, "tmp");
        let cache = join(p, profile_dir, "cache");
        let mut c = match p {
            Platform::MacOs => {
                let mut c = CommandSpec::new("open");
                c.arg_str("-n");
                c.arg_str("-a");
                c.arg_str(mac_app);
                c.env("HOME", String::from_str(profile_dir));
                c.env("CODEX_HOME", join(p, profile_dir, ".codex"));
                c.env("XDG_CONFIG_HOME", join(p, profile_dir, ".config"));
                c.env("TMPDIR", tmp);
                c.env("NODE_KEYRING_DISABLE", String::from_str("1"));
                c.arg_str("--args");
                c.arg(concat_str("--user-data-dir=", userdata.as_str()));
                c.arg(concat_str("--disk-cache-dir=", join(p, cache.as_str(), "disk").as_str()));
                c.arg(
                    concat_str("--crash-dumps-dir=", join(p, cache.as_str(), "crashes").as_str()),
                );
                c.arg_str("--password-store=basic");
                c
            },
            Platform::Windows => {
                let mut c = match windows_exe {
                    Some(e) => CommandSpec::new(e.as_str()),
                    None => {
                        let mut c = CommandSpec::new("cmd");
                        c.arg_str("/C");
                        c.arg_str("start");
                        c.arg_str("Codex");
                        c
                    },
                };
                c.env("USERPROFILE", String::from_str(profile_dir));
                c.env("HOME", String::from_str(profile_dir));
                c.env("CODEX_HOME", join(p, profile_dir, ".codex"));
                c.env("APPDATA", join(p, profile_dir, "AppData/Roaming"));
                c.env("LOCALAPPDATA", join(p, profile_dir, "AppData/Local"));
                c.env("TMP", String::from_str(tmp.as_str()));
                c.env("TEMP", tmp);
                c.env("NODE_KEYRING_DISABLE", String::from_str("1"));
                c.arg(concat_str("--user-data-dir=", userdata.as_str()));
                c.arg(concat_str("--disk-cache-dir=", join(p, cache.as_str(), "disk").as_str()));
                c.arg_str("--password-store=basic");
                c
            },
            Platform::Linux => {
                let mut c = CommandSpec::new("codex-desktop");
                c.env("HOME", String::from_str(profile_dir));
                c.env("CODEX_HOME", join(p, profile_dir, ".codex"));
                c.env("TMPDIR", tmp);
                c.env("NODE_KEYRING_DISABLE", String::from_str("1"));
                c.arg(concat_str("--user-data-dir=", userdata.as_str()));
                c.arg(concat_str("--disk-cache-dir=", join(p, cache.as_str(), "disk").as_str()));
                c.arg_str("--password-store=basic");
                c
            },
        };
        match project_path {
            Some(path) => {
                if !str_is_blank(path.as_str()) {
                    c.arg(path);
                }
            },
            None => {},
        }
        assert(c@ =~= launch_spec(p, profile_dir@, project, mac_app@, exe));
        c
    }

    /// Where the shared copy of the Store app of `version` is kept under
    /// the manager's directory `base_dir`; `None` when `version` is not a
    /// single path component.
    pub fn runtime_app_dir(p: Platform, base_dir: &str, version: &str) -> (r: Option<String>)
        ensures
            r.deep_view() == runtime_app_dir_spec(p, base_dir@, version@),
    {
        if !path_component_is_valid(p, version) {
            return None;
        }
        let runtime = join(p, base_dir, "runtime");
        let v = join(p, runtime.as_str(), version);
        Some(join(p, v.as_str(), "app"))
    }

    /// The executables that may start the app in the runtime copy
    /// `app_dir`, in the order they are tried.
    pub fn runtime_exe_candidates(p: Platform, app_dir: &str) -> (r: Vec<String>)
        ensures
            r@.map_values(|s: String| s@) == runtime_exe_paths(p, app_dir@),
    {
        let mut r: Vec<String> = Vec::new();
        r.push(join(p, app_dir, "Codex.exe"));
        r.push(join(p, app_dir, "ChatGPT.exe"));
        assert(r@.map_values(|s: String| s@) =~= runtime_exe_paths(p, app_dir@));
        r
    }

    /// The executable to start on Windows: `desktop_path` (the value of
    /// `CODEX_DESKTOP_PATH`) when it is set and not blank, otherwise the
    /// first of `candidates` that exists, otherwise none.
    pub fn pick_windows_exe(
        desktop_path: Option<String>,
        candidates: &Vec<String>,
        exists: &Vec<bool>,
    ) -> (r: Option<String>)
        ensures
            r.deep_view() == pick_windows_exe_spec(
                desktop_path.deep_view(),
                candidates@.map_values(|s: String| s@),
                exists@,
            ),
    {
        let ghost cands = candidates@.map_values(|s: String| s@);
        match desktop_path {
            Some(d) => {
                if !str_is_blank(d.as_str()) {
                    return Some(d);
                }
            },
            None => {},
        }
        if exists.len() > 0 && candidates.len() > 0 && exists[0] {
            assert(cands[0] == candidates@[0]@);
            Some(candidates[0].clone())
        } else if exists.len() > 1 && candidates.len() > 1 && exists[1] {
            assert(cands[1] == candidates@[1]@);
            Some(candidates[1].clone())
        } else {
            None
        }
    }

    /// The install location and version of the Store package, read from the
    /// raw output of the package query (decoded as `String::from_utf8_lossy`
    /// decodes it).
    pub fn store_package_from_output(output: &[u8]) -> (r: Option<(String, String)>)
        ensures
            match r {
                Some(e) => store_package_spec(lossy_text(output@)) == Some((e.0@, e.1@)),
                None => store_package_spec(lossy_text(output@)) is None,
            },
            vstd::utf8::valid_utf8(output@) ==> match r {
                Some(e) => store_package_spec(vstd::utf8::decode_utf8(output@)) == Some(
                    (e.0@, e.1@),
                ),
                None => store_package_spec(vstd::utf8::decode_utf8(output@)) is None,
            },
    {
        let text = decode_utf8_lossy(output);
        Self::parse_store_package(text.as_str())
    }

    /// The install location and version of the Store package, read from the
    /// package query's output `<install location>|<version>`.
    pub fn parse_store_package(text: &str) -> (r: Option<(String, String)>)
        ensures
            match r {
                Some(e) => store_package_spec(text@) == Some((e.0@, e.1@)),
                None => store_package_spec(text@) is None,
            },
    {
        let t = trim_chars(&str_chars(text));
        let bar = str_chars("|");
        match find_chars(&t, &bar) {
            Some(k) => {
                if 0 < k && k < t.len() && k + 1 < t.len() {
                    Some((string_from_chars(&t, 0, k), string_from_chars(&t, k + 1, t.len())))
                } else {
                    None
                }
            },
            None => None,
        }
    }

    /// The command that shows the profile directory `path` in the file
    /// browser.
    pub fn open_profile_dir_command(p: Platform, path: &str) -> (r: CommandSpec)
        ensures
            r@ == open_dir_spec(p, path@),
    {
        let mut c = match p {
            Platform::MacOs => CommandSpec::new("open"),
            Platform::Windows => CommandSpec::new("explorer"),
            Platform::Linux => CommandSpec::new("xdg-open"),
        };
        c.arg_str(path);
        assert(c@ =~= open_dir_spec(p, path@));
        c
    }

    /// The command that ends every process of profile `profile_id`, or
    /// `None` when the id is blank and nothing is to be stopped.
    pub fn stop_command(p: Platform, profile_id: &str) -> (r: Option<CommandSpec>)
        ensures
            match r {
                Some(c) => stop_spec(p, profile_id@) == Some(c@),
                None => stop_spec(p, profile_id@) is None,
            },
    {
        if str_is_blank(profile_id) {
            return None;
        }
        let target = Self::data_path_text(p, profile_id);
        if p == Platform::Windows {
            let mut pattern = String::from_str("*");
            pattern.append(escape_text(Quoting::Wildcard, target.as_str()).as_str());
            pattern.append("*");
            let mut c = CommandSpec::new("powershell");
            c.arg_str("-Command");
            c.arg(
                concat3_str(
                    "Get-CimInstance Win32_Process | Where-Object { $_.CommandLine -like '",
                    escape_text(Quoting::SingleQuoted, pattern.as_str()).as_str(),
                    "' } | Remove-CimInstance",
                ),
            );
            assert(pattern@ =~= stop_pattern(p, profile_id@));
            assert(Some(c@) =~= stop_spec(p, profile_id@));
            Some(c)
        } else {
            let mut c = CommandSpec::new("pkill");
            c.arg_str("-9");
            c.arg_str("-f");
            c.arg(escape_text(Quoting::Regex, target.as_str()));
            assert(Some(c@) =~= stop_spec(p, profile_id@));
            Some(c)
        }
    }

    /// The data path of profile `id` as it appears in command lines.
    fn data_path_text(p: Platform, id: &str) -> (r: String)
        ensures
            r@ == stop_target(p, id@),
    {
        let sep = separator_char(p);
        let mut r = String::from_str(".codex_manager");
        push_char(&mut r, sep);
        r.append("profiles");
        push_char(&mut r, sep);
        r.append(id);
        push_char(&mut r, sep);
        assert(r@ =~= stop_target(p, id@));
        r
    }

    /// The commands that stop every running profile, in the order of
    /// `running.ids()`, followed, off Windows, by one that ends whatever
    /// still runs under a profile directory.
    pub fn stop_all_commands(p: Platform, running: &RunningProfiles) -> (r: Vec<CommandSpec>)
        ensures
            r@.map_values(|c: CommandSpec| c@) == stop_all_spec(p, running.ids()),
    {
        let entries = running.entries();
        let ghost ids = running.ids();
        let mut r: Vec<CommandSpec> = Vec::new();
        let mut i: usize = 0;
        while i < entries.len()
            invariant
                i <= entries@.len(),
                entries@.len() == ids.len(),
                forall|j: int| 0 <= j < entries@.len() ==> (#[trigger] entries@[j]).0@ == ids[j],
                r@.map_values(|c: CommandSpec| c@) == stop_each(p, ids.subrange(0, i as int)),
            decreases entries.len() - i,
        {
            let ghost before = r@.map_values(|c: CommandSpec| c@);
            assert(ids.subrange(0, i + 1).drop_last() =~= ids.subrange(0, i as int));
            assert(ids.subrange(0, i + 1).last() == entries@[i as int].0@);
            match Self::stop_command(p, entries[i].0.as_str()) {
                Some(c) => {
                    r.push(c);
                    assert(r@.map_values(|c: CommandSpec| c@) =~= before.push(c@));
                },
                None => {},
            }
            i = i + 1;
        }
        assert(ids.subrange(0, ids.len() as int) =~= ids);
        if p != Platform::Windows {
            let ghost before = r@.map_values(|c: CommandSpec| c@);
            let mut c = CommandSpec::new("pkill");
            c.arg_str("-9");
            c.arg_str("-f");
            c.arg_str(".codex_manager/profiles/");
            assert(c@ =~= stop_remaining_spec());
            r.push(c);
            assert(r@.map_values(|c: CommandSpec| c@) =~= before.push(stop_remaining_spec()));
        }
        r
    }
}

} // verus!
