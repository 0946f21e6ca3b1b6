//! Properties that relate several operations of the library.
use vstd::prelude::*;

use crate::escape::{escape, escape_char, is_special, lemma_unescape_escape, unescape, Quoting};
use crate::menu::{
    has_prefix, menu_action_spec, menu_spec, profile_entry, project_of, MenuActionView, MenuEntryView,
    MenuKind,
};
use crate::launcher::{
    open_dir_spec, pick_mac_app_spec, pick_windows_exe_spec, runtime_app_dir_spec, runtime_exe_paths,
    store_package_spec,
    cache_dir, disk_cache_arg, launch_spec, stop_all_spec, stop_each, stop_pattern, stop_remaining_spec, stop_script,
    stop_spec, stop_target, user_data_arg, user_data_dir,
};
use crate::paths::{
    has_no_separator, is_separator, is_valid_profile_id, is_within, join_path, separator, Platform,
};
use crate::running::lists_keys_once;
use crate::process_list::{
    id_end, line_entry, names_codex_app, process_list_spec, profile_marker,
};
use crate::profile::{
    ProfileView, config_file_spec, default_profiles_spec,
    base_dir_spec, index_of_id, layout_spec, lemma_index_of_id_from, profile_dir_spec, profiles_dir_spec,
    profiles_without, Profile,
};
use crate::text::{
    contains_text, decimal, find_from, first_token, is_blank, is_digit, is_white_space,
    lemma_decimal_digits,
    lemma_find_from, lemma_find_from_first, lemma_parse_decimal, occurs_at, skip_white, skip_word, trim,
};

verus! {

/// `join_path` puts `part` after a fixed prefix that depends on `base` only.
pub open spec fn join_prefix(p: Platform, base: Seq<char>) -> Seq<char> {
    if base.len() == 0 || is_separator(p, base.last()) {
        base
    } else {
        base.push(separator(p))
    }
}

proof fn lemma_join_prefix(p: Platform, base: Seq<char>, part: Seq<char>)
    ensures
        join_path(p, base, part) == join_prefix(p, base) + part,
        join_prefix(p, base).len() == 0 || is_separator(p, join_prefix(p, base).last()),
{
    if base.len() == 0 {
        assert(Seq::<char>::empty() + part =~= part);
    } else if !is_separator(p, base.last()) {
        assert(base + seq![separator(p)] =~= base.push(separator(p)));
    }
}

/// A component that does not start with a separator lies below the
/// directory it is joined to.
proof fn lemma_join_within(p: Platform, dir: Seq<char>, part: Seq<char>)
    requires
        part.len() > 0,
        !is_separator(p, part[0]),
    ensures
        is_within(p, dir, join_path(p, dir, part)),
{
    lemma_join_prefix(p, dir, part);
    let path = join_path(p, dir, part);
    let pre = join_prefix(p, dir);
    assert(path.subrange(0, dir.len() as int) =~= dir);
    if dir.len() > 0 && !is_separator(p, dir.last()) {
        assert(path[dir.len() as int] == separator(p));
    }
}

/// Lying inside a directory carries over to what lies inside it.
proof fn lemma_within_trans(p: Platform, a: Seq<char>, b: Seq<char>, c: Seq<char>)
    requires
        is_within(p, a, b),
        is_within(p, b, c),
    ensures
        is_within(p, a, c),
{
    if a != b && b != c {
        assert(c.subrange(0, a.len() as int) =~= b.subrange(0, b.len() as int).subrange(
            0,
            a.len() as int,
        ));
        assert(c.subrange(0, b.len() as int).subrange(0, a.len() as int) =~= c.subrange(
            0,
            a.len() as int,
        ));
        if a.len() > 0 && !is_separator(p, a.last()) {
            assert(c[a.len() as int] == c.subrange(0, b.len() as int)[a.len() as int]);
        }
    }
}

/// Everything stays under the manager's directory: for a valid profile id,
/// the profile directory lies strictly inside the profiles directory (so it
/// is never the profiles directory itself), and it, every directory its
/// layout creates and every link target lie inside the manager's own
/// directory under the user's home.
pub proof fn law_layout_stays_in_manager_dir(
    p: Platform,
    home: Option<Seq<char>>,
    link_home: Option<Seq<char>>,
    id: Seq<char>,
)
    requires
        is_valid_profile_id(p, id),
    ensures
        ({
            let base = base_dir_spec(p, home);
            let profiles = profiles_dir_spec(p, home);
            let l = layout_spec(p, profiles, link_home, id);
            &&& is_within(p, base, profiles)
            &&& is_within(p, profiles, l.dir)
            &&& l.dir != profiles
            &&& is_within(p, base, l.dir)
            &&& forall|i: int|
                0 <= i < l.create_dirs.len() ==> is_within(p, l.dir, #[trigger] l.create_dirs[i])
                    && is_within(p, base, l.create_dirs[i])
            &&& forall|i: int|
                0 <= i < l.links.len() ==> is_within(p, l.dir, (#[trigger] l.links[i]).1)
                    && is_within(p, base, l.links[i].1)
        }),
{
    reveal_strlit("profiles");
    reveal_strlit("Library/Application Support");
    reveal_strlit("userdata");
    reveal_strlit("tmp");
    reveal_strlit("cache");
    reveal_strlit(".gitconfig");
    reveal_strlit(".ssh");
    let base = base_dir_spec(p, home);
    let profiles = profiles_dir_spec(p, home);
    let l = layout_spec(p, profiles, link_home, id);
    let dir = l.dir;
    assert(id.len() > 0);
    assert(!is_separator(p, id[0]));
    lemma_join_within(p, base, "profiles"@);
    lemma_join_within(p, profiles, id);
    lemma_join_prefix(p, profiles, id);
    assert(dir.len() > profiles.len());
    lemma_within_trans(p, base, profiles, dir);
    lemma_join_within(p, dir, "Library/Application Support"@);
    lemma_join_within(p, dir, "userdata"@);
    lemma_join_within(p, dir, "tmp"@);
    lemma_join_within(p, dir, "cache"@);
    lemma_join_within(p, dir, ".gitconfig"@);
    lemma_join_within(p, dir, ".ssh"@);
    assert forall|i: int| 0 <= i < l.create_dirs.len() implies is_within(
        p,
        dir,
        #[trigger] l.create_dirs[i],
    ) && is_within(p, base, l.create_dirs[i]) by {
        lemma_within_trans(p, base, dir, l.create_dirs[i]);
    }
    assert forall|i: int| 0 <= i < l.links.len() implies is_within(
        p,
        dir,
        (#[trigger] l.links[i]).1,
    ) && is_within(p, base, l.links[i].1) by {
        lemma_within_trans(p, base, dir, l.links[i].1);
    }
}

/// No two listed profiles share an id.
pub open spec fn ids_distinct(s: Seq<Profile>) -> bool {
    forall|i: int, j: int| 0 <= i < j < s.len() ==> #[trigger] s[i].id@ != #[trigger] s[j].id@
}

/// Adding a profile keeps the ids distinct: the list after `add_profile`
/// (the profile appended when its id is new, the list unchanged otherwise)
/// has distinct ids when the list before it had.
pub proof fn law_add_keeps_ids_distinct(profiles: Seq<Profile>, profile: Profile)
    requires
        ids_distinct(profiles),
    ensures
        ids_distinct(
            if index_of_id(profiles, profile.id@) is None {
                profiles.push(profile)
            } else {
                profiles
            },
        ),
{
    lemma_index_of_id_from(profiles, profile.id@, 0);
    if index_of_id(profiles, profile.id@) is None {
        let s = profiles.push(profile);
        assert forall|i: int, j: int| 0 <= i < j < s.len() implies #[trigger] s[i].id@
            != #[trigger] s[j].id@ by {
            if j == profiles.len() {
                assert(s[i] == profiles[i]);
            } else {
                assert(s[i] == profiles[i] && s[j] == profiles[j]);
            }
        }
    }
}

/// Isolation of profiles: the directories of two different profiles are
/// distinct and neither lies inside the other, when the profile ids are
/// non-empty and hold no path separator.
pub proof fn law_profile_dirs_isolated(
    p: Platform,
    profiles_dir: Seq<char>,
    id1: Seq<char>,
    id2: Seq<char>,
)
    requires
        id1 != id2,
        id1.len() > 0,
        id2.len() > 0,
        has_no_separator(p, id1),
        has_no_separator(p, id2),
    ensures
        !is_within(p, profile_dir_spec(p, profiles_dir, id1), profile_dir_spec(p, profiles_dir, id2)),
        !is_within(p, profile_dir_spec(p, profiles_dir, id2), profile_dir_spec(p, profiles_dir, id1)),
{
    lemma_dir_not_within(p, profiles_dir, id1, id2);
    lemma_dir_not_within(p, profiles_dir, id2, id1);
}

proof fn lemma_dir_not_within(p: Platform, profiles_dir: Seq<char>, a: Seq<char>, b: Seq<char>)
    requires
        a != b,
        a.len() > 0,
        b.len() > 0,
        has_no_separator(p, a),
        has_no_separator(p, b),
    ensures
        !is_within(p, profile_dir_spec(p, profiles_dir, a), profile_dir_spec(p, profiles_dir, b)),
{
    lemma_join_prefix(p, profiles_dir, a);
    lemma_join_prefix(p, profiles_dir, b);
    let pre = join_prefix(p, profiles_dir);
    let da = pre + a;
    let db = pre + b;
    if db == da {
        assert(a =~= da.subrange(pre.len() as int, da.len() as int));
        assert(b =~= db.subrange(pre.len() as int, db.len() as int));
    }
    if da.len() < db.len() && db.subrange(0, da.len() as int) == da {
        // `b` would start with `a` and continue with a separator
        assert(da.last() == a.last());
        assert(!is_separator(p, a[a.len() - 1]));
        let k = da.len() as int;
        assert(db[k] == b[k - pre.len()]);
        assert(!is_separator(p, b[k - pre.len()]));
    }
}

/// Containment of an instance: every directory the launch command of a
/// profile hands to the instance through its environment (its home,
/// configuration, data, cache and temporary directories) lies inside that
/// profile's directory, and so do its data and disk-cache directories.
pub proof fn law_launch_confined_to_profile_dir(
    p: Platform,
    dir: Seq<char>,
    project: Option<Seq<char>>,
    mac_app: Seq<char>,
    windows_exe: Option<Seq<char>>,
)
    ensures
        forall|i: int|
            0 <= i < launch_spec(p, dir, project, mac_app, windows_exe).envs.len() && (
            #[trigger] launch_spec(p, dir, project, mac_app, windows_exe).envs[i]).0
                != "NODE_KEYRING_DISABLE"@ ==> is_within(
                p,
                dir,
                launch_spec(p, dir, project, mac_app, windows_exe).envs[i].1,
            ),
        is_within(p, dir, user_data_dir(p, dir)),
        is_within(p, dir, join_path(p, cache_dir(p, dir), "disk"@)),
{
    reveal_strlit("userdata");
    reveal_strlit("tmp");
    reveal_strlit("cache");
    reveal_strlit("disk");
    reveal_strlit(".codex");
    reveal_strlit(".config");
    reveal_strlit("AppData/Roaming");
    reveal_strlit("AppData/Local");
    reveal_strlit("NODE_KEYRING_DISABLE");
    reveal_strlit("HOME");
    lemma_join_within(p, dir, "userdata"@);
    lemma_join_within(p, dir, "tmp"@);
    lemma_join_within(p, dir, "cache"@);
    lemma_join_within(p, cache_dir(p, dir), "disk"@);
    lemma_within_trans(p, dir, cache_dir(p, dir), join_path(p, cache_dir(p, dir), "disk"@));
    lemma_join_within(p, dir, ".codex"@);
    lemma_join_within(p, dir, ".config"@);
    lemma_join_within(p, dir, "AppData/Roaming"@);
    lemma_join_within(p, dir, "AppData/Local"@);
    let envs = launch_spec(p, dir, project, mac_app, windows_exe).envs;
    assert forall|i: int|
        0 <= i < envs.len() && (#[trigger] envs[i]).0 != "NODE_KEYRING_DISABLE"@ implies is_within(
        p,
        dir,
        envs[i].1,
    ) by {
        if i == envs.len() - 1 {
            assert(envs[i].0 == "NODE_KEYRING_DISABLE"@);
        }
    }
}

/// The isolation settings hold on every platform: the instance gets its
/// own data directory, its own disk cache inside the profile directory and
/// file-based credentials (`--password-store=basic`); its home and
/// `CODEX_HOME` are the profile directory and its `.codex`; and the system
/// keyring is disabled (`NODE_KEYRING_DISABLE=1`).
pub proof fn law_launch_isolation_on_every_platform(
    p: Platform,
    dir: Seq<char>,
    project: Option<Seq<char>>,
    mac_app: Seq<char>,
    windows_exe: Option<Seq<char>>,
)
    ensures
        ({
            let c = launch_spec(p, dir, project, mac_app, windows_exe);
            &&& c.args.contains(user_data_arg(p, dir))
            &&& c.args.contains(disk_cache_arg(p, dir))
            &&& c.args.contains("--password-store=basic"@)
            &&& c.envs.contains(("HOME"@, dir))
            &&& c.envs.contains(("CODEX_HOME"@, join_path(p, dir, ".codex"@)))
            &&& c.envs.contains(("NODE_KEYRING_DISABLE"@, "1"@))
        }),
{
    let c = launch_spec(p, dir, project, mac_app, windows_exe);
    match p {
        Platform::MacOs => {
            assert(c.args[4] == user_data_arg(p, dir));
            assert(c.args[5] == disk_cache_arg(p, dir));
            assert(c.args[7] == "--password-store=basic"@);
            assert(c.envs[0] == ("HOME"@, dir));
            assert(c.envs[1] == ("CODEX_HOME"@, join_path(p, dir, ".codex"@)));
            assert(c.envs[4] == ("NODE_KEYRING_DISABLE"@, "1"@));
        },
        Platform::Windows => {
            let o: int = if windows_exe is Some {
                0
            } else {
                3
            };
            assert(c.args[o] == user_data_arg(p, dir));
            assert(c.args[o + 1] == disk_cache_arg(p, dir));
            assert(c.args[o + 2] == "--password-store=basic"@);
            assert(c.envs[1] == ("HOME"@, dir));
            assert(c.envs[2] == ("CODEX_HOME"@, join_path(p, dir, ".codex"@)));
            assert(c.envs[7] == ("NODE_KEYRING_DISABLE"@, "1"@));
        },
        Platform::Linux => {
            assert(c.args[0] == user_data_arg(p, dir));
            assert(c.args[1] == disk_cache_arg(p, dir));
            assert(c.args[2] == "--password-store=basic"@);
            assert(c.envs[0] == ("HOME"@, dir));
            assert(c.envs[1] == ("CODEX_HOME"@, join_path(p, dir, ".codex"@)));
            assert(c.envs[3] == ("NODE_KEYRING_DISABLE"@, "1"@));
        },
    }
}

/// The text that comes before `.codex_manager` in the manager's directory.
pub open spec fn home_prefix(p: Platform, home: Option<Seq<char>>) -> Seq<char> {
    join_prefix(
        p,
        match home {
            Some(h) => h,
            None => "."@,
        },
    )
}

/// The data-directory argument of a profile's instance, piece by piece.
proof fn lemma_user_data_arg_shape(p: Platform, home: Option<Seq<char>>, id: Seq<char>)
    requires
        id.len() > 0,
        has_no_separator(p, id),
    ensures
        user_data_arg(p, profile_dir_spec(p, profiles_dir_spec(p, home), id)) == "--user-data-dir="@
            + home_prefix(p, home) + ".codex_manager"@ + seq![separator(p)] + "profiles"@ + seq![
            separator(p),
        ] + id + seq![separator(p)] + "userdata"@,
{
    reveal_strlit(".codex_manager");
    reveal_strlit("profiles");
    let h = match home {
        Some(h) => h,
        None => "."@,
    };
    let s = seq![separator(p)];
    let hp = home_prefix(p, home);
    let cm = ".codex_manager"@;
    let pr = "profiles"@;
    lemma_join_prefix(p, h, cm);
    let base = base_dir_spec(p, home);
    assert(base == hp + cm);
    assert(base.last() == 'r');
    lemma_join_prefix(p, base, pr);
    let profiles = profiles_dir_spec(p, home);
    assert(join_prefix(p, base) =~= base + s);
    assert(profiles =~= hp + cm + s + pr);
    assert(profiles.last() == 's');
    lemma_join_prefix(p, profiles, id);
    let dir = profile_dir_spec(p, profiles, id);
    assert(join_prefix(p, profiles) =~= profiles + s);
    assert(dir =~= hp + cm + s + pr + s + id);
    assert(dir.last() == id.last());
    assert(!is_separator(p, id[id.len() - 1]));
    lemma_join_prefix(p, dir, "userdata"@);
    assert(join_prefix(p, dir) =~= dir + s);
    assert(user_data_dir(p, dir) =~= hp + cm + s + pr + s + id + s + "userdata"@);
    assert(user_data_arg(p, dir) =~= "--user-data-dir="@ + hp + cm + s + pr + s + id + s
        + "userdata"@);
}

/// `hay` contains `needle` when it occurs somewhere.
proof fn lemma_contains_from_occurrence(hay: Seq<char>, needle: Seq<char>, k: int)
    requires
        occurs_at(hay, needle, k),
    ensures
        contains_text(hay, needle),
{
    lemma_find_from(hay, needle, 0);
}

/// Stopping a profile reaches the instance launched for it: the stop
/// command exists and the text it looks for appears in the data-directory
/// argument the instance was started with, for every home directory, when
/// the profile id is not blank and holds no path separator.
pub proof fn law_stop_reaches_launched_instance(
    p: Platform,
    home: Option<Seq<char>>,
    id: Seq<char>,
)
    requires
        !is_blank(id),
        has_no_separator(p, id),
    ensures
        stop_spec(p, id) is Some,
        contains_text(
            user_data_arg(p, profile_dir_spec(p, profiles_dir_spec(p, home), id)),
            stop_target(p, id),
        ),
{
    assert(id.len() > 0);
    lemma_target_in_own_arg(p, home, id);
}

/// The stop command looks for the profile's data path literally, whatever
/// characters the id holds: off Windows its regular expression has every
/// operator character escaped and stands for exactly the data path; on
/// Windows its `-like` pattern is the data path with every wildcard
/// character escaped, between two `*`, and the pattern is quoted so that it
/// stays one string inside the script.
pub proof fn law_stop_pattern_is_literal(p: Platform, id: Seq<char>)
    ensures
        p != Platform::Windows ==> unescape(Quoting::Regex, stop_pattern(p, id)) == Some(
            stop_target(p, id),
        ),
        p == Platform::Windows ==> {
            &&& stop_pattern(p, id) == "*"@ + escape(Quoting::Wildcard, stop_target(p, id)) + "*"@
            &&& unescape(Quoting::Wildcard, escape(Quoting::Wildcard, stop_target(p, id))) == Some(
                stop_target(p, id),
            )
            &&& unescape(Quoting::SingleQuoted, escape(Quoting::SingleQuoted, stop_pattern(p, id)))
                == Some(stop_pattern(p, id))
        },
        !is_blank(id) && p == Platform::Windows ==> stop_spec(p, id).unwrap().args[1]
            == stop_script(stop_pattern(p, id)),
{
    lemma_unescape_escape(Quoting::Regex, stop_target(p, id));
    lemma_unescape_escape(Quoting::Wildcard, stop_target(p, id));
    lemma_unescape_escape(Quoting::SingleQuoted, stop_pattern(p, id));
}

proof fn lemma_skip_white_to(s: Seq<char>, i: int, j: int)
    requires
        0 <= i <= j < s.len(),
        forall|k: int| i <= k < j ==> is_white_space(#[trigger] s[k]),
        !is_white_space(s[j]),
    ensures
        skip_white(s, i) == j,
    decreases j - i,
{
    if i < j {
        lemma_skip_white_to(s, i + 1, j);
    }
}

proof fn lemma_skip_word_to(s: Seq<char>, i: int, j: int)
    requires
        0 <= i <= j < s.len(),
        forall|k: int| i <= k < j ==> !is_white_space(#[trigger] s[k]),
        is_white_space(s[j]),
    ensures
        skip_word(s, i) == j,
    decreases j - i,
{
    if i < j {
        lemma_skip_word_to(s, i + 1, j);
    }
}

proof fn lemma_id_end_to(p: Platform, s: Seq<char>, i: int, j: int)
    requires
        0 <= i <= j < s.len(),
        forall|k: int| i <= k < j ==> !is_separator(p, #[trigger] s[k]),
        is_separator(p, s[j]),
    ensures
        id_end(p, s, i) == j,
    decreases j - i,
{
    if i < j {
        lemma_id_end_to(p, s, i + 1, j);
    }
}

/// `id_end` stays within the text and passes no separator.
proof fn lemma_id_end_bounds(p: Platform, s: Seq<char>, i: int)
    requires
        0 <= i <= s.len(),
    ensures
        i <= id_end(p, s, i) <= s.len(),
        forall|k: int| i <= k < id_end(p, s, i) ==> !is_separator(p, #[trigger] s[k]),
    decreases s.len() - i,
{
    if i < s.len() && !is_separator(p, s[i]) {
        lemma_id_end_bounds(p, s, i + 1);
    }
}

/// A character of an occurrence.
proof fn lemma_occurs_char(hay: Seq<char>, needle: Seq<char>, j: int, k: int)
    requires
        occurs_at(hay, needle, j),
        0 <= k < needle.len(),
    ensures
        hay[j + k] == needle[k],
{
    assert(hay.subrange(j, j + needle.len())[k] == hay[j + k]);
}

/// A text that holds `sub` at `off` contains what `sub` contains.
proof fn lemma_contains_within(hay: Seq<char>, sub: Seq<char>, off: int, n: Seq<char>)
    requires
        occurs_at(hay, sub, off),
        contains_text(sub, n),
    ensures
        contains_text(hay, n),
{
    lemma_find_from(sub, n, 0);
    let k = find_from(sub, n, 0).unwrap();
    assert(hay.subrange(off + k, off + k + n.len()) =~= sub.subrange(k, k + n.len()));
    lemma_contains_from_occurrence(hay, n, off + k);
}

/// The profile marker, piece by piece.
proof fn lemma_marker_shape(p: Platform)
    ensures
        profile_marker(p) == ".codex_manager"@ + seq![separator(p)] + "profiles"@ + seq![
            separator(p),
        ],
        profile_marker(p).len() == 24,
{
    reveal_strlit(".codex_manager");
    reveal_strlit("profiles");
    reveal_strlit(".codex_manager/profiles/");
    reveal_strlit(".codex_manager\\profiles\\");
    assert(profile_marker(p) =~= ".codex_manager"@ + seq![separator(p)] + "profiles"@ + seq![
        separator(p),
    ]);
}

/// Where the profile marker starts in the data-directory argument of a
/// profile's instance: right after the home prefix.
pub open spec fn marker_offset(p: Platform, home: Option<Seq<char>>) -> int {
    ("--user-data-dir="@.len() + home_prefix(p, home).len()) as int
}

/// The first word of blanks, then digits, then a space, is the digits.
proof fn lemma_leading_number(lead: Seq<char>, dec: Seq<char>, rest: Seq<char>)
    requires
        is_blank(lead),
        dec.len() > 0,
        forall|k: int| 0 <= k < dec.len() ==> is_digit(#[trigger] dec[k]),
    ensures
        first_token(lead + dec + seq![' '] + rest) == Some(dec),
{
    let line = lead + dec + seq![' '] + rest;
    let a = lead.len() as int;
    assert forall|k: int| 0 <= k < a implies is_white_space(#[trigger] line[k]) by {
        assert(line[k] == lead[k]);
    }
    assert(line[a] == dec[0]);
    assert(is_digit(dec[0]));
    lemma_skip_white_to(line, 0, a);
    assert forall|k: int| a <= k < a + dec.len() implies !is_white_space(#[trigger] line[k]) by {
        assert(line[k] == dec[k - a]);
        assert(is_digit(dec[k - a]));
    }
    assert(line[a + dec.len() as int] == ' ');
    lemma_skip_word_to(line, a, a + dec.len() as int);
    assert(line.subrange(a, a + dec.len() as int) =~= dec);
}

/// Where the marker and the id stand in a line showing the data-directory
/// argument of a profile's instance.
#[verifier::rlimit(50)]
#[verifier::spinoff_prover]
proof fn lemma_marker_in_line(
    p: Platform,
    home: Option<Seq<char>>,
    id: Seq<char>,
    q: Seq<char>,
    after: Seq<char>,
)
    requires
        id.len() > 0,
        has_no_separator(p, id),
    ensures
        ({
            let line = q + user_data_arg(p, profile_dir_spec(p, profiles_dir_spec(p, home), id))
                + after;
            let start = q.len() + marker_offset(p, home);
            let st = start + profile_marker(p).len();
            &&& occurs_at(line, profile_marker(p), start)
            &&& st + id.len() < line.len()
            &&& line.subrange(st, st + id.len()) == id
            &&& line[st + id.len()] == separator(p)
        }),
{
    reveal_strlit("--user-data-dir=");
    lemma_user_data_arg_shape(p, home, id);
    lemma_marker_shape(p);
    let s = seq![separator(p)];
    let hp = home_prefix(p, home);
    let cm = ".codex_manager"@;
    let pr = "profiles"@;
    let arg = user_data_arg(p, profile_dir_spec(p, profiles_dir_spec(p, home), id));
    let line = q + arg + after;
    let o: int = (q.len() + "--user-data-dir="@.len() + hp.len()) as int;
    let t = cm + s + pr + s + id + s + "userdata"@ + after;
    assert(line =~= (q + "--user-data-dir="@ + hp) + t);
    assert(line.subrange(o, line.len() as int) =~= t);
    let m = profile_marker(p);
    let start: int = q.len() + marker_offset(p, home);
    assert(start == o);
    assert(line.subrange(start, start + m.len()) =~= m);
    let st: int = start + m.len();
    assert(line.subrange(st, st + id.len()) =~= id);
    assert(line[st + id.len()] == separator(p));
}

/// Detection of launched instances: a line of the process list that shows
/// the process id, then the command line of an instance launched for
/// profile `id`, is read back as that profile with that process id. The
/// line may start with blanks and hold any text around the data-directory
/// argument, as long as the text before it names the desktop app (its
/// program path) and the profile marker appears nowhere before the one
/// inside that argument.
pub proof fn law_launched_instance_is_detected(
    p: Platform,
    home: Option<Seq<char>>,
    id: Seq<char>,
    pid: u32,
    lead: Seq<char>,
    before: Seq<char>,
    after: Seq<char>,
)
    requires
        is_valid_profile_id(p, id),
        is_blank(lead),
        names_codex_app(before),
        forall|j: int|
            0 <= j < (lead + decimal(pid as nat) + seq![' '] + before).len() + marker_offset(
                p,
                home,
            ) ==> !occurs_at(
                lead + decimal(pid as nat) + seq![' '] + before + user_data_arg(
                    p,
                    profile_dir_spec(p, profiles_dir_spec(p, home), id),
                ) + after,
                profile_marker(p),
                j,
            ),
    ensures
        line_entry(
            p,
            lead + decimal(pid as nat) + seq![' '] + before + user_data_arg(
                p,
                profile_dir_spec(p, profiles_dir_spec(p, home), id),
            ) + after,
        ) == Some((id, pid)),
{
    assert(id.len() > 0);
    lemma_decimal_digits(pid as nat);
    lemma_parse_decimal(pid);
    let dec = decimal(pid as nat);
    let q = lead + dec + seq![' '] + before;
    let arg = user_data_arg(p, profile_dir_spec(p, profiles_dir_spec(p, home), id));
    let line = q + arg + after;
    let m = profile_marker(p);
    lemma_marker_in_line(p, home, id, q, after);
    let start: int = q.len() + marker_offset(p, home);
    lemma_find_from_first(line, m, 0, start);
    assert(line =~= lead + dec + seq![' '] + (before + arg + after));
    lemma_leading_number(lead, dec, before + arg + after);
    // the text before the marker names the app
    let off: int = (lead + dec + seq![' ']).len() as int;
    let prefix = line.subrange(0, start);
    assert(prefix.subrange(off, off + before.len()) =~= before);
    if contains_text(before, "Codex"@) {
        lemma_contains_within(prefix, before, off, "Codex"@);
    } else if contains_text(before, "codex"@) {
        lemma_contains_within(prefix, before, off, "codex"@);
    } else {
        lemma_contains_within(prefix, before, off, "ChatGPT"@);
    }
    // the id runs up to the separator that follows it
    let st: int = start + m.len();
    assert forall|k: int| st <= k < st + id.len() implies !is_separator(p, #[trigger] line[k]) by {
        assert(line.subrange(st, st + id.len())[k - st] == line[k]);
        assert(!is_separator(p, id[k - st]));
    }
    lemma_id_end_to(p, line, st, st + id.len());
}

/// Detection and stopping agree: whenever a line of the process list is
/// read as profile `id` running, `id` is a valid profile id, the data path
/// that the stop command of `id` looks for appears in the line, and that
/// stop command exists unless the id is blank (a blank id is never
/// stopped); so stopping a detected non-blank `id` ends that process.
pub proof fn law_detected_instance_is_stopped(p: Platform, line: Seq<char>)
    requires
        line_entry(p, line) is Some,
    ensures
        is_valid_profile_id(p, line_entry(p, line).unwrap().0),
        (stop_spec(p, line_entry(p, line).unwrap().0) is Some) == !is_blank(
            line_entry(p, line).unwrap().0,
        ),
        contains_text(line, stop_target(p, line_entry(p, line).unwrap().0)),
{
    let m = profile_marker(p);
    lemma_marker_shape(p);
    lemma_find_from(line, m, 0);
    let pos = find_from(line, m, 0).unwrap();
    let start = pos + m.len();
    lemma_id_end_bounds(p, line, start);
    let end = id_end(p, line, start);
    let id = line.subrange(start, end);
    assert(line_entry(p, line).unwrap().0 == id);
    assert(line.subrange(pos, start) =~= m);
    assert(line.subrange(pos, end + 1) =~= m + id + seq![separator(p)]);
    assert(stop_target(p, id) =~= m + id + seq![separator(p)]);
    lemma_contains_from_occurrence(line, stop_target(p, id), pos);
}

proof fn lemma_stop_each_contains(p: Platform, ids: Seq<Seq<char>>, k: Seq<char>)
    requires
        ids.contains(k),
        !is_blank(k),
    ensures
        stop_each(p, ids).contains(stop_spec(p, k).unwrap()),
    decreases ids.len(),
{
    let c = stop_spec(p, k).unwrap();
    let rest = ids.drop_last();
    let before = stop_each(p, rest);
    if ids.last() == k {
        assert(stop_each(p, ids) == before.push(c));
        assert(stop_each(p, ids)[before.len() as int] == c);
    } else {
        let i = choose|i: int| 0 <= i < ids.len() && ids[i] == k;
        assert(rest[i] == k);
        lemma_stop_each_contains(p, rest, k);
        let j = choose|j: int| 0 <= j < before.len() && before[j] == c;
        assert(stop_each(p, ids)[j] == c);
    }
}

/// Stopping all reaches every running profile: when `ids` lists every key
/// of the running table once (as `RunningProfiles::ids` does), the commands
/// that stopping all runs include the stop command of every running
/// profile with a non-blank id.
pub proof fn law_stop_all_stops_every_running_profile(
    p: Platform,
    ids: Seq<Seq<char>>,
    running: Map<Seq<char>, u32>,
)
    requires
        lists_keys_once(ids, running),
    ensures
        forall|k: Seq<char>|
            #[trigger] running.contains_key(k) && !is_blank(k) ==> stop_all_spec(p, ids).contains(
                stop_spec(p, k).unwrap(),
            ),
{
    assert forall|k: Seq<char>| #[trigger] running.contains_key(k) && !is_blank(k) implies stop_all_spec(
        p,
        ids,
    ).contains(stop_spec(p, k).unwrap()) by {
        lemma_stop_each_contains(p, ids, k);
        let c = stop_spec(p, k).unwrap();
        let each = stop_each(p, ids);
        let j = choose|j: int| 0 <= j < each.len() && each[j] == c;
        assert(stop_all_spec(p, ids)[j] == c);
    }
}

/// After stopping all, off Windows, nothing is read as running any more:
/// the last command that stopping all runs is `pkill -9 -f
/// .codex_manager/profiles/`, and the command line of every process that
/// the process list reads as a running profile matches that pattern, read
/// as `pkill -f` reads it (`.` standing for any character).
pub proof fn law_stop_all_leaves_nothing_running(p: Platform, ids: Seq<Seq<char>>, line: Seq<char>)
    requires
        p != Platform::Windows,
        line_entry(p, line) is Some,
    ensures
        stop_all_spec(p, ids).last() == stop_remaining_spec(),
        dot_pattern_matches(line, stop_remaining_spec().args[2]),
{
    reveal_strlit(".codex_manager/profiles/");
    let m = profile_marker(p);
    lemma_find_from(line, m, 0);
    let pos = find_from(line, m, 0).unwrap();
    assert(m == stop_remaining_spec().args[2]);
    assert(dot_pattern_matches_at(line, m, pos)) by {
        assert forall|k: int| 0 <= k < m.len() implies (if m[k] == '.' {
            line[pos + k] != '\n'
        } else {
            #[trigger] line[pos + k] == m[k]
        }) by {
            lemma_occurs_char(line, m, pos, k);
        }
    }
}

/// Menu entries act on their own profile: clicking the entry shown for a
/// profile stops that profile when it runs, and otherwise launches it with
/// the default project of the first profile carrying its id.
pub proof fn law_menu_entry_acts_on_its_profile(
    profiles: Seq<Profile>,
    running: Map<Seq<char>, u32>,
    i: int,
)
    requires
        0 <= i < profiles.len(),
    ensures
        menu_action_spec(profile_entry(profiles[i]@, running).id, profiles) == (if running.contains_key(
            profiles[i].id@,
        ) {
            MenuActionView::Stop { profile_id: profiles[i].id@ }
        } else {
            MenuActionView::Launch {
                profile_id: profiles[i].id@,
                project_path: project_of(profiles, profiles[i].id@),
            }
        }),
{
    reveal_strlit("launch:");
    reveal_strlit("stop:");
    let id = profiles[i].id@;
    let e = profile_entry(profiles[i]@, running);
    if running.contains_key(id) {
        assert(e.id == "stop:"@ + id);
        assert(!has_prefix(e.id, "launch:"@)) by {
            if has_prefix(e.id, "launch:"@) {
                assert(e.id.subrange(0, 7)[0] == e.id[0]);
            }
        }
        assert(e.id.subrange(0, 5) =~= "stop:"@);
        assert(e.id.subrange(5, e.id.len() as int) =~= id);
    } else {
        assert(e.id == "launch:"@ + id);
        assert(e.id.subrange(0, 7) =~= "launch:"@);
        assert(e.id.subrange(7, e.id.len() as int) =~= id);
    }
}

/// Deleting a profile removes every profile with its id and keeps every
/// other profile.
pub proof fn law_delete_removes_exactly_the_id(profiles: Seq<Profile>, id: Seq<char>)
    ensures
        forall|k: int|
            0 <= k < profiles_without(profiles, id).len() ==> (#[trigger] profiles_without(
                profiles,
                id,
            )[k]).id@ != id,
        forall|k: int|
            0 <= k < profiles.len() && #[trigger] profiles[k].id@ != id ==> profiles_without(
                profiles,
                id,
            ).contains(profiles[k]),
{
    broadcast use vstd::seq_lib::group_filter_ensures;

}

/// `pat` matches `text` at index `j` when each `.` of `pat` stands for any
/// character but a line end and every other character for itself; this is
/// how `pkill -f` reads a pattern whose only operator is `.`.
pub open spec fn dot_pattern_matches_at(text: Seq<char>, pat: Seq<char>, j: int) -> bool {
    &&& 0 <= j
    &&& j + pat.len() <= text.len()
    &&& forall|k: int|
        0 <= k < pat.len() ==> if pat[k] == '.' {
            text[j + k] != '\n'
        } else {
            #[trigger] text[j + k] == pat[k]
        }
}

/// `pat` matches somewhere in `text`.
pub open spec fn dot_pattern_matches(text: Seq<char>, pat: Seq<char>) -> bool {
    exists|j: int| dot_pattern_matches_at(text, pat, j)
}

/// The data path of profile `a` appears in the data-directory argument of
/// `a`'s own instance.
#[verifier::rlimit(40)]
#[verifier::spinoff_prover]
proof fn lemma_target_in_own_arg(p: Platform, home: Option<Seq<char>>, id: Seq<char>)
    requires
        id.len() > 0,
        has_no_separator(p, id),
    ensures
        contains_text(
            user_data_arg(p, profile_dir_spec(p, profiles_dir_spec(p, home), id)),
            stop_target(p, id),
        ),
{
    reveal_strlit("--user-data-dir=");
    lemma_user_data_arg_shape(p, home, id);
    let s = seq![separator(p)];
    let pre = "--user-data-dir="@ + home_prefix(p, home);
    let cm = ".codex_manager"@;
    let pr = "profiles"@;
    let arg = user_data_arg(p, profile_dir_spec(p, profiles_dir_spec(p, home), id));
    let target = stop_target(p, id);
    assert(target =~= cm + s + pr + s + id + s);
    assert(arg =~= pre + (cm + s + pr + s + id + s + "userdata"@));
    assert(arg.subrange(pre.len() as int, (pre.len() + target.len()) as int) =~= target);
    lemma_contains_from_occurrence(arg, target, pre.len() as int);
}

/// The data path of `a` occurs nowhere in the data-directory argument of
/// another profile `b`.
#[verifier::rlimit(80)]
#[verifier::spinoff_prover]
proof fn lemma_target_not_in_other_arg(
    p: Platform,
    hp: Seq<char>,
    a: Seq<char>,
    b: Seq<char>,
    j: int,
)
    requires
        a != b,
        a.len() > 0,
        b.len() > 0,
        has_no_separator(p, a),
        has_no_separator(p, b),
        !contains_text(hp, profile_marker(p).drop_first()),
    ensures
        !occurs_at(
            "--user-data-dir="@ + hp + profile_marker(p) + b + seq![separator(p)] + "userdata"@,
            profile_marker(p) + a + seq![separator(p)],
            j,
        ),
{
    if occurs_at(
        "--user-data-dir="@ + hp + profile_marker(p) + b + seq![separator(p)] + "userdata"@,
        profile_marker(p) + a + seq![separator(p)],
        j,
    ) {
        lemma_no_occurrence_in_other_arg(p, hp, a, b, j);
    }
}

proof fn lemma_no_occurrence_in_other_arg(
    p: Platform,
    hp: Seq<char>,
    a: Seq<char>,
    b: Seq<char>,
    j: int,
)
    requires
        a != b,
        a.len() > 0,
        b.len() > 0,
        has_no_separator(p, a),
        has_no_separator(p, b),
        !contains_text(hp, profile_marker(p).drop_first()),
        occurs_at(
            "--user-data-dir="@ + hp + profile_marker(p) + b + seq![separator(p)] + "userdata"@,
            profile_marker(p) + a + seq![separator(p)],
            j,
        ),
    ensures
        a == b,
{
    reveal_strlit("--user-data-dir=");
    reveal_strlit("userdata");
    reveal_strlit(".codex_manager");
    reveal_strlit("profiles");
    lemma_marker_shape(p);
    let u = "--user-data-dir="@;
    let m = profile_marker(p);
    let ud = "userdata"@;
    let sc = separator(p);
    let arg = u + hp + m + b + seq![sc] + ud;
    let t = m + a + seq![sc];
    let p0: int = (u.len() + hp.len()) as int;
    assert(u.len() == 16);
    assert(arg.len() == p0 + 24 + b.len() + 9);
    assert(t.len() == 25 + a.len());
    assert(m[0] == '.' && m[1] == 'c' && m[14] == sc && m[23] == sc);
    assert(is_separator(p, sc));
    assert forall|k: int| 0 <= k < 24 implies #[trigger] arg[p0 + k] == m[k] by {}
    assert forall|k: int| 1 <= k < 24 implies #[trigger] m[k] != '.' by {}
    assert forall|k: int| 0 <= k < 24 implies #[trigger] t[k] == m[k] by {}
    assert forall|k: int| 0 <= k < a.len() implies #[trigger] t[24 + k] == a[k] by {}
    if j == p0 {
        if a.len() < b.len() {
            let k = 24 + a.len() as int;
            lemma_occurs_char(arg, t, j, k);
            assert(arg[j + k] == b[a.len() as int]);
            assert(!is_separator(p, b[a.len() as int]));
        } else if a.len() > b.len() {
            let k = 24 + b.len() as int;
            lemma_occurs_char(arg, t, j, k);
            assert(arg[j + k] == sc);
            assert(!is_separator(p, a[b.len() as int]));
        } else {
            assert forall|i: int| 0 <= i < a.len() implies a[i] == b[i] by {
                lemma_occurs_char(arg, t, j, 24 + i);
                assert(arg[j + 24 + i] == b[i]);
            }
            assert(a =~= b);
        }
    } else if j > p0 {
        lemma_occurs_char(arg, t, j, 0);
        if j < p0 + 24 {
            assert(arg[j] == m[j - p0]);
        } else {
            lemma_occurs_char(arg, t, j, 14);
            let e = p0 + 24 + b.len();
            if j + 14 < e {
                assert(arg[j + 14] == b[j + 14 - p0 - 24]);
                assert(!is_separator(p, b[j + 14 - p0 - 24]));
            } else if j + 14 == e {
                assert(j + t.len() > arg.len());
            } else {
                assert(arg[j + 14] == ud[j + 14 - e - 1]);
            }
        }
    } else {
        lemma_occurs_char(arg, t, j, 1);
        if j + 1 < 16 {
            assert(arg[j + 1] == u[j + 1]);
        } else if j + 24 <= p0 {
            let h0 = j + 1 - 16;
            let rest = m.drop_first();
            assert forall|k: int| 0 <= k < 23 implies #[trigger] hp.subrange(h0, h0 + 23)[k]
                == rest[k] by {
                lemma_occurs_char(arg, t, j, k + 1);
                assert(arg[j + k + 1] == hp[h0 + k]);
            }
            assert(hp.subrange(h0, h0 + 23) =~= rest);
            lemma_contains_from_occurrence(hp, rest, h0);
        } else {
            let k = p0 - j;
            lemma_occurs_char(arg, t, j, k);
            assert(arg[p0] == '.');
        }
    }
}

/// Precision of stopping: the data path that the stop command of profile
/// `a` looks for appears in the data-directory argument of `a`'s own
/// instance, and in that of no other profile `b`, so stopping `a` spares
/// `b`'s processes (`work` and `work2` included). Ids are non-empty and
/// hold no path separator, and the user's home path does not itself hold
/// `codex_manager/profiles/` (with the platform's separator).
#[verifier::rlimit(60)]
#[verifier::spinoff_prover]
pub proof fn law_stop_spares_other_profiles(
    p: Platform,
    home: Option<Seq<char>>,
    a: Seq<char>,
    b: Seq<char>,
)
    requires
        a.len() > 0,
        b.len() > 0,
        has_no_separator(p, a),
        has_no_separator(p, b),
        !contains_text(home_prefix(p, home), profile_marker(p).drop_first()),
    ensures
        contains_text(
            user_data_arg(p, profile_dir_spec(p, profiles_dir_spec(p, home), a)),
            stop_target(p, a),
        ),
        a != b ==> !contains_text(
            user_data_arg(p, profile_dir_spec(p, profiles_dir_spec(p, home), b)),
            stop_target(p, a),
        ),
{
    reveal_strlit("--user-data-dir=");
    lemma_target_in_own_arg(p, home, a);
    if a != b {
        let arg = user_data_arg(p, profile_dir_spec(p, profiles_dir_spec(p, home), b));
        let t = stop_target(p, a);
        lemma_user_data_arg_shape(p, home, b);
        lemma_marker_shape(p);
        let m = profile_marker(p);
        let sc = separator(p);
        assert(arg =~= "--user-data-dir="@ + home_prefix(p, home) + m + b + seq![sc] + "userdata"@);
        assert(t =~= m + a + seq![sc]);
        lemma_find_from(arg, t, 0);
        if contains_text(arg, t) {
            let j = find_from(arg, t, 0).unwrap();
            lemma_target_not_in_other_arg(p, home_prefix(p, home), a, b, j);
        }
    }
}

/// Adding a profile whose id no listed profile has, then deleting that id,
/// gives back the list as it was.
pub proof fn law_delete_undoes_add(profiles: Seq<Profile>, added: Profile)
    requires
        forall|k: int| 0 <= k < profiles.len() ==> #[trigger] profiles[k].id@ != added.id@,
    ensures
        profiles_without(profiles.push(added), added.id@) == profiles,
{
    reveal_with_fuel(Seq::<_>::filter, 1);
    assert(profiles.push(added).drop_last() =~= profiles);
    lemma_filter_keeps_all(profiles, added.id@);
}

proof fn lemma_filter_keeps_all(profiles: Seq<Profile>, id: Seq<char>)
    requires
        forall|k: int| 0 <= k < profiles.len() ==> #[trigger] profiles[k].id@ != id,
    ensures
        profiles_without(profiles, id) == profiles,
    decreases profiles.len(),
{
    reveal_with_fuel(Seq::<_>::filter, 1);
    if profiles.len() > 0 {
        let t = profiles.drop_last();
        assert forall|k: int| 0 <= k < t.len() implies #[trigger] t[k].id@ != id by {
            assert(t[k] == profiles[k]);
        }
        lemma_filter_keeps_all(t, id);
        assert(profiles[profiles.len() - 1].id@ != id);
        assert(t.push(profiles.last()) =~= profiles);
    }
}

/// No session overwrite: the same entry (such as `userdata`, `tmp` or
/// `.codex`) inside the directories of two different profiles is two
/// different paths, when the profile ids are non-empty and hold no path
/// separator. In particular two profiles' instances never share their data
/// directory.
pub proof fn law_profiles_never_share_a_path(
    p: Platform,
    profiles_dir: Seq<char>,
    a: Seq<char>,
    b: Seq<char>,
    entry: Seq<char>,
)
    requires
        a != b,
        a.len() > 0,
        b.len() > 0,
        has_no_separator(p, a),
        has_no_separator(p, b),
    ensures
        join_path(p, profile_dir_spec(p, profiles_dir, a), entry) != join_path(
            p,
            profile_dir_spec(p, profiles_dir, b),
            entry,
        ),
        user_data_dir(p, profile_dir_spec(p, profiles_dir, a)) != user_data_dir(
            p,
            profile_dir_spec(p, profiles_dir, b),
        ),
{
    lemma_entries_differ(p, profiles_dir, a, b, entry);
    lemma_entries_differ(p, profiles_dir, a, b, "userdata"@);
}

proof fn lemma_entries_differ(
    p: Platform,
    profiles_dir: Seq<char>,
    a: Seq<char>,
    b: Seq<char>,
    entry: Seq<char>,
)
    requires
        a != b,
        a.len() > 0,
        b.len() > 0,
        has_no_separator(p, a),
        has_no_separator(p, b),
    ensures
        join_path(p, profile_dir_spec(p, profiles_dir, a), entry) != join_path(
            p,
            profile_dir_spec(p, profiles_dir, b),
            entry,
        ),
{
    lemma_join_prefix(p, profiles_dir, a);
    lemma_join_prefix(p, profiles_dir, b);
    let pre = join_prefix(p, profiles_dir);
    let da = pre + a;
    let db = pre + b;
    assert(da.last() == a.last() && !is_separator(p, a[a.len() - 1]));
    assert(db.last() == b.last() && !is_separator(p, b[b.len() - 1]));
    lemma_join_prefix(p, da, entry);
    lemma_join_prefix(p, db, entry);
    assert(join_prefix(p, da) =~= da.push(separator(p)));
    assert(join_prefix(p, db) =~= db.push(separator(p)));
    let xa = da.push(separator(p)) + entry;
    let xb = db.push(separator(p)) + entry;
    if xa == xb {
        assert(xa.len() == xb.len());
        assert(a.len() == b.len());
        assert(a =~= xa.subrange(pre.len() as int, (pre.len() + a.len()) as int));
        assert(b =~= xb.subrange(pre.len() as int, (pre.len() + b.len()) as int));
    }
}

/// The process listing puts the pid first on every row, followed by the
/// full command line, which is the form the line reader expects: `ps -ax -o
/// pid,command` off Windows, and on Windows a PowerShell table of
/// `ProcessId` then `CommandLine` without headers.
pub proof fn law_process_listing_puts_pid_first(p: Platform)
    ensures
        p == Platform::Windows ==> {
            &&& process_list_spec(p).program == "powershell"@
            &&& process_list_spec(p).args == seq![
                "-Command"@,
                "Get-CimInstance Win32_Process | Select-Object ProcessId, CommandLine | Format-Table -HideTableHeaders"@,
            ]
        },
        p != Platform::Windows ==> {
            &&& process_list_spec(p).program == "/bin/ps"@
            &&& process_list_spec(p).args == seq!["-ax"@, "-o"@, "pid,command"@]
        },
        process_list_spec(p).envs.len() == 0,
{
}

/// The project folder reaches the instance: on every platform and for
/// every choice of executable, launching with a non-blank project folder
/// runs the same program with the same environment as launching without
/// one, with the folder added as the last argument; a blank or missing
/// folder adds nothing.
pub proof fn law_launch_passes_project(
    p: Platform,
    dir: Seq<char>,
    project: Seq<char>,
    mac_app: Seq<char>,
    windows_exe: Option<Seq<char>>,
)
    ensures
        ({
            let with = launch_spec(p, dir, Some(project), mac_app, windows_exe);
            let without = launch_spec(p, dir, None, mac_app, windows_exe);
            &&& with.program == without.program
            &&& with.envs == without.envs
            &&& !is_blank(project) ==> with.args == without.args.push(project)
            &&& !is_blank(project) ==> with.args.last() == project
            &&& is_blank(project) ==> with.args == without.args
        }),
{
    let with = launch_spec(p, dir, Some(project), mac_app, windows_exe);
    let without = launch_spec(p, dir, None, mac_app, windows_exe);
    if is_blank(project) {
        assert(with.args =~= without.args);
    } else {
        assert(with.args =~= without.args.push(project));
    }
}

/// Which program a launch runs: on macOS `open -n -a <app> --args ...`, a
/// new instance of the chosen application; on Windows the chosen
/// executable itself, or `cmd /C start Codex ...` when none was found; on
/// Linux `codex-desktop`. The data-directory argument is the first
/// argument handed to the application.
pub proof fn law_launch_program(
    p: Platform,
    dir: Seq<char>,
    project: Option<Seq<char>>,
    mac_app: Seq<char>,
    windows_exe: Option<Seq<char>>,
)
    ensures
        ({
            let c = launch_spec(p, dir, project, mac_app, windows_exe);
            let data = "--user-data-dir="@ + join_path(p, dir, "userdata"@);
            &&& p == Platform::MacOs ==> c.program == "open"@ && c.args.subrange(0, 5) == seq![
                "-n"@,
                "-a"@,
                mac_app,
                "--args"@,
                data,
            ]
            &&& p == Platform::Windows && windows_exe is Some ==> c.program == windows_exe.unwrap()
                && c.args[0] == data
            &&& p == Platform::Windows && windows_exe is None ==> c.program == "cmd"@
                && c.args.subrange(0, 4) == seq!["/C"@, "start"@, "Codex"@, data]
            &&& p == Platform::Linux ==> c.program == "codex-desktop"@ && c.args[0] == data
        }),
{
    let c = launch_spec(p, dir, project, mac_app, windows_exe);
    if p == Platform::MacOs {
        assert(c.args.subrange(0, 5) =~= seq![
            "-n"@,
            "-a"@,
            mac_app,
            "--args"@,
            "--user-data-dir="@ + join_path(p, dir, "userdata"@),
        ]);
    }
    if p == Platform::Windows && windows_exe is None {
        assert(c.args.subrange(0, 4) =~= seq![
            "/C"@,
            "start"@,
            "Codex"@,
            "--user-data-dir="@ + join_path(p, dir, "userdata"@),
        ]);
    }
}

/// What a profile's layout holds: the directory `<profiles_dir>/<id>`; the
/// `Library/Application Support`, `userdata`, `tmp` and `cache`
/// directories inside it; and, when the home is known, a link for the
/// user's `.gitconfig` file and one for the `.ssh` directory, each from the
/// entry of the home to the entry of the same name in the profile
/// directory, so the two links have distinct targets. With no home there
/// are no links.
pub proof fn law_layout_links_same_entries(
    p: Platform,
    profiles_dir: Seq<char>,
    home: Option<Seq<char>>,
    id: Seq<char>,
)
    ensures
        ({
            let l = layout_spec(p, profiles_dir, home, id);
            &&& l.dir == join_path(p, profiles_dir, id)
            &&& l.create_dirs == seq![
                join_path(p, l.dir, "Library/Application Support"@),
                join_path(p, l.dir, "userdata"@),
                join_path(p, l.dir, "tmp"@),
                join_path(p, l.dir, "cache"@),
            ]
            &&& home is None ==> l.links.len() == 0
            &&& home is Some ==> {
                let h = home.unwrap();
                &&& l.links.len() == 2
                &&& l.links[0].0 == join_path(p, h, ".gitconfig"@) && !l.links[0].2
                &&& l.links[1].0 == join_path(p, h, ".ssh"@) && l.links[1].2
                &&& forall|i: int|
                    0 <= i < l.links.len() ==> exists|e: Seq<char>|
                        #[trigger] join_path(p, h, e) == (#[trigger] l.links[i]).0 && l.links[i].1
                            == join_path(p, l.dir, e)
                &&& l.links[0].1 != l.links[1].1
            }
        }),
{
    reveal_strlit(".gitconfig");
    reveal_strlit(".ssh");
    let l = layout_spec(p, profiles_dir, home, id);
    if home is Some {
        let h = home.unwrap();
        assert forall|i: int| 0 <= i < l.links.len() implies exists|e: Seq<char>|
            #[trigger] join_path(p, h, e) == (#[trigger] l.links[i]).0 && l.links[i].1 == join_path(
                p,
                l.dir,
                e,
            ) by {
            if i == 0 {
                assert(join_path(p, h, ".gitconfig"@) == l.links[i].0);
            } else {
                assert(join_path(p, h, ".ssh"@) == l.links[i].0);
            }
        }
        lemma_join_prefix(p, l.dir, ".gitconfig"@);
        lemma_join_prefix(p, l.dir, ".ssh"@);
        assert(l.links[0].1.len() != l.links[1].1.len());
    }
}

/// The tray menu: one enabled entry per profile, in order, that stops the
/// profile and shows its pid when it runs and launches it otherwise (a
/// disabled "No profiles" entry when there is none); then a separator,
/// "Stop All", enabled exactly when some profile runs, a separator, the
/// window toggle and "Quit".
pub proof fn law_menu_entries(profiles: Seq<ProfileView>, running: Map<Seq<char>, u32>)
    ensures
        ({
            let m = menu_spec(profiles, running);
            let n: int = if profiles.len() == 0 {
                1
            } else {
                profiles.len() as int
            };
            &&& m.len() == n + 5
            &&& profiles.len() == 0 ==> m[0].kind == MenuKind::Item && m[0].id == "noop"@
                && m[0].label == "No profiles"@ && !m[0].enabled
            &&& forall|i: int|
                0 <= i < profiles.len() ==> {
                    let q = #[trigger] profiles[i];
                    &&& m[i].kind == MenuKind::Item
                    &&& m[i].enabled
                    &&& running.contains_key(q.id) ==> m[i].id == "stop:"@ + q.id && m[i].label
                        == "● "@ + q.name + "  (pid "@ + decimal(running[q.id] as nat) + ")"@
                    &&& !running.contains_key(q.id) ==> m[i].id == "launch:"@ + q.id
                        && m[i].label == "▶  "@ + q.name
                }
            &&& m[n].kind == MenuKind::Separator
            &&& m[n + 1].kind == MenuKind::Item && m[n + 1].id == "stopall"@ && m[n + 1].label
                == "■  Stop All"@ && m[n + 1].enabled == (running.dom().len() > 0)
            &&& m[n + 2].kind == MenuKind::Separator
            &&& m[n + 3].kind == MenuKind::Item && m[n + 3].id == "toggle"@ && m[n + 3].enabled
            &&& m[n + 4].kind == MenuKind::Quit
        }),
{
    let m = menu_spec(profiles, running);
    assert forall|i: int| 0 <= i < profiles.len() implies ({
        let q = #[trigger] profiles[i];
        &&& m[i].kind == MenuKind::Item
        &&& m[i].enabled
        &&& running.contains_key(q.id) ==> m[i].id == "stop:"@ + q.id && m[i].label == "● "@
            + q.name + "  (pid "@ + decimal(running[q.id] as nat) + ")"@
        &&& !running.contains_key(q.id) ==> m[i].id == "launch:"@ + q.id && m[i].label == "▶  "@
            + q.name
    }) by {
        assert(m[i] == profile_entry(profiles[i], running));
    }
}

/// Showing a profile's directory hands exactly that directory to the
/// platform's file browser: `open` on macOS, `explorer` on Windows,
/// `xdg-open` on Linux, with the path as the only argument.
pub proof fn law_open_dir_passes_path(p: Platform, path: Seq<char>)
    ensures
        open_dir_spec(p, path).args == seq![path],
        open_dir_spec(p, path).envs.len() == 0,
        p == Platform::MacOs ==> open_dir_spec(p, path).program == "open"@,
        p == Platform::Windows ==> open_dir_spec(p, path).program == "explorer"@,
        p == Platform::Linux ==> open_dir_spec(p, path).program == "xdg-open"@,
{
}

/// The whole launch command, without a project folder (which
/// `law_launch_passes_project` adds at the end), on each platform: the
/// program, every argument and every environment variable, in order.
pub proof fn law_launch_command_exact(
    p: Platform,
    dir: Seq<char>,
    mac_app: Seq<char>,
    windows_exe: Option<Seq<char>>,
)
    ensures
        ({
            let c = launch_spec(p, dir, None, mac_app, windows_exe);
            let cache = join_path(p, dir, "cache"@);
            let ud = "--user-data-dir="@ + join_path(p, dir, "userdata"@);
            let dc = "--disk-cache-dir="@ + join_path(p, cache, "disk"@);
            let tmp = join_path(p, dir, "tmp"@);
            let home_env = ("HOME"@, dir);
            let codex_env = ("CODEX_HOME"@, join_path(p, dir, ".codex"@));
            let keyring_env = ("NODE_KEYRING_DISABLE"@, "1"@);
            &&& p == Platform::MacOs ==> {
                &&& c.args == seq![
                    "-n"@,
                    "-a"@,
                    mac_app,
                    "--args"@,
                    ud,
                    dc,
                    "--crash-dumps-dir="@ + join_path(p, cache, "crashes"@),
                    "--password-store=basic"@,
                ]
                &&& c.envs == seq![
                    home_env,
                    codex_env,
                    ("XDG_CONFIG_HOME"@, join_path(p, dir, ".config"@)),
                    ("TMPDIR"@, tmp),
                    keyring_env,
                ]
            }
            &&& p == Platform::Windows ==> {
                &&& windows_exe is Some ==> c.args == seq![ud, dc, "--password-store=basic"@]
                &&& windows_exe is None ==> c.args == seq![
                    "/C"@,
                    "start"@,
                    "Codex"@,
                    ud,
                    dc,
                    "--password-store=basic"@,
                ]
                &&& c.envs == seq![
                    ("USERPROFILE"@, dir),
                    home_env,
                    codex_env,
                    ("APPDATA"@, join_path(p, dir, "AppData/Roaming"@)),
                    ("LOCALAPPDATA"@, join_path(p, dir, "AppData/Local"@)),
                    ("TMP"@, tmp),
                    ("TEMP"@, tmp),
                    keyring_env,
                ]
            }
            &&& p == Platform::Linux ==> {
                &&& c.args == seq![ud, dc, "--password-store=basic"@]
                &&& c.envs == seq![home_env, codex_env, ("TMPDIR"@, tmp), keyring_env]
            }
        }),
{
    let c = launch_spec(p, dir, None, mac_app, windows_exe);
    assert(c.args =~= c.args + Seq::<Seq<char>>::empty());
}

/// The stop command of a profile, whole: none for a blank id; otherwise
/// `pkill -9 -f` with the data path `.codex_manager/profiles/<id>/` as an
/// escaped regular expression, or on Windows a PowerShell script that
/// removes the processes whose command line is `-like` the data path
/// `.codex_manager\profiles\<id>\` (wildcards escaped) between two `*`,
/// quoted as a single-quoted string. Stopping all ends, off Windows, with
/// `pkill -9 -f .codex_manager/profiles/`.
pub proof fn law_stop_command_exact(p: Platform, id: Seq<char>)
    ensures
        (stop_spec(p, id) is None) == is_blank(id),
        !is_blank(id) && p != Platform::Windows ==> {
            let c = stop_spec(p, id).unwrap();
            &&& c.program == "pkill"@
            &&& c.args == seq![
                "-9"@,
                "-f"@,
                escape(Quoting::Regex, ".codex_manager/profiles/"@ + id + "/"@),
            ]
            &&& c.envs.len() == 0
        },
        !is_blank(id) && p == Platform::Windows ==> {
            let c = stop_spec(p, id).unwrap();
            &&& c.program == "powershell"@
            &&& c.args == seq![
                "-Command"@,
                "Get-CimInstance Win32_Process | Where-Object { $_.CommandLine -like '"@ + escape(
                    Quoting::SingleQuoted,
                    "*"@ + escape(Quoting::Wildcard, ".codex_manager\\profiles\\"@ + id + "\\"@)
                        + "*"@,
                ) + "' } | Remove-CimInstance"@,
            ]
            &&& c.envs.len() == 0
        },
        stop_remaining_spec().program == "pkill"@,
        stop_remaining_spec().args == seq!["-9"@, "-f"@, ".codex_manager/profiles/"@],
        stop_remaining_spec().envs.len() == 0,
{
    reveal_strlit(".codex_manager");
    reveal_strlit("profiles");
    reveal_strlit(".codex_manager/profiles/");
    reveal_strlit(".codex_manager\\profiles\\");
    reveal_strlit("/");
    reveal_strlit("\\");
    if p == Platform::Windows {
        assert(stop_target(p, id) =~= ".codex_manager\\profiles\\"@ + id + "\\"@);
    } else {
        assert(stop_target(p, id) =~= ".codex_manager/profiles/"@ + id + "/"@);
    }
}

/// Each stop command that stopping all runs for the listed profiles is the
/// stop command of a non-blank id of `ids`: nothing else is stopped.
pub proof fn law_stop_each_stops_only_listed(p: Platform, ids: Seq<Seq<char>>)
    ensures
        forall|j: int|
            #![trigger stop_each(p, ids)[j]]
            0 <= j < stop_each(p, ids).len() ==> exists|i: int|
                0 <= i < ids.len() && !is_blank(#[trigger] ids[i]) && stop_each(p, ids)[j]
                    == stop_spec(p, ids[i]).unwrap(),
    decreases ids.len(),
{
    if ids.len() > 0 {
        let rest = ids.drop_last();
        law_stop_each_stops_only_listed(p, rest);
        let before = stop_each(p, rest);
        let all = stop_each(p, ids);
        let last = ids.last();
        if stop_spec(p, last) is Some {
            assert(all == before.push(stop_spec(p, last).unwrap()));
        } else {
            assert(all == before);
        }
        assert forall|j: int| #![trigger all[j]] 0 <= j < all.len() implies exists|i: int|
            0 <= i < ids.len() && !is_blank(#[trigger] ids[i]) && all[j] == stop_spec(
                p,
                ids[i],
            ).unwrap() by {
            if j < before.len() {
                let i = choose|i: int|
                    0 <= i < rest.len() && !is_blank(#[trigger] rest[i]) && before[j] == stop_spec(
                        p,
                        rest[i],
                    ).unwrap();
                assert(ids[i] == rest[i]);
                assert(all[j] == before[j]);
            } else {
                let i = ids.len() - 1;
                assert(ids[i] == last);
                assert(all[j] == stop_spec(p, last).unwrap());
            }
        }
    }
}

/// Stopping all runs the stop commands of the listed profiles (see
/// `law_stop_each_stops_only_listed`), followed, off Windows and only
/// there, by the `pkill` of whatever still runs under a profile directory.
pub proof fn law_stop_all_runs_only_stops(p: Platform, ids: Seq<Seq<char>>)
    ensures
        p == Platform::Windows ==> stop_all_spec(p, ids) == stop_each(p, ids),
        p != Platform::Windows ==> stop_all_spec(p, ids) == stop_each(p, ids).push(
            stop_remaining_spec(),
        ),
{
}

/// The characters each quoting escapes, and with what: off Windows every
/// operator of an extended regular expression is preceded by `\`; in a
/// `-like` pattern `*`, `?`, `[`, `]` and the backtick are preceded by a
/// backtick; in a single-quoted PowerShell string a quote is doubled. Every
/// other character is written as it is.
pub proof fn law_escape_sets(c: char, s: Seq<char>)
    ensures
        is_special(Quoting::Regex, c) <==> (c == '.' || c == '[' || c == ']' || c == '{' || c == '}'
            || c == '(' || c == ')' || c == '*' || c == '+' || c == '?' || c == '^' || c == '$' || c
            == '|' || c == '\\'),
        is_special(Quoting::Wildcard, c) <==> (c == '*' || c == '?' || c == '[' || c == ']' || c
            == '`'),
        is_special(Quoting::SingleQuoted, c) <==> c == '\'',
        escape_char(Quoting::Regex) == '\\',
        escape_char(Quoting::Wildcard) == '`',
        escape_char(Quoting::SingleQuoted) == '\'',
        escape(Quoting::Regex, seq![c] + s) == (if is_special(Quoting::Regex, c) {
            seq!['\\', c]
        } else {
            seq![c]
        }) + escape(Quoting::Regex, s),
        escape(Quoting::Regex, Seq::<char>::empty()) == Seq::<char>::empty(),
{
    let t = seq![c] + s;
    assert(t[0] == c);
    assert(t.drop_first() =~= s);
}

/// Where the manager keeps its files: the directory `.codex_manager` in the
/// user's home (in the current directory when no home is known), the
/// profiles in its `profiles` directory, one directory per profile id, and
/// the profile list in its `config.json`.
pub proof fn law_manager_paths(p: Platform, home: Option<Seq<char>>, id: Seq<char>)
    ensures
        base_dir_spec(p, home) == join_path(
            p,
            if home is Some {
                home.unwrap()
            } else {
                "."@
            },
            ".codex_manager"@,
        ),
        profiles_dir_spec(p, home) == join_path(p, base_dir_spec(p, home), "profiles"@),
        config_file_spec(p, home) == join_path(p, base_dir_spec(p, home), "config.json"@),
        profile_dir_spec(p, profiles_dir_spec(p, home), id) == join_path(
            p,
            profiles_dir_spec(p, home),
            id,
        ),
{
}

/// How a component is appended to a path: to an empty base it is the
/// component itself; to a base ending in a separator (`/`, and `\` too on
/// Windows) it is appended directly; otherwise `\` on Windows and `/`
/// elsewhere is put between them.
pub proof fn law_join_path(p: Platform, base: Seq<char>, part: Seq<char>)
    ensures
        base.len() == 0 ==> join_path(p, base, part) == part,
        base.len() > 0 && (base.last() == '/' || (p == Platform::Windows && base.last() == '\\'))
            ==> join_path(p, base, part) == base + part,
        base.len() > 0 && base.last() != '/' && !(p == Platform::Windows && base.last() == '\\')
            ==> join_path(p, base, part) == base + seq![
            if p == Platform::Windows {
                '\\'
            } else {
                '/'
            },
        ] + part,
{
}

/// The profiles of a fresh installation: `work_account` ("Work Account",
/// blue `#007AFF`) and `personal_account` ("Personal Account", green
/// `#34C759`), neither with a default project.
pub proof fn law_default_profiles()
    ensures
        default_profiles_spec().len() == 2,
        default_profiles_spec()[0].id == "work_account"@,
        default_profiles_spec()[0].name == "Work Account"@,
        default_profiles_spec()[0].note == "工作/公司项目 Profile (凭据+环境彻底隔离)"@,
        default_profiles_spec()[0].color == "#007AFF"@,
        default_profiles_spec()[0].default_project_path is None,
        default_profiles_spec()[1].id == "personal_account"@,
        default_profiles_spec()[1].name == "Personal Account"@,
        default_profiles_spec()[1].note == "个人开源与私有项目 (独立 Session)"@,
        default_profiles_spec()[1].color == "#34C759"@,
        default_profiles_spec()[1].default_project_path is None,
{
}

/// Which application `open` starts on macOS: `/Applications/Codex.app`
/// when it is installed, else `/Applications/OpenAI Codex.app` when that
/// is, else the application named `Codex`.
pub proof fn law_mac_app_choice(installed: Seq<bool>)
    ensures
        installed.len() > 0 && installed[0] ==> pick_mac_app_spec(installed)
            == "/Applications/Codex.app"@,
        !(installed.len() > 0 && installed[0]) && installed.len() > 1 && installed[1]
            ==> pick_mac_app_spec(installed) == "/Applications/OpenAI Codex.app"@,
        !(installed.len() > 0 && installed[0]) && !(installed.len() > 1 && installed[1])
            ==> pick_mac_app_spec(installed) == "Codex"@,
{
}

/// Which executable starts the app on Windows: `CODEX_DESKTOP_PATH` when
/// it is set and not blank, whatever else exists; otherwise an executable
/// of the runtime copy that exists, the first such one (`Codex.exe` before
/// `ChatGPT.exe`); none when neither exists.
pub proof fn law_windows_exe_choice(
    p: Platform,
    desktop_path: Option<Seq<char>>,
    app_dir: Seq<char>,
    exists: Seq<bool>,
)
    ensures
        runtime_exe_paths(p, app_dir) == seq![
            join_path(p, app_dir, "Codex.exe"@),
            join_path(p, app_dir, "ChatGPT.exe"@),
        ],
        ({
            let r = pick_windows_exe_spec(desktop_path, runtime_exe_paths(p, app_dir), exists);
            let own = desktop_path is Some && !is_blank(desktop_path.unwrap());
            &&& own ==> r == desktop_path
            &&& !own && exists.len() > 0 && exists[0] ==> r == Some(
                join_path(p, app_dir, "Codex.exe"@),
            )
            &&& !own && !(exists.len() > 0 && exists[0]) && exists.len() > 1 && exists[1] ==> r
                == Some(join_path(p, app_dir, "ChatGPT.exe"@))
            &&& !own && !(exists.len() > 0 && exists[0]) && !(exists.len() > 1 && exists[1]) ==> r
                is None
        }),
{
}

/// The shared runtime copy of the Store app lives at
/// `<base>/runtime/<version>/app`, inside the manager's directory, for a
/// version that is a single path component, and nowhere for any other.
pub proof fn law_runtime_dir(p: Platform, base: Seq<char>, version: Seq<char>)
    ensures
        (runtime_app_dir_spec(p, base, version) is Some) == is_valid_profile_id(p, version),
        runtime_app_dir_spec(p, base, version) is Some ==> {
            let d = runtime_app_dir_spec(p, base, version).unwrap();
            &&& d == join_path(p, join_path(p, join_path(p, base, "runtime"@), version), "app"@)
            &&& is_within(p, base, d)
            &&& d != base
        },
{
    reveal_strlit("runtime");
    reveal_strlit("app");
    if is_valid_profile_id(p, version) {
        let r = join_path(p, base, "runtime"@);
        let v = join_path(p, r, version);
        let d = join_path(p, v, "app"@);
        assert(!is_separator(p, version[0]));
        lemma_join_within(p, base, "runtime"@);
        lemma_join_within(p, r, version);
        lemma_join_within(p, v, "app"@);
        lemma_within_trans(p, base, r, v);
        lemma_within_trans(p, base, v, d);
        lemma_join_prefix(p, base, "runtime"@);
        lemma_join_prefix(p, r, version);
        lemma_join_prefix(p, v, "app"@);
    }
}

/// Reading the Store package line: a result `(install, version)` is the
/// trimmed text split at its first `|`, both parts non-empty and the
/// install location free of `|`; a trimmed text without `|` gives none.
pub proof fn law_store_package_split(text: Seq<char>)
    ensures
        store_package_spec(text) is Some ==> {
            let (i, v) = store_package_spec(text).unwrap();
            &&& trim(text) == i + "|"@ + v
            &&& i.len() > 0
            &&& v.len() > 0
            &&& !contains_text(i, "|"@)
        },
        !contains_text(trim(text), "|"@) ==> store_package_spec(text) is None,
{
    reveal_strlit("|");
    let t = trim(text);
    lemma_find_from(t, "|"@, 0);
    if store_package_spec(text) is Some {
        let k = find_from(t, "|"@, 0).unwrap();
        let i = t.subrange(0, k);
        let v = t.subrange(k + 1, t.len() as int);
        assert(t[k] == '|') by {
            assert(t.subrange(k, k + 1)[0] == t[k]);
        }
        assert(t =~= i + "|"@ + v);
        if contains_text(i, "|"@) {
            lemma_find_from(i, "|"@, 0);
            let j = find_from(i, "|"@, 0).unwrap();
            assert(t.subrange(j, j + 1) =~= i.subrange(j, j + 1));
            assert(occurs_at(t, "|"@, j));
        }
    }
}

} // verus!
