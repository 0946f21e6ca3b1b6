//! Profiles, where their data lives, and the profile list.
use vstd::prelude::*;

use crate::paths::{is_valid_profile_id, join, join_path, profile_id_is_valid, Platform};
use crate::text::str_eq;

verus! {

/// An account profile: an isolated environment for one instance.
#[derive(Clone, Debug, PartialEq, Eq)]
pub struct Profile {
    pub id: String,
    pub name: String,
    pub note: String,
    pub color: String,
    pub default_project_path: Option<String>,
}

/// The text of a `Profile`.
#[verifier::ext_equal]
pub struct ProfileView {
    pub id: Seq<char>,
    pub name: Seq<char>,
    pub note: Seq<char>,
    pub color: Seq<char>,
    pub default_project_path: Option<Seq<char>>,
}

impl View for Profile {
    type V = ProfileView;

    open spec fn view(&self) -> ProfileView {
        ProfileView {
            id: self.id@,
            name: self.name@,
            note: self.note@,
            color: self.color@,
            default_project_path: self.default_project_path.deep_view(),
        }
    }
}

/// Where profiles and their configuration are kept.
pub struct ProfileStore;

/// A link from the profile directory to a file or directory of the user's
/// own home, so that instances keep the user's Git and SSH setup.
pub struct LinkPlan {
    pub source: String,
    pub target: String,
    pub is_dir: bool,
}

/// What a profile directory holds: the directory, the directories to create
/// in it, and the links to make into it.
pub struct ProfileLayout {
    pub dir: String,
    pub create_dirs: Vec<String>,
    pub links: Vec<LinkPlan>,
}

/// The text of a `ProfileLayout`.
#[verifier::ext_equal]
pub struct LayoutView {
    pub dir: Seq<char>,
    pub create_dirs: Seq<Seq<char>>,
    pub links: Seq<(Seq<char>, Seq<char>, bool)>,
}

impl View for ProfileLayout {
    type V = LayoutView;

    open spec fn view(&self) -> LayoutView {
        LayoutView {
            dir: self.dir@,
            create_dirs: self.create_dirs@.map_values(|d: String| d@),
            links: self.links@.map_values(|l: LinkPlan| (l.source@, l.target@, l.is_dir)),
        }
    }
}

/// The manager's own directory under the user's home (or under the current
/// directory when no home is known).
pub open spec fn base_dir_spec(p: Platform, home: Option<Seq<char>>) -> Seq<char> {
    join_path(
        p,
        match home {
            Some(h) => h,
            None => "."@,
        },
        ".codex_manager"@,
    )
}

/// The directory that holds one directory per profile.
pub open spec fn profiles_dir_spec(p: Platform, home: Option<Seq<char>>) -> Seq<char> {
    join_path(p, base_dir_spec(p, home), "profiles"@)
}

/// The file that holds the profile list.
pub open spec fn config_file_spec(p: Platform, home: Option<Seq<char>>) -> Seq<char> {
    join_path(p, base_dir_spec(p, home), "config.json"@)
}

/// The directory of profile `id`.
pub open spec fn profile_dir_spec(p: Platform, profiles_dir: Seq<char>, id: Seq<char>) -> Seq<
    char,
> {
    join_path(p, profiles_dir, id)
}

/// The layout of profile `id`: its directory, the data, temporary and cache
/// directories inside it, and, when the user's home is known, links to the
/// user's `.gitconfig` file and `.ssh` directory.
pub open spec fn layout_spec(
    p: Platform,
    profiles_dir: Seq<char>,
    home: Option<Seq<char>>,
    id: Seq<char>,
) -> LayoutView {
    let dir = profile_dir_spec(p, profiles_dir, id);
    LayoutView {
        dir,
        create_dirs: seq![
            join_path(p, dir, "Library/Application Support"@),
            join_path(p, dir, "userdata"@),
            join_path(p, dir, "tmp"@),
            join_path(p, dir, "cache"@),
        ],
        links: match home {
            Some(h) => seq![
                (join_path(p, h, ".gitconfig"@), join_path(p, dir, ".gitconfig"@), false),
                (join_path(p, h, ".ssh"@), join_path(p, dir, ".ssh"@), true),
            ],
            None => Seq::empty(),
        },
    }
}

/// The profiles a fresh installation starts with.
pub open spec fn default_profiles_spec() -> Seq<ProfileView> {
    seq![
        ProfileView {
            id: "work_account"@,
            name: "Work Account"@,
            note: "工作/公司项目 Profile (凭据+环境彻底隔离)"@,
            color: "#007AFF"@,
            default_project_path: None,
        },
        ProfileView {
            id: "personal_account"@,
            name: "Personal Account"@,
            note: "个人开源与私有项目 (独立 Session)"@,
            color: "#34C759"@,
            default_project_path: None,
        },
    ]
}

/// The views of a list of profiles.
pub open spec fn profile_views(s: Seq<Profile>) -> Seq<ProfileView> {
    s.map_values(|q: Profile| q@)
}

/// The profiles of `s` whose id is not `id`, in order.
pub open spec fn profiles_without(s: Seq<Profile>, id: Seq<char>) -> Seq<Profile> {
    s.filter(|q: Profile| q.id@ != id)
}

/// The index of the first profile at or after `i` whose id is `id`.
pub open spec fn index_of_id_from(s: Seq<Profile>, id: Seq<char>, i: int) -> Option<int>
    decreases s.len() - i,
{
    if i < 0 || i >= s.len() {
        None
    } else if s[i].id@ == id {
        Some(i)
    } else {
        index_of_id_from(s, id, i + 1)
    }
}

/// The index of the first profile whose id is `id`.
pub open spec fn index_of_id(s: Seq<Profile>, id: Seq<char>) -> Option<int> {
    index_of_id_from(s, id, 0)
}

pub proof fn lemma_index_of_id_from(s: Seq<Profile>, id: Seq<char>, i: int)
    requires
        0 <= i,
    ensures
        match index_of_id_from(s, id, i) {
            Some(k) => i <= k < s.len() && s[k].id@ == id && forall|j: int|
                i <= j < k ==> s[j].id@ != id,
            None => forall|j: int| i <= j < s.len() ==> s[j].id@ != id,
        },
    decreases s.len() - i,
{
    if i < s.len() && s[i].id@ != id {
        lemma_index_of_id_from(s, id, i + 1);
    }
}

/// `dirs::home_dir`, as text. The user's home depends on the environment,
/// so nothing is claimed of the result.
#[verifier::external_body]
fn home_dir() -> (r: Option<String>) {
    match dirs::home_dir() {
        Some(path) => Some(path.to_string_lossy().into_owned()),
        None => None,
    }
}

impl LinkPlan {
    /// A link is made only where its source exists and its target does not.
    pub fn should_link(&self, source_exists: bool, target_exists: bool) -> (r: bool)
        ensures
            r == (source_exists && !target_exists),
    {
        source_exists && !target_exists
    }
}

impl ProfileStore {
    /// The manager's own directory for the given home.
    pub fn base_dir_for(p: Platform, home: &Option<String>) -> (r: String)
        ensures
            r@ == base_dir_spec(p, home.deep_view()),
    {
        match home {
            Some(h) => join(p, h.as_str(), ".codex_manager"),
            None => join(p, ".", ".codex_manager"),
        }
    }

    /// The directory of all profiles for the given home.
    pub fn profiles_dir_for(p: Platform, home: &Option<String>) -> (r: String)
        ensures
            r@ == profiles_dir_spec(p, home.deep_view()),
    {
        let base = Self::base_dir_for(p, home);
        join(p, base.as_str(), "profiles")
    }

    /// The profile list file for the given home.
    pub fn config_file_for(p: Platform, home: &Option<String>) -> (r: String)
        ensures
            r@ == config_file_spec(p, home.deep_view()),
    {
        let base = Self::base_dir_for(p, home);
        join(p, base.as_str(), "config.json")
    }

    /// The manager's own directory under the current user's home.
    pub fn get_base_dir(p: Platform) -> (r: String)
        ensures
            exists|home: Option<Seq<char>>| r@ == base_dir_spec(p, home),
    {
        let home = home_dir();
        Self::base_dir_for(p, &home)
    }

    /// The directory of all profiles under the current user's home.
    pub fn get_profiles_dir(p: Platform) -> (r: String)
        ensures
            exists|home: Option<Seq<char>>| r@ == profiles_dir_spec(p, home),
    {
        let home = home_dir();
        Self::profiles_dir_for(p, &home)
    }

    /// The profile list file under the current user's home.
    pub fn get_config_file(p: Platform) -> (r: String)
        ensures
            exists|home: Option<Seq<char>>| r@ == config_file_spec(p, home),
    {
        let home = home_dir();
        Self::config_file_for(p, &home)
    }

    /// The directory of profile `id` inside `profiles_dir`, or `None` when
    /// `id` does not name exactly one directory.
    pub fn profile_dir_for(p: Platform, profiles_dir: &str, id: &str) -> (r: Option<String>)
        ensures
            match r {
                Some(d) => is_valid_profile_id(p, id@) && d@ == profile_dir_spec(
                    p,
                    profiles_dir@,
                    id@,
                ),
                None => !is_valid_profile_id(p, id@),
            },
    {
        if profile_id_is_valid(p, id) {
            Some(join(p, profiles_dir, id))
        } else {
            None
        }
    }

    /// The directory of profile `id` under the current user's home, as the
    /// removal of a profile's data uses it; `None` when `id` does not name
    /// exactly one directory, so that nothing but that directory is ever
    /// removed.
    pub fn profile_dir_path(p: Platform, id: &str) -> (r: Option<String>)
        ensures
            match r {
                Some(d) => is_valid_profile_id(p, id@) && exists|home: Option<Seq<char>>|
                    d@ == profile_dir_spec(p, profiles_dir_spec(p, home), id@),
                None => !is_valid_profile_id(p, id@),
            },
    {
        let profiles = Self::get_profiles_dir(p);
        Self::profile_dir_for(p, profiles.as_str(), id)
    }

    /// The layout of profile `id` inside `profiles_dir`, linking into `home`;
    /// `None` when `id` does not name exactly one directory.
    pub fn profile_layout(p: Platform, profiles_dir: &str, home: &Option<String>, id: &str) -> (r:
        Option<ProfileLayout>)
        ensures
            match r {
                Some(l) => is_valid_profile_id(p, id@) && l@ == layout_spec(
                    p,
                    profiles_dir@,
                    home.deep_view(),
                    id@,
                ),
                None => !is_valid_profile_id(p, id@),
            },
    {
        if !profile_id_is_valid(p, id) {
            return None;
        }
        let dir = join(p, profiles_dir, id);
        let mut create_dirs: Vec<String> = Vec::new();
        create_dirs.push(join(p, dir.as_str(), "Library/Application Support"));
        create_dirs.push(join(p, dir.as_str(), "userdata"));
        create_dirs.push(join(p, dir.as_str(), "tmp"));
        create_dirs.push(join(p, dir.as_str(), "cache"));
        let mut links: Vec<LinkPlan> = Vec::new();
        match home {
            Some(h) => {
                links.push(
                    LinkPlan {
                        source: join(p, h.as_str(), ".gitconfig"),
                        target: join(p, dir.as_str(), ".gitconfig"),
                        is_dir: false,
                    },
                );
                links.push(
                    LinkPlan {
                        source: join(p, h.as_str(), ".ssh"),
                        target: join(p, dir.as_str(), ".ssh"),
                        is_dir: true,
                    },
                );
            },
            None => {},
        }
        let r = ProfileLayout { dir, create_dirs, links };
        assert(r@ =~= layout_spec(p, profiles_dir@, home.deep_view(), id@));
        Some(r)
    }

    /// The layout of profile `id` under the current user's home; `None`
    /// when `id` does not name exactly one directory.
    pub fn get_profile_dir(p: Platform, id: &str) -> (r: Option<ProfileLayout>)
        ensures
            match r {
                Some(l) => is_valid_profile_id(p, id@) && exists|
                    home: Option<Seq<char>>,
                    link_home: Option<Seq<char>>,
                | l@ == layout_spec(p, profiles_dir_spec(p, home), link_home, id@),
                None => !is_valid_profile_id(p, id@),
            },
    {
        let profiles = Self::get_profiles_dir(p);
        let home = home_dir();
        Self::profile_layout(p, profiles.as_str(), &home, id)
    }

    /// The profiles a fresh installation starts with.
    pub fn default_profiles() -> (r: Vec<Profile>)
        ensures
            profile_views(r@) == default_profiles_spec(),
    {
        let mut r: Vec<Profile> = Vec::new();
        r.push(
            Profile {
                id: String::from_str("work_account"),
                name: String::from_str("Work Account"),
                note: String::from_str("工作/公司项目 Profile (凭据+环境彻底隔离)"),
                color: String::from_str("#007AFF"),
                default_project_path: None,
            },
        );
        r.push(
            Profile {
                id: String::from_str("personal_account"),
                name: String::from_str("Personal Account"),
                note: String::from_str("个人开源与私有项目 (独立 Session)"),
                color: String::from_str("#34C759"),
                default_project_path: None,
            },
        );
        assert(profile_views(r@) =~= default_profiles_spec());
        r
    }

    /// The profile list to use given what was read from the profile list
    /// file (`None` when it was missing or unreadable), and whether the
    /// list must be written back: the default profiles are used, and
    /// written, when nothing could be read or the list read is empty, so
    /// that the list in use is never empty.
    pub fn profiles_or_defaults(loaded: Option<Vec<Profile>>) -> (r: (Vec<Profile>, bool))
        ensures
            match loaded {
                Some(v) => if v@.len() > 0 {
                    r.0@ == v@ && !r.1
                } else {
                    profile_views(r.0@) == default_profiles_spec() && r.1
                },
                None => profile_views(r.0@) == default_profiles_spec() && r.1,
            },
            r.0@.len() > 0,
    {
        match loaded {
            Some(v) => {
                if v.len() > 0 {
                    (v, false)
                } else {
                    let d = Self::default_profiles();
                    assert(profile_views(d@).len() == d@.len());
                    (d, true)
                }
            },
            None => {
                let d = Self::default_profiles();
                assert(profile_views(d@).len() == d@.len());
                (d, true)
            },
        }
    }
}

/// Adds a profile at the end of the list, unless a listed profile already
/// has its id: two profiles never share an id, and so never share a
/// directory. Tells whether the profile was added; the list is unchanged
/// otherwise.
pub fn add_profile(profiles: &mut Vec<Profile>, profile: Profile) -> (added: bool)
    ensures
        added == (index_of_id(old(profiles)@, profile.id@) is None),
        added ==> final(profiles)@ == old(profiles)@.push(profile),
        !added ==> final(profiles)@ == old(profiles)@,
{
    match find_profile(profiles, profile.id.as_str()) {
        Some(_) => false,
        None => {
            profiles.push(profile);
            true
        },
    }
}

/// Index of the first profile whose id is `id`.
pub fn find_profile(profiles: &Vec<Profile>, id: &str) -> (r: Option<usize>)
    ensures
        match r {
            Some(i) => index_of_id(profiles@, id@) == Some(i as int),
            None => index_of_id(profiles@, id@) is None,
        },
{
    let mut i: usize = 0;
    while i < profiles.len()
        invariant
            i <= profiles@.len(),
            index_of_id(profiles@, id@) == index_of_id_from(profiles@, id@, i as int),
        decreases profiles.len() - i,
    {
        if str_eq(profiles[i].id.as_str(), id) {
            return Some(i);
        }
        i = i + 1;
    }
    None
}

/// Replaces the first profile with the same id as `profile`; tells whether
/// there was one (the list is unchanged otherwise).
pub fn update_profile(profiles: &mut Vec<Profile>, profile: Profile) -> (found: bool)
    ensures
        match index_of_id(old(profiles)@, profile.id@) {
            Some(i) => found && final(profiles)@ == old(profiles)@.update(i, profile),
            None => !found && final(profiles)@ == old(profiles)@,
        },
{
    match find_profile(profiles, profile.id.as_str()) {
        Some(i) => {
            proof {
                lemma_index_of_id_from(profiles@, profile.id@, 0);
            }
            profiles.set(i, profile);
            true
        },
        None => false,
    }
}

/// Removes every profile whose id is `id`, keeping the others in order.
pub fn delete_profile(profiles: &mut Vec<Profile>, id: &str)
    ensures
        final(profiles)@ == profiles_without(old(profiles)@, id@),
{
    let ghost orig = profiles@;
    let ghost keep = |q: Profile| q.id@ != id@;
    let mut rest: Vec<Profile> = Vec::new();
    std::mem::swap(&mut rest, profiles);
    let n = rest.len();
    let mut i: usize = 0;
    while i < n
        invariant
            n == orig.len(),
            i <= n,
            rest@ == orig.subrange(i as int, n as int),
            profiles@ == orig.subrange(0, i as int).filter(keep),
            forall|q: Profile| #[trigger] keep(q) == (q.id@ != id@),
        decreases n - i,
    {
        let q = rest.remove(0);
        proof {
            assert(orig.subrange(0, i + 1).drop_last() =~= orig.subrange(0, i as int));
            assert(orig.subrange(0, i + 1).last() == q);
            reveal_with_fuel(Seq::<_>::filter, 1);
            assert(orig.subrange(0, i + 1).filter(keep) == (if keep(q) {
                orig.subrange(0, i as int).filter(keep).push(q)
            } else {
                orig.subrange(0, i as int).filter(keep)
            }));
        }
        if !str_eq(q.id.as_str(), id) {
            profiles.push(q);
        }
        assert(rest@ =~= orig.subrange(i + 1, n as int));
        i = i + 1;
    }
    assert(orig.subrange(0, n as int) =~= orig);
}

} // verus!
