//! The tray menu: its entries for the profiles and their state, and what a
//! click on an entry asks for.
use vstd::prelude::*;

use crate::profile::{find_profile, index_of_id, Profile, ProfileView};
use crate::running::RunningProfiles;
use crate::text::{chars_occur_at, decimal, push_decimal, str_chars, str_eq, string_from_chars};

verus! {

/// The kind of a menu entry.
#[derive(Clone, Copy, Debug, PartialEq, Eq, Structural)]
pub enum MenuKind {
    /// A clickable entry with an id and a label.
    Item,
    /// A separating line.
    Separator,
    /// The entry that quits the application.
    Quit,
}

/// One entry of the tray menu.
pub struct MenuEntry {
    pub kind: MenuKind,
    pub id: String,
    pub label: String,
    pub enabled: bool,
}

/// The text of a `MenuEntry`.
#[verifier::ext_equal]
pub struct MenuEntryView {
    pub kind: MenuKind,
    pub id: Seq<char>,
    pub label: Seq<char>,
    pub enabled: bool,
}

impl View for MenuEntry {
    type V = MenuEntryView;

    open spec fn view(&self) -> MenuEntryView {
        MenuEntryView { kind: self.kind, id: self.id@, label: self.label@, enabled: self.enabled }
    }
}

/// What a click on a menu entry asks for.
pub enum MenuAction {
    /// Start the profile, opening its default project when it has one.
    Launch { profile_id: String, project_path: Option<String> },
    /// Stop the profile.
    Stop { profile_id: String },
    /// Stop every profile.
    StopAll,
    /// Show the main window, or hide it when it is shown.
    ToggleWindow,
    /// Nothing to do.
    Ignore,
}

/// The text of a `MenuAction`.
pub enum MenuActionView {
    Launch { profile_id: Seq<char>, project_path: Option<Seq<char>> },
    Stop { profile_id: Seq<char> },
    StopAll,
    ToggleWindow,
    Ignore,
}

impl View for MenuAction {
    type V = MenuActionView;

    open spec fn view(&self) -> MenuActionView {
        match self {
            MenuAction::Launch { profile_id, project_path } => MenuActionView::Launch {
                profile_id: profile_id@,
                project_path: project_path.deep_view(),
            },
            MenuAction::Stop { profile_id } => MenuActionView::Stop { profile_id: profile_id@ },
            MenuAction::StopAll => MenuActionView::StopAll,
            MenuAction::ToggleWindow => MenuActionView::ToggleWindow,
            MenuAction::Ignore => MenuActionView::Ignore,
        }
    }
}

pub open spec fn item(id: Seq<char>, label: Seq<char>, enabled: bool) -> MenuEntryView {
    MenuEntryView { kind: MenuKind::Item, id, label, enabled }
}

pub open spec fn separator_entry() -> MenuEntryView {
    MenuEntryView { kind: MenuKind::Separator, id: Seq::empty(), label: Seq::empty(), enabled: true }
}

pub open spec fn quit_entry() -> MenuEntryView {
    MenuEntryView { kind: MenuKind::Quit, id: Seq::empty(), label: "Quit"@, enabled: true }
}

/// The entry for one profile: a stop entry showing the pid when the profile
/// runs, a launch entry otherwise.
pub open spec fn profile_entry(p: ProfileView, running: Map<Seq<char>, u32>) -> MenuEntryView {
    if running.contains_key(p.id) {
        item(
            "stop:"@ + p.id,
            "● "@ + p.name + "  (pid "@ + decimal(running[p.id] as nat) + ")"@,
            true,
        )
    } else {
        item("launch:"@ + p.id, "▶  "@ + p.name, true)
    }
}

/// The whole menu: one entry per profile (or a disabled placeholder when
/// there is none), then "Stop All", enabled when some profile runs, the
/// window toggle and quit.
pub open spec fn menu_spec(profiles: Seq<ProfileView>, running: Map<Seq<char>, u32>) -> Seq<
    MenuEntryView,
> {
    let head = if profiles.len() == 0 {
        seq![item("noop"@, "No profiles"@, false)]
    } else {
        profiles.map_values(|p: ProfileView| profile_entry(p, running))
    };
    head + seq![
        separator_entry(),
        item("stopall"@, "■  Stop All"@, running.dom().len() > 0),
        separator_entry(),
        item("toggle"@, "Show / Hide Window"@, true),
        quit_entry(),
    ]
}

pub open spec fn entry_views(s: Seq<MenuEntry>) -> Seq<MenuEntryView> {
    s.map_values(|e: MenuEntry| e@)
}

/// `s` starts with `pre`.
pub open spec fn has_prefix(s: Seq<char>, pre: Seq<char>) -> bool {
    pre.len() <= s.len() && s.subrange(0, pre.len() as int) == pre
}

/// The default project of the first profile whose id is `id`.
pub open spec fn project_of(profiles: Seq<Profile>, id: Seq<char>) -> Option<Seq<char>> {
    match index_of_id(profiles, id) {
        Some(i) => profiles[i].default_project_path.deep_view(),
        None => None,
    }
}

/// What a click on the entry with id `id` asks for.
pub open spec fn menu_action_spec(id: Seq<char>, profiles: Seq<Profile>) -> MenuActionView {
    if has_prefix(id, "launch:"@) {
        let pid = id.subrange("launch:"@.len() as int, id.len() as int);
        MenuActionView::Launch { profile_id: pid, project_path: project_of(profiles, pid) }
    } else if has_prefix(id, "stop:"@) {
        MenuActionView::Stop { profile_id: id.subrange("stop:"@.len() as int, id.len() as int) }
    } else if id == "stopall"@ {
        MenuActionView::StopAll
    } else if id == "toggle"@ {
        MenuActionView::ToggleWindow
    } else {
        MenuActionView::Ignore
    }
}

fn menu_item(id: String, label: String, enabled: bool) -> (r: MenuEntry)
    ensures
        r@ == item(id@, label@, enabled),
{
    MenuEntry { kind: MenuKind::Item, id, label, enabled }
}

fn separator() -> (r: MenuEntry)
    ensures
        r@ == separator_entry(),
{
    MenuEntry { kind: MenuKind::Separator, id: String::new(), label: String::new(), enabled: true }
}

/// The entry for one profile.
pub fn profile_menu_entry(profile: &Profile, running: &RunningProfiles) -> (r: MenuEntry)
    ensures
        r@ == profile_entry(profile@, running@),
{
    match running.get(&profile.id) {
        Some(pid) => {
            let mut id = String::from_str("stop:");
            id.append(profile.id.as_str());
            let mut label = String::from_str("● ");
            label.append(profile.name.as_str());
            label.append("  (pid ");
            push_decimal(&mut label, pid);
            label.append(")");
            menu_item(id, label, true)
        },
        None => {
            let mut id = String::from_str("launch:");
            id.append(profile.id.as_str());
            let mut label = String::from_str("▶  ");
            label.append(profile.name.as_str());
            menu_item(id, label, true)
        },
    }
}

/// The tray menu for the profile list and the running profiles.
pub fn menu_entries(profiles: &Vec<Profile>, running: &RunningProfiles) -> (r: Vec<MenuEntry>)
    ensures
        entry_views(r@) == menu_spec(profiles@.map_values(|q: Profile| q@), running@),
{
    let ghost views = profiles@.map_values(|q: Profile| q@);
    let mut r: Vec<MenuEntry> = Vec::new();
    if profiles.len() == 0 {
        r.push(menu_item(String::from_str("noop"), String::from_str("No profiles"), false));
    } else {
        let mut i: usize = 0;
        while i < profiles.len()
            invariant
                i <= profiles@.len(),
                views == profiles@.map_values(|q: Profile| q@),
                entry_views(r@) == views.subrange(0, i as int).map_values(
                    |p: ProfileView| profile_entry(p, running@),
                ),
            decreases profiles.len() - i,
        {
            let e = profile_menu_entry(&profiles[i], running);
            let ghost before = entry_views(r@);
            r.push(e);
            proof {
                let f = |p: ProfileView| profile_entry(p, running@);
                assert(views[i as int] == profiles@[i as int]@);
                assert(entry_views(r@) =~= before.push(e@));
                assert(views.subrange(0, i + 1).map_values(f) =~= views.subrange(
                    0,
                    i as int,
                ).map_values(f).push(f(views[i as int])));
            }
            i = i + 1;
        }
        assert(views.subrange(0, profiles@.len() as int) =~= views);
    }
    r.push(separator());
    let some_running = !running.is_empty();
    r.push(menu_item(String::from_str("stopall"), String::from_str("■  Stop All"), some_running));
    r.push(separator());
    r.push(menu_item(String::from_str("toggle"), String::from_str("Show / Hide Window"), true));
    r.push(
        MenuEntry { kind: MenuKind::Quit, id: String::new(), label: String::from_str("Quit"), enabled: true },
    );
    assert(entry_views(r@) =~= menu_spec(views, running@));
    r
}

/// What a click on the entry with id `id` asks for, given the profile list.
pub fn menu_action(id: &str, profiles: &Vec<Profile>) -> (r: MenuAction)
    ensures
        r@ == menu_action_spec(id@, profiles@),
{
    let s = str_chars(id);
    let launch = str_chars("launch:");
    let stop = str_chars("stop:");
    if chars_occur_at(&s, &launch, 0) {
        let pid = string_from_chars(&s, launch.len(), s.len());
        let found = find_profile(profiles, pid.as_str());
        proof {
            crate::profile::lemma_index_of_id_from(profiles@, pid@, 0);
        }
        let project = match found {
            Some(i) => match &profiles[i].default_project_path {
                Some(path) => Some(path.clone()),
                None => None,
            },
            None => None,
        };
        return MenuAction::Launch { profile_id: pid, project_path: project };
    }
    if chars_occur_at(&s, &stop, 0) {
        let pid = string_from_chars(&s, stop.len(), s.len());
        return MenuAction::Stop { profile_id: pid };
    }
    if str_eq(id, "stopall") {
        MenuAction::StopAll
    } else if str_eq(id, "toggle") {
        MenuAction::ToggleWindow
    } else {
        MenuAction::Ignore
    }
}

} // verus!
