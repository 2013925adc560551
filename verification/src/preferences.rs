//! Editor preferences that persist across sessions, and the list of
//! recently opened projects.
use vstd::prelude::*;

use crate::color::Rgb;
use crate::text::str_eq;
use crate::toolbar::{EditorTool, ToolMode};

verus! {

/// Maximum number of recent projects to track.
pub const MAX_RECENT_PROJECTS: usize = 10;

/// A recent project entry.
#[derive(Debug)]
pub struct RecentProject {
    pub path: String,
    pub name: String,
    /// Unix timestamp, in seconds, of the last opening.
    pub last_opened: u64,
}

pub struct RecentProjectView {
    pub path: Seq<char>,
    pub name: Seq<char>,
    pub last_opened: u64,
}

impl View for RecentProject {
    type V = RecentProjectView;

    open spec fn view(&self) -> RecentProjectView {
        RecentProjectView { path: self.path@, name: self.name@, last_opened: self.last_opened }
    }
}

/// Theme customization settings.
#[derive(Debug, Clone, Copy, PartialEq, Eq, Structural)]
pub struct ThemeSettings {
    pub use_dark_theme: bool,
    pub accent_color: Option<Rgb>,
}

/// Editor preferences. The panel widths and the zoom level, which are
/// floating-point numbers, and the window geometry are kept beside these by
/// the application.
#[derive(Debug)]
pub struct EditorPreferences {
    /// Version for future migrations.
    pub version: u32,
    pub show_tree_view: bool,
    pub show_inspector: bool,
    pub show_grid: bool,
    pub show_collisions: bool,
    pub snap_to_grid: bool,
    pub default_tool: EditorTool,
    pub default_tool_mode: ToolMode,
    /// Recent projects, the most recent first.
    pub recent_projects: Vec<RecentProject>,
    pub auto_open_last_project: bool,
    pub theme: ThemeSettings,
}

pub open spec fn recents_view(s: Seq<RecentProject>) -> Seq<RecentProjectView> {
    Seq::new(s.len(), |i: int| s[i]@)
}

/// The entries whose path is not `path`, in order.
pub open spec fn without_path(s: Seq<RecentProjectView>, path: Seq<char>) -> Seq<RecentProjectView>
    decreases s.len(),
{
    if s.len() == 0 {
        seq![]
    } else {
        let rest = without_path(s.drop_last(), path);
        if s.last().path == path {
            rest
        } else {
            rest.push(s.last())
        }
    }
}

/// The list after opening `path`: the entry goes to the front, any older
/// entry for the same path is dropped, and the list is cut to its maximum.
pub open spec fn recents_after_add(s: Seq<RecentProjectView>, entry: RecentProjectView) -> Seq<RecentProjectView> {
    let l = seq![entry] + without_path(s, entry.path);
    if l.len() > MAX_RECENT_PROJECTS {
        l.take(MAX_RECENT_PROJECTS as int)
    } else {
        l
    }
}

/// No path occurs twice and the list is no longer than its maximum.
pub open spec fn recents_wf(s: Seq<RecentProjectView>) -> bool {
    &&& s.len() <= MAX_RECENT_PROJECTS
    &&& forall|i: int, j: int| 0 <= i < j < s.len() ==> (#[trigger] s[i]).path != (#[trigger] s[j]).path
}

/// Seconds since the Unix epoch: calls `std::time::SystemTime::now` and
/// `duration_since(UNIX_EPOCH)`; `None` when the clock reads a time before
/// the epoch. The value depends on the clock, so nothing is claimed of it.
#[verifier::external_body]
fn unix_now_secs() -> Option<u64> {
    std::time::SystemTime::now().duration_since(std::time::UNIX_EPOCH).ok().map(|d| d.as_secs())
}

/// The time stamp recorded for a project opened when the clock read
/// `clock` seconds since the epoch: 0 for a clock before the epoch.
pub fn opened_at(clock: Option<u64>) -> (r: u64)
    ensures
        r == match clock {
            Some(secs) => secs,
            None => 0u64,
        },
{
    match clock {
        Some(secs) => secs,
        None => 0,
    }
}

impl RecentProject {
    /// A copy of this entry.
    pub fn duplicate(&self) -> (r: RecentProject)
        ensures
            r@ == self@,
    {
        RecentProject { path: self.path.clone(), name: self.name.clone(), last_opened: self.last_opened }
    }
}

fn remove_path(list: &mut Vec<RecentProject>, path: &String)
    ensures
        recents_view(final(list)@) == without_path(recents_view(old(list)@), path@),
{
    let ghost orig = recents_view(list@);
    let mut kept: Vec<RecentProject> = Vec::new();
    let mut i: usize = 0;
    while i < list.len()
        invariant
            i <= list.len(),
            orig == recents_view(list@),
            recents_view(kept@) == without_path(orig.take(i as int), path@),
        decreases list.len() - i,
    {
        proof {
            assert(orig.take(i + 1).drop_last() =~= orig.take(i as int));
            assert(orig.take(i + 1).last() == list@[i as int]@);
        }
        if list[i].path != *path {
            let ghost before = recents_view(kept@);
            kept.push(list[i].duplicate());
            proof {
                assert(recents_view(kept@) =~= before.push(list@[i as int]@));
            }
        }
        i = i + 1;
    }
    assert(orig.take(i as int) =~= orig);
    *list = kept;
}

impl EditorPreferences {
    /// Records that `path` was opened at `now` (seconds since the epoch):
    /// the entry goes to the front, an older entry for the same path is
    /// dropped, and the list keeps at most `MAX_RECENT_PROJECTS` entries.
    pub fn add_recent_project_at(&mut self, path: String, name: String, now: u64)
        ensures
            recents_view(final(self).recent_projects@) == recents_after_add(
                recents_view(old(self).recent_projects@),
                RecentProjectView { path: path@, name: name@, last_opened: now },
            ),
            final(self).version == old(self).version,
            final(self).theme == old(self).theme,
    {
        remove_path(&mut self.recent_projects, &path);
        let ghost kept = recents_view(self.recent_projects@);
        let entry = RecentProject { path, name, last_opened: now };
        let ghost ev = entry@;
        self.recent_projects.insert(0, entry);
        assert(recents_view(self.recent_projects@) =~= seq![ev] + kept);
        if self.recent_projects.len() > MAX_RECENT_PROJECTS {
            self.recent_projects.truncate(MAX_RECENT_PROJECTS);
            assert(recents_view(self.recent_projects@) =~= (seq![ev] + kept).take(MAX_RECENT_PROJECTS as int));
        }
    }

    /// Records that `path` was opened now; the time stamp is the system
    /// clock's, whatever it reads.
    pub fn add_recent_project(&mut self, path: String, name: String)
        ensures
            exists|now: u64|
                recents_view(final(self).recent_projects@) == recents_after_add(
                    recents_view(old(self).recent_projects@),
                    RecentProjectView { path: path@, name: name@, last_opened: now },
                ),
            final(self).version == old(self).version,
            final(self).theme == old(self).theme,
    {
        let now = opened_at(unix_now_secs());
        self.add_recent_project_at(path, name, now);
    }

    /// Removes `path` from the recent list (e.g. when its file is gone).
    pub fn remove_recent_project(&mut self, path: &str)
        ensures
            recents_view(final(self).recent_projects@) == without_path(
                recents_view(old(self).recent_projects@),
                path@,
            ),
            final(self).version == old(self).version,
            final(self).theme == old(self).theme,
    {
        let p = String::from_str(path);
        remove_path(&mut self.recent_projects, &p);
    }

    /// The most recently opened project.
    pub fn last_project(&self) -> (r: Option<&RecentProject>)
        ensures
            match r {
                Some(e) => self.recent_projects@.len() > 0 && e@ == recents_view(self.recent_projects@)[0],
                None => self.recent_projects@.len() == 0,
            },
    {
        if self.recent_projects.len() > 0 {
            Some(&self.recent_projects[0])
        } else {
            None
        }
    }

    /// Forgets all recent projects.
    pub fn clear_recent_projects(&mut self)
        ensures
            final(self).recent_projects@.len() == 0,
            final(self).version == old(self).version,
    {
        self.recent_projects.clear();
    }
}

proof fn lemma_without_path_facts(s: Seq<RecentProjectView>, path: Seq<char>)
    ensures
        without_path(s, path).len() <= s.len(),
        forall|i: int| 0 <= i < without_path(s, path).len() ==> (#[trigger] without_path(s, path)[i]).path != path,
        forall|i: int|
            0 <= i < without_path(s, path).len() ==> exists|j: int| 0 <= j < s.len() && s[j] == #[trigger] without_path(s, path)[i],
        forall|i: int, j: int|
            0 <= i < j < without_path(s, path).len() ==> exists|a: int, b: int|
                0 <= a < b < s.len() && s[a] == #[trigger] without_path(s, path)[i] && s[b] == #[trigger] without_path(s, path)[j],
    decreases s.len(),
{
    if s.len() > 0 {
        let d = s.drop_last();
        lemma_without_path_facts(d, path);
        let w = without_path(d, path);
        let r = without_path(s, path);
        assert forall|i: int| 0 <= i < r.len() implies exists|j: int| 0 <= j < s.len() && s[j] == #[trigger] r[i] by {
            if i < w.len() {
                let j = choose|j: int| 0 <= j < d.len() && d[j] == w[i];
                assert(s[j] == d[j]);
            } else {
                assert(s[s.len() - 1] == r[i]);
            }
        }
        assert forall|i: int, j: int| 0 <= i < j < r.len() implies exists|a: int, b: int|
            0 <= a < b < s.len() && s[a] == #[trigger] r[i] && s[b] == #[trigger] r[j] by {
            if j < w.len() {
                let (a, b) = choose|a: int, b: int| 0 <= a < b < d.len() && d[a] == w[i] && d[b] == w[j];
                assert(s[a] == d[a] && s[b] == d[b]);
            } else {
                let a = choose|a: int| 0 <= a < d.len() && d[a] == w[i];
                assert(s[a] == d[a]);
                assert(s[s.len() - 1] == r[j]);
            }
        }
    }
}

/// Adding a recent project keeps the list well-formed: its paths stay
/// distinct and it never grows past `MAX_RECENT_PROJECTS`.
pub proof fn law_add_keeps_recents_wf(s: Seq<RecentProjectView>, entry: RecentProjectView)
    requires
        recents_wf(s),
    ensures
        recents_wf(recents_after_add(s, entry)),
{
    lemma_without_path_facts(s, entry.path);
    let w = without_path(s, entry.path);
    let l = seq![entry] + w;
    assert forall|i: int, j: int| 0 <= i < j < l.len() implies (#[trigger] l[i]).path != (#[trigger] l[j]).path by {
        if i == 0 {
            assert(l[j] == w[j - 1]);
        } else {
            assert(l[i] == w[i - 1] && l[j] == w[j - 1]);
            let (a, b) = choose|a: int, b: int| 0 <= a < b < s.len() && s[a] == w[i - 1] && s[b] == w[j - 1];
        }
    }
}

/// Removing a recent project keeps the list well-formed.
pub proof fn law_remove_keeps_recents_wf(s: Seq<RecentProjectView>, path: Seq<char>)
    requires
        recents_wf(s),
    ensures
        recents_wf(without_path(s, path)),
{
    lemma_without_path_facts(s, path);
    let w = without_path(s, path);
    assert forall|i: int, j: int| 0 <= i < j < w.len() implies (#[trigger] w[i]).path != (#[trigger] w[j]).path by {
        let (a, b) = choose|a: int, b: int| 0 <= a < b < s.len() && s[a] == w[i] && s[b] == w[j];
    }
}

/// The project just added is the last project, and it occurs once.
pub proof fn law_added_is_last_project(s: Seq<RecentProjectView>, entry: RecentProjectView)
    ensures
        recents_after_add(s, entry).len() > 0,
        recents_after_add(s, entry)[0] == entry,
        forall|i: int|
            0 < i < recents_after_add(s, entry).len() ==> (#[trigger] recents_after_add(s, entry)[i]).path != entry.path,
{
    lemma_without_path_facts(s, entry.path);
    let w = without_path(s, entry.path);
    let l = seq![entry] + w;
    assert forall|i: int| 0 < i < recents_after_add(s, entry).len() implies (#[trigger] recents_after_add(
        s,
        entry,
    )[i]).path != entry.path by {
        assert(l[i] == w[i - 1]);
    }
}

impl Default for ThemeSettings {
    fn default() -> (r: Self)
        ensures
            r == (ThemeSettings { use_dark_theme: false, accent_color: None }),
    {
        ThemeSettings { use_dark_theme: false, accent_color: None }
    }
}

impl Default for EditorPreferences {
    /// Version 1; tree view, inspector and grid shown; collisions hidden;
    /// snapping on; the select tool in point mode; no recent projects; no
    /// auto-open; the default theme.
    fn default() -> (r: Self)
        ensures
            r.version == 1,
            r.show_tree_view,
            r.show_inspector,
            r.show_grid,
            !r.show_collisions,
            r.snap_to_grid,
            r.default_tool == EditorTool::Select,
            r.default_tool_mode == ToolMode::Point,
            r.recent_projects@.len() == 0,
            !r.auto_open_last_project,
            r.theme == (ThemeSettings { use_dark_theme: false, accent_color: None }),
    {
        EditorPreferences {
            version: 1,
            show_tree_view: true,
            show_inspector: true,
            show_grid: true,
            show_collisions: false,
            snap_to_grid: true,
            default_tool: EditorTool::Select,
            default_tool_mode: ToolMode::Point,
            recent_projects: Vec::new(),
            auto_open_last_project: false,
            theme: ThemeSettings::default(),
        }
    }
}

/// How the editor window is shown.
#[derive(Debug, Clone, Copy, PartialEq, Eq, Structural)]
pub enum WindowModeKind {
    Windowed,
    BorderlessFullscreen,
    Fullscreen,
}

/// The window mode a saved name stands for; anything else is windowed.
pub fn window_mode_from_name(name: Option<&str>) -> (r: WindowModeKind)
    ensures
        r == (match name {
            Some(n) => if n@ == "borderless_fullscreen"@ {
                WindowModeKind::BorderlessFullscreen
            } else if n@ == "fullscreen"@ {
                WindowModeKind::Fullscreen
            } else {
                WindowModeKind::Windowed
            },
            None => WindowModeKind::Windowed,
        }),
{
    match name {
        Some(n) => if str_eq(n, "borderless_fullscreen") {
            WindowModeKind::BorderlessFullscreen
        } else if str_eq(n, "fullscreen") {
            WindowModeKind::Fullscreen
        } else {
            WindowModeKind::Windowed
        },
        None => WindowModeKind::Windowed,
    }
}

/// The name a window mode is saved under.
pub fn window_mode_name(mode: WindowModeKind) -> (r: &'static str)
    ensures
        r@ == (match mode {
            WindowModeKind::Windowed => "windowed"@,
            WindowModeKind::BorderlessFullscreen => "borderless_fullscreen"@,
            WindowModeKind::Fullscreen => "fullscreen"@,
        }),
{
    match mode {
        WindowModeKind::Windowed => "windowed",
        WindowModeKind::BorderlessFullscreen => "borderless_fullscreen",
        WindowModeKind::Fullscreen => "fullscreen",
    }
}

/// What to do at startup about the last project.
#[derive(Debug, PartialEq, Eq)]
pub enum AutoOpen {
    /// Auto-open is off, or there is no recent project.
    Nothing,
    /// Open the project file at this path.
    Open(String),
    /// The last project's file is gone.
    Missing(String),
}

impl EditorPreferences {
    /// What to do at startup: when auto-open is on and there is a last
    /// project, open it when its file exists (`last_exists`), else report
    /// it missing.
    pub fn auto_open_decision(&self, last_exists: bool) -> (r: AutoOpen)
        ensures
            !self.auto_open_last_project || self.recent_projects@.len() == 0 ==> r == AutoOpen::Nothing,
            self.auto_open_last_project && self.recent_projects@.len() > 0 && last_exists ==> (r matches AutoOpen::Open(p)
                && p@ == self.recent_projects@[0].path@),
            self.auto_open_last_project && self.recent_projects@.len() > 0 && !last_exists ==> (r matches AutoOpen::Missing(p)
                && p@ == self.recent_projects@[0].path@),
    {
        if !self.auto_open_last_project {
            return AutoOpen::Nothing;
        }
        match self.last_project() {
            Some(recent) => if last_exists {
                AutoOpen::Open(recent.path.clone())
            } else {
                AutoOpen::Missing(recent.path.clone())
            },
            None => AutoOpen::Nothing,
        }
    }
}

} // verus!
