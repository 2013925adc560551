//! The decisions of the menu bar: which entries are enabled, what a click
//! on each entry asks of the editor, which integration panels and menu items
//! are listed, and the project title shown at the right.
use vstd::prelude::*;

use crate::clipboard::TileClipboard;
use crate::history::CommandHistory;
use crate::integration::{ContextMenuTarget, EditorExtension, IntegrationRegistry};
use crate::project::{project_display_name, stem_admits, Project};
use crate::ui_state::PendingAction;

verus! {

/// A clickable entry of the menu bar.
#[derive(Debug, Clone, Copy, PartialEq, Eq, Structural)]
pub enum MenuEntry {
    NewProject,
    OpenProject,
    /// The recent project at this position of the recent list.
    OpenRecent(usize),
    ClearRecentProjects,
    Save,
    SaveAs,
    Settings,
    Exit,
    Undo,
    Redo,
    Cut,
    Copy,
    Paste,
    SelectAll,
    NewLevel,
    NewTileset,
    GameSettings,
    RunGame,
    GenerateNow,
    PreviewCode,
    OpenInVSCode,
    TilesetEditor,
    SpriteSheetEditor,
    AnimationEditor,
    DialogueEditor,
    SchemaEditor,
    /// Tools > Automap Rule Editor...
    AutomapRuleEditor,
    About,
}

/// A window or dialog that a menu entry shows.
#[derive(Debug, Clone, Copy, PartialEq, Eq, Structural)]
pub enum EditorWindow {
    Settings,
    NewLevel,
    NewTileset,
    TilesetEditor,
    SpriteSheetEditor,
    AnimationEditor,
    DialogueEditor,
    SchemaEditor,
    AutomapRuleEditor,
    About,
}

/// What a click on a menu entry asks of the editor.
#[derive(Debug, Clone, Copy, PartialEq, Eq, Structural)]
pub enum MenuEffect {
    /// Carry out an action on the next update.
    Pending(PendingAction),
    /// Show a window.
    Show(EditorWindow),
    /// Open the recent project at this position.
    OpenRecent(usize),
    /// Forget the recent projects.
    ClearRecent,
}

/// Which entries of the menu bar can be clicked.
#[derive(Debug, Clone, Copy, PartialEq, Eq, Structural)]
pub struct MenuEnabled {
    pub undo: bool,
    pub redo: bool,
    pub paste: bool,
    /// Run Game: a game project and a starting level are set.
    pub run_game: bool,
    /// Generate Now and Open in VS Code: a game project is set.
    pub game_project: bool,
}

/// Which entries can be clicked: undo and redo when the history has
/// something to undo or redo, paste when the clipboard holds tiles, Run Game
/// when a game project and a starting level are set, the game project
/// entries when a game project is set.
pub fn menu_enabled(
    history: Option<&CommandHistory>,
    clipboard: Option<&TileClipboard>,
    has_game_project: bool,
    has_starting_level: bool,
) -> (r: MenuEnabled)
    ensures
        r.undo == (match history {
            Some(h) => h@.undo.len() > 0,
            None => false,
        }),
        r.redo == (match history {
            Some(h) => h@.redo.len() > 0,
            None => false,
        }),
        r.paste == (match clipboard {
            Some(c) => c.content is Some,
            None => false,
        }),
        r.run_game == (has_game_project && has_starting_level),
        r.game_project == has_game_project,
{
    let undo = match history {
        Some(h) => h.can_undo(),
        None => false,
    };
    let redo = match history {
        Some(h) => h.can_redo(),
        None => false,
    };
    let paste = match clipboard {
        Some(c) => c.has_content(),
        None => false,
    };
    MenuEnabled {
        undo,
        redo,
        paste,
        run_game: has_game_project && has_starting_level,
        game_project: has_game_project,
    }
}

/// Whether an entry can be clicked.
pub open spec fn entry_enabled(entry: MenuEntry, enabled: MenuEnabled) -> bool {
    match entry {
        MenuEntry::Undo => enabled.undo,
        MenuEntry::Redo => enabled.redo,
        MenuEntry::Paste => enabled.paste,
        MenuEntry::RunGame => enabled.run_game,
        MenuEntry::GenerateNow => enabled.game_project,
        MenuEntry::OpenInVSCode => enabled.game_project,
        _ => true,
    }
}

/// What a click on an entry asks for.
pub open spec fn entry_effect(entry: MenuEntry) -> MenuEffect {
    match entry {
        MenuEntry::NewProject => MenuEffect::Pending(PendingAction::New),
        MenuEntry::OpenProject => MenuEffect::Pending(PendingAction::Open),
        MenuEntry::OpenRecent(i) => MenuEffect::OpenRecent(i),
        MenuEntry::ClearRecentProjects => MenuEffect::ClearRecent,
        MenuEntry::Save => MenuEffect::Pending(PendingAction::Save),
        MenuEntry::SaveAs => MenuEffect::Pending(PendingAction::SaveAs),
        MenuEntry::Settings => MenuEffect::Show(EditorWindow::Settings),
        MenuEntry::Exit => MenuEffect::Pending(PendingAction::Exit),
        MenuEntry::Undo => MenuEffect::Pending(PendingAction::Undo),
        MenuEntry::Redo => MenuEffect::Pending(PendingAction::Redo),
        MenuEntry::Cut => MenuEffect::Pending(PendingAction::Cut),
        MenuEntry::Copy => MenuEffect::Pending(PendingAction::Copy),
        MenuEntry::Paste => MenuEffect::Pending(PendingAction::Paste),
        MenuEntry::SelectAll => MenuEffect::Pending(PendingAction::SelectAll),
        MenuEntry::NewLevel => MenuEffect::Show(EditorWindow::NewLevel),
        MenuEntry::NewTileset => MenuEffect::Show(EditorWindow::NewTileset),
        MenuEntry::GameSettings => MenuEffect::Pending(PendingAction::OpenGameSettings),
        MenuEntry::RunGame => MenuEffect::Pending(PendingAction::RunGame),
        MenuEntry::GenerateNow => MenuEffect::Pending(PendingAction::GenerateCode),
        MenuEntry::PreviewCode => MenuEffect::Pending(PendingAction::PreviewCode),
        MenuEntry::OpenInVSCode => MenuEffect::Pending(PendingAction::OpenInVSCode),
        MenuEntry::TilesetEditor => MenuEffect::Show(EditorWindow::TilesetEditor),
        MenuEntry::SpriteSheetEditor => MenuEffect::Show(EditorWindow::SpriteSheetEditor),
        MenuEntry::AnimationEditor => MenuEffect::Show(EditorWindow::AnimationEditor),
        MenuEntry::DialogueEditor => MenuEffect::Show(EditorWindow::DialogueEditor),
        MenuEntry::SchemaEditor => MenuEffect::Show(EditorWindow::SchemaEditor),
        MenuEntry::AutomapRuleEditor => MenuEffect::Show(EditorWindow::AutomapRuleEditor),
        MenuEntry::About => MenuEffect::Show(EditorWindow::About),
    }
}

/// What a click on `entry` asks for: nothing when the entry is disabled.
pub fn menu_click(entry: MenuEntry, enabled: MenuEnabled) -> (r: Option<MenuEffect>)
    ensures
        r == (if entry_enabled(entry, enabled) {
            Some(entry_effect(entry))
        } else {
            None
        }),
{
    let on = match entry {
        MenuEntry::Undo => enabled.undo,
        MenuEntry::Redo => enabled.redo,
        MenuEntry::Paste => enabled.paste,
        MenuEntry::RunGame => enabled.run_game,
        MenuEntry::GenerateNow => enabled.game_project,
        MenuEntry::OpenInVSCode => enabled.game_project,
        _ => true,
    };
    if !on {
        return None;
    }
    let effect = match entry {
        MenuEntry::NewProject => MenuEffect::Pending(PendingAction::New),
        MenuEntry::OpenProject => MenuEffect::Pending(PendingAction::Open),
        MenuEntry::OpenRecent(i) => MenuEffect::OpenRecent(i),
        MenuEntry::ClearRecentProjects => MenuEffect::ClearRecent,
        MenuEntry::Save => MenuEffect::Pending(PendingAction::Save),
        MenuEntry::SaveAs => MenuEffect::Pending(PendingAction::SaveAs),
        MenuEntry::Settings => MenuEffect::Show(EditorWindow::Settings),
        MenuEntry::Exit => MenuEffect::Pending(PendingAction::Exit),
        MenuEntry::Undo => MenuEffect::Pending(PendingAction::Undo),
        MenuEntry::Redo => MenuEffect::Pending(PendingAction::Redo),
        MenuEntry::Cut => MenuEffect::Pending(PendingAction::Cut),
        MenuEntry::Copy => MenuEffect::Pending(PendingAction::Copy),
        MenuEntry::Paste => MenuEffect::Pending(PendingAction::Paste),
        MenuEntry::SelectAll => MenuEffect::Pending(PendingAction::SelectAll),
        MenuEntry::NewLevel => MenuEffect::Show(EditorWindow::NewLevel),
        MenuEntry::NewTileset => MenuEffect::Show(EditorWindow::NewTileset),
        MenuEntry::GameSettings => MenuEffect::Pending(PendingAction::OpenGameSettings),
        MenuEntry::RunGame => MenuEffect::Pending(PendingAction::RunGame),
        MenuEntry::GenerateNow => MenuEffect::Pending(PendingAction::GenerateCode),
        MenuEntry::PreviewCode => MenuEffect::Pending(PendingAction::PreviewCode),
        MenuEntry::OpenInVSCode => MenuEffect::Pending(PendingAction::OpenInVSCode),
        MenuEntry::TilesetEditor => MenuEffect::Show(EditorWindow::TilesetEditor),
        MenuEntry::SpriteSheetEditor => MenuEffect::Show(EditorWindow::SpriteSheetEditor),
        MenuEntry::AnimationEditor => MenuEffect::Show(EditorWindow::AnimationEditor),
        MenuEntry::DialogueEditor => MenuEffect::Show(EditorWindow::DialogueEditor),
        MenuEntry::SchemaEditor => MenuEffect::Show(EditorWindow::SchemaEditor),
        MenuEntry::AutomapRuleEditor => MenuEffect::Show(EditorWindow::AutomapRuleEditor),
        MenuEntry::About => MenuEffect::Show(EditorWindow::About),
    };
    Some(effect)
}

/// The names of the panel contributions, in registration order.
pub open spec fn panel_names(ext: Seq<EditorExtension>) -> Seq<Seq<char>>
    decreases ext.len(),
{
    if ext.len() == 0 {
        Seq::empty()
    } else {
        let rest = panel_names(ext.drop_last());
        match ext.last() {
            EditorExtension::Panel { name } => rest.push(name@),
            _ => rest,
        }
    }
}

/// The paths of the menu item contributions, in registration order.
pub open spec fn menu_item_paths(ext: Seq<EditorExtension>) -> Seq<Seq<char>>
    decreases ext.len(),
{
    if ext.len() == 0 {
        Seq::empty()
    } else {
        let rest = menu_item_paths(ext.drop_last());
        match ext.last() {
            EditorExtension::MenuItem { path } => rest.push(path@),
            _ => rest,
        }
    }
}

/// The views of a list of strings.
pub open spec fn strings_view(v: Seq<String>) -> Seq<Seq<char>> {
    Seq::new(v.len(), |i: int| v[i]@)
}

/// The integration panels listed in the View menu.
pub fn integration_panel_names(registry: &IntegrationRegistry) -> (r: Vec<String>)
    ensures
        strings_view(r@) == panel_names(registry.contributions()),
{
    let ext = registry.ui_contributions();
    let mut out: Vec<String> = Vec::new();
    let mut i: usize = 0;
    while i < ext.len()
        invariant
            ext@ == registry.contributions(),
            i <= ext@.len(),
            strings_view(out@) == panel_names(ext@.subrange(0, i as int)),
        decreases ext@.len() - i,
    {
        proof {
            assert(ext@.subrange(0, i + 1).drop_last() =~= ext@.subrange(0, i as int));
        }
        match &ext[i] {
            EditorExtension::Panel { name } => {
                out.push(name.clone());
                assert(strings_view(out@) =~= panel_names(ext@.subrange(0, i + 1)));
            },
            _ => {},
        }
        i = i + 1;
    }
    assert(ext@.subrange(0, ext@.len() as int) =~= ext@);
    out
}

/// The integration menu items listed in the Integrations menu.
pub fn integration_menu_paths(registry: &IntegrationRegistry) -> (r: Vec<String>)
    ensures
        strings_view(r@) == menu_item_paths(registry.contributions()),
{
    let ext = registry.ui_contributions();
    let mut out: Vec<String> = Vec::new();
    let mut i: usize = 0;
    while i < ext.len()
        invariant
            ext@ == registry.contributions(),
            i <= ext@.len(),
            strings_view(out@) == menu_item_paths(ext@.subrange(0, i as int)),
        decreases ext@.len() - i,
    {
        proof {
            assert(ext@.subrange(0, i + 1).drop_last() =~= ext@.subrange(0, i as int));
        }
        match &ext[i] {
            EditorExtension::MenuItem { path } => {
                out.push(path.clone());
                assert(strings_view(out@) =~= menu_item_paths(ext@.subrange(0, i + 1)));
            },
            _ => {},
        }
        i = i + 1;
    }
    assert(ext@.subrange(0, ext@.len() as int) =~= ext@);
    out
}

/// The names of the context menu contributions for `target`, in
/// registration order.
pub open spec fn context_items(ext: Seq<EditorExtension>, target: ContextMenuTarget) -> Seq<Seq<char>>
    decreases ext.len(),
{
    if ext.len() == 0 {
        Seq::empty()
    } else {
        let rest = context_items(ext.drop_last(), target);
        match ext.last() {
            EditorExtension::ContextMenu { target: t, name } => if t == target {
                rest.push(name@)
            } else {
                rest
            },
            _ => rest,
        }
    }
}

/// The integration items of the context menu of an entity or a layer.
pub fn integration_context_items(registry: &IntegrationRegistry, target: ContextMenuTarget) -> (r: Vec<String>)
    ensures
        strings_view(r@) == context_items(registry.contributions(), target),
{
    let ext = registry.ui_contributions();
    let mut out: Vec<String> = Vec::new();
    let mut i: usize = 0;
    while i < ext.len()
        invariant
            ext@ == registry.contributions(),
            i <= ext@.len(),
            strings_view(out@) == context_items(ext@.subrange(0, i as int), target),
        decreases ext@.len() - i,
    {
        proof {
            assert(ext@.subrange(0, i + 1).drop_last() =~= ext@.subrange(0, i as int));
        }
        match &ext[i] {
            EditorExtension::ContextMenu { target: t, name } => {
                if *t == target {
                    out.push(name.clone());
                    assert(strings_view(out@) =~= context_items(ext@.subrange(0, i + 1), target));
                }
            },
            _ => {},
        }
        i = i + 1;
    }
    assert(ext@.subrange(0, ext@.len() as int) =~= ext@);
    out
}

/// The title of a project of name `name`: the name, with " *" after it
/// when there are unsaved changes.
pub open spec fn titled(name: Seq<char>, dirty: bool) -> Seq<char> {
    if dirty {
        name + " *"@
    } else {
        name
    }
}

/// The title shown at the right of the menu bar for a project of name
/// `name`.
pub fn title_for(name: String, dirty: bool) -> (r: String)
    ensures
        r@ == titled(name@, dirty),
{
    let mut title = name;
    if dirty {
        title.append(" *");
    }
    title
}

/// The title shown at the right of the menu bar: the project's name (see
/// `Project::name`), with " *" after it when there are unsaved changes.
pub fn project_title(project: &Project) -> (r: String)
    ensures
        project@.path is None ==> r@ == titled(project@.schema_name, project@.dirty),
        project@.path matches Some(p) ==> exists|s: Option<Seq<char>>|
            #[trigger] stem_admits(p, s) && r@ == titled(project_display_name(s, project@.schema_name), project@.dirty),
{
    let name = project.name();
    let ghost n = name@;
    let title = title_for(name, project.is_dirty());
    proof {
        if let Some(p) = project@.path {
            let s = choose|s: Option<Seq<char>>| #[trigger] stem_admits(p, s) && n == project_display_name(
                s,
                project@.schema_name,
            );
            assert(stem_admits(p, s) && title@ == titled(project_display_name(s, project@.schema_name), project@.dirty));
        }
    }
    title
}

} // verus!
