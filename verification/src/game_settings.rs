//! The game project settings dialog: its state, the checks it makes on the
//! project name, and the requests it hands back.
use vstd::prelude::*;

use crate::external_editor::{is_vscode_installed, VsCodeProbe};
use crate::paths::{join_admits, join_path};

verus! {

broadcast use vstd::string::axiom_spec_iter;

/// An ASCII lower-case letter.
pub open spec fn is_lower(c: char) -> bool {
    'a' <= c && c <= 'z'
}

/// A character a crate name may hold anywhere.
pub open spec fn crate_name_char(c: char) -> bool {
    is_lower(c) || ('0' <= c && c <= '9') || c == '_' || c == '-'
}

/// A valid crate name: not empty, starting with a lower-case letter or an
/// underscore, and made of lower-case letters, digits, `_` and `-`.
pub open spec fn valid_crate_name(s: Seq<char>) -> bool {
    &&& s.len() > 0
    &&& (is_lower(s[0]) || s[0] == '_')
    &&& forall|i: int| 0 <= i < s.len() ==> crate_name_char(#[trigger] s[i])
}

/// Any name made only of lower-case ASCII letters, `a` to `z`, is a valid
/// crate name; so is one that starts with a letter or `_` and goes on with
/// letters, digits, `_` and `-`. A name that starts with a digit or `-`, or
/// holds any other character (an upper-case letter, a space, a dot), is
/// not.
pub proof fn law_crate_name_characters(s: Seq<char>)
    ensures
        s.len() > 0 && (forall|i: int| 0 <= i < s.len() ==> 'a' <= #[trigger] s[i] <= 'z') ==> valid_crate_name(s),
        valid_crate_name(s) <==> {
            &&& s.len() > 0
            &&& ('a' <= s[0] <= 'z' || s[0] == '_')
            &&& forall|i: int|
                0 <= i < s.len() ==> ('a' <= #[trigger] s[i] <= 'z' || '0' <= s[i] <= '9' || s[i] == '_' || s[i]
                    == '-')
        },
{
}

/// Whether `name` is a valid Rust crate name.
pub fn is_valid_crate_name(name: &str) -> (r: bool)
    ensures
        r == valid_crate_name(name@),
        name@.len() > 0 && (forall|i: int| 0 <= i < name@.len() ==> 'a' <= #[trigger] name@[i] <= 'z') ==> r,
{
    proof {
        law_crate_name_characters(name@);
    }
    let mut all_ok = true;
    let mut first: Option<char> = None;
    for c in it: name.chars()
        invariant
            it.seq() == name@,
            all_ok <==> (forall|i: int| 0 <= i < it.index() ==> crate_name_char(#[trigger] name@[i])),
            it.index() == 0 ==> first is None,
            it.index() > 0 ==> first == Some(name@[0]),
    {
        if first.is_none() {
            first = Some(c);
        }
        let ok = ('a' <= c && c <= 'z') || ('0' <= c && c <= '9') || c == '_' || c == '-';
        if !ok {
            all_ok = false;
        }
    }
    match first {
        None => false,
        Some(f) => (('a' <= f && f <= 'z') || f == '_') && all_ok,
    }
}

/// State of the game settings dialog.
#[derive(Debug)]
pub struct GameSettingsDialogState {
    /// Whether the dialog is open.
    pub open: bool,
    /// Parent directory of the game project.
    pub parent_directory: String,
    /// Project name; must be a valid Rust crate name.
    pub project_name: String,
    /// Selected starting level id.
    pub selected_starting_level: Option<u128>,
    /// Whether to use a release build.
    pub use_release_build: bool,
    /// Status message to display.
    pub status_message: Option<String>,
    /// Whether the Bevy CLI is installed (cached).
    pub cli_installed: Option<bool>,
    /// Whether code generation is enabled.
    pub enable_codegen: bool,
    /// Output path for generated code.
    pub codegen_output_path: String,
    /// Whether to generate entity structs.
    pub generate_entities: bool,
    /// Whether to generate stub systems.
    pub generate_stubs: bool,
    /// Whether to generate behavior systems.
    pub generate_behaviors: bool,
    /// Whether to generate enums.
    pub generate_enums: bool,
    /// Custom VS Code path (empty: detect it).
    pub vscode_path: String,
    /// Cached VS Code availability (None: not checked yet).
    pub vscode_available: Option<bool>,
}

impl Default for GameSettingsDialogState {
    fn default() -> (r: Self)
        ensures
            !r.open,
            r.parent_directory@.len() == 0,
            r.project_name@.len() == 0,
            r.selected_starting_level is None,
            !r.use_release_build,
            r.status_message is None,
            r.cli_installed is None,
            !r.enable_codegen,
            r.codegen_output_path@.len() == 0,
            !r.generate_entities,
            !r.generate_stubs,
            !r.generate_behaviors,
            !r.generate_enums,
            r.vscode_path@.len() == 0,
            r.vscode_available is None,
    {
        GameSettingsDialogState {
            open: false,
            parent_directory: String::new(),
            project_name: String::new(),
            selected_starting_level: None,
            use_release_build: false,
            status_message: None,
            cli_installed: None,
            enable_codegen: false,
            codegen_output_path: String::new(),
            generate_entities: false,
            generate_stubs: false,
            generate_behaviors: false,
            generate_enums: false,
            vscode_path: String::new(),
            vscode_available: None,
        }
    }
}

/// The fields of the dialog other than the cached checks are equal.
pub open spec fn same_settings(a: GameSettingsDialogState, b: GameSettingsDialogState) -> bool {
    &&& a.open == b.open
    &&& a.parent_directory@ == b.parent_directory@
    &&& a.project_name@ == b.project_name@
    &&& a.selected_starting_level == b.selected_starting_level
    &&& a.use_release_build == b.use_release_build
    &&& a.status_message == b.status_message
    &&& a.enable_codegen == b.enable_codegen
    &&& a.codegen_output_path@ == b.codegen_output_path@
    &&& a.generate_entities == b.generate_entities
    &&& a.generate_stubs == b.generate_stubs
    &&& a.generate_behaviors == b.generate_behaviors
    &&& a.generate_enums == b.generate_enums
    &&& a.vscode_path@ == b.vscode_path@
}

impl GameSettingsDialogState {
    /// Caches whether the Bevy CLI is installed, once: `installed` is what
    /// the check found, and is used only when nothing is cached yet.
    pub fn check_cli_status(&mut self, installed: bool)
        ensures
            same_settings(*final(self), *old(self)),
            final(self).vscode_available == old(self).vscode_available,
            final(self).cli_installed == (match old(self).cli_installed {
                Some(b) => Some(b),
                None => Some(installed),
            }),
    {
        if self.cli_installed.is_none() {
            self.cli_installed = Some(installed);
        }
    }

    /// Caches whether VS Code is available, once: with no custom path, when
    /// it is installed; with one, when a file exists there
    /// (`custom_path_exists`).
    pub fn check_vscode_status(&mut self, probe: &VsCodeProbe, custom_path_exists: bool)
        ensures
            same_settings(*final(self), *old(self)),
            final(self).cli_installed == old(self).cli_installed,
            final(self).vscode_available == (match old(self).vscode_available {
                Some(b) => Some(b),
                None => Some(
                    if old(self).vscode_path@.len() == 0 {
                        probe.code_on_path || probe.default_path is Some
                    } else {
                        custom_path_exists
                    },
                ),
            }),
    {
        if self.vscode_available.is_none() {
            let available = if self.vscode_path.as_str().is_empty() {
                is_vscode_installed(probe)
            } else {
                custom_path_exists
            };
            self.vscode_available = Some(available);
        }
    }

    /// Forgets the cached VS Code availability (the custom path changed).
    pub fn invalidate_vscode_cache(&mut self)
        ensures
            same_settings(*final(self), *old(self)),
            final(self).cli_installed == old(self).cli_installed,
            final(self).vscode_available is None,
    {
        self.vscode_available = None;
    }

    /// The project directory, parent directory joined with the project
    /// name; None when either is empty.
    pub fn get_full_project_path(&self) -> (r: Option<String>)
        ensures
            r is Some <==> (self.parent_directory@.len() > 0 && self.project_name@.len() > 0),
            r matches Some(p) ==> join_admits(self.parent_directory@, self.project_name@, p@),
    {
        if self.parent_directory.as_str().is_empty() || self.project_name.as_str().is_empty() {
            return None;
        }
        Some(join_path(self.parent_directory.as_str(), self.project_name.as_str()))
    }

    /// The project name, None when it is empty.
    pub fn get_project_name(&self) -> (r: Option<String>)
        ensures
            match r {
                Some(n) => self.project_name@.len() > 0 && n@ == self.project_name@,
                None => self.project_name@.len() == 0,
            },
    {
        if self.project_name.as_str().is_empty() {
            None
        } else {
            Some(self.project_name.clone())
        }
    }

    /// The parent directory, None when it is empty.
    pub fn get_parent_dir(&self) -> (r: Option<String>)
        ensures
            match r {
                Some(d) => self.parent_directory@.len() > 0 && d@ == self.parent_directory@,
                None => self.parent_directory@.len() == 0,
            },
    {
        if self.parent_directory.as_str().is_empty() {
            None
        } else {
            Some(self.parent_directory.clone())
        }
    }
}

/// What the user asked for in the game settings dialog.
#[derive(Debug, Clone, Copy, PartialEq, Eq, Structural)]
pub struct GameSettingsDialogResult {
    /// Save the settings.
    pub save_requested: bool,
    /// Create a new game project.
    pub create_project_requested: bool,
    /// Create a new level.
    pub create_level_requested: bool,
    /// Install the Bevy CLI.
    pub install_cli_requested: bool,
    /// Generate code now.
    pub generate_code_requested: bool,
    /// Preview the generated code.
    pub preview_code_requested: bool,
    /// Open the game project in VS Code.
    pub open_in_vscode_requested: bool,
    /// Open the project folder in the file browser.
    pub open_folder_requested: bool,
}

impl Default for GameSettingsDialogResult {
    fn default() -> (r: Self)
        ensures
            r == (GameSettingsDialogResult {
                save_requested: false,
                create_project_requested: false,
                create_level_requested: false,
                install_cli_requested: false,
                generate_code_requested: false,
                preview_code_requested: false,
                open_in_vscode_requested: false,
                open_folder_requested: false,
            }),
    {
        GameSettingsDialogResult {
            save_requested: false,
            create_project_requested: false,
            create_level_requested: false,
            install_cli_requested: false,
            generate_code_requested: false,
            preview_code_requested: false,
            open_in_vscode_requested: false,
            open_folder_requested: false,
        }
    }
}

/// The game project settings a project keeps.
#[derive(Debug)]
pub struct GameProjectConfig {
    pub project_path: Option<String>,
    pub starting_level: Option<u128>,
    pub use_release_build: bool,
    pub enable_codegen: bool,
    pub codegen_output_path: String,
    pub generate_entities: bool,
    pub generate_stubs: bool,
    pub generate_behaviors: bool,
    pub generate_enums: bool,
    pub vscode_path: Option<String>,
}

/// What the file system says of the project directory the dialog names.
#[derive(Debug, Clone, Copy, PartialEq, Eq, Structural)]
pub struct ProjectDirProbe {
    /// The directory exists.
    pub dir_exists: bool,
    /// It holds a `Cargo.toml`.
    pub cargo_toml_exists: bool,
}

/// The line shown under the path fields.
#[derive(Debug, Clone, Copy, PartialEq, Eq, Structural)]
pub enum PathStatus {
    /// A game project is there: ready to run.
    ReadyToRun,
    /// The directory exists without a project: choose another name.
    DirectoryExists,
    /// A new project will be created.
    WillCreate,
    /// Only one of the two fields is filled in.
    EnterBoth,
    /// Nothing to say.
    Nothing,
}

/// The line shown for VS Code.
#[derive(Debug, Clone, Copy, PartialEq, Eq, Structural)]
pub enum VsCodeStatus {
    Detected,
    PathNotFound,
    NotDetected,
}

/// What the dialog shows and enables, given its state and the probe of the
/// project directory (`None` when no full path is set).
#[derive(Debug, Clone, Copy, PartialEq, Eq, Structural)]
pub struct DialogView {
    pub cli_installed: bool,
    /// "(invalid name)" next to the name field.
    pub name_invalid: bool,
    pub path_status: PathStatus,
    /// The code generation section is shown.
    pub show_codegen: bool,
    pub vscode_status: VsCodeStatus,
    pub can_open_in_vscode: bool,
    pub can_open_folder: bool,
    pub can_create_project: bool,
    /// "Install Bevy CLI to create projects" is shown.
    pub install_cli_hint: bool,
    pub can_save: bool,
}

/// The dialog's view of its state.
pub open spec fn dialog_view_of(
    parent_empty: bool,
    name: Seq<char>,
    starting_level_set: bool,
    cli_installed: Option<bool>,
    vscode_path_empty: bool,
    vscode_available: Option<bool>,
    probe: Option<ProjectDirProbe>,
) -> DialogView {
    let cli = cli_installed == Some(true);
    let valid = valid_crate_name(name);
    let project_exists = match probe {
        Some(p) => p.cargo_toml_exists,
        None => false,
    };
    let dir_exists = match probe {
        Some(p) => p.dir_exists,
        None => true,
    };
    let vscode = vscode_available == Some(true);
    DialogView {
        cli_installed: cli,
        name_invalid: name.len() > 0 && !valid,
        path_status: match probe {
            Some(p) => if p.cargo_toml_exists {
                PathStatus::ReadyToRun
            } else if p.dir_exists {
                PathStatus::DirectoryExists
            } else if valid {
                PathStatus::WillCreate
            } else {
                PathStatus::Nothing
            },
            None => if !parent_empty || name.len() > 0 {
                PathStatus::EnterBoth
            } else {
                PathStatus::Nothing
            },
        },
        show_codegen: project_exists,
        vscode_status: if vscode {
            VsCodeStatus::Detected
        } else if !vscode_path_empty {
            VsCodeStatus::PathNotFound
        } else {
            VsCodeStatus::NotDetected
        },
        can_open_in_vscode: project_exists && vscode,
        can_open_folder: project_exists,
        can_create_project: cli && valid && !dir_exists && probe is Some,
        install_cli_hint: !cli && probe is Some && valid && !dir_exists,
        can_save: probe is Some && starting_level_set,
    }
}

impl GameSettingsDialogState {
    /// What the dialog shows and enables. `probe` is what the file system
    /// says of the full project path; it is used only when that path is set.
    pub fn view(&self, probe: ProjectDirProbe) -> (r: DialogView)
        ensures
            r == dialog_view_of(
                self.parent_directory@.len() == 0,
                self.project_name@,
                self.selected_starting_level is Some,
                self.cli_installed,
                self.vscode_path@.len() == 0,
                self.vscode_available,
                if self.parent_directory@.len() > 0 && self.project_name@.len() > 0 {
                    Some(probe)
                } else {
                    None
                },
            ),
    {
        let has_path = !self.parent_directory.as_str().is_empty() && !self.project_name.as_str().is_empty();
        let p: Option<ProjectDirProbe> = if has_path {
            Some(probe)
        } else {
            None
        };
        let cli = match self.cli_installed {
            Some(b) => b,
            None => false,
        };
        let valid = is_valid_crate_name(self.project_name.as_str());
        let project_exists = match p {
            Some(q) => q.cargo_toml_exists,
            None => false,
        };
        let dir_exists = match p {
            Some(q) => q.dir_exists,
            None => true,
        };
        let vscode = match self.vscode_available {
            Some(b) => b,
            None => false,
        };
        let name_empty = self.project_name.as_str().is_empty();
        let parent_empty = self.parent_directory.as_str().is_empty();
        let path_status = match p {
            Some(q) => if q.cargo_toml_exists {
                PathStatus::ReadyToRun
            } else if q.dir_exists {
                PathStatus::DirectoryExists
            } else if valid {
                PathStatus::WillCreate
            } else {
                PathStatus::Nothing
            },
            None => if !parent_empty || !name_empty {
                PathStatus::EnterBoth
            } else {
                PathStatus::Nothing
            },
        };
        let vscode_status = if vscode {
            VsCodeStatus::Detected
        } else if !self.vscode_path.as_str().is_empty() {
            VsCodeStatus::PathNotFound
        } else {
            VsCodeStatus::NotDetected
        };
        DialogView {
            cli_installed: cli,
            name_invalid: !name_empty && !valid,
            path_status,
            show_codegen: project_exists,
            vscode_status,
            can_open_in_vscode: project_exists && vscode,
            can_open_folder: project_exists,
            can_create_project: cli && valid && !dir_exists && has_path,
            install_cli_hint: !cli && has_path && valid && !dir_exists,
            can_save: has_path && self.selected_starting_level.is_some(),
        }
    }

    /// Writes the dialog's settings into the project's game settings, with
    /// `full_path` as the project path, and closes the dialog. An empty
    /// VS Code path is saved as none.
    pub fn save_into(&mut self, config: &mut GameProjectConfig, full_path: Option<String>)
        ensures
            final(config).project_path == full_path,
            final(config).starting_level == old(self).selected_starting_level,
            final(config).use_release_build == old(self).use_release_build,
            final(config).enable_codegen == old(self).enable_codegen,
            final(config).codegen_output_path@ == old(self).codegen_output_path@,
            final(config).generate_entities == old(self).generate_entities,
            final(config).generate_stubs == old(self).generate_stubs,
            final(config).generate_behaviors == old(self).generate_behaviors,
            final(config).generate_enums == old(self).generate_enums,
            match final(config).vscode_path {
                Some(p) => old(self).vscode_path@.len() > 0 && p@ == old(self).vscode_path@,
                None => old(self).vscode_path@.len() == 0,
            },
            !final(self).open,
            final(self).parent_directory@ == old(self).parent_directory@,
            final(self).project_name@ == old(self).project_name@,
            final(self).selected_starting_level == old(self).selected_starting_level,
            final(self).vscode_path@ == old(self).vscode_path@,
    {
        config.project_path = full_path;
        config.starting_level = self.selected_starting_level;
        config.use_release_build = self.use_release_build;
        config.enable_codegen = self.enable_codegen;
        config.codegen_output_path = self.codegen_output_path.clone();
        config.generate_entities = self.generate_entities;
        config.generate_stubs = self.generate_stubs;
        config.generate_behaviors = self.generate_behaviors;
        config.generate_enums = self.generate_enums;
        config.vscode_path = if self.vscode_path.as_str().is_empty() {
            None
        } else {
            Some(self.vscode_path.clone())
        };
        self.open = false;
    }
}

} // verus!
