//! Opening projects in external editors (VS Code, or the system's default
//! application).
//!
//! What is on the machine (which files exist, whether `code` runs, where VS
//! Code is installed) is found out by the caller and handed in; these
//! functions decide what to launch and report errors. A decision is a
//! [`Launch`]: the program to run and its arguments.
use vstd::prelude::*;

use crate::text::{decimal, push_decimal};

verus! {

/// Error type for external editor operations.
#[derive(Debug)]
pub enum EditorError {
    /// The specified editor is not installed.
    NotInstalled(String),
    /// Failed to launch the editor.
    LaunchFailed(String),
    /// The path does not exist.
    PathNotFound(String),
}

pub open spec fn not_installed_suffix() -> Seq<char> {
    " is not installed or not in PATH"@
}

pub open spec fn launch_failed_prefix() -> Seq<char> {
    "Failed to launch editor: "@
}

pub open spec fn path_not_found_prefix() -> Seq<char> {
    "Path not found: "@
}

impl EditorError {
    /// The message shown for the error.
    pub fn message(&self) -> (r: String)
        ensures
            r@ == match self {
                EditorError::NotInstalled(e) => e@ + not_installed_suffix(),
                EditorError::LaunchFailed(m) => launch_failed_prefix() + m@,
                EditorError::PathNotFound(p) => path_not_found_prefix() + p@,
            },
    {
        match self {
            EditorError::NotInstalled(e) => {
                let mut s = e.clone();
                s.append(" is not installed or not in PATH");
                s
            },
            EditorError::LaunchFailed(m) => {
                let mut s = String::from_str("Failed to launch editor: ");
                s.append(m.as_str());
                s
            },
            EditorError::PathNotFound(p) => {
                let mut s = String::from_str("Path not found: ");
                s.append(p.as_str());
                s
            },
        }
    }
}

/// A program to start, with its arguments.
#[derive(Debug)]
pub struct Launch {
    pub program: String,
    pub args: Vec<String>,
}

/// A path to open, as text, and whether it exists.
#[derive(Debug)]
pub struct TargetPath {
    pub display: String,
    pub exists: bool,
}

/// What was found out about VS Code on this machine.
#[derive(Debug)]
pub struct VsCodeProbe {
    /// `code --version` ran and succeeded.
    pub code_on_path: bool,
    /// The default install location that exists, where the platform has
    /// one (see [`get_default_vscode_path`]).
    pub default_path: Option<String>,
}

/// The platform, which decides the program that opens files by default.
#[derive(Debug, Clone, Copy, PartialEq, Eq, Structural)]
pub enum Platform {
    Windows,
    MacOs,
    Linux,
    Other,
}

/// Preferred editor type.
#[derive(Debug, Clone, Copy, PartialEq, Eq, Structural)]
pub enum PreferredEditor {
    /// VS Code.
    VSCode,
    /// System default (file browser).
    SystemDefault,
}

/// A custom executable path that is given, not empty, and exists.
pub open spec fn custom_usable(custom_path: Option<&str>, custom_exists: bool) -> bool {
    match custom_path {
        Some(p) => p@.len() > 0 && custom_exists,
        None => false,
    }
}

/// VS Code is available at the custom path, through `code`, or at its
/// default install location.
pub open spec fn vscode_available(custom_path: Option<&str>, custom_exists: bool, probe: VsCodeProbe) -> bool {
    custom_usable(custom_path, custom_exists) || probe.code_on_path || probe.default_path is Some
}

pub open spec fn code_word() -> Seq<char> {
    "code"@
}

/// The command that starts VS Code: `code` when it runs, else the default
/// install location, else `code` all the same (and let it fail).
pub open spec fn vscode_command(probe: VsCodeProbe) -> Seq<char> {
    if probe.code_on_path {
        code_word()
    } else {
        match probe.default_path {
            Some(p) => p@,
            None => code_word(),
        }
    }
}

/// The launch that opens `path` with `program`.
pub open spec fn launches(l: Launch, program: Seq<char>, args: Seq<Seq<char>>) -> bool {
    &&& l.program@ == program
    &&& l.args@.len() == args.len()
    &&& forall|i: int| 0 <= i < args.len() ==> (#[trigger] l.args@[i])@ == args[i]
}

/// Whether VS Code is available, given an optional custom executable path
/// and whether a file exists there.
pub fn is_vscode_available(custom_path: Option<&str>, custom_exists: bool, probe: &VsCodeProbe) -> (r: bool)
    ensures
        r == vscode_available(custom_path, custom_exists, *probe),
{
    if let Some(p) = custom_path {
        if !p.is_empty() && custom_exists {
            return true;
        }
    }
    if probe.code_on_path {
        return true;
    }
    probe.default_path.is_some()
}

/// Whether VS Code is installed (without a custom path).
pub fn is_vscode_installed(probe: &VsCodeProbe) -> (r: bool)
    ensures
        r == (probe.code_on_path || probe.default_path is Some),
{
    is_vscode_available(None, false, probe)
}

/// The places VS Code is installed by default on Windows, given the
/// `LOCALAPPDATA` and `PROGRAMFILES` directories when they are set.
pub fn vscode_install_candidates(local_app_data: Option<&str>, program_files: Option<&str>) -> (r: Vec<String>)
    ensures
        r@.len() == (if local_app_data is Some { 1int } else { 0int }) + (if program_files is Some { 1int } else { 0int }),
        local_app_data matches Some(d) ==> r@[0]@ == d@ + "/Programs/Microsoft VS Code/Code.exe"@,
        program_files matches Some(d) ==> r@[r@.len() - 1]@ == d@ + "/Microsoft VS Code/Code.exe"@,
{
    let mut r: Vec<String> = Vec::new();
    if let Some(d) = local_app_data {
        let mut s = String::from_str(d);
        s.append("/Programs/Microsoft VS Code/Code.exe");
        r.push(s);
    }
    if let Some(d) = program_files {
        let mut s = String::from_str(d);
        s.append("/Microsoft VS Code/Code.exe");
        r.push(s);
    }
    r
}

/// The first candidate location that exists.
pub fn get_default_vscode_path(candidates: &Vec<(String, bool)>) -> (r: Option<String>)
    ensures
        match r {
            Some(p) => exists|i: int|
                0 <= i < candidates@.len() && (#[trigger] candidates@[i]).1 && candidates@[i].0@ == p@
                    && forall|j: int| 0 <= j < i ==> !(#[trigger] candidates@[j]).1,
            None => forall|i: int| 0 <= i < candidates@.len() ==> !(#[trigger] candidates@[i]).1,
        },
{
    let mut i: usize = 0;
    while i < candidates.len()
        invariant
            i <= candidates.len(),
            forall|j: int| 0 <= j < i ==> !(#[trigger] candidates@[j]).1,
        decreases candidates.len() - i,
    {
        if candidates[i].1 {
            let p = candidates[i].0.clone();
            assert(candidates@[i as int].1 && candidates@[i as int].0@ == p@);
            return Some(p);
        }
        i = i + 1;
    }
    None
}

fn get_vscode_command(probe: &VsCodeProbe) -> (r: String)
    ensures
        r@ == vscode_command(*probe),
{
    if probe.code_on_path {
        return String::from_str("code");
    }
    match &probe.default_path {
        Some(p) => p.clone(),
        None => String::from_str("code"),
    }
}

fn single(s: String) -> (r: Vec<String>)
    ensures
        r@.len() == 1,
        r@[0] == s,
{
    let mut v: Vec<String> = Vec::new();
    v.push(s);
    v
}

/// Opens `path` in VS Code, using the custom executable when it is given,
/// not empty and exists, else the `code` command or the default install.
pub fn open_in_vscode_with_custom_path(
    path: &TargetPath,
    vscode_path: Option<&str>,
    custom_exists: bool,
    probe: &VsCodeProbe,
) -> (r: Result<Launch, EditorError>)
    ensures
        !path.exists ==> (r matches Err(EditorError::PathNotFound(p)) && p@ == path.display@),
        path.exists ==> (r matches Ok(l) && launches(
            l,
            if custom_usable(vscode_path, custom_exists) {
                vscode_path->0@
            } else {
                vscode_command(*probe)
            },
            seq![path.display@],
        )),
{
    if !path.exists {
        return Err(EditorError::PathNotFound(path.display.clone()));
    }
    let mut program = get_vscode_command(probe);
    if let Some(custom) = vscode_path {
        if !custom.is_empty() && custom_exists {
            program = String::from_str(custom);
        }
    }
    Ok(Launch { program, args: single(path.display.clone()) })
}

/// Opens `path` in VS Code.
pub fn open_in_vscode(path: &TargetPath, probe: &VsCodeProbe) -> (r: Result<Launch, EditorError>)
    ensures
        !path.exists ==> (r matches Err(EditorError::PathNotFound(p)) && p@ == path.display@),
        path.exists ==> (r matches Ok(l) && launches(l, vscode_command(*probe), seq![path.display@])),
{
    open_in_vscode_with_custom_path(path, None, false, probe)
}

/// The program that opens files by default on a platform.
pub open spec fn default_opener(platform: Platform) -> Option<Seq<char>> {
    match platform {
        Platform::Windows => Some("explorer"@),
        Platform::MacOs => Some("open"@),
        Platform::Linux => Some("xdg-open"@),
        Platform::Other => None,
    }
}

/// Opens `path` with the system's default application: `explorer` on
/// Windows, `open` on macOS, `xdg-open` on Linux; elsewhere the launch
/// fails.
pub fn open_with_default(path: &TargetPath, platform: Platform) -> (r: Result<Launch, EditorError>)
    ensures
        !path.exists ==> (r matches Err(EditorError::PathNotFound(p)) && p@ == path.display@),
        path.exists ==> match default_opener(platform) {
            Some(program) => r matches Ok(l) && launches(l, program, seq![path.display@]),
            None => r matches Err(EditorError::LaunchFailed(m)) && m@ == "Platform not supported"@,
        },
{
    if !path.exists {
        return Err(EditorError::PathNotFound(path.display.clone()));
    }
    let program = match platform {
        Platform::Windows => String::from_str("explorer"),
        Platform::MacOs => String::from_str("open"),
        Platform::Linux => String::from_str("xdg-open"),
        Platform::Other => return Err(EditorError::LaunchFailed(String::from_str("Platform not supported"))),
    };
    Ok(Launch { program, args: single(path.display.clone()) })
}

/// Opens a file at a line in VS Code: `code -g <path>:<line>`.
pub fn open_file_at_line_vscode(path: &TargetPath, line: u32) -> (r: Result<Launch, EditorError>)
    ensures
        !path.exists ==> (r matches Err(EditorError::PathNotFound(p)) && p@ == path.display@),
        path.exists ==> (r matches Ok(l) && launches(
            l,
            code_word(),
            seq!["-g"@, path.display@ + seq![':'] + decimal(line as nat)],
        )),
{
    if !path.exists {
        return Err(EditorError::PathNotFound(path.display.clone()));
    }
    let mut arg = path.display.clone();
    arg.append(":");
    proof {
        reveal_strlit(":");
    }
    push_decimal(&mut arg, line as u64);
    let mut args: Vec<String> = Vec::new();
    args.push(String::from_str("-g"));
    args.push(arg);
    let l = Launch { program: String::from_str("code"), args };
    assert(l.args@[1]@ =~= path.display@ + seq![':'] + decimal(line as nat));
    Ok(l)
}

pub open spec fn editor_name(e: PreferredEditor) -> Seq<char> {
    match e {
        PreferredEditor::VSCode => "VS Code"@,
        PreferredEditor::SystemDefault => "File Browser"@,
    }
}

impl PreferredEditor {
    /// All editors, VS Code first.
    pub fn all() -> (r: Vec<PreferredEditor>)
        ensures
            r@ == seq![PreferredEditor::VSCode, PreferredEditor::SystemDefault],
    {
        let mut v: Vec<PreferredEditor> = Vec::new();
        v.push(PreferredEditor::VSCode);
        v.push(PreferredEditor::SystemDefault);
        assert(v@ =~= seq![PreferredEditor::VSCode, PreferredEditor::SystemDefault]);
        v
    }

    /// The name shown for the editor.
    pub fn display_name(&self) -> (r: &'static str)
        ensures
            r@ == editor_name(*self),
    {
        match self {
            PreferredEditor::VSCode => "VS Code",
            PreferredEditor::SystemDefault => "File Browser",
        }
    }

    /// Whether the editor can be used: VS Code when it is installed, the
    /// system default always.
    pub fn is_available(&self, probe: &VsCodeProbe) -> (r: bool)
        ensures
            r == match self {
                PreferredEditor::VSCode => probe.code_on_path || probe.default_path is Some,
                PreferredEditor::SystemDefault => true,
            },
    {
        match self {
            PreferredEditor::VSCode => is_vscode_installed(probe),
            PreferredEditor::SystemDefault => true,
        }
    }

    /// Opens `path` with this editor.
    pub fn open(&self, path: &TargetPath, probe: &VsCodeProbe, platform: Platform) -> (r: Result<Launch, EditorError>)
        ensures
            !path.exists ==> (r matches Err(EditorError::PathNotFound(p)) && p@ == path.display@),
            path.exists ==> match self {
                PreferredEditor::VSCode => r matches Ok(l) && launches(l, vscode_command(*probe), seq![path.display@]),
                PreferredEditor::SystemDefault => match default_opener(platform) {
                    Some(program) => r matches Ok(l) && launches(l, program, seq![path.display@]),
                    None => r matches Err(EditorError::LaunchFailed(m)) && m@ == "Platform not supported"@,
                },
            },
    {
        match self {
            PreferredEditor::VSCode => open_in_vscode(path, probe),
            PreferredEditor::SystemDefault => open_with_default(path, platform),
        }
    }
}

/// The best available editor: VS Code when installed, else the system
/// default.
pub fn detect_best_editor(probe: &VsCodeProbe) -> (r: PreferredEditor)
    ensures
        r == if probe.code_on_path || probe.default_path is Some {
            PreferredEditor::VSCode
        } else {
            PreferredEditor::SystemDefault
        },
{
    if is_vscode_installed(probe) {
        PreferredEditor::VSCode
    } else {
        PreferredEditor::SystemDefault
    }
}

} // verus!
