//! Native file dialogs: which dialog asks for what, the file filters each
//! one offers, and the options set for the next dialog.
use vstd::prelude::*;

verus! {

/// A file dialog of the editor.
#[derive(Debug, Clone, Copy, PartialEq, Eq, Structural)]
pub enum DialogType {
    Open,
    OpenSpritesheet,
    SaveAs,
    NewTilesetImage,
    AddImageToTileset,
    ParentDirectory,
    NewProject,
    VsCode,
    Icon,
}

/// What a dialog asks the user to choose.
#[derive(Debug, Clone, Copy, PartialEq, Eq, Structural)]
pub enum DialogKind {
    PickFile,
    SaveFile,
    PickFolder,
}

/// What a dialog asks for: a folder for the parent directory, a file to
/// save for Save As and New Project, else a file to open.
pub open spec fn kind_of(d: DialogType) -> DialogKind {
    match d {
        DialogType::SaveAs | DialogType::NewProject => DialogKind::SaveFile,
        DialogType::ParentDirectory => DialogKind::PickFolder,
        _ => DialogKind::PickFile,
    }
}

/// A file filter: its label and its extensions.
pub type FilterView = (Seq<char>, Seq<Seq<char>>);

pub open spec fn map_project_filters() -> Seq<FilterView> {
    seq![("Map Project"@, seq!["map.json"@, "json"@])]
}

pub open spec fn image_filters() -> Seq<FilterView> {
    seq![("Images"@, seq!["png"@, "jpg"@, "jpeg"@])]
}

pub open spec fn spritesheet_filters() -> Seq<FilterView> {
    seq![("Images"@, seq!["png"@, "jpg"@, "jpeg"@, "webp"@, "gif"@, "bmp"@])]
}

pub open spec fn executable_filters() -> Seq<FilterView> {
    seq![("Executable"@, seq!["exe"@])]
}

pub open spec fn icon_filters() -> Seq<FilterView> {
    seq![
        ("Image Files"@, seq!["png"@, "jpg"@, "jpeg"@, "bmp"@, "gif"@, "svg"@]),
        ("All Files"@, seq!["*"@]),
    ]
}

/// The filters a dialog offers.
pub open spec fn filters_of(d: DialogType) -> Seq<FilterView> {
    match d {
        DialogType::Open | DialogType::SaveAs | DialogType::NewProject => map_project_filters(),
        DialogType::NewTilesetImage | DialogType::AddImageToTileset => image_filters(),
        DialogType::OpenSpritesheet => spritesheet_filters(),
        DialogType::ParentDirectory => Seq::empty(),
        DialogType::VsCode => executable_filters(),
        DialogType::Icon => icon_filters(),
    }
}

/// The view of a filter list.
pub open spec fn filters_view(v: Seq<(String, Vec<String>)>) -> Seq<FilterView> {
    Seq::new(v.len(), |i: int| (v[i].0@, Seq::new(v[i].1@.len(), |j: int| v[i].1@[j]@)))
}

fn strings(items: &[&str]) -> (r: Vec<String>)
    ensures
        r@.len() == items@.len(),
        forall|j: int| 0 <= j < items@.len() ==> (#[trigger] r@[j])@ == items@[j]@,
{
    let mut out: Vec<String> = Vec::new();
    let mut i: usize = 0;
    while i < items.len()
        invariant
            i <= items@.len(),
            out@.len() == i,
            forall|j: int| 0 <= j < i ==> (#[trigger] out@[j])@ == items@[j]@,
        decreases items@.len() - i,
    {
        out.push(items[i].to_string());
        i = i + 1;
    }
    out
}

impl DialogType {
    /// What the dialog asks the user to choose.
    pub fn kind(self) -> (r: DialogKind)
        ensures
            r == kind_of(self),
    {
        match self {
            DialogType::SaveAs | DialogType::NewProject => DialogKind::SaveFile,
            DialogType::ParentDirectory => DialogKind::PickFolder,
            _ => DialogKind::PickFile,
        }
    }

    /// The file filters the dialog offers, in order.
    pub fn filter(self) -> (r: Vec<(String, Vec<String>)>)
        ensures
            filters_view(r@) == filters_of(self),
    {
        let mut out: Vec<(String, Vec<String>)> = Vec::new();
        match self {
            DialogType::Open | DialogType::SaveAs | DialogType::NewProject => {
                out.push(("Map Project".to_string(), strings(&["map.json", "json"])));
            },
            DialogType::NewTilesetImage | DialogType::AddImageToTileset => {
                out.push(("Images".to_string(), strings(&["png", "jpg", "jpeg"])));
            },
            DialogType::OpenSpritesheet => {
                out.push(("Images".to_string(), strings(&["png", "jpg", "jpeg", "webp", "gif", "bmp"])));
            },
            DialogType::ParentDirectory => {},
            DialogType::VsCode => {
                out.push(("Executable".to_string(), strings(&["exe"])));
            },
            DialogType::Icon => {
                out.push(("Image Files".to_string(), strings(&["png", "jpg", "jpeg", "bmp", "gif", "svg"])));
                out.push(("All Files".to_string(), strings(&["*"])));
            },
        }
        assert(filters_view(out@) =~~= filters_of(self));
        out
    }
}

/// The outcome of a dialog, as the panels see it.
#[derive(Debug, PartialEq, Eq)]
pub enum DialogStatus {
    /// A path was chosen.
    Success(String),
    /// The dialog is still open.
    Pending,
    /// The dialog was closed without a choice.
    Cancel,
}

/// The status for what the dialog gave back so far: nothing yet, a chosen
/// path, or none.
pub fn dialog_status(outcome: Option<Option<String>>) -> (r: DialogStatus)
    ensures
        match outcome {
            None => r == DialogStatus::Pending,
            Some(None) => r == DialogStatus::Cancel,
            Some(Some(p)) => r == DialogStatus::Success(p),
        },
{
    match outcome {
        None => DialogStatus::Pending,
        Some(None) => DialogStatus::Cancel,
        Some(Some(p)) => DialogStatus::Success(p),
    }
}

/// Options for the next dialog opened: each is used once.
#[derive(Debug)]
pub struct DialogOptions {
    pub directory: Option<String>,
    pub file_name: Option<String>,
    pub title: Option<String>,
}

impl DialogOptions {
    /// No options set.
    pub fn new() -> (r: Self)
        ensures
            r.directory is None,
            r.file_name is None,
            r.title is None,
    {
        DialogOptions { directory: None, file_name: None, title: None }
    }

    /// Sets the start directory of the next dialog.
    pub fn set_directory(&mut self, path: String)
        ensures
            final(self).directory == Some(path),
            final(self).file_name == old(self).file_name,
            final(self).title == old(self).title,
    {
        self.directory = Some(path);
    }

    /// Sets the file name proposed by the next dialog.
    pub fn set_file_name(&mut self, file_name: String)
        ensures
            final(self).file_name == Some(file_name),
            final(self).directory == old(self).directory,
            final(self).title == old(self).title,
    {
        self.file_name = Some(file_name);
    }

    /// Sets the title of the next dialog.
    pub fn set_title(&mut self, title: &str)
        ensures
            final(self).title matches Some(t) && t@ == title@,
            final(self).directory == old(self).directory,
            final(self).file_name == old(self).file_name,
    {
        self.title = Some(title.to_string());
    }

    /// The options for the dialog opened now; they are cleared.
    pub fn take(&mut self) -> (r: DialogOptions)
        ensures
            r.directory == old(self).directory,
            r.file_name == old(self).file_name,
            r.title == old(self).title,
            final(self).directory is None,
            final(self).file_name is None,
            final(self).title is None,
    {
        let directory = self.directory.take();
        let file_name = self.file_name.take();
        let title = self.title.take();
        DialogOptions { directory, file_name, title }
    }
}

} // verus!
