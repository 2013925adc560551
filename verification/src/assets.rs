//! The assets directory: turning picked files into paths relative to it,
//! choosing where it is, and planning copies of files into it.
use vstd::prelude::*;

use crate::project::opt_string_view;
use crate::ids::{is_v4_uuid, new_uuid, simple_text, uuid_simple_string};

verus! {

/// Error of asset path handling.
#[derive(Debug, Clone, PartialEq, Eq)]
pub enum PathError {
    /// No file exists at the path.
    FileNotFound(String),
    /// The file is outside the assets directory.
    OutsideAssetsDirectory(String),
    /// Copying the file failed.
    CopyFailed(String),
}

impl PathError {
    /// The error's message.
    pub fn message(&self) -> (r: String)
        ensures
            r@ == (match self {
                PathError::FileNotFound(p) => "File not found: "@ + p@,
                PathError::OutsideAssetsDirectory(p) => "File is outside assets directory: "@ + p@,
                PathError::CopyFailed(m) => "Failed to copy file: "@ + m@,
            }),
    {
        match self {
            PathError::FileNotFound(p) => {
                let mut s = "File not found: ".to_string();
                s.append(p.as_str());
                s
            },
            PathError::OutsideAssetsDirectory(p) => {
                let mut s = "File is outside assets directory: ".to_string();
                s.append(p.as_str());
                s
            },
            PathError::CopyFailed(m) => {
                let mut s = "Failed to copy file: ".to_string();
                s.append(m.as_str());
                s
            },
        }
    }
}

/// `s` with every backslash turned into a forward slash.
pub open spec fn forward_slashes(s: Seq<char>) -> Seq<char> {
    Seq::new(s.len(), |i: int| if s[i] == '\\' { '/' } else { s[i] })
}

/// Turns every backslash of `s` into a forward slash.
pub fn to_forward_slashes(s: &str) -> (r: String)
    ensures
        r@ == forward_slashes(s@),
{
    let n = s.unicode_len();
    let mut out = String::new();
    let mut i: usize = 0;
    while i < n
        invariant
            n == s@.len(),
            i <= n,
            out@ == forward_slashes(s@).subrange(0, i as int),
        decreases n - i,
    {
        proof {
            reveal_strlit("/");
        }
        let c = s.get_char(i);
        if c == '\\' {
            out.append("/");
        } else {
            out.append(s.substring_char(i, i + 1));
        }
        assert(out@ =~= forward_slashes(s@).subrange(0, i + 1));
        i = i + 1;
    }
    assert(forward_slashes(s@).subrange(0, n as int) =~= forward_slashes(s@));
    out
}

/// A base path whose components every platform reads alike: not empty, not
/// ending in `/`, without `\` or `:`, and not starting with `//`.
pub open spec fn plain_base(b: Seq<char>) -> bool {
    &&& b.len() > 0
    &&& b[b.len() - 1] != '/'
    &&& forall|i: int| 0 <= i < b.len() ==> #[trigger] b[i] != '\\' && b[i] != ':'
    &&& !(b.len() >= 2 && b[0] == '/' && b[1] == '/')
}

/// A relative path of normal components: not empty, its components
/// separated by single `/`, none of them `.` or `..`, without `\` or `:`,
/// and with no `/` at either end.
pub open spec fn plain_rest(r: Seq<char>) -> bool {
    &&& r.len() > 0
    &&& r[0] != '/'
    &&& r[r.len() - 1] != '/'
    &&& forall|i: int| 0 <= i < r.len() ==> #[trigger] r[i] != '\\' && r[i] != ':'
    &&& forall|i: int| 0 <= i < r.len() - 1 && #[trigger] r[i] == '/' ==> r[i + 1] != '/'
    &&& forall|i: int|
        0 <= i < r.len() && (i == 0 || r[i - 1] == '/') && #[trigger] r[i] == '.' ==> {
            &&& i + 1 < r.len()
            &&& r[i + 1] != '/'
            &&& !(r[i + 1] == '.' && (i + 2 == r.len() || r[i + 2] == '/'))
        }
}

/// What `Path::strip_prefix` may give for `path` and `base` (as text, None
/// for an error), as far as std documents it on every platform: a path
/// stripped of itself is empty, and a plain base followed by `/` and a plain
/// relative remainder leaves that remainder. Of other paths nothing is said.
pub open spec fn strip_admits(path: Seq<char>, base: Seq<char>, s: Option<Seq<char>>) -> bool {
    if path == base {
        s == Some(Seq::<char>::empty())
    } else if plain_base(base) && path.len() > base.len() + 1 && path.subrange(0, base.len() as int) == base
        && path[base.len() as int] == '/' && plain_rest(path.subrange(base.len() + 1int, path.len() as int)) {
        s == Some(path.subrange(base.len() + 1int, path.len() as int))
    } else {
        true
    }
}

/// `std::path::Path::strip_prefix`: `path` relative to `base`, or None
/// when `base` is not a prefix of it, as text.
///
/// Claimed: what std documents for every platform (see `strip_admits`): a
/// path stripped of itself is empty (a path starts with itself), and a base
/// followed by `/` and a remainder of normal components leaves the
/// remainder. Nothing else is claimed: how other paths split into
/// components depends on the platform.
#[verifier::external_body]
fn strip_path_prefix(path: &str, base: &str) -> (r: Option<String>)
    ensures
        strip_admits(path@, base@, opt_string_view(r)),
{
    match std::path::Path::new(path).strip_prefix(base) {
        Ok(rel) => Some(rel.to_string_lossy().to_string()),
        Err(_) => None,
    }
}

/// `r` is what resolving `absolute_path` gives when stripping the assets
/// directory gave `stripped`.
pub open spec fn relative_matches(r: Result<String, PathError>, absolute_path: Seq<char>, stripped: Option<
    Seq<char>,
>) -> bool {
    match stripped {
        Some(rel) => r matches Ok(p) && p@ == forward_slashes(rel),
        None => r matches Err(PathError::OutsideAssetsDirectory(p)) && p@ == absolute_path,
    }
}

/// The assets-relative path, with forward slashes, when the assets
/// directory could be stripped off the file's path (`stripped`); else the
/// error that the file is outside the assets directory.
pub fn relative_from_stripped(absolute_path: &str, stripped: Option<String>) -> (r: Result<String, PathError>)
    ensures
        match stripped {
            Some(rel) => r matches Ok(p) && p@ == forward_slashes(rel@),
            None => r matches Err(PathError::OutsideAssetsDirectory(p)) && p@ == absolute_path@,
        },
{
    match stripped {
        Some(rel) => Ok(to_forward_slashes(rel.as_str())),
        None => Err(PathError::OutsideAssetsDirectory(absolute_path.to_string())),
    }
}

/// The assets directory.
#[derive(Debug)]
pub struct AssetsBasePath(pub String);

impl AssetsBasePath {
    /// The assets directory at `path`.
    pub fn new(path: String) -> (r: Self)
        ensures
            r.0@ == path@,
    {
        AssetsBasePath(path)
    }

    /// The assets directory to compare against: its canonical form when
    /// known, else its path as given.
    pub open spec fn assets_dir(&self, canonical_assets: Option<String>) -> Seq<char> {
        match canonical_assets {
            Some(a) => a@,
            None => self.0@,
        }
    }

    /// The assets directory's path.
    pub fn path(&self) -> (r: &str)
        ensures
            r@ == self.0@,
    {
        self.0.as_str()
    }

    /// `absolute_path` relative to the assets directory, with forward
    /// slashes. `canonical_file` and `canonical_assets` are the canonical
    /// forms of the file's path and of the assets directory, None where the
    /// file system could not give one. No canonical file path means the file
    /// does not exist; without a canonical assets path its path as given
    /// is used.
    pub fn to_relative_checked(
        &self,
        absolute_path: &str,
        canonical_file: Option<String>,
        canonical_assets: Option<String>,
    ) -> (r: Result<String, PathError>)
        ensures
            canonical_file is None <==> (r matches Err(PathError::FileNotFound(p)) && p@ == absolute_path@),
            r matches Ok(p) ==> forall|i: int| 0 <= i < p@.len() ==> p@[i] != '\\',
            r matches Err(PathError::OutsideAssetsDirectory(p)) ==> p@ == absolute_path@,
            !(r matches Err(PathError::CopyFailed(_))),
            (canonical_file matches Some(f) && f@ == self.assets_dir(canonical_assets)) ==> (r matches Ok(p)
                && p@.len() == 0),
            canonical_file matches Some(f) ==> exists|s: Option<Seq<char>>|
                #[trigger] strip_admits(f@, self.assets_dir(canonical_assets), s) && relative_matches(
                    r,
                    absolute_path@,
                    s,
                ),
    {
        let file = match canonical_file {
            Some(f) => f,
            None => {
                return Err(PathError::FileNotFound(absolute_path.to_string()));
            },
        };
        let assets = match canonical_assets {
            Some(a) => a,
            None => self.0.clone(),
        };
        let stripped = strip_path_prefix(file.as_str(), assets.as_str());
        let ghost s = opt_string_view(stripped);
        let r = relative_from_stripped(absolute_path, stripped);
        assert(strip_admits(file@, self.assets_dir(canonical_assets), s) && relative_matches(r, absolute_path@, s));
        r
    }

    /// `absolute_path` relative to the assets directory, or `absolute_path`
    /// itself when it cannot be made relative.
    pub fn to_relative(
        &self,
        absolute_path: &str,
        canonical_file: Option<String>,
        canonical_assets: Option<String>,
    ) -> (r: String)
        ensures
            canonical_file is None ==> r@ == absolute_path@,
            (canonical_file matches Some(f) && f@ == self.assets_dir(canonical_assets)) ==> r@.len() == 0,
            canonical_file matches Some(f) ==> exists|s: Option<Seq<char>>|
                #[trigger] strip_admits(f@, self.assets_dir(canonical_assets), s) && r@ == match s {
                    Some(rel) => forward_slashes(rel),
                    None => absolute_path@,
                },
    {
        let ghost cf = canonical_file;
        let ghost dir = self.assets_dir(canonical_assets);
        let checked = self.to_relative_checked(absolute_path, canonical_file, canonical_assets);
        let r = match checked {
            Ok(p) => p,
            Err(_) => absolute_path.to_string(),
        };
        proof {
            if let Some(f) = cf {
                let s = choose|s: Option<Seq<char>>| #[trigger] strip_admits(f@, dir, s) && relative_matches(
                    checked,
                    absolute_path@,
                    s,
                );
                assert(strip_admits(f@, dir, s) && r@ == match s {
                    Some(rel) => forward_slashes(rel),
                    None => absolute_path@,
                });
            }
        }
        r
    }

    /// Whether `absolute_path` is inside the assets directory.
    pub fn is_inside_assets(
        &self,
        absolute_path: &str,
        canonical_file: Option<String>,
        canonical_assets: Option<String>,
    ) -> (r: bool)
        ensures
            canonical_file is None ==> !r,
            (canonical_file matches Some(f) && f@ == self.assets_dir(canonical_assets)) ==> r,
            canonical_file matches Some(f) ==> exists|s: Option<Seq<char>>|
                #[trigger] strip_admits(f@, self.assets_dir(canonical_assets), s) && r == (s is Some),
    {
        let ghost cf = canonical_file;
        let ghost dir = self.assets_dir(canonical_assets);
        let checked = self.to_relative_checked(absolute_path, canonical_file, canonical_assets);
        let r = match checked {
            Ok(_) => true,
            Err(_) => false,
        };
        proof {
            if let Some(f) = cf {
                let s = choose|s: Option<Seq<char>>| #[trigger] strip_admits(f@, dir, s) && relative_matches(
                    checked,
                    absolute_path@,
                    s,
                );
                assert(strip_admits(f@, dir, s) && r == (s is Some));
            }
        }
        r
    }
}

/// What the environment says of the places the assets directory may be.
#[derive(Debug)]
pub struct AssetsPathProbe {
    /// `BEVY_ASSET_ROOT` when it is set, and whether that directory exists.
    pub asset_root: Option<(String, bool)>,
    /// `CARGO_MANIFEST_DIR` joined with `assets` when the variable is set,
    /// and whether that directory exists.
    pub manifest_assets: Option<(String, bool)>,
    /// The current directory joined with `assets`, when the current
    /// directory is known.
    pub cwd_assets: Option<String>,
}

/// The assets directory chosen: the custom path when set; else
/// `BEVY_ASSET_ROOT` when it exists; else the manifest directory's `assets`
/// when it exists; else the current directory's `assets`; else `assets`.
pub open spec fn chosen_assets_path(custom: Option<Seq<char>>, probe: AssetsPathProbe) -> Seq<char> {
    match custom {
        Some(p) => p,
        None => match probe.asset_root {
            Some((p, true)) => p@,
            _ => match probe.manifest_assets {
                Some((p, true)) => p@,
                _ => match probe.cwd_assets {
                    Some(p) => p@,
                    None => "assets"@,
                },
            },
        },
    }
}

/// The editor plugin, with an optional custom assets directory.
#[derive(Debug)]
pub struct EditorPlugin {
    /// Custom assets path; None: detect it.
    pub assets_path: Option<String>,
}

impl Default for EditorPlugin {
    fn default() -> (r: Self)
        ensures
            r.assets_path is None,
    {
        EditorPlugin { assets_path: None }
    }
}

impl EditorPlugin {
    /// An editor plugin that detects the assets directory.
    pub fn new() -> (r: Self)
        ensures
            r.assets_path is None,
    {
        EditorPlugin { assets_path: None }
    }

    /// The plugin with the assets directory set to `path`.
    pub fn with_assets_path(self, path: String) -> (r: Self)
        ensures
            r.assets_path matches Some(p) && p@ == path@,
    {
        let mut plugin = self;
        plugin.assets_path = Some(path);
        plugin
    }

    /// The assets directory the plugin uses, given what the environment says
    /// of the candidates.
    pub fn detect_assets_path(&self, probe: &AssetsPathProbe) -> (r: String)
        ensures
            r@ == chosen_assets_path(
                match self.assets_path {
                    Some(p) => Some(p@),
                    None => None,
                },
                *probe,
            ),
    {
        if let Some(p) = &self.assets_path {
            return p.clone();
        }
        if let Some((p, exists)) = &probe.asset_root {
            if *exists {
                return p.clone();
            }
        }
        if let Some((p, exists)) = &probe.manifest_assets {
            if *exists {
                return p.clone();
            }
        }
        match &probe.cwd_assets {
            Some(p) => p.clone(),
            None => "assets".to_string(),
        }
    }
}

/// Where a file copied into the assets directory goes.
#[derive(Debug, PartialEq, Eq)]
pub enum CopyPlan {
    /// The file is already there: use this assets-relative path.
    UseExisting(String),
    /// Copy the file to `tiles/` under this name; its assets-relative path
    /// is `relative`.
    CopyTo { file_name: String, relative: String },
}

/// The name a copy takes when another file holds its name: stem, `_`, a
/// unique text, `.`, extension.
pub open spec fn unique_copy_name(stem: Seq<char>, unique: Seq<char>, ext: Seq<char>) -> Seq<char> {
    stem + "_"@ + unique + "."@ + ext
}

/// Plans copying a file named `file_name` (None when the path has none)
/// into `tiles/` of the assets directory. `dest_exists`: a file of that name
/// is there; `same_file`: it is the very file. `stem` and `ext` are the
/// file's stem and extension; `unique` makes a new name.
pub fn plan_copy_with(
    file_name: Option<&str>,
    dest_exists: bool,
    same_file: bool,
    stem: &str,
    ext: &str,
    unique: &str,
) -> (r: Result<CopyPlan, PathError>)
    ensures
        match file_name {
            None => r matches Err(PathError::CopyFailed(m)) && m@ == "Invalid filename"@,
            Some(f) => if dest_exists && same_file {
                r matches Ok(CopyPlan::UseExisting(p)) && p@ == "tiles/"@ + f@
            } else if dest_exists {
                r matches Ok(CopyPlan::CopyTo { file_name: n, relative: p })
                    && n@ == unique_copy_name(stem@, unique@, ext@) && p@ == "tiles/"@ + n@
            } else {
                r matches Ok(CopyPlan::CopyTo { file_name: n, relative: p }) && n@ == f@ && p@
                    == "tiles/"@ + f@
            },
        },
{
    let f = match file_name {
        Some(f) => f,
        None => {
            return Err(PathError::CopyFailed("Invalid filename".to_string()));
        },
    };
    if dest_exists && same_file {
        let mut p = "tiles/".to_string();
        p.append(f);
        return Ok(CopyPlan::UseExisting(p));
    }
    let name = if dest_exists {
        let mut n = stem.to_string();
        n.append("_");
        n.append(unique);
        n.append(".");
        n.append(ext);
        n
    } else {
        f.to_string()
    };
    let mut p = "tiles/".to_string();
    p.append(name.as_str());
    Ok(CopyPlan::CopyTo { file_name: name, relative: p })
}

/// Plans copying a file into `tiles/` of the assets directory as
/// `plan_copy_with` does, making a new name, when one is needed, from the
/// simple form of a fresh random UUID.
pub fn plan_copy(file_name: Option<&str>, dest_exists: bool, same_file: bool, stem: &str, ext: &str) -> (r: Result<
    CopyPlan,
    PathError,
>)
    ensures
        match file_name {
            None => r matches Err(PathError::CopyFailed(m)) && m@ == "Invalid filename"@,
            Some(f) => if dest_exists && same_file {
                r matches Ok(CopyPlan::UseExisting(p)) && p@ == "tiles/"@ + f@
            } else if dest_exists {
                r matches Ok(CopyPlan::CopyTo { file_name: n, relative: p }) && (exists|id: u128|
                    is_v4_uuid(id) && n@ == unique_copy_name(stem@, simple_text(id), ext@)) && p@ == "tiles/"@
                    + n@
            } else {
                r matches Ok(CopyPlan::CopyTo { file_name: n, relative: p }) && n@ == f@ && p@
                    == "tiles/"@ + f@
            },
        },
{
    if file_name.is_some() && dest_exists && !same_file {
        let id = new_uuid();
        let unique = uuid_simple_string(id);
        let r = plan_copy_with(file_name, dest_exists, same_file, stem, ext, unique.as_str());
        assert(is_v4_uuid(id) && unique@ == simple_text(id));
        r
    } else {
        plan_copy_with(file_name, dest_exists, same_file, stem, ext, "")
    }
}

} // verus!
