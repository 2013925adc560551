//! Joining file system paths.
use vstd::prelude::*;

verus! {

/// A parent path that every platform extends alike: not empty, not ending
/// in `/` or `\\`, not starting with `\\`, and not a bare drive such as `C:`.
pub open spec fn plain_parent(p: Seq<char>) -> bool {
    &&& p.len() > 0
    &&& p[p.len() - 1] != '/'
    &&& p[p.len() - 1] != '\\'
    &&& p[0] != '\\'
    &&& !(p.len() == 2 && p[1] == ':')
}

/// A relative name: not empty, not starting with `/` or `\\`, without `:`.
pub open spec fn relative_name(n: Seq<char>) -> bool {
    &&& n.len() > 0
    &&& n[0] != '/'
    &&& n[0] != '\\'
    &&& forall|i: int| 0 <= i < n.len() ==> #[trigger] n[i] != ':'
}

/// What `Path::join` may give for `parent` and `name` (as text), as far as
/// std documents it on every platform: a plain parent and a relative name
/// give the parent, one separator (`/`, or `\\` on Windows) and the name. Of
/// other paths nothing is said.
pub open spec fn join_admits(parent: Seq<char>, name: Seq<char>, r: Seq<char>) -> bool {
    (plain_parent(parent) && relative_name(name)) ==> (r == parent + seq!['/'] + name || r == parent
        + seq!['\\'] + name)
}

/// `std::path::Path::join` of `name` onto `parent`, as text.
///
/// Claimed: what std documents for every platform (see `join_admits`): a
/// relative name is added to a parent that does not end in a separator
/// after one separator. Nothing else is claimed: the separator and the
/// handling of absolute names and prefixes depend on the platform.
#[verifier::external_body]
pub(crate) fn join_path(parent: &str, name: &str) -> (r: String)
    ensures
        join_admits(parent@, name@, r@),
{
    std::path::Path::new(parent).join(name).to_string_lossy().to_string()
}

} // verus!
