use vstd::prelude::*;

verus! {

/// `std::path::Path::parent` of the path `p`: none for a root or empty path.
pub uninterp spec fn path_parent_of(p: Seq<char>) -> Option<Seq<char>>;

/// `std::path::Path::join`: `rel` appended to `base` with a separator as needed
/// (or `rel` itself when it is absolute).
pub uninterp spec fn path_joined(base: Seq<char>, rel: Seq<char>) -> Seq<char>;

/// `std::path::Path::strip_prefix`: what remains of `p` after the leading
/// components that make up `base`, or none when `base` is not a prefix of `p`.
pub uninterp spec fn path_stripped(p: Seq<char>, base: Seq<char>) -> Option<Seq<char>>;

/// `Path::parent`, as text.
#[verifier::external_body]
pub(crate) fn path_parent(p: &str) -> (parent: Option<String>)
    ensures
        parent.deep_view() == path_parent_of(p@),
{
    std::path::Path::new(p).parent().map(|d| d.to_string_lossy().into_owned())
}

/// `Path::join`, as text.
#[verifier::external_body]
pub(crate) fn path_join(base: &str, rel: &str) -> (joined: String)
    ensures
        joined@ == path_joined(base@, rel@),
{
    std::path::Path::new(base).join(rel).to_string_lossy().into_owned()
}

/// `Path::strip_prefix`, as text.
#[verifier::external_body]
pub(crate) fn path_strip_prefix(p: &str, base: &str) -> (rest: Option<String>)
    ensures
        rest.deep_view() == path_stripped(p@, base@),
{
    std::path::Path::new(p).strip_prefix(base).ok().map(|r| r.to_string_lossy().into_owned())
}

/// `Path::is_file`: whether a regular file is found at `p` now. The answer
/// depends on the disk, so nothing is stated of it.
#[verifier::external_body]
pub(crate) fn path_is_file(p: &str) -> bool {
    std::path::Path::new(p).is_file()
}

/// `Path::exists`: whether anything is found at `p` now. The answer depends on
/// the disk, so nothing is stated of it.
#[verifier::external_body]
pub(crate) fn path_exists(p: &str) -> bool {
    std::path::Path::new(p).exists()
}

} // verus!
