//! What the library asks of a path: what its last component is called,
//! which extension that name carries, and how two paths compare.

use vstd::prelude::*;

verus! {

/// The text of a string that may be missing.
pub open spec fn option_text(text: Option<String>) -> Option<Seq<char>> {
    match text {
        Some(text) => Some(text@),
        None => None,
    }
}

/// The name of the last component of a path, as `Path::file_name` of std
/// gives it on the platform that the library is built for; nothing where
/// the path ends in `..` or has no component.
pub uninterp spec fn file_name_of(path: Seq<char>) -> Option<Seq<char>>;

/// The position of the last dot in `name`, or -1 where it holds none.
pub open spec fn last_dot(name: Seq<char>) -> int
    decreases name.len(),
{
    if name.len() == 0 {
        -1
    } else if name.last() == '.' {
        name.len() - 1
    } else {
        last_dot(name.drop_last())
    }
}

/// The extension that a file name carries: what follows its last dot.
/// There is none where there is no name, where the name holds no dot, and
/// where its only dot is its first character.
pub open spec fn extension_of_name(name: Option<Seq<char>>) -> Option<Seq<char>> {
    match name {
        None => None,
        Some(name) => if last_dot(name) <= 0 {
            None
        } else {
            Some(name.skip(last_dot(name) + 1))
        },
    }
}

/// The extension of the last component of a path.
pub open spec fn extension_of(path: Seq<char>) -> Option<Seq<char>> {
    extension_of_name(file_name_of(path))
}

/// `Path::file_name` of std, on a path given as text and with the name
/// handed back as text. The name depends on the path alone.
#[verifier::external_body]
pub(crate) fn file_name(path: &str) -> (name: Option<String>)
    ensures
        option_text(name) == file_name_of(path@),
{
    match std::path::Path::new(path).file_name() {
        Some(name) => Some(name.to_string_lossy().into_owned()),
        None => None,
    }
}

/// `Path::extension` of std, on a path given as text. Its documentation
/// describes the extension by the file name: none without a name, none
/// without a dot in the name, none where the name begins with its only dot,
/// otherwise what follows the last dot.
#[verifier::external_body]
pub(crate) fn extension(path: &str) -> (ext: Option<String>)
    ensures
        option_text(ext) == extension_of(path@),
{
    match std::path::Path::new(path).extension() {
        Some(ext) => Some(ext.to_string_lossy().into_owned()),
        None => None,
    }
}

/// Whether two paths are equal as `Path` of std compares them: component by
/// component, on the platform that the library is built for.
pub uninterp spec fn same_path(a: Seq<char>, b: Seq<char>) -> bool;

/// Whether the first path comes before the second in the order of `Path` of
/// std, which compares the components one by one.
pub uninterp spec fn path_before(a: Seq<char>, b: Seq<char>) -> bool;

/// `==` of `Path` of std, on paths given as text. The answer depends on the
/// two paths alone.
#[verifier::external_body]
pub(crate) fn paths_equal(a: &str, b: &str) -> (r: bool)
    ensures
        r == same_path(a@, b@),
{
    std::path::Path::new(a) == std::path::Path::new(b)
}

/// `<` of `Path` of std, on paths given as text. The answer depends on the
/// two paths alone.
#[verifier::external_body]
pub(crate) fn path_precedes(a: &str, b: &str) -> (r: bool)
    ensures
        r == path_before(a@, b@),
{
    std::path::Path::new(a) < std::path::Path::new(b)
}

} // verus!
