//! Display names for buffers, relative to the working directory.

use vstd::prelude::*;

verus! {

/// What [`std::path::Path::strip_prefix`] makes of `path` and `base`, both
/// taken as paths in the syntax of the platform the library is built for:
/// the rest of `path` behind the components of `base`, or `None` where
/// `base` is not a leading run of `path`'s components.
pub uninterp spec fn path_strip_prefix(path: Seq<char>, base: Seq<char>) -> Option<Seq<char>>;

/// The characters of an optional string slice.
pub open spec fn text_of(text: Option<&str>) -> Option<Seq<char>> {
    match text {
        Some(t) => Some(t@),
        None => None,
    }
}

/// Calls `Path::strip_prefix` on `path` with `base`. The claim is only
/// that the outcome is the one [`path_strip_prefix`] names: a function of
/// the two strings. A path that came from a `&str` is valid UTF-8, and so
/// is every part of it, so the way back to `&str` loses nothing.
#[verifier::external_body]
fn strip_prefix<'a>(path: &'a str, base: &str) -> (rest: Option<&'a str>)
    ensures
        text_of(rest) == path_strip_prefix(path@, base@),
{
    std::path::Path::new(path).strip_prefix(base).ok().and_then(|p| p.to_str())
}

/// The label for a buffer at `path`, given what stripping the working
/// directory from the path yielded.
pub open spec fn label_from(path: Seq<char>, relative: Option<Seq<char>>) -> Seq<char> {
    if path.len() == 0 {
        "[No Name]"@
    } else {
        match relative {
            Some(rest) => rest,
            None => path,
        }
    }
}

/// The label shown for a buffer at `path` while the working directory is
/// `cwd`: a fixed placeholder for an unnamed buffer, the path relative to
/// `cwd` where it lies below it, and the path itself otherwise.
pub open spec fn buffer_label(path: Seq<char>, cwd: Seq<char>) -> Seq<char> {
    label_from(path, path_strip_prefix(path, cwd))
}

/// Picks the label for `filename` once the attempt to make it relative
/// has been made: `relative` is the outcome of that attempt.
pub fn buffer_name_from(filename: &str, relative: Option<&str>) -> (name: String)
    ensures
        name@ == label_from(filename@, text_of(relative)),
{
    if filename.is_empty() {
        "[No Name]".to_owned()
    } else {
        match relative {
            Some(rest) => rest.to_owned(),
            None => filename.to_owned(),
        }
    }
}

/// Returns a meaningful name for a buffer.
pub fn get_buffer_name(filename: &str, cwd: &str) -> (name: String)
    ensures
        name@ == buffer_label(filename@, cwd@),
{
    let relative = if filename.is_empty() {
        None
    } else {
        strip_prefix(filename, cwd)
    };
    let name = buffer_name_from(filename, relative);
    name
}

} // verus!
