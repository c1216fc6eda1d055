//! File-system paths, handled as strings through `std::path`, and the home
//! directory through `dirs`.

use vstd::prelude::*;

verus! {

/// The path that `Path::join` builds from `base` and `rest`.
pub uninterp spec fn path_join(base: Seq<char>, rest: Seq<char>) -> Seq<char>;

/// What `Path::parent` gives for `p`: the path without its final component,
/// or nothing when `p` ends in a root or is empty.
pub uninterp spec fn path_parent(p: Seq<char>) -> Option<Seq<char>>;

/// What `Path::strip_prefix` gives for `p` and `base`: the rest of `p` below
/// `base`, or nothing when `base` is not a prefix of `p` component-wise.
pub uninterp spec fn path_strip_prefix(p: Seq<char>, base: Seq<char>) -> Option<Seq<char>>;

/// `Path::join`: `rest` appended to `base` as a path (an absolute `rest`
/// replaces `base`). The result is named, not described.
#[verifier::external_body]
pub(crate) fn join_path(base: &str, rest: &str) -> (r: String)
    ensures
        r@ == path_join(base@, rest@),
{
    std::path::Path::new(base).join(rest).to_string_lossy().into_owned()
}

/// `Path::parent` of `p`, as a string. The result is named, not described.
#[verifier::external_body]
pub(crate) fn parent_of(p: &str) -> (r: Option<String>)
    ensures
        match r {
            Some(d) => path_parent(p@) == Some(d@),
            None => path_parent(p@) is None,
        },
{
    std::path::Path::new(p).parent().map(|d| d.to_string_lossy().into_owned())
}

/// `Path::strip_prefix` of `p` by `base`, as a string; the error case
/// becomes `None`. The result is named, not described.
#[verifier::external_body]
pub(crate) fn strip_prefix_of(p: &str, base: &str) -> (r: Option<String>)
    ensures
        match r {
            Some(rest) => path_strip_prefix(p@, base@) == Some(rest@),
            None => path_strip_prefix(p@, base@) is None,
        },
{
    std::path::Path::new(p).strip_prefix(base).ok().map(|rest| rest.to_string_lossy().into_owned())
}

/// `dirs::home_dir`: the current user's home directory, if one can be found,
/// as a string (a home path that is not valid UTF-8 is converted lossily).
/// Nothing is claimed of it: it depends on the environment and the machine.
#[verifier::external_body]
pub(crate) fn home_dir() -> Option<String> {
    dirs::home_dir().map(|h| h.to_string_lossy().into_owned())
}

} // verus!
