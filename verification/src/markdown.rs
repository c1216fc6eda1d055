//! Embedding a saved screenshot in a Markdown file.

use vstd::prelude::*;
use crate::clock::{format_time, local_now, timestamp_shape};
use crate::paths::{parent_of, path_parent, path_strip_prefix, strip_prefix_of};

verus! {

/// The first line of a Markdown file that CapDrop creates.
pub open spec fn markdown_header_spec() -> Seq<char> {
    "# CapDrop Screenshots\n\n"@
}

/// The text a new Markdown file starts with.
pub fn markdown_header() -> (s: &'static str)
    ensures
        s@ == markdown_header_spec(),
{
    "# CapDrop Screenshots\n\n"
}

/// The path of `to` relative to the folder of the file `from` when `to`
/// lies below that folder, else `to` itself.
pub open spec fn relative_path_spec(from: Seq<char>, to: Seq<char>) -> Seq<char> {
    match path_parent(from) {
        Some(dir) => match path_strip_prefix(to, dir) {
            Some(rel) => rel,
            None => to,
        },
        None => to,
    }
}

/// Computes the relative path from the Markdown file's folder to the image.
pub fn compute_relative_path(from: &str, to: &str) -> (r: String)
    ensures
        r@ == relative_path_spec(from@, to@),
{
    match parent_of(from) {
        Some(dir) => match strip_prefix_of(to, dir.as_str()) {
            Some(rel) => rel,
            None => String::from_str(to),
        },
        None => String::from_str(to),
    }
}

/// The Markdown image reference `![alt](path)` followed by a blank line.
pub open spec fn image_line_spec(alt: Seq<char>, path: Seq<char>) -> Seq<char> {
    "!["@ + alt + "]("@ + path + ")\n\n"@
}

/// The text appended to the Markdown file `md_path` for the image at
/// `image_path`: a reference to the image by its path relative to the
/// Markdown file, with the given alternative text or, without one,
/// `CapDrop_{timestamp}`: `CapDrop_` and the local time as `%Y%m%d_%H%M%S`.
pub fn markdown_image_line(md_path: &str, image_path: &str, alt_text: Option<&str>) -> (line:
    String)
    ensures
        match alt_text {
            Some(a) => line@ == image_line_spec(a@, relative_path_spec(md_path@, image_path@)),
            None => exists|clock: Seq<char>|
                timestamp_shape(clock) && line@ == image_line_spec(
                    "CapDrop_"@ + clock,
                    relative_path_spec(md_path@, image_path@),
                ),
        },
{
    let rel = compute_relative_path(md_path, image_path);
    let ghost mut stamp: Seq<char> = Seq::empty();
    let alt = match alt_text {
        Some(a) => String::from_str(a),
        None => {
            let now = local_now();
            let clock = format_time(&now, "%Y%m%d_%H%M%S");
            proof {
                stamp = clock@;
            }
            let mut a = String::from_str("CapDrop_");
            a.append(clock.as_str());
            a
        },
    };
    let mut line = String::from_str("![");
    line.append(alt.as_str());
    line.append("](");
    line.append(rel.as_str());
    line.append(")\n\n");
    assert(alt_text is None ==> line@ == image_line_spec(
        "CapDrop_"@ + stamp,
        relative_path_spec(md_path@, image_path@),
    ));
    line
}

} // verus!
