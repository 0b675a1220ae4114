//! File-system path pieces (`std::path::Path`). How a path splits into
//! components depends on the platform's path syntax. What is promised here
//! holds on every platform, and only for portable paths: those that `/`
//! alone separates (see `portable`). Other paths get nothing stated; the
//! functions that use these results take them as arguments where their
//! contracts need more.
use vstd::prelude::*;
use crate::text;

verus! {

/// The text after the last `c` (all of it when there is none).
pub open spec fn after_last(s: Seq<char>, c: char) -> Seq<char>
    decreases s.len(),
{
    if s.len() == 0 {
        s
    } else if s.last() == c {
        Seq::empty()
    } else {
        after_last(s.drop_last(), c).push(s.last())
    }
}

/// A path that every platform splits the same way: no `\`, no `:`, and
/// not starting with `//`. Its components are its `/`-separated parts;
/// empty parts and `.` parts after the first are left out.
pub open spec fn portable(path: Seq<char>) -> bool {
    !text::contains_char(path, '\\') && !text::contains_char(path, ':') && !text::starts_with(path, "//"@)
}

/// The last `/`-separated part of the path that is neither empty nor `.`.
pub open spec fn last_named_segment(path: Seq<char>) -> Option<Seq<char>>
    decreases path.len(),
{
    let n = after_last(path, '/');
    if n.len() > 0 && n != "."@ {
        Some(n)
    } else if n.len() < path.len() {
        last_named_segment(path.take(path.len() - n.len() - 1))
    } else {
        None
    }
}

/// The file name of a portable path (`Path::file_name`): its last part that
/// is neither empty nor `.`, unless that is `..` or there is none. Other
/// paths get none here (which says nothing of what `Path` makes of them).
pub open spec fn plain_file_name(path: Seq<char>) -> Option<Seq<char>> {
    if portable(path) {
        match last_named_segment(path) {
            Some(n) => if n != ".."@ {
                Some(n)
            } else {
                None
            },
            None => None,
        }
    } else {
        None
    }
}

/// The file stem of a portable path (`Path::file_stem`): the stem of its
/// file name, none when it has no file name.
pub open spec fn plain_stem(path: Seq<char>) -> Option<Seq<char>> {
    match plain_file_name(path) {
        Some(n) => Some(stem_of_name(n)),
        None => None,
    }
}

/// The name after the last `/` of a portable path, when that is a normal
/// component (not empty, `.` or `..`).
pub open spec fn simple_last(path: Seq<char>) -> Option<Seq<char>> {
    let n = after_last(path, '/');
    if portable(path) && n.len() > 0 && n != "."@ && n != ".."@ {
        Some(n)
    } else {
        None
    }
}

/// The parent of a portable path whose last part is a normal component
/// (`Path::parent`): empty for a one-part path, else the text before the
/// last `/` when that itself ends in a part that is neither empty nor `.`.
/// Other paths get none here.
pub open spec fn plain_parent(path: Seq<char>) -> Option<Seq<char>> {
    match simple_last(path) {
        Some(n) => if n.len() == path.len() {
            Some(Seq::empty())
        } else {
            let d = path.take(path.len() - n.len() - 1);
            let m = after_last(d, '/');
            if m.len() > 0 && m != "."@ {
                Some(d)
            } else {
                None
            }
        },
        None => None,
    }
}

/// A portable path whose last part is a normal component, with that
/// part's extension replaced by `html` (`Path::with_extension("html")`):
/// the stem of the name and `.html` in place of the name.
pub open spec fn html_path(path: Seq<char>) -> Option<Seq<char>> {
    match simple_last(path) {
        Some(n) => Some(path.take(path.len() - n.len()) + stem_of_name(n) + ".html"@),
        None => None,
    }
}

/// The index of the last `.` of a name.
pub open spec fn last_dot(n: Seq<char>) -> Option<int>
    decreases n.len(),
{
    if n.len() == 0 {
        None
    } else if n.last() == '.' {
        Some(n.len() - 1)
    } else {
        last_dot(n.drop_last())
    }
}

/// The stem of a file name (`Path::file_stem`): the whole name when it has
/// no `.` or only a leading one, else the part before its last `.`.
pub open spec fn stem_of_name(n: Seq<char>) -> Seq<char> {
    match last_dot(n) {
        Some(d) => if d == 0 {
            n
        } else {
            n.take(d)
        },
        None => n,
    }
}

/// An optional string as characters.
pub open spec fn opt_chars(o: Option<String>) -> Option<Seq<char>> {
    match o {
        Some(s) => Some(s@),
        None => None,
    }
}

/// `Path::file_name`, as a string: the last component of the path, unless
/// that is `..` or there is none. For a portable path that is
/// `plain_file_name`; for other paths the platform's path syntax decides,
/// which no clause states.
#[verifier::external_body]
pub(crate) fn file_name_of(path: &str) -> (res: Option<String>)
    ensures
        portable(path@) ==> opt_chars(res) == plain_file_name(path@),
{
    std::path::Path::new(path).file_name().map(|n| n.to_string_lossy().into_owned())
}

/// `Path::file_stem`, as a string: the file name without its last
/// extension. For a portable path that is `plain_stem`; for other paths the
/// platform's path syntax decides, which no clause states.
#[verifier::external_body]
pub(crate) fn file_stem_of(path: &str) -> (res: Option<String>)
    ensures
        portable(path@) ==> opt_chars(res) == plain_stem(path@),
{
    std::path::Path::new(path).file_stem().map(|n| n.to_string_lossy().into_owned())
}

/// `Path::parent`, as a string: the path without its last component. For
/// the paths that `plain_parent` covers, that is its value; for other paths
/// the platform's path syntax decides, which no clause states.
#[verifier::external_body]
pub(crate) fn parent_of(path: &str) -> (res: Option<String>)
    ensures
        plain_parent(path@) is Some ==> opt_chars(res) == plain_parent(path@),
{
    std::path::Path::new(path).parent().map(|p| p.to_string_lossy().into_owned())
}

/// `Path::with_extension("html")`, as a string: the path with the extension
/// of its file name set to `html`. For the paths that `html_path` covers,
/// that is its value; for other paths the platform's path syntax decides,
/// which no clause states.
#[verifier::external_body]
pub(crate) fn with_html_extension_of(path: &str) -> (res: String)
    ensures
        html_path(path@) is Some ==> res@ == html_path(path@)->0,
{
    std::path::Path::new(path).with_extension("html").to_string_lossy().into_owned()
}

} // verus!
