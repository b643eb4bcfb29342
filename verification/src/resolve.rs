//! Names of modules and of the files that hold them.

use vstd::prelude::*;
use vstd::string::*;

verus! {

/// Whether `text` starts with `prefix`.
pub open spec fn starts_with(text: Seq<char>, prefix: Seq<char>) -> bool {
    prefix.len() <= text.len() && text.subrange(0, prefix.len() as int) == prefix
}

/// Whether `text` ends with `suffix`.
pub open spec fn ends_with(text: Seq<char>, suffix: Seq<char>) -> bool {
    suffix.len() <= text.len() && text.subrange(text.len() - suffix.len(), text.len() as int) == suffix
}

/// The prefix `\\?\` that a canonical path has on some systems.
pub open spec fn verbatim() -> Seq<char> {
    seq!['\\', '\\', '?', '\\']
}

/// The extension `.flyc` of a source file.
pub open spec fn extension() -> Seq<char> {
    seq!['.', 'f', 'l', 'y', 'c']
}

/// The path without the prefix `\\?\`, if it has one.
pub fn strip_verbatim(abs: &str) -> (r: &str)
    ensures
        r@ == if starts_with(abs@, verbatim()) {
            abs@.subrange(4, abs@.len() as int)
        } else {
            abs@
        },
{
    let len = abs.unicode_len();
    if len >= 4 && abs.get_char(0) == '\\' && abs.get_char(1) == '\\' && abs.get_char(2) == '?'
        && abs.get_char(3) == '\\' {
        assert(abs@.subrange(0, 4) =~= verbatim());
        abs.substring_char(4, len)
    } else {
        assert(!starts_with(abs@, verbatim())) by {
            if starts_with(abs@, verbatim()) {
                let head = abs@.subrange(0, 4);
                assert(head[0] == '\\' && head[1] == '\\' && head[2] == '?' && head[3] == '\\');
            }
        }
        abs
    }
}

/// `diff_paths` of the crate `pathdiff`: the path that leads from the directory `base` to
/// `path`, or `None` where there is none. What makes a path absolute, and what separates
/// the parts of a path, depends on the system, so nothing is claimed of the result.
#[verifier::external_body]
fn path_from(path: &str, base: &str) -> (r: Option<String>) {
    pathdiff::diff_paths(path, base).map(|p| p.to_string_lossy().into_owned())
}

/// The path `abs` as it is reached from the directory `base`, for display: the prefix
/// `\\?\` of `abs` is dropped first. `None` where no path leads from `base` to `abs`. The
/// rules of the system for paths decide the result.
pub fn get_debug_name(abs: &str, base: &str) -> (r: Option<String>) {
    path_from(strip_verbatim(abs), base)
}

/// The name of the file that holds the module `name`: the name itself if it ends with
/// `.flyc`, and the name with `.flyc` behind it otherwise.
pub fn module_file_name(name: &str) -> (r: String)
    ensures
        r@ == if ends_with(name@, extension()) {
            name@
        } else {
            name@ + extension()
        },
{
    let len = name.unicode_len();
    proof {
        reveal_strlit(".flyc");
    }
    assert(".flyc"@ =~= extension());
    if len >= 5 && name.get_char(len - 5) == '.' && name.get_char(len - 4) == 'f' && name.get_char(
        len - 3,
    ) == 'l' && name.get_char(len - 2) == 'y' && name.get_char(len - 1) == 'c' {
        assert(name@.subrange(len - 5, len as int) =~= extension());
        String::from_str(name)
    } else {
        assert(!ends_with(name@, extension())) by {
            if ends_with(name@, extension()) {
                let tail = name@.subrange(len - 5, len as int);
                assert(tail[0] == '.' && tail[1] == 'f' && tail[2] == 'l' && tail[3] == 'y' && tail[4]
                    == 'c');
            }
        }
        String::from_str(name).concat(".flyc")
    }
}

} // verus!
