//! The arguments with which the linker is called.

use vstd::prelude::*;
use vstd::string::*;

verus! {

/// How the linker is to work.
#[derive(Debug)]
pub struct LinkerOptions {
    /// The path of the executable that the linker writes; the linker's own choice if `None`.
    pub output_path: Option<String>,
}

/// The texts of a list of strings.
pub open spec fn texts(list: Seq<String>) -> Seq<Seq<char>> {
    Seq::new(list.len(), |i: int| list[i]@)
}

/// The arguments of the linker: the files, and then `-o` with the output path if one is
/// set.
pub open spec fn arguments(files: Seq<Seq<char>>, output: Option<Seq<char>>) -> Seq<Seq<char>> {
    match output {
        Some(path) => files.push("-o"@).push(path),
        None => files,
    }
}

/// The arguments with which the linker is called for `files` under `options`.
pub fn link_arguments(files: Vec<String>, options: LinkerOptions) -> (r: Vec<String>)
    ensures
        texts(r@) == arguments(
            texts(files@),
            match options.output_path {
                Some(p) => Some(p@),
                None => None,
            },
        ),
{
    let mut args = files;
    match options.output_path {
        Some(path) => {
            let ghost before = texts(args@);
            args.push(String::from_str("-o"));
            assert(texts(args@) =~= before.push("-o"@));
            let ghost middle = texts(args@);
            args.push(path);
            assert(texts(args@) =~= middle.push(path@));
        },
        None => {},
    }
    args
}

} // verus!
