//! Which paths are taken for run files.

use vstd::prelude::*;

verus! {

/// Whether a selected file can be opened as a run file.
#[derive(Clone, Copy, Debug, PartialEq, Eq, Structural)]
pub enum FileValidity {
    Valid,
    Invalid,
}

impl Default for FileValidity {
    fn default() -> (validity: Self)
        ensures
            validity == FileValidity::Invalid,
    {
        FileValidity::Invalid
    }
}

/// The ending that the path of a run file has: `mzML`.
pub open spec fn file_format() -> Seq<char> {
    seq!['m', 'z', 'M', 'L']
}

/// Whether a path ends with the run file ending, letter case included.
pub open spec fn ends_with_file_format(path: Seq<char>) -> bool {
    path.len() >= 4 && path.subrange(path.len() - 4, path.len() as int) == file_format()
}

/// Whether a path ends with `mzML`. Upper and lower case are told apart.
pub fn has_file_format(path: &str) -> (accepted: bool)
    ensures
        accepted == ends_with_file_format(path@),
{
    let n: usize = path.unicode_len();
    if n < 4 {
        return false;
    }
    let a: char = path.get_char(n - 4);
    let b: char = path.get_char(n - 3);
    let c: char = path.get_char(n - 2);
    let d: char = path.get_char(n - 1);
    let accepted = a == 'm' && b == 'z' && c == 'M' && d == 'L';
    proof {
        let tail = path@.subrange(n - 4, n as int);
        assert(tail[0] == a && tail[1] == b && tail[2] == c && tail[3] == d);
        if accepted {
            assert(tail =~= file_format());
        }
    }
    accepted
}

/// A path is valid where it ends with `mzML`, and invalid elsewhere.
pub fn file_validity(path: &str) -> (validity: FileValidity)
    ensures
        validity == FileValidity::Valid <==> ends_with_file_format(path@),
{
    if has_file_format(path) {
        FileValidity::Valid
    } else {
        FileValidity::Invalid
    }
}

} // verus!
