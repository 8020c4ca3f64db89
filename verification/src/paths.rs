//! Paths of files, as text.

use crate::text;
use vstd::prelude::*;

verus! {

/// The kind of system that a program runs on.
#[derive(Debug, Clone, Copy, PartialEq, Eq, Structural)]
pub enum System {
    Unix,
    Windows,
}

/// A drive without a directory on it, such as `C:`.
pub open spec fn is_drive(path: Seq<char>) -> bool {
    path.len() == 2 && ('a' <= path[0] <= 'z' || 'A' <= path[0] <= 'Z') && path[1] == ':'
}

/// Whether a name can follow a directory without a separator between them.
pub open spec fn ends_open(system: System, dir: Seq<char>) -> bool {
    match system {
        System::Unix => dir.len() == 0 || dir.last() == '/',
        System::Windows => dir.len() == 0 || dir.last() == '/' || dir.last() == '\\' || is_drive(
            dir,
        ),
    }
}

/// The path of a file in a directory.
pub open spec fn joined(system: System, dir: Seq<char>, name: Seq<char>) -> Seq<char> {
    if ends_open(system, dir) {
        dir + name
    } else {
        match system {
            System::Unix => dir + "/"@ + name,
            System::Windows => dir + "\\"@ + name,
        }
    }
}

/// The path of a file in a directory.
pub fn join(system: System, dir: &str, name: &str) -> (path: String)
    ensures
        path@ == joined(system, dir@, name@),
{
    let list = text::characters(dir);
    let path = dir.to_owned();
    if list.len() == 0 || list[list.len() - 1] == '/' {
        return path.concat(name);
    }
    match system {
        System::Unix => path.concat("/").concat(name),
        System::Windows => {
            let first: char = list[0];
            let letter: bool = ('a' <= first && first <= 'z') || ('A' <= first && first <= 'Z');
            if list[list.len() - 1] == '\\' || (list.len() == 2 && letter && list[1] == ':') {
                path.concat(name)
            } else {
                path.concat("\\").concat(name)
            }
        },
    }
}

} // verus!
