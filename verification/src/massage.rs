//! `cargo massage`: runs the matrix commands `fix`, `fmt`, `check` and
//! `test` in turn.

use vstd::prelude::*;

use crate::matrix::MatrixArgs;
use crate::text::{clone_strings, views};

verus! {

/// The packages to massage: none (meaning all of them) when the whole
/// workspace was asked for or no package was named, else the named ones.
pub open spec fn massage_packages(workspace: bool, package: Seq<String>) -> Seq<Seq<char>> {
    if workspace || package.len() == 0 {
        seq![]
    } else {
        views(package)
    }
}

/// The matrix commands that a massage runs, in order.
pub open spec fn massage_commands() -> Seq<Seq<char>> {
    seq!["fix"@, "fmt"@, "check"@, "test"@]
}

/// The matrix runs of one massage: one per command, in order, each over the
/// selected packages, with the default configuration and the given
/// verbosity.
pub fn massage_runs(workspace: bool, package: &Vec<String>, verbose: bool) -> (r: Vec<MatrixArgs>)
    ensures
        r@.len() == 4,
        forall|i: int|
            0 <= i < 4 ==> {
                &&& (#[trigger] r@[i]).config is None
                &&& r@[i].command matches Some(c) && c@ == massage_commands()[i]
                &&& views(r@[i].packages@) == massage_packages(workspace, package@)
                &&& r@[i].verbose == verbose
            },
{
    let packages: Vec<String> = if workspace || package.len() == 0 {
        Vec::new()
    } else {
        clone_strings(package)
    };
    assert(views(packages@) =~= massage_packages(workspace, package@));
    let mut runs: Vec<MatrixArgs> = Vec::new();
    runs.push(
        MatrixArgs {
            config: None,
            command: Some(String::from_str("fix")),
            packages: clone_strings(&packages),
            verbose,
        },
    );
    runs.push(
        MatrixArgs {
            config: None,
            command: Some(String::from_str("fmt")),
            packages: clone_strings(&packages),
            verbose,
        },
    );
    runs.push(
        MatrixArgs {
            config: None,
            command: Some(String::from_str("check")),
            packages: clone_strings(&packages),
            verbose,
        },
    );
    runs.push(
        MatrixArgs {
            config: None,
            command: Some(String::from_str("test")),
            packages: clone_strings(&packages),
            verbose,
        },
    );
    runs
}

} // verus!
