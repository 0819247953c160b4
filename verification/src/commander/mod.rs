//! The commands that lazyjj runs (`jj`, `git`, `gh`) and what it makes of their
//! output.
//!
//! Running a program is input and output, which the library leaves to its
//! caller: each operation here says which program to run with which arguments,
//! and takes the program's output back to decide what comes next.

use vstd::prelude::*;

pub mod github;
pub mod text_map;
pub mod workspaces;

verus! {

/// An error from running `jj`, carrying the message that describes it.
#[derive(Debug, PartialEq, Eq)]
pub struct CommandError {
    pub message: String,
}

impl Clone for CommandError {
    fn clone(&self) -> (r: Self)
        ensures
            r == *self,
    {
        CommandError { message: self.message.clone() }
    }
}

/// Runs `jj` commands for the repository at `root`.
pub struct Commander {
    /// The repository's root directory.
    pub root: String,
}

/// A `jj` invocation: its arguments, whether its output may hold colors, and
/// whether it runs quietly.
pub struct JjCommand {
    pub args: Vec<String>,
    pub color: bool,
    pub quiet: bool,
}

/// An invocation of another program: its name, its arguments, and the directory
/// it runs in (the caller's own when `None`).
pub struct ProgramCommand {
    pub program: String,
    pub args: Vec<String>,
    pub current_dir: Option<String>,
}

/// What a program that ran to its end produced: whether it exited successfully,
/// and its standard output when that is valid UTF-8.
pub struct ProgramOutput {
    pub success: bool,
    pub stdout: Option<String>,
}

/// The character views of a sequence of strings.
pub open spec fn string_views(v: Seq<String>) -> Seq<Seq<char>> {
    v.map_values(|s: String| s@)
}

/// The standard output of a program run, when the program could be run, exited
/// successfully and wrote UTF-8.
pub open spec fn successful_stdout(output: Option<ProgramOutput>) -> Option<Seq<char>> {
    match output {
        Some(o) => if o.success {
            match o.stdout {
                Some(s) => Some(s@),
                None => None,
            }
        } else {
            None
        },
        None => None,
    }
}

/// Executable `successful_stdout`.
pub fn successful_stdout_of(output: Option<ProgramOutput>) -> (r: Option<String>)
    ensures
        r matches Some(s) ==> successful_stdout(output) == Some(s@),
        r is None ==> successful_stdout(output) is None,
{
    match output {
        Some(o) => if o.success {
            o.stdout
        } else {
            None
        },
        None => None,
    }
}

/// `s` without one final line ending (`\n` or `\r\n`).
pub open spec fn remove_end_line(s: Seq<char>) -> Seq<char> {
    if s.len() > 0 && s.last() == '\n' {
        let t = s.drop_last();
        if t.len() > 0 && t.last() == '\r' {
            t.drop_last()
        } else {
            t
        }
    } else {
        s
    }
}

/// Executable `remove_end_line`.
pub fn remove_end_line_of(s: &str) -> (r: String)
    ensures
        r@ == remove_end_line(s@),
{
    let v = crate::text::chars_of(s);
    let mut n = v.len();
    if n > 0 && v[n - 1] == '\n' {
        n -= 1;
        if n > 0 && v[n - 1] == '\r' {
            n -= 1;
        }
    }
    let t = crate::text::slice_of(&v, 0, n);
    assert(v@.drop_last() == v@.subrange(0, v.len() - 1));
    assert(v@.subrange(0, v.len() as int) == v@);
    proof {
        if v.len() >= 2 {
            assert(v@.drop_last().drop_last() == v@.subrange(0, v.len() - 2));
        }
    }
    crate::text::string_of(&t)
}

/// A vector of owned strings from a vector of string slices.
pub fn owned_strings(v: &Vec<&str>) -> (r: Vec<String>)
    ensures
        r@.len() == v@.len(),
        forall|i: int| 0 <= i < v@.len() ==> #[trigger] r@[i]@ == v@[i]@,
{
    let mut r: Vec<String> = Vec::new();
    let mut i: usize = 0;
    while i < v.len()
        invariant
            i <= v.len(),
            r@.len() == i,
            forall|j: int| 0 <= j < i ==> #[trigger] r@[j]@ == v@[j]@,
        decreases v.len() - i,
    {
        r.push(String::from_str(v[i]));
        i += 1;
    }
    r
}

/// What a command that is run for its effect returns: nothing on success, and
/// the command's error otherwise.
pub fn command_status(output: Result<String, CommandError>) -> (r: Result<(), CommandError>)
    ensures
        output is Ok ==> r is Ok,
        output matches Err(e) ==> r == Err::<(), CommandError>(e),
{
    match output {
        Ok(_) => Ok(()),
        Err(e) => Err(e),
    }
}

} // verus!
