//! Effects that the library asks its caller to perform on the outside world.
use vstd::prelude::*;
use vstd::string::StringExecFns;

verus! {

/// One effect on the repository or the file system.
pub enum Command {
    /// Run the version-control binary with `args`, feeding `input` on its
    /// standard input when present.
    Git { args: Vec<String>, input: Option<Vec<u8>> },
    /// Make `path` the working directory of the process.
    ChangeDir { path: String },
    /// Copy the file `from` to `to`, creating the parent directories of `to`.
    CopyFile { from: String, to: String },
    /// Remove the directory `path` and all it holds, if it is still there.
    RemoveDir { path: String },
}

/// What a [`Command`] is, as plain sequences.
pub enum CommandView {
    Git { args: Seq<Seq<char>>, input: Option<Seq<u8>> },
    ChangeDir { path: Seq<char> },
    CopyFile { from: Seq<char>, to: Seq<char> },
    RemoveDir { path: Seq<char> },
}

impl View for Command {
    type V = CommandView;

    open spec fn view(&self) -> CommandView {
        match self {
            Command::Git { args, input } => CommandView::Git {
                args: args.deep_view(),
                input: match input {
                    Some(b) => Some(b@),
                    None => None,
                },
            },
            Command::ChangeDir { path } => CommandView::ChangeDir { path: path@ },
            Command::CopyFile { from, to } => CommandView::CopyFile { from: from@, to: to@ },
            Command::RemoveDir { path } => CommandView::RemoveDir { path: path@ },
        }
    }
}

pub open spec fn opt_command_view(c: Option<Command>) -> Option<CommandView> {
    match c {
        Some(c) => Some(c@),
        None => None,
    }
}

/// How a command ended: whether it succeeded, and what it printed.
pub struct Outcome {
    pub success: bool,
    pub stdout: Vec<u8>,
}

/// `a` and `b` joined by a path separator.
pub open spec fn join_path(a: Seq<char>, b: Seq<char>) -> Seq<char> {
    a + "/"@ + b
}

pub fn join(a: &str, b: &str) -> (r: String)
    ensures
        r@ == join_path(a@, b@),
{
    let mut r = String::from_str(a);
    r.append("/");
    r.append(b);
    r
}

pub fn arg(s: &str) -> (r: String)
    ensures
        r@ == s@,
{
    String::from_str(s)
}

} // verus!
