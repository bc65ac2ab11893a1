//! The command that starts the process of a bridge.

use vstd::prelude::*;
use crate::context::option_text;
use crate::namemap::{as_text, NameMap};
use crate::text::{copy_names, from_chars, texts, to_chars};

verus! {

/// A command: a program with its arguments, the directory in which it
/// runs, and what is added to its environment.
#[derive(Debug)]
pub struct CommandLine {
    pub program: String,
    pub args: Vec<String>,
    /// None: the directory of the engine.
    pub working_dir: Option<String>,
    pub env: NameMap<String>,
}

/// What a [`CommandLine`] holds.
pub struct CommandView {
    pub program: Seq<char>,
    pub args: Seq<Seq<char>>,
    pub working_dir: Option<Seq<char>>,
    pub env: Map<Seq<char>, Seq<char>>,
}

impl View for CommandLine {
    type V = CommandView;

    open spec fn view(&self) -> CommandView {
        CommandView {
            program: self.program@,
            args: texts(self.args@),
            working_dir: option_text(self.working_dir),
            env: as_text(self.env@),
        }
    }
}

/// A copy of an optional string.
pub fn copy_option(text: &Option<String>) -> (copy: Option<String>)
    ensures
        option_text(copy) == option_text(*text),
{
    match text {
        Some(t) => Some(t.clone()),
        None => None,
    }
}

impl CommandLine {
    /// The command that runs `program` on `args` in `working_dir`, with
    /// `env` added to its environment.
    pub fn new(
        program: &str,
        args: &Vec<String>,
        working_dir: &Option<String>,
        env: &NameMap<String>,
    ) -> (command: Self)
        ensures
            command@ == (CommandView {
                program: program@,
                args: texts(args@),
                working_dir: option_text(*working_dir),
                env: as_text(env@),
            }),
    {
        CommandLine {
            program: program.to_string(),
            args: copy_names(args),
            working_dir: copy_option(working_dir),
            env: env.copy(),
        }
    }
}

/// The parts of `parts` in a row, with `sep` between each two.
pub open spec fn joined(parts: Seq<Seq<char>>, sep: Seq<char>) -> Seq<char>
    decreases parts.len(),
{
    if parts.len() == 0 {
        Seq::empty()
    } else if parts.len() == 1 {
        parts[0]
    } else {
        joined(parts.drop_last(), sep) + sep + parts.last()
    }
}

/// The strings of `parts` in a row, with `sep` between each two.
pub fn join(parts: &Vec<String>, sep: &str) -> (s: String)
    ensures
        s@ == joined(texts(parts@), sep@),
{
    let mut out: Vec<char> = Vec::new();
    let mut i: usize = 0;
    while i < parts.len()
        invariant
            i <= parts.len(),
            out@ == joined(texts(parts@).take(i as int), sep@),
        decreases parts.len() - i,
    {
        let ghost before = texts(parts@).take(i as int);
        let ghost after = texts(parts@).take(i + 1);
        if i > 0 {
            let mut s = to_chars(sep);
            out.append(&mut s);
        }
        let mut part = to_chars(parts[i].as_str());
        out.append(&mut part);
        proof {
            assert(after.drop_last() =~= before);
            assert(after.last() == parts[i as int]@);
        }
        i = i + 1;
    }
    assert(texts(parts@).take(parts.len() as int) =~= texts(parts@));
    from_chars(&out)
}

} // verus!
