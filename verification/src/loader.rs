//! Which files of a directory are workflows.

use vstd::prelude::*;
use crate::text::{is_word, join2, join3, slice_chars, to_chars};

verus! {

/// Why workflows could not be loaded.
#[derive(Debug, Clone)]
pub enum LoadError {
    /// A file or a directory could not be read; holds what the system
    /// said.
    Io(String),
    /// A file is no workflow; holds its path and what the reader said.
    Yaml { file: String, error: String },
}

impl LoadError {
    /// How the error reads.
    pub open spec fn text(&self) -> Seq<char> {
        match self {
            LoadError::Io(s) => "IO error: "@ + s@,
            LoadError::Yaml { file, error } => "YAML parse error in "@ + file@ + ": "@ + error@,
        }
    }

    /// How the error reads.
    pub fn message(&self) -> (s: String)
        ensures
            s@ == self.text(),
    {
        match self {
            LoadError::Io(s) => join2("IO error: ", s.as_str()),
            LoadError::Yaml { file, error } => {
                let head = join3("YAML parse error in ", file.as_str(), ": ");
                join2(head.as_str(), error.as_str())
            },
        }
    }
}

/// The last place of `s` that holds a point, or -1.
pub open spec fn last_point(s: Seq<char>) -> int
    decreases s.len(),
{
    if s.len() == 0 {
        -1
    } else if s.last() == '.' {
        s.len() - 1
    } else {
        last_point(s.drop_last())
    }
}

/// The extension of a file name: what follows its last point, unless the
/// name has no point or its only point is its first character.
pub open spec fn extension(name: Seq<char>) -> Option<Seq<char>> {
    let at = last_point(name);
    if at <= 0 {
        None
    } else {
        Some(name.skip(at + 1))
    }
}

/// Whether the file called `name` is read as a workflow: its extension is
/// `yaml` or `yml`, and it is not the configuration of the runner.
pub open spec fn workflow_file(name: Seq<char>) -> bool {
    name != "runner.yaml"@ && name != "runner.yml"@ && (extension(name) == Some("yaml"@)
        || extension(name) == Some("yml"@))
}

/// Loads the workflows of a directory.
pub struct WorkflowLoader;

impl WorkflowLoader {
    /// Whether the file called `name` is read as a workflow.
    pub fn is_workflow_file(name: &str) -> (b: bool)
        ensures
            b == workflow_file(name@),
    {
        let v = to_chars(name);
        if is_word(&v, "runner.yaml") || is_word(&v, "runner.yml") {
            return false;
        }
        let mut at: usize = v.len();
        assert(v@.take(at as int) == v@);
        while at > 0 && v[at - 1] != '.'
            invariant
                at <= v.len(),
                last_point(v@) == last_point(v@.take(at as int)),
            decreases at,
        {
            proof {
                let part = v@.take(at as int);
                assert(part.last() == v[at - 1]);
                assert(part.drop_last() == v@.take(at - 1));
            }
            at = at - 1;
        }
        proof {
            let part = v@.take(at as int);
            if at > 0 {
                assert(part.last() == v[at - 1]);
            }
        }
        if at <= 1 {
            return false;
        }
        let ext = slice_chars(&v, at, v.len());
        assert(ext@ == v@.skip(at as int));
        is_word(&ext, "yaml") || is_word(&ext, "yml")
    }
}

} // verus!
